//! The connection registry: a bidirectional, unique mapping between stable
//! identities and live transport connection handles.
//!
//! The registry is the single source of truth for who is currently connected.
//! It is backed by a bimap, kept behind a small set of trusted wrappers; the
//! bijection invariant itself is established and preserved by the verified
//! methods below.

use crate::identity::PlayerId;
use vstd::prelude::*;

verus! {

#[verifier::external_type_specification]
#[verifier::external_body]
#[verifier::reject_recursive_types(L)]
#[verifier::reject_recursive_types(R)]
#[verifier::reject_recursive_types(LS)]
#[verifier::reject_recursive_types(RS)]
pub struct ExBiHashMap<L, R, LS, RS>(bimap::BiHashMap<L, R, LS, RS>);

/// The bimap holding identity values on the left and handles on the right.
pub type PairMap = bimap::BiHashMap<u128, u64>;

/// The left-to-right pairs a bimap holds.
pub uninterp spec fn bimap_entries(m: PairMap) -> Map<u128, u64>;

/// Relies on BiHashMap::new: creates an empty bimap.
#[verifier::external_body]
fn bimap_new() -> (r: PairMap)
    ensures
        bimap_entries(r).dom() == Set::<u128>::empty(),
{
    bimap::BiHashMap::new()
}

/// Relies on BiHashMap::insert_no_overwrite: the pair goes in only when
/// neither its left nor its right value is already present; otherwise the
/// bimap is left unchanged and the pair is handed back as an error.
#[verifier::external_body]
fn bimap_insert_no_overwrite(m: &mut PairMap, left: u128, right: u64) -> (ok:
    bool)
    ensures
        ok == (!bimap_entries(*old(m)).contains_key(left) && !bimap_entries(
            *old(m),
        ).contains_value(right)),
        ok ==> bimap_entries(*final(m)) == bimap_entries(*old(m)).insert(left, right),
        !ok ==> bimap_entries(*final(m)) == bimap_entries(*old(m)),
{
    match m.insert_no_overwrite(left, right) {
        Ok(()) => true,
        Err(_) => false,
    }
}

/// Relies on BiHashMap::get_by_left.
#[verifier::external_body]
fn bimap_get_by_left(m: &PairMap, left: u128) -> (r: Option<u64>)
    ensures
        r == if bimap_entries(*m).contains_key(left) {
            Some(bimap_entries(*m)[left])
        } else {
            None::<u64>
        },
{
    m.get_by_left(&left).copied()
}

/// Relies on BiHashMap::get_by_right, and on the bimap keeping its two inner
/// maps exact mirrors of one another.
#[verifier::external_body]
fn bimap_get_by_right(m: &PairMap, right: u64) -> (r: Option<u128>)
    ensures
        match r {
            Some(left) => bimap_entries(*m).contains_pair(left, right),
            None => !bimap_entries(*m).contains_value(right),
        },
{
    m.get_by_right(&right).copied()
}

/// Relies on BiHashMap::contains_left.
#[verifier::external_body]
fn bimap_contains_left(m: &PairMap, left: u128) -> (b: bool)
    ensures
        b == bimap_entries(*m).contains_key(left),
{
    m.contains_left(&left)
}

/// Relies on BiHashMap::remove_by_left: removes the pair with the given left
/// value from both directions and returns it, or returns nothing when the
/// left value is absent.
#[verifier::external_body]
fn bimap_remove_by_left(m: &mut PairMap, left: u128) -> (r: Option<
    (u128, u64),
>)
    ensures
        bimap_entries(*final(m)) == bimap_entries(*old(m)).remove(left),
        r == if bimap_entries(*old(m)).contains_key(left) {
            Some((left, bimap_entries(*old(m))[left]))
        } else {
            None::<(u128, u64)>
        },
{
    m.remove_by_left(&left)
}

/// Relies on BiHashMap::len: the number of left-right pairs.
#[verifier::external_body]
fn bimap_len(m: &PairMap) -> (n: usize)
    ensures
        n == bimap_entries(*m).dom().len(),
{
    m.len()
}

/// Relies on BiHashMap::iter: yields every left-right pair exactly once, in
/// arbitrary order.
#[verifier::external_body]
fn bimap_pairs(m: &PairMap) -> (v: Vec<(u128, u64)>)
    ensures
        v@.len() == bimap_entries(*m).dom().len(),
        forall|i: int|
            0 <= i < v@.len() ==> bimap_entries(*m).contains_pair(
                #[trigger] v@[i].0,
                v@[i].1,
            ),
        forall|i: int, j: int| 0 <= i < j < v@.len() ==> #[trigger] v@[i].0 != #[trigger] v@[j].0,
        forall|k: u128|
            #[trigger] bimap_entries(*m).contains_key(k) ==> exists|i: int|
                0 <= i < v@.len() && v@[i] == (k, bimap_entries(*m)[k]),
{
    m.iter().map(|(l, r)| (*l, *r)).collect()
}

/// The bidirectional registry of currently connected peers.
pub struct ConnectionRegistry {
    map: PairMap,
}

impl ConnectionRegistry {
    /// The pairs currently registered, identity value to handle.
    pub closed spec fn entries(&self) -> Map<u128, u64> {
        bimap_entries(self.map)
    }

    /// Well-formed: finitely many entries, and no transport handle is shared
    /// by two identities. Together with the map shape (one handle per
    /// identity), this makes the registry a bijection over the connected set.
    pub open spec fn wf(&self) -> bool {
        &&& self.entries().dom().finite()
        &&& forall|k1: u128, k2: u128|
            #![auto]
            self.entries().contains_key(k1) && self.entries().contains_key(k2) && k1 != k2
                ==> self.entries()[k1] != self.entries()[k2]
    }

    /// An empty registry.
    pub fn new() -> (r: ConnectionRegistry)
        ensures
            r.entries() == Map::<u128, u64>::empty(),
            r.wf(),
    {
        let r = ConnectionRegistry { map: bimap_new() };
        proof {
            assert(r.entries() =~= Map::<u128, u64>::empty());
        }
        r
    }

    /// Register a connected peer. Succeeds exactly when neither the identity
    /// nor the handle is present; overwriting is never silently allowed.
    pub fn insert(&mut self, id: PlayerId, handle: u64) -> (ok: bool)
        requires
            old(self).wf(),
        ensures
            ok == (!old(self).entries().contains_key(id.value) && !old(
                self,
            ).entries().contains_value(handle)),
            ok ==> final(self).entries() == old(self).entries().insert(id.value, handle),
            !ok ==> final(self).entries() == old(self).entries(),
            final(self).wf(),
    {
        let ok = bimap_insert_no_overwrite(&mut self.map, id.value, handle);
        proof {
            if ok {
                let m0 = old(self).entries();
                let m1 = self.entries();
                assert forall|k1: u128, k2: u128|
                    #![auto]
                    m1.contains_key(k1) && m1.contains_key(k2) && k1 != k2 implies m1[k1]
                    != m1[k2] by {
                    if k1 != id.value && k2 != id.value {
                        assert(m0.contains_key(k1) && m0.contains_key(k2));
                    }
                }
            }
        }
        ok
    }

    /// Drop the entry for an identity, if one exists; reports whether one did.
    pub fn remove_by_identifier(&mut self, id: PlayerId) -> (present: bool)
        requires
            old(self).wf(),
        ensures
            present == old(self).entries().contains_key(id.value),
            final(self).entries() == old(self).entries().remove(id.value),
            final(self).wf(),
    {
        let removed = bimap_remove_by_left(&mut self.map, id.value);
        proof {
            assert(self.entries().dom() =~= old(self).entries().dom().remove(id.value));
        }
        match removed {
            Some(_) => true,
            None => false,
        }
    }

    /// The handle a registered identity maps to.
    pub fn lookup_by_identifier(&self, id: PlayerId) -> (r: Option<u64>)
        ensures
            r == if self.entries().contains_key(id.value) {
                Some(self.entries()[id.value])
            } else {
                None::<u64>
            },
    {
        bimap_get_by_left(&self.map, id.value)
    }

    /// The identity a transport handle belongs to, if it is registered.
    pub fn lookup_by_handle(&self, handle: u64) -> (r: Option<PlayerId>)
        ensures
            match r {
                Some(p) => self.entries().contains_pair(p.value, handle),
                None => !self.entries().contains_value(handle),
            },
    {
        match bimap_get_by_right(&self.map, handle) {
            Some(left) => Some(PlayerId { value: left }),
            None => None,
        }
    }

    pub fn contains_identifier(&self, id: PlayerId) -> (b: bool)
        ensures
            b == self.entries().contains_key(id.value),
    {
        bimap_contains_left(&self.map, id.value)
    }

    /// How many peers are connected.
    pub fn len(&self) -> (n: usize)
        ensures
            n == self.entries().dom().len(),
    {
        bimap_len(&self.map)
    }

    /// Every registered (identity value, handle) pair, each exactly once, in
    /// arbitrary order.
    pub fn pairs(&self) -> (v: Vec<(u128, u64)>)
        ensures
            v@.len() == self.entries().dom().len(),
            forall|i: int|
                0 <= i < v@.len() ==> self.entries().contains_pair(#[trigger] v@[i].0, v@[i].1),
            forall|i: int, j: int| 0 <= i < j < v@.len() ==> #[trigger] v@[i].0 != #[trigger] v@[j].0,
            forall|k: u128|
                #[trigger] self.entries().contains_key(k) ==> exists|i: int|
                    0 <= i < v@.len() && v@[i] == (k, self.entries()[k]),
    {
        bimap_pairs(&self.map)
    }
}

/// Law: between processing cycles the registry is a bijection. Identities are
/// map keys, so each maps to at most one handle; well-formedness adds that no
/// handle is reachable from two identities.
pub proof fn lemma_registry_bijective(r: &ConnectionRegistry)
    requires
        r.wf(),
    ensures
        forall|k1: u128, k2: u128|
            #![auto]
            r.entries().contains_key(k1) && r.entries().contains_key(k2) && k1 != k2
                ==> r.entries()[k1] != r.entries()[k2],
{
}

} // verus!
