//! Stable participant identities.
//!
//! A peer is identified by a 128-bit value derived deterministically from its
//! remote endpoint: the digest of the text `"<address>:<port>"` under a fixed
//! one-way hash. The same endpoint therefore resolves to the same identity in
//! every process run, which lets application code treat a reconnecting peer as
//! the same participant without a handshake-level identity protocol.

use vstd::bytes::spec_u128_from_le_bytes;
use vstd::bytes::u128_from_le_bytes;
use vstd::prelude::*;
use vstd::string::StringExecFns;

verus! {

/// A stable 128-bit participant identity, derived from a peer's remote
/// endpoint and never generated randomly.
#[derive(Clone, Copy, PartialEq, Eq, Structural, Debug)]
pub struct PlayerId {
    pub value: u128,
}

/// The digest that the fixed one-way hash assigns to a text; it depends on
/// the characters alone.
pub uninterp spec fn md5_of(s: Seq<char>) -> Seq<u8>;

/// Relies on md5::compute: a 16-byte digest, a function of the input bytes
/// alone.
#[verifier::external_body]
fn md5_digest(s: &str) -> (r: Vec<u8>)
    ensures
        r@ == md5_of(s@),
        r@.len() == 16,
{
    md5::compute(s).0.to_vec()
}

/// The character for one decimal digit.
pub open spec fn spec_digit(d: nat) -> char {
    if d == 0 {
        '0'
    } else if d == 1 {
        '1'
    } else if d == 2 {
        '2'
    } else if d == 3 {
        '3'
    } else if d == 4 {
        '4'
    } else if d == 5 {
        '5'
    } else if d == 6 {
        '6'
    } else if d == 7 {
        '7'
    } else if d == 8 {
        '8'
    } else {
        '9'
    }
}

/// The decimal rendering of a number, most significant digit first, with no
/// leading zeros (a lone zero for 0).
pub open spec fn spec_decimal(n: nat) -> Seq<char>
    decreases n,
{
    if n < 10 {
        seq![spec_digit(n)]
    } else {
        spec_decimal(n / 10).push(spec_digit(n % 10))
    }
}

pub open spec fn is_decimal_digit(c: char) -> bool {
    c == '0' || c == '1' || c == '2' || c == '3' || c == '4' || c == '5' || c == '6' || c == '7'
        || c == '8' || c == '9'
}

/// The number a digit character stands for.
pub open spec fn digit_val(c: char) -> nat {
    if c == '0' {
        0
    } else if c == '1' {
        1
    } else if c == '2' {
        2
    } else if c == '3' {
        3
    } else if c == '4' {
        4
    } else if c == '5' {
        5
    } else if c == '6' {
        6
    } else if c == '7' {
        7
    } else if c == '8' {
        8
    } else {
        9
    }
}

/// The number a digit string stands for.
pub open spec fn decimal_val(s: Seq<char>) -> nat
    decreases s.len(),
{
    if s.len() == 0 {
        0
    } else {
        decimal_val(s.drop_last()) * 10 + digit_val(s.last())
    }
}

pub proof fn lemma_decimal_roundtrip(n: nat)
    ensures
        decimal_val(spec_decimal(n)) == n,
    decreases n,
{
    if n < 10 {
        let s = spec_decimal(n);
        assert(s.len() == 1);
        assert(s.last() == spec_digit(n));
        assert(s.drop_last() =~= Seq::<char>::empty());
        assert(decimal_val(s.drop_last()) == 0);
        assert(decimal_val(s) == 0 * 10 + digit_val(spec_digit(n)));
        assert(digit_val(spec_digit(n)) == n);
    } else {
        lemma_decimal_roundtrip(n / 10);
        let prefix = spec_decimal(n / 10);
        let s = spec_decimal(n);
        assert(s.drop_last() =~= prefix);
        assert(s.last() == spec_digit(n % 10));
        assert(decimal_val(s) == (n / 10) * 10 + n % 10);
        assert((n / 10) * 10 + n % 10 == n) by (nonlinear_arith);
    }
}

pub proof fn lemma_decimal_digits_only(n: nat)
    ensures
        forall|i: int|
            0 <= i < spec_decimal(n).len() ==> is_decimal_digit(#[trigger] spec_decimal(n)[i]),
    decreases n,
{
    if n < 10 {
        assert forall|i: int|
            0 <= i < spec_decimal(n).len() implies is_decimal_digit(
            #[trigger] spec_decimal(n)[i],
        ) by {
            assert(spec_decimal(n)[i] == spec_digit(n));
        }
    } else {
        lemma_decimal_digits_only(n / 10);
        let prefix = spec_decimal(n / 10);
        assert forall|i: int|
            0 <= i < spec_decimal(n).len() implies is_decimal_digit(
            #[trigger] spec_decimal(n)[i],
        ) by {
            if i < prefix.len() {
                assert(spec_decimal(n)[i] == prefix[i]);
            } else {
                assert(spec_decimal(n)[i] == spec_digit(n % 10));
            }
        }
    }
}

/// The text a peer endpoint is hashed under: address, one colon, then the
/// port in decimal.
pub open spec fn endpoint_key(addr: Seq<char>, port: u16) -> Seq<char> {
    addr + seq![':'] + spec_decimal(port as nat)
}

/// The stable identity of the peer endpoint `(addr, port)`.
pub open spec fn stable_id_of(addr: Seq<char>, port: u16) -> u128 {
    spec_u128_from_le_bytes(md5_of(endpoint_key(addr, port)))
}

fn digit_str(d: u16) -> (s: &'static str)
    requires
        d < 10,
    ensures
        s@ == seq![spec_digit(d as nat)],
{
    match d {
        0 => {
            proof {
                reveal_strlit("0");
                assert("0"@ =~= seq![spec_digit(0)]);
            }
            "0"
        },
        1 => {
            proof {
                reveal_strlit("1");
                assert("1"@ =~= seq![spec_digit(1)]);
            }
            "1"
        },
        2 => {
            proof {
                reveal_strlit("2");
                assert("2"@ =~= seq![spec_digit(2)]);
            }
            "2"
        },
        3 => {
            proof {
                reveal_strlit("3");
                assert("3"@ =~= seq![spec_digit(3)]);
            }
            "3"
        },
        4 => {
            proof {
                reveal_strlit("4");
                assert("4"@ =~= seq![spec_digit(4)]);
            }
            "4"
        },
        5 => {
            proof {
                reveal_strlit("5");
                assert("5"@ =~= seq![spec_digit(5)]);
            }
            "5"
        },
        6 => {
            proof {
                reveal_strlit("6");
                assert("6"@ =~= seq![spec_digit(6)]);
            }
            "6"
        },
        7 => {
            proof {
                reveal_strlit("7");
                assert("7"@ =~= seq![spec_digit(7)]);
            }
            "7"
        },
        8 => {
            proof {
                reveal_strlit("8");
                assert("8"@ =~= seq![spec_digit(8)]);
            }
            "8"
        },
        _ => {
            proof {
                reveal_strlit("9");
                assert("9"@ =~= seq![spec_digit(9)]);
            }
            "9"
        },
    }
}

/// The decimal rendering of a port number.
pub fn u16_to_decimal(n: u16) -> (s: String)
    ensures
        s@ == spec_decimal(n as nat),
    decreases n,
{
    if n < 10 {
        let s = digit_str(n).to_owned();
        s
    } else {
        let mut s = u16_to_decimal(n / 10);
        s.append(digit_str(n % 10));
        proof {
            assert(s@ =~= spec_decimal((n / 10) as nat).push(spec_digit((n % 10) as nat)));
        }
        s
    }
}

/// The text a peer endpoint is hashed under.
pub fn endpoint_key_string(addr: &str, port: u16) -> (s: String)
    ensures
        s@ == endpoint_key(addr@, port),
{
    let mut s = addr.to_owned();
    s.append(":");
    let digits = u16_to_decimal(port);
    s.append(digits.as_str());
    proof {
        reveal_strlit(":");
        assert(":"@ =~= seq![':']);
        assert(s@ =~= endpoint_key(addr@, port));
    }
    s
}

/// Resolve a peer endpoint to its stable identity. Deterministic and total:
/// the result is a pure function of the address and port.
pub fn resolve_identity(addr: &str, port: u16) -> (id: PlayerId)
    ensures
        id.value == stable_id_of(addr@, port),
{
    let key = endpoint_key_string(addr, port);
    let digest = md5_digest(key.as_str());
    let value = u128_from_le_bytes(digest.as_slice());
    PlayerId { value }
}

/// Law: the endpoint text is injective. Two endpoints whose addresses hold no
/// colon produce the same key text only if address and port both agree; the
/// derived identities can then only collide where the hash itself collides.
pub proof fn lemma_endpoint_key_injective(a1: Seq<char>, p1: u16, a2: Seq<char>, p2: u16)
    requires
        forall|i: int| 0 <= i < a1.len() ==> a1[i] != ':',
        forall|i: int| 0 <= i < a2.len() ==> a2[i] != ':',
        endpoint_key(a1, p1) == endpoint_key(a2, p2),
    ensures
        a1 == a2,
        p1 == p2,
{
    let d1 = spec_decimal(p1 as nat);
    let d2 = spec_decimal(p2 as nat);
    let s1 = endpoint_key(a1, p1);
    let s2 = endpoint_key(a2, p2);
    lemma_decimal_digits_only(p1 as nat);
    lemma_decimal_digits_only(p2 as nat);
    if a1.len() < a2.len() {
        assert(s1[a1.len() as int] == ':');
        assert(s2[a1.len() as int] == a2[a1.len() as int]);
        assert(false);
    }
    if a2.len() < a1.len() {
        assert(s2[a2.len() as int] == ':');
        assert(s1[a2.len() as int] == a1[a2.len() as int]);
        assert(false);
    }
    let n = a1.len() as int;
    let pre1 = a1 + seq![':'];
    let pre2 = a2 + seq![':'];
    assert(a2.len() == n);
    assert(pre1.len() == n + 1);
    assert(pre2.len() == n + 1);
    assert(s1.len() == n + 1 + d1.len());
    assert(s2.len() == n + 1 + d2.len());
    assert(d1.len() == d2.len());
    assert(a1 =~= a2) by {
        assert forall|i: int| 0 <= i < a1.len() implies a1[i] == a2[i] by {
            assert(s1[i] == pre1[i]);
            assert(pre1[i] == a1[i]);
            assert(s2[i] == pre2[i]);
            assert(pre2[i] == a2[i]);
        }
    }
    assert(d1 =~= d2) by {
        assert forall|j: int| 0 <= j < d1.len() implies d1[j] == d2[j] by {
            assert(s1[n + 1 + j] == d1[n + 1 + j - pre1.len()]);
            assert(s2[n + 1 + j] == d2[n + 1 + j - pre2.len()]);
        }
    }
    lemma_decimal_roundtrip(p1 as nat);
    lemma_decimal_roundtrip(p2 as nat);
}

/// Law: distinct peer endpoints (addresses without a colon) are hashed under
/// distinct key texts.
pub proof fn lemma_distinct_endpoints_distinct_keys(a1: Seq<char>, p1: u16, a2: Seq<char>, p2: u16)
    requires
        forall|i: int| 0 <= i < a1.len() ==> a1[i] != ':',
        forall|i: int| 0 <= i < a2.len() ==> a2[i] != ':',
        a1 != a2 || p1 != p2,
    ensures
        endpoint_key(a1, p1) != endpoint_key(a2, p2),
{
    if endpoint_key(a1, p1) == endpoint_key(a2, p2) {
        lemma_endpoint_key_injective(a1, p1, a2, p2);
    }
}

} // verus!
