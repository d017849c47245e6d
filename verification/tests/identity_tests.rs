use omgpp_server::identity::endpoint_key_string;
use omgpp_server::identity::resolve_identity;
use omgpp_server::identity::u16_to_decimal;

#[test]
fn decimal_rendering_exact() {
    assert_eq!(u16_to_decimal(0).as_str(), "0");
    assert_eq!(u16_to_decimal(7).as_str(), "7");
    assert_eq!(u16_to_decimal(80).as_str(), "80");
    assert_eq!(u16_to_decimal(4000).as_str(), "4000");
    assert_eq!(u16_to_decimal(65535).as_str(), "65535");
}

#[test]
fn endpoint_key_exact() {
    assert_eq!(endpoint_key_string("203.0.113.5", 4000).as_str(), "203.0.113.5:4000");
    assert_eq!(endpoint_key_string("::1", 80).as_str(), "::1:80");
}

#[test]
fn identity_is_deterministic() {
    let a = resolve_identity("203.0.113.5", 4000);
    let b = resolve_identity("203.0.113.5", 4000);
    assert_eq!(a.value, b.value);
}

#[test]
fn identity_matches_fixed_hash() {
    // The identity must be exactly the md5 digest of "address:port"; this
    // fails if the digest wrapper handed anything else back.
    let id = resolve_identity("203.0.113.5", 4000);
    let digest = md5::compute("203.0.113.5:4000");
    assert_eq!(id.value, u128::from_le_bytes(digest.0));
    assert_eq!(id.value, uuid::Uuid::from_bytes(digest.0).to_u128_le());
}

#[test]
fn identity_distinct_endpoints() {
    let a = resolve_identity("203.0.113.5", 4000);
    let b = resolve_identity("203.0.113.5", 4001);
    let c = resolve_identity("203.0.113.6", 4000);
    assert_ne!(a.value, b.value);
    assert_ne!(a.value, c.value);
    assert_ne!(b.value, c.value);
}
