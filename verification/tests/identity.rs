use std::collections::hash_map::RandomState;
use std::hash::BuildHasher;

use bombay::entity::id::EntityId;

#[test]
fn entity_id_preserves_domain_identity() {
    let id = EntityId::new(42_u64);

    assert_eq!(id.get(), &42);
    assert_eq!(id.to_string(), "42");
    assert_eq!(id.into_inner(), 42);
}

#[test]
fn distinct_domain_values_are_distinct_identities() {
    assert_eq!(EntityId::new("a"), EntityId::new("a"));
    assert_ne!(EntityId::new("a"), EntityId::new("b"));
    assert!(EntityId::new(1_u8) < EntityId::new(2_u8));
}

#[test]
fn only_the_domain_value_decides_order_and_hash() {
    let hasher = RandomState::new();
    for (one, other) in [(1_u64, 2_u64), (2, 2), (9, 3)] {
        let (a, b) = (EntityId::new(one), EntityId::new(other));
        assert_eq!(a == b, one == other);
        assert_eq!(a.partial_cmp(&b), one.partial_cmp(&other));
        assert_eq!(a.cmp(&b), one.cmp(&other));
        assert_eq!(hasher.hash_one(a), hasher.hash_one(one));
    }
}
