use gfx_memory::Access;
use std::cmp::Ordering;
use std::collections::{BTreeSet, HashMap};

fn every_access() -> Vec<Access> {
    vec![Access::empty(), Access::read(), Access::write(), Access::read_write()]
}

#[test]
fn access_named_sets_have_their_bits() {
    assert_eq!(Access::empty().bits(), 0x0);
    assert_eq!(Access::read().bits(), 0x1);
    assert_eq!(Access::write().bits(), 0x2);
    assert_eq!(Access::read_write().bits(), 0x3);
}

#[test]
fn access_read_write_is_read_united_with_write() {
    assert_eq!(Access::read().union(Access::write()), Access::read_write());
    assert_eq!(Access::read() | Access::write(), Access::read_write());
    assert_eq!(Access::write() | Access::read(), Access::read_write());
}

#[test]
fn access_union_is_idempotent() {
    for a in every_access() {
        assert_eq!(a.union(a), a);
        assert_eq!(a | a, a);
    }
}

#[test]
fn access_union_is_commutative() {
    for a in every_access() {
        for b in every_access() {
            assert_eq!(a | b, b | a);
            assert_eq!((a | b).bits(), a.bits() | b.bits());
        }
    }
}

#[test]
fn access_union_is_associative() {
    for a in every_access() {
        for b in every_access() {
            for c in every_access() {
                assert_eq!((a | b) | c, a | (b | c));
            }
        }
    }
}

#[test]
fn access_union_never_leaves_the_two_bits() {
    for a in every_access() {
        for b in every_access() {
            assert!((a | b).bits() <= 0x3);
            assert!((a & b).bits() <= 0x3);
        }
    }
}

#[test]
fn access_intersection_keeps_common_rights() {
    assert_eq!(Access::read_write() & Access::read(), Access::read());
    assert_eq!(Access::read_write().intersection(Access::write()), Access::write());
    assert_eq!(Access::read() & Access::write(), Access::empty());
    for a in every_access() {
        for b in every_access() {
            assert_eq!((a & b).bits(), a.bits() & b.bits());
        }
    }
}

#[test]
fn access_contains_tests_membership() {
    assert!(Access::read_write().contains(Access::read()));
    assert!(Access::read_write().contains(Access::write()));
    assert!(Access::read().contains(Access::read()));
    assert!(!Access::read().contains(Access::write()));
    assert!(!Access::read().contains(Access::read_write()));
    assert!(Access::read().contains(Access::empty()));
    assert!(Access::empty().contains(Access::empty()));
}

#[test]
fn access_intersects_tests_common_rights() {
    assert!(Access::read_write().intersects(Access::read()));
    assert!(!Access::read().intersects(Access::write()));
    assert!(!Access::read().intersects(Access::empty()));
    assert!(!Access::empty().intersects(Access::empty()));
}

#[test]
fn access_is_empty_only_without_rights() {
    assert!(Access::empty().is_empty());
    assert!(!Access::read().is_empty());
    assert!(!Access::write().is_empty());
    assert!(!Access::read_write().is_empty());
}

#[test]
fn access_is_ordered_by_bits() {
    for a in every_access() {
        for b in every_access() {
            assert_eq!(a.partial_cmp(&b), Some(a.bits().cmp(&b.bits())));
            assert_eq!(a.cmp(&b), a.bits().cmp(&b.bits()));
            assert_eq!(a < b, a.bits() < b.bits());
            assert_eq!(a == b, a.bits() == b.bits());
        }
    }
    assert_eq!(Access::read().partial_cmp(&Access::write()), Some(Ordering::Less));
    assert_eq!(Access::read_write().partial_cmp(&Access::write()), Some(Ordering::Greater));
    assert_eq!(Access::write().partial_cmp(&Access::write()), Some(Ordering::Equal));
}

#[test]
fn access_serves_as_a_key() {
    let mut names: HashMap<Access, &str> = HashMap::new();
    names.insert(Access::read(), "read");
    names.insert(Access::write(), "write");
    names.insert(Access::read() | Access::write(), "both");
    assert_eq!(names.len(), 3);
    assert_eq!(names[&Access::read_write()], "both");
    let sorted: BTreeSet<Access> = every_access().into_iter().rev().collect();
    let bits: Vec<u8> = sorted.iter().map(|a| a.bits()).collect();
    assert_eq!(bits, vec![0, 1, 2, 3]);
}

#[test]
fn access_is_copied_unchanged() {
    let a = Access::read_write();
    let b = a;
    let c = a.clone();
    assert_eq!(a, b);
    assert_eq!(a, c);
    assert_eq!(format!("{:?}", Access::read()), "Access { bits: 1 }");
}
