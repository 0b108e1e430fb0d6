use gfx_memory::Bind;
use std::cmp::Ordering;
use std::collections::{BTreeSet, HashSet};

fn named_binds() -> [Bind; 4] {
    [
        Bind::render_target(),
        Bind::depth_stencil(),
        Bind::shader_resource(),
        Bind::unordered_access(),
    ]
}

fn every_bind() -> Vec<Bind> {
    let mut all = Vec::new();
    for pattern in 0u8..16 {
        let mut set = Bind::empty();
        for (i, flag) in named_binds().iter().enumerate() {
            if pattern & (1 << i) != 0 {
                set = set | *flag;
            }
        }
        assert_eq!(set.bits(), pattern);
        all.push(set);
    }
    all
}

#[test]
fn bind_named_sets_have_their_bits() {
    assert_eq!(Bind::empty().bits(), 0x0);
    assert_eq!(Bind::render_target().bits(), 0x1);
    assert_eq!(Bind::depth_stencil().bits(), 0x2);
    assert_eq!(Bind::shader_resource().bits(), 0x4);
    assert_eq!(Bind::unordered_access().bits(), 0x8);
}

#[test]
fn bind_every_subset_is_a_value() {
    let all = every_bind();
    assert_eq!(all.len(), 16);
    let distinct: HashSet<Bind> = all.iter().copied().collect();
    assert_eq!(distinct.len(), 16);
}

#[test]
fn bind_union_is_idempotent() {
    for a in every_bind() {
        assert_eq!(a.union(a), a);
        assert_eq!(a | a, a);
    }
}

#[test]
fn bind_union_is_commutative() {
    for a in every_bind() {
        for b in every_bind() {
            assert_eq!(a | b, b | a);
            assert_eq!((a | b).bits(), a.bits() | b.bits());
        }
    }
}

#[test]
fn bind_union_is_associative() {
    for a in every_bind() {
        for b in every_bind() {
            for c in every_bind() {
                assert_eq!((a | b) | c, a | (b | c));
            }
        }
    }
}

#[test]
fn bind_intersection_keeps_common_capabilities() {
    let targets = Bind::render_target() | Bind::depth_stencil();
    let shader = Bind::render_target() | Bind::shader_resource();
    assert_eq!(targets & shader, Bind::render_target());
    assert_eq!(targets.intersection(Bind::unordered_access()), Bind::empty());
    for a in every_bind() {
        for b in every_bind() {
            assert_eq!((a & b).bits(), a.bits() & b.bits());
            assert!((a & b).bits() <= 0xf);
        }
    }
}

#[test]
fn bind_contains_tests_membership() {
    let set = Bind::render_target() | Bind::shader_resource();
    assert_eq!(set.bits(), 0x5);
    assert!(set.contains(Bind::render_target()));
    assert!(set.contains(Bind::shader_resource()));
    assert!(!set.contains(Bind::depth_stencil()));
    assert!(!set.contains(Bind::unordered_access()));
    assert!(set.contains(set));
    assert!(set.contains(Bind::empty()));
    assert!(!Bind::render_target().contains(set));
}

#[test]
fn bind_intersects_tests_common_capabilities() {
    let set = Bind::render_target() | Bind::shader_resource();
    assert!(set.intersects(Bind::render_target()));
    assert!(set.intersects(Bind::shader_resource() | Bind::unordered_access()));
    assert!(!set.intersects(Bind::depth_stencil() | Bind::unordered_access()));
    assert!(!set.intersects(Bind::empty()));
}

#[test]
fn bind_is_empty_only_without_capabilities() {
    assert!(Bind::empty().is_empty());
    for flag in named_binds() {
        assert!(!flag.is_empty());
    }
}

#[test]
fn bind_is_ordered_by_bits() {
    for a in every_bind() {
        for b in every_bind() {
            assert_eq!(a.partial_cmp(&b), Some(a.bits().cmp(&b.bits())));
            assert_eq!(a.cmp(&b), a.bits().cmp(&b.bits()));
            assert_eq!(a <= b, a.bits() <= b.bits());
        }
    }
    assert_eq!(
        Bind::render_target().partial_cmp(&Bind::unordered_access()),
        Some(Ordering::Less)
    );
}

#[test]
fn bind_sorts_by_bits() {
    let sorted: BTreeSet<Bind> = every_bind().into_iter().rev().collect();
    let bits: Vec<u8> = sorted.iter().map(|b| b.bits()).collect();
    assert_eq!(bits, (0u8..16).collect::<Vec<u8>>());
}
