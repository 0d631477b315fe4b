//! Count bookkeeping, uniqueness checks and the weak handle's life cycle.

use shared::{Heap, Shared, Weak2};

#[test]
fn fresh_handle_counts() {
    let mut heap: Heap<u64> = Heap::new();
    let p = Shared::new(&mut heap, 75);
    assert_eq!(Shared::strong_count(&p, &heap), 1);
    assert_eq!(Shared::weak_count(&p, &heap), 0);
    assert_eq!(*Shared::borrow(&p, &heap), 75);
}

#[test]
fn clone_then_drop_restores_counts() {
    let mut heap: Heap<u64> = Heap::new();
    let p = Shared::new(&mut heap, 8);
    let c = p.clone(&mut heap);
    assert_eq!(Shared::strong_count(&p, &heap), 2);
    assert_eq!(Shared::weak_count(&p, &heap), 0);
    c.drop(&mut heap);
    assert_eq!(Shared::strong_count(&p, &heap), 1);
    assert_eq!(Shared::weak_count(&p, &heap), 0);
}

#[test]
fn downgrade_then_drop_restores_counts() {
    let mut heap: Heap<u64> = Heap::new();
    let p = Shared::new(&mut heap, 8);
    let w = Shared::downgrade(&p, &mut heap);
    assert_eq!(Shared::strong_count(&p, &heap), 1);
    assert_eq!(Shared::weak_count(&p, &heap), 1);
    w.drop(&mut heap);
    assert_eq!(Shared::strong_count(&p, &heap), 1);
    assert_eq!(Shared::weak_count(&p, &heap), 0);
}

#[test]
fn upgrade_while_alive_increments_strong() {
    let mut heap: Heap<u64> = Heap::new();
    let p = Shared::new(&mut heap, 9);
    let w = Shared::downgrade(&p, &mut heap);
    let q = w.upgrade(&mut heap).unwrap();
    assert_eq!(Shared::strong_count(&p, &heap), 2);
    assert_eq!(*Shared::borrow(&q, &heap), 9);
    q.drop(&mut heap);
    assert_eq!(Shared::strong_count(&p, &heap), 1);
}

#[test]
fn weak_clone_counts_twice() {
    let mut heap: Heap<u64> = Heap::new();
    let p = Shared::new(&mut heap, 1);
    let w1 = Shared::downgrade(&p, &mut heap);
    let w2 = w1.clone(&mut heap);
    assert_eq!(Shared::weak_count(&p, &heap), 2);
    w1.drop(&mut heap);
    assert_eq!(Shared::weak_count(&p, &heap), 1);
    w2.drop(&mut heap);
    assert_eq!(Shared::weak_count(&p, &heap), 0);
}

#[test]
fn weak_survives_strong_death() {
    let mut heap: Heap<u64> = Heap::new();
    let p = Shared::new(&mut heap, 2);
    let w: Weak2<u64> = Shared::downgrade(&p, &mut heap);
    let w2 = w.clone(&mut heap);
    p.drop(&mut heap);
    assert!(w.upgrade(&mut heap).is_none());
    assert!(w2.upgrade(&mut heap).is_none());
    w.drop(&mut heap);
    assert!(w2.upgrade(&mut heap).is_none());
    w2.drop(&mut heap);
}

#[test]
fn weak_clone_after_death_stays_dead() {
    let mut heap: Heap<u64> = Heap::new();
    let p = Shared::new(&mut heap, 6);
    let w = Shared::downgrade(&p, &mut heap);
    p.drop(&mut heap);
    let w2 = w.clone(&mut heap);
    assert!(w2.upgrade(&mut heap).is_none());
    w.drop(&mut heap);
    assert!(w2.upgrade(&mut heap).is_none());
    w2.drop(&mut heap);
}

#[test]
fn is_unique_and_would_unwrap() {
    let mut heap: Heap<u64> = Heap::new();
    let p = Shared::new(&mut heap, 7);
    assert!(Shared::is_unique(&p, &heap));
    assert!(Shared::would_unwrap(&p, &heap));
    let w = Shared::downgrade(&p, &mut heap);
    assert!(!Shared::is_unique(&p, &heap));
    assert!(Shared::would_unwrap(&p, &heap));
    w.drop(&mut heap);
    let c = p.clone(&mut heap);
    assert!(!Shared::is_unique(&p, &heap));
    assert!(!Shared::would_unwrap(&p, &heap));
    c.drop(&mut heap);
    assert!(Shared::is_unique(&p, &heap));
}

#[test]
fn unwrap_after_downgrade_leaves_dead_weak() {
    let mut heap: Heap<u64> = Heap::new();
    let p = Shared::new(&mut heap, 5);
    let w = Shared::downgrade(&p, &mut heap);
    match Shared::try_unwrap(p, &mut heap) {
        Ok(v) => assert_eq!(v, 5),
        Err(_) => panic!("a single strong handle must unwrap"),
    }
    assert!(w.upgrade(&mut heap).is_none());
    w.drop(&mut heap);
}

#[test]
fn make_mut_unique_keeps_block() {
    let mut heap: Heap<u64> = Heap::new();
    let mut p = Shared::new(&mut heap, 10);
    *Shared::make_mut(&mut p, &mut heap) += 5;
    assert_eq!(*Shared::borrow(&p, &heap), 15);
    assert_eq!(Shared::strong_count(&p, &heap), 1);
    assert_eq!(Shared::weak_count(&p, &heap), 0);
}

#[test]
fn make_mut_is_unique_afterwards() {
    let mut heap: Heap<u64> = Heap::new();
    let mut p = Shared::new(&mut heap, 3);
    let c = p.clone(&mut heap);
    let w = Shared::downgrade(&p, &mut heap);
    let m = Shared::make_mut(&mut p, &mut heap);
    *m = 4;
    assert!(Shared::is_unique(&p, &heap));
    assert_eq!(*Shared::borrow(&p, &heap), 4);
    assert_eq!(*Shared::borrow(&c, &heap), 3);
    assert_eq!(Shared::strong_count(&c, &heap), 1);
    let back = w.upgrade(&mut heap).unwrap();
    assert_eq!(*Shared::borrow(&back, &heap), 3);
    back.drop(&mut heap);
    c.drop(&mut heap);
    w.drop(&mut heap);
}

#[test]
fn get_mut_writes_through_aliases() {
    let mut heap: Heap<u64> = Heap::new();
    let mut p = Shared::new(&mut heap, 30);
    let q = p.clone(&mut heap);
    *Shared::get_mut(&mut p, &mut heap).unwrap() = 31;
    assert_eq!(*Shared::borrow(&q, &heap), 31);
}

#[test]
fn independent_blocks_do_not_interfere() {
    let mut heap: Heap<u64> = Heap::new();
    let a = Shared::new(&mut heap, 100);
    let b = Shared::new(&mut heap, 200);
    let c = a.clone(&mut heap);
    assert_eq!(Shared::strong_count(&a, &heap), 2);
    assert_eq!(Shared::strong_count(&b, &heap), 1);
    c.drop(&mut heap);
    b.drop(&mut heap);
    assert_eq!(Shared::strong_count(&a, &heap), 1);
    assert_eq!(*Shared::borrow(&a, &heap), 100);
}
