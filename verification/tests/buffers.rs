use entanglement_rs::buffers::{alloc_buf, free_buf, AllocMap};

#[test]
fn buffers_are_handed_out_and_freed() {
    let mut map = AllocMap::new();
    let a = alloc_buf(&mut map, 100);
    let b = alloc_buf(&mut map, 2500);
    assert_ne!(a, 0);
    assert_ne!(b, 0);
    assert_ne!(alloc_buf(&mut AllocMap::new(), 0), 0);
    assert_ne!(a, b);
    assert!(a + 100 <= b || b + 2500 <= a);
    assert_eq!(map.len(), 2);
    free_buf(&mut map, a);
    assert_eq!(map.len(), 1);
    free_buf(&mut map, b);
    assert_eq!(map.len(), 0);
}

#[test]
fn a_second_free_is_ignored() {
    let mut map = AllocMap::new();
    let a = alloc_buf(&mut map, 16);
    let b = alloc_buf(&mut map, 16);
    free_buf(&mut map, a);
    free_buf(&mut map, a);
    assert_eq!(map.len(), 1);
    free_buf(&mut map, 1);
    assert_eq!(map.len(), 1);
    free_buf(&mut map, b);
    assert_eq!(map.len(), 0);
}
