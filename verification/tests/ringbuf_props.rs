//! Ring buffer behavior: a buffer of `N` slots stores exactly `N - 1`
//! elements; push on full fails; pop on empty yields nothing; the length
//! tracks successful pushes minus successful pops.

use simple_os::ringbuf::RingBuf;

#[test]
fn capacity_is_slots_minus_one() {
    let rb: RingBuf<u8, 4> = RingBuf::new();
    assert_eq!(rb.capacity(), 3);
    let rb: RingBuf<u8, 128> = RingBuf::new();
    assert_eq!(rb.capacity(), 127);
}

#[test]
fn holds_exactly_capacity_elements() {
    let mut rb: RingBuf<u8, 4> = RingBuf::new();
    assert!(rb.push(1));
    assert!(rb.push(2));
    assert!(rb.push(3));
    assert!(rb.is_full());
    assert!(!rb.push(4));
    assert_eq!(rb.len(), 3);
}

#[test]
fn pop_on_empty_yields_nothing() {
    let mut rb: RingBuf<u8, 4> = RingBuf::new();
    assert!(rb.is_empty());
    assert_eq!(rb.pop(), None);
}

#[test]
fn fifo_order_is_kept() {
    let mut rb: RingBuf<u8, 4> = RingBuf::new();
    rb.push(10);
    rb.push(20);
    assert_eq!(rb.front(), Some(&10));
    assert_eq!(rb.tail(), Some(&20));
    assert_eq!(rb.pop(), Some(10));
    assert_eq!(rb.pop(), Some(20));
    assert_eq!(rb.pop(), None);
}

#[test]
fn wrap_around_keeps_order() {
    let mut rb: RingBuf<u8, 4> = RingBuf::new();
    for round in 0u8..5 {
        assert!(rb.push(round));
        assert!(rb.push(round.wrapping_add(100)));
        assert_eq!(rb.pop(), Some(round));
        assert_eq!(rb.pop(), Some(round.wrapping_add(100)));
    }
    assert!(rb.is_empty());
}

#[test]
fn len_is_pushes_minus_pops() {
    let mut rb: RingBuf<u8, 8> = RingBuf::new();
    let mut ok_pushes = 0usize;
    let mut ok_pops = 0usize;
    let script: [(bool, u8); 12] = [
        (true, 1),
        (true, 2),
        (false, 0),
        (true, 3),
        (false, 0),
        (false, 0),
        (false, 0),
        (true, 4),
        (true, 5),
        (true, 6),
        (true, 7),
        (true, 8),
    ];
    for (is_push, v) in script.iter() {
        if *is_push {
            if rb.push(*v) {
                ok_pushes += 1;
            }
        } else if rb.pop().is_some() {
            ok_pops += 1;
        }
        assert_eq!(rb.len(), ok_pushes - ok_pops);
        assert!(rb.len() <= rb.capacity());
    }
}

#[test]
fn clear_empties_the_buffer() {
    let mut rb: RingBuf<u8, 4> = RingBuf::new();
    rb.push(1);
    rb.push(2);
    rb.clear();
    assert!(rb.is_empty());
    assert_eq!(rb.pop(), None);
}

#[test]
fn copy_to_fills_a_prefix() {
    let mut rb: RingBuf<u8, 8> = RingBuf::new();
    rb.push(1);
    rb.push(2);
    rb.push(3);
    let mut dest = vec![9u8; 5];
    let n = rb.copy_to(&mut dest);
    assert_eq!(n, 3);
    assert_eq!(dest, vec![1, 2, 3, 9, 9]);
    // Copying does not consume.
    assert_eq!(rb.len(), 3);
    let mut small = vec![0u8; 2];
    assert_eq!(rb.copy_to(&mut small), 2);
    assert_eq!(small, vec![1, 2]);
}

#[test]
fn continuity_after_wrap() {
    let mut rb: RingBuf<u8, 4> = RingBuf::new();
    assert!(rb.is_continuous());
    rb.push(1);
    rb.push(2);
    rb.push(3);
    rb.pop();
    rb.pop();
    rb.push(4);
    // Contents now wrap around the physical end.
    let mut dest = vec![0u8; 4];
    assert_eq!(rb.copy_to(&mut dest), 2);
    assert_eq!(&dest[..2], &[3, 4]);
}
