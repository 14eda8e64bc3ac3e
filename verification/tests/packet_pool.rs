use usbd::pool::{NPACKETS, Packet, Pool};

#[test]
fn pool_suspends_fourth_request_until_release() {
    // allocating more than N buffers suspends the (N+1)-th request until a
    // release occurs; after the release exactly one suspended request resumes
    let mut pool = Pool::new(NPACKETS);
    let a = pool.allocate().unwrap();
    let b = pool.allocate().unwrap();
    let c = pool.allocate().unwrap();
    assert!(pool.allocate().is_none());
    pool.release(b);
    // exactly one waiting request proceeds...
    let b2 = pool.allocate().unwrap();
    // ...and the next one waits again
    assert!(pool.allocate().is_none());
    drop((a, c, b2));
}

#[test]
fn checked_out_slots_are_distinct() {
    let mut pool = Pool::new(NPACKETS);
    let a = pool.allocate().unwrap();
    let b = pool.allocate().unwrap();
    let c = pool.allocate().unwrap();
    assert_ne!(a.slot(), b.slot());
    assert_ne!(a.slot(), c.slot());
    assert_ne!(b.slot(), c.slot());
}

#[test]
fn released_slot_is_the_one_reused() {
    let mut pool = Pool::new(NPACKETS);
    let a = pool.allocate().unwrap();
    let _b = pool.allocate().unwrap();
    let _c = pool.allocate().unwrap();
    let slot = a.slot();
    pool.release(a);
    let again = pool.allocate().unwrap();
    assert_eq!(again.slot(), slot);
}

#[test]
fn fresh_packet_is_empty() {
    let mut pool = Pool::new(NPACKETS);
    let p = pool.allocate().unwrap();
    assert_eq!(p.len(), 0);
    assert_eq!(p.to_vec(), Vec::<u8>::new());
}

#[test]
fn copy_from_slice_truncates_to_capacity() {
    let mut pool = Pool::new(1);
    let mut p = pool.allocate().unwrap();
    let long: Vec<u8> = (0u8..100).collect();
    p.copy_from_slice(&long);
    assert_eq!(p.len(), Packet::CAPACITY);
    assert_eq!(p.to_vec(), (0u8..64).collect::<Vec<u8>>());
}

#[test]
fn copy_from_slice_sets_data_and_len() {
    let mut pool = Pool::new(1);
    let mut p = pool.allocate().unwrap();
    p.copy_from_slice(&[9u8, 8, 7]);
    assert_eq!(p.len(), 3);
    assert_eq!(p.to_vec(), vec![9u8, 8, 7]);
}

#[test]
fn set_len_truncates_to_capacity() {
    let mut pool = Pool::new(1);
    let mut p = pool.allocate().unwrap();
    p.set_len(200);
    assert_eq!(p.len(), 64);
    p.set_len(10);
    assert_eq!(p.len(), 10);
}

#[test]
fn reverse_reverses_the_data_in_place() {
    let mut pool = Pool::new(1);
    let mut p = pool.allocate().unwrap();
    p.copy_from_slice(&[1u8, 2, 3, 4, 5]);
    p.reverse();
    assert_eq!(p.to_vec(), vec![5u8, 4, 3, 2, 1]);
    assert_eq!(p.get(0), 5);
    assert_eq!(p.get(4), 1);
}

#[test]
fn reverse_of_even_length() {
    let mut pool = Pool::new(1);
    let mut p = pool.allocate().unwrap();
    p.copy_from_slice(&[1u8, 2, 3, 4]);
    p.reverse();
    assert_eq!(p.to_vec(), vec![4u8, 3, 2, 1]);
}
