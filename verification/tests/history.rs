use aperf_monitor::history::HistoryBuffer;

#[test]
fn push_beyond_capacity_evicts_the_oldest() {
    let mut b = HistoryBuffer::new(3);
    assert_eq!(b.len(), 0);
    assert_eq!(b.capacity(), 3);
    for k in 0u8..5 {
        b.push(vec![k]);
        assert!(b.len() <= 3);
    }
    // The last three pushes survive, in chronological order.
    let copy = b.drain_copy();
    assert_eq!(copy, vec![vec![2u8], vec![3u8], vec![4u8]]);
}

#[test]
fn capacity_bound_holds_for_many_pushes() {
    let mut b = HistoryBuffer::new(5);
    for k in 0u16..1000 {
        b.push(vec![(k % 251) as u8, (k / 251) as u8]);
        assert!(b.len() <= 5);
    }
    assert_eq!(b.len(), 5);
}

#[test]
fn drain_copy_is_not_destructive() {
    let mut b = HistoryBuffer::new(4);
    b.push(vec![1, 2]);
    b.push(vec![3]);
    let first = b.drain_copy();
    let second = b.drain_copy();
    assert_eq!(first, second);
    assert_eq!(b.len(), 2);
}

#[test]
fn clear_empties_but_keeps_capacity() {
    let mut b = HistoryBuffer::new(2);
    b.push(vec![9]);
    b.push(vec![8]);
    b.clear();
    assert_eq!(b.len(), 0);
    assert_eq!(b.capacity(), 2);
    assert!(b.dump_bytes().is_empty());
}

#[test]
fn dump_concatenates_in_chronological_order() {
    let mut b = HistoryBuffer::new(3);
    b.push(vec![1, 2]);
    b.push(vec![]);
    b.push(vec![3, 4, 5]);
    assert_eq!(b.dump_bytes(), vec![1, 2, 3, 4, 5]);
    // Eviction drops the oldest bytes from the dump.
    b.push(vec![6]);
    assert_eq!(b.dump_bytes(), vec![3, 4, 5, 6]);
}

#[test]
fn dumping_an_unchanged_buffer_twice_is_byte_identical() {
    let mut b = HistoryBuffer::new(8);
    b.push(vec![10, 20, 30]);
    b.push(vec![40]);
    let once = b.dump_bytes();
    let twice = b.dump_bytes();
    assert_eq!(once, twice);
}

#[test]
fn zero_capacity_buffer_stays_empty() {
    let mut b = HistoryBuffer::new(0);
    b.push(vec![1]);
    b.push(vec![2]);
    assert_eq!(b.len(), 0);
    assert!(b.dump_bytes().is_empty());
}
