use proxy_crab_mitm::log_buffer::{LogBuffer, DEFAULT_LOG_CAPACITY};

#[test]
fn evicts_old_entries_and_queries_incrementally() {
    let mut buffer = LogBuffer::new(2);
    let first = buffer.push("INFO".to_string(), "one".to_string());
    let second = buffer.push("WARN".to_string(), "two".to_string());
    let third = buffer.push("ERROR".to_string(), "three".to_string());

    assert_eq!(buffer.query(None, 10), vec![second.clone(), third.clone()]);
    assert_eq!(buffer.query(Some(second.seq), 10), vec![third]);
    assert!(buffer.query(Some(first.seq), 1).len() == 1);
}

#[test]
fn entries_are_numbered_from_one_in_push_order() {
    let mut buffer = LogBuffer::new(8);
    let entries: Vec<_> = (0..5)
        .map(|index| buffer.push("INFO".to_string(), index.to_string()))
        .collect();
    let seqs: Vec<u64> = entries.iter().map(|entry| entry.seq).collect();
    assert_eq!(seqs, vec![1, 2, 3, 4, 5]);
    let listed = buffer.query(None, 100);
    assert!(listed.windows(2).all(|pair| pair[0].seq < pair[1].seq));
    assert_eq!(listed.len(), 5);
}

#[test]
fn zero_capacity_keeps_nothing_but_numbers_entries() {
    let mut buffer = LogBuffer::new(0);
    let entry = buffer.push("INFO".to_string(), "dropped".to_string());
    assert_eq!(entry.seq, 1);
    assert_eq!(entry.message, "dropped");
    assert!(buffer.query(None, 10).is_empty());
}

#[test]
fn query_limit_is_capped_by_capacity_and_clear_keeps_numbering() {
    let mut buffer = LogBuffer::new(3);
    for index in 0..3 {
        buffer.push("INFO".to_string(), format!("m{index}"));
    }
    assert_eq!(buffer.query(None, 2).len(), 2);
    assert_eq!(buffer.query(None, 100).len(), 3);
    buffer.clear();
    assert!(buffer.query(None, 100).is_empty());
    let next = buffer.push("INFO".to_string(), "after".to_string());
    assert_eq!(next.seq, 4);
    assert_eq!(LogBuffer::default().query(None, 10).len(), 0);
    assert_eq!(DEFAULT_LOG_CAPACITY, 10_000);
}
