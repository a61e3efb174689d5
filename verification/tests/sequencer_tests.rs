use hord_db::sequencer::BlockSequencer;

#[test]
fn activation_cutoff() {
    // Feeding heights just below and at the activation height releases a
    // block only for the activation height itself.
    let mut seq: BlockSequencer<&str> = BlockSequencer::new(767_430);
    assert!(seq.accept(767_428, "a").is_empty());
    assert!(seq.accept(767_429, "b").is_empty());
    let ready = seq.accept(767_430, "c");
    assert_eq!(ready, vec![(767_430, "c")]);
}

#[test]
fn out_of_order_arrivals_release_in_ascending_order() {
    let mut seq: BlockSequencer<u32> = BlockSequencer::new(1);
    let mut released: Vec<u64> = Vec::new();
    for (h, v) in [(5u64, 50u32), (3, 30), (1, 10), (2, 20), (4, 40)] {
        for (height, value) in seq.accept(h, v) {
            assert_eq!(value as u64, height * 10);
            released.push(height);
        }
    }
    assert_eq!(released, vec![1, 2, 3, 4, 5]);
}

#[test]
fn gap_never_advances_the_cursor() {
    let mut seq: BlockSequencer<()> = BlockSequencer::new(10);
    assert!(seq.accept(11, ()).is_empty());
    assert!(seq.accept(12, ()).is_empty());
    // Height 10 is still missing; nothing was released.  Its arrival
    // releases the whole buffered run at once.
    let ready = seq.accept(10, ());
    let heights: Vec<u64> = ready.iter().map(|p| p.0).collect();
    assert_eq!(heights, vec![10, 11, 12]);
}

#[test]
fn rearrival_before_release_overwrites_the_buffered_block() {
    let mut seq: BlockSequencer<&str> = BlockSequencer::new(10);
    assert!(seq.accept(11, "first").is_empty());
    assert!(seq.accept(11, "second").is_empty());
    let ready = seq.accept(10, "base");
    assert_eq!(ready, vec![(10, "base"), (11, "second")]);
}

#[test]
fn each_height_released_exactly_once() {
    let mut seq: BlockSequencer<u64> = BlockSequencer::new(0);
    let mut count = 0;
    for h in [0u64, 1, 2] {
        count += seq.accept(h, h).len();
    }
    // A replayed height is buffered again but the cursor has moved past it,
    // so it is never released a second time.
    assert!(seq.accept(1, 1).is_empty());
    assert_eq!(count, 3);
}
