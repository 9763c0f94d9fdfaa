//! Tests of the round-robin scatter/gather scheduling on plain values.

use url_cleaner_site::pool::{collect_round_robin, dispatch, scatter_gather, Collector};

#[test]
fn order_preserved_across_widths_and_sizes() {
    for w in [1usize, 2, 3, 5] {
        for n in [0usize, 1, w - 1, w, w + 1, 2 * w, 37] {
            let items: Vec<u64> = (0..n as u64).collect();
            let out = scatter_gather(items.clone(), w);
            assert_eq!(out, items);
        }
    }
}

#[test]
fn dispatch_partitions_by_index_modulo_width() {
    let items: Vec<u64> = (0..7).collect();
    let boxes = dispatch(items, 3);
    assert_eq!(boxes, vec![vec![0, 3, 6], vec![1, 4], vec![2, 5]]);
}

#[test]
fn dispatch_hands_every_item_out_exactly_once() {
    let items: Vec<u64> = (0..37).collect();
    let boxes = dispatch(items, 5);
    let mut seen: Vec<u64> = Vec::new();
    for b in &boxes {
        seen.extend(b.iter().copied());
    }
    seen.sort();
    assert_eq!(seen, (0..37).collect::<Vec<u64>>());
}

#[test]
fn dispatch_width_one_is_the_identity_partition() {
    let items: Vec<u64> = (0..4).collect();
    let boxes = dispatch(items.clone(), 1);
    assert_eq!(boxes, vec![items]);
}

#[test]
fn collect_merges_in_the_dispatch_pattern() {
    let boxes = vec![vec![0u64, 3, 6], vec![1, 4], vec![2, 5]];
    let out = collect_round_robin(boxes, 7);
    assert_eq!(out, (0..7).collect::<Vec<u64>>());
}

#[test]
fn empty_batch_collects_to_empty() {
    let items: Vec<u64> = Vec::new();
    assert_eq!(scatter_gather(items, 4), Vec::<u64>::new());
    let boxes: Vec<Vec<u64>> = vec![Vec::new(), Vec::new(), Vec::new()];
    assert_eq!(collect_round_robin(boxes, 0), Vec::<u64>::new());
}

#[test]
fn collector_cycles_slots_and_stops_after_all_disconnect() {
    let mut c: Collector<u64> = Collector::new(3);
    assert_eq!(c.next_slot, 0);
    c.on_receive(10);
    assert_eq!(c.next_slot, 1);
    c.on_receive(11);
    c.on_receive(12);
    assert_eq!(c.next_slot, 0);
    c.on_receive(13);
    assert_eq!(c.next_slot, 1);
    c.on_disconnect();
    assert!(!c.done());
    c.on_disconnect();
    assert!(!c.done());
    c.on_disconnect();
    assert!(c.done());
    assert_eq!(c.into_results(), vec![10, 11, 12, 13]);
}

#[test]
fn collector_on_empty_pool_input_stops_immediately() {
    let mut c: Collector<u64> = Collector::new(2);
    assert!(!c.done());
    c.on_disconnect();
    c.on_disconnect();
    assert!(c.done());
    assert_eq!(c.into_results(), Vec::<u64>::new());
}
