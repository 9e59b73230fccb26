use lb_9000::accountant::{apply, apply_all, Message};
use lb_9000::registry::Registry;

fn start(ip: &str) -> Message {
    Message::start(ip.to_string())
}

fn end(ip: &str) -> Message {
    Message::end(ip.to_string())
}

#[test]
fn message_new_keeps_its_fields() {
    let message = Message::new("10.0.0.1".to_string(), 5);
    assert_eq!(message.ip, "10.0.0.1");
    assert_eq!(message.count, 5);
}

#[test]
fn start_and_end_are_plus_and_minus_one() {
    assert_eq!(start("a"), Message::new("a".to_string(), 1));
    assert_eq!(end("a"), Message::new("a".to_string(), -1));
}

#[test]
fn apply_adjusts_the_named_counter() {
    let mut registry = Registry::new();
    registry.upsert("a");
    registry.upsert("b");
    apply(&mut registry, &start("a"));
    assert_eq!(registry.counter("a"), Some(1));
    assert_eq!(registry.counter("b"), Some(0));
    apply(&mut registry, &Message::new("b".to_string(), 4));
    apply(&mut registry, &end("a"));
    assert_eq!(registry.counter("a"), Some(0));
    assert_eq!(registry.counter("b"), Some(4));
}

#[test]
fn apply_for_absent_identity_is_dropped() {
    let mut registry = Registry::new();
    registry.upsert("a");
    apply(&mut registry, &start("b"));
    assert!(!registry.contains("b"));
    assert_eq!(registry.counter("a"), Some(0));
    assert_eq!(registry.len(), 1);
}

#[test]
fn apply_all_of_nothing_changes_nothing() {
    let mut registry = Registry::new();
    registry.upsert("a");
    registry.adjust("a", 2);
    apply_all(&mut registry, &Vec::new());
    assert_eq!(registry.snapshot(), vec![("a".to_string(), 2)]);
}

#[test]
fn apply_all_goes_from_first_to_last() {
    let mut registry = Registry::new();
    registry.upsert("a");
    apply_all(&mut registry, &vec![end("a"), start("a")]);
    assert_eq!(registry.counter("a"), Some(1));

    let mut registry = Registry::new();
    registry.upsert("a");
    apply_all(&mut registry, &vec![start("a"), end("a")]);
    assert_eq!(registry.counter("a"), Some(0));
}

#[test]
fn interleaved_pairs_leave_the_counter_where_it_was() {
    let mut registry = Registry::new();
    registry.upsert("a");
    registry.upsert("b");
    registry.adjust("a", 3);
    registry.adjust("b", 1);
    let deltas = vec![
        start("a"),
        start("a"),
        start("b"),
        end("a"),
        start("a"),
        start("gone"),
        end("b"),
        end("a"),
        start("a"),
        end("a"),
        end("gone"),
        end("a"),
    ];
    apply_all(&mut registry, &deltas);
    assert_eq!(registry.counter("a"), Some(3));
    assert_eq!(registry.counter("b"), Some(1));
    assert_eq!(registry.len(), 2);
}

#[test]
fn many_pairs_in_two_orders_agree() {
    let n = 100;
    let mut nested = Vec::new();
    for _ in 0..n {
        nested.push(start("a"));
    }
    for _ in 0..n {
        nested.push(end("a"));
    }
    let mut alternating = Vec::new();
    for _ in 0..n {
        alternating.push(start("a"));
        alternating.push(end("a"));
    }
    for deltas in [nested, alternating] {
        let mut registry = Registry::new();
        registry.upsert("a");
        registry.adjust("a", 7);
        apply_all(&mut registry, &deltas);
        assert_eq!(registry.counter("a"), Some(7));
    }
}

#[test]
fn two_orders_of_the_same_deltas_agree_when_no_counter_is_held_back() {
    let first = vec![start("a"), start("b"), end("a"), start("a"), end("b"), start("b")];
    let second = vec![start("b"), start("a"), start("a"), start("b"), end("b"), end("a")];
    let mut left = Registry::new();
    let mut right = Registry::new();
    for registry in [&mut left, &mut right] {
        registry.upsert("a");
        registry.upsert("b");
        registry.adjust("a", 2);
        registry.adjust("b", 2);
    }
    apply_all(&mut left, &first);
    apply_all(&mut right, &second);
    let mut left = left.snapshot();
    let mut right = right.snapshot();
    left.sort();
    right.sort();
    assert_eq!(left, vec![("a".to_string(), 3), ("b".to_string(), 3)]);
    assert_eq!(left, right);
}

#[test]
fn counter_during_flight_counts_the_open_requests() {
    let mut registry = Registry::new();
    registry.upsert("a");
    apply_all(&mut registry, &vec![start("a"), start("a"), start("a"), end("a")]);
    assert_eq!(registry.counter("a"), Some(2));
}
