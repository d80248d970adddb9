use dep::{get, Dependency, OverrideBuilder, OverrideStack};
use std::collections::HashMap;

#[derive(Clone, Debug, PartialEq)]
struct Clock {
    now: u64,
}

impl Dependency for Clock {
    fn live() -> Self {
        Clock { now: 0 }
    }
}

const CLOCK: u64 = 1;
const USERS: u64 = 2;

#[test]
fn entered_override_is_resolved_and_exit_restores() {
    let mut stack: OverrideStack<u64> = OverrideStack::new();
    let mut builder = OverrideBuilder::new();
    builder.set(CLOCK, 1234);
    let guard = builder.enter(&mut stack);
    assert_eq!(stack.current_override(CLOCK), Some(&1234));
    assert_eq!(stack.current_override(USERS), None);
    assert_eq!(stack.depth(), 1);
    assert_eq!(guard.exit(&mut stack), false);
    assert_eq!(stack.current_override(CLOCK), None);
    assert_eq!(stack.depth(), 0);
}

#[test]
fn newer_layers_shadow_older_layers_only_for_their_keys() {
    let mut stack: OverrideStack<&str> = OverrideStack::new();
    let mut outer = OverrideBuilder::new();
    outer.set(CLOCK, "outer clock").set(USERS, "outer users");
    let outer_guard = outer.enter(&mut stack);

    let mut inner = OverrideBuilder::new();
    inner.set(CLOCK, "inner clock");
    let inner_guard = inner.enter(&mut stack);
    assert_eq!(stack.current_override(CLOCK), Some(&"inner clock"));
    assert_eq!(stack.current_override(USERS), Some(&"outer users"));

    assert_eq!(inner_guard.exit(&mut stack), false);
    assert_eq!(stack.current_override(CLOCK), Some(&"outer clock"));
    assert_eq!(outer_guard.exit(&mut stack), false);
    assert_eq!(stack.current_override(CLOCK), None);
}

#[test]
fn empty_stack_falls_back_to_live_value() {
    let stack: OverrideStack<Clock> = OverrideStack::new();
    assert_eq!(stack.current_override(CLOCK), None);
    assert_eq!(get::<Clock>(stack.current_override(CLOCK)), Clock { now: 0 });
}

#[test]
fn get_clones_the_newest_override() {
    let mut stack: OverrideStack<Clock> = OverrideStack::new();
    let mut builder = OverrideBuilder::new();
    builder.set(CLOCK, Clock { now: 5678 });
    let _guard = builder.enter(&mut stack);
    assert_eq!(get::<Clock>(stack.current_override(CLOCK)), Clock { now: 5678 });
}

#[test]
fn later_set_replaces_earlier_set() {
    let mut stack: OverrideStack<u64> = OverrideStack::new();
    let mut builder = OverrideBuilder::new();
    builder.set(CLOCK, 1).set(CLOCK, 2);
    let _guard = builder.enter(&mut stack);
    assert_eq!(stack.current_override(CLOCK), Some(&2));
}

#[test]
fn sets_of_distinct_keys_commute() {
    let mut first: OverrideStack<u64> = OverrideStack::new();
    let mut a = OverrideBuilder::new();
    a.set(CLOCK, 1).set(USERS, 2);
    let _ga = a.enter(&mut first);

    let mut second: OverrideStack<u64> = OverrideStack::new();
    let mut b = OverrideBuilder::new();
    b.set(USERS, 2).set(CLOCK, 1);
    let _gb = b.enter(&mut second);

    for key in [CLOCK, USERS] {
        assert_eq!(first.current_override(key), second.current_override(key));
    }
}

#[test]
fn update_sees_the_builders_own_override_first() {
    let mut builder = OverrideBuilder::new();
    builder.set(CLOCK, 10u64);
    builder.update(CLOCK, |current: Option<u64>| current.map_or(0, |now| now + 1));
    let mut stack = OverrideStack::new();
    let _guard = builder.enter(&mut stack);
    assert_eq!(stack.current_override(CLOCK), Some(&11));
}

#[test]
fn update_without_an_override_resolves_through_the_closure() {
    let mut builder: OverrideBuilder<u64> = OverrideBuilder::new();
    builder.update(CLOCK, |current: Option<u64>| {
        assert_eq!(current, None);
        99
    });
    let mut stack = OverrideStack::new();
    let _guard = builder.enter(&mut stack);
    assert_eq!(stack.current_override(CLOCK), Some(&99));
}

#[test]
fn test_scope_guard_releases_the_test_lock() {
    let mut stack: OverrideStack<u64> = OverrideStack::new();
    let guard = OverrideBuilder::new().enter_test(&mut stack);
    assert_eq!(stack.depth(), 1);
    assert_eq!(guard.exit(&mut stack), true);
    assert_eq!(stack.depth(), 0);
}

#[test]
fn popping_removes_the_newest_layer() {
    let mut stack: OverrideStack<u64> = OverrideStack::new();
    let mut builder = OverrideBuilder::new();
    builder.set(CLOCK, 3);
    let _guard = builder.enter(&mut stack);
    let popped = stack.pop();
    assert_eq!(popped.get(&CLOCK), Some(&3));
    assert_eq!(stack.depth(), 0);
}

#[test]
fn leaving_an_outer_scope_first_keeps_the_inner_layer() {
    let mut stack: OverrideStack<&str> = OverrideStack::new();
    let mut outer = OverrideBuilder::new();
    outer.set(CLOCK, "outer clock").set(USERS, "outer users");
    let outer_guard = outer.enter(&mut stack);

    let mut inner = OverrideBuilder::new();
    inner.set(CLOCK, "inner clock");
    let inner_guard = inner.enter(&mut stack);

    assert_eq!(outer_guard.exit(&mut stack), false);
    assert_eq!(stack.depth(), 1);
    assert_eq!(stack.current_override(CLOCK), Some(&"inner clock"));
    assert_eq!(stack.current_override(USERS), None);

    assert_eq!(inner_guard.exit(&mut stack), false);
    assert_eq!(stack.depth(), 0);
    assert_eq!(stack.current_override(CLOCK), None);
}

#[test]
fn layer_identifiers_increase_and_are_not_reused() {
    let mut stack: OverrideStack<u64> = OverrideStack::new();
    assert_eq!(stack.next_layer_id(), 0);
    let first = OverrideBuilder::new().enter(&mut stack);
    assert_eq!(stack.next_layer_id(), 1);
    assert_eq!(first.exit(&mut stack), false);
    assert_eq!(stack.next_layer_id(), 1);
    let second = OverrideBuilder::new().enter_test(&mut stack);
    assert_eq!(stack.next_layer_id(), 2);
    assert_eq!(second.exit(&mut stack), true);
}

#[test]
fn a_guard_whose_layer_is_gone_is_no_longer_active() {
    let mut stack: OverrideStack<u64> = OverrideStack::new();
    let mut builder = OverrideBuilder::new();
    builder.set(CLOCK, 7);
    let guard = builder.enter(&mut stack);
    assert!(stack.contains_layer(guard.layer_id()));
    stack.pop();
    let mut other = OverrideBuilder::new();
    other.set(CLOCK, 8);
    let other_guard = other.enter(&mut stack);
    assert!(!stack.contains_layer(guard.layer_id()));
    assert!(stack.contains_layer(other_guard.layer_id()));
    assert_eq!(stack.current_override(CLOCK), Some(&8));
}

#[test]
fn removing_a_layer_by_identifier() {
    let mut stack: OverrideStack<u64> = OverrideStack::new();
    let mut a = HashMap::new();
    a.insert(CLOCK, 1);
    let mut b = HashMap::new();
    b.insert(CLOCK, 2);
    let id_a = stack.push(a);
    let id_b = stack.push(b);
    assert_eq!((id_a, id_b), (0, 1));
    assert!(stack.remove_layer(5).is_none());
    let removed = stack.remove_layer(id_a).expect("layer 0 is active");
    assert_eq!(removed.get(&CLOCK), Some(&1));
    assert_eq!(stack.current_override(CLOCK), Some(&2));
    assert!(stack.remove_layer(id_a).is_none());
}
