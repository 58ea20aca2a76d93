use std::collections::HashSet;
use std::sync::{Arc, Mutex};

use xtstate::{XTError, XTState};

fn ids(names: &[&str]) -> HashSet<String> {
    names.iter().map(|n| n.to_string()).collect()
}

#[test]
fn test_basic() {
    let mut xt_state = XTState::new();
    xt_state
        .setup_slots(HashSet::from(["slot1".to_string(), "slot2".to_string()]), false)
        .unwrap();

    xt_state.update_callback("slot1".to_string(), true).unwrap();
    xt_state.update_callback("slot2".to_string(), true).unwrap();

    assert!(xt_state.activated());
}

#[test]
fn shared_handle_records_in_lock_order() {
    let state = Arc::new(Mutex::new(XTState::new()));
    state.lock().unwrap().setup_slots(ids(&["a", "b"]), false).unwrap();

    let first = Arc::clone(&state);
    let second = Arc::clone(&state);
    first.lock().unwrap().update_callback("a".to_string(), true).unwrap();
    assert!(!state.lock().unwrap().activated());
    second.lock().unwrap().update_callback("b".to_string(), true).unwrap();

    let xt = state.lock().unwrap();
    assert!(xt.activated());
    let h = xt.history();
    assert_eq!(h.len(), 2);
    assert_eq!(h[0].0, "a");
    assert_eq!(h[1].0, "b");
    assert!(h[0].2 <= h[1].2);
}

#[test]
fn activated_only_once_every_slot_is_true() {
    let mut xt = XTState::new();
    xt.setup_slots(ids(&["x", "y", "z"]), false).unwrap();
    assert!(!xt.activated());
    xt.update_at("z".to_string(), true, 1).unwrap();
    assert!(!xt.activated());
    xt.update_at("x".to_string(), true, 2).unwrap();
    assert!(!xt.activated());
    xt.update_at("x".to_string(), true, 3).unwrap();
    assert!(!xt.activated());
    xt.update_at("y".to_string(), true, 4).unwrap();
    assert!(xt.activated());
    assert_eq!(xt.can_activate(), Ok(true));
}

#[test]
fn setting_a_slot_false_deactivates() {
    let mut xt = XTState::new();
    xt.setup_slots(ids(&["a", "b"]), false).unwrap();
    xt.update_at("a".to_string(), true, 10).unwrap();
    xt.update_at("b".to_string(), true, 11).unwrap();
    assert!(xt.activated());
    xt.update_at("b".to_string(), false, 12).unwrap();
    assert!(!xt.activated());
    assert_eq!(xt.slot_value(&"b".to_string()), Some(false));
    assert_eq!(xt.can_activate(), Ok(false));
}

#[test]
fn repeated_update_appends_but_keeps_activation() {
    let mut xt = XTState::new();
    xt.setup_slots(ids(&["a", "b"]), false).unwrap();
    xt.update_at("a".to_string(), true, 1).unwrap();
    xt.update_at("a".to_string(), true, 2).unwrap();
    xt.update_at("a".to_string(), true, 3).unwrap();
    assert!(!xt.activated());
    assert_eq!(xt.history().len(), 3);
    xt.update_at("b".to_string(), true, 4).unwrap();
    xt.update_at("b".to_string(), true, 5).unwrap();
    assert!(xt.activated());
    assert_eq!(xt.history().len(), 5);
    assert_eq!(xt.history()[4], ("b".to_string(), true, 5));
}

#[test]
fn forced_setup_clears_everything() {
    let mut xt = XTState::new();
    xt.setup_slots(ids(&["a"]), false).unwrap();
    xt.update_at("a".to_string(), true, 7).unwrap();
    assert!(xt.activated());
    assert_eq!(xt.history().len(), 1);
    assert_eq!(xt.setup_slots(ids(&["b", "c"]), true), Ok(()));
    assert!(!xt.activated());
    assert!(xt.is_setup());
    assert!(xt.history().is_empty());
    assert_eq!(xt.slot_value(&"a".to_string()), None);
    assert_eq!(xt.slot_value(&"b".to_string()), Some(false));
    assert_eq!(xt.slot_value(&"c".to_string()), Some(false));
}

#[test]
fn forced_setup_on_fresh_instance_succeeds() {
    let mut xt = XTState::new();
    assert_eq!(xt.setup_slots(ids(&["a"]), true), Ok(()));
    assert!(xt.is_setup());
    assert_eq!(xt.slot_value(&"a".to_string()), Some(false));
}

#[test]
fn history_counts_only_successful_updates() {
    let mut xt = XTState::new();
    xt.setup_slots(ids(&["a", "b"]), false).unwrap();
    xt.update_at("a".to_string(), true, 1).unwrap();
    assert_eq!(xt.update_at("q".to_string(), true, 2), Err(XTError::UnknownIdentifier));
    xt.update_at("b".to_string(), false, 3).unwrap();
    assert_eq!(xt.update_at("r".to_string(), false, 4), Err(XTError::UnknownIdentifier));
    xt.update_at("a".to_string(), false, 5).unwrap();
    let h = xt.history();
    assert_eq!(h.len(), 3);
    assert_eq!(h[0], ("a".to_string(), true, 1));
    assert_eq!(h[1], ("b".to_string(), false, 3));
    assert_eq!(h[2], ("a".to_string(), false, 5));
}

#[test]
fn empty_setup_then_update_fails_with_no_slots() {
    let mut xt = XTState::new();
    assert_eq!(xt.setup_slots(HashSet::new(), false), Ok(()));
    assert!(xt.is_setup());
    assert_eq!(xt.update_callback("a".to_string(), true), Err(XTError::NoSlotsDefined));
    assert_eq!(xt.update_at("".to_string(), false, 0), Err(XTError::NoSlotsDefined));
    assert_eq!(xt.can_activate(), Err(XTError::NoSlotsDefined));
    assert!(!xt.activated());
    assert!(xt.history().is_empty());
}

#[test]
fn second_setup_without_force_is_refused() {
    let mut xt = XTState::new();
    xt.setup_slots(ids(&["a"]), false).unwrap();
    assert_eq!(xt.setup_slots(ids(&["b"]), false), Err(XTError::AlreadySetup));
    assert_eq!(xt.slot_value(&"a".to_string()), Some(false));
    assert_eq!(xt.slot_value(&"b".to_string()), None);
}

#[test]
fn unknown_identifier_is_refused() {
    let mut xt = XTState::new();
    xt.setup_slots(ids(&["a"]), false).unwrap();
    assert_eq!(xt.update_callback("z".to_string(), true), Err(XTError::UnknownIdentifier));
    assert!(!xt.activated());
    assert!(xt.history().is_empty());
}

#[test]
fn update_before_setup_is_refused() {
    let mut xt = XTState::new();
    assert_eq!(xt.update_callback("a".to_string(), true), Err(XTError::NotSetup));
    assert_eq!(xt.can_activate(), Err(XTError::NotSetup));
    assert!(!xt.is_setup());
    assert!(xt.history().is_empty());
}

#[test]
fn update_callback_stamps_with_wall_clock() {
    let mut xt = XTState::new();
    xt.setup_slots(ids(&["a"]), false).unwrap();
    xt.update_callback("a".to_string(), true).unwrap();
    let h = xt.history();
    assert_eq!(h.len(), 1);
    assert_eq!(h[0].0, "a");
    assert!(h[0].1);
    // Later than 2020-01-01T00:00:00Z.
    assert!(h[0].2 > 1_577_836_800_000);
}

#[test]
fn setup_registers_every_identifier_of_the_set() {
    let mut xt = XTState::new();
    let names = ["one", "two", "three", "four", "five"];
    xt.setup_slots(ids(&names), false).unwrap();
    for n in names {
        assert_eq!(xt.slot_value(&n.to_string()), Some(false));
    }
    assert_eq!(xt.slot_value(&"six".to_string()), None);
}

#[test]
fn default_is_a_fresh_instance() {
    let xt = XTState::default();
    assert!(!xt.is_setup());
    assert!(!xt.activated());
    assert!(xt.history().is_empty());
}

#[test]
fn latest_write_of_each_slot_decides_activation() {
    let mut xt = XTState::new();
    xt.setup_slots(ids(&["a", "b"]), false).unwrap();
    xt.update_at("a".to_string(), true, 1).unwrap();
    xt.update_at("b".to_string(), true, 2).unwrap();
    xt.update_at("a".to_string(), false, 3).unwrap();
    assert!(!xt.activated());
    xt.update_at("b".to_string(), false, 4).unwrap();
    xt.update_at("b".to_string(), true, 5).unwrap();
    assert!(!xt.activated());
    xt.update_at("a".to_string(), true, 6).unwrap();
    assert!(xt.activated());
    assert_eq!(xt.history().len(), 6);
}
