//! Tests for the toggle state machine, compiled effects and device policy.

use evsieve::domain::Domain;
use evsieve::hook::{Effect, HookToggleAction, HookToggleShift};
use evsieve::predevice::{GrabMode, PersistMode, PreInputDevice, PreOutputDevice, RepeatMode};
use evsieve::state::{State, Toggle, ToggleIndex};

fn strings(tokens: &[&str]) -> Vec<String> {
    tokens.iter().map(|t| (*t).to_owned()).collect()
}

#[test]
fn toggle_advance_wraps_around() {
    let mut toggle = Toggle::new(3);
    assert_eq!(toggle.cardinality(), 3);
    assert_eq!(toggle.active_index(), 0);
    toggle.advance();
    assert_eq!(toggle.active_index(), 1);
    toggle.advance();
    assert_eq!(toggle.active_index(), 2);
    toggle.advance();
    assert_eq!(toggle.active_index(), 0);
}

#[test]
fn toggle_with_one_state_stays_at_zero() {
    let mut toggle = Toggle::new(1);
    toggle.advance();
    assert_eq!(toggle.active_index(), 0);
    toggle.set_value_wrapped(5);
    assert_eq!(toggle.active_index(), 0);
}

#[test]
fn set_value_wrapped_reduces_modulo_cardinality() {
    let mut toggle = Toggle::new(4);
    toggle.set_value_wrapped(2);
    assert_eq!(toggle.active_index(), 2);
    toggle.set_value_wrapped(4);
    assert_eq!(toggle.active_index(), 0);
    toggle.set_value_wrapped(7);
    assert_eq!(toggle.active_index(), 3);
    toggle.set_value_wrapped(0);
    assert_eq!(toggle.active_index(), 0);
}

#[test]
fn state_issues_stable_indices() {
    let mut state = State::new();
    let first = state.create_toggle(2);
    let second = state.create_toggle(5);
    assert_eq!(state.toggle_count(), 2);
    assert_eq!(state.active_index_of(first), 0);
    assert_eq!(state.cardinality_of(second), 5);
    state.apply_shift(second, HookToggleShift::ToIndex(3));
    assert_eq!(state.active_index_of(second), 3);
    assert_eq!(state.active_index_of(first), 0);
}

#[test]
fn implement_compiles_one_effect_per_id_clause() {
    let mut state = State::new();
    let first = state.create_toggle(2);
    let second = state.create_toggle(4);
    let resolved: Vec<(String, ToggleIndex)> =
        vec![("t1".to_owned(), first), ("t2".to_owned(), second)];

    let action = HookToggleAction::parse(false, strings(&["t1", "t2:3"])).unwrap();
    let effects = action.implement(&resolved).unwrap();
    assert_eq!(effects.len(), 2);

    for effect in &effects {
        effect.apply(&mut state);
    }
    assert_eq!(state.active_index_of(first), 1);
    assert_eq!(state.active_index_of(second), 2);
}

#[test]
fn implement_rejects_unresolved_id() {
    let mut state = State::new();
    let first = state.create_toggle(2);
    let resolved: Vec<(String, ToggleIndex)> = vec![("known".to_owned(), first)];

    let action = HookToggleAction::parse(false, strings(&["missing"])).unwrap();
    let error = action.implement(&resolved).unwrap_err();
    assert_eq!(error.message(), "No toggle with the id \"missing\" exists.");
}

#[test]
fn implement_accepts_extra_map_entries() {
    let mut state = State::new();
    let first = state.create_toggle(2);
    let second = state.create_toggle(3);
    let resolved: Vec<(String, ToggleIndex)> =
        vec![("used".to_owned(), first), ("unused".to_owned(), second)];

    let action = HookToggleAction::parse(false, strings(&["used"])).unwrap();
    let effects = action.implement(&resolved).unwrap();
    assert_eq!(effects.len(), 1);
}

#[test]
fn global_effect_touches_only_unnamed_toggles() {
    let mut state = State::new();
    let t1 = state.create_toggle(2);
    let t2 = state.create_toggle(3);
    let t3 = state.create_toggle(2);
    state.apply_shift(t2, HookToggleShift::Next);
    assert_eq!(state.active_index_of(t1), 0);
    assert_eq!(state.active_index_of(t2), 1);
    assert_eq!(state.active_index_of(t3), 0);

    let resolved: Vec<(String, ToggleIndex)> = vec![
        ("T1".to_owned(), t1),
        ("T2".to_owned(), t2),
        ("T3".to_owned(), t3),
    ];
    let action = HookToggleAction::parse(true, strings(&["T1"])).unwrap();
    let effects = action.implement(&resolved).unwrap();
    assert_eq!(effects.len(), 2);

    for effect in &effects {
        effect.apply(&mut state);
    }
    assert_eq!(state.active_index_of(t1), 1);
    assert_eq!(state.active_index_of(t2), 2);
    assert_eq!(state.active_index_of(t3), 1);
}

#[test]
fn global_effect_alone_touches_every_toggle() {
    let mut state = State::new();
    let t1 = state.create_toggle(2);
    let t2 = state.create_toggle(3);
    let resolved: Vec<(String, ToggleIndex)> = Vec::new();

    let action = HookToggleAction::parse(false, strings(&[":2"])).unwrap();
    let effects = action.implement(&resolved).unwrap();
    assert_eq!(effects.len(), 1);
    assert!(matches!(effects[0], Effect::AdvanceAllExcept(_, _)));

    for effect in &effects {
        effect.apply(&mut state);
    }
    assert_eq!(state.active_index_of(t1), 1);
    assert_eq!(state.active_index_of(t2), 1);
}

#[test]
fn device_descriptors_carry_their_policy() {
    let input = PreInputDevice {
        path: "/dev/input/event3".to_owned(),
        domain: Domain { value: 7 },
        grab_mode: GrabMode::Auto,
        persist_mode: PersistMode::Reopen,
    };
    let copy = input.clone();
    assert_eq!(copy.path, "/dev/input/event3");
    assert_eq!(copy.domain, Domain { value: 7 });
    assert_eq!(copy.grab_mode, GrabMode::Auto);
    assert_eq!(copy.persist_mode, PersistMode::Reopen);

    let output = PreOutputDevice {
        domain: Domain { value: 7 },
        create_link: None,
        name: "virtual keyboard".to_owned(),
        repeat_mode: RepeatMode::Passive,
    };
    assert_eq!(output.create_link, None);
    assert_eq!(output.repeat_mode, RepeatMode::Passive);
}

#[test]
fn grab_combine_is_commutative_and_idempotent() {
    let modes = [GrabMode::Force, GrabMode::Auto, GrabMode::NoGrab];
    for &a in &modes {
        assert_eq!(GrabMode::combine(a, a), a);
        for &b in &modes {
            assert_eq!(GrabMode::combine(a, b), GrabMode::combine(b, a));
        }
    }
}

#[test]
fn grab_combine_force_absorbs() {
    let modes = [GrabMode::Force, GrabMode::Auto, GrabMode::NoGrab];
    for &a in &modes {
        assert_eq!(GrabMode::combine(GrabMode::Force, a), GrabMode::Force);
        assert_eq!(GrabMode::combine(a, GrabMode::Force), GrabMode::Force);
    }
}

#[test]
fn grab_combine_auto_beats_nograb() {
    assert_eq!(
        GrabMode::combine(GrabMode::Auto, GrabMode::NoGrab),
        GrabMode::Auto
    );
    assert_eq!(
        GrabMode::combine(GrabMode::NoGrab, GrabMode::Auto),
        GrabMode::Auto
    );
    assert_eq!(
        GrabMode::combine(GrabMode::NoGrab, GrabMode::NoGrab),
        GrabMode::NoGrab
    );
}
