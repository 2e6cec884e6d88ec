//! Tests for parsing `toggle` clauses and whole `--hook` arguments.

use evsieve::hook::{HookArg, HookToggleAction, HookToggleShift};

fn strings(tokens: &[&str]) -> Vec<String> {
    tokens.iter().map(|t| (*t).to_owned()).collect()
}

#[test]
fn parse_stores_one_based_index() {
    let action = HookToggleAction::parse(false, strings(&["a:3"])).unwrap();
    assert_eq!(action.action_for_id("a"), Some(HookToggleShift::ToIndex(2)));
    assert_eq!(action.global_action(), None);
}

#[test]
fn parse_stores_large_one_based_index() {
    let action = HookToggleAction::parse(false, strings(&["slow:10"])).unwrap();
    assert_eq!(
        action.action_for_id("slow"),
        Some(HookToggleShift::ToIndex(9))
    );
}

#[test]
fn parse_without_index_requests_next() {
    let action = HookToggleAction::parse(false, strings(&["a"])).unwrap();
    assert_eq!(action.action_for_id("a"), Some(HookToggleShift::Next));
    assert_eq!(action.action_for_id("b"), None);
}

#[test]
fn parse_rejects_index_zero() {
    let error = HookToggleAction::parse(false, strings(&["a:0"])).unwrap_err();
    assert_eq!(
        error.message(),
        "Cannot use toggle index 0: toggle indices start at 1."
    );
}

#[test]
fn parse_rejects_index_zero_for_unspecified_clause() {
    let error = HookToggleAction::parse(false, strings(&[":0"])).unwrap_err();
    assert_eq!(
        error.message(),
        "Cannot use toggle index 0: toggle indices start at 1."
    );
}

#[test]
fn parse_rejects_second_unspecified_clause() {
    let error = HookToggleAction::parse(false, strings(&["", ":2"])).unwrap_err();
    assert_eq!(
        error.message(),
        "A --hook cannot have multiple unspecified toggle clauses."
    );
}

#[test]
fn parse_rejects_flag_plus_unspecified_clause() {
    let error = HookToggleAction::parse(true, strings(&[":2"])).unwrap_err();
    assert_eq!(
        error.message(),
        "A --hook cannot have multiple unspecified toggle clauses."
    );
}

#[test]
fn parse_rejects_repeated_id() {
    let error = HookToggleAction::parse(false, strings(&["a", "a"])).unwrap_err();
    assert_eq!(
        error.message(),
        "A toggle=a clause has been specified multiple times."
    );
}

#[test]
fn parse_rejects_repeated_id_with_different_indices() {
    let error = HookToggleAction::parse(false, strings(&["left:1", "left:2"])).unwrap_err();
    assert_eq!(
        error.message(),
        "A toggle=left clause has been specified multiple times."
    );
}

#[test]
fn parse_rejects_non_integer_index() {
    let error = HookToggleAction::parse(false, strings(&["a:x"])).unwrap_err();
    assert_eq!(
        error.message(),
        "Cannot interpret x as an integer: invalid digit found in string."
    );
}

#[test]
fn parse_rejects_empty_index() {
    let error = HookToggleAction::parse(false, strings(&["a:"])).unwrap_err();
    assert_eq!(
        error.message(),
        "Cannot interpret  as an integer: cannot parse integer from empty string."
    );
}

#[test]
fn parse_rejects_oversized_index() {
    let error =
        HookToggleAction::parse(false, strings(&["a:99999999999999999999999999"])).unwrap_err();
    assert_eq!(
        error.message(),
        "Cannot interpret 99999999999999999999999999 as an integer: \
         number too large to fit in target type."
    );
}

#[test]
fn parse_accepts_plus_signed_index() {
    let action = HookToggleAction::parse(false, strings(&["a:+5"])).unwrap();
    assert_eq!(action.action_for_id("a"), Some(HookToggleShift::ToIndex(4)));
}

#[test]
fn parse_rejects_lone_plus_sign_index() {
    let error = HookToggleAction::parse(false, strings(&["a:+"])).unwrap_err();
    assert_eq!(
        error.message(),
        "Cannot interpret + as an integer: invalid digit found in string."
    );
}

#[test]
fn parse_splits_clause_on_first_colon_only() {
    let error = HookToggleAction::parse(false, strings(&["a:1:2"])).unwrap_err();
    assert_eq!(
        error.message(),
        "Cannot interpret 1:2 as an integer: invalid digit found in string."
    );
}

#[test]
fn parse_accepts_flag_and_distinct_ids() {
    let action = HookToggleAction::parse(true, strings(&["a", "b:2"])).unwrap();
    assert_eq!(action.global_action(), Some(HookToggleShift::Next));
    assert_eq!(action.action_for_id("a"), Some(HookToggleShift::Next));
    assert_eq!(action.action_for_id("b"), Some(HookToggleShift::ToIndex(1)));
}

#[test]
fn parse_unspecified_clause_with_index_sets_global() {
    let action = HookToggleAction::parse(false, strings(&[":3"])).unwrap();
    assert_eq!(action.global_action(), Some(HookToggleShift::ToIndex(2)));
}

#[test]
fn hook_arg_requires_at_least_one_key() {
    let error = HookArg::parse(strings(&["toggle"])).unwrap_err();
    assert_eq!(error.message(), "A --hook argument requires at least one key.");
}

#[test]
fn hook_arg_requires_keys_even_with_clauses() {
    let error = HookArg::parse(strings(&["exec-shell=echo hi", "toggle=a:2"])).unwrap_err();
    assert_eq!(error.message(), "A --hook argument requires at least one key.");
}

#[test]
fn hook_arg_requires_keys_when_empty() {
    let error = HookArg::parse(Vec::new()).unwrap_err();
    assert_eq!(error.message(), "A --hook argument requires at least one key.");
}

#[test]
fn hook_arg_parses_full_specification() {
    let arg = HookArg::parse(strings(&[
        "key:a",
        "exec-shell=echo hi",
        "toggle=t1:2",
        "toggle",
        "key:b",
    ]))
    .unwrap();
    assert_eq!(arg.exec_shell, vec!["echo hi".to_owned()]);
    assert_eq!(arg.hold_keys.len(), 2);
    assert_eq!(arg.hold_keys[0].name, "key:a");
    assert_eq!(arg.hold_keys[1].name, "key:b");
    assert_eq!(arg.toggle_action.global_action(), Some(HookToggleShift::Next));
    assert_eq!(
        arg.toggle_action.action_for_id("t1"),
        Some(HookToggleShift::ToIndex(1))
    );
}

#[test]
fn hook_arg_rejects_unknown_clause() {
    let error = HookArg::parse(strings(&["foo=bar", "key:a"])).unwrap_err();
    assert_eq!(
        error.message(),
        "The clause foo is not recognised by a --hook argument."
    );
}

#[test]
fn hook_arg_rejects_duplicate_toggle_flag() {
    let error = HookArg::parse(strings(&["toggle", "toggle", "key:a"])).unwrap_err();
    assert_eq!(
        error.message(),
        "The toggle flag has been specified multiple times."
    );
}

#[test]
fn hook_arg_rejects_path_token() {
    let error = HookArg::parse(strings(&["/dev/input/event0", "key:a"])).unwrap_err();
    assert_eq!(error.message(), "A --hook argument does not take a path.");
}

#[test]
fn hook_arg_surfaces_toggle_clause_errors() {
    let error = HookArg::parse(strings(&["key:a", "toggle=t1:0"])).unwrap_err();
    assert_eq!(
        error.message(),
        "Cannot use toggle index 0: toggle indices start at 1."
    );
}
