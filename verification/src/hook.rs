//! Parsing and compilation of `--hook` arguments.
//!
//! A `--hook` argument names keys that must be held, shell commands to run,
//! and `toggle` clauses. The clauses are parsed into a still-symbolic
//! [`HookToggleAction`]; once every toggle id has been resolved to a
//! [`ToggleIndex`], [`HookToggleAction::implement`] compiles the action into
//! a list of [`Effect`]s that the event loop invokes against the shared
//! [`State`] when the hook triggers.

use vstd::prelude::*;
use crate::error::ArgumentError;
use crate::key::{Key, Namespace};
use crate::state::{
    index_in_list, lemma_shifted_active_in_range, lemma_toggle_extensional, lemma_with_active,
    shift_applied, shifted_active, State, Toggle, ToggleIndex,
};
use crate::text::{
    contains_char, find_char, first_index_of, int_parse_error_message, int_parse_error_text,
    parse_decimal, parse_decimal_spec, starts_with, text_equals, IntParseError,
};

verus! {

/// How a single toggle clause on a hook should modify some toggle.
#[derive(Clone, Copy, PartialEq, Eq, Structural, Debug)]
pub enum HookToggleShift {
    /// Move the active index to the next one, wrapping around.
    Next,
    /// Set the active index to a specific 0-based index, wrapping around.
    ToIndex(usize),
}

// ---------------------------------------------------------------------------
// Error messages
// ---------------------------------------------------------------------------

/// The message rejecting the user-facing toggle index 0.
pub open spec fn msg_index_zero() -> Seq<char> {
    "Cannot use toggle index 0: toggle indices start at 1."@
}

/// The message rejecting a toggle index that is not a decimal integer.
pub open spec fn msg_bad_index(index_text: Seq<char>, error: IntParseError) -> Seq<char> {
    "Cannot interpret "@ + index_text + " as an integer: "@ + int_parse_error_text(error) + "."@
}

/// The message rejecting a second unspecified toggle clause on one hook.
pub open spec fn msg_multiple_unspecified() -> Seq<char> {
    "A --hook cannot have multiple unspecified toggle clauses."@
}

/// The message rejecting a repeated `toggle=id` clause on one hook.
pub open spec fn msg_duplicate_id(id: Seq<char>) -> Seq<char> {
    "A toggle="@ + id + " clause has been specified multiple times."@
}

/// The message rejecting a toggle id that no toggle defines.
pub open spec fn msg_no_such_id(id: Seq<char>) -> Seq<char> {
    "No toggle with the id \""@ + id + "\" exists."@
}

/// The message rejecting a hook without any held key.
pub open spec fn msg_missing_keys() -> Seq<char> {
    "A --hook argument requires at least one key."@
}

/// The message rejecting a second bare `toggle` flag on one hook.
pub open spec fn msg_duplicate_flag() -> Seq<char> {
    "The toggle flag has been specified multiple times."@
}

/// The message rejecting a clause whose name a hook does not know.
pub open spec fn msg_unknown_clause(name: Seq<char>) -> Seq<char> {
    "The clause "@ + name + " is not recognised by a --hook argument."@
}

/// The message rejecting a path token on a hook.
pub open spec fn msg_path_token() -> Seq<char> {
    "A --hook argument does not take a path."@
}

fn index_zero_message() -> (result: String)
    ensures
        result@ == msg_index_zero(),
{
    "Cannot use toggle index 0: toggle indices start at 1.".to_owned()
}

fn bad_index_message(index_text: &str, error: IntParseError) -> (result: String)
    ensures
        result@ == msg_bad_index(index_text@, error),
{
    let mut message = "Cannot interpret ".to_owned();
    message.append(index_text);
    message.append(" as an integer: ");
    message.append(int_parse_error_message(error));
    message.append(".");
    proof {
        assert(message@ =~= msg_bad_index(index_text@, error));
    }
    message
}

fn multiple_unspecified_message() -> (result: String)
    ensures
        result@ == msg_multiple_unspecified(),
{
    "A --hook cannot have multiple unspecified toggle clauses.".to_owned()
}

fn duplicate_id_message(id: &str) -> (result: String)
    ensures
        result@ == msg_duplicate_id(id@),
{
    let mut message = "A toggle=".to_owned();
    message.append(id);
    message.append(" clause has been specified multiple times.");
    proof {
        assert(message@ =~= msg_duplicate_id(id@));
    }
    message
}

fn no_such_id_message(id: &str) -> (result: String)
    ensures
        result@ == msg_no_such_id(id@),
{
    let mut message = "No toggle with the id \"".to_owned();
    message.append(id);
    message.append("\" exists.");
    proof {
        assert(message@ =~= msg_no_such_id(id@));
    }
    message
}

fn missing_keys_message() -> (result: String)
    ensures
        result@ == msg_missing_keys(),
{
    "A --hook argument requires at least one key.".to_owned()
}

fn duplicate_flag_message() -> (result: String)
    ensures
        result@ == msg_duplicate_flag(),
{
    "The toggle flag has been specified multiple times.".to_owned()
}

fn unknown_clause_message(name: &str) -> (result: String)
    ensures
        result@ == msg_unknown_clause(name@),
{
    let mut message = "The clause ".to_owned();
    message.append(name);
    message.append(" is not recognised by a --hook argument.");
    proof {
        assert(message@ =~= msg_unknown_clause(name@));
    }
    message
}

fn path_token_message() -> (result: String)
    ensures
        result@ == msg_path_token(),
{
    "A --hook argument does not take a path.".to_owned()
}

// ---------------------------------------------------------------------------
// Association lists keyed by text
// ---------------------------------------------------------------------------

/// The value bound to `key` by the earliest pair of `pairs` naming it.
pub open spec fn assoc_lookup<V>(pairs: Seq<(Seq<char>, V)>, key: Seq<char>) -> Option<V>
    decreases pairs.len(),
{
    if pairs.len() == 0 {
        None
    } else if pairs[0].0 == key {
        Some(pairs[0].1)
    } else {
        assoc_lookup(pairs.drop_first(), key)
    }
}

/// The finite map that an association list stands for.
pub open spec fn assoc_map<V>(pairs: Seq<(Seq<char>, V)>) -> Map<Seq<char>, V> {
    Map::new(
        |key: Seq<char>| assoc_lookup(pairs, key) is Some,
        |key: Seq<char>| assoc_lookup(pairs, key).unwrap(),
    )
}

/// A lookup misses exactly when no pair names the key.
pub proof fn lemma_assoc_lookup_none<V>(pairs: Seq<(Seq<char>, V)>, key: Seq<char>)
    ensures
        (assoc_lookup(pairs, key) is None) <==> (forall|i: int|
            0 <= i < pairs.len() ==> (#[trigger] pairs[i]).0 != key),
    decreases pairs.len(),
{
    if pairs.len() > 0 {
        lemma_assoc_lookup_none(pairs.drop_first(), key);
        assert(forall|i: int|
            1 <= i < pairs.len() ==> (#[trigger] pairs[i]) == pairs.drop_first()[i - 1]);
    }
}

/// Appending a pair binds its key only where the list did not bind it yet.
pub proof fn lemma_assoc_lookup_push<V>(
    pairs: Seq<(Seq<char>, V)>,
    pair: (Seq<char>, V),
    key: Seq<char>,
)
    ensures
        assoc_lookup(pairs.push(pair), key) == (if assoc_lookup(pairs, key) is Some {
            assoc_lookup(pairs, key)
        } else if pair.0 == key {
            Some(pair.1)
        } else {
            None::<V>
        }),
    decreases pairs.len(),
{
    if pairs.len() == 0 {
        assert(pairs.push(pair)[0] == pair);
        assert(pairs.push(pair).drop_first() =~= Seq::<(Seq<char>, V)>::empty());
    } else {
        assert(pairs.push(pair)[0] == pairs[0]);
        assert(pairs.push(pair).drop_first() =~= pairs.drop_first().push(pair));
        lemma_assoc_lookup_push(pairs.drop_first(), pair, key);
    }
}

/// Appending a pair for a fresh key inserts it into the map.
pub proof fn lemma_assoc_map_push<V>(pairs: Seq<(Seq<char>, V)>, pair: (Seq<char>, V))
    requires
        assoc_lookup(pairs, pair.0) is None,
    ensures
        assoc_map(pairs.push(pair)) == assoc_map(pairs).insert(pair.0, pair.1),
{
    assert forall|key: Seq<char>|
        #[trigger] assoc_lookup(pairs.push(pair), key) == (if key == pair.0 {
            Some(pair.1)
        } else {
            assoc_lookup(pairs, key)
        }) by {
        lemma_assoc_lookup_push(pairs, pair, key);
    }
    assert(assoc_map(pairs.push(pair)) =~= assoc_map(pairs).insert(pair.0, pair.1));
}

/// The pairs of a shift list with their ids as character sequences.
pub open spec fn shift_pairs_view(pairs: Seq<(String, HookToggleShift)>) -> Seq<
    (Seq<char>, HookToggleShift),
> {
    pairs.map_values(|pair: (String, HookToggleShift)| (pair.0@, pair.1))
}

/// The pairs of a toggle-index list with their ids as character sequences.
pub open spec fn index_pairs_view(pairs: Seq<(String, ToggleIndex)>) -> Seq<
    (Seq<char>, ToggleIndex),
> {
    pairs.map_values(|pair: (String, ToggleIndex)| (pair.0@, pair.1))
}

fn lookup_shift(pairs: &Vec<(String, HookToggleShift)>, id: &str) -> (result: Option<
    HookToggleShift,
>)
    ensures
        result == assoc_lookup(shift_pairs_view(pairs@), id@),
{
    let ghost viewed = shift_pairs_view(pairs@);
    proof {
        assert(viewed.skip(0) =~= viewed);
    }
    let count = pairs.len();
    let mut k: usize = 0;
    while k < count
        invariant
            0 <= k <= count,
            count == pairs@.len(),
            viewed == shift_pairs_view(pairs@),
            viewed.len() == count,
            forall|j: int| 0 <= j < count ==> #[trigger] viewed[j] == (pairs@[j].0@, pairs@[j].1),
            assoc_lookup(viewed, id@) == assoc_lookup(viewed.skip(k as int), id@),
        decreases count - k,
    {
        let ghost rest = viewed.skip(k as int);
        proof {
            assert(rest[0] == viewed[k as int]);
            assert(rest.drop_first() =~= viewed.skip(k as int + 1));
        }
        if text_equals(pairs[k].0.as_str(), id) {
            return Some(pairs[k].1);
        }
        k = k + 1;
    }
    proof {
        assert(viewed.skip(count as int) =~= Seq::<(Seq<char>, HookToggleShift)>::empty());
    }
    None
}

fn lookup_index(pairs: &Vec<(String, ToggleIndex)>, id: &str) -> (result: Option<ToggleIndex>)
    ensures
        result == assoc_lookup(index_pairs_view(pairs@), id@),
{
    let ghost viewed = index_pairs_view(pairs@);
    proof {
        assert(viewed.skip(0) =~= viewed);
    }
    let count = pairs.len();
    let mut k: usize = 0;
    while k < count
        invariant
            0 <= k <= count,
            count == pairs@.len(),
            viewed == index_pairs_view(pairs@),
            viewed.len() == count,
            forall|j: int| 0 <= j < count ==> #[trigger] viewed[j] == (pairs@[j].0@, pairs@[j].1),
            assoc_lookup(viewed, id@) == assoc_lookup(viewed.skip(k as int), id@),
        decreases count - k,
    {
        let ghost rest = viewed.skip(k as int);
        proof {
            assert(rest[0] == viewed[k as int]);
            assert(rest.drop_first() =~= viewed.skip(k as int + 1));
        }
        if text_equals(pairs[k].0.as_str(), id) {
            return Some(pairs[k].1);
        }
        k = k + 1;
    }
    proof {
        assert(viewed.skip(count as int) =~= Seq::<(Seq<char>, ToggleIndex)>::empty());
    }
    None
}

// ---------------------------------------------------------------------------
// The symbolic toggle action of one hook
// ---------------------------------------------------------------------------

/// The mathematical content of a [`HookToggleAction`]: an optional global
/// shift and a map from toggle id to the shift requested for it.
pub ghost struct ToggleActionModel {
    /// The action based on a bare `toggle` flag or a `toggle=` clause
    /// without id.
    pub global: Option<HookToggleShift>,
    /// The shift requested for each toggle id named by a clause.
    pub by_id: Map<Seq<char>, HookToggleShift>,
}

/// The id part of a toggle clause: everything before the first `:`, or the
/// whole clause when there is none.
pub open spec fn clause_id(clause: Seq<char>) -> Seq<char> {
    match first_index_of(clause, ':') {
        None => clause,
        Some(position) => clause.take(position),
    }
}

/// The index part of a toggle clause: everything after the first `:`, if
/// there is one.
pub open spec fn clause_index_text(clause: Seq<char>) -> Option<Seq<char>> {
    match first_index_of(clause, ':') {
        None => None,
        Some(position) => Some(clause.skip(position + 1)),
    }
}

/// The shift one toggle clause requests, or the message on which it is
/// rejected: no index part means `Next`; an index part must read as a
/// positive decimal integer, is rejected as 0, and is stored 0-based.
pub open spec fn clause_shift(clause: Seq<char>) -> Result<HookToggleShift, Seq<char>> {
    match clause_index_text(clause) {
        None => Ok(HookToggleShift::Next),
        Some(index_text) => match parse_decimal_spec(index_text) {
            Err(error) => Err(msg_bad_index(index_text, error)),
            Ok(value) => if value == 0 {
                Err(msg_index_zero())
            } else {
                Ok(HookToggleShift::ToIndex((value - 1) as usize))
            },
        },
    }
}

/// Folds the toggle clauses of one hook, in order, over a partial action:
/// an unspecified clause fills the global slot and may not meet a second
/// one; an id clause fills that id's slot and may not repeat.
pub open spec fn parse_toggle_fold(
    model: ToggleActionModel,
    clauses: Seq<Seq<char>>,
) -> Result<ToggleActionModel, Seq<char>>
    decreases clauses.len(),
{
    if clauses.len() == 0 {
        Ok(model)
    } else {
        match clause_shift(clauses[0]) {
            Err(message) => Err(message),
            Ok(shift) => {
                let id = clause_id(clauses[0]);
                if id.len() == 0 {
                    if model.global is Some {
                        Err(msg_multiple_unspecified())
                    } else {
                        parse_toggle_fold(
                            ToggleActionModel { global: Some(shift), ..model },
                            clauses.drop_first(),
                        )
                    }
                } else if model.by_id.contains_key(id) {
                    Err(msg_duplicate_id(id))
                } else {
                    parse_toggle_fold(
                        ToggleActionModel { by_id: model.by_id.insert(id, shift), ..model },
                        clauses.drop_first(),
                    )
                }
            },
        }
    }
}

/// The action of a hook before any clause is read: a bare `toggle` flag is
/// one implicit unspecified clause requesting `Next`.
pub open spec fn initial_toggle_model(has_toggle_flag: bool) -> ToggleActionModel {
    ToggleActionModel {
        global: if has_toggle_flag {
            Some(HookToggleShift::Next)
        } else {
            None
        },
        by_id: Map::empty(),
    }
}

/// What parsing the toggle flag and clauses of one hook yields.
pub open spec fn parse_toggle_spec(
    has_toggle_flag: bool,
    clauses: Seq<Seq<char>>,
) -> Result<ToggleActionModel, Seq<char>> {
    parse_toggle_fold(initial_toggle_model(has_toggle_flag), clauses)
}

/// The character sequences of a list of strings.
pub open spec fn string_views(strings: Seq<String>) -> Seq<Seq<char>> {
    strings.map_values(|s: String| s@)
}

/// The aggregate effect of all toggle clauses on a single `--hook`.
///
/// This tracks what the argument requested; it is still symbolic. The ids
/// are resolved and the action is turned into [`Effect`]s by
/// [`HookToggleAction::implement`].
#[derive(Debug)]
pub struct HookToggleAction {
    /// The action based on a toggle flag or a `toggle=` without id.
    global_action: Option<HookToggleShift>,
    /// The set of specific `toggle=id:index` clauses specified.
    by_id_actions: Vec<(String, HookToggleShift)>,
}

impl HookToggleAction {
    /// The global shift of this action, if any.
    pub closed spec fn global(&self) -> Option<HookToggleShift> {
        self.global_action
    }

    /// The id clauses of this action, in the order they were specified.
    pub closed spec fn pairs(&self) -> Seq<(Seq<char>, HookToggleShift)> {
        shift_pairs_view(self.by_id_actions@)
    }

    /// The map from toggle id to requested shift.
    pub open spec fn by_id(&self) -> Map<Seq<char>, HookToggleShift> {
        assoc_map(self.pairs())
    }

    /// The mathematical content of this action.
    pub open spec fn model(&self) -> ToggleActionModel {
        ToggleActionModel { global: self.global(), by_id: self.by_id() }
    }

    /// Each id clause names a nonempty id, and no id repeats.
    pub open spec fn wf(&self) -> bool {
        &&& forall|i: int| 0 <= i < self.pairs().len() ==> (#[trigger] self.pairs()[i]).0.len() > 0
        &&& forall|i: int, j: int|
            0 <= i < j < self.pairs().len() ==> (#[trigger] self.pairs()[i]).0 != (
            #[trigger] self.pairs()[j]).0
    }

    fn new() -> (result: HookToggleAction)
        ensures
            result.wf(),
            result.global() is None,
            result.pairs() == Seq::<(Seq<char>, HookToggleShift)>::empty(),
            result.by_id() == Map::<Seq<char>, HookToggleShift>::empty(),
    {
        let action = HookToggleAction { global_action: None, by_id_actions: Vec::new() };
        proof {
            assert(action.pairs() =~= Seq::<(Seq<char>, HookToggleShift)>::empty());
            assert(action.by_id() =~= Map::<Seq<char>, HookToggleShift>::empty());
        }
        action
    }

    /// The global shift of this action, if any.
    pub fn global_action(&self) -> (result: Option<HookToggleShift>)
        ensures
            result == self.global(),
    {
        self.global_action
    }

    /// The shift this action requests for the toggle with id `id`, if any.
    pub fn action_for_id(&self, id: &str) -> (result: Option<HookToggleShift>)
        ensures
            result == assoc_lookup(self.pairs(), id@),
    {
        lookup_shift(&self.by_id_actions, id)
    }

    /// Parses the toggle clauses of one hook: whether a bare `toggle` flag
    /// was present, and the ordered raw `toggle=...` clause values.
    pub fn parse(has_toggle_flag: bool, toggle_clauses: Vec<String>) -> (result: Result<
        HookToggleAction,
        ArgumentError,
    >)
        ensures
            match result {
                Ok(action) => action.wf() && parse_toggle_spec(
                    has_toggle_flag,
                    string_views(toggle_clauses@),
                ) == Ok::<ToggleActionModel, Seq<char>>(action.model()),
                Err(error) => parse_toggle_spec(has_toggle_flag, string_views(toggle_clauses@))
                    matches Err(message) && error@ == message,
            },
    {
        let ghost all_clauses = string_views(toggle_clauses@);
        let mut action = HookToggleAction::new();
        if has_toggle_flag {
            action.global_action = Some(HookToggleShift::Next);
        }
        proof {
            assert(action.model() == initial_toggle_model(has_toggle_flag));
            assert(all_clauses.skip(0) =~= all_clauses);
        }
        let count = toggle_clauses.len();
        let mut i: usize = 0;
        while i < count
            invariant
                0 <= i <= count,
                count == toggle_clauses@.len(),
                all_clauses == string_views(toggle_clauses@),
                all_clauses.len() == count,
                forall|j: int| 0 <= j < count ==> #[trigger] all_clauses[j] == toggle_clauses@[j]@,
                action.wf(),
                parse_toggle_spec(has_toggle_flag, all_clauses) == parse_toggle_fold(
                    action.model(),
                    all_clauses.skip(i as int),
                ),
            decreases count - i,
        {
            let ghost remaining = all_clauses.skip(i as int);
            let ghost model_before = action.model();
            proof {
                assert(remaining[0] == all_clauses[i as int]);
                assert(remaining.drop_first() =~= all_clauses.skip(i as int + 1));
            }
            let clause = &toggle_clauses[i];
            let clause_len = clause.as_str().unicode_len();
            let shift: HookToggleShift;
            let id: &str;
            match find_char(clause.as_str(), ':') {
                None => {
                    id = clause.as_str();
                    shift = HookToggleShift::Next;
                    proof {
                        assert(clause_shift(clause@) == Ok::<HookToggleShift, Seq<char>>(shift));
                        assert(clause_id(clause@) == id@);
                    }
                },
                Some(position) => {
                    proof {
                        crate::text::lemma_first_index_of(clause@, ':');
                    }
                    id = clause.as_str().substring_char(0, position);
                    let index_text = clause.as_str().substring_char(position + 1, clause_len);
                    proof {
                        assert(id@ =~= clause_id(clause@));
                        assert(index_text@ =~= clause_index_text(clause@).unwrap());
                    }
                    match parse_decimal(index_text) {
                        Err(error) => {
                            proof {
                                assert(clause_shift(clause@) == Err::<HookToggleShift, Seq<char>>(
                                    msg_bad_index(index_text@, error),
                                ));
                            }
                            return Err(ArgumentError::new(bad_index_message(index_text, error)));
                        },
                        Ok(value) => {
                            if value == 0 {
                                proof {
                                    assert(clause_shift(clause@) == Err::<
                                        HookToggleShift,
                                        Seq<char>,
                                    >(msg_index_zero()));
                                }
                                return Err(ArgumentError::new(index_zero_message()));
                            }
                            shift = HookToggleShift::ToIndex(value - 1);
                            proof {
                                assert(clause_shift(clause@) == Ok::<HookToggleShift, Seq<char>>(
                                    shift,
                                ));
                            }
                        },
                    }
                },
            }
            if id.unicode_len() == 0 {
                proof {
                    assert(clause_id(clause@).len() == 0);
                }
                if action.global_action.is_some() {
                    return Err(ArgumentError::new(multiple_unspecified_message()));
                }
                action.global_action = Some(shift);
                proof {
                    assert(action.model() == (ToggleActionModel {
                        global: Some(shift),
                        ..model_before
                    }));
                }
            } else {
                match lookup_shift(&action.by_id_actions, id) {
                    Some(_) => {
                        proof {
                            assert(model_before.by_id.contains_key(clause_id(clause@)));
                        }
                        return Err(ArgumentError::new(duplicate_id_message(id)));
                    },
                    None => {
                        proof {
                            assert(!model_before.by_id.contains_key(clause_id(clause@)));
                        }
                        let ghost pairs_before = action.pairs();
                        action.by_id_actions.push((id.to_owned(), shift));
                        proof {
                            assert(action.pairs() =~= pairs_before.push((id@, shift)));
                            lemma_assoc_map_push(pairs_before, (id@, shift));
                            assert(action.model() == (ToggleActionModel {
                                by_id: model_before.by_id.insert(id@, shift),
                                ..model_before
                            }));
                            lemma_assoc_lookup_none(pairs_before, id@);
                        }
                    },
                }
            }
            i = i + 1;
        }
        proof {
            assert(all_clauses.skip(count as int) =~= Seq::<Seq<char>>::empty());
        }
        Ok(action)
    }

    /// Compiles this action into one [`Effect`] per resolved id clause,
    /// plus, if a global action exists, one final effect that at invocation
    /// time touches every toggle except those whose indices this hook
    /// named explicitly.
    ///
    /// `toggle_index_by_id` maps each toggle id to its resolved index; it
    /// must contain every id that appears in the id clauses, but may
    /// contain extra entries. An id absent from it is a configuration
    /// error, reported with the message of [`msg_no_such_id`] for the
    /// first such id in clause order.
    pub fn implement(&self, toggle_index_by_id: &Vec<(String, ToggleIndex)>) -> (result: Result<
        Vec<Effect>,
        ArgumentError,
    >)
        ensures
            ({
                let resolved = assoc_map(index_pairs_view(toggle_index_by_id@));
                match result {
                    Ok(effects) => {
                        &&& forall|i: int|
                            0 <= i < self.pairs().len() ==> resolved.contains_key(
                                (#[trigger] self.pairs()[i]).0,
                            )
                        &&& effects@.len() == self.pairs().len() + (if self.global() is Some {
                            1int
                        } else {
                            0int
                        })
                        &&& forall|i: int|
                            0 <= i < self.pairs().len() ==> #[trigger] effects@[i]
                                == Effect::AdvanceToggle(
                                resolved[self.pairs()[i].0],
                                self.pairs()[i].1,
                            )
                        &&& self.global() matches Some(shift) ==> (effects@.last()
                            matches Effect::AdvanceAllExcept(except, s) && s == shift
                            && except@.len() == self.pairs().len() && forall|i: int|
                            0 <= i < self.pairs().len() ==> except@[i] == resolved[(
                            #[trigger] self.pairs()[i]).0])
                    },
                    Err(error) => exists|f: int|
                        0 <= f < self.pairs().len() && !resolved.contains_key(
                            (#[trigger] self.pairs()[f]).0,
                        ) && (forall|j: int|
                            0 <= j < f ==> resolved.contains_key((#[trigger] self.pairs()[j]).0))
                            && error@ == msg_no_such_id(self.pairs()[f].0),
                }
            }),
    {
        let ghost resolved = assoc_map(index_pairs_view(toggle_index_by_id@));
        let mut effects: Vec<Effect> = Vec::new();
        let mut specified_indices: Vec<ToggleIndex> = Vec::new();
        let count = self.by_id_actions.len();
        let mut i: usize = 0;
        while i < count
            invariant
                0 <= i <= count,
                count == self.by_id_actions@.len(),
                count == self.pairs().len(),
                resolved == assoc_map(index_pairs_view(toggle_index_by_id@)),
                forall|j: int|
                    0 <= j < count ==> #[trigger] self.pairs()[j] == (
                        self.by_id_actions@[j].0@,
                        self.by_id_actions@[j].1,
                    ),
                effects@.len() == i,
                specified_indices@.len() == i,
                forall|j: int|
                    0 <= j < i ==> resolved.contains_key((#[trigger] self.pairs()[j]).0),
                forall|j: int|
                    0 <= j < i ==> #[trigger] specified_indices@[j] == resolved[self.pairs()[j].0],
                forall|j: int|
                    0 <= j < i ==> #[trigger] effects@[j] == Effect::AdvanceToggle(
                        resolved[self.pairs()[j].0],
                        self.pairs()[j].1,
                    ),
            decreases count - i,
        {
            let pair = &self.by_id_actions[i];
            match lookup_index(toggle_index_by_id, pair.0.as_str()) {
                None => {
                    proof {
                        assert(self.pairs()[i as int].0 == pair.0@);
                        assert(!resolved.contains_key(self.pairs()[i as int].0));
                    }
                    return Err(ArgumentError::new(no_such_id_message(pair.0.as_str())));
                },
                Some(index) => {
                    proof {
                        assert(resolved.contains_key(pair.0@));
                        assert(resolved[pair.0@] == index);
                    }
                    specified_indices.push(index);
                    effects.push(Effect::AdvanceToggle(index, pair.1));
                },
            }
            i = i + 1;
        }
        if let Some(shift) = self.global_action {
            effects.push(Effect::AdvanceAllExcept(specified_indices, shift));
        }
        Ok(effects)
    }
}

// ---------------------------------------------------------------------------
// Effects
// ---------------------------------------------------------------------------

/// A unit of deferred behaviour produced by compiling a
/// [`HookToggleAction`]: a pre-resolved mutation of [`State`], invoked by
/// the event loop when the hook's held keys become active.
#[derive(Clone, Debug)]
pub enum Effect {
    /// Apply the shift to the one toggle the index refers to.
    AdvanceToggle(ToggleIndex, HookToggleShift),
    /// At invocation time, apply the shift to every toggle in the state
    /// except those whose indices are listed.
    AdvanceAllExcept(Vec<ToggleIndex>, HookToggleShift),
}

/// Whether `effect` only refers to slots that `state` has.
pub open spec fn effect_valid(effect: Effect, state: State) -> bool {
    match effect {
        Effect::AdvanceToggle(index, _) => state.valid_index(index),
        Effect::AdvanceAllExcept(_, _) => true,
    }
}

/// The toggle slots that `effect` leaves behind when invoked against a
/// state holding `toggles`.
pub open spec fn effect_applied(toggles: Seq<Toggle>, effect: Effect) -> Seq<Toggle> {
    match effect {
        Effect::AdvanceToggle(index, shift) => toggles.update(
            index.value(),
            shift_applied(toggles[index.value()], shift),
        ),
        Effect::AdvanceAllExcept(except, shift) => Seq::new(
            toggles.len(),
            |j: int|
                if index_in_list(except@, j) {
                    toggles[j]
                } else {
                    shift_applied(toggles[j], shift)
                },
        ),
    }
}

impl Effect {
    /// Invokes this effect against `state`.
    pub fn apply(&self, state: &mut State)
        requires
            old(state).wf(),
            effect_valid(*self, *old(state)),
        ensures
            final(state).wf(),
            final(state)@.len() == old(state)@.len(),
            forall|j: int|
                0 <= j < old(state)@.len() ==> (#[trigger] final(state)@[j]).card()
                    == old(state)@[j].card(),
            match *self {
                Effect::AdvanceToggle(index, shift) => forall|j: int|
                    0 <= j < old(state)@.len() ==> (#[trigger] final(state)@[j]).active() == (
                    if j == index.value() {
                        shifted_active(old(state)@[j], shift)
                    } else {
                        old(state)@[j].active()
                    }),
                Effect::AdvanceAllExcept(except, shift) => forall|j: int|
                    0 <= j < old(state)@.len() ==> (#[trigger] final(state)@[j]).active() == (
                    if index_in_list(except@, j) {
                        old(state)@[j].active()
                    } else {
                        shifted_active(old(state)@[j], shift)
                    }),
            },
            final(state)@ == effect_applied(old(state)@, *self),
    {
        match self {
            Effect::AdvanceToggle(index, shift) => state.apply_shift(*index, *shift),
            Effect::AdvanceAllExcept(except, shift) => state.apply_shift_all_except(
                except,
                *shift,
            ),
        }
        proof {
            let before = old(state)@;
            let after = state@;
            let wanted = effect_applied(before, *self);
            assert forall|j: int| 0 <= j < after.len() implies after[j] == wanted[j] by {
                assert(before[j].wf());
                match *self {
                    Effect::AdvanceToggle(index, shift) => {
                        if j == index.value() {
                            lemma_shifted_active_in_range(before[j], shift);
                            lemma_with_active(before[j], shifted_active(before[j], shift));
                            lemma_toggle_extensional(after[j], shift_applied(before[j], shift));
                        } else {
                            lemma_toggle_extensional(after[j], before[j]);
                        }
                    },
                    Effect::AdvanceAllExcept(except, shift) => {
                        if index_in_list(except@, j) {
                            lemma_toggle_extensional(after[j], before[j]);
                        } else {
                            lemma_shifted_active_in_range(before[j], shift);
                            lemma_with_active(before[j], shifted_active(before[j], shift));
                            lemma_toggle_extensional(after[j], shift_applied(before[j], shift));
                        }
                    },
                }
            }
            assert(after =~= wanted);
        }
    }
}

/// The effect list compiled from one hook is order-independent in its
/// effect on distinct toggles: two by-id effects for distinct slots
/// commute, and a by-id effect commutes with a global effect whose
/// exception list covers the by-id slot, which is how
/// [`HookToggleAction::implement`] always builds the global effect.
pub proof fn lemma_compiled_effects_commute(toggles: Seq<Toggle>, first: Effect, second: Effect)
    requires
        match (first, second) {
            (Effect::AdvanceToggle(i1, _), Effect::AdvanceToggle(i2, _)) => i1.value()
                != i2.value() && 0 <= i1.value() < toggles.len() && 0 <= i2.value()
                < toggles.len(),
            (Effect::AdvanceToggle(i, _), Effect::AdvanceAllExcept(ex, _)) => index_in_list(
                ex@,
                i.value(),
            ) && 0 <= i.value() < toggles.len(),
            (Effect::AdvanceAllExcept(ex, _), Effect::AdvanceToggle(i, _)) => index_in_list(
                ex@,
                i.value(),
            ) && 0 <= i.value() < toggles.len(),
            (Effect::AdvanceAllExcept(_, _), Effect::AdvanceAllExcept(_, _)) => false,
        },
    ensures
        effect_applied(effect_applied(toggles, first), second) == effect_applied(
            effect_applied(toggles, second),
            first,
        ),
{
    let left = effect_applied(effect_applied(toggles, first), second);
    let right = effect_applied(effect_applied(toggles, second), first);
    assert(left =~= right);
}

// ---------------------------------------------------------------------------
// The --hook argument
// ---------------------------------------------------------------------------

/// The token groups of one `--hook` argument: the bare `toggle` flag, the
/// `toggle=` and `exec-shell=` clause values, and the key tokens, each in
/// the order given.
pub ghost struct ArgGroups {
    pub has_flag: bool,
    pub toggle_clauses: Seq<Seq<char>>,
    pub exec_shell: Seq<Seq<char>>,
    pub keys: Seq<Seq<char>>,
}

/// Sorts the tokens of one `--hook` argument into `groups`, in order: the
/// bare flag `toggle` (at most once), the clause values of `toggle=` and
/// `exec-shell=`, and key tokens. A clause with any other name, and a path
/// token, are rejected.
pub open spec fn group_tokens_fold(groups: ArgGroups, tokens: Seq<Seq<char>>) -> Result<
    ArgGroups,
    Seq<char>,
>
    decreases tokens.len(),
{
    if tokens.len() == 0 {
        Ok(groups)
    } else {
        let token = tokens[0];
        let rest = tokens.drop_first();
        if token == "toggle"@ {
            if groups.has_flag {
                Err(msg_duplicate_flag())
            } else {
                group_tokens_fold(ArgGroups { has_flag: true, ..groups }, rest)
            }
        } else if crate::text::has_prefix(token, "toggle="@) {
            group_tokens_fold(
                ArgGroups {
                    toggle_clauses: groups.toggle_clauses.push(token.skip("toggle="@.len() as int)),
                    ..groups
                },
                rest,
            )
        } else if crate::text::has_prefix(token, "exec-shell="@) {
            group_tokens_fold(
                ArgGroups {
                    exec_shell: groups.exec_shell.push(token.skip("exec-shell="@.len() as int)),
                    ..groups
                },
                rest,
            )
        } else {
            match first_index_of(token, '=') {
                Some(position) => Err(msg_unknown_clause(token.take(position))),
                None => if token.len() > 0 && token[0] == '/' {
                    Err(msg_path_token())
                } else {
                    group_tokens_fold(ArgGroups { keys: groups.keys.push(token), ..groups }, rest)
                },
            }
        }
    }
}

/// What sorting the tokens of one `--hook` argument yields.
pub open spec fn group_tokens_spec(tokens: Seq<Seq<char>>) -> Result<ArgGroups, Seq<char>> {
    group_tokens_fold(
        ArgGroups {
            has_flag: false,
            toggle_clauses: Seq::empty(),
            exec_shell: Seq::empty(),
            keys: Seq::empty(),
        },
        tokens,
    )
}

/// The mathematical content of a parsed `--hook` argument.
pub ghost struct HookArgModel {
    /// The shell commands to execute, in order.
    pub exec_shell: Seq<Seq<char>>,
    /// The tokens naming the keys that must be held, in order.
    pub keys: Seq<Seq<char>>,
    /// The aggregate toggle action.
    pub action: ToggleActionModel,
}

/// What parsing one `--hook` argument yields: the tokens are sorted into
/// groups, the toggle clauses are parsed, and a hook without any key token
/// is rejected.
pub open spec fn hook_arg_spec(tokens: Seq<Seq<char>>) -> Result<HookArgModel, Seq<char>> {
    match group_tokens_spec(tokens) {
        Err(message) => Err(message),
        Ok(groups) => match parse_toggle_spec(groups.has_flag, groups.toggle_clauses) {
            Err(message) => Err(message),
            Ok(action) => if groups.keys.len() == 0 {
                Err(msg_missing_keys())
            } else {
                Ok(HookArgModel { exec_shell: groups.exec_shell, keys: groups.keys, action })
            },
        },
    }
}

/// The token groups of one `--hook` argument, as executable values.
struct HookArgGroup {
    has_flag: bool,
    toggle_clauses: Vec<String>,
    exec_shell: Vec<String>,
    keys: Vec<String>,
}

fn group_hook_tokens(args: &Vec<String>) -> (result: Result<HookArgGroup, ArgumentError>)
    ensures
        match result {
            Ok(groups) => group_tokens_spec(string_views(args@)) matches Ok(model)
                && groups.has_flag == model.has_flag && string_views(groups.toggle_clauses@)
                == model.toggle_clauses && string_views(groups.exec_shell@) == model.exec_shell
                && string_views(groups.keys@) == model.keys,
            Err(error) => group_tokens_spec(string_views(args@)) matches Err(message) && error@
                == message,
        },
{
    let ghost tokens = string_views(args@);
    let mut has_flag = false;
    let mut toggle_clauses: Vec<String> = Vec::new();
    let mut exec_shell: Vec<String> = Vec::new();
    let mut keys: Vec<String> = Vec::new();
    proof {
        assert(tokens.skip(0) =~= tokens);
        assert(string_views(toggle_clauses@) =~= Seq::<Seq<char>>::empty());
        assert(string_views(exec_shell@) =~= Seq::<Seq<char>>::empty());
        assert(string_views(keys@) =~= Seq::<Seq<char>>::empty());
    }
    let count = args.len();
    let mut i: usize = 0;
    while i < count
        invariant
            0 <= i <= count,
            count == args@.len(),
            tokens == string_views(args@),
            tokens.len() == count,
            forall|j: int| 0 <= j < count ==> #[trigger] tokens[j] == args@[j]@,
            group_tokens_spec(tokens) == group_tokens_fold(
                ArgGroups {
                    has_flag,
                    toggle_clauses: string_views(toggle_clauses@),
                    exec_shell: string_views(exec_shell@),
                    keys: string_views(keys@),
                },
                tokens.skip(i as int),
            ),
        decreases count - i,
    {
        let ghost remaining = tokens.skip(i as int);
        let ghost groups_before = ArgGroups {
            has_flag,
            toggle_clauses: string_views(toggle_clauses@),
            exec_shell: string_views(exec_shell@),
            keys: string_views(keys@),
        };
        proof {
            assert(remaining[0] == tokens[i as int]);
            assert(remaining.drop_first() =~= tokens.skip(i as int + 1));
        }
        let token = &args[i];
        let token_len = token.as_str().unicode_len();
        if text_equals(token.as_str(), "toggle") {
            if has_flag {
                return Err(ArgumentError::new(duplicate_flag_message()));
            }
            has_flag = true;
        } else if starts_with(token.as_str(), "toggle=") {
            let prefix_len = "toggle=".unicode_len();
            let value = token.as_str().substring_char(prefix_len, token_len);
            proof {
                assert(value@ =~= token@.skip("toggle="@.len() as int));
            }
            let ghost clauses_before = string_views(toggle_clauses@);
            toggle_clauses.push(value.to_owned());
            proof {
                assert(string_views(toggle_clauses@) =~= clauses_before.push(value@));
            }
        } else if starts_with(token.as_str(), "exec-shell=") {
            let prefix_len = "exec-shell=".unicode_len();
            let value = token.as_str().substring_char(prefix_len, token_len);
            proof {
                assert(value@ =~= token@.skip("exec-shell="@.len() as int));
            }
            let ghost shell_before = string_views(exec_shell@);
            exec_shell.push(value.to_owned());
            proof {
                assert(string_views(exec_shell@) =~= shell_before.push(value@));
            }
        } else {
            match find_char(token.as_str(), '=') {
                Some(position) => {
                    proof {
                        crate::text::lemma_first_index_of(token@, '=');
                    }
                    let name = token.as_str().substring_char(0, position);
                    proof {
                        assert(name@ =~= token@.take(position as int));
                    }
                    return Err(ArgumentError::new(unknown_clause_message(name)));
                },
                None => {
                    if token_len > 0 && token.as_str().get_char(0) == '/' {
                        return Err(ArgumentError::new(path_token_message()));
                    }
                    let ghost keys_before = string_views(keys@);
                    keys.push(token.clone());
                    proof {
                        assert(string_views(keys@) =~= keys_before.push(token@));
                    }
                },
            }
        }
        i = i + 1;
    }
    proof {
        assert(tokens.skip(count as int) =~= Seq::<Seq<char>>::empty());
    }
    Ok(HookArgGroup { has_flag, toggle_clauses, exec_shell, keys })
}

/// A parsed `--hook` argument: shell commands to execute, keys that must
/// be held (at least one), and the aggregate toggle action.
#[derive(Debug)]
pub struct HookArg {
    /// The shell commands this hook executes when it triggers, in order.
    pub exec_shell: Vec<String>,
    /// The keys that must be held for this hook to trigger; never empty.
    pub hold_keys: Vec<Key>,
    /// The aggregate toggle action of this hook.
    pub toggle_action: HookToggleAction,
}

impl HookArg {
    /// Parses the token list of one `--hook` argument.
    pub fn parse(args: Vec<String>) -> (result: Result<HookArg, ArgumentError>)
        ensures
            match result {
                Ok(arg) => hook_arg_spec(string_views(args@)) matches Ok(model) && {
                    &&& string_views(arg.exec_shell@) == model.exec_shell
                    &&& arg.hold_keys@.len() == model.keys.len()
                    &&& arg.hold_keys@.len() > 0
                    &&& forall|i: int|
                        0 <= i < model.keys.len() ==> (#[trigger] arg.hold_keys@[i]).name@
                            == model.keys[i] && arg.hold_keys@[i].namespace == Namespace::User
                    &&& arg.toggle_action.wf()
                    &&& arg.toggle_action.model() == model.action
                },
                Err(error) => hook_arg_spec(string_views(args@)) matches Err(message) && error@
                    == message,
            },
            (match group_tokens_spec(string_views(args@)) {
                Ok(groups) => groups.keys.len() == 0,
                Err(_) => false,
            }) ==> result is Err,
    {
        let groups = match group_hook_tokens(&args) {
            Ok(groups) => groups,
            Err(error) => return Err(error),
        };
        let toggle_action = match HookToggleAction::parse(groups.has_flag, groups.toggle_clauses) {
            Ok(action) => action,
            Err(error) => return Err(error),
        };
        if groups.keys.len() == 0 {
            return Err(ArgumentError::new(missing_keys_message()));
        }
        let ghost key_names = string_views(groups.keys@);
        let mut hold_keys: Vec<Key> = Vec::new();
        let key_count = groups.keys.len();
        let mut i: usize = 0;
        while i < key_count
            invariant
                0 <= i <= key_count,
                key_count == groups.keys@.len(),
                key_names == string_views(groups.keys@),
                key_names.len() == key_count,
                forall|j: int| 0 <= j < key_count ==> #[trigger] key_names[j] == groups.keys@[j]@,
                hold_keys@.len() == i,
                forall|j: int|
                    0 <= j < i ==> (#[trigger] hold_keys@[j]).name@ == key_names[j]
                        && hold_keys@[j].namespace == Namespace::User,
            decreases key_count - i,
        {
            hold_keys.push(Key { name: groups.keys[i].clone(), namespace: Namespace::User });
            i = i + 1;
        }
        Ok(HookArg { exec_shell: groups.exec_shell, hold_keys, toggle_action })
    }
}

// ---------------------------------------------------------------------------
// Laws of toggle clause parsing
// ---------------------------------------------------------------------------

/// A clause written `id:index`, with no `:` inside the id, splits into
/// exactly that id and that index text.
pub proof fn lemma_clause_split(id: Seq<char>, index_text: Seq<char>)
    requires
        !contains_char(id, ':'),
    ensures
        clause_id(id + seq![':'] + index_text) == id,
        clause_index_text(id + seq![':'] + index_text) == Some(index_text),
{
    let clause = id + seq![':'] + index_text;
    assert(seq![':'][0] == ':');
    assert(clause[id.len() as int] == ':');
    crate::text::lemma_first_index_of(clause, ':');
    match first_index_of(clause, ':') {
        None => {
            assert(false);
        },
        Some(position) => {
            if position < id.len() {
                assert(clause[position] == id[position]);
                assert(contains_char(id, ':'));
                assert(false);
            }
            if position > id.len() {
                assert(clause[id.len() as int] != ':');
                assert(false);
            }
            assert(clause.take(position) =~= id);
            assert(clause.skip(position + 1) =~= index_text);
        },
    }
}

/// For every clause `id:k` whose index text reads as a decimal `k >= 1`,
/// the stored shift is `ToIndex(k - 1)`: the user writes 1-based indices
/// and the action keeps them 0-based.
pub proof fn lemma_index_clause_stores_one_based(id: Seq<char>, index_text: Seq<char>, k: usize)
    requires
        id.len() > 0,
        !contains_char(id, ':'),
        parse_decimal_spec(index_text) == Ok::<usize, IntParseError>(k),
        k >= 1,
    ensures
        parse_toggle_spec(false, seq![id + seq![':'] + index_text]) matches Ok(model)
            && model.global is None && model.by_id == map![
            id => HookToggleShift::ToIndex((k - 1) as usize)
        ],
{
    let clause = id + seq![':'] + index_text;
    let shift = HookToggleShift::ToIndex((k - 1) as usize);
    lemma_clause_split(id, index_text);
    assert(clause_shift(clause) == Ok::<HookToggleShift, Seq<char>>(shift));
    let clauses = seq![clause];
    assert(clauses[0] == clause);
    assert(clauses.drop_first() =~= Seq::<Seq<char>>::empty());
    let start = initial_toggle_model(false);
    let finished = ToggleActionModel { by_id: start.by_id.insert(id, shift), ..start };
    assert(parse_toggle_fold(finished, Seq::<Seq<char>>::empty()) == Ok::<
        ToggleActionModel,
        Seq<char>,
    >(finished));
    assert(parse_toggle_spec(false, clauses) == Ok::<ToggleActionModel, Seq<char>>(finished));
    assert(Map::<Seq<char>, HookToggleShift>::empty().insert(id, shift) =~= map![id => shift]);
}

/// A clause whose index text reads as the decimal 0 is always rejected
/// with the "indices start at 1" message, for every id, whatever clauses
/// came before it or follow it.
pub proof fn lemma_zero_index_clause_rejected(
    model: ToggleActionModel,
    flag: bool,
    id: Seq<char>,
    index_text: Seq<char>,
    rest: Seq<Seq<char>>,
)
    requires
        !contains_char(id, ':'),
        parse_decimal_spec(index_text) == Ok::<usize, IntParseError>(0),
    ensures
        parse_toggle_fold(model, seq![id + seq![':'] + index_text] + rest) == Err::<
            ToggleActionModel,
            Seq<char>,
        >(msg_index_zero()),
        parse_toggle_spec(flag, seq![id + seq![':'] + index_text] + rest) == Err::<
            ToggleActionModel,
            Seq<char>,
        >(msg_index_zero()),
{
    let clause = id + seq![':'] + index_text;
    lemma_clause_split(id, index_text);
    assert(clause_shift(clause) == Err::<HookToggleShift, Seq<char>>(msg_index_zero()));
    assert((seq![clause] + rest)[0] == clause);
}

/// A hook with two unspecified toggle clauses is always rejected with the
/// "multiple unspecified toggle clauses" message.
pub proof fn lemma_second_unspecified_clause_rejected(
    first: Seq<char>,
    second: Seq<char>,
    rest: Seq<Seq<char>>,
)
    requires
        clause_id(first).len() == 0,
        clause_id(second).len() == 0,
        clause_shift(first) is Ok,
        clause_shift(second) is Ok,
    ensures
        parse_toggle_spec(false, seq![first, second] + rest) == Err::<
            ToggleActionModel,
            Seq<char>,
        >(msg_multiple_unspecified()),
{
    let clauses = seq![first, second] + rest;
    assert(clauses[0] == first);
    assert(clauses.drop_first() =~= seq![second] + rest);
    assert((seq![second] + rest)[0] == second);
    let start = initial_toggle_model(false);
    match clause_shift(first) {
        Ok(first_shift) => {
            let between = ToggleActionModel { global: Some(first_shift), ..start };
            assert(parse_toggle_fold(between, seq![second] + rest) == Err::<
                ToggleActionModel,
                Seq<char>,
            >(msg_multiple_unspecified()));
        },
        Err(_) => {
            assert(false);
        },
    }
}

/// A bare `toggle` flag plus an unspecified toggle clause is always
/// rejected with the "multiple unspecified toggle clauses" message: the
/// flag counts as one implicit unspecified clause.
pub proof fn lemma_flag_with_unspecified_clause_rejected(clause: Seq<char>, rest: Seq<Seq<char>>)
    requires
        clause_id(clause).len() == 0,
        clause_shift(clause) is Ok,
    ensures
        parse_toggle_spec(true, seq![clause] + rest) == Err::<ToggleActionModel, Seq<char>>(
            msg_multiple_unspecified(),
        ),
{
    assert((seq![clause] + rest)[0] == clause);
}

/// A hook that names the same toggle id in two clauses is always rejected
/// with the "specified multiple times" message citing that id, with or
/// without a bare `toggle` flag.
pub proof fn lemma_repeated_id_rejected(
    flag: bool,
    first: Seq<char>,
    second: Seq<char>,
    rest: Seq<Seq<char>>,
)
    requires
        clause_id(first) == clause_id(second),
        clause_id(first).len() > 0,
        clause_shift(first) is Ok,
        clause_shift(second) is Ok,
    ensures
        parse_toggle_spec(flag, seq![first, second] + rest) == Err::<ToggleActionModel, Seq<char>>(
            msg_duplicate_id(clause_id(first)),
        ),
{
    let clauses = seq![first, second] + rest;
    assert(clauses[0] == first);
    assert(clauses.drop_first() =~= seq![second] + rest);
    assert((seq![second] + rest)[0] == second);
    let id = clause_id(first);
    let start = initial_toggle_model(flag);
    match clause_shift(first) {
        Ok(first_shift) => {
            let between = ToggleActionModel {
                by_id: start.by_id.insert(id, first_shift),
                ..start
            };
            assert(between.by_id.contains_key(clause_id(second)));
            assert(parse_toggle_fold(between, seq![second] + rest) == Err::<
                ToggleActionModel,
                Seq<char>,
            >(msg_duplicate_id(id)));
        },
        Err(_) => {
            assert(false);
        },
    }
}

} // verus!
