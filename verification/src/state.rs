//! The toggle state machine: the process-wide container of toggle
//! instances, addressable by [`ToggleIndex`].
//!
//! Each toggle slot has a fixed cardinality `n >= 1` (the number of
//! configured states) and a mutable active index in `[0, n)`. The only two
//! mutating operations are [`Toggle::advance`], which moves the active
//! index to the next one with wraparound, and [`Toggle::set_value_wrapped`],
//! which sets it directly, wrapping an out-of-range request instead of
//! erroring at runtime. Slots are never removed once created, so indices
//! stay stable for the process lifetime.

use vstd::prelude::*;
use crate::hook::HookToggleShift;

verus! {

/// One toggle instance: a fixed number of states and the currently active
/// one.
#[derive(Clone, Copy, Debug)]
pub struct Toggle {
    size: usize,
    active_index: usize,
}

impl Toggle {
    /// The cardinality of this toggle: how many states it has.
    pub closed spec fn card(&self) -> int {
        self.size as int
    }

    /// The currently active 0-based state index.
    pub closed spec fn active(&self) -> int {
        self.active_index as int
    }

    /// A toggle is well formed when its active index lies below its
    /// cardinality; every operation preserves this.
    pub open spec fn wf(&self) -> bool {
        0 < self.card() && 0 <= self.active() < self.card()
    }

    /// Creates a toggle with `size` states, starting at state 0.
    pub fn new(size: usize) -> (result: Toggle)
        requires
            size >= 1,
        ensures
            result.card() == size,
            result.active() == 0,
            result.wf(),
    {
        Toggle { size, active_index: 0 }
    }

    /// The number of states of this toggle.
    pub fn cardinality(&self) -> (result: usize)
        ensures
            result == self.card(),
    {
        self.size
    }

    /// The currently active 0-based state index.
    pub fn active_index(&self) -> (result: usize)
        ensures
            result == self.active(),
    {
        self.active_index
    }

    /// Moves the active index to the next one, wrapping around:
    /// `i <- (i + 1) mod n`.
    pub fn advance(&mut self)
        requires
            old(self).wf(),
        ensures
            final(self).card() == old(self).card(),
            final(self).active() == (old(self).active() + 1) % old(self).card(),
            final(self).wf(),
    {
        if self.active_index + 1 == self.size {
            self.active_index = 0;
            proof {
                assert((old(self).active() + 1) % old(self).card() == 0) by {
                    vstd::arithmetic::div_mod::lemma_mod_self_0(old(self).card());
                }
            }
        } else {
            self.active_index = self.active_index + 1;
            proof {
                assert((old(self).active() + 1) % old(self).card() == old(self).active() + 1) by {
                    vstd::arithmetic::div_mod::lemma_small_mod(
                        (old(self).active() + 1) as nat,
                        old(self).card() as nat,
                    );
                }
            }
        }
    }

    /// Sets the active index directly with wraparound clamp:
    /// `i <- value mod n`. Validation of the user-facing 1-based index
    /// happened at parse time; wrapping is still required because the
    /// cardinality may not be known until all arguments are processed.
    pub fn set_value_wrapped(&mut self, value: usize)
        requires
            old(self).wf(),
        ensures
            final(self).card() == old(self).card(),
            final(self).active() == value as int % old(self).card(),
            final(self).wf(),
    {
        self.active_index = value % self.size;
    }
}

/// The state a toggle reaches from `toggle` when `shift` is applied to it.
pub open spec fn shifted_active(toggle: Toggle, shift: HookToggleShift) -> int {
    match shift {
        HookToggleShift::Next => (toggle.active() + 1) % toggle.card(),
        HookToggleShift::ToIndex(value) => value as int % toggle.card(),
    }
}

/// The toggle `toggle` with its active index moved to `active`.
pub closed spec fn with_active(toggle: Toggle, active: int) -> Toggle {
    Toggle { active_index: active as usize, ..toggle }
}

/// Moving the active index keeps the cardinality and reaches the index
/// asked for; moving it to where it stands changes nothing.
pub proof fn lemma_with_active(toggle: Toggle, active: int)
    requires
        0 <= active <= usize::MAX,
    ensures
        with_active(toggle, active).card() == toggle.card(),
        with_active(toggle, active).active() == active,
        active == toggle.active() ==> with_active(toggle, active) == toggle,
{
}

/// The toggle `toggle` after `shift` is applied to it.
pub open spec fn shift_applied(toggle: Toggle, shift: HookToggleShift) -> Toggle {
    with_active(toggle, shifted_active(toggle, shift))
}

/// A shift applied to a well-formed toggle lands inside its cardinality.
pub proof fn lemma_shifted_active_in_range(toggle: Toggle, shift: HookToggleShift)
    requires
        toggle.wf(),
    ensures
        0 <= shifted_active(toggle, shift) < toggle.card(),
        toggle.card() <= usize::MAX,
{
    match shift {
        HookToggleShift::Next => {
            vstd::arithmetic::div_mod::lemma_mod_bound(toggle.active() + 1, toggle.card());
        },
        HookToggleShift::ToIndex(value) => {
            vstd::arithmetic::div_mod::lemma_mod_bound(value as int, toggle.card());
        },
    }
}

/// Two toggles with one cardinality and one active index are one toggle.
pub proof fn lemma_toggle_extensional(left: Toggle, right: Toggle)
    requires
        left.card() == right.card(),
        left.active() == right.active(),
    ensures
        left == right,
{
}

/// A handle identifying one toggle slot inside a [`State`].
///
/// An index is valid only relative to the `State` that issued it through
/// [`State::create_toggle`]; it is a back-reference, never an owning
/// pointer.
#[derive(Clone, Copy, PartialEq, Eq, Structural, Hash, Debug)]
pub struct ToggleIndex {
    index: usize,
}

impl ToggleIndex {
    /// The array position this handle stands for.
    pub closed spec fn value(&self) -> int {
        self.index as int
    }
}

/// Whether some entry of `indices` refers to slot `slot`.
pub open spec fn index_in_list(indices: Seq<ToggleIndex>, slot: int) -> bool {
    exists|k: int| 0 <= k < indices.len() && indices[k].value() == slot
}

/// The process-wide container of all live toggle instances: a dense array
/// of toggle slots, with [`ToggleIndex`] as a validated array position.
pub struct State {
    toggles: Vec<Toggle>,
}

impl View for State {
    type V = Seq<Toggle>;

    closed spec fn view(&self) -> Seq<Toggle> {
        self.toggles@
    }
}

impl State {
    /// Every slot of a well-formed state is a well-formed toggle.
    pub open spec fn wf(&self) -> bool {
        forall|i: int| 0 <= i < self@.len() ==> (#[trigger] self@[i]).wf()
    }

    /// Whether `index` refers to a slot of this state.
    pub open spec fn valid_index(&self, index: ToggleIndex) -> bool {
        0 <= index.value() < self@.len()
    }

    /// Creates a state with no toggles yet.
    pub fn new() -> (result: State)
        ensures
            result@ == Seq::<Toggle>::empty(),
            result.wf(),
    {
        State { toggles: Vec::new() }
    }

    /// Adds a toggle slot with `size` states, starting at state 0, and
    /// hands back the index under which it stays reachable for the process
    /// lifetime.
    pub fn create_toggle(&mut self, size: usize) -> (result: ToggleIndex)
        requires
            size >= 1,
        ensures
            final(self)@.len() == old(self)@.len() + 1,
            final(self)@.subrange(0, old(self)@.len() as int) == old(self)@,
            result.value() == old(self)@.len(),
            final(self)@[result.value()].card() == size,
            final(self)@[result.value()].active() == 0,
            old(self).wf() ==> final(self).wf(),
    {
        let index = ToggleIndex { index: self.toggles.len() };
        self.toggles.push(Toggle::new(size));
        proof {
            assert(final(self)@.subrange(0, old(self)@.len() as int) =~= old(self)@);
        }
        index
    }

    /// The number of toggle slots.
    pub fn toggle_count(&self) -> (result: usize)
        ensures
            result == self@.len(),
    {
        self.toggles.len()
    }

    /// The active state index of the toggle that `index` refers to.
    pub fn active_index_of(&self, index: ToggleIndex) -> (result: usize)
        requires
            self.valid_index(index),
        ensures
            result == self@[index.value()].active(),
    {
        self.toggles[index.index].active_index()
    }

    /// The cardinality of the toggle that `index` refers to.
    pub fn cardinality_of(&self, index: ToggleIndex) -> (result: usize)
        requires
            self.valid_index(index),
        ensures
            result == self@[index.value()].card(),
    {
        self.toggles[index.index].cardinality()
    }

    /// Applies `shift` to the one toggle that `index` refers to; all other
    /// slots keep their value.
    pub fn apply_shift(&mut self, index: ToggleIndex, shift: HookToggleShift)
        requires
            old(self).wf(),
            old(self).valid_index(index),
        ensures
            final(self).wf(),
            final(self)@.len() == old(self)@.len(),
            forall|j: int|
                0 <= j < old(self)@.len() ==> (#[trigger] final(self)@[j]).card()
                    == old(self)@[j].card(),
            forall|j: int|
                0 <= j < old(self)@.len() && j != index.value()
                    ==> (#[trigger] final(self)@[j]).active() == old(self)@[j].active(),
            final(self)@[index.value()].active() == shifted_active(
                old(self)@[index.value()],
                shift,
            ),
    {
        let toggle = &mut self.toggles[index.index];
        match shift {
            HookToggleShift::Next => toggle.advance(),
            HookToggleShift::ToIndex(value) => toggle.set_value_wrapped(value),
        }
    }

    /// Applies `shift` to every toggle whose slot is not referred to by an
    /// entry of `except`; the excepted slots keep their value.
    pub fn apply_shift_all_except(&mut self, except: &Vec<ToggleIndex>, shift: HookToggleShift)
        requires
            old(self).wf(),
        ensures
            final(self).wf(),
            final(self)@.len() == old(self)@.len(),
            forall|j: int|
                0 <= j < old(self)@.len() ==> (#[trigger] final(self)@[j]).card()
                    == old(self)@[j].card(),
            forall|j: int|
                0 <= j < old(self)@.len() ==> (#[trigger] final(self)@[j]).active() == (
                if index_in_list(except@, j) {
                    old(self)@[j].active()
                } else {
                    shifted_active(old(self)@[j], shift)
                }),
    {
        let count = self.toggles.len();
        let mut slot: usize = 0;
        while slot < count
            invariant
                0 <= slot <= count,
                count == self@.len(),
                old(self)@.len() == self@.len(),
                self.wf(),
                forall|j: int|
                    0 <= j < old(self)@.len() ==> (#[trigger] self@[j]).card()
                        == old(self)@[j].card(),
                forall|j: int|
                    slot <= j < old(self)@.len() ==> (#[trigger] self@[j]).active()
                        == old(self)@[j].active(),
                forall|j: int|
                    0 <= j < slot ==> (#[trigger] self@[j]).active() == (
                    if index_in_list(except@, j) {
                        old(self)@[j].active()
                    } else {
                        shifted_active(old(self)@[j], shift)
                    }),
            decreases count - slot,
        {
            if !contains_index(except, slot) {
                let toggle = &mut self.toggles[slot];
                match shift {
                    HookToggleShift::Next => toggle.advance(),
                    HookToggleShift::ToIndex(value) => toggle.set_value_wrapped(value),
                }
            }
            slot = slot + 1;
        }
    }
}

/// Tests whether some entry of `indices` refers to slot `slot`.
fn contains_index(indices: &Vec<ToggleIndex>, slot: usize) -> (result: bool)
    ensures
        result == index_in_list(indices@, slot as int),
{
    let count = indices.len();
    let mut k: usize = 0;
    while k < count
        invariant
            0 <= k <= count,
            count == indices@.len(),
            forall|j: int| 0 <= j < k ==> indices@[j].value() != slot as int,
        decreases count - k,
    {
        if indices[k].index == slot {
            return true;
        }
        k = k + 1;
    }
    false
}

} // verus!
