//! Declarative device descriptors and device policy enumerations.
//!
//! A `--input` argument produces one [`PreInputDevice`]; a `--output`
//! argument produces one [`PreOutputDevice`]. Both are transient: they exist
//! only between argument parsing and device opening. When the same physical
//! path is named by more than one `--input` argument, the requested grab
//! modes are merged with [`GrabMode::combine`], a commutative, associative
//! and idempotent join under the order `Force > Auto > NoGrab`.

use vstd::prelude::*;
use crate::domain::Domain;

verus! {

/// Whether and how the user has requested a device to be grabbed.
/// Set through the grab flag or grab= clause on `--input` arguments.
#[derive(Clone, Copy, PartialEq, Eq, Structural, Debug)]
pub enum GrabMode {
    /// The user has requested this device to be grabbed immediately.
    Force,
    /// The user has requested this device to be grabbed once no keys are pressed.
    Auto,
    /// The user has requested this device not be grabbed.
    NoGrab,
}

impl GrabMode {
    /// The strongest of two grab modes under the order `Force > Auto > NoGrab`.
    pub open spec fn combine_spec(first: GrabMode, second: GrabMode) -> GrabMode {
        if first == GrabMode::Force || second == GrabMode::Force {
            GrabMode::Force
        } else if first == GrabMode::Auto || second == GrabMode::Auto {
            GrabMode::Auto
        } else {
            GrabMode::NoGrab
        }
    }

    /// If some input device is specified multiple times with different grab
    /// modes, this function finds the strongest of both of them.
    pub fn combine(first: GrabMode, second: GrabMode) -> (result: GrabMode)
        ensures
            result == GrabMode::combine_spec(first, second),
    {
        if first == GrabMode::Force || second == GrabMode::Force {
            GrabMode::Force
        } else if first == GrabMode::Auto || second == GrabMode::Auto {
            GrabMode::Auto
        } else {
            GrabMode::NoGrab
        }
    }
}

/// `GrabMode::combine` is a join: commutative, idempotent and associative,
/// with `Force` as an absorbing element. The strictest requested grab
/// behaviour therefore wins regardless of the order or grouping in which
/// repeated `--input` arguments for one path are merged.
pub proof fn lemma_grab_mode_combine_is_join(a: GrabMode, b: GrabMode, c: GrabMode)
    ensures
        GrabMode::combine_spec(a, b) == GrabMode::combine_spec(b, a),
        GrabMode::combine_spec(a, a) == a,
        GrabMode::combine_spec(GrabMode::Force, a) == GrabMode::Force,
        GrabMode::combine_spec(GrabMode::combine_spec(a, b), c) == GrabMode::combine_spec(
            a,
            GrabMode::combine_spec(b, c),
        ),
{
}

/// What should happen if a device is not available.
#[derive(Clone, Copy, PartialEq, Eq, Structural, Debug)]
pub enum PersistMode {
    /// Remove the device from the processing stream at runtime, or throw an
    /// error at startup time.
    NoPersist,
    /// Try to reattach the device at runtime, or throw an error at startup
    /// time.
    Reopen,
    /// If a device with this mode disconnects, the whole process shall exit,
    /// even if other devices are still available.
    Exit,
}

/// The kernel repeat-event policy for an output device.
#[derive(Clone, Copy, PartialEq, Eq, Structural, Debug)]
pub enum RepeatMode {
    /// The kernel shall generate repeat events for this device.
    Enable,
    /// No repeat events shall be generated by this device.
    Disable,
    /// This device shall not be given a repeat capability, but repeat events
    /// shall be written to it.
    Passive,
}

/// A declarative, not-yet-opened input device descriptor.
#[derive(Clone)]
pub struct PreInputDevice {
    /// The path to this device.
    pub path: String,
    /// The domain that all events emitted by this device shall have.
    pub domain: Domain,
    /// Whether and how the user has requested this input device be grabbed.
    pub grab_mode: GrabMode,
    /// What should be done if the device is disconnected while running.
    pub persist_mode: PersistMode,
}

/// A declarative, not-yet-opened output device descriptor.
pub struct PreOutputDevice {
    /// All events with this domain shall be written to this device.
    pub domain: Domain,
    /// If Some, the user has requested a symlink to the device to be created
    /// at the given path.
    pub create_link: Option<String>,
    /// The output device will be given this name.
    pub name: String,
    /// Determined by repeat-related flags on output devices.
    pub repeat_mode: RepeatMode,
}

} // verus!
