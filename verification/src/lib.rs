//! Configuration-compilation and state layer of a Linux input-event
//! remapping tool.
//!
//! The library turns declarative command-line specifications of hooks,
//! toggles and device policies into runtime objects that an event-routing
//! loop consults and mutates:
//!
//! * [`hook`] parses one `--hook` argument into a validated
//!   [`hook::HookArg`] / [`hook::HookToggleAction`] and compiles the latter,
//!   once toggle ids are resolved, into a list of [`hook::Effect`]s.
//! * [`state`] holds the toggle state machine: each toggle has a fixed
//!   cardinality and a mutable active index that is advanced or set with
//!   wraparound.
//! * [`predevice`] models the declarative device descriptors and the
//!   "strongest wins" combination rule for grab modes.

pub mod domain;
pub mod error;
pub mod hook;
pub mod key;
pub mod predevice;
pub mod state;
pub mod text;
