//! Parsing, grouping and planning for state-scoped system registration.
//!
//! Input arrives as a flat sequence of [`Token`]s: every delimited group is
//! spelled as an `Open` token that records the position of its `Close`. All
//! parsed values refer back to the input by position, so a caller can re-emit
//! the original tokens with their source locations.
//!
//! Two forms are compiled. A bulk directive `app, [entry, ...]`
//! ([`add_systems`]) becomes one step per entry, in input order: an entry
//! annotated in the batch (`#[on_enter(S::X)] f`) registers its system, any
//! other entry calls the companion routine of its function. An annotated
//! function ([`on`], [`on_enter`], ...) becomes such a companion routine.
//! Every registration is the same lookup-or-create-then-append step on one
//! map of groups, modelled by [`Registry`]; the laws in `laws` state what the
//! resulting groups hold.
use vstd::prelude::*;

pub mod token;
pub mod trigger;
pub mod state;
pub mod annotation;
pub mod system;
pub mod directive;
pub mod group;
pub mod laws;
pub mod emit;
pub mod companion;

pub use annotation::Annotation;
pub use companion::{inner, on, on_enter, on_exit, on_pause, on_resume, on_update, CompanionPlan};
pub use directive::{Directive, Entry};
pub use emit::{add_systems, BatchPlan, Registration, Step};
pub use group::{group_entries, RegistrationKey, Registry};
pub use state::State;
pub use system::SystemRef;
pub use token::{Delimiter, ErrorKind, ParseError, Token, TokenRange};
pub use trigger::{trigger_from_name, TriggerKind};

verus! {

} // verus!
