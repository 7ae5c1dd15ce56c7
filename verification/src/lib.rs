//! Mutator whitelists for fields.
//!
//! A field of a type may carry the annotation `mutatedby(...)`, which lists
//! the functions that may mutate the field. This crate holds a compilation
//! unit to these whitelists, in three steps that never overlap:
//!
//! 1. [`extract`] reads every whitelist into a [`registry`];
//! 2. [`scan`] walks every function body and lists the places where a field
//!    is mutated;
//! 3. [`report`] holds each such place against the registry.
//!
//! [`lint::check_crate`] does all three. [`laws`] states what holds of the
//! outcome for every input.
//!
//! The compilation unit comes from a host front end in the form that
//! [`syntax`] defines. The hash collections behind the registry and the
//! whitelists are those of `rustc_data_structures::fx`; [`fx`] says what is
//! taken on trust about them.

pub mod extract;
pub mod fx;
pub mod laws;
pub mod lint;
pub mod registry;
pub mod report;
pub mod scan;
pub mod syntax;
pub mod whitelist;

pub use lint::check_crate;
pub use registry::{FieldKey, WhitelistEntry, WhitelistRegistry};
pub use report::{Severity, Violation};
pub use scan::MutationSite;
pub use whitelist::FieldsMutatedByWhitelist;
