//! Mathematical models of the three pipeline stages.
//!
//! Each stage of the executable pipeline — scanning, parsing, evaluation,
//! and IR emission — is proved equal to a specification function defined
//! here.  The models are the contracts' single source of truth: a reader who
//! wants to know what the language *is* reads these modules.

pub mod lexing;
pub mod evaluation;
pub mod parsing;
pub mod syntax;
pub mod values;
