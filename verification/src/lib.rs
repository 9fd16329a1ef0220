//! Recovers the interface of a Scilla contract (its name, deployment
//! parameters, state fields and transitions) from the symbolic tree that the
//! Scilla formatter prints for it.

pub mod canonical;
pub mod contract;
pub mod error;
pub mod field;
pub mod sexp;
pub mod text;
pub mod transition;
pub mod types;

pub use contract::{parse, Contract};
pub use error::Error;
pub use field::{Field, FieldList};
pub use sexp::{Sexp, Shape};
pub use transition::{Transition, TransitionList};
pub use types::Type;
