//! Compiler-style diagnostics for errors found while analysing a schema.
//!
//! An [`Error`] pairs a one-based [`Position`] and an [`ErrorKind`] with the
//! raw text of the schema. [`Error::render`] turns it into a short block of
//! text: a headline, the location, the offending source line and a caret
//! under the offending column, followed by explanatory notes where the kind
//! has any. [`Error::compare`] gives the order in which errors are reported.
//!
//! Every function states what it returns over the characters of its
//! arguments, and Verus proves that it does. The one exception is the colour
//! of the label and the caret, which comes from the `colored` crate: see
//! [`color`].

pub mod bytes;
pub mod color;
pub mod digits;
pub mod error;
pub mod indent;
pub mod kind;
pub mod lines;
pub mod order;

pub use crate::error::{Error, Position, RenderError};
pub use crate::kind::ErrorKind;
