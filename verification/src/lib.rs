//! Compiles the `blink` and `bttr` annotations attached to one schema field
//! into a rendering record and a code-generation record.

pub mod annotation;
pub mod attr;
pub mod compile;
pub mod draft;
pub mod error;
pub mod key;
pub mod laws;
pub mod syntax;
pub mod tokens;

pub use annotation::{Annotation, Argument, Body, Literal};
pub use attr::{BelowAttr, BelowFieldAttr, BelowViewAttr};
pub use compile::{names_directive, parse_attribute};
pub use error::{AttrError, LiteralKind};
pub use key::Key;
pub use syntax::{namespace_of, read_body};
