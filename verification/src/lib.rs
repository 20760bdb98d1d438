//! A small template language for describing the byte-level layout of a
//! binary buffer, with two collaborating engines over the same grammar:
//!
//! * a structural compiler ([`parse_template`]) that validates a template
//!   string and returns the ordered list of typed fields it describes, and
//! * a runtime extractor ([`extract`]) that walks the template against an
//!   actual byte buffer, matching literal bytes, skipping wildcards, and
//!   slicing out the bytes of each value-producing directive.
//!
//! A template is a sequence of two-character tokens with insignificant
//! whitespace in between: a two-hex-digit literal byte (`ff`), or one of the
//! directives `%b` (one byte), `%w` (two bytes), `%d` (four bytes), `%q`
//! (eight bytes), `%?` (skip one byte), `%*` (capture all remaining bytes;
//! must be the last token). Extraction is exact: every byte of the buffer
//! must be accounted for, and leftover bytes are an error.

pub mod compiler;
pub mod error;
pub mod extractor;
pub mod grammar;
pub mod laws;

pub use compiler::parse_template;
pub use error::CompileError;
pub use error::CompileErrorView;
pub use error::ExtractError;
pub use extractor::extract;
pub use grammar::Placeholder;
