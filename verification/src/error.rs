//! The two closed error taxonomies: structural defects of the template text
//! (found by the compiler, with no data in hand) and data-dependent failures
//! (found by the extractor against a concrete buffer).

use vstd::prelude::*;

verus! {

/// A structural defect of the template text itself. Every variant is
/// decidable from the template alone; compilation never looks at data.
#[derive(Debug, Clone, PartialEq, Eq)]
pub enum CompileError {
    /// A `%` directive whose selector is not one of `b w d q ? *`.
    InvalidFormatCharacter(char),
    /// A character that cannot take part in a hexadecimal literal.
    InvalidHexCharacter(char),
    /// A single token character left over at the end of the template.
    UnmatchedCharacter(char),
    /// A `%` standing as the second character of a token window.
    InvalidFormatPlacement(char),
    /// A token following `%*`, which must be the last token.
    WildcardNotLast,
    /// A two-character token that is not a valid hexadecimal byte,
    /// reported as the offending pair.
    InvalidHexNumber(String),
}

/// The mathematical image of a [`CompileError`], with the offending pair of
/// an `InvalidHexNumber` as a sequence of characters. Contracts are stated
/// over this form.
pub enum CompileErrorView {
    InvalidFormatCharacter(char),
    InvalidHexCharacter(char),
    UnmatchedCharacter(char),
    InvalidFormatPlacement(char),
    WildcardNotLast,
    InvalidHexNumber(Seq<char>),
}

impl View for CompileError {
    type V = CompileErrorView;

    open spec fn view(&self) -> CompileErrorView {
        match self {
            CompileError::InvalidFormatCharacter(c) => CompileErrorView::InvalidFormatCharacter(
                *c,
            ),
            CompileError::InvalidHexCharacter(c) => CompileErrorView::InvalidHexCharacter(*c),
            CompileError::UnmatchedCharacter(c) => CompileErrorView::UnmatchedCharacter(*c),
            CompileError::InvalidFormatPlacement(c) => CompileErrorView::InvalidFormatPlacement(
                *c,
            ),
            CompileError::WildcardNotLast => CompileErrorView::WildcardNotLast,
            CompileError::InvalidHexNumber(s) => CompileErrorView::InvalidHexNumber(s@),
        }
    }
}

/// A failure of extraction against a concrete buffer. The `Internal`
/// variants signal a defect in the agreement between the compiler, the
/// extractor and the conversion glue around them; a correct caller never
/// sees them, but they are still plain error values, never panics.
#[derive(Debug, Clone, Copy, PartialEq, Eq, Structural)]
pub enum ExtractError {
    /// A non-whitespace character outside the live alphabet
    /// (letters, digits, `%`, `?`, `*`), rejected eagerly.
    InvalidFormatCharacter(char),
    /// A character that cannot take part in a hexadecimal literal.
    InvalidHexCharacter(char),
    /// A literal byte was expected but the buffer is exhausted;
    /// carries the expected byte.
    MissingValue(u8),
    /// A literal byte did not match the buffer: the actual byte found,
    /// then the expected byte.
    MismatchedValue(u8, u8),
    /// A single token character left over at the end of the template.
    UnmatchedCharacter(char),
    /// Bytes of the buffer left unconsumed after the whole template was
    /// applied; extraction is exact.
    ResidualData,
    /// Internal: a directive could not be dispatched.
    InternalMissingSpecifier,
    /// Too little data for a `%b` directive.
    UnmatchedByte,
    /// Too little data for a `%w` directive.
    UnmatchedWord,
    /// Too little data for a `%d` directive.
    UnmatchedDouble,
    /// Too little data for a `%q` directive.
    UnmatchedQuad,
    /// Too little data for a `%?` directive: skipping past the end of the
    /// buffer is its own missing-field error, symmetric with `%b`.
    UnmatchedSkip,
    /// Defensive: the remaining range of the buffer could not be taken for
    /// a `%*` directive. Unreachable while the cursor never passes the end.
    UnmatchedRestBytes,
    /// Internal: no extracted slice at an output position the compiled
    /// template promised.
    InternalMissingValueAtIndex(usize),
    /// Internal: an extracted slice did not have the fixed width its
    /// placeholder kind implies.
    InternalTryError,
}

} // verus!
