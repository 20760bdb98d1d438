//! The runtime extractor: walks a template against an actual byte buffer,
//! matching literal bytes, skipping wildcards, and slicing out the bytes
//! belonging to each value-producing directive.

use vstd::prelude::*;
use vstd::slice::slice_index_get;
use vstd::slice::slice_subrange;

use crate::error::ExtractError;
use crate::grammar::alphabet_char;
use crate::grammar::hex_digit_char;
use crate::grammar::hex_pair_value;
use crate::grammar::in_alphabet;
use crate::grammar::is_hex_digit;
use crate::grammar::literal_byte_value;
use crate::grammar::strip_ws;
use crate::grammar::tokenize;

verus! {

/// Prefixes the slices already captured onto the outcome of extracting the
/// rest of the token characters.
pub open spec fn extract_rest(
    acc: Seq<Seq<u8>>,
    r: Result<Seq<Seq<u8>>, ExtractError>,
) -> Result<Seq<Seq<u8>>, ExtractError> {
    match r {
        Ok(ss) => Ok(acc + ss),
        Err(e) => Err(e),
    }
}

/// What extracting the token characters `toks` from position `i` on, with
/// the cursor at byte `idx` of the buffer `d`, yields: the contents of the
/// remaining captured slices in left-to-right order, or the first failure.
///
/// Any token character outside the live alphabet is rejected eagerly. `%?`
/// consumes one byte and captures nothing; `%b %w %d %q` capture 1, 2, 4 or
/// 8 bytes, each missing-data case with its own error; `%*` captures all
/// remaining bytes, possibly none. A pair of hexadecimal digits must match
/// the byte under the cursor exactly. A single leftover token character is
/// unmatched, and a cursor short of the end of the buffer after the last
/// token is residual data: extraction is exact.
pub open spec fn extract_from(toks: Seq<char>, d: Seq<u8>, i: int, idx: int) -> Result<
    Seq<Seq<u8>>,
    ExtractError,
>
    decreases toks.len() - i,
{
    if toks.len() <= i {
        if idx == d.len() {
            Ok(Seq::empty())
        } else {
            Err(ExtractError::ResidualData)
        }
    } else if toks.len() == i + 1 {
        if !in_alphabet(toks[i]) {
            Err(ExtractError::InvalidFormatCharacter(toks[i]))
        } else {
            Err(ExtractError::UnmatchedCharacter(toks[i]))
        }
    } else {
        let a = toks[i];
        let b = toks[i + 1];
        if !in_alphabet(a) {
            Err(ExtractError::InvalidFormatCharacter(a))
        } else if !in_alphabet(b) {
            Err(ExtractError::InvalidFormatCharacter(b))
        } else if a == '%' {
            if b == '?' {
                if idx < d.len() {
                    extract_from(toks, d, i + 2, idx + 1)
                } else {
                    Err(ExtractError::UnmatchedSkip)
                }
            } else if b == 'b' {
                if idx + 1 <= d.len() {
                    extract_rest(
                        seq![d.subrange(idx, idx + 1)],
                        extract_from(toks, d, i + 2, idx + 1),
                    )
                } else {
                    Err(ExtractError::UnmatchedByte)
                }
            } else if b == 'w' {
                if idx + 2 <= d.len() {
                    extract_rest(
                        seq![d.subrange(idx, idx + 2)],
                        extract_from(toks, d, i + 2, idx + 2),
                    )
                } else {
                    Err(ExtractError::UnmatchedWord)
                }
            } else if b == 'd' {
                if idx + 4 <= d.len() {
                    extract_rest(
                        seq![d.subrange(idx, idx + 4)],
                        extract_from(toks, d, i + 2, idx + 4),
                    )
                } else {
                    Err(ExtractError::UnmatchedDouble)
                }
            } else if b == 'q' {
                if idx + 8 <= d.len() {
                    extract_rest(
                        seq![d.subrange(idx, idx + 8)],
                        extract_from(toks, d, i + 2, idx + 8),
                    )
                } else {
                    Err(ExtractError::UnmatchedQuad)
                }
            } else if b == '*' {
                extract_rest(
                    seq![d.subrange(idx, d.len() as int)],
                    extract_from(toks, d, i + 2, d.len() as int),
                )
            } else {
                Err(ExtractError::InvalidFormatCharacter(b))
            }
        } else {
            if is_hex_digit(a) && is_hex_digit(b) {
                let expected = literal_byte_value(a, b);
                if idx < d.len() {
                    if d[idx] == expected {
                        extract_from(toks, d, i + 2, idx + 1)
                    } else {
                        Err(ExtractError::MismatchedValue(d[idx], expected))
                    }
                } else {
                    Err(ExtractError::MissingValue(expected))
                }
            } else {
                Err(
                    ExtractError::InvalidHexCharacter(
                        if !is_hex_digit(a) {
                            a
                        } else {
                            b
                        },
                    ),
                )
            }
        }
    }
}

/// What extracting a whole template text against a buffer yields:
/// whitespace is stripped, then the token characters are applied pairwise
/// from the start of the buffer.
pub open spec fn spec_extract(text: Seq<char>, d: Seq<u8>) -> Result<Seq<Seq<u8>>, ExtractError> {
    extract_from(strip_ws(text), d, 0, 0)
}

proof fn lemma_capture_step(
    text: Seq<char>,
    d: Seq<u8>,
    toks: Seq<char>,
    i: int,
    idx: int,
    idx2: int,
    acc: Seq<Seq<u8>>,
    s: Seq<u8>,
)
    requires
        spec_extract(text, d) == extract_rest(acc, extract_from(toks, d, i, idx)),
        extract_from(toks, d, i, idx) == extract_rest(
            seq![s],
            extract_from(toks, d, i + 2, idx2),
        ),
    ensures
        spec_extract(text, d) == extract_rest(acc.push(s), extract_from(toks, d, i + 2, idx2)),
{
    match extract_from(toks, d, i + 2, idx2) {
        Ok(t) => {
            assert(acc + (seq![s] + t) =~= acc.push(s) + t);
        },
        Err(_) => {},
    }
}

/// Applies a template to a buffer and returns the captured byte slices, one
/// per value-producing directive in left-to-right order, or the first
/// data-dependent failure. The slices borrow from `data`; nothing is
/// copied. The result is exactly [`spec_extract`] of the template and the
/// buffer.
pub fn extract<'a>(template: &str, data: &'a [u8]) -> (r: Result<Vec<&'a [u8]>, ExtractError>)
    ensures
        match r {
            Ok(slices) => spec_extract(template@, data@) == Ok::<Seq<Seq<u8>>, ExtractError>(
                slices.deep_view(),
            ),
            Err(e) => spec_extract(template@, data@) == Err::<Seq<Seq<u8>>, ExtractError>(e),
        },
{
    let toks = tokenize(template);
    let mut result: Vec<&'a [u8]> = Vec::new();
    let mut index: usize = 0;
    let mut i: usize = 0;
    proof {
        assert(result.deep_view() =~~= Seq::<Seq<u8>>::empty());
    }
    while i < toks.len() && toks.len() - i >= 2
        invariant
            toks@ == strip_ws(template@),
            i <= toks.len(),
            index <= data@.len(),
            spec_extract(template@, data@) == extract_rest(
                result.deep_view(),
                extract_from(toks@, data@, i as int, index as int),
            ),
        decreases toks.len() - i,
    {
        let a = toks[i];
        let b = toks[i + 1];
        let ghost acc0 = result.deep_view();
        if !alphabet_char(a) {
            return Err(ExtractError::InvalidFormatCharacter(a));
        }
        if !alphabet_char(b) {
            return Err(ExtractError::InvalidFormatCharacter(b));
        }
        if a == '%' {
            if b == '?' {
                if index >= data.len() {
                    return Err(ExtractError::UnmatchedSkip);
                }
                index += 1;
            } else if b == 'b' {
                if data.len() - index < 1 {
                    return Err(ExtractError::UnmatchedByte);
                }
                let slice = slice_subrange(data, index, index + 1);
                result.push(slice);
                proof {
                    assert(result.deep_view() =~~= acc0.push(slice@));
                    lemma_capture_step(
                        template@,
                        data@,
                        toks@,
                        i as int,
                        index as int,
                        index as int + 1,
                        acc0,
                        slice@,
                    );
                }
                index += 1;
            } else if b == 'w' {
                if data.len() - index < 2 {
                    return Err(ExtractError::UnmatchedWord);
                }
                let slice = slice_subrange(data, index, index + 2);
                result.push(slice);
                proof {
                    assert(result.deep_view() =~~= acc0.push(slice@));
                    lemma_capture_step(
                        template@,
                        data@,
                        toks@,
                        i as int,
                        index as int,
                        index as int + 2,
                        acc0,
                        slice@,
                    );
                }
                index += 2;
            } else if b == 'd' {
                if data.len() - index < 4 {
                    return Err(ExtractError::UnmatchedDouble);
                }
                let slice = slice_subrange(data, index, index + 4);
                result.push(slice);
                proof {
                    assert(result.deep_view() =~~= acc0.push(slice@));
                    lemma_capture_step(
                        template@,
                        data@,
                        toks@,
                        i as int,
                        index as int,
                        index as int + 4,
                        acc0,
                        slice@,
                    );
                }
                index += 4;
            } else if b == 'q' {
                if data.len() - index < 8 {
                    return Err(ExtractError::UnmatchedQuad);
                }
                let slice = slice_subrange(data, index, index + 8);
                result.push(slice);
                proof {
                    assert(result.deep_view() =~~= acc0.push(slice@));
                    lemma_capture_step(
                        template@,
                        data@,
                        toks@,
                        i as int,
                        index as int,
                        index as int + 8,
                        acc0,
                        slice@,
                    );
                }
                index += 8;
            } else if b == '*' {
                let slice = slice_subrange(data, index, data.len());
                result.push(slice);
                proof {
                    assert(result.deep_view() =~~= acc0.push(slice@));
                    lemma_capture_step(
                        template@,
                        data@,
                        toks@,
                        i as int,
                        index as int,
                        data@.len() as int,
                        acc0,
                        slice@,
                    );
                }
                index = data.len();
            } else {
                return Err(ExtractError::InvalidFormatCharacter(b));
            }
        } else {
            if !(hex_digit_char(a) && hex_digit_char(b)) {
                let bad = if !hex_digit_char(a) {
                    a
                } else {
                    b
                };
                return Err(ExtractError::InvalidHexCharacter(bad));
            }
            let expected = hex_pair_value(a, b);
            if index >= data.len() {
                return Err(ExtractError::MissingValue(expected));
            }
            let actual = *slice_index_get(data, index);
            if actual != expected {
                return Err(ExtractError::MismatchedValue(actual, expected));
            }
            index += 1;
        }
        i += 2;
    }
    if i < toks.len() {
        let c = toks[i];
        if !alphabet_char(c) {
            return Err(ExtractError::InvalidFormatCharacter(c));
        }
        return Err(ExtractError::UnmatchedCharacter(c));
    }
    if index != data.len() {
        return Err(ExtractError::ResidualData);
    }
    proof {
        assert(result.deep_view() + Seq::<Seq<u8>>::empty() =~~= result.deep_view());
    }
    Ok(result)
}

} // verus!
