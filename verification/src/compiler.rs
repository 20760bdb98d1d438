//! The structural compiler: validates a template string with no data in
//! hand and derives the ordered list of typed fields it describes.

use vstd::prelude::*;

use crate::error::CompileError;
use crate::error::CompileErrorView;
use crate::grammar::Placeholder;
use crate::grammar::hex_digit_char;
use crate::grammar::is_hex_digit;
use crate::grammar::strip_ws;
use crate::grammar::tokenize;

verus! {

/// Prefixes the placeholders already produced onto the outcome of compiling
/// the rest of the token characters.
pub open spec fn compile_rest(
    acc: Seq<Placeholder>,
    r: Result<Seq<Placeholder>, CompileErrorView>,
) -> Result<Seq<Placeholder>, CompileErrorView> {
    match r {
        Ok(ps) => Ok(acc + ps),
        Err(e) => Err(e),
    }
}

/// What compiling the token characters `toks` from position `i` on yields:
/// the ordered placeholders of the remaining value-producing directives, or
/// the first structural error, in left-to-right order.
///
/// Tokens are two characters. A `%` in second position is an invalid
/// placement; `%b %w %d %q` produce their placeholder; `%*` produces
/// `RawRest` and must be the last token; `%?` produces nothing; any other
/// selector after `%` is an invalid format character. A pair without `%`
/// must be two hexadecimal digits, and produces nothing. A single leftover
/// character is unmatched.
pub open spec fn compile_from(toks: Seq<char>, i: int) -> Result<
    Seq<Placeholder>,
    CompileErrorView,
>
    decreases toks.len() - i,
{
    if toks.len() <= i {
        Ok(Seq::empty())
    } else if toks.len() == i + 1 {
        Err(CompileErrorView::UnmatchedCharacter(toks[i]))
    } else {
        let a = toks[i];
        let b = toks[i + 1];
        if b == '%' {
            Err(CompileErrorView::InvalidFormatPlacement(a))
        } else if a == '%' {
            if b == 'b' {
                compile_rest(seq![Placeholder::Byte], compile_from(toks, i + 2))
            } else if b == 'w' {
                compile_rest(seq![Placeholder::Word], compile_from(toks, i + 2))
            } else if b == 'd' {
                compile_rest(seq![Placeholder::Double], compile_from(toks, i + 2))
            } else if b == 'q' {
                compile_rest(seq![Placeholder::Quad], compile_from(toks, i + 2))
            } else if b == '*' {
                if i + 2 < toks.len() {
                    Err(CompileErrorView::WildcardNotLast)
                } else {
                    Ok(seq![Placeholder::RawRest])
                }
            } else if b == '?' {
                compile_from(toks, i + 2)
            } else {
                Err(CompileErrorView::InvalidFormatCharacter(b))
            }
        } else {
            if is_hex_digit(a) && is_hex_digit(b) {
                compile_from(toks, i + 2)
            } else {
                Err(CompileErrorView::InvalidHexNumber(seq![a, b]))
            }
        }
    }
}

/// What compiling a whole template text yields: whitespace is stripped,
/// then the token characters are compiled pairwise from the start.
pub open spec fn spec_compile(text: Seq<char>) -> Result<Seq<Placeholder>, CompileErrorView> {
    compile_from(strip_ws(text), 0)
}

proof fn lemma_push_step(
    text: Seq<char>,
    toks: Seq<char>,
    i: int,
    acc: Seq<Placeholder>,
    p: Placeholder,
)
    requires
        spec_compile(text) == compile_rest(acc, compile_from(toks, i)),
        compile_from(toks, i) == compile_rest(seq![p], compile_from(toks, i + 2)),
    ensures
        spec_compile(text) == compile_rest(acc.push(p), compile_from(toks, i + 2)),
{
    match compile_from(toks, i + 2) {
        Ok(t) => {
            assert(acc + (seq![p] + t) =~= acc.push(p) + t);
        },
        Err(_) => {},
    }
}

/// Relies on `String::push`: appends exactly the given character at the
/// end of the string.
#[verifier::external_body]
fn push_char(s: &mut String, c: char)
    ensures
        final(s)@ == old(s)@.push(c),
{
    s.push(c);
}

/// Validates a template and returns the ordered placeholders of its
/// value-producing directives, or the first structural error of the text.
/// The result is exactly [`spec_compile`] of the template.
pub fn parse_template(input: &str) -> (r: Result<Vec<Placeholder>, CompileError>)
    ensures
        match r {
            Ok(ps) => spec_compile(input@) == Ok::<Seq<Placeholder>, CompileErrorView>(ps@),
            Err(e) => spec_compile(input@) == Err::<Seq<Placeholder>, CompileErrorView>(e@),
        },
{
    let toks = tokenize(input);
    let mut placeholders: Vec<Placeholder> = Vec::new();
    let mut i: usize = 0;
    while i < toks.len() && toks.len() - i >= 2
        invariant
            toks@ == strip_ws(input@),
            i <= toks.len(),
            spec_compile(input@) == compile_rest(placeholders@, compile_from(toks@, i as int)),
        decreases toks.len() - i,
    {
        let a = toks[i];
        let b = toks[i + 1];
        let ghost acc0 = placeholders@;
        if b == '%' {
            return Err(CompileError::InvalidFormatPlacement(a));
        }
        if a == '%' {
            if b == 'b' {
                placeholders.push(Placeholder::Byte);
                proof {
                    lemma_push_step(input@, toks@, i as int, acc0, Placeholder::Byte);
                }
            } else if b == 'w' {
                placeholders.push(Placeholder::Word);
                proof {
                    lemma_push_step(input@, toks@, i as int, acc0, Placeholder::Word);
                }
            } else if b == 'd' {
                placeholders.push(Placeholder::Double);
                proof {
                    lemma_push_step(input@, toks@, i as int, acc0, Placeholder::Double);
                }
            } else if b == 'q' {
                placeholders.push(Placeholder::Quad);
                proof {
                    lemma_push_step(input@, toks@, i as int, acc0, Placeholder::Quad);
                }
            } else if b == '*' {
                if toks.len() - i > 2 {
                    return Err(CompileError::WildcardNotLast);
                }
                placeholders.push(Placeholder::RawRest);
                proof {
                    assert(compile_from(toks@, i as int) == Ok::<
                        Seq<Placeholder>,
                        CompileErrorView,
                    >(seq![Placeholder::RawRest]));
                    assert(compile_from(toks@, i as int + 2) == Ok::<
                        Seq<Placeholder>,
                        CompileErrorView,
                    >(Seq::empty()));
                    assert(acc0 + seq![Placeholder::RawRest] =~= placeholders@);
                    assert(placeholders@ + Seq::<Placeholder>::empty() =~= placeholders@);
                }
            } else if b == '?' {
                // A skip directive produces no placeholder.
            } else {
                return Err(CompileError::InvalidFormatCharacter(b));
            }
        } else {
            if !(hex_digit_char(a) && hex_digit_char(b)) {
                let mut pair = String::new();
                push_char(&mut pair, a);
                push_char(&mut pair, b);
                proof {
                    assert(pair@ =~= seq![a, b]);
                }
                return Err(CompileError::InvalidHexNumber(pair));
            }
            // A structurally valid literal byte produces no placeholder;
            // its value is only checked at extraction time.
        }
        i += 2;
    }
    if i < toks.len() {
        return Err(CompileError::UnmatchedCharacter(toks[i]));
    }
    proof {
        assert(placeholders@ + Seq::<Placeholder>::empty() =~= placeholders@);
    }
    Ok(placeholders)
}

} // verus!
