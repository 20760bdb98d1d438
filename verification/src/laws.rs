//! The laws the two engines obey together: grammar parity between the
//! compiler and the extractor, exact accounting of the buffer, and the
//! terminal behaviour of the rest-capture directive.

use vstd::prelude::*;

use crate::compiler::compile_from;
use crate::compiler::compile_rest;
use crate::compiler::spec_compile;
use crate::error::CompileErrorView;
use crate::error::ExtractError;
use crate::extractor::extract_from;
use crate::extractor::extract_rest;
use crate::extractor::spec_extract;
use crate::grammar::Placeholder;
use crate::grammar::is_hex_digit;
use crate::grammar::is_space;
use crate::grammar::literal_byte_value;
use crate::grammar::strip_ws;

verus! {

/// Whether a captured slice has the width its placeholder kind implies:
/// 1, 2, 4 or 8 bytes for the fixed-width kinds, any length for `RawRest`.
pub open spec fn slice_fits(p: Placeholder, s: Seq<u8>) -> bool {
    match p {
        Placeholder::Byte => s.len() == 1,
        Placeholder::Word => s.len() == 2,
        Placeholder::Double => s.len() == 4,
        Placeholder::Quad => s.len() == 8,
        Placeholder::RawRest => true,
    }
}

proof fn lemma_parity_from(
    toks: Seq<char>,
    d: Seq<u8>,
    i: int,
    idx: int,
    ps: Seq<Placeholder>,
    ss: Seq<Seq<u8>>,
)
    requires
        0 <= i,
        0 <= idx <= d.len(),
        compile_from(toks, i) == Ok::<Seq<Placeholder>, CompileErrorView>(ps),
        extract_from(toks, d, i, idx) == Ok::<Seq<Seq<u8>>, ExtractError>(ss),
    ensures
        ss.len() == ps.len(),
        forall|j: int| 0 <= j < ps.len() ==> slice_fits(#[trigger] ps[j], ss[j]),
    decreases toks.len() - i,
{
    if toks.len() <= i {
    } else if toks.len() == i + 1 {
        assert(false);
    } else {
        let a = toks[i];
        let b = toks[i + 1];
        if b == '%' {
            assert(false);
        } else if a == '%' {
            if b == 'b' || b == 'w' || b == 'd' || b == 'q' {
                let p = if b == 'b' {
                    Placeholder::Byte
                } else if b == 'w' {
                    Placeholder::Word
                } else if b == 'd' {
                    Placeholder::Double
                } else {
                    Placeholder::Quad
                };
                let k: int = if b == 'b' {
                    1
                } else if b == 'w' {
                    2
                } else if b == 'd' {
                    4
                } else {
                    8
                };
                assert(idx + k <= d.len());
                let r2c = compile_from(toks, i + 2);
                let r2e = extract_from(toks, d, i + 2, idx + k);
                assert(compile_from(toks, i) == compile_rest(seq![p], r2c));
                assert(extract_from(toks, d, i, idx) == extract_rest(
                    seq![d.subrange(idx, idx + k)],
                    r2e,
                ));
                let ps2 = r2c->Ok_0;
                let ss2 = r2e->Ok_0;
                assert(ps == seq![p] + ps2);
                assert(ss == seq![d.subrange(idx, idx + k)] + ss2);
                lemma_parity_from(toks, d, i + 2, idx + k, ps2, ss2);
                assert forall|j: int| 0 <= j < ps.len() implies slice_fits(
                    #[trigger] ps[j],
                    ss[j],
                ) by {
                    if j == 0 {
                        assert(ss[0] == d.subrange(idx, idx + k));
                    } else {
                        assert(ps[j] == ps2[j - 1]);
                        assert(ss[j] == ss2[j - 1]);
                        assert(slice_fits(ps2[j - 1], ss2[j - 1]));
                    }
                }
            } else if b == '*' {
                assert(ps == seq![Placeholder::RawRest]);
                let r2e = extract_from(toks, d, i + 2, d.len() as int);
                assert(r2e == Ok::<Seq<Seq<u8>>, ExtractError>(Seq::<Seq<u8>>::empty()));
                assert(ss == seq![d.subrange(idx, d.len() as int)] + Seq::<Seq<u8>>::empty());
                assert(ss =~= seq![d.subrange(idx, d.len() as int)]);
                assert(slice_fits(ps[0], ss[0]));
            } else if b == '?' {
                assert(idx < d.len());
                lemma_parity_from(toks, d, i + 2, idx + 1, ps, ss);
            } else {
                assert(false);
            }
        } else {
            if is_hex_digit(a) && is_hex_digit(b) {
                assert(idx < d.len() && d[idx] == literal_byte_value(a, b));
                lemma_parity_from(toks, d, i + 2, idx + 1, ps, ss);
            } else {
                assert(false);
            }
        }
    }
}

/// Grammar parity: whenever the compiler accepts a template and the
/// extractor accepts the same template against some buffer, the extractor
/// returns exactly one slice per placeholder, in the same order, and each
/// slice has the width its placeholder kind implies.
pub proof fn lemma_compiler_extractor_parity(
    text: Seq<char>,
    d: Seq<u8>,
    ps: Seq<Placeholder>,
    ss: Seq<Seq<u8>>,
)
    requires
        spec_compile(text) == Ok::<Seq<Placeholder>, CompileErrorView>(ps),
        spec_extract(text, d) == Ok::<Seq<Seq<u8>>, ExtractError>(ss),
    ensures
        ss.len() == ps.len(),
        forall|j: int| 0 <= j < ps.len() ==> slice_fits(#[trigger] ps[j], ss[j]),
{
    lemma_parity_from(strip_ws(text), d, 0, 0, ps, ss);
}

/// The total number of bytes captured by a list of slices.
pub open spec fn sum_lens(ss: Seq<Seq<u8>>) -> int
    decreases ss.len(),
{
    if ss.len() == 0 {
        0
    } else {
        ss.first().len() + sum_lens(ss.drop_first())
    }
}

proof fn lemma_sum_lens_cons(s: Seq<u8>, ss: Seq<Seq<u8>>)
    ensures
        sum_lens(seq![s] + ss) == s.len() + sum_lens(ss),
{
    assert((seq![s] + ss).first() == s);
    assert((seq![s] + ss).drop_first() =~= ss);
}

/// How many bytes the zero-width-output tokens of `toks` from position `i`
/// on consume: one for each literal byte pair and one for each `%?` skip.
pub open spec fn skip_and_literal_count(toks: Seq<char>, i: int) -> int
    decreases toks.len() - i,
{
    if toks.len() - i < 2 {
        0
    } else {
        let a = toks[i];
        let b = toks[i + 1];
        let here: int = if a == '%' {
            if b == '?' {
                1
            } else {
                0
            }
        } else {
            1
        };
        here + skip_and_literal_count(toks, i + 2)
    }
}

proof fn lemma_exact_from(toks: Seq<char>, d: Seq<u8>, i: int, idx: int, ss: Seq<Seq<u8>>)
    requires
        0 <= i,
        0 <= idx <= d.len(),
        extract_from(toks, d, i, idx) == Ok::<Seq<Seq<u8>>, ExtractError>(ss),
    ensures
        idx + skip_and_literal_count(toks, i) + sum_lens(ss) == d.len(),
    decreases toks.len() - i,
{
    if toks.len() <= i {
        assert(ss =~= Seq::<Seq<u8>>::empty());
    } else if toks.len() == i + 1 {
        assert(false);
    } else {
        let a = toks[i];
        let b = toks[i + 1];
        if a == '%' && b != '%' {
            if b == '?' {
                assert(idx < d.len());
                lemma_exact_from(toks, d, i + 2, idx + 1, ss);
            } else if b == 'b' || b == 'w' || b == 'd' || b == 'q' {
                let k: int = if b == 'b' {
                    1
                } else if b == 'w' {
                    2
                } else if b == 'd' {
                    4
                } else {
                    8
                };
                assert(idx + k <= d.len());
                let r2e = extract_from(toks, d, i + 2, idx + k);
                assert(extract_from(toks, d, i, idx) == extract_rest(
                    seq![d.subrange(idx, idx + k)],
                    r2e,
                ));
                let ss2 = r2e->Ok_0;
                assert(ss == seq![d.subrange(idx, idx + k)] + ss2);
                lemma_sum_lens_cons(d.subrange(idx, idx + k), ss2);
                lemma_exact_from(toks, d, i + 2, idx + k, ss2);
            } else if b == '*' {
                let r2e = extract_from(toks, d, i + 2, d.len() as int);
                let ss2 = r2e->Ok_0;
                assert(ss == seq![d.subrange(idx, d.len() as int)] + ss2);
                lemma_sum_lens_cons(d.subrange(idx, d.len() as int), ss2);
                lemma_exact_from(toks, d, i + 2, d.len() as int, ss2);
            } else {
                assert(false);
            }
        } else {
            assert(is_hex_digit(a) && is_hex_digit(b));
            assert(idx < d.len() && d[idx] == literal_byte_value(a, b));
            lemma_exact_from(toks, d, i + 2, idx + 1, ss);
        }
    }
}

/// Extraction is exact: whenever the extractor accepts a template against a
/// buffer, the bytes consumed by literal matches and skips plus the bytes
/// captured in slices account for the whole buffer.
pub proof fn lemma_extraction_exact(text: Seq<char>, d: Seq<u8>, ss: Seq<Seq<u8>>)
    requires
        spec_extract(text, d) == Ok::<Seq<Seq<u8>>, ExtractError>(ss),
    ensures
        skip_and_literal_count(strip_ws(text), 0) + sum_lens(ss) == d.len(),
{
    lemma_exact_from(strip_ws(text), d, 0, 0, ss);
}

proof fn lemma_rawrest_only_last_from(toks: Seq<char>, i: int, ps: Seq<Placeholder>)
    requires
        0 <= i,
        compile_from(toks, i) == Ok::<Seq<Placeholder>, CompileErrorView>(ps),
    ensures
        forall|j: int| 0 <= j < ps.len() - 1 ==> #[trigger] ps[j] != Placeholder::RawRest,
    decreases toks.len() - i,
{
    if toks.len() <= i {
    } else if toks.len() == i + 1 {
        assert(false);
    } else {
        let a = toks[i];
        let b = toks[i + 1];
        if b == '%' {
            assert(false);
        } else if a == '%' {
            if b == 'b' || b == 'w' || b == 'd' || b == 'q' {
                let p = if b == 'b' {
                    Placeholder::Byte
                } else if b == 'w' {
                    Placeholder::Word
                } else if b == 'd' {
                    Placeholder::Double
                } else {
                    Placeholder::Quad
                };
                let r2c = compile_from(toks, i + 2);
                assert(compile_from(toks, i) == compile_rest(seq![p], r2c));
                let ps2 = r2c->Ok_0;
                assert(ps == seq![p] + ps2);
                lemma_rawrest_only_last_from(toks, i + 2, ps2);
                assert forall|j: int| 0 <= j < ps.len() - 1 implies #[trigger] ps[j]
                    != Placeholder::RawRest by {
                    if j > 0 {
                        assert(ps[j] == ps2[j - 1]);
                    }
                }
            } else if b == '*' {
                assert(ps == seq![Placeholder::RawRest]);
            } else if b == '?' {
                lemma_rawrest_only_last_from(toks, i + 2, ps);
            } else {
                assert(false);
            }
        } else {
            if is_hex_digit(a) && is_hex_digit(b) {
                lemma_rawrest_only_last_from(toks, i + 2, ps);
            } else {
                assert(false);
            }
        }
    }
}

/// In any accepted template, a rest capture can only be the last
/// placeholder: every placeholder before the last one is fixed-width.
pub proof fn lemma_wildcard_terminal(text: Seq<char>, ps: Seq<Placeholder>)
    requires
        spec_compile(text) == Ok::<Seq<Placeholder>, CompileErrorView>(ps),
    ensures
        forall|j: int| 0 <= j < ps.len() - 1 ==> #[trigger] ps[j] != Placeholder::RawRest,
{
    lemma_rawrest_only_last_from(strip_ws(text), 0, ps);
}

proof fn lemma_strip_ws_concat(s: Seq<char>, t: Seq<char>)
    ensures
        strip_ws(s + t) == strip_ws(s) + strip_ws(t),
    decreases s.len(),
{
    if s.len() == 0 {
        assert(s + t =~= t);
        assert(strip_ws(s) + strip_ws(t) =~= strip_ws(t));
    } else {
        assert((s + t).len() > 0);
        assert((s + t)[0] == s[0]);
        assert((s + t).drop_first() =~= s.drop_first() + t);
        lemma_strip_ws_concat(s.drop_first(), t);
        if !is_space(s[0]) {
            assert(seq![s[0]] + (strip_ws(s.drop_first()) + strip_ws(t)) =~= (seq![s[0]]
                + strip_ws(s.drop_first())) + strip_ws(t));
        }
    }
}

proof fn lemma_extends_to_wildcard_not_last(
    toks: Seq<char>,
    extra: Seq<char>,
    i: int,
    ps: Seq<Placeholder>,
)
    requires
        0 <= i,
        compile_from(toks, i) == Ok::<Seq<Placeholder>, CompileErrorView>(ps),
        ps.len() > 0,
        ps.last() == Placeholder::RawRest,
        extra.len() > 0,
    ensures
        compile_from(toks + extra, i) == Err::<Seq<Placeholder>, CompileErrorView>(
            CompileErrorView::WildcardNotLast,
        ),
    decreases toks.len() - i,
{
    let all = toks + extra;
    if toks.len() <= i {
        assert(false);
    } else if toks.len() == i + 1 {
        assert(false);
    } else {
        let a = toks[i];
        let b = toks[i + 1];
        assert(all[i] == a);
        assert(all[i + 1] == b);
        if b == '%' {
            assert(false);
        } else if a == '%' {
            if b == 'b' || b == 'w' || b == 'd' || b == 'q' {
                let p = if b == 'b' {
                    Placeholder::Byte
                } else if b == 'w' {
                    Placeholder::Word
                } else if b == 'd' {
                    Placeholder::Double
                } else {
                    Placeholder::Quad
                };
                let r2c = compile_from(toks, i + 2);
                assert(compile_from(toks, i) == compile_rest(seq![p], r2c));
                let ps2 = r2c->Ok_0;
                assert(ps == seq![p] + ps2);
                assert(ps2.len() > 0 && ps2.last() == ps.last());
                lemma_extends_to_wildcard_not_last(toks, extra, i + 2, ps2);
            } else if b == '*' {
                assert(toks.len() <= i + 2);
                assert(all.len() > i + 2);
            } else if b == '?' {
                lemma_extends_to_wildcard_not_last(toks, extra, i + 2, ps);
            } else {
                assert(false);
            }
        } else {
            if is_hex_digit(a) && is_hex_digit(b) {
                lemma_extends_to_wildcard_not_last(toks, extra, i + 2, ps);
            } else {
                assert(false);
            }
        }
    }
}

/// The rest capture is terminal: a template that compiles and ends in
/// `RawRest`, followed by any further non-whitespace text whatsoever, fails
/// to compile with `WildcardNotLast`.
pub proof fn lemma_wildcard_not_last(text: Seq<char>, more: Seq<char>, ps: Seq<Placeholder>)
    requires
        spec_compile(text) == Ok::<Seq<Placeholder>, CompileErrorView>(ps),
        ps.len() > 0,
        ps.last() == Placeholder::RawRest,
        strip_ws(more).len() > 0,
    ensures
        spec_compile(text + more) == Err::<Seq<Placeholder>, CompileErrorView>(
            CompileErrorView::WildcardNotLast,
        ),
{
    lemma_strip_ws_concat(text, more);
    lemma_extends_to_wildcard_not_last(strip_ws(text), strip_ws(more), 0, ps);
}

proof fn lemma_no_residual_from(
    toks: Seq<char>,
    d: Seq<u8>,
    i: int,
    idx: int,
    ps: Seq<Placeholder>,
)
    requires
        0 <= i,
        compile_from(toks, i) == Ok::<Seq<Placeholder>, CompileErrorView>(ps),
        ps.len() > 0,
        ps.last() == Placeholder::RawRest,
    ensures
        extract_from(toks, d, i, idx) != Err::<Seq<Seq<u8>>, ExtractError>(
            ExtractError::ResidualData,
        ),
    decreases toks.len() - i,
{
    if toks.len() <= i {
        assert(false);
    } else if toks.len() == i + 1 {
        assert(false);
    } else {
        let a = toks[i];
        let b = toks[i + 1];
        if b == '%' {
            assert(false);
        } else if a == '%' {
            if b == 'b' || b == 'w' || b == 'd' || b == 'q' {
                let p = if b == 'b' {
                    Placeholder::Byte
                } else if b == 'w' {
                    Placeholder::Word
                } else if b == 'd' {
                    Placeholder::Double
                } else {
                    Placeholder::Quad
                };
                let k: int = if b == 'b' {
                    1
                } else if b == 'w' {
                    2
                } else if b == 'd' {
                    4
                } else {
                    8
                };
                let r2c = compile_from(toks, i + 2);
                assert(compile_from(toks, i) == compile_rest(seq![p], r2c));
                let ps2 = r2c->Ok_0;
                assert(ps == seq![p] + ps2);
                assert(ps2.len() > 0 && ps2.last() == ps.last());
                if idx + k <= d.len() {
                    lemma_no_residual_from(toks, d, i + 2, idx + k, ps2);
                }
            } else if b == '*' {
                assert(toks.len() <= i + 2);
                assert(extract_from(toks, d, i + 2, d.len() as int) == Ok::<
                    Seq<Seq<u8>>,
                    ExtractError,
                >(Seq::<Seq<u8>>::empty()));
            } else if b == '?' {
                if idx < d.len() {
                    lemma_no_residual_from(toks, d, i + 2, idx + 1, ps);
                }
            } else {
                assert(false);
            }
        } else {
            if is_hex_digit(a) && is_hex_digit(b) {
                if idx < d.len() && d[idx] == literal_byte_value(a, b) {
                    lemma_no_residual_from(toks, d, i + 2, idx + 1, ps);
                }
            } else {
                assert(false);
            }
        }
    }
}

/// A template that compiles and ends in a rest capture never leaves
/// residual data: against any buffer, extraction either captures every
/// remaining byte or fails for some other reason, never with
/// `ResidualData`.
pub proof fn lemma_rest_capture_never_residual(text: Seq<char>, d: Seq<u8>, ps: Seq<Placeholder>)
    requires
        spec_compile(text) == Ok::<Seq<Placeholder>, CompileErrorView>(ps),
        ps.len() > 0,
        ps.last() == Placeholder::RawRest,
    ensures
        spec_extract(text, d) != Err::<Seq<Seq<u8>>, ExtractError>(ExtractError::ResidualData),
{
    lemma_no_residual_from(strip_ws(text), d, 0, 0, ps);
}

/// The rest capture is greedy and never fails: a `%*` standing as the last
/// token always succeeds and captures exactly the bytes remaining at the
/// cursor, including none at all (an empty final slice).
pub proof fn lemma_rest_directive_consumes_all(toks: Seq<char>, d: Seq<u8>, idx: int)
    requires
        toks.len() >= 2,
        toks[toks.len() - 2] == '%',
        toks[toks.len() - 1] == '*',
        0 <= idx <= d.len(),
    ensures
        extract_from(toks, d, toks.len() - 2, idx) == Ok::<Seq<Seq<u8>>, ExtractError>(
            seq![d.subrange(idx, d.len() as int)],
        ),
{
    let i = toks.len() - 2;
    assert(extract_from(toks, d, i + 2, d.len() as int) == Ok::<Seq<Seq<u8>>, ExtractError>(
        Seq::<Seq<u8>>::empty(),
    ));
    assert(seq![d.subrange(idx, d.len() as int)] + Seq::<Seq<u8>>::empty() =~= seq![
        d.subrange(idx, d.len() as int),
    ]);
}

} // verus!
