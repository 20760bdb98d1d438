//! The shared grammar of the template language: the character classes the
//! two engines agree on, and the whitespace-stripping step that turns a
//! template string into its effective token characters.

use vstd::prelude::*;

verus! {

/// A compiled field descriptor: one value-producing directive of a template,
/// read big-endian at extraction time (except `RawRest`, which stays raw).
#[derive(Debug, Clone, Copy, PartialEq, Eq, Structural)]
pub enum Placeholder {
    /// `%b`: a one-byte field.
    Byte,
    /// `%w`: a two-byte field.
    Word,
    /// `%d`: a four-byte field.
    Double,
    /// `%q`: an eight-byte field.
    Quad,
    /// `%*`: all remaining bytes of the buffer, possibly none.
    RawRest,
}

/// The characters that are insignificant between tokens: exactly the
/// characters with the Unicode `White_Space` property.
pub open spec fn is_space(c: char) -> bool {
    let n = c as u32;
    ||| n == 0x20
    ||| (0x09 <= n && n <= 0x0D)
    ||| n == 0x85
    ||| n == 0xA0
    ||| n == 0x1680
    ||| (0x2000 <= n && n <= 0x200A)
    ||| n == 0x2028
    ||| n == 0x2029
    ||| n == 0x202F
    ||| n == 0x205F
    ||| n == 0x3000
}

/// The hexadecimal digits, in either case.
pub open spec fn is_hex_digit(c: char) -> bool {
    let n = c as u32;
    ||| (0x30 <= n && n <= 0x39)
    ||| (0x41 <= n && n <= 0x46)
    ||| (0x61 <= n && n <= 0x66)
}

/// The numeric value of a hexadecimal digit.
pub open spec fn hex_digit_value(c: char) -> u8 {
    let n = c as u32;
    if 0x30 <= n && n <= 0x39 {
        (n - 0x30) as u8
    } else if 0x41 <= n && n <= 0x46 {
        (n - 0x41 + 10) as u8
    } else {
        (n - 0x61 + 10) as u8
    }
}

/// The byte value named by a two-hex-digit literal token.
pub open spec fn literal_byte_value(a: char, b: char) -> u8 {
    (hex_digit_value(a) * 16 + hex_digit_value(b)) as u8
}

/// The live alphabet of the extractor: letters, digits, `%`, `?` and `*`.
/// The extractor rejects any other non-whitespace character eagerly.
pub open spec fn in_alphabet(c: char) -> bool {
    let n = c as u32;
    ||| (0x61 <= n && n <= 0x7A)
    ||| (0x41 <= n && n <= 0x5A)
    ||| (0x30 <= n && n <= 0x39)
    ||| n == 0x25
    ||| n == 0x3F
    ||| n == 0x2A
}

/// The effective token characters of a template: the template text with
/// every whitespace character removed, order kept.
pub open spec fn strip_ws(s: Seq<char>) -> Seq<char>
    decreases s.len(),
{
    if s.len() == 0 {
        Seq::empty()
    } else if is_space(s[0]) {
        strip_ws(s.drop_first())
    } else {
        seq![s[0]] + strip_ws(s.drop_first())
    }
}

pub(crate) fn space_char(c: char) -> (r: bool)
    ensures
        r == is_space(c),
{
    let n: u32 = c as u32;
    n == 0x20 || (0x09 <= n && n <= 0x0D) || n == 0x85 || n == 0xA0 || n == 0x1680 || (0x2000 <= n
        && n <= 0x200A) || n == 0x2028 || n == 0x2029 || n == 0x202F || n == 0x205F || n == 0x3000
}

pub(crate) fn hex_digit_char(c: char) -> (r: bool)
    ensures
        r == is_hex_digit(c),
{
    let n: u32 = c as u32;
    (0x30 <= n && n <= 0x39) || (0x41 <= n && n <= 0x46) || (0x61 <= n && n <= 0x66)
}

pub(crate) fn hex_value(c: char) -> (v: u8)
    requires
        is_hex_digit(c),
    ensures
        v == hex_digit_value(c),
        v < 16,
{
    let n: u32 = c as u32;
    if n <= 0x39 {
        (n - 0x30) as u8
    } else if n <= 0x46 {
        (n - 0x41 + 10) as u8
    } else {
        (n - 0x61 + 10) as u8
    }
}

pub(crate) fn hex_pair_value(a: char, b: char) -> (v: u8)
    requires
        is_hex_digit(a),
        is_hex_digit(b),
    ensures
        v == literal_byte_value(a, b),
{
    let hi = hex_value(a);
    let lo = hex_value(b);
    hi * 16 + lo
}

pub(crate) fn alphabet_char(c: char) -> (r: bool)
    ensures
        r == in_alphabet(c),
{
    let n: u32 = c as u32;
    (0x61 <= n && n <= 0x7A) || (0x41 <= n && n <= 0x5A) || (0x30 <= n && n <= 0x39) || n == 0x25
        || n == 0x3F || n == 0x2A
}

/// Collects the effective token characters of a template, skipping
/// whitespace, as both engines do before pairing characters into tokens.
pub(crate) fn tokenize(s: &str) -> (toks: Vec<char>)
    ensures
        toks@ == strip_ws(s@),
{
    let n = s.unicode_len();
    let mut toks: Vec<char> = Vec::new();
    let mut i: usize = 0;
    proof {
        assert(s@.skip(0) =~= s@);
        assert(toks@ + strip_ws(s@) =~= strip_ws(s@));
    }
    while i < n
        invariant
            n == s@.len(),
            i <= n,
            strip_ws(s@) == toks@ + strip_ws(s@.skip(i as int)),
        decreases n - i,
    {
        let c = s.get_char(i);
        proof {
            let tail = s@.skip(i as int);
            assert(tail.len() > 0);
            assert(tail[0] == s@[i as int]);
            assert(tail.drop_first() =~= s@.skip(i as int + 1));
        }
        if !space_char(c) {
            let ghost toks0 = toks@;
            toks.push(c);
            proof {
                let rest = strip_ws(s@.skip(i as int + 1));
                assert(toks0 + (seq![c] + rest) =~= toks@ + rest);
            }
        }
        i += 1;
    }
    proof {
        assert(s@.skip(n as int) =~= Seq::<char>::empty());
        assert(toks@ + strip_ws(s@.skip(n as int)) =~= toks@);
    }
    toks
}

} // verus!
