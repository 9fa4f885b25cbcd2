//! The code-point tokenizer: walks raw pattern text and produces a lossless
//! sequence of tokens, each a literal code point, a decoded escape, or a
//! syntax marker, tagged with its source span. Decoding is mode-sensitive:
//! `\u{...}` escapes and adjacent `\uXXXX` surrogate escapes are only
//! combined in unicode-aware mode.

use vstd::prelude::*;

use crate::flags::FlagSet;
use crate::unicode::{combined_code_point, high_surrogate, low_surrogate};

verus! {

/// The syntax markers that matter to class extraction.
#[derive(Debug, Clone, Copy, PartialEq, Eq, Structural)]
pub enum MetaKind {
    /// `[`
    ClassOpen,
    /// `]`
    ClassClose,
    /// `^`
    Negation,
    /// `-`
    RangeDash,
    /// `--` (unicode-sets mode only)
    SetDifference,
    /// `&&` (unicode-sets mode only)
    SetIntersection,
}

/// One token of the pattern text.
#[derive(Debug, Clone, Copy, PartialEq, Eq, Structural)]
pub enum TokenKind {
    /// A code point written verbatim.
    Literal(u32),
    /// A code point written as an escape (`\uXXXX`, `\u{...}`, or `\x` for
    /// any other escaped character `x`, which passes through undecoded).
    Escape(u32),
    /// A syntax marker.
    Meta(MetaKind),
}

/// A token together with its source span: the half-open range of code-point
/// indices `[start, end)` it was read from.
#[derive(Debug, Clone, Copy, PartialEq, Eq, Structural)]
pub struct Token {
    pub kind: TokenKind,
    pub start: usize,
    pub end: usize,
}

pub open spec fn is_hex_digit(c: char) -> bool {
    let v = c as u32;
    (0x30 <= v && v <= 0x39) || (0x61 <= v && v <= 0x66) || (0x41 <= v && v <= 0x46)
}

pub open spec fn hex_val(c: char) -> u32
    recommends
        is_hex_digit(c),
{
    let v = c as u32;
    if 0x30 <= v && v <= 0x39 {
        (v - 0x30) as u32
    } else if 0x61 <= v && v <= 0x66 {
        (v - 0x61 + 10) as u32
    } else {
        (v - 0x41 + 10) as u32
    }
}

/// Four hex digits stand at position `j`.
pub open spec fn has_hex4(p: Seq<char>, j: int) -> bool {
    &&& j + 4 <= p.len()
    &&& is_hex_digit(p[j])
    &&& is_hex_digit(p[j + 1])
    &&& is_hex_digit(p[j + 2])
    &&& is_hex_digit(p[j + 3])
}

/// The value of the four hex digits at position `j`.
pub open spec fn hex4_val(p: Seq<char>, j: int) -> u32
    recommends
        has_hex4(p, j),
{
    (0x1000 * hex_val(p[j]) + 0x100 * hex_val(p[j + 1]) + 0x10 * hex_val(p[j + 2]) + hex_val(
        p[j + 3],
    )) as u32
}

/// A full `\uXXXX` escape stands at position `j`.
pub open spec fn has_u_escape4(p: Seq<char>, j: int) -> bool {
    &&& j + 6 <= p.len()
    &&& p[j] == '\\'
    &&& p[j + 1] == 'u'
    &&& has_hex4(p, j + 2)
}

/// Reads the digits of a braced escape `\u{...}` from position `j` (just
/// after the opening brace) with `acc` the value of the digits read so far
/// and `seen` whether any digit was read. Yields the code point and the
/// position after the closing brace, or `None` when the brace is never
/// closed, a non-digit intervenes, no digit at all is given, or the value
/// exceeds the greatest code point.
pub open spec fn scan_braced(p: Seq<char>, j: int, acc: u32, seen: bool) -> Option<(u32, int)>
    decreases p.len() - j,
{
    if j < 0 || j >= p.len() {
        None
    } else if p[j] == '}' {
        if seen {
            Some((acc, j + 1))
        } else {
            None
        }
    } else if is_hex_digit(p[j]) && 16 * acc + hex_val(p[j]) <= 0x10FFFF {
        scan_braced(p, j + 1, (16 * acc + hex_val(p[j])) as u32, true)
    } else {
        None
    }
}

/// Decodes the escape that starts at position `i` (where `p[i]` is the
/// backslash). `None` is a malformed escape: a trailing lone backslash, a
/// `\u` without four hex digits where no braced form applies, or a bad
/// braced form.
pub open spec fn scan_escape(p: Seq<char>, f: FlagSet, i: int) -> Option<Token>
    recommends
        0 <= i < p.len(),
        p[i] == '\\',
{
    if i + 1 >= p.len() {
        None
    } else {
        let e = p[i + 1];
        if e != 'u' {
            Some(
                Token {
                    kind: TokenKind::Escape(e as u32),
                    start: i as usize,
                    end: (i + 2) as usize,
                },
            )
        } else if f.unicode_aware && i + 2 < p.len() && p[i + 2] == '{' {
            match scan_braced(p, i + 3, 0, false) {
                None => None,
                Some((v, j)) => Some(
                    Token { kind: TokenKind::Escape(v), start: i as usize, end: j as usize },
                ),
            }
        } else if has_hex4(p, i + 2) {
            let v = hex4_val(p, i + 2);
            if f.unicode_aware && high_surrogate(v) && has_u_escape4(p, i + 6) && low_surrogate(
                hex4_val(p, i + 8),
            ) {
                Some(
                    Token {
                        kind: TokenKind::Escape(combined_code_point(v, hex4_val(p, i + 8))),
                        start: i as usize,
                        end: (i + 12) as usize,
                    },
                )
            } else {
                Some(
                    Token { kind: TokenKind::Escape(v), start: i as usize, end: (i + 6) as usize },
                )
            }
        } else {
            None
        }
    }
}

pub open spec fn meta_token(k: MetaKind, i: int, e: int) -> Token {
    Token { kind: TokenKind::Meta(k), start: i as usize, end: e as usize }
}

/// The token that starts at position `i`, or `None` on a malformed escape.
pub open spec fn scan_token_spec(p: Seq<char>, f: FlagSet, i: int) -> Option<Token>
    recommends
        0 <= i < p.len(),
{
    let c = p[i];
    if c == '\\' {
        scan_escape(p, f, i)
    } else if c == '[' {
        Some(meta_token(MetaKind::ClassOpen, i, i + 1))
    } else if c == ']' {
        Some(meta_token(MetaKind::ClassClose, i, i + 1))
    } else if c == '^' {
        Some(meta_token(MetaKind::Negation, i, i + 1))
    } else if c == '-' {
        if f.unicode_sets && i + 1 < p.len() && p[i + 1] == '-' {
            Some(meta_token(MetaKind::SetDifference, i, i + 2))
        } else {
            Some(meta_token(MetaKind::RangeDash, i, i + 1))
        }
    } else if c == '&' && f.unicode_sets && i + 1 < p.len() && p[i + 1] == '&' {
        Some(meta_token(MetaKind::SetIntersection, i, i + 2))
    } else {
        Some(Token { kind: TokenKind::Literal(c as u32), start: i as usize, end: (i + 1) as usize })
    }
}

/// The token sequence of the text from position `i` on, or `None` on a
/// malformed escape anywhere in it.
pub open spec fn tokenize_from(p: Seq<char>, f: FlagSet, i: int) -> Option<Seq<Token>>
    decreases p.len() - i,
{
    if i >= p.len() {
        Some(Seq::empty())
    } else {
        match scan_token_spec(p, f, i) {
            None => None,
            Some(t) => {
                if i < t.end as int && t.end as int <= p.len() {
                    match tokenize_from(p, f, t.end as int) {
                        None => None,
                        Some(rest) => Some(seq![t] + rest),
                    }
                } else {
                    None
                }
            },
        }
    }
}

/// The token sequence of the whole text, or `None` on a malformed escape.
pub open spec fn tokenize_spec(p: Seq<char>, f: FlagSet) -> Option<Seq<Token>> {
    tokenize_from(p, f, 0)
}

pub proof fn scan_braced_props(p: Seq<char>, j: int, acc: u32, seen: bool)
    ensures
        scan_braced(p, j, acc, seen) matches Some(r) ==> j < r.1 <= p.len(),
    decreases p.len() - j,
{
    if 0 <= j < p.len() && p[j] != '}' && is_hex_digit(p[j]) && 16 * acc + hex_val(p[j])
        <= 0x10FFFF {
        scan_braced_props(p, j + 1, (16 * acc + hex_val(p[j])) as u32, true);
    }
}

/// Every token starts where the scan began and ends strictly later, within
/// the text.
pub proof fn scan_token_props(p: Seq<char>, f: FlagSet, i: int)
    requires
        0 <= i < p.len(),
        p.len() <= usize::MAX,
    ensures
        scan_token_spec(p, f, i) matches Some(t) ==> {
            &&& t.start == i
            &&& i < t.end as int <= p.len()
        },
{
    if p[i] == '\\' && i + 1 < p.len() && p[i + 1] == 'u' && f.unicode_aware && i + 2 < p.len()
        && p[i + 2] == '{' {
        scan_braced_props(p, i + 3, 0, false);
    }
}

/// Whether `c` is one of the sixteen hexadecimal digits (either case).
pub fn is_hex_digit_char(c: char) -> (r: bool)
    ensures
        r == is_hex_digit(c),
{
    let v = c as u32;
    (0x30 <= v && v <= 0x39) || (0x61 <= v && v <= 0x66) || (0x41 <= v && v <= 0x46)
}

/// The value of the hexadecimal digit `c`.
pub fn hex_digit_val(c: char) -> (r: u32)
    requires
        is_hex_digit(c),
    ensures
        r == hex_val(c),
        r <= 15,
{
    let v = c as u32;
    if 0x30 <= v && v <= 0x39 {
        v - 0x30
    } else if 0x61 <= v && v <= 0x66 {
        v - 0x61 + 10
    } else {
        v - 0x41 + 10
    }
}

fn has_hex4_at(p: &Vec<char>, j: usize) -> (r: bool)
    ensures
        r == has_hex4(p@, j as int),
{
    if p.len() < 4 || j > p.len() - 4 {
        return false;
    }
    is_hex_digit_char(p[j]) && is_hex_digit_char(p[j + 1]) && is_hex_digit_char(p[j + 2])
        && is_hex_digit_char(p[j + 3])
}

fn hex4_at(p: &Vec<char>, j: usize) -> (r: u32)
    requires
        has_hex4(p@, j as int),
    ensures
        r == hex4_val(p@, j as int),
        r < 0x10000,
{
    let n = p.len();
    proof {
        assert(j as int + 4 <= n as int);
    }
    let h0 = hex_digit_val(p[j]);
    let h1 = hex_digit_val(p[j + 1]);
    let h2 = hex_digit_val(p[j + 2]);
    let h3 = hex_digit_val(p[j + 3]);
    0x1000 * h0 + 0x100 * h1 + 0x10 * h2 + h3
}

fn has_u_escape4_at(p: &Vec<char>, j: usize) -> (r: bool)
    ensures
        r == has_u_escape4(p@, j as int),
{
    if p.len() < 6 || j > p.len() - 6 {
        return false;
    }
    p[j] == '\\' && p[j + 1] == 'u' && has_hex4_at(p, j + 2)
}

/// Reads the digits of a braced escape, from just after the opening brace.
fn scan_braced_digits(p: &Vec<char>, j0: usize) -> (r: Option<(u32, usize)>)
    requires
        j0 <= p.len(),
    ensures
        match r {
            Some(v) => scan_braced(p@, j0 as int, 0, false) == Some((v.0, v.1 as int)),
            None => scan_braced(p@, j0 as int, 0, false) is None,
        },
{
    let mut j = j0;
    let mut acc: u32 = 0;
    let mut seen = false;
    loop
        invariant
            j0 <= j <= p.len(),
            acc <= 0x10FFFF,
            scan_braced(p@, j0 as int, 0, false) == scan_braced(p@, j as int, acc, seen),
        decreases p.len() - j,
    {
        if j >= p.len() {
            assert(scan_braced(p@, j as int, acc, seen) is None);
            return None;
        }
        let c = p[j];
        if c == '}' {
            if seen {
                return Some((acc, j + 1));
            } else {
                return None;
            }
        }
        if !is_hex_digit_char(c) {
            return None;
        }
        let hv = hex_digit_val(c);
        let nv = 16 * acc + hv;
        if nv > 0x10FFFF {
            return None;
        }
        acc = nv;
        seen = true;
        j = j + 1;
    }
}

/// Reads the single token that starts at position `i`, or reports a
/// malformed escape.
pub fn scan_token(p: &Vec<char>, f: FlagSet, i: usize) -> (r: Option<Token>)
    requires
        i < p.len(),
    ensures
        r == scan_token_spec(p@, f, i as int),
{
    let c = p[i];
    if c == '\\' {
        if i + 1 >= p.len() {
            return None;
        }
        let e = p[i + 1];
        if e != 'u' {
            return Some(Token { kind: TokenKind::Escape(e as u32), start: i, end: i + 2 });
        }
        if f.unicode_aware && i + 2 < p.len() && p[i + 2] == '{' {
            return match scan_braced_digits(p, i + 3) {
                None => None,
                Some((v, j)) => Some(Token { kind: TokenKind::Escape(v), start: i, end: j }),
            };
        }
        if has_hex4_at(p, i + 2) {
            let v = hex4_at(p, i + 2);
            if f.unicode_aware && v >= 0xD800 && v < 0xDC00 && has_u_escape4_at(p, i + 6) {
                let w = hex4_at(p, i + 8);
                if w >= 0xDC00 && w <= 0xDFFF {
                    let cp = 0x10000 + (v - 0xD800) * 0x400 + (w - 0xDC00);
                    return Some(
                        Token { kind: TokenKind::Escape(cp), start: i, end: i + 12 },
                    );
                }
            }
            return Some(Token { kind: TokenKind::Escape(v), start: i, end: i + 6 });
        }
        return None;
    }
    if c == '[' {
        return Some(Token { kind: TokenKind::Meta(MetaKind::ClassOpen), start: i, end: i + 1 });
    }
    if c == ']' {
        return Some(Token { kind: TokenKind::Meta(MetaKind::ClassClose), start: i, end: i + 1 });
    }
    if c == '^' {
        return Some(Token { kind: TokenKind::Meta(MetaKind::Negation), start: i, end: i + 1 });
    }
    if c == '-' {
        if f.unicode_sets && i + 1 < p.len() && p[i + 1] == '-' {
            return Some(
                Token { kind: TokenKind::Meta(MetaKind::SetDifference), start: i, end: i + 2 },
            );
        }
        return Some(Token { kind: TokenKind::Meta(MetaKind::RangeDash), start: i, end: i + 1 });
    }
    if c == '&' && f.unicode_sets && i + 1 < p.len() && p[i + 1] == '&' {
        return Some(
            Token { kind: TokenKind::Meta(MetaKind::SetIntersection), start: i, end: i + 2 },
        );
    }
    Some(Token { kind: TokenKind::Literal(c as u32), start: i, end: i + 1 })
}

/// `pre` prepended to a token sequence that may have failed.
pub open spec fn opt_concat(pre: Seq<Token>, rest: Option<Seq<Token>>) -> Option<Seq<Token>> {
    match rest {
        None => None,
        Some(s) => Some(pre + s),
    }
}

/// Turns the pattern text into its token sequence; `None` reports a
/// malformed escape, after which the pattern is not analyzed.
pub fn tokenize(p: &Vec<char>, f: FlagSet) -> (r: Option<Vec<Token>>)
    ensures
        match r {
            Some(toks) => tokenize_spec(p@, f) == Some(toks@),
            None => tokenize_spec(p@, f) is None,
        },
{
    let mut toks: Vec<Token> = Vec::new();
    let mut i: usize = 0;
    proof {
        assert(Seq::<Token>::empty() + tokenize_from(p@, f, 0)->Some_0 =~= tokenize_from(
            p@,
            f,
            0,
        )->Some_0);
    }
    while i < p.len()
        invariant
            i <= p.len(),
            tokenize_from(p@, f, 0) == opt_concat(toks@, tokenize_from(p@, f, i as int)),
        decreases p.len() - i,
    {
        match scan_token(p, f, i) {
            None => {
                assert(tokenize_from(p@, f, i as int) is None);
                return None;
            },
            Some(t) => {
                proof {
                    scan_token_props(p@, f, i as int);
                    let rest = tokenize_from(p@, f, t.end as int);
                    assert(tokenize_from(p@, f, i as int) == opt_concat(seq![t], rest));
                    if rest is Some {
                        assert(toks@ + (seq![t] + rest->Some_0) =~= toks@.push(t)
                            + rest->Some_0);
                    }
                }
                toks.push(t);
                i = t.end;
            },
        }
    }
    proof {
        assert(tokenize_from(p@, f, i as int) == Some(Seq::<Token>::empty()));
        assert(toks@ + Seq::<Token>::empty() =~= toks@);
    }
    Some(toks)
}

/// The characters that the token spans of `toks` cover, in order.
pub open spec fn concat_spans(toks: Seq<Token>, p: Seq<char>) -> Seq<char>
    decreases toks.len(),
{
    if toks.len() == 0 {
        Seq::empty()
    } else {
        p.subrange(toks[0].start as int, toks[0].end as int) + concat_spans(toks.skip(1), p)
    }
}

proof fn lemma_lossless_from(p: Seq<char>, f: FlagSet, i: int, toks: Seq<Token>)
    requires
        0 <= i <= p.len(),
        p.len() <= usize::MAX,
        tokenize_from(p, f, i) == Some(toks),
    ensures
        concat_spans(toks, p) =~= p.subrange(i, p.len() as int),
    decreases p.len() - i,
{
    if i >= p.len() {
        assert(toks =~= Seq::<Token>::empty());
        assert(concat_spans(toks, p) =~= p.subrange(i, p.len() as int));
    } else {
        let t = scan_token_spec(p, f, i)->Some_0;
        scan_token_props(p, f, i);
        let rest = tokenize_from(p, f, t.end as int)->Some_0;
        assert(toks == seq![t] + rest);
        lemma_lossless_from(p, f, t.end as int, rest);
        assert(toks.skip(1) =~= rest);
        assert(toks[0] == t);
        assert(p.subrange(i, t.end as int) + p.subrange(t.end as int, p.len() as int)
            =~= p.subrange(i, p.len() as int));
    }
}

/// Concatenating the source span of every token reproduces the pattern text
/// exactly, for every pattern the tokenizer accepts.
pub proof fn lemma_tokens_lossless(p: Seq<char>, f: FlagSet, toks: Seq<Token>)
    requires
        p.len() <= usize::MAX,
        tokenize_spec(p, f) == Some(toks),
    ensures
        concat_spans(toks, p) == p,
{
    lemma_lossless_from(p, f, 0, toks);
    assert(p.subrange(0, p.len() as int) =~= p);
    assert(concat_spans(toks, p) =~= p);
}

} // verus!
