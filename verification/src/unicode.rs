//! Code-point predicates for the composition rules: numeric range checks for
//! surrogates, regional indicators, emoji modifiers, variation selectors and
//! the zero-width joiner, and a Unicode general-category lookup for combining
//! marks.

use vstd::prelude::*;

verus! {

/// A Unicode scalar value: any code point outside the surrogate range.
pub open spec fn is_unicode_scalar(cp: u32) -> bool {
    cp < 0xD800 || (0xDFFF < cp && cp <= 0x10FFFF)
}

pub open spec fn high_surrogate(cp: u32) -> bool {
    0xD800 <= cp && cp < 0xDC00
}

pub open spec fn low_surrogate(cp: u32) -> bool {
    0xDC00 <= cp && cp <= 0xDFFF
}

/// A high surrogate followed by a low surrogate: together they encode one
/// code point above the 16-bit range.
pub open spec fn surrogate_pair(lead: u32, tail: u32) -> bool {
    high_surrogate(lead) && low_surrogate(tail)
}

/// The code point that a surrogate pair encodes.
pub open spec fn combined_code_point(lead: u32, tail: u32) -> u32
    recommends
        surrogate_pair(lead, tail),
{
    (0x10000 + (lead - 0xD800) * 0x400 + (tail - 0xDC00)) as u32
}

/// A skin-tone modifier applied to a preceding base emoji.
pub open spec fn emoji_modifier(cp: u32) -> bool {
    0x1F3FB <= cp && cp <= 0x1F3FF
}

/// One of the 26 symbols that pair up to render national flag emoji.
pub open spec fn regional_indicator(cp: u32) -> bool {
    0x1F1E6 <= cp && cp <= 0x1F1FF
}

/// A code point that changes the rendering style of the preceding symbol
/// (notably U+FE0F), without being a visible character itself.
pub open spec fn variation_selector(cp: u32) -> bool {
    (0xFE00 <= cp && cp <= 0xFE0F) || (0xE0100 <= cp && cp <= 0xE01EF)
}

/// The zero-width joiner, which joins adjacent emoji into one glyph.
pub const ZERO_WIDTH_JOINER: u32 = 0x200D;

/// Whether `code_point` is an emoji skin-tone modifier (U+1F3FB..U+1F3FF).
pub fn is_emoji_modifier(code_point: u32) -> (r: bool)
    ensures
        r == emoji_modifier(code_point),
{
    code_point >= 0x1F3FB && code_point <= 0x1F3FF
}

/// Whether `code_lead` and `code_tail` form a surrogate pair: a high
/// surrogate (U+D800..U+DBFF) followed by a low surrogate (U+DC00..U+DFFF).
pub fn is_surrogate_pair(code_lead: u32, code_tail: u32) -> (r: bool)
    ensures
        r == surrogate_pair(code_lead, code_tail),
{
    code_lead >= 0xD800 && code_lead < 0xDC00 && code_tail >= 0xDC00 && code_tail <= 0xDFFF
}

/// Whether `character` has Unicode general category Mc, Me or Mn. The exact
/// extent of those categories is left to the `regex` crate's Unicode tables;
/// `combining_mark` names its answer.
pub uninterp spec fn combining_mark(cp: u32) -> bool;

/// Relies on `regex::Regex::new` and `regex::Regex::is_match` with the fixed
/// class `^[\p{Mc}\p{Me}\p{Mn}]$`: whether the single-character string
/// matches depends on that character's general category alone.
#[verifier::external_body]
pub fn is_combining_character(character: char) -> (r: bool)
    ensures
        r == combining_mark(character as u32),
{
    let is: regex::Regex = regex::Regex::new(r"^[\p{Mc}\p{Me}\p{Mn}]$").unwrap();
    is.is_match(&character.to_string())
}

/// Relies on `char::from_u32` as std documents it: `Some` exactly on Unicode
/// scalar values, and the returned `char` is the argument code point.
pub assume_specification[ char::from_u32 ](i: u32) -> (r: Option<char>)
    ensures
        r is Some <==> is_unicode_scalar(i),
        r matches Some(c) ==> c as u32 == i,
;

/// Whether `cp` has Unicode general category Mc, Me or Mn. Code points that
/// are not Unicode scalar values (lone surrogates) are in no category.
pub open spec fn combining_code_point(cp: u32) -> bool {
    is_unicode_scalar(cp) && combining_mark(cp)
}

/// Whether the code point `cp` is a combining mark.
pub fn is_combining_code_point(cp: u32) -> (r: bool)
    ensures
        r == combining_code_point(cp),
{
    match char::from_u32(cp) {
        Some(c) => is_combining_character(c),
        None => false,
    }
}

} // verus!
