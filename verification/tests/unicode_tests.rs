//! Tests of the code-point predicates.

use misleading_char_class::unicode::{
    is_combining_character, is_combining_code_point, is_emoji_modifier, is_surrogate_pair,
};

#[test]
pub fn is_emoji_modifier_test() {
    assert!(is_emoji_modifier(0x1F3FB));
    assert!(is_emoji_modifier(0x1F3FC));
    assert!(is_emoji_modifier(0x1F3FD));
    assert!(is_emoji_modifier(0x1F3FE));
    assert!(is_emoji_modifier(0x1F3FF));
    assert!(!is_emoji_modifier(0x1F3FA));
    assert!(!is_emoji_modifier(0x1F3F0));
    assert!(!is_emoji_modifier(0x1F3F1));
    assert!(!is_emoji_modifier(0x1F3F2));
    assert!(!is_emoji_modifier(0x1F3F3));
    assert!(!is_emoji_modifier(0x1F3F4));
    assert!(!is_emoji_modifier(0x1F3F5));
    assert!(!is_emoji_modifier(0x1F3F6));
    assert!(!is_emoji_modifier(0x1F3F7));
    assert!(!is_emoji_modifier(0x1F3F8));
    assert!(!is_emoji_modifier(0x1F3F9));
    assert!(!is_emoji_modifier(0x1F3FA));
    assert!(!is_emoji_modifier(0x1F3F0));
    assert!(!is_emoji_modifier(0x1F3F1));
    assert!(!is_emoji_modifier(0x1F3F2));
    assert!(!is_emoji_modifier(0x1F3F3));
    assert!(!is_emoji_modifier(0x1F3F4));
    assert!(!is_emoji_modifier(0x1F3F5));
    assert!(!is_emoji_modifier(0x1F3F6));
    assert!(!is_emoji_modifier(0x1F3F7));
    assert!(!is_emoji_modifier(0x1F3F8));
    assert!(!is_emoji_modifier(0x1F3F9));
    assert!(!is_emoji_modifier(0x1F3FA));
    assert!(!is_emoji_modifier(0x1F3F0));
    assert!(!is_emoji_modifier(0x1F3F1));
}

#[test]
fn is_combining_character_test() {
    assert!(!is_combining_character('A'));
    assert!(is_combining_character('\u{0300}'));
    assert!(is_combining_character('\u{0301}'));
    assert!(is_combining_character('\u{0331}'));
    assert!(is_combining_character('\u{0345}'));
    assert!(is_combining_character('\u{0364}'));
}

#[test]
fn is_combining_code_point_handles_every_code_point() {
    assert!(is_combining_code_point(0x0301));
    assert!(is_combining_code_point(0x20E0));
    assert!(!is_combining_code_point(0x0041));
    // Lone surrogates and out-of-range values are no character at all.
    assert!(!is_combining_code_point(0xD800));
    assert!(!is_combining_code_point(0xDFFF));
    assert!(!is_combining_code_point(0x110000));
}

#[test]
fn is_surrogate_pair_bounds() {
    assert!(is_surrogate_pair(0xD800, 0xDC00));
    assert!(is_surrogate_pair(0xD83D, 0xDC4D));
    assert!(is_surrogate_pair(0xDBFF, 0xDFFF));
    assert!(!is_surrogate_pair(0xD7FF, 0xDC00));
    assert!(!is_surrogate_pair(0xDC00, 0xDC00));
    assert!(!is_surrogate_pair(0xD800, 0xDBFF));
    assert!(!is_surrogate_pair(0xD800, 0xE000));
    assert!(!is_surrogate_pair(0x0041, 0x0301));
}
