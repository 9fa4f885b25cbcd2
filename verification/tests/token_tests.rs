//! Tests of the tokenizer, the flag parsing, and the class extractor.

use misleading_char_class::classes::{extract_classes, ClassSlot};
use misleading_char_class::flags::FlagSet;
use misleading_char_class::text_code_points;
use misleading_char_class::token::{tokenize, MetaKind, Token, TokenKind};

fn flags(unicode_aware: bool, unicode_sets: bool) -> FlagSet {
    FlagSet { unicode_aware, unicode_sets }
}

fn toks(pattern: &str, f: FlagSet) -> Vec<Token> {
    tokenize(&text_code_points(pattern), f).expect("pattern should tokenize")
}

#[test]
fn from_flags_reads_u_and_v() {
    assert_eq!(FlagSet::from_flags("u"), flags(true, false));
    assert_eq!(FlagSet::from_flags("v"), flags(true, true));
    assert_eq!(FlagSet::from_flags("giu"), flags(true, false));
    assert_eq!(FlagSet::from_flags(""), flags(false, false));
    assert_eq!(FlagSet::from_flags("gims"), flags(false, false));
    assert_eq!(FlagSet::from_flags("${foo}"), flags(false, false));
}

#[test]
fn token_spans_tile_the_pattern() {
    let patterns: Vec<(&str, FlagSet)> = vec![
        (r"[\u0041\u0301]", flags(false, false)),
        (r"[\uD83D\uDC4D]", flags(true, false)),
        (r"[\u{1F44D}]\a^x-y&&z", flags(true, true)),
        ("(?<=[\u{1F1EF}\u{1F1F5}])", flags(false, false)),
    ];
    for (pattern, f) in patterns {
        let chars = text_code_points(pattern);
        let tokens = tokenize(&chars, f).expect("pattern should tokenize");
        let mut pos = 0;
        for t in &tokens {
            assert_eq!(t.start, pos, "token starts where the last one ended");
            assert!(t.end > t.start);
            pos = t.end;
        }
        assert_eq!(pos, chars.len(), "tokens cover the whole pattern");
    }
}

#[test]
fn surrogate_escape_pair_merges_only_in_unicode_mode() {
    let merged = toks(r"\uD83D\uDC4D", flags(true, false));
    assert_eq!(
        merged,
        vec![Token { kind: TokenKind::Escape(0x1F44D), start: 0, end: 12 }]
    );
    let split = toks(r"\uD83D\uDC4D", flags(false, false));
    assert_eq!(
        split,
        vec![
            Token { kind: TokenKind::Escape(0xD83D), start: 0, end: 6 },
            Token { kind: TokenKind::Escape(0xDC4D), start: 6, end: 12 },
        ]
    );
}

#[test]
fn braced_escape_decodes_in_unicode_mode() {
    let t = toks(r"\u{1F44D}", flags(true, false));
    assert_eq!(t, vec![Token { kind: TokenKind::Escape(0x1F44D), start: 0, end: 9 }]);
    let with_zeros = toks(r"\u{0000041}", flags(true, false));
    assert_eq!(with_zeros[0].kind, TokenKind::Escape(0x41));
}

#[test]
fn unrecognized_escape_passes_through() {
    let t = toks(r"\a", flags(false, false));
    assert_eq!(t, vec![Token { kind: TokenKind::Escape(0x61), start: 0, end: 2 }]);
    // An escaped bracket is a member, not class syntax.
    let t = toks(r"\]", flags(false, false));
    assert_eq!(t, vec![Token { kind: TokenKind::Escape(0x5D), start: 0, end: 2 }]);
}

#[test]
fn set_operators_exist_only_in_unicode_sets_mode() {
    let v = toks("--&&", flags(true, true));
    assert_eq!(
        v,
        vec![
            Token { kind: TokenKind::Meta(MetaKind::SetDifference), start: 0, end: 2 },
            Token { kind: TokenKind::Meta(MetaKind::SetIntersection), start: 2, end: 4 },
        ]
    );
    let plain = toks("--&&", flags(false, false));
    assert_eq!(
        plain,
        vec![
            Token { kind: TokenKind::Meta(MetaKind::RangeDash), start: 0, end: 1 },
            Token { kind: TokenKind::Meta(MetaKind::RangeDash), start: 1, end: 2 },
            Token { kind: TokenKind::Literal(0x26), start: 2, end: 3 },
            Token { kind: TokenKind::Literal(0x26), start: 3, end: 4 },
        ]
    );
}

#[test]
fn malformed_escapes_are_rejected() {
    let f = flags(true, false);
    assert_eq!(tokenize(&text_code_points(r"\u12"), f), None);
    assert_eq!(tokenize(&text_code_points(r"\u{41"), f), None);
    assert_eq!(tokenize(&text_code_points(r"\u{zz}"), f), None);
    assert_eq!(tokenize(&text_code_points("\\"), f), None);
    assert_eq!(tokenize(&text_code_points(r"\u{110000}"), f), None);
    // Without unicode-aware mode the braced form is not decoded, so `\u`
    // stands without its four hex digits.
    assert_eq!(tokenize(&text_code_points(r"\u{41}"), flags(false, false)), None);
}

fn classes_of(pattern: &str, f: FlagSet) -> Vec<(usize, usize, Vec<ClassSlot>)> {
    let tokens = toks(pattern, f);
    let cs = extract_classes(&tokens, f.unicode_sets).expect("classes should extract");
    cs.into_iter().map(|c| (c.start, c.end, c.slots)).collect()
}

#[test]
fn range_dash_joins_two_members() {
    let cs = classes_of("[a-b]", flags(false, false));
    assert_eq!(cs, vec![(0, 5, vec![ClassSlot::Range { lo: 0x61, hi: 0x62 }])]);
}

#[test]
fn dash_at_class_boundary_is_a_member() {
    let cs = classes_of("[-a]", flags(false, false));
    assert_eq!(
        cs,
        vec![(0, 4, vec![ClassSlot::Member { cp: 0x2D }, ClassSlot::Member { cp: 0x61 }])]
    );
    let cs = classes_of("[a-]", flags(false, false));
    assert_eq!(
        cs,
        vec![(0, 4, vec![ClassSlot::Member { cp: 0x61 }, ClassSlot::Member { cp: 0x2D }])]
    );
}

#[test]
fn leading_negation_is_no_member() {
    let cs = classes_of("[^a]", flags(false, false));
    assert_eq!(cs, vec![(0, 4, vec![ClassSlot::Member { cp: 0x61 }])]);
    // Past the opening position, `^` is an ordinary member.
    let cs = classes_of("[a^]", flags(false, false));
    assert_eq!(
        cs,
        vec![(0, 4, vec![ClassSlot::Member { cp: 0x61 }, ClassSlot::Member { cp: 0x5E }])]
    );
}

#[test]
fn nested_class_is_extracted_and_leaves_a_boundary() {
    let cs = classes_of("[a[b]c]", flags(true, true));
    assert_eq!(
        cs,
        vec![
            (
                0,
                7,
                vec![
                    ClassSlot::Member { cp: 0x61 },
                    ClassSlot::Boundary,
                    ClassSlot::Member { cp: 0x63 },
                ],
            ),
            (2, 5, vec![ClassSlot::Member { cp: 0x62 }]),
        ]
    );
}

#[test]
fn bracket_inside_class_is_a_member_without_unicode_sets() {
    let cs = classes_of("[a[b]", flags(false, false));
    assert_eq!(
        cs,
        vec![
            (
                0,
                5,
                vec![
                    ClassSlot::Member { cp: 0x61 },
                    ClassSlot::Member { cp: 0x5B },
                    ClassSlot::Member { cp: 0x62 },
                ],
            ),
        ]
    );
}

#[test]
fn set_operator_leaves_a_boundary_slot() {
    let cs = classes_of("[a--b]", flags(true, true));
    assert_eq!(
        cs,
        vec![
            (
                0,
                6,
                vec![
                    ClassSlot::Member { cp: 0x61 },
                    ClassSlot::Boundary,
                    ClassSlot::Member { cp: 0x62 },
                ],
            ),
        ]
    );
}

#[test]
fn unterminated_class_is_rejected() {
    let f = flags(false, false);
    let tokens = toks("[ab", f);
    assert_eq!(extract_classes(&tokens, false), None);
    let tokens = toks("[a[b]", flags(true, true));
    assert_eq!(extract_classes(&tokens, true), None);
}
