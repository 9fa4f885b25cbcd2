//! The character class extractor: walks the token stream, locates bracketed
//! classes, and produces for each class (including, in unicode-sets mode,
//! each nested class) the ordered list of its slots. A slot is a single
//! member code point, a range of two endpoints, or an opaque boundary left by
//! a nested class or a set operator; boundaries break member adjacency.

use vstd::prelude::*;

use crate::token::{MetaKind, Token, TokenKind};

verus! {

/// One contributing element of a character class.
#[derive(Debug, Clone, Copy, PartialEq, Eq, Structural)]
pub enum ClassSlot {
    /// A single escaped or literal member code point.
    Member { cp: u32 },
    /// A `lo-hi` range; it never takes part in composition rules.
    Range { lo: u32, hi: u32 },
    /// A nested class or set-operator sub-expression. Its own contents are
    /// analyzed as a class of their own; in the enclosing class it only
    /// breaks adjacency.
    Boundary,
}

/// A bracketed character class: its source span (code-point indices of `[`
/// up to and including `]`) and its slots in source order.
#[derive(Debug, Clone, PartialEq, Eq)]
pub struct CharacterClass {
    pub start: usize,
    pub end: usize,
    pub slots: Vec<ClassSlot>,
}

/// The mathematical value of a [`CharacterClass`].
pub struct ClassView {
    pub start: usize,
    pub end: usize,
    pub slots: Seq<ClassSlot>,
}

impl View for CharacterClass {
    type V = ClassView;

    open spec fn view(&self) -> ClassView {
        ClassView { start: self.start, end: self.end, slots: self.slots@ }
    }
}

pub open spec fn class_views(cs: Seq<CharacterClass>) -> Seq<ClassView> {
    cs.map_values(|c: CharacterClass| c@)
}

/// A raw element of a class body, before ranges are assembled: a member code
/// point, a range dash, or an adjacency-breaking boundary.
#[derive(Debug, Clone, Copy, PartialEq, Eq, Structural)]
pub enum ClassItem {
    Mem { cp: u32 },
    Dash,
    Bound,
}

/// The slot a lone item turns into: a dash that forms no range is the
/// literal member `-`.
pub open spec fn slot_of_item(it: ClassItem) -> ClassSlot {
    match it {
        ClassItem::Mem { cp } => ClassSlot::Member { cp },
        ClassItem::Dash => ClassSlot::Member { cp: '-' as u32 },
        ClassItem::Bound => ClassSlot::Boundary,
    }
}

/// Assembles slots from raw items, left to right: a dash between two member
/// code points joins them into one range slot; any other item stands alone.
pub open spec fn slots_of(items: Seq<ClassItem>) -> Seq<ClassSlot>
    decreases items.len(),
{
    if items.len() == 0 {
        Seq::empty()
    } else if items.len() >= 3 && items[0] is Mem && items[1] is Dash && items[2] is Mem {
        seq![ClassSlot::Range { lo: items[0]->cp, hi: items[2]->cp }] + slots_of(items.skip(3))
    } else {
        seq![slot_of_item(items[0])] + slots_of(items.skip(1))
    }
}

/// A parsed class body: its raw items, the classes nested inside it, the
/// code-point index just past its closing bracket, and the index of the
/// first token after it.
pub struct ClassBody {
    pub items: Seq<ClassItem>,
    pub nested: Seq<ClassView>,
    pub close_end: usize,
    pub next_tok: int,
}

/// A parsed class: the class itself first, then every class nested in it,
/// and the index of the first token after it.
pub struct ParsedClass {
    pub classes: Seq<ClassView>,
    pub next: int,
}

pub open spec fn body_cons(it: ClassItem, rest: Option<ClassBody>) -> Option<ClassBody> {
    match rest {
        None => None,
        Some(b) => Some(
            ClassBody {
                items: seq![it] + b.items,
                nested: b.nested,
                close_end: b.close_end,
                next_tok: b.next_tok,
            },
        ),
    }
}

/// Parses one class whose `[` stands at token `i`. `None` is an unterminated
/// class (no matching `]` before the input ends).
pub open spec fn parse_class(tokens: Seq<Token>, v: bool, i: int) -> Option<ParsedClass>
    recommends
        0 <= i < tokens.len(),
        tokens[i].kind == TokenKind::Meta(MetaKind::ClassOpen),
    decreases tokens.len() - i, 0int,
{
    if i < 0 || i >= tokens.len() {
        None
    } else {
        let bstart = if i + 1 < tokens.len() && tokens[i + 1].kind == TokenKind::Meta(
            MetaKind::Negation,
        ) {
            i + 2
        } else {
            i + 1
        };
        match parse_body(tokens, v, bstart) {
            None => None,
            Some(b) => Some(
                ParsedClass {
                    classes: seq![
                        ClassView {
                            start: tokens[i].start,
                            end: b.close_end,
                            slots: slots_of(b.items),
                        },
                    ] + b.nested,
                    next: b.next_tok,
                },
            ),
        }
    }
}

/// Parses a class body from token `j` up to the closing bracket of the
/// current class. In unicode-sets mode a `[` starts a nested class, parsed
/// as a class of its own and standing as one boundary item in this body;
/// otherwise a `[` is the literal member it is in classic class syntax. A
/// negation marker past the opening position is the literal member `^`.
pub open spec fn parse_body(tokens: Seq<Token>, v: bool, j: int) -> Option<ClassBody>
    decreases tokens.len() - j, 1int,
{
    if j < 0 || j >= tokens.len() {
        None
    } else {
        let t = tokens[j];
        match t.kind {
            TokenKind::Meta(MetaKind::ClassClose) => Some(
                ClassBody {
                    items: Seq::empty(),
                    nested: Seq::empty(),
                    close_end: t.end,
                    next_tok: j + 1,
                },
            ),
            TokenKind::Meta(MetaKind::ClassOpen) => {
                if v {
                    match parse_class(tokens, v, j) {
                        None => None,
                        Some(pc) => {
                            if j < pc.next && pc.next <= tokens.len() {
                                match parse_body(tokens, v, pc.next) {
                                    None => None,
                                    Some(b) => Some(
                                        ClassBody {
                                            items: seq![ClassItem::Bound] + b.items,
                                            nested: pc.classes + b.nested,
                                            close_end: b.close_end,
                                            next_tok: b.next_tok,
                                        },
                                    ),
                                }
                            } else {
                                None
                            }
                        },
                    }
                } else {
                    body_cons(ClassItem::Mem { cp: '[' as u32 }, parse_body(tokens, v, j + 1))
                }
            },
            TokenKind::Meta(MetaKind::RangeDash) => body_cons(
                ClassItem::Dash,
                parse_body(tokens, v, j + 1),
            ),
            TokenKind::Meta(MetaKind::SetDifference) => body_cons(
                ClassItem::Bound,
                parse_body(tokens, v, j + 1),
            ),
            TokenKind::Meta(MetaKind::SetIntersection) => body_cons(
                ClassItem::Bound,
                parse_body(tokens, v, j + 1),
            ),
            TokenKind::Meta(MetaKind::Negation) => body_cons(
                ClassItem::Mem { cp: '^' as u32 },
                parse_body(tokens, v, j + 1),
            ),
            TokenKind::Literal(cp) => body_cons(ClassItem::Mem { cp }, parse_body(tokens, v, j + 1)),
            TokenKind::Escape(cp) => body_cons(ClassItem::Mem { cp }, parse_body(tokens, v, j + 1)),
        }
    }
}

/// All classes of the token stream from token `i` on, each class followed by
/// the classes nested in it, in source order of their opening brackets.
pub open spec fn extract_from(tokens: Seq<Token>, v: bool, i: int) -> Option<Seq<ClassView>>
    decreases tokens.len() - i, 2int,
{
    if i < 0 {
        None
    } else if i >= tokens.len() {
        Some(Seq::empty())
    } else if tokens[i].kind == TokenKind::Meta(MetaKind::ClassOpen) {
        match parse_class(tokens, v, i) {
            None => None,
            Some(pc) => {
                if i < pc.next && pc.next <= tokens.len() {
                    match extract_from(tokens, v, pc.next) {
                        None => None,
                        Some(rest) => Some(pc.classes + rest),
                    }
                } else {
                    None
                }
            },
        }
    } else {
        extract_from(tokens, v, i + 1)
    }
}

/// All classes of the token stream, or `None` on an unterminated class.
pub open spec fn extract_spec(tokens: Seq<Token>, v: bool) -> Option<Seq<ClassView>> {
    extract_from(tokens, v, 0)
}

pub proof fn lemma_parse_class_props(tokens: Seq<Token>, v: bool, i: int)
    ensures
        parse_class(tokens, v, i) matches Some(pc) ==> i < pc.next <= tokens.len(),
    decreases tokens.len() - i, 0int,
{
    if 0 <= i < tokens.len() {
        let bstart = if i + 1 < tokens.len() && tokens[i + 1].kind == TokenKind::Meta(
            MetaKind::Negation,
        ) {
            i + 2
        } else {
            i + 1
        };
        lemma_parse_body_props(tokens, v, bstart);
    }
}

pub proof fn lemma_parse_body_props(tokens: Seq<Token>, v: bool, j: int)
    ensures
        parse_body(tokens, v, j) matches Some(b) ==> j < b.next_tok <= tokens.len(),
    decreases tokens.len() - j, 1int,
{
    if 0 <= j < tokens.len() {
        let t = tokens[j];
        match t.kind {
            TokenKind::Meta(MetaKind::ClassClose) => {},
            TokenKind::Meta(MetaKind::ClassOpen) => {
                if v {
                    lemma_parse_class_props(tokens, v, j);
                    match parse_class(tokens, v, j) {
                        Some(pc) => {
                            if j < pc.next && pc.next <= tokens.len() {
                                lemma_parse_body_props(tokens, v, pc.next);
                            }
                        },
                        None => {},
                    }
                } else {
                    lemma_parse_body_props(tokens, v, j + 1);
                }
            },
            _ => {
                lemma_parse_body_props(tokens, v, j + 1);
            },
        }
    }
}

/// Assembles the slot list of one class body from its raw items.
pub fn slots_of_items(items: &Vec<ClassItem>) -> (r: Vec<ClassSlot>)
    ensures
        r@ == slots_of(items@),
{
    let n = items.len();
    let mut out: Vec<ClassSlot> = Vec::new();
    let mut k: usize = 0;
    proof {
        assert(items@.skip(0) =~= items@);
        assert(out@ + slots_of(items@) =~= slots_of(items@));
    }
    while k < n
        invariant
            n == items@.len(),
            k <= n,
            slots_of(items@) == out@ + slots_of(items@.skip(k as int)),
        decreases items.len() - k,
    {
        let ghost rest = items@.skip(k as int);
        proof {
            assert(rest[0] == items@[k as int]);
            if n - k >= 3 {
                assert(rest[1] == items@[k as int + 1]);
                assert(rest[2] == items@[k as int + 2]);
            }
        }
        if n - k >= 3 && matches!(items[k], ClassItem::Mem { .. }) && matches!(
            items[k + 1],
            ClassItem::Dash,
        ) && matches!(items[k + 2], ClassItem::Mem { .. }) {
            let lo = match items[k] {
                ClassItem::Mem { cp } => cp,
                _ => 0,
            };
            let hi = match items[k + 2] {
                ClassItem::Mem { cp } => cp,
                _ => 0,
            };
            proof {
                assert(slots_of(rest) == seq![ClassSlot::Range { lo, hi }] + slots_of(
                    rest.skip(3),
                ));
                assert(rest.skip(3) =~= items@.skip(k as int + 3));
                assert(out@ + (seq![ClassSlot::Range { lo, hi }] + slots_of(rest.skip(3)))
                    =~= out@.push(ClassSlot::Range { lo, hi }) + slots_of(rest.skip(3)));
            }
            out.push(ClassSlot::Range { lo, hi });
            k = k + 3;
        } else {
            let s = match items[k] {
                ClassItem::Mem { cp } => ClassSlot::Member { cp },
                ClassItem::Dash => ClassSlot::Member { cp: 0x2D },
                ClassItem::Bound => ClassSlot::Boundary,
            };
            proof {
                assert(s == slot_of_item(rest[0]));
                assert(slots_of(rest) == seq![slot_of_item(rest[0])] + slots_of(rest.skip(1)));
                assert(rest.skip(1) =~= items@.skip(k as int + 1));
                assert(out@ + (seq![s] + slots_of(rest.skip(1))) =~= out@.push(s) + slots_of(
                    rest.skip(1),
                ));
            }
            out.push(s);
            k = k + 1;
        }
    }
    proof {
        assert(slots_of(items@.skip(k as int)) =~= Seq::<ClassSlot>::empty());
        assert(out@ + Seq::<ClassSlot>::empty() =~= out@);
    }
    out
}

pub open spec fn body_concat(
    pre_items: Seq<ClassItem>,
    pre_nested: Seq<ClassView>,
    rest: Option<ClassBody>,
) -> Option<ClassBody> {
    match rest {
        None => None,
        Some(b) => Some(
            ClassBody {
                items: pre_items + b.items,
                nested: pre_nested + b.nested,
                close_end: b.close_end,
                next_tok: b.next_tok,
            },
        ),
    }
}

/// Parses the class whose `[` stands at token `i`, yielding the class and
/// every class nested in it (opening-bracket order), with the index of the
/// first token after the class. `None` is an unterminated class.
pub fn parse_class_tokens(tokens: &Vec<Token>, v: bool, i: usize) -> (r: Option<
    (Vec<CharacterClass>, usize),
>)
    requires
        i < tokens@.len(),
        tokens@[i as int].kind == TokenKind::Meta(MetaKind::ClassOpen),
    ensures
        match r {
            Some(pr) => parse_class(tokens@, v, i as int) == Some(
                ParsedClass { classes: class_views(pr.0@), next: pr.1 as int },
            ),
            None => parse_class(tokens@, v, i as int) is None,
        },
    decreases tokens@.len() - i,
{
    let n = tokens.len();
    let start_char = tokens[i].start;
    let mut j: usize = if i + 1 < n && matches!(
        tokens[i + 1].kind,
        TokenKind::Meta(MetaKind::Negation),
    ) {
        i + 2
    } else {
        i + 1
    };
    let ghost j0 = j as int;
    let mut items: Vec<ClassItem> = Vec::new();
    let mut nested: Vec<CharacterClass> = Vec::new();
    proof {
        match parse_body(tokens@, v, j0) {
            Some(b) => {
                assert(Seq::<ClassItem>::empty() + b.items =~= b.items);
                assert(Seq::<ClassView>::empty() + b.nested =~= b.nested);
            },
            None => {},
        }
        assert(class_views(nested@) =~= Seq::<ClassView>::empty());
    }
    loop
        invariant
            i < j <= tokens@.len(),
            i < tokens@.len(),
            tokens@[i as int].kind == TokenKind::Meta(MetaKind::ClassOpen),
            start_char == tokens@[i as int].start,
            j0 == (if i + 1 < tokens@.len() && tokens@[i as int + 1].kind == TokenKind::Meta(
                MetaKind::Negation,
            ) {
                i + 2
            } else {
                i + 1
            }),
            parse_body(tokens@, v, j0) == body_concat(
                items@,
                class_views(nested@),
                parse_body(tokens@, v, j as int),
            ),
        decreases tokens@.len() - j,
    {
        if j >= tokens.len() {
            assert(parse_body(tokens@, v, j as int) is None);
            return None;
        }
        let t = tokens[j];
        match t.kind {
            TokenKind::Meta(MetaKind::ClassClose) => {
                proof {
                    assert(parse_body(tokens@, v, j as int) == Some(
                        ClassBody {
                            items: Seq::<ClassItem>::empty(),
                            nested: Seq::<ClassView>::empty(),
                            close_end: t.end,
                            next_tok: j as int + 1,
                        },
                    ));
                    let bb = parse_body(tokens@, v, j0)->Some_0;
                    assert(items@ + Seq::<ClassItem>::empty() =~= items@);
                    assert(class_views(nested@) + Seq::<ClassView>::empty() =~= class_views(
                        nested@,
                    ));
                    assert(bb.items == items@);
                    assert(bb.nested == class_views(nested@));
                    assert(bb.close_end == t.end);
                    assert(bb.next_tok == j as int + 1);
                }
                let slots = slots_of_items(&items);
                let cls = CharacterClass { start: start_char, end: t.end, slots };
                let mut result: Vec<CharacterClass> = Vec::new();
                result.push(cls);
                let ghost nested_snap = nested@;
                result.append(&mut nested);
                proof {
                    let bb = parse_body(tokens@, v, j0)->Some_0;
                    assert(result@ =~= seq![cls] + nested_snap);
                    assert(class_views(result@) =~= seq![cls@] + class_views(nested_snap));
                    assert(cls@.start == tokens@[i as int].start);
                    assert(cls@.end == bb.close_end);
                    assert(cls@.slots == slots_of(bb.items));
                    assert(cls@ == (ClassView {
                        start: tokens@[i as int].start,
                        end: bb.close_end,
                        slots: slots_of(bb.items),
                    }));
                    assert(parse_class(tokens@, v, i as int) == Some(
                        ParsedClass { classes: seq![cls@] + bb.nested, next: bb.next_tok },
                    ));
                    assert(class_views(result@) == seq![cls@] + bb.nested);
                }
                return Some((result, j + 1));
            },
            TokenKind::Meta(MetaKind::ClassOpen) => {
                if v {
                    proof {
                        lemma_parse_class_props(tokens@, v, j as int);
                    }
                    match parse_class_tokens(tokens, v, j) {
                        None => {
                            assert(parse_body(tokens@, v, j as int) is None);
                            return None;
                        },
                        Some((sub, next)) => {
                            proof {
                                let pc = parse_class(tokens@, v, j as int)->Some_0;
                                let rest = parse_body(tokens@, v, next as int);
                                assert(parse_body(tokens@, v, j as int) == body_concat(
                                    seq![ClassItem::Bound],
                                    pc.classes,
                                    rest,
                                ));
                                match rest {
                                    Some(b) => {
                                        assert(items@ + (seq![ClassItem::Bound] + b.items)
                                            =~= items@.push(ClassItem::Bound) + b.items);
                                        assert(class_views(nested@) + (pc.classes + b.nested)
                                            =~= (class_views(nested@) + pc.classes) + b.nested);
                                    },
                                    None => {},
                                }
                            }
                            items.push(ClassItem::Bound);
                            let ghost nested_snap = nested@;
                            let mut sub_classes = sub;
                            nested.append(&mut sub_classes);
                            proof {
                                let pc = parse_class(tokens@, v, j as int)->Some_0;
                                assert(class_views(nested@) =~= class_views(nested_snap)
                                    + pc.classes);
                            }
                            j = next;
                        },
                    }
                } else {
                    proof {
                        lemma_body_step(
                            tokens@,
                            v,
                            j as int,
                            items@,
                            class_views(nested@),
                            ClassItem::Mem { cp: 0x5B },
                        );
                    }
                    items.push(ClassItem::Mem { cp: 0x5B });
                    j = j + 1;
                }
            },
            TokenKind::Meta(MetaKind::RangeDash) => {
                proof {
                    lemma_body_step(
                        tokens@,
                        v,
                        j as int,
                        items@,
                        class_views(nested@),
                        ClassItem::Dash,
                    );
                }
                items.push(ClassItem::Dash);
                j = j + 1;
            },
            TokenKind::Meta(MetaKind::SetDifference) => {
                proof {
                    lemma_body_step(
                        tokens@,
                        v,
                        j as int,
                        items@,
                        class_views(nested@),
                        ClassItem::Bound,
                    );
                }
                items.push(ClassItem::Bound);
                j = j + 1;
            },
            TokenKind::Meta(MetaKind::SetIntersection) => {
                proof {
                    lemma_body_step(
                        tokens@,
                        v,
                        j as int,
                        items@,
                        class_views(nested@),
                        ClassItem::Bound,
                    );
                }
                items.push(ClassItem::Bound);
                j = j + 1;
            },
            TokenKind::Meta(MetaKind::Negation) => {
                proof {
                    lemma_body_step(
                        tokens@,
                        v,
                        j as int,
                        items@,
                        class_views(nested@),
                        ClassItem::Mem { cp: 0x5E },
                    );
                }
                items.push(ClassItem::Mem { cp: 0x5E });
                j = j + 1;
            },
            TokenKind::Literal(cp) => {
                proof {
                    lemma_body_step(
                        tokens@,
                        v,
                        j as int,
                        items@,
                        class_views(nested@),
                        ClassItem::Mem { cp },
                    );
                }
                items.push(ClassItem::Mem { cp });
                j = j + 1;
            },
            TokenKind::Escape(cp) => {
                proof {
                    lemma_body_step(
                        tokens@,
                        v,
                        j as int,
                        items@,
                        class_views(nested@),
                        ClassItem::Mem { cp },
                    );
                }
                items.push(ClassItem::Mem { cp });
                j = j + 1;
            },
        }
    }
}

/// One plain step of a class body: token `j` contributes the single item
/// `it`, so consuming it moves the prefix one item forward.
proof fn lemma_body_step(
    tokens: Seq<Token>,
    v: bool,
    j: int,
    pre_items: Seq<ClassItem>,
    pre_nested: Seq<ClassView>,
    it: ClassItem,
)
    requires
        0 <= j < tokens.len(),
        parse_body(tokens, v, j) == body_cons(it, parse_body(tokens, v, j + 1)),
    ensures
        body_concat(pre_items, pre_nested, parse_body(tokens, v, j)) == body_concat(
            pre_items.push(it),
            pre_nested,
            parse_body(tokens, v, j + 1),
        ),
{
    match parse_body(tokens, v, j + 1) {
        Some(b) => {
            assert(pre_items + (seq![it] + b.items) =~= pre_items.push(it) + b.items);
        },
        None => {},
    }
}

/// Locates every character class of the token stream and extracts its slot
/// list; classes appear in source order of their opening brackets, each
/// class followed by the classes nested in it. `None` is an unterminated
/// class, after which the pattern is not analyzed.
pub fn extract_classes(tokens: &Vec<Token>, v: bool) -> (r: Option<Vec<CharacterClass>>)
    ensures
        match r {
            Some(cs) => extract_spec(tokens@, v) == Some(class_views(cs@)),
            None => extract_spec(tokens@, v) is None,
        },
{
    let mut out: Vec<CharacterClass> = Vec::new();
    let mut i: usize = 0;
    proof {
        match extract_from(tokens@, v, 0) {
            Some(rest) => {
                assert(Seq::<ClassView>::empty() + rest =~= rest);
            },
            None => {},
        }
        assert(class_views(out@) =~= Seq::<ClassView>::empty());
    }
    while i < tokens.len()
        invariant
            i <= tokens@.len(),
            extract_from(tokens@, v, 0) == (match extract_from(tokens@, v, i as int) {
                None => None::<Seq<ClassView>>,
                Some(rest) => Some(class_views(out@) + rest),
            }),
        decreases tokens@.len() - i,
    {
        if matches!(tokens[i].kind, TokenKind::Meta(MetaKind::ClassOpen)) {
            proof {
                lemma_parse_class_props(tokens@, v, i as int);
            }
            match parse_class_tokens(tokens, v, i) {
                None => {
                    assert(extract_from(tokens@, v, i as int) is None);
                    return None;
                },
                Some((cls, next)) => {
                    proof {
                        let pc = parse_class(tokens@, v, i as int)->Some_0;
                        match extract_from(tokens@, v, next as int) {
                            Some(rest) => {
                                assert(class_views(out@) + (pc.classes + rest) =~= (class_views(
                                    out@,
                                ) + pc.classes) + rest);
                            },
                            None => {},
                        }
                    }
                    let ghost out_snap = out@;
                    let mut cls_vec = cls;
                    let ghost cls_snap = cls_vec@;
                    out.append(&mut cls_vec);
                    proof {
                        assert(class_views(out@) =~= class_views(out_snap) + class_views(
                            cls_snap,
                        ));
                    }
                    i = next;
                },
            }
        } else {
            assert(extract_from(tokens@, v, i as int) == extract_from(tokens@, v, i as int + 1));
            i = i + 1;
        }
    }
    proof {
        assert(extract_from(tokens@, v, i as int) == Some(Seq::<ClassView>::empty()));
        assert(class_views(out@) + Seq::<ClassView>::empty() =~= class_views(out@));
    }
    Some(out)
}

} // verus!
