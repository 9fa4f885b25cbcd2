//! The misleading-sequence classifier: scans each class's slot list for a
//! maximal run of adjacent member code points in which some adjacent pair
//! composes, under one of six recognized rules, into a single perceived
//! character. A class with such a run gets one finding; every class is
//! judged independently, nested ones included.

use vstd::prelude::*;

use crate::classes::{class_views, CharacterClass, ClassSlot, ClassView};
use crate::flags::FlagSet;
use crate::token::{
    has_u_escape4, hex4_val, scan_token_spec, Token, TokenKind,
};
use crate::unicode::{
    combined_code_point, combining_code_point, emoji_modifier, high_surrogate,
    is_combining_code_point, is_emoji_modifier, is_surrogate_pair, low_surrogate,
    regional_indicator, surrogate_pair, variation_selector, ZERO_WIDTH_JOINER,
};
use crate::Finding;

verus! {

/// Whether the adjacent members `prev` and `cur`, inside a run of `run_len`
/// members, compose under one of the six rules: an explicit surrogate escape
/// pair (only meaningful without unicode-aware mode, which merges such a
/// pair into one token before it ever reaches the classifier), a combining
/// mark, a variation selector, an emoji skin-tone modifier, a regional
/// indicator pair, or a zero-width-joiner sequence of at least three
/// members.
pub open spec fn pair_matches(prev: u32, cur: u32, unicode_aware: bool, run_len: int) -> bool {
    ||| (!unicode_aware && surrogate_pair(prev, cur))
    ||| combining_code_point(cur)
    ||| variation_selector(cur)
    ||| emoji_modifier(cur)
    ||| (regional_indicator(prev) && regional_indicator(cur))
    ||| ((prev == ZERO_WIDTH_JOINER || cur == ZERO_WIDTH_JOINER) && run_len >= 3)
}

/// A run of adjacent members is offending when it has at least two members
/// and some adjacent pair in it composes.
pub open spec fn run_offending(run: Seq<u32>, unicode_aware: bool) -> bool {
    run.len() >= 2 && exists|k: int|
        0 <= k < run.len() - 1 && #[trigger] pair_matches(
            run[k],
            run[k + 1],
            unicode_aware,
            run.len() as int,
        )
}

/// Scans the slot list from `i` with `run` the members collected since the
/// last adjacency break: a range or boundary slot closes the current run and
/// starts an empty one; the class is offending when any closed run, or the
/// final one, is.
pub open spec fn offending_from(
    slots: Seq<ClassSlot>,
    unicode_aware: bool,
    i: int,
    run: Seq<u32>,
) -> bool
    decreases slots.len() - i,
{
    if i < 0 || i >= slots.len() {
        run_offending(run, unicode_aware)
    } else {
        match slots[i] {
            ClassSlot::Member { cp } => offending_from(slots, unicode_aware, i + 1, run.push(cp)),
            _ => run_offending(run, unicode_aware) || offending_from(
                slots,
                unicode_aware,
                i + 1,
                Seq::empty(),
            ),
        }
    }
}

/// Whether a class with these slots is misleading.
pub open spec fn class_offending(slots: Seq<ClassSlot>, unicode_aware: bool) -> bool {
    offending_from(slots, unicode_aware, 0, Seq::empty())
}

/// One finding per offending class, in class order.
pub open spec fn findings_of(classes: Seq<ClassView>, unicode_aware: bool) -> Seq<Finding>
    decreases classes.len(),
{
    if classes.len() == 0 {
        Seq::empty()
    } else {
        let rest = findings_of(classes.skip(1), unicode_aware);
        if class_offending(classes[0].slots, unicode_aware) {
            seq![Finding { start: classes[0].start, end: classes[0].end }] + rest
        } else {
            rest
        }
    }
}

/// Whether the adjacent pair `(prev, cur)` composes under one of the six
/// rules.
pub fn pair_matches_check(prev: u32, cur: u32, unicode_aware: bool, run_len: usize) -> (r: bool)
    ensures
        r == pair_matches(prev, cur, unicode_aware, run_len as int),
{
    if !unicode_aware && is_surrogate_pair(prev, cur) {
        return true;
    }
    if is_combining_code_point(cur) {
        return true;
    }
    if (cur >= 0xFE00 && cur <= 0xFE0F) || (cur >= 0xE0100 && cur <= 0xE01EF) {
        return true;
    }
    if is_emoji_modifier(cur) {
        return true;
    }
    if prev >= 0x1F1E6 && prev <= 0x1F1FF && cur >= 0x1F1E6 && cur <= 0x1F1FF {
        return true;
    }
    if (prev == 0x200D || cur == 0x200D) && run_len >= 3 {
        return true;
    }
    false
}

/// Whether some adjacent pair of the run composes.
pub fn run_offending_check(run: &Vec<u32>, unicode_aware: bool) -> (r: bool)
    ensures
        r == run_offending(run@, unicode_aware),
{
    let n = run.len();
    if n < 2 {
        return false;
    }
    let mut k: usize = 0;
    while k < n - 1
        invariant
            n == run@.len(),
            2 <= n,
            k <= n - 1,
            forall|m: int|
                0 <= m < k ==> !(#[trigger] pair_matches(
                    run@[m],
                    run@[m + 1],
                    unicode_aware,
                    n as int,
                )),
        decreases n - k,
    {
        if pair_matches_check(run[k], run[k + 1], unicode_aware, n) {
            assert(pair_matches(run@[k as int], run@[k as int + 1], unicode_aware, n as int));
            return true;
        }
        k = k + 1;
    }
    false
}

/// Whether a class with these slots is misleading: scans the slots left to
/// right, collecting runs of adjacent members; ranges and boundaries break a
/// run.
pub fn class_offending_check(slots: &Vec<ClassSlot>, unicode_aware: bool) -> (r: bool)
    ensures
        r == class_offending(slots@, unicode_aware),
{
    let n = slots.len();
    let mut run: Vec<u32> = Vec::new();
    let mut i: usize = 0;
    proof {
        assert(run@ =~= Seq::<u32>::empty());
    }
    while i < n
        invariant
            n == slots@.len(),
            i <= n,
            class_offending(slots@, unicode_aware) == offending_from(
                slots@,
                unicode_aware,
                i as int,
                run@,
            ),
        decreases n - i,
    {
        match slots[i] {
            ClassSlot::Member { cp } => {
                run.push(cp);
                i = i + 1;
            },
            _ => {
                if run_offending_check(&run, unicode_aware) {
                    return true;
                }
                run = Vec::new();
                proof {
                    assert(run@ =~= Seq::<u32>::empty());
                }
                i = i + 1;
            },
        }
    }
    run_offending_check(&run, unicode_aware)
}

/// Judges every class and reports one finding, the class's span, per
/// offending class, in class order.
pub fn collect_findings(classes: &Vec<CharacterClass>, unicode_aware: bool) -> (r: Vec<Finding>)
    ensures
        r@ == findings_of(class_views(classes@), unicode_aware),
{
    let ghost views = class_views(classes@);
    let n = classes.len();
    let mut out: Vec<Finding> = Vec::new();
    let mut i: usize = 0;
    proof {
        assert(views.skip(0) =~= views);
        assert(out@ + findings_of(views, unicode_aware) =~= findings_of(views, unicode_aware));
    }
    while i < n
        invariant
            n == classes@.len(),
            views == class_views(classes@),
            i <= n,
            findings_of(views, unicode_aware) == out@ + findings_of(
                views.skip(i as int),
                unicode_aware,
            ),
        decreases n - i,
    {
        let c = &classes[i];
        let ghost rest = views.skip(i as int);
        proof {
            assert(rest[0] == classes@[i as int]@);
            assert(rest.skip(1) =~= views.skip(i as int + 1));
        }
        if class_offending_check(&c.slots, unicode_aware) {
            let fd = Finding { start: c.start, end: c.end };
            proof {
                assert(findings_of(rest, unicode_aware) == seq![fd] + findings_of(
                    rest.skip(1),
                    unicode_aware,
                ));
                assert(out@ + (seq![fd] + findings_of(rest.skip(1), unicode_aware)) =~= out@.push(
                    fd,
                ) + findings_of(rest.skip(1), unicode_aware));
            }
            out.push(fd);
        } else {
            proof {
                assert(findings_of(rest, unicode_aware) == findings_of(
                    rest.skip(1),
                    unicode_aware,
                ));
            }
        }
        i = i + 1;
    }
    proof {
        assert(findings_of(views.skip(n as int), unicode_aware) =~= Seq::<Finding>::empty());
        assert(out@ + Seq::<Finding>::empty() =~= out@);
    }
    out
}

/// A class containing exactly one member and no ranges or boundaries is
/// never flagged: every composition rule needs an adjacent pair.
pub proof fn lemma_singleton_clean(slots: Seq<ClassSlot>, unicode_aware: bool)
    requires
        slots.len() == 1,
        slots[0] is Member,
    ensures
        !class_offending(slots, unicode_aware),
{
    let cp = slots[0]->Member_cp;
    assert(Seq::<u32>::empty().push(cp) =~= seq![cp]);
    assert(offending_from(slots, unicode_aware, 0, Seq::empty()) == offending_from(
        slots,
        unicode_aware,
        1,
        seq![cp],
    ));
    assert(offending_from(slots, unicode_aware, 1, seq![cp]) == run_offending(
        seq![cp],
        unicode_aware,
    ));
}

/// Two adjacent member code points that compose are flagged, and inserting a
/// range or boundary slot between them makes the class clean: a boundary
/// breaks adjacency, and each singleton run left over is too short for any
/// rule.
pub proof fn lemma_boundary_breaks_adjacency(a: u32, b: u32, sep: ClassSlot, unicode_aware: bool)
    requires
        pair_matches(a, b, unicode_aware, 2),
        !(sep is Member),
    ensures
        class_offending(seq![ClassSlot::Member { cp: a }, ClassSlot::Member { cp: b }],
            unicode_aware),
        !class_offending(
            seq![ClassSlot::Member { cp: a }, sep, ClassSlot::Member { cp: b }],
            unicode_aware,
        ),
{
    let pair = seq![ClassSlot::Member { cp: a }, ClassSlot::Member { cp: b }];
    let empty = Seq::<u32>::empty();
    assert(empty.push(a) =~= seq![a]);
    assert(seq![a].push(b) =~= seq![a, b]);
    assert(offending_from(pair, unicode_aware, 0, empty) == offending_from(
        pair,
        unicode_aware,
        1,
        seq![a],
    ));
    assert(offending_from(pair, unicode_aware, 1, seq![a]) == offending_from(
        pair,
        unicode_aware,
        2,
        seq![a, b],
    ));
    assert(seq![a, b][0] == a && seq![a, b][1] == b);
    assert(pair_matches(seq![a, b][0], seq![a, b][1], unicode_aware, seq![a, b].len() as int));
    assert(run_offending(seq![a, b], unicode_aware));

    let split = seq![ClassSlot::Member { cp: a }, sep, ClassSlot::Member { cp: b }];
    assert(offending_from(split, unicode_aware, 0, empty) == offending_from(
        split,
        unicode_aware,
        1,
        seq![a],
    ));
    assert(!run_offending(seq![a], unicode_aware));
    assert(offending_from(split, unicode_aware, 1, seq![a]) == (run_offending(
        seq![a],
        unicode_aware,
    ) || offending_from(split, unicode_aware, 2, empty)));
    assert(empty.push(b) =~= seq![b]);
    assert(offending_from(split, unicode_aware, 2, empty) == offending_from(
        split,
        unicode_aware,
        3,
        seq![b],
    ));
    assert(!run_offending(seq![b], unicode_aware));
}

/// Mode sensitivity of explicit surrogate escape pairs: where a `\uXXXX`
/// high-surrogate escape is immediately followed by a `\uXXXX` low-surrogate
/// escape, the tokenizer in unicode-aware mode merges the two escapes into
/// one member token carrying the combined code point, which a class cannot
/// be flagged for on its own; without unicode-aware mode the escapes stay
/// two adjacent members, and such a pair always flags its run.
pub proof fn lemma_surrogate_pair_mode(p: Seq<char>, f: FlagSet, i: int, hi: u32, lo: u32)
    requires
        0 <= i,
        i + 12 <= p.len(),
        has_u_escape4(p, i),
        hex4_val(p, i + 2) == hi,
        high_surrogate(hi),
        has_u_escape4(p, i + 6),
        hex4_val(p, i + 8) == lo,
        low_surrogate(lo),
    ensures
        f.unicode_aware ==> scan_token_spec(p, f, i) == Some(
            Token {
                kind: TokenKind::Escape(combined_code_point(hi, lo)),
                start: i as usize,
                end: (i + 12) as usize,
            },
        ),
        !f.unicode_aware ==> scan_token_spec(p, f, i) == Some(
            Token { kind: TokenKind::Escape(hi), start: i as usize, end: (i + 6) as usize },
        ),
        class_offending(
            seq![ClassSlot::Member { cp: hi }, ClassSlot::Member { cp: lo }],
            false,
        ),
        !class_offending(
            seq![ClassSlot::Member { cp: combined_code_point(hi, lo) }],
            f.unicode_aware,
        ),
{
    assert(p[i + 2] != '{');
    assert(pair_matches(hi, lo, false, 2));
    lemma_boundary_breaks_adjacency(hi, lo, ClassSlot::Boundary, false);
    lemma_singleton_clean(
        seq![ClassSlot::Member { cp: combined_code_point(hi, lo) }],
        f.unicode_aware,
    );
}

} // verus!
