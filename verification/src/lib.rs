//! Detection of misleading character classes in regular-expression patterns.
//!
//! A bracketed character class (`[...]`) matches exactly one of its listed
//! code points, yet a user can place a glyph inside it that is rendered as a
//! single character while consisting of several separately-matchable code
//! points (a base letter plus a combining mark, an emoji flag made of two
//! regional indicators, and so on). This crate turns a pattern's source text
//! into code-point tokens, extracts each character class's members, and
//! reports the classes whose adjacent members compose into one perceived
//! character.

use vstd::prelude::*;

pub mod classes;
pub mod classify;
pub mod flags;
pub mod token;
pub mod unicode;

use crate::classes::extract_spec;
use crate::classify::{collect_findings, findings_of};
use crate::flags::{spec_flag_set, FlagSet};
use crate::token::tokenize_spec;

verus! {

/// A half-open span of code-point indices into the analyzed pattern text.
/// A finding marks the full span of one misleading character class.
#[derive(Debug, Clone, Copy, PartialEq, Eq, Structural)]
pub struct Finding {
    pub start: usize,
    pub end: usize,
}

/// The analysis of one pattern: its findings in class order, or `None` when
/// the pattern could not be analyzed (a malformed escape or an unterminated
/// class), in which case nothing is reported rather than a wrong finding.
pub open spec fn analysis_spec(p: Seq<char>, f: FlagSet) -> Option<Seq<Finding>> {
    match tokenize_spec(p, f) {
        None => None,
        Some(toks) => match extract_spec(toks, f.unicode_sets) {
            None => None,
            Some(cs) => Some(findings_of(cs, f.unicode_aware)),
        },
    }
}

/// The analysis is deterministic: the same pattern text and flags always
/// yield the identical findings.
pub proof fn lemma_analysis_deterministic(
    p: Seq<char>,
    f: FlagSet,
    r1: Option<Seq<Finding>>,
    r2: Option<Seq<Finding>>,
)
    requires
        r1 == analysis_spec(p, f),
        r2 == analysis_spec(p, f),
    ensures
        r1 == r2,
{
}

/// The code points of a text, in order.
pub fn text_code_points(s: &str) -> (r: Vec<char>)
    ensures
        r@ == s@,
{
    let n = s.unicode_len();
    let mut r: Vec<char> = Vec::new();
    let mut i: usize = 0;
    proof {
        assert(r@ =~= s@.subrange(0, 0));
    }
    while i < n
        invariant
            n == s@.len(),
            i <= n,
            r@ == s@.subrange(0, i as int),
        decreases n - i,
    {
        let c = s.get_char(i);
        proof {
            assert(s@.subrange(0, i as int + 1) =~= s@.subrange(0, i as int).push(s@[i as int]));
        }
        r.push(c);
        i = i + 1;
    }
    proof {
        assert(s@.subrange(0, n as int) =~= s@);
    }
    r
}

/// Analyzes one pattern, given as its code points, under the given flags.
/// `Some` carries one finding per misleading class, in source order of the
/// classes' opening brackets; `None` says the pattern could not be analyzed.
pub fn analyze_pattern(p: &Vec<char>, f: FlagSet) -> (r: Option<Vec<Finding>>)
    ensures
        match r {
            Some(fs) => analysis_spec(p@, f) == Some(fs@),
            None => analysis_spec(p@, f) is None,
        },
{
    match crate::token::tokenize(p, f) {
        None => None,
        Some(toks) => match crate::classes::extract_classes(&toks, f.unicode_sets) {
            None => None,
            Some(cs) => Some(collect_findings(&cs, f.unicode_aware)),
        },
    }
}

/// Disallows characters made of multiple code points inside character class
/// syntax, where the class silently matches any one of the parts instead of
/// the glyph.
#[derive(Debug, Default, Clone)]
pub struct NoMisleadingCharacterClass;

impl NoMisleadingCharacterClass {
    /// Analyzes the pattern text of one regular expression under its flags
    /// string. Finding spans are code-point indices into `pattern`; a caller
    /// that took the pattern out of a larger source maps them back by adding
    /// its own span base.
    pub fn run(&self, pattern: &str, flags: &str) -> (r: Option<Vec<Finding>>)
        ensures
            ({
                let f = spec_flag_set(flags@);
                match r {
                    Some(fs) => analysis_spec(pattern@, f) == Some(fs@),
                    None => analysis_spec(pattern@, f) is None,
                }
            }),
    {
        let f = FlagSet::from_flags(flags);
        let chars = text_code_points(pattern);
        analyze_pattern(&chars, f)
    }
}

} // verus!
