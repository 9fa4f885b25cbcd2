//! The mode flags of a pattern: whether it runs in unicode-aware mode (`u` or
//! `v`) and whether the unicode-sets syntax (`v` only) is permitted.

use vstd::prelude::*;

verus! {

/// The two mode distinctions that matter to the analysis. `unicode_sets`
/// (flag `v`) implies `unicode_aware` (flag `u` or `v`).
#[derive(Debug, Clone, Copy, PartialEq, Eq, Structural)]
pub struct FlagSet {
    /// Pattern runs in unicode-aware mode: `\u{...}` escapes are decoded and
    /// adjacent `\uXXXX` surrogate escapes are combined.
    pub unicode_aware: bool,
    /// Pattern permits `v`-mode set syntax: nested classes, `--` and `&&`.
    pub unicode_sets: bool,
}

/// The flag set that a flags string denotes: `u` or `v` switches on
/// unicode-aware mode, `v` alone switches on the set syntax.
pub open spec fn spec_flag_set(flags: Seq<char>) -> FlagSet {
    FlagSet {
        unicode_aware: flags.contains('u') || flags.contains('v'),
        unicode_sets: flags.contains('v'),
    }
}

impl FlagSet {
    /// Reads a flags string; only `u` and `v` are significant, every other
    /// character is ignored.
    pub fn from_flags(flags: &str) -> (r: FlagSet)
        ensures
            r == spec_flag_set(flags@),
            r.unicode_sets ==> r.unicode_aware,
    {
        let n = flags.unicode_len();
        let mut has_u = false;
        let mut has_v = false;
        let mut i: usize = 0;
        while i < n
            invariant
                n == flags@.len(),
                0 <= i <= n,
                has_u == flags@.subrange(0, i as int).contains('u'),
                has_v == flags@.subrange(0, i as int).contains('v'),
            decreases n - i,
        {
            let c = flags.get_char(i);
            proof {
                let pre = flags@.subrange(0, i as int);
                let post = flags@.subrange(0, i as int + 1);
                assert(post =~= pre.push(flags@[i as int]));
                if pre.contains('u') {
                    let k = choose|k: int| 0 <= k < pre.len() && pre[k] == 'u';
                    assert(post[k] == 'u');
                }
                if pre.contains('v') {
                    let k = choose|k: int| 0 <= k < pre.len() && pre[k] == 'v';
                    assert(post[k] == 'v');
                }
                if c == 'u' {
                    assert(post[i as int] == 'u');
                }
                if c == 'v' {
                    assert(post[i as int] == 'v');
                }
            }
            if c == 'u' {
                has_u = true;
            }
            if c == 'v' {
                has_v = true;
            }
            i = i + 1;
        }
        proof {
            assert(flags@.subrange(0, n as int) =~= flags@);
        }
        FlagSet { unicode_aware: has_u || has_v, unicode_sets: has_v }
    }
}

} // verus!
