//! Line-level rules: trailing whitespace reset (UAX #9 L1) and the
//! visual reordering permutation (L2).

use vstd::prelude::*;
use super::class::BidiClass;

verus! {

/// The whitespace and isolate formatting classes L1 resets when they
/// trail a line or precede a separator.
pub open spec fn is_l1_filler_spec(c: BidiClass) -> bool {
    c is WS || c is LRI || c is RLI || c is FSI || c is PDI
}

/// End (exclusive) of the maximal run of L1 fillers starting at `i`.
pub open spec fn filler_run_end(s: Seq<BidiClass>, i: int) -> int
    decreases s.len() - i,
{
    if 0 <= i < s.len() && is_l1_filler_spec(s[i]) {
        filler_run_end(s, i + 1)
    } else {
        i
    }
}

/// L1: position `i` is reset to the paragraph level when it is a
/// segment or paragraph separator, or belongs to a run of whitespace /
/// isolate formatting that ends at such a separator or at the end of
/// the line.
pub open spec fn l1_resets(s: Seq<BidiClass>, i: int) -> bool {
    ||| s[i] is S
    ||| s[i] is B
    ||| is_l1_filler_spec(s[i]) && ({
        let e = filler_run_end(s, i);
        e == s.len() || s[e] is S || s[e] is B
    })
}

/// Whether `c` is one of the L1 fillers: `WS`, `LRI`, `RLI`, `FSI`,
/// `PDI`.
pub fn is_l1_trailing_filler(c: BidiClass) -> (r: bool)
    ensures
        r == is_l1_filler_spec(c),
{
    matches!(c, BidiClass::WS | BidiClass::LRI | BidiClass::RLI | BidiClass::FSI | BidiClass::PDI)
}

proof fn lemma_filler_run_end(s: Seq<BidiClass>, k: int, end: int)
    requires
        0 <= k <= end <= s.len(),
        end == s.len() || !is_l1_filler_spec(s[end]),
        forall|j: int| k <= j < end ==> is_l1_filler_spec(s[j]),
    ensures
        filler_run_end(s, k) == end,
    decreases end - k,
{
    if k < end {
        lemma_filler_run_end(s, k + 1, end);
    }
}

proof fn lemma_filler_run_end_bounds(s: Seq<BidiClass>, k: int)
    requires
        0 <= k <= s.len(),
    ensures
        k <= filler_run_end(s, k) <= s.len(),
        filler_run_end(s, k) == s.len() || !is_l1_filler_spec(s[filler_run_end(s, k)]),
        forall|j: int| k <= j < filler_run_end(s, k) ==> is_l1_filler_spec(s[j]),
    decreases s.len() - k,
{
    if k < s.len() && is_l1_filler_spec(s[k]) {
        lemma_filler_run_end_bounds(s, k + 1);
    }
}

/// The levels of one line after L1: `pl` where [`l1_resets`] holds over
/// the original classes `cls`, the level from `lv` elsewhere.
pub open spec fn l1_levels(cls: Seq<BidiClass>, lv: Seq<u8>, pl: u8) -> Seq<u8> {
    Seq::new(
        lv.len(),
        |i: int|
            if l1_resets(cls, i) {
                pl
            } else {
                lv[i]
            },
    )
}

/// Apply UAX #9 §3.4 rule L1 to one line in place: every position
/// [`l1_resets`] names (over the original classes `orig_classes`) takes
/// `paragraph_level`; every other level is left as it was.
pub fn reset_trailing_levels(orig_classes: &[BidiClass], levels: &mut [u8], paragraph_level: u8)
    requires
        orig_classes@.len() == old(levels)@.len(),
    ensures
        final(levels)@ == l1_levels(orig_classes@, old(levels)@, paragraph_level),
        final(levels)@.len() == old(levels)@.len(),
        forall|i: int|
            0 <= i < orig_classes@.len() ==> final(levels)@[i] == if l1_resets(orig_classes@, i) {
                paragraph_level
            } else {
                old(levels)@[i]
            },
{
    let ghost s = orig_classes@;
    let ghost old_levels = levels@;
    let n = orig_classes.len();
    if n == 0 {
        assert(levels@ =~= l1_levels(s, old_levels, paragraph_level));
        return ;
    }
    for i in 0..n
        invariant
            n == orig_classes@.len(),
            s == orig_classes@,
            levels@.len() == n,
            old_levels.len() == n,
            forall|p: int|
                0 <= p < n ==> levels@[p] == if p < i && (s[p] is S || s[p] is B || (
                is_l1_filler_spec(s[p]) && filler_run_end(s, p) < i && (s[filler_run_end(s, p)] is S
                    || s[filler_run_end(s, p)] is B))) {
                    paragraph_level
                } else {
                    old_levels[p]
                },
    {
        let cls = orig_classes[i];
        if matches!(cls, BidiClass::S | BidiClass::B) {
            levels[i] = paragraph_level;
            let mut j = i;
            while j > 0 && is_l1_trailing_filler(orig_classes[j - 1])
                invariant
                    n == orig_classes@.len(),
                    s == orig_classes@,
                    levels@.len() == n,
                    old_levels.len() == n,
                    0 <= j <= i < n,
                    s[i as int] is S || s[i as int] is B,
                    forall|q: int| j <= q < i ==> is_l1_filler_spec(s[q]),
                    forall|p: int|
                        0 <= p < n ==> levels@[p] == if (p < i && (s[p] is S || s[p] is B || (
                        is_l1_filler_spec(s[p]) && filler_run_end(s, p) < i && (s[filler_run_end(
                            s,
                            p,
                        )] is S || s[filler_run_end(s, p)] is B)))) || p == i || (j <= p
                            < i) {
                            paragraph_level
                        } else {
                            old_levels[p]
                        },
                decreases j,
            {
                j = j - 1;
                levels[j] = paragraph_level;
            }
            proof {
                assert forall|p: int| j <= p < i implies filler_run_end(s, p) == i by {
                    lemma_filler_run_end(s, p, i as int);
                }
                assert forall|p: int| 0 <= p < n implies levels@[p] == if p < i + 1 && (s[p] is S
                    || s[p] is B || (is_l1_filler_spec(s[p]) && filler_run_end(s, p) < i + 1 && (
                s[filler_run_end(s, p)] is S || s[filler_run_end(s, p)] is B))) {
                    paragraph_level
                } else {
                    old_levels[p]
                } by {
                    if 0 <= p < i && is_l1_filler_spec(s[p]) {
                        lemma_filler_run_end_bounds(s, p);
                        if filler_run_end(s, p) == i {
                            if p < j {
                                // p's run reaches i, so p is in [j, i): the
                                // walk stopped at a non-filler before p.
                                assert(j > 0 && !is_l1_filler_spec(s[j - 1]));
                                assert(is_l1_filler_spec(s[j - 1]));
                            }
                        }
                    }
                }
            }
        } else {
            proof {
                assert forall|p: int| 0 <= p < n implies levels@[p] == if p < i + 1 && (s[p] is S
                    || s[p] is B || (is_l1_filler_spec(s[p]) && filler_run_end(s, p) < i + 1 && (
                s[filler_run_end(s, p)] is S || s[filler_run_end(s, p)] is B))) {
                    paragraph_level
                } else {
                    old_levels[p]
                } by {
                    if 0 <= p < i && is_l1_filler_spec(s[p]) {
                        lemma_filler_run_end_bounds(s, p);
                    }
                    if p == i && is_l1_filler_spec(s[p]) {
                        lemma_filler_run_end_bounds(s, p);
                    }
                }
            }
        }
    }
    let mut k = n;
    while k > 0 && is_l1_trailing_filler(orig_classes[k - 1])
        invariant
            n == orig_classes@.len(),
            s == orig_classes@,
            levels@.len() == n,
            old_levels.len() == n,
            0 <= k <= n,
            forall|q: int| k <= q < n ==> is_l1_filler_spec(s[q]),
            forall|p: int|
                0 <= p < n ==> levels@[p] == if (s[p] is S || s[p] is B || (is_l1_filler_spec(s[p])
                    && filler_run_end(s, p) < n && (s[filler_run_end(s, p)] is S || s[filler_run_end(
                    s,
                    p,
                )] is B))) || k <= p {
                    paragraph_level
                } else {
                    old_levels[p]
                },
        decreases k,
    {
        k = k - 1;
        levels[k] = paragraph_level;
    }
    proof {
        assert forall|p: int| 0 <= p < n implies levels@[p] == if l1_resets(s, p) {
            paragraph_level
        } else {
            old_levels[p]
        } by {
            if is_l1_filler_spec(s[p]) {
                lemma_filler_run_end_bounds(s, p);
                if k <= p {
                    lemma_filler_run_end(s, p, n as int);
                }
                if filler_run_end(s, p) == n && p < k {
                    assert(k > 0 && !is_l1_filler_spec(s[k - 1]));
                    assert(is_l1_filler_spec(s[k - 1]));
                }
            }
        }
        assert(levels@ =~= l1_levels(s, old_levels, paragraph_level));
    }
}

} // verus!
