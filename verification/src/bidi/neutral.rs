//! Neutral and isolate-formatting types for one isolating run sequence
//! (UAX #9 N1, N2).

use vstd::prelude::*;
use super::class::{BidiClass, is_ni_class};

verus! {

/// The direction a class contributes to neighbouring neutrals: `L` for
/// `L`; `R` for `R`, `EN`, `AN` (numbers act as `R`); none otherwise.
pub open spec fn strong_dir_spec(c: BidiClass) -> Option<BidiClass> {
    match c {
        BidiClass::L => Some(BidiClass::L),
        BidiClass::R | BidiClass::EN | BidiClass::AN => Some(BidiClass::R),
        _ => None,
    }
}

/// The direction of `c`, `L` when it has none.
pub open spec fn dir_or_l(c: BidiClass) -> BidiClass {
    match strong_dir_spec(c) {
        Some(d) => d,
        None => BidiClass::L,
    }
}

/// The embedding direction of a level: `L` when even, `R` when odd.
pub open spec fn embedding_dir(level: u8) -> BidiClass {
    if level % 2 == 0 {
        BidiClass::L
    } else {
        BidiClass::R
    }
}

/// Start of the maximal NI run that ends just before `i`.
pub open spec fn ni_run_start(s: Seq<BidiClass>, i: int) -> int
    decreases i,
{
    if i > 0 && is_ni_class(s[i - 1]) {
        ni_run_start(s, i - 1)
    } else {
        i
    }
}

/// End (exclusive) of the maximal NI run that starts at `i`.
pub open spec fn ni_run_end(s: Seq<BidiClass>, i: int) -> int
    decreases s.len() - i,
{
    if 0 <= i < s.len() && is_ni_class(s[i]) {
        ni_run_end(s, i + 1)
    } else {
        i
    }
}

/// The first direction found scanning forward from `k`, `eos_dir` at
/// the end of the sequence.
pub open spec fn right_dir(s: Seq<BidiClass>, k: int, eos_dir: BidiClass) -> BidiClass
    decreases s.len() - k,
{
    if k < 0 || k >= s.len() {
        eos_dir
    } else {
        match strong_dir_spec(s[k]) {
            Some(d) => d,
            None => right_dir(s, k + 1, eos_dir),
        }
    }
}

/// N1 / N2 at position `i`: an NI takes the direction shared by the
/// nearest directional types on both sides of its run (the resolved
/// ones to its left, `sos` / `eos` at the sequence edges), or the
/// embedding direction when they differ; other classes stay.
pub open spec fn n_resolved(
    s: Seq<BidiClass>,
    level: u8,
    sos_dir: BidiClass,
    eos_dir: BidiClass,
    i: int,
) -> BidiClass
    decreases i, 1int,
{
    if i < 0 || i >= s.len() {
        BidiClass::ON
    } else if is_ni_class(s[i]) {
        let st = ni_run_start(s, i);
        if 0 <= st <= i {
            let l = n_left(s, level, sos_dir, eos_dir, st);
            let r = right_dir(s, ni_run_end(s, i), eos_dir);
            if l == r {
                l
            } else {
                embedding_dir(level)
            }
        } else {
            BidiClass::ON
        }
    } else {
        s[i]
    }
}

/// The first direction found scanning the resolved sequence backward
/// from `k - 1`, `sos_dir` at its start.
pub open spec fn n_left(
    s: Seq<BidiClass>,
    level: u8,
    sos_dir: BidiClass,
    eos_dir: BidiClass,
    k: int,
) -> BidiClass
    decreases k, 0int,
{
    if k <= 0 {
        sos_dir
    } else {
        match strong_dir_spec(n_resolved(s, level, sos_dir, eos_dir, k - 1)) {
            Some(d) => d,
            None => n_left(s, level, sos_dir, eos_dir, k - 1),
        }
    }
}

/// N1 + N2 over a whole sequence.
pub open spec fn neutral_spec(s: Seq<BidiClass>, level: u8, sos: BidiClass, eos: BidiClass) -> Seq<
    BidiClass,
> {
    Seq::new(s.len(), |i: int| n_resolved(s, level, dir_or_l(sos), dir_or_l(eos), i))
}

proof fn lemma_ni_run_start(s: Seq<BidiClass>, start: int, k: int)
    requires
        0 <= start <= k <= s.len(),
        start == 0 || !is_ni_class(s[start - 1]),
        forall|j: int| start <= j < k ==> is_ni_class(s[j]),
    ensures
        ni_run_start(s, k) == start,
    decreases k,
{
    if k > start {
        lemma_ni_run_start(s, start, k - 1);
    }
}

proof fn lemma_ni_run_end(s: Seq<BidiClass>, k: int, end: int)
    requires
        0 <= k <= end <= s.len(),
        end == s.len() || !is_ni_class(s[end]),
        forall|j: int| k <= j < end ==> is_ni_class(s[j]),
    ensures
        ni_run_end(s, k) == end,
    decreases end - k,
{
    if k < end {
        lemma_ni_run_end(s, k + 1, end);
    }
}

fn strong_dir(c: BidiClass) -> (r: Option<BidiClass>)
    ensures
        r == strong_dir_spec(c),
{
    match c {
        BidiClass::L => Some(BidiClass::L),
        BidiClass::R | BidiClass::EN | BidiClass::AN => Some(BidiClass::R),
        _ => None,
    }
}

/// Resolve neutral and isolate-formatting types for one isolating run
/// sequence in place per UAX #9 N1 + N2 (§3.3.5): every maximal run of
/// NIs takes the direction of its neighbours when both sides agree
/// (numbers count as `R`; `sos` / `eos` at the edges), else the
/// embedding direction of `embedding_level`. Other classes are left
/// unchanged.
pub fn resolve_neutral_types(
    classes: &mut [BidiClass],
    embedding_level: u8,
    sos: BidiClass,
    eos: BidiClass,
)
    ensures
        final(classes)@ == neutral_spec(old(classes)@, embedding_level, sos, eos),
{
    let ghost s = classes@;
    if classes.len() == 0 {
        assert(classes@ =~= neutral_spec(s, embedding_level, sos, eos));
        return ;
    }
    let sos_dir = match strong_dir(sos) {
        Some(d) => d,
        None => BidiClass::L,
    };
    let eos_dir = match strong_dir(eos) {
        Some(d) => d,
        None => BidiClass::L,
    };
    let embedding_dir_v = if embedding_level % 2 == 0 {
        BidiClass::L
    } else {
        BidiClass::R
    };
    let ghost el = embedding_level;
    let n = classes.len();
    let mut i: usize = 0;
    while i < n
        invariant
            n == classes@.len(),
            s.len() == n,
            i <= n,
            sos_dir == dir_or_l(sos),
            eos_dir == dir_or_l(eos),
            embedding_dir_v == embedding_dir(el),
            el == embedding_level,
            i == 0 || !is_ni_class(s[i - 1]) || i == n || !is_ni_class(s[i as int]),
            forall|k: int| 0 <= k < i ==> classes@[k] == n_resolved(s, el, sos_dir, eos_dir, k),
            forall|k: int| i <= k < n ==> classes@[k] == s[k],
        decreases n - i,
    {
        if !classes[i].is_neutral_or_isolate() {
            i = i + 1;
            continue ;
        }
        let start = i;
        assert(start == 0 || !is_ni_class(s[start - 1]));
        while i < n && classes[i].is_neutral_or_isolate()
            invariant
                n == classes@.len(),
                s.len() == n,
                start <= i <= n,
                start == 0 || !is_ni_class(s[start - 1]),
                forall|k: int| start <= k < i ==> is_ni_class(s[k]),
                forall|k: int| 0 <= k < start ==> classes@[k] == n_resolved(
                    s,
                    el,
                    sos_dir,
                    eos_dir,
                    k,
                ),
                forall|k: int| start <= k < n ==> classes@[k] == s[k],
            decreases n - i,
        {
            i = i + 1;
        }
        let end = i;
        // Left: the nearest direction among the already resolved
        // characters before the run, `sos` at the head.
        let mut left = sos_dir;
        let mut k = start;
        let mut found = false;
        while k > 0 && !found
            invariant
                n == classes@.len(),
                s.len() == n,
                0 <= k <= start <= end <= n,
                forall|j: int| start <= j < n ==> classes@[j] == s[j],
                forall|j: int| start <= j < end ==> is_ni_class(s[j]),
                start == 0 || !is_ni_class(s[start - 1]),
                end == n || !is_ni_class(s[end as int]),
                forall|j: int| 0 <= j < start ==> classes@[j] == n_resolved(
                    s,
                    el,
                    sos_dir,
                    eos_dir,
                    j,
                ),
                found ==> left == n_left(s, el, sos_dir, eos_dir, start as int),
                !found ==> n_left(s, el, sos_dir, eos_dir, start as int) == n_left(
                    s,
                    el,
                    sos_dir,
                    eos_dir,
                    k as int,
                ),
                !found ==> left == sos_dir,
            decreases k,
        {
            k = k - 1;
            assert(classes@[k as int] == n_resolved(s, el, sos_dir, eos_dir, k as int));
            if let Some(d) = strong_dir(classes[k]) {
                left = d;
                found = true;
            }
        }
        // Right: the nearest direction at or after the run's end,
        // `eos` at the tail.
        let mut right = eos_dir;
        let mut m = end;
        let mut found_r = false;
        while m < n && !found_r
            invariant
                n == classes@.len(),
                s.len() == n,
                start <= end <= m <= n,
                forall|j: int| start <= j < n ==> classes@[j] == s[j],
                forall|j: int| 0 <= j < start ==> classes@[j] == n_resolved(
                    s,
                    el,
                    sos_dir,
                    eos_dir,
                    j,
                ),
                forall|j: int| start <= j < end ==> is_ni_class(s[j]),
                start == 0 || !is_ni_class(s[start - 1]),
                end == n || !is_ni_class(s[end as int]),
                left == n_left(s, el, sos_dir, eos_dir, start as int),
                found_r ==> right == right_dir(s, end as int, eos_dir),
                !found_r ==> right_dir(s, end as int, eos_dir) == right_dir(s, m as int, eos_dir),
                !found_r ==> right == eos_dir,
            decreases n - m,
        {
            assert(classes@[m as int] == s[m as int]);
            if let Some(d) = strong_dir(classes[m]) {
                right = d;
                found_r = true;
            }
            m = m + 1;
        }
        let target = if left == right {
            left
        } else {
            embedding_dir_v
        };
        proof {
            assert forall|q: int| start <= q < end implies ni_run_start(s, q) == start
                && ni_run_end(s, q) == end by {
                lemma_ni_run_start(s, start as int, q);
                lemma_ni_run_end(s, q, end as int);
            }
        }
        let mut q = start;
        while q < end
            invariant
                n == classes@.len(),
                s.len() == n,
                start <= q <= end <= n,
                forall|j: int| start <= j < end ==> is_ni_class(s[j]),
                forall|j: int| start <= j < end ==> ni_run_start(s, j) == start,
                forall|j: int| start <= j < end ==> ni_run_end(s, j) == end,
                left == n_left(s, el, sos_dir, eos_dir, start as int),
                right == right_dir(s, end as int, eos_dir),
                target == (if left == right {
                    left
                } else {
                    embedding_dir(el)
                }),
                forall|j: int| 0 <= j < q ==> classes@[j] == n_resolved(
                    s,
                    el,
                    sos_dir,
                    eos_dir,
                    j,
                ),
                forall|j: int| q <= j < n ==> classes@[j] == s[j],
            decreases end - q,
        {
            classes[q] = target;
            q = q + 1;
        }
    }
    assert(classes@ =~= neutral_spec(s, embedding_level, sos, eos));
}

} // verus!
