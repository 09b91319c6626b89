//! Isolating run sequences (UAX #9 BD13, X10).

use vstd::prelude::*;
use super::class::{BidiClass, is_isolate_initiator_class};
use super::explicit::ExplicitLevels;
use super::paragraph::{matching_pdi, matching_pdi_spec, pdi_search, lemma_pdi_search_bounds};
use super::runs::{
    LevelRun,
    level_runs,
    level_runs_spec,
    is_level_run_partition,
    lemma_level_runs_partition,
};

verus! {

/// The last position in `lo..hi` that X9 keeps (`rm` holds the removal
/// flags).
pub open spec fn last_kept(rm: Seq<bool>, lo: int, hi: int) -> Option<int>
    decreases hi - lo,
{
    if hi <= lo {
        None
    } else if !rm[hi - 1] {
        Some(hi - 1)
    } else {
        last_kept(rm, lo, hi - 1)
    }
}

/// The first position in `lo..hi` that X9 keeps.
pub open spec fn first_kept(rm: Seq<bool>, lo: int, hi: int) -> Option<int>
    decreases hi - lo,
{
    if hi <= lo {
        None
    } else if !rm[lo] {
        Some(lo)
    } else {
        first_kept(rm, lo + 1, hi)
    }
}

/// The index of the level run that begins at position `p`, if any.
pub open spec fn run_starting_at(runs: Seq<LevelRun>, p: int) -> Option<int> {
    if exists|q: int| 0 <= q < runs.len() && runs[q].start == p {
        Some(choose|q: int| 0 <= q < runs.len() && runs[q].start == p)
    } else {
        None
    }
}

/// BD13: the level run that follows run `r` in its isolating run
/// sequence. It exists when the last character of `r` that X9 keeps is
/// an isolate initiator whose matching PDI begins a level run.
pub open spec fn next_run(s: Seq<BidiClass>, rm: Seq<bool>, runs: Seq<LevelRun>, r: int) -> Option<
    int,
> {
    match last_kept(rm, runs[r].start as int, runs[r].end as int) {
        Some(j) => if is_isolate_initiator_class(s[j]) {
            match matching_pdi_spec(s, j) {
                Some(p) => run_starting_at(runs, p),
                None => None,
            }
        } else {
            None
        },
        None => None,
    }
}

/// Run `q` continues some earlier run's sequence, so it cannot start
/// one.
pub open spec fn is_chained(s: Seq<BidiClass>, rm: Seq<bool>, runs: Seq<LevelRun>, q: int) -> bool {
    exists|r: int| 0 <= r < runs.len() && next_run(s, rm, runs, r) == Some(q)
}

/// The run indices of the isolating run sequence that starts with run
/// `r`, following [`next_run`] links.
pub open spec fn chain_ids(s: Seq<BidiClass>, rm: Seq<bool>, runs: Seq<LevelRun>, r: int) -> Seq<
    int,
>
    decreases runs.len() - r,
{
    if r < 0 || r >= runs.len() {
        Seq::empty()
    } else {
        match next_run(s, rm, runs, r) {
            Some(q) => if r < q {
                seq![r] + chain_ids(s, rm, runs, q)
            } else {
                seq![r]
            },
            None => seq![r],
        }
    }
}

/// The level runs of the isolating run sequence that starts with run
/// `seed`.
pub open spec fn seq_runs(s: Seq<BidiClass>, rm: Seq<bool>, runs: Seq<LevelRun>, seed: int) -> Seq<
    LevelRun,
> {
    chain_ids(s, rm, runs, seed).map_values(|i: int| runs[i])
}

/// The runs among the first `k` that start an isolating run sequence,
/// in increasing order.
pub open spec fn seeds_upto(s: Seq<BidiClass>, rm: Seq<bool>, runs: Seq<LevelRun>, k: int) -> Seq<
    int,
>
    decreases k,
{
    if k <= 0 {
        Seq::empty()
    } else if is_chained(s, rm, runs, k - 1) {
        seeds_upto(s, rm, runs, k - 1)
    } else {
        seeds_upto(s, rm, runs, k - 1).push(k - 1)
    }
}

/// The runs that start an isolating run sequence.
pub open spec fn seeds(s: Seq<BidiClass>, rm: Seq<bool>, runs: Seq<LevelRun>) -> Seq<int> {
    seeds_upto(s, rm, runs, runs.len() as int)
}

/// X10 step 2: `R` when the higher level is odd, `L` otherwise.
pub open spec fn level_dir(level: int) -> BidiClass {
    if level % 2 == 0 {
        BidiClass::L
    } else {
        BidiClass::R
    }
}

/// The larger of two levels.
pub open spec fn max_level_of(a: u8, b: u8) -> u8 {
    if a < b {
        b
    } else {
        a
    }
}

/// X10 step 2, `sos`: compare the sequence level with the level of the
/// last kept character before the sequence (the paragraph level at the
/// paragraph start).
pub open spec fn sos_of(lv: Seq<u8>, rm: Seq<bool>, pl: u8, first: int, level: u8) -> BidiClass {
    let other = match last_kept(rm, 0, first) {
        Some(i) => lv[i],
        None => pl,
    };
    level_dir(max_level_of(other, level) as int)
}

/// X10 step 2, `eos`: compare the sequence level with the level of the
/// first kept character after the sequence, or the paragraph level at
/// the paragraph end or after an isolate initiator without a matching
/// PDI.
pub open spec fn eos_of(
    s: Seq<BidiClass>,
    lv: Seq<u8>,
    rm: Seq<bool>,
    pl: u8,
    last: LevelRun,
    level: u8,
) -> BidiClass {
    let unmatched = match last_kept(rm, last.start as int, last.end as int) {
        Some(j) => is_isolate_initiator_class(s[j]) && matching_pdi_spec(s, j) is None,
        None => false,
    };
    let other = if unmatched {
        pl
    } else {
        match first_kept(rm, last.end as int, lv.len() as int) {
            Some(i) => lv[i],
            None => pl,
        }
    };
    level_dir(max_level_of(other, level) as int)
}

pub(crate) proof fn lemma_last_kept(rm: Seq<bool>, lo: int, hi: int)
    ensures
        last_kept(rm, lo, hi) matches Some(j) ==> lo <= j < hi && !rm[j],
    decreases hi - lo,
{
    if hi > lo {
        lemma_last_kept(rm, lo, hi - 1);
    }
}

proof fn lemma_first_kept(rm: Seq<bool>, lo: int, hi: int)
    ensures
        first_kept(rm, lo, hi) matches Some(j) ==> lo <= j < hi && !rm[j],
    decreases hi - lo,
{
    if hi > lo {
        lemma_first_kept(rm, lo + 1, hi);
    }
}

proof fn lemma_run_before(lv: Seq<u8>, runs: Seq<LevelRun>, a: int, b: int)
    requires
        is_level_run_partition(lv, runs),
        0 <= a < b < runs.len(),
    ensures
        runs[a].end <= runs[b].start,
    decreases b - a,
{
    assert(runs[b - 1].end == runs[b].start);
    assert(runs[b - 1].start < runs[b - 1].end);
    if b > a + 1 {
        lemma_run_before(lv, runs, a, b - 1);
    }
}

/// Level runs appear in position order.
proof fn lemma_runs_ordered(lv: Seq<u8>, runs: Seq<LevelRun>)
    requires
        is_level_run_partition(lv, runs),
    ensures
        forall|a: int, b: int|
            0 <= a < b < runs.len() ==> #[trigger] runs[a].end <= #[trigger] runs[b].start,
{
    assert forall|a: int, b: int| 0 <= a < b < runs.len() implies #[trigger] runs[a].end
        <= #[trigger] runs[b].start by {
        lemma_run_before(lv, runs, a, b);
    }
}

/// A run that begins at `p` is the run holding `p`.
proof fn lemma_run_starting_at(lv: Seq<u8>, runs: Seq<LevelRun>, p: int, k: int)
    requires
        is_level_run_partition(lv, runs),
        0 <= k < runs.len(),
        runs[k].start <= p < runs[k].end,
    ensures
        run_starting_at(runs, p) == if runs[k].start == p {
            Some(k)
        } else {
            None::<int>
        },
{
    lemma_runs_ordered(lv, runs);
    assert(runs[k].start < runs[k].end);
    if runs[k].start == p {
        let q = choose|q: int| 0 <= q < runs.len() && runs[q].start == p;
        assert(0 <= q < runs.len() && runs[q].start == p);
        if q < k {
            assert(runs[q].start < runs[q].end);
        } else if q > k {
        }
    } else {
        if exists|q: int| 0 <= q < runs.len() && runs[q].start == p {
            let q = choose|q: int| 0 <= q < runs.len() && runs[q].start == p;
            assert(runs[q].start < runs[q].end);
            if q < k {
            } else if q > k {
            }
        }
    }
}

/// BD9: while the search has not reached its matching PDI, it is still
/// inside at least one open isolate.
proof fn lemma_search_depth_at(s: Seq<BidiClass>, k: int, d: int, m: int, p: int) -> (e: int)
    requires
        0 <= k <= m < p,
        d >= 1,
        pdi_search(s, k, d) == Some(p),
    ensures
        e >= 1,
        pdi_search(s, m, e) == Some(p),
    decreases m - k,
{
    if k == m {
        d
    } else {
        lemma_pdi_search_bounds(s, k, d);
        if is_isolate_initiator_class(s[k]) {
            lemma_search_depth_at(s, k + 1, d + 1, m, p)
        } else if s[k] is PDI {
            lemma_search_depth_at(s, k + 1, d - 1, m, p)
        } else {
            lemma_search_depth_at(s, k + 1, d, m, p)
        }
    }
}

/// BD9: closing `e + d` isolates means closing `e` of them and then the
/// other `d`.
proof fn lemma_search_compose(s: Seq<BidiClass>, k: int, e: int, d: int)
    requires
        e >= 1,
        d >= 1,
    ensures
        pdi_search(s, k, e + d) == match pdi_search(s, k, e) {
            Some(p) => pdi_search(s, p + 1, d),
            None => None,
        },
    decreases s.len() - k,
{
    if 0 <= k < s.len() {
        if is_isolate_initiator_class(s[k]) {
            lemma_search_compose(s, k + 1, e + 1, d);
        } else if s[k] is PDI {
            if e > 1 {
                lemma_search_compose(s, k + 1, e - 1, d);
            }
        } else {
            lemma_search_compose(s, k + 1, e, d);
        }
    }
}

/// BD9: two isolate initiators never share a matching PDI.
proof fn lemma_matching_pdi_injective(s: Seq<BidiClass>, a: int, b: int)
    requires
        0 <= a < b < s.len(),
        is_isolate_initiator_class(s[b]),
        matching_pdi_spec(s, a) is Some,
    ensures
        matching_pdi_spec(s, a) != matching_pdi_spec(s, b),
{
    if matching_pdi_spec(s, a) == matching_pdi_spec(s, b) {
        let p = matching_pdi_spec(s, b)->0;
        lemma_pdi_search_bounds(s, b + 1, 1);
        let e = lemma_search_depth_at(s, a + 1, 1, b, p);
        lemma_search_compose(s, b + 1, 1, e);
        lemma_pdi_search_bounds(s, p + 1, e);
    }
}

/// A sequence link points forward to a later run.
pub(crate) proof fn lemma_next_run_forward(s: Seq<BidiClass>, lv: Seq<u8>, rm: Seq<bool>, r: int)
    requires
        s.len() == lv.len(),
        lv.len() <= usize::MAX,
        0 <= r < level_runs_spec(lv).len(),
    ensures
        next_run(s, rm, level_runs_spec(lv), r) matches Some(q) ==> r < q < level_runs_spec(
            lv,
        ).len(),
{
    let runs = level_runs_spec(lv);
    lemma_level_runs_partition(lv);
    lemma_runs_ordered(lv, runs);
    let lk = last_kept(rm, runs[r].start as int, runs[r].end as int);
    lemma_last_kept(rm, runs[r].start as int, runs[r].end as int);
    if let Some(j) = lk {
        lemma_pdi_search_bounds(s, j + 1, 1);
        if let Some(q) = next_run(s, rm, runs, r) {
            let p = matching_pdi_spec(s, j)->0;
            assert(runs[q].start == p);
            if q <= r {
                if q < r {
                    assert(runs[q].end <= runs[r].start);
                    assert(runs[q].start < runs[q].end);
                }
            }
        }
    }
}

/// Distinct runs never link to the same run.
proof fn lemma_next_run_injective(s: Seq<BidiClass>, lv: Seq<u8>, rm: Seq<bool>, a: int, b: int)
    requires
        s.len() == lv.len(),
        lv.len() <= usize::MAX,
        0 <= a < b < level_runs_spec(lv).len(),
        next_run(s, rm, level_runs_spec(lv), a) is Some,
    ensures
        next_run(s, rm, level_runs_spec(lv), a) != next_run(s, rm, level_runs_spec(lv), b),
{
    let runs = level_runs_spec(lv);
    lemma_level_runs_partition(lv);
    lemma_runs_ordered(lv, runs);
    lemma_last_kept(rm, runs[a].start as int, runs[a].end as int);
    lemma_last_kept(rm, runs[b].start as int, runs[b].end as int);
    if next_run(s, rm, runs, a) == next_run(s, rm, runs, b) {
        let ja = last_kept(rm, runs[a].start as int, runs[a].end as int)->0;
        let jb = last_kept(rm, runs[b].start as int, runs[b].end as int)->0;
        let q = next_run(s, rm, runs, a)->0;
        let pa = matching_pdi_spec(s, ja)->0;
        let pb = matching_pdi_spec(s, jb)->0;
        assert(runs[q].start == pa);
        assert(runs[q].start == pb);
        assert(runs[a].end <= runs[b].start);
        lemma_matching_pdi_injective(s, ja, jb);
    }
}

/// The positions in `lo..hi` that X9 keeps, in order.
pub open spec fn kept_in(rm: Seq<bool>, lo: int, hi: int) -> Seq<usize>
    decreases hi - lo,
{
    if hi <= lo {
        Seq::empty()
    } else if rm[hi - 1] {
        kept_in(rm, lo, hi - 1)
    } else {
        kept_in(rm, lo, hi - 1).push((hi - 1) as usize)
    }
}

/// The positions of `runs`, run after run, that X9 keeps.
pub open spec fn kept_positions(rm: Seq<bool>, runs: Seq<LevelRun>) -> Seq<usize>
    decreases runs.len(),
{
    if runs.len() == 0 {
        Seq::empty()
    } else {
        kept_positions(rm, runs.drop_last()) + kept_in(
            rm,
            runs.last().start as int,
            runs.last().end as int,
        )
    }
}

/// An `Option<usize>` read as an `Option<int>`.
pub open spec fn opt_int(o: Option<usize>) -> Option<int> {
    match o {
        Some(x) => Some(x as int),
        None => None,
    }
}

/// One isolating run sequence (BD13) with its X10 step 2 `sos` and
/// `eos`: the level runs it chains across matched isolate initiators
/// and PDIs, their shared level, and the directional types at either
/// end (`L` or `R`).
#[derive(Debug, Clone, PartialEq, Eq)]
pub struct IsolatingRunSequence {
    /// Constituent level runs in logical order; never empty.
    pub runs: Vec<LevelRun>,
    /// Embedding level of the sequence.
    pub level: u8,
    /// Start-of-sequence type, `L` or `R`.
    pub sos: BidiClass,
    /// End-of-sequence type, `L` or `R`.
    pub eos: BidiClass,
}

/// `q` is the isolating run sequence of the paragraph (classes `s`,
/// levels `lv`, removal flags `rm`, paragraph level `pl`) that starts
/// with level run `seed`.
pub open spec fn is_sequence_of(
    s: Seq<BidiClass>,
    lv: Seq<u8>,
    rm: Seq<bool>,
    pl: u8,
    seed: int,
    q: IsolatingRunSequence,
) -> bool {
    let runs = level_runs_spec(lv);
    &&& q.runs@ == seq_runs(s, rm, runs, seed)
    &&& q.level == runs[seed].level
    &&& q.sos == sos_of(lv, rm, pl, runs[seed].start as int, runs[seed].level)
    &&& q.eos == eos_of(s, lv, rm, pl, runs[chain_ids(s, rm, runs, seed).last()], runs[seed].level)
}

/// The runs of a sequence are well formed and lie inside `removed`.
pub open spec fn runs_within(runs: Seq<LevelRun>, n: int) -> bool {
    forall|k: int| 0 <= k < runs.len() ==> (#[trigger] runs[k]).start <= runs[k].end <= n
}

impl IsolatingRunSequence {
    pub(crate) fn kept_indices(&self, removed: &[bool]) -> (r: Vec<usize>)
        requires
            runs_within(self.runs@, removed@.len() as int),
        ensures
            r@ == kept_positions(removed@, self.runs@),
    {
        let mut out: Vec<usize> = Vec::new();
        let nr = self.runs.len();
        for k in 0..nr
            invariant
                nr == self.runs@.len(),
                runs_within(self.runs@, removed@.len() as int),
                out@ == kept_positions(removed@, self.runs@.take(k as int)),
        {
            let r = self.runs[k];
            let ghost base = out@;
            assert(self.runs@.take(k + 1).drop_last() =~= self.runs@.take(k as int));
            for i in r.start..r.end
                invariant
                    r.end <= removed@.len(),
                    out@ == base + kept_in(removed@, r.start as int, i as int),
            {
                if !removed[i] {
                    out.push(i);
                }
                assert(out@ =~= base + kept_in(removed@, r.start as int, i + 1));
            }
        }
        assert(self.runs@.take(nr as int) =~= self.runs@);
        out
    }

    /// The character positions of this sequence in logical order,
    /// skipping the positions that X9 removes (`removed[i]`).
    pub fn indices(&self, removed: &[bool]) -> (r: std::vec::IntoIter<usize>)
        requires
            runs_within(self.runs@, removed@.len() as int),
        ensures
            vstd::std_specs::vec::into_iter_elts(r) == kept_positions(removed@, self.runs@),
    {
        let v = self.kept_indices(removed);
        v.into_iter()
    }
}

fn level_to_sos_eos(level: u8) -> (r: BidiClass)
    ensures
        r == level_dir(level as int),
{
    if level % 2 == 0 {
        BidiClass::L
    } else {
        BidiClass::R
    }
}

fn last_kept_index(removed: &[bool], lo: usize, hi: usize) -> (r: Option<usize>)
    requires
        lo <= hi <= removed@.len(),
    ensures
        opt_int(r) == last_kept(removed@, lo as int, hi as int),
{
    let mut i = hi;
    while i > lo
        invariant
            lo <= i <= hi <= removed@.len(),
            last_kept(removed@, lo as int, hi as int) == last_kept(removed@, lo as int, i as int),
        decreases i - lo,
    {
        if !removed[i - 1] {
            return Some(i - 1);
        }
        i = i - 1;
    }
    None
}

fn first_kept_index(removed: &[bool], lo: usize, hi: usize) -> (r: Option<usize>)
    requires
        lo <= hi <= removed@.len(),
    ensures
        opt_int(r) == first_kept(removed@, lo as int, hi as int),
{
    let mut i = lo;
    while i < hi
        invariant
            lo <= i <= hi <= removed@.len(),
            first_kept(removed@, lo as int, hi as int) == first_kept(removed@, i as int, hi as int),
        decreases hi - i,
    {
        if !removed[i] {
            return Some(i);
        }
        i = i + 1;
    }
    None
}

#[verifier::spinoff_prover]
#[verifier::rlimit(30)]
fn run_index_map(runs: &Vec<LevelRun>, Ghost(lv): Ghost<Seq<u8>>) -> (r: Vec<usize>)
    requires
        is_level_run_partition(lv, runs@),
        runs@.len() > 0,
    ensures
        r@.len() == lv.len(),
        forall|m: int|
            0 <= m < lv.len() ==> (#[trigger] r@[m]) < runs@.len() && runs@[r@[m] as int].start <= m
                < runs@[r@[m] as int].end,
{
    let ghost rs = runs@;
    let nruns = runs.len();
    let mut run_of_index: Vec<usize> = Vec::new();
    for ri in 0..nruns
        invariant
            nruns == rs.len(),
            rs == runs@,
            is_level_run_partition(lv, rs),
            ri < nruns ==> run_of_index@.len() == rs[ri as int].start,
            ri == nruns ==> run_of_index@.len() == lv.len(),
            forall|m: int|
                0 <= m < run_of_index@.len() ==> (#[trigger] run_of_index@[m]) < nruns
                    && rs[run_of_index@[m] as int].start <= m < rs[run_of_index@[m] as int].end,
    {
        let r = runs[ri];
        assert(r.start < r.end <= lv.len());
        for m in r.start..r.end
            invariant
                r == rs[ri as int],
                ri < nruns,
                nruns == rs.len(),
                run_of_index@.len() == m,
                forall|x: int|
                    0 <= x < run_of_index@.len() ==> (#[trigger] run_of_index@[x]) < nruns
                        && rs[run_of_index@[x] as int].start <= x < rs[run_of_index@[x] as int].end,
        {
            run_of_index.push(ri);
        }
        if ri + 1 < nruns {
            assert(rs[ri as int].end == rs[ri + 1].start);
        }
    }
    run_of_index
}

fn walk_chain(
    classes: &[BidiClass],
    explicit: &ExplicitLevels,
    runs: &Vec<LevelRun>,
    next: &Vec<Option<usize>>,
    seed: usize,
) -> (r: (Vec<LevelRun>, usize))
    requires
        explicit.levels@.len() == classes@.len(),
        runs@ == level_runs_spec(explicit.levels@),
        next@.len() == runs@.len(),
        seed < runs@.len(),
        forall|x: int|
            0 <= x < runs@.len() ==> opt_int(#[trigger] next@[x]) == next_run(
                classes@,
                explicit.removed@,
                runs@,
                x,
            ),
    ensures
        r.0@ == seq_runs(classes@, explicit.removed@, runs@, seed as int),
        r.1 < runs@.len(),
        r.1 == chain_ids(classes@, explicit.removed@, runs@, seed as int).last(),
{
    let ghost s = classes@;
    let ghost lv = explicit.levels@;
    let ghost rm = explicit.removed@;
    let ghost rs = runs@;
    let nruns = runs.len();
    let _n = explicit.levels.len();
    let mut chain: Vec<LevelRun> = Vec::new();
    let mut cur = seed;
    loop
        invariant_except_break
            chain@ + seq_runs(s, rm, rs, cur as int) == seq_runs(s, rm, rs, seed as int),
        invariant
            s == classes@,
            lv == explicit.levels@,
            rm == explicit.removed@,
            s.len() == lv.len(),
            lv.len() <= usize::MAX,
            nruns == rs.len(),
            rs == runs@,
            rs == level_runs_spec(lv),
            next@.len() == nruns,
            forall|x: int| 0 <= x < nruns ==> opt_int(#[trigger] next@[x]) == next_run(s, rm, rs, x),
            seed <= cur < nruns,
            chain_ids(s, rm, rs, seed as int).last() == chain_ids(s, rm, rs, cur as int).last(),
        ensures
            chain@ == seq_runs(s, rm, rs, seed as int),
            next_run(s, rm, rs, cur as int) is None,
        decreases nruns - cur,
    {
        chain.push(runs[cur]);
        proof {
            lemma_next_run_forward(s, lv, rm, cur as int);
        }
        match next[cur] {
            Some(q) => {
                assert(chain_ids(s, rm, rs, cur as int) =~= seq![cur as int] + chain_ids(
                    s,
                    rm,
                    rs,
                    q as int,
                ));
                assert(seq_runs(s, rm, rs, cur as int) =~= seq![rs[cur as int]] + seq_runs(
                    s,
                    rm,
                    rs,
                    q as int,
                ));
                assert(chain@ + seq_runs(s, rm, rs, q as int) =~= seq_runs(s, rm, rs, seed as int));
                cur = q;
            },
            None => {
                assert(seq_runs(s, rm, rs, cur as int) =~= seq![rs[cur as int]]);
                break ;
            },
        }
    }
    assert(chain_ids(s, rm, rs, cur as int) =~= seq![cur as int]);
    (chain, cur)
}

fn sequence_sos(explicit: &ExplicitLevels, paragraph_level: u8, first: usize, level: u8) -> (r:
    BidiClass)
    requires
        explicit.levels@.len() == explicit.removed@.len(),
        first <= explicit.removed@.len(),
    ensures
        r == sos_of(explicit.levels@, explicit.removed@, paragraph_level, first as int, level),
{
    let other = match last_kept_index(&explicit.removed, 0, first) {
        Some(i) => {
            proof {
                lemma_last_kept(explicit.removed@, 0, first as int);
            }
            explicit.levels[i]
        },
        None => paragraph_level,
    };
    let higher = if other < level {
        level
    } else {
        other
    };
    level_to_sos_eos(higher)
}

fn sequence_eos(
    classes: &[BidiClass],
    explicit: &ExplicitLevels,
    paragraph_level: u8,
    last: LevelRun,
    level: u8,
) -> (r: BidiClass)
    requires
        explicit.levels@.len() == classes@.len(),
        explicit.removed@.len() == classes@.len(),
        last.start <= last.end <= classes@.len(),
    ensures
        r == eos_of(classes@, explicit.levels@, explicit.removed@, paragraph_level, last, level),
{
    let n = explicit.levels.len();
    let unmatched = match last_kept_index(&explicit.removed, last.start, last.end) {
        Some(j) => {
            proof {
                lemma_last_kept(explicit.removed@, last.start as int, last.end as int);
            }
            classes[j].is_isolate_initiator() && matching_pdi(classes, j).is_none()
        },
        None => false,
    };
    let other = if unmatched {
        paragraph_level
    } else {
        match first_kept_index(&explicit.removed, last.end, n) {
            Some(i) => {
                proof {
                    lemma_first_kept(explicit.removed@, last.end as int, n as int);
                }
                explicit.levels[i]
            },
            None => paragraph_level,
        }
    };
    let higher = if other < level {
        level
    } else {
        other
    };
    level_to_sos_eos(higher)
}

/// Compute the isolating run sequences of a paragraph (BD13, X10):
/// one per level run that does not continue another run's sequence,
/// in the order of their first runs, each following matched isolate
/// initiator to PDI links, with `sos` / `eos` from the higher of the
/// levels on either side (skipping X9-removed characters; the
/// paragraph level at the paragraph edges and after an isolate
/// initiator without a matching PDI).
#[verifier::spinoff_prover]
#[verifier::rlimit(60)]
pub fn isolating_run_sequences(
    classes: &[BidiClass],
    explicit: &ExplicitLevels,
    paragraph_level: u8,
) -> (r: Vec<IsolatingRunSequence>)
    requires
        explicit.levels@.len() == classes@.len(),
        explicit.removed@.len() == classes@.len(),
    ensures
        r@.len() == seeds(classes@, explicit.removed@, level_runs_spec(explicit.levels@)).len(),
        forall|k: int|
            0 <= k < r@.len() ==> is_sequence_of(
                classes@,
                explicit.levels@,
                explicit.removed@,
                paragraph_level,
                seeds(classes@, explicit.removed@, level_runs_spec(explicit.levels@))[k],
                #[trigger] r@[k],
            ),
{
    let ghost s = classes@;
    let ghost lv = explicit.levels@;
    let ghost rm = explicit.removed@;
    let n = explicit.levels.len();
    let runs = level_runs(&explicit.levels);
    let ghost rs = runs@;
    let nruns = runs.len();
    let mut sequences: Vec<IsolatingRunSequence> = Vec::new();
    if nruns == 0 {
        return sequences;
    }
    proof {
        lemma_level_runs_partition(lv);
        lemma_runs_ordered(lv, rs);
    }
    let run_of_index = run_index_map(&runs, Ghost(lv));
    // BD13 links between runs.
    let mut next: Vec<Option<usize>> = Vec::new();
    let mut chained: Vec<bool> = Vec::new();
    for q in 0..nruns
        invariant
            chained@.len() == q,
            forall|x: int| 0 <= x < q ==> !chained@[x],
    {
        chained.push(false);
    }
    for ri in 0..nruns
        invariant
            n == lv.len(),
            s == classes@,
            lv == explicit.levels@,
            rm == explicit.removed@,
            s.len() == n,
            rm.len() == n,
            nruns == rs.len(),
            rs == runs@,
            rs == level_runs_spec(lv),
            is_level_run_partition(lv, rs),
            run_of_index@.len() == n,
            forall|m: int|
                0 <= m < n ==> (#[trigger] run_of_index@[m]) < nruns && rs[run_of_index@[m] as int].start
                    <= m < rs[run_of_index@[m] as int].end,
            next@.len() == ri,
            chained@.len() == nruns,
            forall|x: int| 0 <= x < ri ==> opt_int(#[trigger] next@[x]) == next_run(s, rm, rs, x),
            forall|q: int|
                0 <= q < nruns ==> (#[trigger] chained@[q] <==> exists|x: int|
                    0 <= x < ri && next_run(s, rm, rs, x) == Some(q)),
    {
        let r = runs[ri];
        let mut link: Option<usize> = None;
        match last_kept_index(&explicit.removed, r.start, r.end) {
            Some(last) => {
                proof {
                    lemma_last_kept(rm, r.start as int, r.end as int);
                }
                if classes[last].is_isolate_initiator() {
                    match matching_pdi(classes, last) {
                        Some(pdi) => {
                            proof {
                                lemma_pdi_search_bounds(s, last + 1, 1);
                            }
                            let pdi_run = run_of_index[pdi];
                            proof {
                                lemma_run_starting_at(lv, rs, pdi as int, pdi_run as int);
                            }
                            if runs[pdi_run].start == pdi {
                                link = Some(pdi_run);
                            }
                        },
                        None => {},
                    }
                }
            },
            None => {},
        }
        assert(opt_int(link) == next_run(s, rm, rs, ri as int));
        let ghost old_chained = chained@;
        if let Some(q) = link {
            chained.set(q, true);
        }
        next.push(link);
        assert forall|q: int| 0 <= q < nruns implies (#[trigger] chained@[q] <==> exists|x: int|
            0 <= x < ri + 1 && next_run(s, rm, rs, x) == Some(q)) by {
            if next_run(s, rm, rs, ri as int) == Some(q) {
                assert(0 <= ri < ri + 1);
            } else {
                if exists|x: int| 0 <= x < ri + 1 && next_run(s, rm, rs, x) == Some(q) {
                    let x = choose|x: int| 0 <= x < ri + 1 && next_run(s, rm, rs, x) == Some(q);
                    assert(x < ri);
                }
            }
        }
    }
    // Walk each sequence from its first run.
    for seed in 0..nruns
        invariant
            n == lv.len(),
            s == classes@,
            lv == explicit.levels@,
            rm == explicit.removed@,
            s.len() == n,
            rm.len() == n,
            nruns == rs.len(),
            rs == runs@,
            rs == level_runs_spec(lv),
            is_level_run_partition(lv, rs),
            next@.len() == nruns,
            chained@.len() == nruns,
            forall|x: int| 0 <= x < nruns ==> opt_int(#[trigger] next@[x]) == next_run(s, rm, rs, x),
            forall|q: int| 0 <= q < nruns ==> (#[trigger] chained@[q] <==> is_chained(s, rm, rs, q)),
            sequences@.len() == seeds_upto(s, rm, rs, seed as int).len(),
            forall|k: int|
                0 <= k < sequences@.len() ==> is_sequence_of(
                    s,
                    lv,
                    rm,
                    paragraph_level,
                    seeds_upto(s, rm, rs, seed as int)[k],
                    #[trigger] sequences@[k],
                ),
    {
        if !chained[seed] {
            let (chain, cur) = walk_chain(classes, explicit, &runs, &next, seed);
            let level = runs[seed].level;
            let sq = IsolatingRunSequence {
                runs: chain,
                level,
                sos: sequence_sos(explicit, paragraph_level, runs[seed].start, level),
                eos: sequence_eos(classes, explicit, paragraph_level, runs[cur], level),
            };
            assert(is_sequence_of(s, lv, rm, paragraph_level, seed as int, sq));
            let ghost before = sequences@;
            sequences.push(sq);
            assert(sequences@ == before.push(sq));
            assert(seeds_upto(s, rm, rs, seed + 1) == seeds_upto(s, rm, rs, seed as int).push(
                seed as int,
            ));
        } else {
            assert(seeds_upto(s, rm, rs, seed + 1) == seeds_upto(s, rm, rs, seed as int));
        }
    }
    sequences
}

proof fn lemma_seeds_upto(s: Seq<BidiClass>, rm: Seq<bool>, runs: Seq<LevelRun>, k: int)
    requires
        0 <= k <= runs.len(),
    ensures
        forall|i: int|
            0 <= i < seeds_upto(s, rm, runs, k).len() ==> 0 <= #[trigger] seeds_upto(
                s,
                rm,
                runs,
                k,
            )[i] < k && !is_chained(s, rm, runs, seeds_upto(s, rm, runs, k)[i]),
        forall|i: int, j: int|
            0 <= i < j < seeds_upto(s, rm, runs, k).len() ==> #[trigger] seeds_upto(s, rm, runs, k)[i]
                < #[trigger] seeds_upto(s, rm, runs, k)[j],
        forall|r: int|
            0 <= r < k && !is_chained(s, rm, runs, r) ==> #[trigger] seeds_upto(
                s,
                rm,
                runs,
                k,
            ).contains(r),
    decreases k,
{
    if k > 0 {
        lemma_seeds_upto(s, rm, runs, k - 1);
        let p = seeds_upto(s, rm, runs, k - 1);
        if !is_chained(s, rm, runs, k - 1) {
            let q = p.push(k - 1);
            assert(q.last() == k - 1);
            assert forall|r: int| 0 <= r < k && !is_chained(s, rm, runs, r) implies q.contains(r) by {
                if r < k - 1 {
                    assert(p.contains(r));
                    let i = choose|i: int| 0 <= i < p.len() && p[i] == r;
                    assert(q[i] == r);
                } else {
                    assert(q[q.len() - 1] == r);
                }
            }
        }
    }
}

pub(crate) proof fn lemma_chain_range(s: Seq<BidiClass>, lv: Seq<u8>, rm: Seq<bool>, a: int)
    requires
        s.len() == lv.len(),
        lv.len() <= usize::MAX,
        0 <= a < level_runs_spec(lv).len(),
    ensures
        chain_ids(s, rm, level_runs_spec(lv), a).len() >= 1,
        chain_ids(s, rm, level_runs_spec(lv), a)[0] == a,
        forall|i: int|
            0 <= i < chain_ids(s, rm, level_runs_spec(lv), a).len() ==> a <= #[trigger] chain_ids(
                s,
                rm,
                level_runs_spec(lv),
                a,
            )[i] < level_runs_spec(lv).len(),
    decreases level_runs_spec(lv).len() - a,
{
    let runs = level_runs_spec(lv);
    lemma_next_run_forward(s, lv, rm, a);
    if let Some(b) = next_run(s, rm, runs, a) {
        lemma_chain_range(s, lv, rm, b);
    }
}

/// Following a link from a run of a sequence stays in the sequence.
proof fn lemma_chain_step(s: Seq<BidiClass>, lv: Seq<u8>, rm: Seq<bool>, a: int, r: int, q: int)
    requires
        s.len() == lv.len(),
        lv.len() <= usize::MAX,
        0 <= a < level_runs_spec(lv).len(),
        chain_ids(s, rm, level_runs_spec(lv), a).contains(r),
        next_run(s, rm, level_runs_spec(lv), r) == Some(q),
    ensures
        chain_ids(s, rm, level_runs_spec(lv), a).contains(q),
    decreases level_runs_spec(lv).len() - a,
{
    let runs = level_runs_spec(lv);
    lemma_next_run_forward(s, lv, rm, a);
    let c = chain_ids(s, rm, runs, a);
    if let Some(b) = next_run(s, rm, runs, a) {
        let cb = chain_ids(s, rm, runs, b);
        assert(c =~= seq![a] + cb);
        lemma_chain_range(s, lv, rm, b);
        if r == a {
            assert(c[1] == cb[0]);
        } else {
            let i = choose|i: int| 0 <= i < c.len() && c[i] == r;
            assert(cb[i - 1] == r);
            lemma_chain_step(s, lv, rm, b, r, q);
            let j = choose|j: int| 0 <= j < cb.len() && cb[j] == q;
            assert(c[j + 1] == q);
        }
    } else {
        assert(c =~= seq![a]);
        assert(c[0] == r);
    }
}

/// A run of a sequence other than its first is linked from a run of the
/// same sequence.
proof fn lemma_chain_member(s: Seq<BidiClass>, lv: Seq<u8>, rm: Seq<bool>, a: int, m: int) -> (r:
    int)
    requires
        s.len() == lv.len(),
        lv.len() <= usize::MAX,
        0 <= a < level_runs_spec(lv).len(),
        chain_ids(s, rm, level_runs_spec(lv), a).contains(m),
        m != a,
    ensures
        chain_ids(s, rm, level_runs_spec(lv), a).contains(r),
        0 <= r < level_runs_spec(lv).len(),
        next_run(s, rm, level_runs_spec(lv), r) == Some(m),
    decreases level_runs_spec(lv).len() - a,
{
    let runs = level_runs_spec(lv);
    lemma_next_run_forward(s, lv, rm, a);
    let c = chain_ids(s, rm, runs, a);
    if let Some(b) = next_run(s, rm, runs, a) {
        let cb = chain_ids(s, rm, runs, b);
        assert(c =~= seq![a] + cb);
        lemma_chain_range(s, lv, rm, b);
        let i = choose|i: int| 0 <= i < c.len() && c[i] == m;
        assert(cb[i - 1] == m);
        if m == b {
            assert(c[0] == a);
            a
        } else {
            let r = lemma_chain_member(s, lv, rm, b, m);
            let j = choose|j: int| 0 <= j < cb.len() && cb[j] == r;
            assert(c[j + 1] == r);
            r
        }
    } else {
        assert(c =~= seq![a]);
        assert(c[0] == m);
        a
    }
}

proof fn lemma_run_in_some_sequence(s: Seq<BidiClass>, lv: Seq<u8>, rm: Seq<bool>, m: int) -> (k:
    int)
    requires
        s.len() == lv.len(),
        lv.len() <= usize::MAX,
        0 <= m < level_runs_spec(lv).len(),
    ensures
        0 <= k < seeds(s, rm, level_runs_spec(lv)).len(),
        chain_ids(s, rm, level_runs_spec(lv), seeds(s, rm, level_runs_spec(lv))[k]).contains(m),
    decreases m,
{
    let runs = level_runs_spec(lv);
    let sd = seeds(s, rm, runs);
    lemma_seeds_upto(s, rm, runs, runs.len() as int);
    if !is_chained(s, rm, runs, m) {
        assert(sd.contains(m));
        let k = choose|k: int| 0 <= k < sd.len() && sd[k] == m;
        lemma_chain_range(s, lv, rm, m);
        assert(chain_ids(s, rm, runs, m)[0] == m);
        k
    } else {
        let r = choose|r: int| 0 <= r < runs.len() && next_run(s, rm, runs, r) == Some(m);
        lemma_next_run_forward(s, lv, rm, r);
        let k = lemma_run_in_some_sequence(s, lv, rm, r);
        assert(0 <= sd[k] < runs.len());
        lemma_chain_step(s, lv, rm, sd[k], r, m);
        k
    }
}

proof fn lemma_run_in_one_sequence(
    s: Seq<BidiClass>,
    lv: Seq<u8>,
    rm: Seq<bool>,
    a: int,
    b: int,
    m: int,
)
    requires
        s.len() == lv.len(),
        lv.len() <= usize::MAX,
        0 <= a < level_runs_spec(lv).len(),
        0 <= b < level_runs_spec(lv).len(),
        !is_chained(s, rm, level_runs_spec(lv), a),
        !is_chained(s, rm, level_runs_spec(lv), b),
        chain_ids(s, rm, level_runs_spec(lv), a).contains(m),
        chain_ids(s, rm, level_runs_spec(lv), b).contains(m),
    ensures
        a == b,
    decreases m,
{
    let runs = level_runs_spec(lv);
    if m == a {
        if m != b {
            let rb = lemma_chain_member(s, lv, rm, b, m);
            assert(is_chained(s, rm, runs, a));
        }
    } else if m == b {
        let ra = lemma_chain_member(s, lv, rm, a, m);
        assert(is_chained(s, rm, runs, b));
    } else {
        let ra = lemma_chain_member(s, lv, rm, a, m);
        let rb = lemma_chain_member(s, lv, rm, b, m);
        if ra < rb {
            lemma_next_run_injective(s, lv, rm, ra, rb);
        } else if rb < ra {
            lemma_next_run_injective(s, lv, rm, rb, ra);
        }
        lemma_next_run_forward(s, lv, rm, ra);
        lemma_run_in_one_sequence(s, lv, rm, a, b, ra);
    }
}

/// BD13: every level run of a paragraph belongs to exactly one
/// isolating run sequence.
pub proof fn lemma_sequences_partition_runs(s: Seq<BidiClass>, lv: Seq<u8>, rm: Seq<bool>, m: int)
    requires
        s.len() == lv.len(),
        lv.len() <= usize::MAX,
        0 <= m < level_runs_spec(lv).len(),
    ensures
        exists|k: int|
            0 <= k < seeds(s, rm, level_runs_spec(lv)).len() && (#[trigger] chain_ids(
                s,
                rm,
                level_runs_spec(lv),
                seeds(s, rm, level_runs_spec(lv))[k],
            )).contains(m),
        forall|k1: int, k2: int|
            0 <= k1 < seeds(s, rm, level_runs_spec(lv)).len() && 0 <= k2 < seeds(
                s,
                rm,
                level_runs_spec(lv),
            ).len() && (#[trigger] chain_ids(
                s,
                rm,
                level_runs_spec(lv),
                seeds(s, rm, level_runs_spec(lv))[k1],
            )).contains(m) && (#[trigger] chain_ids(
                s,
                rm,
                level_runs_spec(lv),
                seeds(s, rm, level_runs_spec(lv))[k2],
            )).contains(m) ==> k1 == k2,
{
    let runs = level_runs_spec(lv);
    let sd = seeds(s, rm, runs);
    lemma_seeds_upto(s, rm, runs, runs.len() as int);
    let k = lemma_run_in_some_sequence(s, lv, rm, m);
    assert forall|k1: int, k2: int|
        0 <= k1 < sd.len() && 0 <= k2 < sd.len() && (#[trigger] chain_ids(
            s,
            rm,
            runs,
            sd[k1],
        )).contains(m) && (#[trigger] chain_ids(s, rm, runs, sd[k2])).contains(m) implies k1
        == k2 by {
        lemma_run_in_one_sequence(s, lv, rm, sd[k1], sd[k2], m);
        if k1 < k2 {
            assert(sd[k1] < sd[k2]);
        } else if k2 < k1 {
            assert(sd[k2] < sd[k1]);
        }
    }
}

/// Runs that are well formed and appear in position order.
pub open spec fn runs_in_order(rr: Seq<LevelRun>) -> bool {
    &&& forall|k: int| 0 <= k < rr.len() ==> (#[trigger] rr[k]).start <= rr[k].end
    &&& forall|a: int, b: int|
        0 <= a < b < rr.len() ==> #[trigger] rr[a].end <= #[trigger] rr[b].start
}

/// The character positions of the isolating run sequence that starts
/// with run `seed`, skipping those X9 removes.
pub open spec fn sequence_positions(s: Seq<BidiClass>, lv: Seq<u8>, rm: Seq<bool>, seed: int) -> Seq<
    usize,
> {
    kept_positions(rm, seq_runs(s, rm, level_runs_spec(lv), seed))
}

proof fn lemma_kept_in(rm: Seq<bool>, lo: int, hi: int)
    requires
        0 <= lo,
        hi <= usize::MAX,
    ensures
        forall|o: int|
            0 <= o < kept_in(rm, lo, hi).len() ==> lo <= #[trigger] kept_in(rm, lo, hi)[o] < hi
                && !rm[kept_in(rm, lo, hi)[o] as int],
        forall|o1: int, o2: int|
            0 <= o1 < o2 < kept_in(rm, lo, hi).len() ==> #[trigger] kept_in(rm, lo, hi)[o1]
                < #[trigger] kept_in(rm, lo, hi)[o2],
        forall|p: usize| lo <= p < hi && !rm[p as int] ==> #[trigger] kept_in(rm, lo, hi).contains(p),
    decreases hi - lo,
{
    if hi > lo {
        lemma_kept_in(rm, lo, hi - 1);
        let a = kept_in(rm, lo, hi - 1);
        if !rm[hi - 1] {
            let b = a.push((hi - 1) as usize);
            assert forall|p: usize| lo <= p < hi && !rm[p as int] implies #[trigger] b.contains(p) by {
                if p < hi - 1 {
                    assert(a.contains(p));
                    let i = choose|i: int| 0 <= i < a.len() && a[i] == p;
                    assert(b[i] == p);
                } else {
                    assert(b[b.len() - 1] == p);
                }
            }
        }
    }
}

proof fn lemma_kept_position_run(rm: Seq<bool>, rr: Seq<LevelRun>, o: int) -> (c: int)
    requires
        runs_in_order(rr),
        0 <= o < kept_positions(rm, rr).len(),
    ensures
        0 <= c < rr.len(),
        rr[c].start <= kept_positions(rm, rr)[o] < rr[c].end,
        !rm[kept_positions(rm, rr)[o] as int],
    decreases rr.len(),
{
    let a = kept_positions(rm, rr.drop_last());
    let l = rr.last();
    lemma_kept_in(rm, l.start as int, l.end as int);
    assert(runs_in_order(rr.drop_last())) by {
        assert forall|a: int, b: int| 0 <= a < b < rr.drop_last().len() implies #[trigger] rr.drop_last()[a].end
            <= #[trigger] rr.drop_last()[b].start by {
            assert(rr[a].end <= rr[b].start);
        }
    }
    if o < a.len() {
        lemma_kept_position_run(rm, rr.drop_last(), o)
    } else {
        assert(kept_positions(rm, rr)[o] == kept_in(rm, l.start as int, l.end as int)[o - a.len()]);
        rr.len() - 1
    }
}

proof fn lemma_kept_positions(rm: Seq<bool>, rr: Seq<LevelRun>)
    requires
        runs_in_order(rr),
    ensures
        forall|o1: int, o2: int|
            0 <= o1 < o2 < kept_positions(rm, rr).len() ==> #[trigger] kept_positions(rm, rr)[o1]
                < #[trigger] kept_positions(rm, rr)[o2],
        forall|c: int, p: usize|
            0 <= c < rr.len() && rr[c].start <= p < rr[c].end && !rm[p as int] ==> #[trigger] kept_positions(
                rm,
                rr,
            ).contains(p) && #[trigger] rr[c] == rr[c],
    decreases rr.len(),
{
    if rr.len() > 0 {
        let d = rr.drop_last();
        assert(runs_in_order(d)) by {
            assert forall|a: int, b: int| 0 <= a < b < d.len() implies #[trigger] d[a].end
                <= #[trigger] d[b].start by {
                assert(rr[a].end <= rr[b].start);
            }
        }
        lemma_kept_positions(rm, d);
        let a = kept_positions(rm, d);
        let l = rr.last();
        lemma_kept_in(rm, l.start as int, l.end as int);
        let b = kept_in(rm, l.start as int, l.end as int);
        let kp = kept_positions(rm, rr);
        assert(kp =~= a + b);
        assert forall|o1: int, o2: int| 0 <= o1 < o2 < kp.len() implies #[trigger] kp[o1]
            < #[trigger] kp[o2] by {
            if o2 < a.len() {
            } else if o1 < a.len() {
                let c = lemma_kept_position_run(rm, d, o1);
                assert(rr[c].end <= rr[rr.len() - 1].start);
                assert(b[o2 - a.len()] >= l.start);
            } else {
                assert(kp[o1] == b[o1 - a.len()]);
                assert(kp[o2] == b[o2 - a.len()]);
            }
        }
        assert forall|c: int, p: usize|
            0 <= c < rr.len() && rr[c].start <= p < rr[c].end && !rm[p as int] implies #[trigger] kp.contains(
            p) && #[trigger] rr[c] == rr[c] by {
            if c < rr.len() - 1 {
                assert(d[c] == rr[c]);
                assert(a.contains(p));
                let i = choose|i: int| 0 <= i < a.len() && a[i] == p;
                assert(kp[i] == p);
            } else {
                assert(b.contains(p));
                let i = choose|i: int| 0 <= i < b.len() && b[i] == p;
                assert(kp[a.len() + i] == p);
            }
        }
    }
}

proof fn lemma_chain_increasing(s: Seq<BidiClass>, lv: Seq<u8>, rm: Seq<bool>, a: int)
    requires
        s.len() == lv.len(),
        lv.len() <= usize::MAX,
        0 <= a < level_runs_spec(lv).len(),
    ensures
        forall|i: int, j: int|
            0 <= i < j < chain_ids(s, rm, level_runs_spec(lv), a).len() ==> #[trigger] chain_ids(
                s,
                rm,
                level_runs_spec(lv),
                a,
            )[i] < #[trigger] chain_ids(s, rm, level_runs_spec(lv), a)[j],
    decreases level_runs_spec(lv).len() - a,
{
    let runs = level_runs_spec(lv);
    lemma_next_run_forward(s, lv, rm, a);
    if let Some(b) = next_run(s, rm, runs, a) {
        lemma_chain_increasing(s, lv, rm, b);
        lemma_chain_range(s, lv, rm, b);
        let c = chain_ids(s, rm, runs, a);
        let cb = chain_ids(s, rm, runs, b);
        assert(c =~= seq![a] + cb);
        assert forall|i: int, j: int| 0 <= i < j < c.len() implies #[trigger] c[i] < #[trigger] c[j] by {
            if i == 0 {
                assert(cb[j - 1] >= b);
            } else {
                assert(cb[i - 1] < cb[j - 1]);
            }
        }
    }
}

/// The runs of a sequence lie in position order inside the paragraph.
proof fn lemma_seq_runs_in_order(s: Seq<BidiClass>, lv: Seq<u8>, rm: Seq<bool>, seed: int)
    requires
        s.len() == lv.len(),
        lv.len() <= usize::MAX,
        0 <= seed < level_runs_spec(lv).len(),
    ensures
        runs_in_order(seq_runs(s, rm, level_runs_spec(lv), seed)),
        runs_within(seq_runs(s, rm, level_runs_spec(lv), seed), lv.len() as int),
        seq_runs(s, rm, level_runs_spec(lv), seed).len() >= 1,
{
    let runs = level_runs_spec(lv);
    lemma_level_runs_partition(lv);
    lemma_runs_ordered(lv, runs);
    lemma_chain_range(s, lv, rm, seed);
    lemma_chain_increasing(s, lv, rm, seed);
    let c = chain_ids(s, rm, runs, seed);
    let rr = seq_runs(s, rm, runs, seed);
    assert forall|k: int| 0 <= k < rr.len() implies (#[trigger] rr[k]).start <= rr[k].end <= lv.len() by {
        assert(rr[k] == runs[c[k]]);
    }
    assert forall|a: int, b: int| 0 <= a < b < rr.len() implies #[trigger] rr[a].end
        <= #[trigger] rr[b].start by {
        assert(c[a] < c[b]);
        assert(rr[a] == runs[c[a]]);
        assert(rr[b] == runs[c[b]]);
    }
}

proof fn lemma_run_containing(lv: Seq<u8>, runs: Seq<LevelRun>, p: int, k: int) -> (x: int)
    requires
        is_level_run_partition(lv, runs),
        0 <= k < runs.len(),
        runs[k].start <= p < lv.len(),
    ensures
        0 <= x < runs.len(),
        runs[x].start <= p < runs[x].end,
    decreases runs.len() - k,
{
    if p < runs[k].end {
        k
    } else {
        if k == runs.len() - 1 {
            assert(runs.last().end == lv.len());
        }
        assert(runs[k].end == runs[k + 1].start);
        lemma_run_containing(lv, runs, p, k + 1)
    }
}

/// X10: the positions of different isolating run sequences never
/// coincide.
pub proof fn lemma_sequence_positions_disjoint(
    s: Seq<BidiClass>,
    lv: Seq<u8>,
    rm: Seq<bool>,
    k1: int,
    k2: int,
    o1: int,
    o2: int,
)
    requires
        s.len() == lv.len(),
        lv.len() <= usize::MAX,
        0 <= k1 < seeds(s, rm, level_runs_spec(lv)).len(),
        0 <= k2 < seeds(s, rm, level_runs_spec(lv)).len(),
        k1 != k2,
        0 <= o1 < sequence_positions(s, lv, rm, seeds(s, rm, level_runs_spec(lv))[k1]).len(),
        0 <= o2 < sequence_positions(s, lv, rm, seeds(s, rm, level_runs_spec(lv))[k2]).len(),
    ensures
        sequence_positions(s, lv, rm, seeds(s, rm, level_runs_spec(lv))[k1])[o1]
            != sequence_positions(s, lv, rm, seeds(s, rm, level_runs_spec(lv))[k2])[o2],
{
    let runs = level_runs_spec(lv);
    let sd = seeds(s, rm, runs);
    lemma_seeds_upto(s, rm, runs, runs.len() as int);
    lemma_level_runs_partition(lv);
    lemma_runs_ordered(lv, runs);
    let a = sd[k1];
    let b = sd[k2];
    lemma_seq_runs_in_order(s, lv, rm, a);
    lemma_seq_runs_in_order(s, lv, rm, b);
    lemma_chain_range(s, lv, rm, a);
    lemma_chain_range(s, lv, rm, b);
    let c1 = lemma_kept_position_run(rm, seq_runs(s, rm, runs, a), o1);
    let c2 = lemma_kept_position_run(rm, seq_runs(s, rm, runs, b), o2);
    let x1 = chain_ids(s, rm, runs, a)[c1];
    let x2 = chain_ids(s, rm, runs, b)[c2];
    assert(seq_runs(s, rm, runs, a)[c1] == runs[x1]);
    assert(seq_runs(s, rm, runs, b)[c2] == runs[x2]);
    if sequence_positions(s, lv, rm, a)[o1] == sequence_positions(s, lv, rm, b)[o2] {
        if x1 < x2 {
            assert(runs[x1].end <= runs[x2].start);
        } else if x2 < x1 {
            assert(runs[x2].end <= runs[x1].start);
        }
        assert(chain_ids(s, rm, runs, a).contains(x1));
        assert(chain_ids(s, rm, runs, b).contains(x1));
        lemma_sequences_partition_runs(s, lv, rm, x1);
    }
}

/// X10: every character that X9 keeps belongs to some isolating run
/// sequence.
pub proof fn lemma_kept_position_covered(s: Seq<BidiClass>, lv: Seq<u8>, rm: Seq<bool>, p: usize)
    requires
        s.len() == lv.len(),
        lv.len() <= usize::MAX,
        p < lv.len(),
        !rm[p as int],
    ensures
        exists|k: int|
            0 <= k < seeds(s, rm, level_runs_spec(lv)).len() && (#[trigger] sequence_positions(
                s,
                lv,
                rm,
                seeds(s, rm, level_runs_spec(lv))[k],
            )).contains(p),
{
    let runs = level_runs_spec(lv);
    let sd = seeds(s, rm, runs);
    lemma_level_runs_partition(lv);
    lemma_seeds_upto(s, rm, runs, runs.len() as int);
    let x = lemma_run_containing(lv, runs, p as int, 0);
    let k = lemma_run_in_some_sequence(s, lv, rm, x);
    let a = sd[k];
    lemma_seq_runs_in_order(s, lv, rm, a);
    let c = chain_ids(s, rm, runs, a);
    let i = choose|i: int| 0 <= i < c.len() && c[i] == x;
    let rr = seq_runs(s, rm, runs, a);
    assert(rr[i] == runs[x]);
    lemma_kept_positions(rm, rr);
    assert(rr[i] == rr[i]);
    assert(sequence_positions(s, lv, rm, sd[k]).contains(p));
}

/// The positions of a sequence are increasing, inside the paragraph,
/// and kept by X9.
pub proof fn lemma_sequence_positions(s: Seq<BidiClass>, lv: Seq<u8>, rm: Seq<bool>, seed: int)
    requires
        s.len() == lv.len(),
        lv.len() <= usize::MAX,
        0 <= seed < level_runs_spec(lv).len(),
    ensures
        runs_within(seq_runs(s, rm, level_runs_spec(lv), seed), lv.len() as int),
        forall|o1: int, o2: int|
            0 <= o1 < o2 < sequence_positions(s, lv, rm, seed).len() ==> #[trigger] sequence_positions(
                s,
                lv,
                rm,
                seed,
            )[o1] < #[trigger] sequence_positions(s, lv, rm, seed)[o2],
        forall|o: int|
            0 <= o < sequence_positions(s, lv, rm, seed).len() ==> #[trigger] sequence_positions(
                s,
                lv,
                rm,
                seed,
            )[o] < lv.len() && !rm[sequence_positions(s, lv, rm, seed)[o] as int],
{
    let rr = seq_runs(s, rm, level_runs_spec(lv), seed);
    lemma_seq_runs_in_order(s, lv, rm, seed);
    lemma_kept_positions(rm, rr);
    assert forall|o: int| 0 <= o < sequence_positions(s, lv, rm, seed).len() implies #[trigger] sequence_positions(
        s,
        lv,
        rm,
        seed,
    )[o] < lv.len() && !rm[sequence_positions(s, lv, rm, seed)[o] as int] by {
        let c = lemma_kept_position_run(rm, rr, o);
    }
}

/// The level of a sequence is the level of its first run's characters.
pub proof fn lemma_sequence_level(s: Seq<BidiClass>, lv: Seq<u8>, rm: Seq<bool>, seed: int)
    requires
        s.len() == lv.len(),
        lv.len() <= usize::MAX,
        0 <= seed < level_runs_spec(lv).len(),
    ensures
        0 <= level_runs_spec(lv)[seed].start < lv.len(),
        level_runs_spec(lv)[seed].level == lv[level_runs_spec(lv)[seed].start as int],
{
    lemma_level_runs_partition(lv);
    let runs = level_runs_spec(lv);
    assert(runs[seed].start < runs[seed].end);
}

/// Every sequence starts at a level run of the paragraph.
pub proof fn lemma_seeds_valid(s: Seq<BidiClass>, lv: Seq<u8>, rm: Seq<bool>, k: int)
    requires
        0 <= k < seeds(s, rm, level_runs_spec(lv)).len(),
    ensures
        0 <= seeds(s, rm, level_runs_spec(lv))[k] < level_runs_spec(lv).len(),
{
    let runs = level_runs_spec(lv);
    lemma_seeds_upto(s, rm, runs, runs.len() as int);
}

/// X10: the `sos` / `eos` of a sequence is always `L` or `R`.
pub proof fn lemma_sos_eos_strong(
    s: Seq<BidiClass>,
    lv: Seq<u8>,
    rm: Seq<bool>,
    pl: u8,
    first: int,
    last: LevelRun,
    level: u8,
)
    ensures
        sos_of(lv, rm, pl, first, level) is L || sos_of(lv, rm, pl, first, level) is R,
        eos_of(s, lv, rm, pl, last, level) is L || eos_of(s, lv, rm, pl, last, level) is R,
{
}

/// BD13: the isolating run sequences of a paragraph are non-empty,
/// their runs come in position order, the sequences come in the order
/// of their first runs, and a paragraph without characters has none.
pub proof fn lemma_sequences_ordered(s: Seq<BidiClass>, lv: Seq<u8>, rm: Seq<bool>)
    requires
        s.len() == lv.len(),
        lv.len() <= usize::MAX,
    ensures
        lv.len() == 0 ==> seeds(s, rm, level_runs_spec(lv)).len() == 0,
        forall|k: int|
            0 <= k < seeds(s, rm, level_runs_spec(lv)).len() ==> (#[trigger] seq_runs(
                s,
                rm,
                level_runs_spec(lv),
                seeds(s, rm, level_runs_spec(lv))[k],
            )).len() >= 1 && runs_in_order(
                seq_runs(s, rm, level_runs_spec(lv), seeds(s, rm, level_runs_spec(lv))[k]),
            ),
        forall|k1: int, k2: int|
            0 <= k1 < k2 < seeds(s, rm, level_runs_spec(lv)).len() ==> (#[trigger] seq_runs(
                s,
                rm,
                level_runs_spec(lv),
                seeds(s, rm, level_runs_spec(lv))[k1],
            ))[0].start < (#[trigger] seq_runs(
                s,
                rm,
                level_runs_spec(lv),
                seeds(s, rm, level_runs_spec(lv))[k2],
            ))[0].start,
{
    let runs = level_runs_spec(lv);
    let sd = seeds(s, rm, runs);
    lemma_level_runs_partition(lv);
    lemma_runs_ordered(lv, runs);
    lemma_seeds_upto(s, rm, runs, runs.len() as int);
    assert forall|k: int| 0 <= k < sd.len() implies (#[trigger] seq_runs(s, rm, runs, sd[k])).len()
        >= 1 && runs_in_order(seq_runs(s, rm, runs, sd[k])) by {
        lemma_seq_runs_in_order(s, lv, rm, sd[k]);
    }
    assert forall|k1: int, k2: int| 0 <= k1 < k2 < sd.len() implies (#[trigger] seq_runs(
        s,
        rm,
        runs,
        sd[k1],
    ))[0].start < (#[trigger] seq_runs(s, rm, runs, sd[k2]))[0].start by {
        lemma_chain_range(s, lv, rm, sd[k1]);
        lemma_chain_range(s, lv, rm, sd[k2]);
        assert(sd[k1] < sd[k2]);
        assert(runs[sd[k1]].start < runs[sd[k1]].end);
        assert(runs[sd[k1]].end <= runs[sd[k2]].start);
    }
}

} // verus!
