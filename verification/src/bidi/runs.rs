//! Level runs (UAX #9 BD7).

use vstd::prelude::*;

verus! {

/// A maximal substring of characters sharing an embedding level (BD7):
/// the half-open index range `start..end` and the shared level.
#[derive(Debug, Clone, Copy, PartialEq, Eq, Structural)]
pub struct LevelRun {
    /// First character index in the run (inclusive).
    pub start: usize,
    /// One past the last character index in the run (exclusive).
    pub end: usize,
    /// Embedding level shared by every character in the run.
    pub level: u8,
}

impl LevelRun {
    /// Length of the run in character positions.
    pub fn len(&self) -> (r: usize)
        requires
            self.start <= self.end,
        ensures
            r == self.end - self.start,
    {
        self.end - self.start
    }

    /// `true` iff the run is empty.
    pub fn is_empty(&self) -> (r: bool)
        ensures
            r == (self.end == self.start),
    {
        self.end == self.start
    }
}

/// The level runs of `lv.take(k)`, built left to right: a character
/// with the previous character's level extends the last run, any other
/// starts a new one.
pub open spec fn runs_prefix(lv: Seq<u8>, k: int) -> Seq<LevelRun>
    decreases k,
{
    if k <= 0 {
        Seq::empty()
    } else if k == 1 {
        seq![LevelRun { start: 0, end: 1, level: lv[0] }]
    } else {
        let p = runs_prefix(lv, k - 1);
        if lv[k - 1] == lv[k - 2] {
            p.update(p.len() - 1, LevelRun { start: p.last().start, end: k as usize, level: p.last().level })
        } else {
            p.push(LevelRun { start: (k - 1) as usize, end: k as usize, level: lv[k - 1] })
        }
    }
}

/// BD7: the level runs of a paragraph.
pub open spec fn level_runs_spec(lv: Seq<u8>) -> Seq<LevelRun> {
    runs_prefix(lv, lv.len() as int)
}

/// `runs` partitions `0..n` into maximal same-level runs of `lv`: they
/// are non-empty, consecutive, cover every position, each carries the
/// level of all its characters, and neighbouring runs differ in level.
pub open spec fn is_level_run_partition(lv: Seq<u8>, runs: Seq<LevelRun>) -> bool {
    &&& (lv.len() == 0 <==> runs.len() == 0)
    &&& runs.len() > 0 ==> runs[0].start == 0 && runs.last().end == lv.len()
    &&& forall|k: int|
        0 <= k < runs.len() ==> (#[trigger] runs[k]).start < runs[k].end <= lv.len()
    &&& forall|k: int, m: int|
        #![trigger runs[k], lv[m]]
        0 <= k < runs.len() && runs[k].start <= m < runs[k].end ==> lv[m] == runs[k].level
    &&& forall|k: int|
        0 <= k < runs.len() - 1 ==> (#[trigger] runs[k]).end == runs[k + 1].start && runs[k].level
            != runs[k + 1].level
}

proof fn lemma_runs_prefix_partition(lv: Seq<u8>, k: int)
    requires
        0 <= k <= lv.len(),
        lv.len() <= usize::MAX,
    ensures
        is_level_run_partition(lv.take(k), runs_prefix(lv, k)),
    decreases k,
{
    if k == 1 {
        let r = runs_prefix(lv, 1);
        assert(r[0].start == 0);
    } else if k > 1 {
        lemma_runs_prefix_partition(lv, k - 1);
        let p = runs_prefix(lv, k - 1);
        let r = runs_prefix(lv, k);
        let t = lv.take(k);
        let t1 = lv.take(k - 1);
        assert forall|m: int| 0 <= m < k - 1 implies t[m] == t1[m] by {}
        if lv[k - 1] == lv[k - 2] {
            assert(p.last().level == t1[k - 2]);
            assert forall|j: int, m: int|
                #![trigger r[j], t[m]]
                0 <= j < r.len() && r[j].start <= m < r[j].end implies t[m] == r[j].level by {
                if j < p.len() - 1 {
                    assert(r[j] == p[j]);
                } else if m < k - 1 {
                    assert(t1[m] == p[j].level);
                }
            }
            assert forall|j: int| 0 <= j < r.len() - 1 implies (#[trigger] r[j]).end == r[j + 1].start
                && r[j].level != r[j + 1].level by {
                assert(r[j] == p[j]);
                if j + 1 < p.len() - 1 {
                    assert(r[j + 1] == p[j + 1]);
                }
            }
        } else {
            assert forall|j: int, m: int|
                #![trigger r[j], t[m]]
                0 <= j < r.len() && r[j].start <= m < r[j].end implies t[m] == r[j].level by {
                if j < p.len() {
                    assert(r[j] == p[j]);
                }
            }
            assert forall|j: int| 0 <= j < r.len() - 1 implies (#[trigger] r[j]).end == r[j + 1].start
                && r[j].level != r[j + 1].level by {
                assert(r[j] == p[j]);
                if j + 1 < p.len() {
                    assert(r[j + 1] == p[j + 1]);
                } else {
                    assert(p[j].level == t1[k - 2]);
                }
            }
        }
    }
}

/// BD7: the level runs of a paragraph partition it into maximal
/// same-level runs.
pub proof fn lemma_level_runs_partition(lv: Seq<u8>)
    requires
        lv.len() <= usize::MAX,
    ensures
        is_level_run_partition(lv, level_runs_spec(lv)),
{
    lemma_runs_prefix_partition(lv, lv.len() as int);
    assert(lv.take(lv.len() as int) =~= lv);
}

/// Compute the BD7 level-run partition of a paragraph from its level
/// vector: maximal same-level runs in logical order, covering
/// `0..levels.len()` without gap or overlap. Empty input gives no runs.
pub fn level_runs(levels: &[u8]) -> (r: Vec<LevelRun>)
    ensures
        r@ == level_runs_spec(levels@),
        is_level_run_partition(levels@, r@),
{
    let mut out: Vec<LevelRun> = Vec::new();
    let n = levels.len();
    proof {
        lemma_level_runs_partition(levels@);
    }
    if n == 0 {
        return out;
    }
    let mut start: usize = 0;
    let mut cur = levels[0];
    let mut i: usize = 1;
    while i < n
        invariant
            n == levels@.len(),
            1 <= i <= n,
            start < i,
            cur == levels@[i - 1],
            out@.push(LevelRun { start, end: i, level: cur }) == runs_prefix(levels@, i as int),
        decreases n - i,
    {
        let lvl = levels[i];
        if lvl != cur {
            out.push(LevelRun { start, end: i, level: cur });
            start = i;
            cur = lvl;
        }
        i = i + 1;
    }
    out.push(LevelRun { start, end: n, level: cur });
    out
}

} // verus!
