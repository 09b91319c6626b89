//! Rule L2: the progressive-reversal visual permutation of a line.

use vstd::prelude::*;

verus! {

/// Start of the maximal run of levels `>= t` that ends just before `k`.
pub open spec fn run_lo(lv: Seq<u8>, t: u8, k: int) -> int
    decreases k,
{
    if k > 0 && k <= lv.len() && lv[k - 1] >= t {
        run_lo(lv, t, k - 1)
    } else {
        k
    }
}

/// End (exclusive) of the maximal run of levels `>= t` starting at `k`.
pub open spec fn run_hi(lv: Seq<u8>, t: u8, k: int) -> int
    decreases lv.len() - k,
{
    if 0 <= k < lv.len() && lv[k] >= t {
        run_hi(lv, t, k + 1)
    } else {
        k
    }
}

/// One L2 step: reverse every maximal run of positions whose level is
/// at least `t`.
pub open spec fn reverse_runs(p: Seq<usize>, lv: Seq<u8>, t: u8) -> Seq<usize> {
    Seq::new(
        p.len(),
        |k: int|
            if lv[k] >= t {
                p[run_lo(lv, t, k) + run_hi(lv, t, k) - 1 - k]
            } else {
                p[k]
            },
    )
}

/// L2 steps for `t`, `t - 1`, ..., `low`.
pub open spec fn reverse_from(p: Seq<usize>, lv: Seq<u8>, t: int, low: int) -> Seq<usize>
    decreases t - low,
{
    let q = reverse_runs(p, lv, t as u8);
    if t <= low {
        q
    } else {
        reverse_from(q, lv, t - 1, low)
    }
}

/// The highest level of a line (`0` for an empty one).
pub open spec fn max_level(lv: Seq<u8>) -> u8
    decreases lv.len(),
{
    if lv.len() == 0 {
        0
    } else {
        let m = max_level(lv.drop_last());
        if lv.last() > m {
            lv.last()
        } else {
            m
        }
    }
}

/// The lowest odd level of a line, `u8::MAX` when there is none.
pub open spec fn lowest_odd_level(lv: Seq<u8>) -> u8
    decreases lv.len(),
{
    if lv.len() == 0 {
        u8::MAX
    } else {
        let m = lowest_odd_level(lv.drop_last());
        if lv.last() % 2 == 1 && lv.last() < m {
            lv.last()
        } else {
            m
        }
    }
}

/// `0, 1, ..., n - 1`.
pub open spec fn identity_seq(n: nat) -> Seq<usize> {
    Seq::new(n, |i: int| i as usize)
}

/// L2: from the highest level down to the lowest odd level, reverse
/// every maximal run at that level or higher. Entry `v` is the logical
/// index shown at visual position `v`. A line with no odd level other
/// than `u8::MAX` keeps the identity order.
pub open spec fn reorder_spec(lv: Seq<u8>) -> Seq<usize> {
    if lv.len() == 0 || lowest_odd_level(lv) == u8::MAX {
        identity_seq(lv.len())
    } else {
        reverse_from(identity_seq(lv.len()), lv, max_level(lv) as int, lowest_odd_level(lv) as int)
    }
}

/// `p` is a permutation of `0..n`.
pub open spec fn is_permutation(p: Seq<usize>, n: nat) -> bool {
    &&& p.len() == n
    &&& forall|k: int| 0 <= k < n ==> (#[trigger] p[k]) < n
    &&& forall|a: int, b: int| 0 <= a < n && 0 <= b < n && a != b ==> p[a] != p[b]
}

proof fn lemma_run_bounds(lv: Seq<u8>, t: u8, k: int)
    requires
        0 <= k < lv.len(),
        lv[k] >= t,
    ensures
        0 <= run_lo(lv, t, k) <= k < run_hi(lv, t, k) <= lv.len(),
        forall|m: int| run_lo(lv, t, k) <= m < run_hi(lv, t, k) ==> lv[m] >= t,
        run_lo(lv, t, k) == 0 || lv[run_lo(lv, t, k) - 1] < t,
        run_hi(lv, t, k) == lv.len() || lv[run_hi(lv, t, k)] < t,
{
    lemma_run_lo(lv, t, k);
    lemma_run_hi(lv, t, k);
}

proof fn lemma_run_lo(lv: Seq<u8>, t: u8, k: int)
    requires
        0 <= k <= lv.len(),
    ensures
        0 <= run_lo(lv, t, k) <= k,
        forall|m: int| run_lo(lv, t, k) <= m < k ==> lv[m] >= t,
        run_lo(lv, t, k) == 0 || lv[run_lo(lv, t, k) - 1] < t,
    decreases k,
{
    if k > 0 && lv[k - 1] >= t {
        lemma_run_lo(lv, t, k - 1);
    }
}

proof fn lemma_run_hi(lv: Seq<u8>, t: u8, k: int)
    requires
        0 <= k <= lv.len(),
    ensures
        k <= run_hi(lv, t, k) <= lv.len(),
        forall|m: int| k <= m < run_hi(lv, t, k) ==> lv[m] >= t,
        run_hi(lv, t, k) == lv.len() || lv[run_hi(lv, t, k)] < t,
    decreases lv.len() - k,
{
    if k < lv.len() && lv[k] >= t {
        lemma_run_hi(lv, t, k + 1);
    }
}

/// Inside a maximal run, every position names the same run.
proof fn lemma_run_same(lv: Seq<u8>, t: u8, lo: int, hi: int, k: int)
    requires
        0 <= lo <= k < hi <= lv.len(),
        forall|m: int| lo <= m < hi ==> lv[m] >= t,
        lo == 0 || lv[lo - 1] < t,
        hi == lv.len() || lv[hi] < t,
    ensures
        run_lo(lv, t, k) == lo,
        run_hi(lv, t, k) == hi,
{
    lemma_run_lo_exact(lv, t, lo, k);
    lemma_run_hi_exact(lv, t, k, hi);
}

proof fn lemma_run_lo_exact(lv: Seq<u8>, t: u8, lo: int, k: int)
    requires
        0 <= lo <= k <= lv.len(),
        forall|m: int| lo <= m < k ==> lv[m] >= t,
        lo == 0 || lv[lo - 1] < t,
    ensures
        run_lo(lv, t, k) == lo,
    decreases k,
{
    if k > lo {
        lemma_run_lo_exact(lv, t, lo, k - 1);
    }
}

proof fn lemma_run_hi_exact(lv: Seq<u8>, t: u8, k: int, hi: int)
    requires
        0 <= k <= hi <= lv.len(),
        forall|m: int| k <= m < hi ==> lv[m] >= t,
        hi == lv.len() || lv[hi] < t,
    ensures
        run_hi(lv, t, k) == hi,
    decreases hi - k,
{
    if k < hi {
        lemma_run_hi_exact(lv, t, k + 1, hi);
    }
}

/// One reversal step maps a permutation to a permutation.
proof fn lemma_reverse_runs_permutation(p: Seq<usize>, lv: Seq<u8>, t: u8)
    requires
        is_permutation(p, lv.len()),
    ensures
        is_permutation(reverse_runs(p, lv, t), lv.len()),
{
    let n = lv.len();
    let q = reverse_runs(p, lv, t);
    // The index each position reads from.
    let src = |k: int|
        if lv[k] >= t {
            run_lo(lv, t, k) + run_hi(lv, t, k) - 1 - k
        } else {
            k
        };
    assert forall|k: int| 0 <= k < n implies 0 <= #[trigger] src(k) < n && q[k] == p[src(k)] && (
    lv[k] >= t ==> lv[src(k)] >= t && run_lo(lv, t, src(k)) == run_lo(lv, t, k) && run_hi(
        lv,
        t,
        src(k),
    ) == run_hi(lv, t, k)) by {
        if lv[k] >= t {
            lemma_run_bounds(lv, t, k);
            let lo = run_lo(lv, t, k);
            let hi = run_hi(lv, t, k);
            lemma_run_same(lv, t, lo, hi, src(k));
        }
    }
    assert forall|a: int, b: int| 0 <= a < n && 0 <= b < n && a != b implies q[a] != q[b] by {
        assert(0 <= src(a) < n && 0 <= src(b) < n);
        if src(a) == src(b) {
            if lv[a] >= t && lv[b] >= t {
                assert(run_lo(lv, t, a) == run_lo(lv, t, src(a)));
                assert(run_lo(lv, t, b) == run_lo(lv, t, src(b)));
                assert(run_hi(lv, t, a) == run_hi(lv, t, src(a)));
                assert(run_hi(lv, t, b) == run_hi(lv, t, src(b)));
            } else if lv[a] >= t {
                assert(lv[src(a)] >= t);
            } else if lv[b] >= t {
                assert(lv[src(b)] >= t);
            }
        }
    }
    assert forall|k: int| 0 <= k < n implies (#[trigger] q[k]) < n by {
        assert(0 <= src(k) < n);
    }
}

proof fn lemma_reverse_from_permutation(p: Seq<usize>, lv: Seq<u8>, t: int, low: int)
    requires
        is_permutation(p, lv.len()),
    ensures
        is_permutation(reverse_from(p, lv, t, low), lv.len()),
    decreases t - low,
{
    lemma_reverse_runs_permutation(p, lv, t as u8);
    if t > low {
        lemma_reverse_from_permutation(reverse_runs(p, lv, t as u8), lv, t - 1, low);
    }
}

/// The L2 permutation is a permutation of `0..n`: every logical index
/// appears at exactly one visual position.
pub proof fn lemma_reorder_is_permutation(lv: Seq<u8>)
    requires
        lv.len() <= usize::MAX,
    ensures
        is_permutation(reorder_spec(lv), lv.len()),
{
    let id = identity_seq(lv.len());
    assert(is_permutation(id, lv.len()));
    if !(lv.len() == 0 || lowest_odd_level(lv) == u8::MAX) {
        lemma_reverse_from_permutation(id, lv, max_level(lv) as int, lowest_odd_level(lv) as int);
    }
}

proof fn lemma_max_level(lv: Seq<u8>)
    ensures
        forall|k: int| 0 <= k < lv.len() ==> lv[k] <= max_level(lv),
        lv.len() > 0 ==> exists|k: int| 0 <= k < lv.len() && lv[k] == max_level(lv),
    decreases lv.len(),
{
    if lv.len() > 0 {
        lemma_max_level(lv.drop_last());
        assert forall|k: int| 0 <= k < lv.len() - 1 implies lv[k] == lv.drop_last()[k] by {}
        if lv.len() > 1 && lv.last() <= max_level(lv.drop_last()) {
            let k = choose|k: int|
                0 <= k < lv.drop_last().len() && lv.drop_last()[k] == max_level(lv.drop_last());
            assert(lv[k] == max_level(lv));
        } else {
            assert(lv[lv.len() - 1] == max_level(lv));
        }
    }
}

proof fn lemma_lowest_odd(lv: Seq<u8>)
    ensures
        forall|k: int| 0 <= k < lv.len() && lv[k] % 2 == 1 ==> lowest_odd_level(lv) <= lv[k],
        lowest_odd_level(lv) != u8::MAX ==> exists|k: int|
            0 <= k < lv.len() && lv[k] == lowest_odd_level(lv),
    decreases lv.len(),
{
    if lv.len() > 0 {
        lemma_lowest_odd(lv.drop_last());
        assert forall|k: int| 0 <= k < lv.len() - 1 implies lv[k] == lv.drop_last()[k] by {}
        let m = lowest_odd_level(lv.drop_last());
        if lv.last() % 2 == 1 && lv.last() < m {
            assert(lv[lv.len() - 1] == lowest_odd_level(lv));
        } else if m != u8::MAX {
            let k = choose|k: int| 0 <= k < lv.drop_last().len() && lv.drop_last()[k] == m;
            assert(lv[k] == lowest_odd_level(lv));
        }
    }
}

/// Reverse `v[lo..hi]` in place.
fn reverse_range(v: &mut Vec<usize>, lo: usize, hi: usize)
    requires
        lo <= hi <= old(v)@.len(),
    ensures
        final(v)@.len() == old(v)@.len(),
        forall|k: int|
            0 <= k < old(v)@.len() ==> final(v)@[k] == if lo <= k < hi {
                old(v)@[lo + hi - 1 - k]
            } else {
                old(v)@[k]
            },
{
    let ghost o = v@;
    let mut a = lo;
    let mut b = hi;
    while b - a > 1
        invariant
            lo <= a <= b <= hi <= o.len(),
            v@.len() == o.len(),
            a - lo == hi - b,
            forall|k: int|
                0 <= k < o.len() ==> v@[k] == if (lo <= k < a) || (b <= k < hi) {
                    o[lo + hi - 1 - k]
                } else {
                    o[k]
                },
        decreases b - a,
    {
        let x = v[a];
        let y = v[b - 1];
        v.set(a, y);
        v.set(b - 1, x);
        a = a + 1;
        b = b - 1;
    }
}

/// Apply UAX #9 §3.4 rule L2 to one line: entry `v` of the result is
/// the logical index of the character displayed at visual position
/// `v`. The result is always a permutation of `0..levels.len()`.
pub fn reorder_line(levels: &[u8]) -> (r: Vec<usize>)
    ensures
        r@ == reorder_spec(levels@),
        is_permutation(r@, levels@.len()),
{
    let ghost lv = levels@;
    let n = levels.len();
    proof {
        lemma_reorder_is_permutation(levels@);
    }
    let mut visual: Vec<usize> = Vec::new();
    for i in 0..n
        invariant
            n == levels@.len(),
            visual@.len() == i,
            forall|k: int| 0 <= k < i ==> visual@[k] == k,
    {
        visual.push(i);
    }
    assert(visual@ =~= identity_seq(lv.len()));
    if n == 0 {
        return visual;
    }
    let mut max_l: u8 = 0;
    let mut low: u8 = u8::MAX;
    for i in 0..n
        invariant
            n == levels@.len(),
            lv == levels@,
            max_l == max_level(lv.take(i as int)),
            visual@ == identity_seq(lv.len()),
            low == lowest_odd_level(lv.take(i as int)),
    {
        proof {
            assert(lv.take(i + 1).drop_last() =~= lv.take(i as int));
        }
        if levels[i] > max_l {
            max_l = levels[i];
        }
        if levels[i] % 2 == 1 && levels[i] < low {
            low = levels[i];
        }
    }
    assert(lv.take(n as int) =~= lv);
    if low == u8::MAX {
        return visual;
    }
    proof {
        lemma_lowest_odd(lv);
        lemma_max_level(lv);
    }
    let mut level = max_l;
    let ghost id = identity_seq(lv.len());
    loop
        invariant_except_break
            reverse_from(visual@, lv, level as int, low as int) == reverse_from(
                id,
                lv,
                max_l as int,
                low as int,
            ),
        invariant
            n == levels@.len(),
            lv == levels@,
            n > 0,
            low == lowest_odd_level(lv),
            low != u8::MAX,
            max_l == max_level(lv),
            low <= level <= max_l,
            visual@.len() == n,
        ensures
            visual@ == reverse_from(id, lv, max_l as int, low as int),
        decreases level,
    {
        let ghost start = visual@;
        let mut i: usize = 0;
        while i < n
            invariant
                n == levels@.len(),
                lv == levels@,
                visual@.len() == n,
                start.len() == n,
                i <= n,
                i == 0 || lv[i - 1] < level || i == n || lv[i as int] < level,
                forall|k: int| 0 <= k < i ==> visual@[k] == reverse_runs(start, lv, level)[k],
                forall|k: int| i <= k < n ==> visual@[k] == start[k],
            decreases n - i,
        {
            if levels[i] >= level {
                let mut j = i + 1;
                while j < n && levels[j] >= level
                    invariant
                        n == levels@.len(),
                        lv == levels@,
                        i < j <= n,
                        forall|m: int| i <= m < j ==> lv[m] >= level,
                    decreases n - j,
                {
                    j = j + 1;
                }
                proof {
                    assert forall|k: int| i <= k < j implies run_lo(lv, level, k) == i && run_hi(
                        lv,
                        level,
                        k,
                    ) == j by {
                        lemma_run_same(lv, level, i as int, j as int, k);
                    }
                }
                reverse_range(&mut visual, i, j);
                i = j;
            } else {
                i = i + 1;
            }
        }
        assert(visual@ =~= reverse_runs(start, lv, level));
        if level == low {
            break ;
        }
        assert(reverse_from(start, lv, level as int, low as int) == reverse_from(
            reverse_runs(start, lv, level),
            lv,
            level - 1,
            low as int,
        ));
        level = level - 1;
    }
    visual
}

} // verus!
