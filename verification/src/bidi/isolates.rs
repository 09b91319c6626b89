//! How X1..X8 treat a matched isolate: the stack after the matching
//! PDI is the stack before its initiator, so both take one level.

use vstd::prelude::*;
use super::class::{BidiClass, is_isolate_initiator_class};
use super::paragraph::{pdi_search, lemma_pdi_search_bounds};
use super::explicit::{
    StackFrame,
    count_isolates,
    pop_to_isolate,
    x_state,
    x_next,
    x_level,
    sat_inc,
};

verus! {

/// The stack `st` keeps `pre` as its bottom part.
pub open spec fn extends(st: Seq<StackFrame>, pre: Seq<StackFrame>) -> bool {
    pre.len() <= st.len() && st.take(pre.len() as int) == pre
}

proof fn lemma_count_push(s: Seq<StackFrame>, f: StackFrame)
    ensures
        count_isolates(s.push(f)) == count_isolates(s) + if f.isolate {
            1nat
        } else {
            0nat
        },
{
    assert(s.push(f).drop_last() =~= s);
}

/// A bottom part of a stack holds no more isolate entries than the
/// whole.
proof fn lemma_count_prefix(s: Seq<StackFrame>, pre: Seq<StackFrame>)
    requires
        extends(s, pre),
    ensures
        count_isolates(pre) <= count_isolates(s),
    decreases s.len(),
{
    if s.len() > pre.len() {
        assert(s.drop_last().take(pre.len() as int) =~= s.take(pre.len() as int));
        lemma_count_prefix(s.drop_last(), pre);
    } else {
        assert(s =~= pre);
    }
}

/// With an isolate entry above `pre`, popping to the last isolate entry
/// stops above `pre`.
proof fn lemma_pop_above(s: Seq<StackFrame>, pre: Seq<StackFrame>)
    requires
        pre.len() >= 1,
        pre.last().isolate,
        extends(s, pre),
        count_isolates(s) > count_isolates(pre),
    ensures
        pop_to_isolate(s).len() > pre.len(),
        extends(pop_to_isolate(s), pre),
        pop_to_isolate(s).last().isolate,
        count_isolates(pop_to_isolate(s).drop_last()) + 1 == count_isolates(s),
    decreases s.len(),
{
    if s.len() == pre.len() {
        assert(s =~= pre);
    } else if s.last().isolate {
        assert(s.drop_last() == s.take(s.len() - 1));
    } else {
        assert(s.drop_last().take(pre.len() as int) =~= s.take(pre.len() as int));
        lemma_pop_above(s.drop_last(), pre);
    }
}

/// With no isolate entry above `pre`, popping to the last isolate entry
/// leaves exactly `pre`.
proof fn lemma_pop_exact(s: Seq<StackFrame>, pre: Seq<StackFrame>)
    requires
        pre.len() >= 1,
        pre.last().isolate,
        extends(s, pre),
        count_isolates(s) == count_isolates(pre),
    ensures
        pop_to_isolate(s) == pre,
    decreases s.len(),
{
    if s.len() == pre.len() {
        assert(s =~= pre);
    } else {
        assert(s.drop_last().take(pre.len() as int) =~= s.take(pre.len() as int));
        lemma_count_prefix(s.drop_last(), pre);
        lemma_pop_exact(s.drop_last(), pre);
    }
}

/// No counter of X1..X8 grows faster than one per character.
proof fn lemma_x_counts_bounded(s: Seq<BidiClass>, pl: u8, n: int)
    requires
        0 <= n <= s.len(),
    ensures
        x_state(s, pl, n).1 <= n,
        x_state(s, pl, n).2 <= n,
        x_state(s, pl, n).3 <= n,
    decreases n,
{
    if n > 0 {
        lemma_x_counts_bounded(s, pl, n - 1);
    }
}

/// The valid isolate count is the number of isolate entries on the
/// stack while no counter saturates.
proof fn lemma_x_valid_count(s: Seq<BidiClass>, pl: u8, n: int)
    requires
        0 <= n <= s.len(),
        s.len() < u32::MAX,
    ensures
        x_state(s, pl, n).3 == count_isolates(x_state(s, pl, n).0),
    decreases n,
{
    if n == 0 {
        let st = x_state(s, pl, 0);
        assert(st.0.drop_last() =~= Seq::<StackFrame>::empty());
        assert(count_isolates(st.0) == count_isolates(st.0.drop_last()));
    } else {
        lemma_x_valid_count(s, pl, n - 1);
        lemma_x_counts_bounded(s, pl, n - 1);
        let st = x_state(s, pl, n - 1);
        let nx = x_state(s, pl, n);
        assert(nx == x_next(s, n - 1, st));
        assert forall|f: StackFrame| count_isolates(#[trigger] st.0.push(f)) == count_isolates(st.0)
            + if f.isolate {
            1nat
        } else {
            0nat
        } by {
            lemma_count_push(st.0, f);
        }
        assert(sat_inc(st.3) == st.3 + 1);
        match s[n - 1] {
            BidiClass::PDI => {
                if st.1 == 0 && st.3 > 0 {
                    super::explicit::lemma_pop_to_isolate(st.0);
                }
            },
            BidiClass::PDF => {
                if st.1 == 0 && st.2 == 0 && st.0.len() >= 2 && !st.0.last().isolate {
                    assert(st.0 == st.0.drop_last().push(st.0.last()));
                }
            },
            _ => {},
        }
        assert(nx.3 == count_isolates(nx.0));
    }
}

/// Inside a matched isolate, before its PDI: `d` isolates are open.
/// When the initiator at `j` pushed a scope, the stack keeps that scope
/// and the open inner isolates are its isolate entries above it plus
/// the overflow isolates; when it overflowed, the stack is untouched
/// and the overflow isolate count holds all `d`.
pub open spec fn inside_isolate(s: Seq<BidiClass>, pl: u8, j: int, m: int, d: int) -> bool {
    let st0 = x_state(s, pl, j);
    let st1 = x_state(s, pl, j + 1);
    let st = x_state(s, pl, m);
    if st1.0.len() == st0.0.len() + 1 {
        &&& extends(st.0, st1.0)
        &&& count_isolates(st.0) + st.1 == count_isolates(st1.0) + d - 1
    } else {
        &&& st.0 == st0.0
        &&& st.1 == st0.1 + d
    }
}

proof fn lemma_inside_isolate(s: Seq<BidiClass>, pl: u8, j: int, p: int, m: int) -> (d: int)
    requires
        s.len() < u32::MAX,
        0 <= j < m <= p < s.len(),
        is_isolate_initiator_class(s[j]),
        pdi_search(s, j + 1, 1) == Some(p),
    ensures
        d >= 1,
        pdi_search(s, m, d) == Some(p),
        inside_isolate(s, pl, j, m, d),
    decreases m - j,
{
    let st0 = x_state(s, pl, j);
    let st1 = x_state(s, pl, j + 1);
    lemma_x_counts_bounded(s, pl, j);
    assert(st1 == x_next(s, j, st0));
    assert(sat_inc(st0.1) == st0.1 + 1);
    assert(sat_inc(st0.3) == st0.3 + 1);
    if m == j + 1 {
        assert(st1.0.take(st1.0.len() as int) =~= st1.0);
        1
    } else {
        let d = lemma_inside_isolate(s, pl, j, p, m - 1);
        let k = m - 1;
        let st = x_state(s, pl, k);
        let nx = x_state(s, pl, m);
        assert(nx == x_next(s, k, st));
        lemma_x_counts_bounded(s, pl, k);
        lemma_x_valid_count(s, pl, k);
        lemma_x_valid_count(s, pl, j + 1);
        lemma_x_valid_count(s, pl, j);
        assert(sat_inc(st.1) == st.1 + 1);
        assert(sat_inc(st.2) == st.2 + 1);
        assert(sat_inc(st.3) == st.3 + 1);
        assert forall|f: StackFrame| count_isolates(#[trigger] st.0.push(f)) == count_isolates(st.0)
            + if f.isolate {
            1nat
        } else {
            0nat
        } by {
            lemma_count_push(st.0, f);
        }
        let valid = st1.0.len() == st0.0.len() + 1;
        if valid {
            assert(st1.0 == st0.0.push(st1.0.last()));
            assert(st1.0.last().isolate);
            assert forall|f: StackFrame| extends(#[trigger] st.0.push(f), st1.0) by {
                assert(st.0.push(f).take(st1.0.len() as int) =~= st.0.take(st1.0.len() as int));
            }
            lemma_count_prefix(st.0, st1.0);
        }
        let e = if is_isolate_initiator_class(s[k]) {
            d + 1
        } else if s[k] is PDI {
            d - 1
        } else {
            d
        };
        match s[k] {
            BidiClass::PDI => {
                if d == 1 {
                    assert(pdi_search(s, k, d) == Some(k));
                }
                if valid && st.1 == 0 {
                    lemma_pop_above(st.0, st1.0);
                    let pp = pop_to_isolate(st.0);
                    assert(pp.drop_last().take(st1.0.len() as int) =~= pp.take(st1.0.len() as int));
                }
            },
            BidiClass::PDF => {
                if valid && st.1 == 0 && st.2 == 0 && st.0.len() >= 2 && !st.0.last().isolate {
                    if st.0.len() == st1.0.len() {
                        assert(st.0 =~= st1.0);
                    }
                    assert(st.0.drop_last().take(st1.0.len() as int) =~= st.0.take(st1.0.len() as int));
                    assert(st.0 == st.0.drop_last().push(st.0.last()));
                }
            },
            _ => {},
        }
        e
    }
}

/// X6a with BD9: the matching PDI of an isolate initiator takes the
/// initiator's level (while no counter of X1..X8 saturates).
pub proof fn lemma_matched_pdi_level(s: Seq<BidiClass>, pl: u8, j: int, p: int)
    requires
        s.len() < u32::MAX,
        0 <= j < s.len(),
        is_isolate_initiator_class(s[j]),
        pdi_search(s, j + 1, 1) == Some(p),
    ensures
        x_level(s, pl, p) == x_level(s, pl, j),
        x_state(s, pl, p + 1).0 == x_state(s, pl, j).0,
{
    lemma_pdi_search_bounds(s, j + 1, 1);
    let d = lemma_inside_isolate(s, pl, j, p, p);
    assert(d == 1) by {
        if d != 1 {
            lemma_pdi_search_bounds(s, p + 1, d - 1);
        }
    }
    let st0 = x_state(s, pl, j);
    let st1 = x_state(s, pl, j + 1);
    let st = x_state(s, pl, p);
    assert(x_state(s, pl, p + 1) == x_next(s, p, st));
    lemma_x_valid_count(s, pl, p);
    lemma_x_valid_count(s, pl, j);
    lemma_x_valid_count(s, pl, j + 1);
    lemma_x_counts_bounded(s, pl, j);
    assert(st1 == x_next(s, j, st0));
    assert(sat_inc(st0.3) == st0.3 + 1);
    assert(sat_inc(st0.1) == st0.1 + 1);
    if st1.0.len() == st0.0.len() + 1 {
        assert(st1.0 == st0.0.push(st1.0.last()));
        lemma_count_push(st0.0, st1.0.last());
        lemma_count_prefix(st.0, st1.0);
        lemma_pop_exact(st.0, st1.0);
        assert(st1.0.drop_last() =~= st0.0);
    }
}

} // verus!
