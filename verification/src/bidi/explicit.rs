//! Explicit embedding levels and directional overrides (UAX #9 X1..X9).

use vstd::prelude::*;
use super::class::BidiClass;
use super::paragraph::{fsi_inner_level, fsi_scan};

verus! {

/// Maximum explicit embedding depth per UAX #9 §3.1.2 BD2.
pub const MAX_DEPTH: u8 = 125;

/// Output of the X1..X9 explicit-level pass: per-character embedding
/// level, override-rewritten class and X9 removal flag.
#[derive(Debug, Clone, PartialEq, Eq)]
pub struct ExplicitLevels {
    /// Per-character embedding level assigned by X1..X8.
    pub levels: Vec<u8>,
    /// Per-character class after override rewriting.
    pub effective_classes: Vec<BidiClass>,
    /// `removed[i]` iff the `i`th character is removed by X9.
    pub removed: Vec<bool>,
}

/// Directional override status of a stack entry (BD6).
#[derive(Debug, Clone, Copy, PartialEq, Eq, Structural)]
pub enum OverrideStatus {
    /// No override.
    Neutral,
    /// Left-to-right override.
    Ltr,
    /// Right-to-left override.
    Rtl,
}

/// One entry of the directional status stack.
#[derive(Debug, Clone, Copy)]
pub struct StackFrame {
    /// Embedding level of the scope.
    pub level: u8,
    /// Override status of the scope.
    pub overrride: OverrideStatus,
    /// Whether the scope was opened by an isolate initiator.
    pub isolate: bool,
}

/// The state of X1..X8 between characters: the directional status
/// stack, the overflow isolate count, the overflow embedding count and
/// the valid isolate count.
pub type XState = (Seq<StackFrame>, u32, u32, u32);

/// `a + b`, saturating at `u8::MAX`.
pub open spec fn sat_add_u8(a: u8, b: u8) -> u8 {
    if a + b > 255 {
        255
    } else {
        (a + b) as u8
    }
}

/// `x + 1`, saturating at `u32::MAX`.
pub open spec fn sat_inc(x: u32) -> u32 {
    if x == u32::MAX {
        x
    } else {
        (x + 1) as u32
    }
}

/// Least odd level greater than `level` (saturating).
pub open spec fn least_greater_odd_spec(level: u8) -> u8 {
    if level % 2 == 0 {
        sat_add_u8(level, 1)
    } else {
        sat_add_u8(level, 2)
    }
}

/// Least even level greater than `level` (saturating).
pub open spec fn least_greater_even_spec(level: u8) -> u8 {
    if level % 2 == 0 {
        sat_add_u8(level, 2)
    } else {
        sat_add_u8(level, 1)
    }
}

/// The class a character takes under an override status.
pub open spec fn override_class(o: OverrideStatus, c: BidiClass) -> BidiClass {
    match o {
        OverrideStatus::Ltr => BidiClass::L,
        OverrideStatus::Rtl => BidiClass::R,
        OverrideStatus::Neutral => c,
    }
}

/// X1: the stack holds the paragraph level, no override, not an
/// isolate; every count is zero.
pub open spec fn x_initial(pl: u8) -> XState {
    (seq![StackFrame { level: pl, overrride: OverrideStatus::Neutral, isolate: false }], 0, 0, 0)
}

/// X2..X5: an embedding or override initiator.
pub open spec fn embed_step(st: XState, odd: bool, o: OverrideStatus) -> XState {
    let top = st.0.last();
    let nl = if odd {
        least_greater_odd_spec(top.level)
    } else {
        least_greater_even_spec(top.level)
    };
    if nl <= MAX_DEPTH && st.1 == 0 && st.2 == 0 {
        (st.0.push(StackFrame { level: nl, overrride: o, isolate: false }), st.1, st.2, st.3)
    } else if st.1 == 0 {
        (st.0, st.1, sat_inc(st.2), st.3)
    } else {
        st
    }
}

/// X5a..X5c: an isolate initiator.
pub open spec fn isolate_step(st: XState, odd: bool) -> XState {
    let top = st.0.last();
    let nl = if odd {
        least_greater_odd_spec(top.level)
    } else {
        least_greater_even_spec(top.level)
    };
    if nl <= MAX_DEPTH && st.1 == 0 && st.2 == 0 {
        (
            st.0.push(StackFrame { level: nl, overrride: OverrideStatus::Neutral, isolate: true }),
            st.1,
            st.2,
            sat_inc(st.3),
        )
    } else {
        (st.0, sat_inc(st.1), st.2, st.3)
    }
}

/// The stack with every entry above the last isolate entry popped.
pub open spec fn pop_to_isolate(s: Seq<StackFrame>) -> Seq<StackFrame>
    decreases s.len(),
{
    if s.len() == 0 {
        s
    } else if s.last().isolate {
        s
    } else {
        pop_to_isolate(s.drop_last())
    }
}

/// X6a: a PDI.
pub open spec fn pdi_step(st: XState) -> XState {
    if st.1 > 0 {
        (st.0, (st.1 - 1) as u32, st.2, st.3)
    } else if st.3 > 0 {
        (pop_to_isolate(st.0).drop_last(), st.1, 0, (st.3 - 1) as u32)
    } else {
        st
    }
}

/// X7: a PDF.
pub open spec fn pdf_step(st: XState) -> XState {
    if st.1 > 0 {
        st
    } else if st.2 > 0 {
        (st.0, st.1, (st.2 - 1) as u32, st.3)
    } else if st.0.len() >= 2 && !st.0.last().isolate {
        (st.0.drop_last(), st.1, st.2, st.3)
    } else {
        st
    }
}

/// The state after the character at `i`.
pub open spec fn x_next(s: Seq<BidiClass>, i: int, st: XState) -> XState {
    match s[i] {
        BidiClass::RLE => embed_step(st, true, OverrideStatus::Neutral),
        BidiClass::LRE => embed_step(st, false, OverrideStatus::Neutral),
        BidiClass::RLO => embed_step(st, true, OverrideStatus::Rtl),
        BidiClass::LRO => embed_step(st, false, OverrideStatus::Ltr),
        BidiClass::RLI => isolate_step(st, true),
        BidiClass::LRI => isolate_step(st, false),
        BidiClass::FSI => isolate_step(st, fsi_scan(s, i + 1, 0) == 1),
        BidiClass::PDI => pdi_step(st),
        BidiClass::PDF => pdf_step(st),
        _ => st,
    }
}

/// The state after the first `n` characters of a paragraph at level
/// `pl`.
pub open spec fn x_state(s: Seq<BidiClass>, pl: u8, n: int) -> XState
    decreases n,
{
    if n <= 0 {
        x_initial(pl)
    } else {
        x_next(s, n - 1, x_state(s, pl, n - 1))
    }
}

/// The classes X9 removes: embedding and override initiators, PDF, BN.
pub open spec fn is_x9_removed(c: BidiClass) -> bool {
    c is RLE || c is LRE || c is RLO || c is LRO || c is PDF || c is BN
}

/// X1..X8: the level assigned to the character at `i`. An isolate
/// initiator takes the level of its enclosing scope; a paragraph
/// separator the paragraph level; every other character the level on
/// top of the stack after it is processed.
pub open spec fn x_level(s: Seq<BidiClass>, pl: u8, i: int) -> u8 {
    if s[i] is RLI || s[i] is LRI || s[i] is FSI {
        x_state(s, pl, i).0.last().level
    } else if s[i] is B {
        pl
    } else {
        x_state(s, pl, i + 1).0.last().level
    }
}

/// X4..X6a: the class of the character at `i` after override
/// rewriting.
pub open spec fn x_class(s: Seq<BidiClass>, pl: u8, i: int) -> BidiClass {
    if is_x9_removed(s[i]) || s[i] is B {
        s[i]
    } else if s[i] is RLI || s[i] is LRI || s[i] is FSI {
        override_class(x_state(s, pl, i).0.last().overrride, s[i])
    } else {
        override_class(x_state(s, pl, i + 1).0.last().overrride, s[i])
    }
}

/// The number of isolate entries on a stack.
pub open spec fn count_isolates(s: Seq<StackFrame>) -> nat
    decreases s.len(),
{
    if s.len() == 0 {
        0
    } else {
        count_isolates(s.drop_last()) + if s.last().isolate {
            1nat
        } else {
            0nat
        }
    }
}

/// The stack invariant: the paragraph entry stays at the bottom, and
/// the valid isolate count never exceeds the isolate entries.
pub open spec fn x_state_wf(st: XState) -> bool {
    &&& st.0.len() >= 1
    &&& !st.0[0].isolate
    &&& st.3 <= count_isolates(st.0)
}

proof fn lemma_count_isolates_push(s: Seq<StackFrame>, f: StackFrame)
    ensures
        count_isolates(s.push(f)) == count_isolates(s) + if f.isolate {
            1nat
        } else {
            0nat
        },
{
    assert(s.push(f).drop_last() =~= s);
}

/// Popping to the last isolate entry keeps a prefix that ends with it.
pub(crate) proof fn lemma_pop_to_isolate(s: Seq<StackFrame>)
    requires
        count_isolates(s) >= 1,
    ensures
        pop_to_isolate(s).len() >= 1,
        pop_to_isolate(s).len() <= s.len(),
        pop_to_isolate(s) =~= s.take(pop_to_isolate(s).len() as int),
        pop_to_isolate(s).last().isolate,
        count_isolates(pop_to_isolate(s).drop_last()) + 1 == count_isolates(s),
    decreases s.len(),
{
    if s.len() > 0 && !s.last().isolate {
        lemma_pop_to_isolate(s.drop_last());
        let p = pop_to_isolate(s.drop_last());
        assert(s.drop_last().take(p.len() as int) =~= s.take(p.len() as int));
    }
}

/// The state machine stays well formed.
proof fn lemma_x_next_wf(s: Seq<BidiClass>, i: int, st: XState)
    requires
        x_state_wf(st),
    ensures
        x_state_wf(x_next(s, i, st)),
{
    let top = st.0.last();
    assert forall|f: StackFrame| count_isolates(#[trigger] st.0.push(f)) >= count_isolates(st.0) by {
        lemma_count_isolates_push(st.0, f);
    }
    match s[i] {
        BidiClass::RLI | BidiClass::LRI | BidiClass::FSI => {
            let odd = if s[i] is RLI {
                true
            } else if s[i] is LRI {
                false
            } else {
                fsi_scan(s, i + 1, 0) == 1
            };
            let nl = if odd {
                least_greater_odd_spec(top.level)
            } else {
                least_greater_even_spec(top.level)
            };
            let f = StackFrame { level: nl, overrride: OverrideStatus::Neutral, isolate: true };
            lemma_count_isolates_push(st.0, f);
        },
        BidiClass::PDI => {
            if st.1 == 0 && st.3 > 0 {
                lemma_pop_to_isolate(st.0);
                let p = pop_to_isolate(st.0);
                if p.len() == 1 {
                    assert(p[0] == st.0[0]);
                }
                assert(p.drop_last()[0] == st.0[0]);
            }
        },
        BidiClass::PDF => {
            if st.1 == 0 && st.2 == 0 && st.0.len() >= 2 && !st.0.last().isolate {
                assert(count_isolates(st.0) == count_isolates(st.0.drop_last()));
            }
        },
        _ => {},
    }
}

proof fn lemma_x_state_wf(s: Seq<BidiClass>, pl: u8, n: int)
    ensures
        x_state_wf(x_state(s, pl, n)),
    decreases n,
{
    if n <= 0 {
        let st = x_initial(pl);
        assert(st.0.drop_last() =~= Seq::<StackFrame>::empty());
    } else {
        lemma_x_state_wf(s, pl, n - 1);
        lemma_x_next_wf(s, n - 1, x_state(s, pl, n - 1));
    }
}

proof fn lemma_pop_prefix(s: Seq<StackFrame>)
    ensures
        pop_to_isolate(s).len() <= s.len(),
        forall|k: int| 0 <= k < pop_to_isolate(s).len() ==> pop_to_isolate(s)[k] == s[k],
    decreases s.len(),
{
    if s.len() > 0 && !s.last().isolate {
        lemma_pop_prefix(s.drop_last());
        assert forall|k: int| 0 <= k < pop_to_isolate(s).len() implies pop_to_isolate(s)[k]
            == s[k] by {
            assert(pop_to_isolate(s.drop_last())[k] == s.drop_last()[k]);
        }
    }
}

/// Every level on the stack stays within `MAX_DEPTH` when the paragraph
/// level does.
proof fn lemma_x_state_levels(s: Seq<BidiClass>, pl: u8, n: int)
    requires
        pl <= MAX_DEPTH,
    ensures
        forall|k: int|
            0 <= k < x_state(s, pl, n).0.len() ==> (#[trigger] x_state(s, pl, n).0[k]).level
                <= MAX_DEPTH,
    decreases n,
{
    if n > 0 {
        lemma_x_state_levels(s, pl, n - 1);
        lemma_x_state_wf(s, pl, n - 1);
        let st = x_state(s, pl, n - 1);
        lemma_pop_prefix(st.0);
        if st.3 > 0 {
            lemma_pop_to_isolate(st.0);
        }
        let nx = x_next(s, n - 1, st);
        assert(nx == x_state(s, pl, n));
        assert forall|k: int| 0 <= k < nx.0.len() implies (#[trigger] nx.0[k]).level <= MAX_DEPTH by {
            match s[n - 1] {
                BidiClass::PDI => {
                    if st.1 == 0 && st.3 > 0 {
                        let p = pop_to_isolate(st.0);
                        assert(nx.0 == p.drop_last());
                        assert(p[k] == st.0[k]);
                    } else {
                        assert(nx.0 == st.0);
                    }
                },
                BidiClass::PDF => {
                    assert(nx.0[k] == st.0[k]);
                },
                _ => {
                    if k < st.0.len() {
                        assert(nx.0[k] == st.0[k]);
                    }
                },
            }
        }
    }
}

/// X1..X8 never assign a level above `MAX_DEPTH` when the paragraph
/// level is within it.
pub proof fn lemma_x_level_bounded(s: Seq<BidiClass>, pl: u8, i: int)
    requires
        pl <= MAX_DEPTH,
        0 <= i < s.len(),
    ensures
        x_level(s, pl, i) <= MAX_DEPTH,
{
    lemma_x_state_levels(s, pl, i);
    lemma_x_state_levels(s, pl, i + 1);
    lemma_x_state_wf(s, pl, i);
    lemma_x_state_wf(s, pl, i + 1);
}

/// Least odd level strictly greater than `level` (X2 / X4 / X5a);
/// saturates at `u8::MAX`.
pub fn least_greater_odd(level: u8) -> (r: u8)
    ensures
        r == least_greater_odd_spec(level),
{
    if level & 1 == 0 {
        assert(level & 1 == 0 ==> level % 2 == 0) by (bit_vector);
        level.saturating_add(1)
    } else {
        assert(level & 1 != 0 ==> level % 2 == 1) by (bit_vector);
        level.saturating_add(2)
    }
}

/// Least even level strictly greater than `level` (X3 / X5 / X5b);
/// saturates at `u8::MAX`.
pub fn least_greater_even(level: u8) -> (r: u8)
    ensures
        r == least_greater_even_spec(level),
{
    if level & 1 == 0 {
        assert(level & 1 == 0 ==> level % 2 == 0) by (bit_vector);
        level.saturating_add(2)
    } else {
        assert(level & 1 != 0 ==> level % 2 == 1) by (bit_vector);
        level.saturating_add(1)
    }
}

/// X2..X5: push an embedding or override scope, or count an overflow;
/// writes the initiator's level (the stack top after the step).
fn apply_embedding(
    stack: &mut Vec<StackFrame>,
    overflow_isolate: &mut u32,
    overflow_embedding: &mut u32,
    levels: &mut Vec<u8>,
    i: usize,
    target_odd: bool,
    override_status: OverrideStatus,
)
    requires
        old(stack)@.len() >= 1,
        i < old(levels)@.len(),
    ensures
        (final(stack)@, *final(overflow_isolate), *final(overflow_embedding), 0u32) == embed_step(
            (old(stack)@, *old(overflow_isolate), *old(overflow_embedding), 0u32),
            target_odd,
            override_status,
        ),
        final(levels)@ == old(levels)@.update(i as int, final(stack)@.last().level),
{
    let enclosing_level = stack[stack.len() - 1].level;
    let new_level = if target_odd {
        least_greater_odd(enclosing_level)
    } else {
        least_greater_even(enclosing_level)
    };
    if new_level <= MAX_DEPTH && *overflow_isolate == 0 && *overflow_embedding == 0 {
        stack.push(StackFrame { level: new_level, overrride: override_status, isolate: false });
    } else if *overflow_isolate == 0 {
        *overflow_embedding = overflow_embedding.saturating_add(1);
    }
    levels.set(i, stack[stack.len() - 1].level);
}

/// X5a..X5c: assign the initiator the enclosing level and class, then
/// push an isolate scope or count an overflow.
fn apply_isolate(
    stack: &mut Vec<StackFrame>,
    overflow_isolate: &mut u32,
    overflow_embedding: &mut u32,
    valid_isolate: &mut u32,
    levels: &mut Vec<u8>,
    effective: &mut Vec<BidiClass>,
    i: usize,
    target_odd: bool,
)
    requires
        old(stack)@.len() >= 1,
        i < old(levels)@.len(),
        i < old(effective)@.len(),
    ensures
        (final(stack)@, *final(overflow_isolate), *final(overflow_embedding), *final(valid_isolate))
            == isolate_step(
            (old(stack)@, *old(overflow_isolate), *old(overflow_embedding), *old(valid_isolate)),
            target_odd,
        ),
        final(levels)@ == old(levels)@.update(i as int, old(stack)@.last().level),
        final(effective)@ == old(effective)@.update(
            i as int,
            override_class(old(stack)@.last().overrride, old(effective)@[i as int]),
        ),
{
    let enclosing = stack[stack.len() - 1];
    levels.set(i, enclosing.level);
    let cur = effective[i];
    let rewritten = match enclosing.overrride {
        OverrideStatus::Ltr => BidiClass::L,
        OverrideStatus::Rtl => BidiClass::R,
        OverrideStatus::Neutral => cur,
    };
    effective.set(i, rewritten);
    let new_level = if target_odd {
        least_greater_odd(enclosing.level)
    } else {
        least_greater_even(enclosing.level)
    };
    if new_level <= MAX_DEPTH && *overflow_isolate == 0 && *overflow_embedding == 0 {
        *valid_isolate = valid_isolate.saturating_add(1);
        stack.push(StackFrame { level: new_level, overrride: OverrideStatus::Neutral, isolate: true });
    } else {
        *overflow_isolate = overflow_isolate.saturating_add(1);
    }
}

/// Resolve explicit embedding levels and override types for a whole
/// paragraph per UAX #9 X1..X9. For every position: `levels` is the
/// level X1..X8 assign, `effective_classes` the class after override
/// rewriting, `removed` whether X9 removes the character.
pub fn resolve_explicit_levels(classes: &[BidiClass], paragraph_level: u8) -> (r: ExplicitLevels)
    ensures
        r.levels@.len() == classes@.len(),
        r.effective_classes@.len() == classes@.len(),
        r.removed@.len() == classes@.len(),
        forall|i: int|
            0 <= i < classes@.len() ==> r.levels@[i] == x_level(classes@, paragraph_level, i),
        forall|i: int|
            0 <= i < classes@.len() ==> r.effective_classes@[i] == x_class(
                classes@,
                paragraph_level,
                i,
            ),
        forall|i: int| 0 <= i < classes@.len() ==> r.removed@[i] == is_x9_removed(classes@[i]),
{
    let n = classes.len();
    let mut levels: Vec<u8> = Vec::new();
    let mut effective: Vec<BidiClass> = Vec::new();
    let mut removed: Vec<bool> = Vec::new();
    for k in 0..n
        invariant
            n == classes@.len(),
            levels@.len() == k,
            effective@.len() == k,
            removed@.len() == k,
            forall|j: int| 0 <= j < k ==> effective@[j] == classes@[j],
            forall|j: int| 0 <= j < k ==> !removed@[j],
    {
        levels.push(paragraph_level);
        effective.push(classes[k]);
        removed.push(false);
    }
    let mut stack: Vec<StackFrame> = Vec::new();
    stack.push(
        StackFrame { level: paragraph_level, overrride: OverrideStatus::Neutral, isolate: false },
    );
    let mut overflow_isolate: u32 = 0;
    let mut overflow_embedding: u32 = 0;
    let mut valid_isolate: u32 = 0;
    let ghost s = classes@;
    let ghost pl = paragraph_level;
    proof {
        assert(stack@ =~= x_initial(pl).0);
    }
    for i in 0..n
        invariant
            n == classes@.len(),
            s == classes@,
            pl == paragraph_level,
            levels@.len() == n,
            effective@.len() == n,
            removed@.len() == n,
            (stack@, overflow_isolate, overflow_embedding, valid_isolate) == x_state(s, pl, i as int),
            forall|j: int| i <= j < n ==> effective@[j] == classes@[j],
            forall|j: int| i <= j < n ==> !removed@[j],
            forall|j: int| 0 <= j < i ==> levels@[j] == x_level(s, pl, j),
            forall|j: int| 0 <= j < i ==> effective@[j] == x_class(s, pl, j),
            forall|j: int| 0 <= j < i ==> removed@[j] == is_x9_removed(s[j]),
    {
        proof {
            lemma_x_state_wf(s, pl, i as int);
        }
        let cls = classes[i];
        match cls {
            BidiClass::RLE => {
                apply_embedding(
                    &mut stack,
                    &mut overflow_isolate,
                    &mut overflow_embedding,
                    &mut levels,
                    i,
                    true,
                    OverrideStatus::Neutral,
                );
            },
            BidiClass::LRE => {
                apply_embedding(
                    &mut stack,
                    &mut overflow_isolate,
                    &mut overflow_embedding,
                    &mut levels,
                    i,
                    false,
                    OverrideStatus::Neutral,
                );
            },
            BidiClass::RLO => {
                apply_embedding(
                    &mut stack,
                    &mut overflow_isolate,
                    &mut overflow_embedding,
                    &mut levels,
                    i,
                    true,
                    OverrideStatus::Rtl,
                );
            },
            BidiClass::LRO => {
                apply_embedding(
                    &mut stack,
                    &mut overflow_isolate,
                    &mut overflow_embedding,
                    &mut levels,
                    i,
                    false,
                    OverrideStatus::Ltr,
                );
            },
            BidiClass::RLI => {
                apply_isolate(
                    &mut stack,
                    &mut overflow_isolate,
                    &mut overflow_embedding,
                    &mut valid_isolate,
                    &mut levels,
                    &mut effective,
                    i,
                    true,
                );
            },
            BidiClass::LRI => {
                apply_isolate(
                    &mut stack,
                    &mut overflow_isolate,
                    &mut overflow_embedding,
                    &mut valid_isolate,
                    &mut levels,
                    &mut effective,
                    i,
                    false,
                );
            },
            BidiClass::FSI => {
                let span_level = fsi_inner_level(classes, i + 1);
                apply_isolate(
                    &mut stack,
                    &mut overflow_isolate,
                    &mut overflow_embedding,
                    &mut valid_isolate,
                    &mut levels,
                    &mut effective,
                    i,
                    span_level == 1,
                );
            },
            BidiClass::PDI => {
                if overflow_isolate > 0 {
                    overflow_isolate = overflow_isolate - 1;
                } else if valid_isolate > 0 {
                    overflow_embedding = 0;
                    proof {
                        lemma_pop_to_isolate(stack@);
                    }
                    let ghost before = stack@;
                    while !stack[stack.len() - 1].isolate
                        invariant
                            stack@.len() >= 1,
                            count_isolates(stack@) >= 1,
                            pop_to_isolate(stack@) == pop_to_isolate(before),
                        decreases stack@.len(),
                    {
                        proof {
                            assert(count_isolates(stack@) == count_isolates(stack@.drop_last()));
                            if stack@.len() == 1 {
                                assert(stack@.drop_last() =~= Seq::<StackFrame>::empty());
                            }
                        }
                        stack.pop();
                    }
                    stack.pop();
                    valid_isolate = valid_isolate - 1;
                }
                let top = stack[stack.len() - 1];
                levels.set(i, top.level);
                let rewritten = match top.overrride {
                    OverrideStatus::Ltr => BidiClass::L,
                    OverrideStatus::Rtl => BidiClass::R,
                    OverrideStatus::Neutral => BidiClass::PDI,
                };
                effective.set(i, rewritten);
            },
            BidiClass::PDF => {
                if overflow_isolate > 0 {
                } else if overflow_embedding > 0 {
                    overflow_embedding = overflow_embedding - 1;
                } else if stack.len() >= 2 && !stack[stack.len() - 1].isolate {
                    stack.pop();
                }
                levels.set(i, stack[stack.len() - 1].level);
            },
            BidiClass::B => {
                levels.set(i, paragraph_level);
            },
            BidiClass::BN => {
                let top = stack[stack.len() - 1];
                levels.set(i, top.level);
            },
            _ => {
                let top = stack[stack.len() - 1];
                levels.set(i, top.level);
                let cur = effective[i];
                let rewritten = match top.overrride {
                    OverrideStatus::Ltr => BidiClass::L,
                    OverrideStatus::Rtl => BidiClass::R,
                    OverrideStatus::Neutral => cur,
                };
                effective.set(i, rewritten);
            },
        }
        if matches!(
            cls,
            BidiClass::RLE | BidiClass::LRE | BidiClass::RLO | BidiClass::LRO | BidiClass::PDF
                | BidiClass::BN
        ) {
            removed.set(i, true);
        }
    }
    ExplicitLevels { levels, effective_classes: effective, removed }
}

} // verus!
