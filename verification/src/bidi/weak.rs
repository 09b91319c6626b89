//! Weak-type resolution for one isolating run sequence (UAX #9 W1..W7).

use vstd::prelude::*;
use super::class::{BidiClass, is_strong_class};

verus! {

/// W1 at position `i`: a nonspacing mark takes the (already resolved)
/// type of the previous character, `sos` at the start, or `ON` after an
/// isolate initiator or PDI.
pub open spec fn w1_at(s: Seq<BidiClass>, sos: BidiClass, i: int) -> BidiClass
    decreases i,
{
    if i < 0 || i >= s.len() {
        BidiClass::ON
    } else if !(s[i] is NSM) {
        s[i]
    } else {
        let prev = if i == 0 {
            sos
        } else {
            w1_at(s, sos, i - 1)
        };
        if prev is LRI || prev is RLI || prev is FSI || prev is PDI {
            BidiClass::ON
        } else {
            prev
        }
    }
}

/// W1 over a whole sequence.
pub open spec fn w1(s: Seq<BidiClass>, sos: BidiClass) -> Seq<BidiClass> {
    Seq::new(s.len(), |i: int| w1_at(s, sos, i))
}

/// The nearest strong type (`L`, `R`, `AL`) before position `i`, or
/// `start` when there is none.
pub open spec fn last_strong_before(s: Seq<BidiClass>, i: int, start: BidiClass) -> BidiClass
    decreases i,
{
    if i <= 0 {
        start
    } else if is_strong_class(s[i - 1]) {
        s[i - 1]
    } else {
        last_strong_before(s, i - 1, start)
    }
}

/// The strong type `sos` stands for in W2 (`L` when `sos` is not strong).
pub open spec fn w2_start(sos: BidiClass) -> BidiClass {
    if is_strong_class(sos) {
        sos
    } else {
        BidiClass::L
    }
}

/// W2: a European number whose nearest preceding strong type is `AL`
/// becomes an Arabic number.
pub open spec fn w2(s: Seq<BidiClass>, start: BidiClass) -> Seq<BidiClass> {
    Seq::new(
        s.len(),
        |i: int|
            if s[i] is EN && last_strong_before(s, i, start) is AL {
                BidiClass::AN
            } else {
                s[i]
            },
    )
}

/// W3: every `AL` becomes `R`.
pub open spec fn w3(s: Seq<BidiClass>) -> Seq<BidiClass> {
    Seq::new(
        s.len(),
        |i: int|
            if s[i] is AL {
                BidiClass::R
            } else {
                s[i]
            },
    )
}

/// W4 at position `i`: a single `ES` between two `EN`s becomes `EN`; a
/// single `CS` between two numbers of the same type takes that type.
pub open spec fn w4_at(s: Seq<BidiClass>, i: int) -> BidiClass {
    if 0 < i < s.len() - 1 {
        if s[i] is ES && s[i - 1] is EN && s[i + 1] is EN {
            BidiClass::EN
        } else if s[i] is CS && s[i - 1] is EN && s[i + 1] is EN {
            BidiClass::EN
        } else if s[i] is CS && s[i - 1] is AN && s[i + 1] is AN {
            BidiClass::AN
        } else {
            s[i]
        }
    } else {
        s[i]
    }
}

/// W4 over a whole sequence.
pub open spec fn w4(s: Seq<BidiClass>) -> Seq<BidiClass> {
    Seq::new(s.len(), |i: int| w4_at(s, i))
}

/// Start of the maximal run of `ET` that ends just before `i`.
pub open spec fn et_run_start(s: Seq<BidiClass>, i: int) -> int
    decreases i,
{
    if i > 0 && s[i - 1] is ET {
        et_run_start(s, i - 1)
    } else {
        i
    }
}

/// End (exclusive) of the maximal run of `ET` that starts at `i`.
pub open spec fn et_run_end(s: Seq<BidiClass>, i: int) -> int
    decreases s.len() - i,
{
    if 0 <= i < s.len() && s[i] is ET {
        et_run_end(s, i + 1)
    } else {
        i
    }
}

/// W5: a run of `ET` adjacent to an `EN` on either side becomes `EN`.
pub open spec fn w5(s: Seq<BidiClass>) -> Seq<BidiClass> {
    Seq::new(
        s.len(),
        |i: int|
            {
                let st = et_run_start(s, i);
                let en = et_run_end(s, i);
                if s[i] is ET && ((st > 0 && s[st - 1] is EN) || (en < s.len() && s[en] is EN)) {
                    BidiClass::EN
                } else {
                    s[i]
                }
            },
    )
}

/// W6: every remaining separator or terminator becomes `ON`.
pub open spec fn w6(s: Seq<BidiClass>) -> Seq<BidiClass> {
    Seq::new(
        s.len(),
        |i: int|
            if s[i] is ES || s[i] is ET || s[i] is CS {
                BidiClass::ON
            } else {
                s[i]
            },
    )
}

/// The nearest `L` or `R` before position `i`, or `start`.
pub open spec fn last_lr_before(s: Seq<BidiClass>, i: int, start: BidiClass) -> BidiClass
    decreases i,
{
    if i <= 0 {
        start
    } else if s[i - 1] is L || s[i - 1] is R {
        s[i - 1]
    } else {
        last_lr_before(s, i - 1, start)
    }
}

/// The strong type `sos` stands for in W7 (`L` unless `sos` is `L` or `R`).
pub open spec fn w7_start(sos: BidiClass) -> BidiClass {
    if sos is L || sos is R {
        sos
    } else {
        BidiClass::L
    }
}

/// W7: a European number whose nearest preceding strong type is `L`
/// becomes `L`.
pub open spec fn w7(s: Seq<BidiClass>, start: BidiClass) -> Seq<BidiClass> {
    Seq::new(
        s.len(),
        |i: int|
            if s[i] is EN && last_lr_before(s, i, start) is L {
                BidiClass::L
            } else {
                s[i]
            },
    )
}

/// W1..W7 applied in order to one isolating run sequence.
pub open spec fn weak_spec(s: Seq<BidiClass>, sos: BidiClass) -> Seq<BidiClass> {
    w7(w6(w5(w4(w3(w2(w1(s, sos), w2_start(sos)))))), w7_start(sos))
}

fn w1_pass(classes: &mut [BidiClass], sos: BidiClass)
    ensures
        final(classes)@ == w1(old(classes)@, sos),
{
    let ghost s = classes@;
    let n = classes.len();
    for i in 0..n
        invariant
            n == classes@.len(),
            s.len() == n,
            forall|k: int| 0 <= k < i ==> classes@[k] == w1_at(s, sos, k),
            forall|k: int| i <= k < n ==> classes@[k] == s[k],
    {
        if classes[i] == BidiClass::NSM {
            assert(s[i as int] is NSM);
            assert(i > 0 ==> classes@[i - 1] == w1_at(s, sos, i - 1));
            let prev = if i == 0 {
                sos
            } else {
                classes[i - 1]
            };
            classes[i] = match prev {
                BidiClass::LRI | BidiClass::RLI | BidiClass::FSI | BidiClass::PDI => BidiClass::ON,
                other => other,
            };
        }
        assert(classes@[i as int] == w1_at(s, sos, i as int));
    }
    assert(classes@ =~= w1(s, sos));
}

fn w2_pass(classes: &mut [BidiClass], sos: BidiClass)
    ensures
        final(classes)@ == w2(old(classes)@, w2_start(sos)),
{
    let ghost s = classes@;
    let n = classes.len();
    let mut last_strong = if sos.is_strong() {
        sos
    } else {
        BidiClass::L
    };
    for i in 0..n
        invariant
            n == classes@.len(),
            s.len() == n,
            last_strong == last_strong_before(s, i as int, w2_start(sos)),
            forall|k: int| 0 <= k < i ==> classes@[k] == w2(s, w2_start(sos))[k],
            forall|k: int| i <= k < n ==> classes@[k] == s[k],
    {
        match classes[i] {
            BidiClass::L | BidiClass::R | BidiClass::AL => {
                last_strong = classes[i];
            },
            BidiClass::EN => {
                if last_strong == BidiClass::AL {
                    classes[i] = BidiClass::AN;
                }
            },
            _ => {},
        }
    }
    assert(classes@ =~= w2(s, w2_start(sos)));
}

fn w3_pass(classes: &mut [BidiClass])
    ensures
        final(classes)@ == w3(old(classes)@),
{
    let ghost s = classes@;
    let n = classes.len();
    for i in 0..n
        invariant
            n == classes@.len(),
            s.len() == n,
            forall|k: int| 0 <= k < i ==> classes@[k] == w3(s)[k],
            forall|k: int| i <= k < n ==> classes@[k] == s[k],
    {
        if classes[i] == BidiClass::AL {
            classes[i] = BidiClass::R;
        }
    }
    assert(classes@ =~= w3(s));
}

fn w4_pass(classes: &mut [BidiClass])
    ensures
        final(classes)@ == w4(old(classes)@),
{
    let ghost s = classes@;
    let n = classes.len();
    if n >= 3 {
        for i in 1..n - 1
            invariant
                n == classes@.len(),
                n >= 3,
                s.len() == n,
                forall|k: int| 0 <= k < i ==> classes@[k] == w4_at(s, k),
                forall|k: int| i <= k < n ==> classes@[k] == s[k],
        {
            let cur = classes[i];
            let prev = classes[i - 1];
            let next = classes[i + 1];
            proof {
                assert(classes@[i - 1] == w4_at(s, i - 1));
                if prev != s[i - 1] {
                    assert(s[i as int] is EN || s[i as int] is AN);
                }
            }
            match cur {
                BidiClass::ES => {
                    if prev == BidiClass::EN && next == BidiClass::EN {
                        classes[i] = BidiClass::EN;
                    }
                },
                BidiClass::CS => {
                    if prev == BidiClass::EN && next == BidiClass::EN {
                        classes[i] = BidiClass::EN;
                    } else if prev == BidiClass::AN && next == BidiClass::AN {
                        classes[i] = BidiClass::AN;
                    }
                },
                _ => {},
            }
        }
    }
    assert(classes@ =~= w4(s));
}

proof fn lemma_et_run_start(s: Seq<BidiClass>, start: int, k: int)
    requires
        0 <= start <= k <= s.len(),
        start == 0 || !(s[start - 1] is ET),
        forall|j: int| start <= j < k ==> s[j] is ET,
    ensures
        et_run_start(s, k) == start,
    decreases k,
{
    if k > start {
        lemma_et_run_start(s, start, k - 1);
    }
}

proof fn lemma_et_run_end(s: Seq<BidiClass>, k: int, end: int)
    requires
        0 <= k <= end <= s.len(),
        end == s.len() || !(s[end] is ET),
        forall|j: int| k <= j < end ==> s[j] is ET,
    ensures
        et_run_end(s, k) == end,
    decreases end - k,
{
    if k < end {
        lemma_et_run_end(s, k + 1, end);
    }
}

fn w5_pass(classes: &mut [BidiClass])
    ensures
        final(classes)@ == w5(old(classes)@),
{
    let ghost s = classes@;
    let n = classes.len();
    let mut i: usize = 0;
    while i < n
        invariant
            n == classes@.len(),
            s.len() == n,
            i <= n,
            i == 0 || !(s[i - 1] is ET) || i == n || !(s[i as int] is ET),
            forall|k: int| 0 <= k < i ==> classes@[k] == w5(s)[k],
            forall|k: int| i <= k < n ==> classes@[k] == s[k],
        decreases n - i,
    {
        if classes[i] != BidiClass::ET {
            i = i + 1;
            continue ;
        }
        let start = i;
        assert(s[start as int] is ET);
        assert(start == 0 || !(s[start - 1] is ET));
        while i < n && classes[i] == BidiClass::ET
            invariant
                n == classes@.len(),
                s.len() == n,
                start <= i <= n,
                start == 0 || !(s[start - 1] is ET),
                forall|k: int| start <= k < i ==> s[k] is ET,
                forall|k: int| 0 <= k < start ==> classes@[k] == w5(s)[k],
                forall|k: int| start <= k < n ==> classes@[k] == s[k],
            decreases n - i,
        {
            i = i + 1;
        }
        let end = i;
        let left_en = start > 0 && classes[start - 1] == BidiClass::EN;
        let right_en = end < n && classes[end] == BidiClass::EN;
        proof {
            assert forall|k: int| start <= k < end implies et_run_start(s, k) == start
                && et_run_end(s, k) == end by {
                lemma_et_run_start(s, start as int, k);
                lemma_et_run_end(s, k, end as int);
            }
            if start > 0 {
                assert(classes@[start - 1] == w5(s)[start - 1]);
                assert(!(s[start - 1] is ET));
                assert(classes@[start - 1] == s[start - 1]);
            }
        }
        if left_en || right_en {
            let mut m = start;
            while m < end
                invariant
                    n == classes@.len(),
                    s.len() == n,
                    start <= m <= end <= n,
                    left_en || right_en,
                    forall|k: int| start <= k < end ==> et_run_start(s, k) == start,
                    forall|k: int| start <= k < end ==> et_run_end(s, k) == end,
                    forall|k: int| start <= k < end ==> s[k] is ET,
                    left_en == (start > 0 && s[start - 1] is EN),
                    right_en == (end < n && s[end as int] is EN),
                    forall|k: int| 0 <= k < m ==> classes@[k] == w5(s)[k],
                    forall|k: int| m <= k < n ==> classes@[k] == s[k],
                decreases end - m,
            {
                classes[m] = BidiClass::EN;
                m = m + 1;
            }
        }
    }
    assert(classes@ =~= w5(s));
}

fn w6_pass(classes: &mut [BidiClass])
    ensures
        final(classes)@ == w6(old(classes)@),
{
    let ghost s = classes@;
    let n = classes.len();
    for i in 0..n
        invariant
            n == classes@.len(),
            s.len() == n,
            forall|k: int| 0 <= k < i ==> classes@[k] == w6(s)[k],
            forall|k: int| i <= k < n ==> classes@[k] == s[k],
    {
        if matches!(classes[i], BidiClass::ES | BidiClass::ET | BidiClass::CS) {
            classes[i] = BidiClass::ON;
        }
    }
    assert(classes@ =~= w6(s));
}

fn w7_pass(classes: &mut [BidiClass], sos: BidiClass)
    ensures
        final(classes)@ == w7(old(classes)@, w7_start(sos)),
{
    let ghost s = classes@;
    let n = classes.len();
    let mut last_strong = if matches!(sos, BidiClass::L | BidiClass::R) {
        sos
    } else {
        BidiClass::L
    };
    for i in 0..n
        invariant
            n == classes@.len(),
            s.len() == n,
            last_strong == last_lr_before(s, i as int, w7_start(sos)),
            forall|k: int| 0 <= k < i ==> classes@[k] == w7(s, w7_start(sos))[k],
            forall|k: int| i <= k < n ==> classes@[k] == s[k],
    {
        match classes[i] {
            BidiClass::L | BidiClass::R => {
                last_strong = classes[i];
            },
            BidiClass::EN => {
                if last_strong == BidiClass::L {
                    classes[i] = BidiClass::L;
                }
            },
            _ => {},
        }
    }
    assert(classes@ =~= w7(s, w7_start(sos)));
}

/// Resolve weak types for one isolating run sequence in place per UAX
/// #9 W1..W7 (§3.3.4), in order: NSM inheritance, `EN` after `AL` to
/// `AN`, `AL` to `R`, single separators between numbers, terminators
/// next to `EN`, leftover separators to `ON`, `EN` after `L` to `L`.
/// `eos` is not read by these rules.
pub fn resolve_weak_types(classes: &mut [BidiClass], sos: BidiClass, eos: BidiClass)
    ensures
        final(classes)@ == weak_spec(old(classes)@, sos),
{
    let _ = eos;
    if classes.len() == 0 {
        assert(classes@ =~= weak_spec(classes@, sos));
        return ;
    }
    w1_pass(classes, sos);
    w2_pass(classes, sos);
    w3_pass(classes);
    w4_pass(classes);
    w5_pass(classes);
    w6_pass(classes);
    w7_pass(classes, sos);
}

} // verus!
