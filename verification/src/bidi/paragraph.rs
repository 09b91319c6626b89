//! Paragraph embedding level (UAX #9 P2 / P3), matching PDIs (BD9) and
//! the first-strong search inside an FSI (X5c).

use vstd::prelude::*;
use super::class::{BidiClass, bidi_class, chars_of, classes_of, is_isolate_initiator_class};

verus! {

/// BD9 as a scan: starting at `k` with `depth` open isolates, the index
/// of the PDI that closes the outermost of them, if any.
pub open spec fn pdi_search(s: Seq<BidiClass>, k: int, depth: int) -> Option<int>
    decreases s.len() - k,
{
    if k < 0 || k >= s.len() {
        None
    } else if is_isolate_initiator_class(s[k]) {
        pdi_search(s, k + 1, depth + 1)
    } else if s[k] is PDI {
        if depth == 1 {
            Some(k)
        } else {
            pdi_search(s, k + 1, depth - 1)
        }
    } else {
        pdi_search(s, k + 1, depth)
    }
}

/// BD9: the matching PDI of the isolate initiator at `start`.
pub open spec fn matching_pdi_spec(s: Seq<BidiClass>, start: int) -> Option<int> {
    pdi_search(s, start + 1, 1)
}

/// P2 + P3 as a scan from `k` with `depth` isolates open: the level of
/// the first strong character outside every isolate (`0` for `L`, `1`
/// for `R` / `AL`), `0` when there is none.
pub open spec fn p2_scan(s: Seq<BidiClass>, k: int, depth: nat) -> u8
    decreases s.len() - k,
{
    if k < 0 || k >= s.len() {
        0
    } else if depth > 0 {
        if is_isolate_initiator_class(s[k]) {
            p2_scan(s, k + 1, depth + 1)
        } else if s[k] is PDI {
            p2_scan(s, k + 1, (depth - 1) as nat)
        } else {
            p2_scan(s, k + 1, depth)
        }
    } else if s[k] is L {
        0
    } else if s[k] is R || s[k] is AL {
        1
    } else if is_isolate_initiator_class(s[k]) {
        p2_scan(s, k + 1, 1)
    } else {
        p2_scan(s, k + 1, 0)
    }
}

/// The paragraph embedding level of a class sequence per P2 / P3.
pub open spec fn paragraph_level_spec(s: Seq<BidiClass>) -> u8 {
    p2_scan(s, 0, 0)
}

/// X5c: P2 / P3 applied from `k` up to the PDI that closes the FSI (or
/// the end of the paragraph), with `depth` nested isolates open.
pub open spec fn fsi_scan(s: Seq<BidiClass>, k: int, depth: nat) -> u8
    decreases s.len() - k,
{
    if k < 0 || k >= s.len() {
        0
    } else if is_isolate_initiator_class(s[k]) {
        fsi_scan(s, k + 1, depth + 1)
    } else if s[k] is PDI {
        if depth == 0 {
            0
        } else {
            fsi_scan(s, k + 1, (depth - 1) as nat)
        }
    } else if depth > 0 {
        fsi_scan(s, k + 1, depth)
    } else if s[k] is L {
        0
    } else if s[k] is R || s[k] is AL {
        1
    } else {
        fsi_scan(s, k + 1, 0)
    }
}

/// While isolates are open, the P2 scan resumes just after the PDI that
/// closes them, or finds nothing when none does.
pub proof fn lemma_p2_scan_skips_isolate(s: Seq<BidiClass>, k: int, depth: nat)
    requires
        0 <= k,
        depth > 0,
    ensures
        p2_scan(s, k, depth) == (match pdi_search(s, k, depth as int) {
            Some(j) => p2_scan(s, j + 1, 0),
            None => 0,
        }),
    decreases s.len() - k,
{
    if k < s.len() {
        if is_isolate_initiator_class(s[k]) {
            lemma_p2_scan_skips_isolate(s, k + 1, depth + 1);
        } else if s[k] is PDI {
            if depth > 1 {
                lemma_p2_scan_skips_isolate(s, k + 1, (depth - 1) as nat);
            }
        } else {
            lemma_p2_scan_skips_isolate(s, k + 1, depth);
        }
    }
}

/// A found matching position lies at or after the start of the search
/// and holds a PDI.
pub proof fn lemma_pdi_search_bounds(s: Seq<BidiClass>, k: int, depth: int)
    requires
        0 <= k,
    ensures
        pdi_search(s, k, depth) matches Some(j) ==> k <= j < s.len() && s[j] is PDI,
    decreases s.len() - k,
{
    if k < s.len() {
        lemma_pdi_search_bounds(s, k + 1, depth + 1);
        lemma_pdi_search_bounds(s, k + 1, depth - 1);
        lemma_pdi_search_bounds(s, k + 1, depth);
    }
}

/// Resolve the paragraph embedding level of `text` per UAX #9 P2 + P3:
/// the level of the first strong character that is not inside an
/// isolate (`1` for `R` / `AL`, `0` for `L`), `0` when there is none.
pub fn paragraph_level(text: &str) -> (r: u8)
    ensures
        r == paragraph_level_spec(classes_of(text@)),
{
    let chars = chars_of(text);
    let ghost s = classes_of(chars@);
    let n = chars.len();
    let mut depth: usize = 0;
    let mut k: usize = 0;
    while k < n
        invariant
            n == chars@.len(),
            chars@ == text@,
            s == classes_of(chars@),
            k <= n,
            depth <= k,
            p2_scan(s, 0, 0) == p2_scan(s, k as int, depth as nat),
        decreases n - k,
    {
        let class = bidi_class(chars[k]);
        assert(s[k as int] == class);
        if depth > 0 {
            match class {
                BidiClass::LRI | BidiClass::RLI | BidiClass::FSI => {
                    depth = depth + 1;
                },
                BidiClass::PDI => {
                    depth = depth - 1;
                },
                _ => {},
            }
            k = k + 1;
            continue ;
        }
        match class {
            BidiClass::L => {
                return 0;
            },
            BidiClass::R | BidiClass::AL => {
                return 1;
            },
            BidiClass::LRI | BidiClass::RLI | BidiClass::FSI => {
                depth = 1;
            },
            _ => {},
        }
        k = k + 1;
    }
    0
}

/// Find the index of the matching PDI (BD9) for the isolate initiator
/// at `start`: the first PDI after `start` at which the count of open
/// isolates returns to zero. `None` when the initiator is unbalanced.
pub fn matching_pdi(classes: &[BidiClass], start: usize) -> (r: Option<usize>)
    ensures
        r matches Some(j) ==> matching_pdi_spec(classes@, start as int) == Some(j as int),
        r is None ==> matching_pdi_spec(classes@, start as int) is None,
{
    let n = classes.len();
    if start >= n {
        return None;
    }
    let mut counter: usize = 1;
    let mut k: usize = start + 1;
    while k < n
        invariant
            n == classes@.len(),
            start < k <= n,
            1 <= counter <= k - start,
            pdi_search(classes@, start + 1, 1) == pdi_search(classes@, k as int, counter as int),
        decreases n - k,
    {
        match classes[k] {
            BidiClass::LRI | BidiClass::RLI | BidiClass::FSI => {
                counter = counter + 1;
            },
            BidiClass::PDI => {
                if counter == 1 {
                    return Some(k);
                }
                counter = counter - 1;
            },
            _ => {},
        }
        k = k + 1;
    }
    None
}

/// First-strong paragraph-level walk over a class slice (P2 + P3),
/// jumping over each isolate to its matching PDI (BD8). Agrees with
/// [`paragraph_level`] on the classes of a text.
pub fn paragraph_level_from_classes(classes: &[BidiClass]) -> (r: u8)
    ensures
        r == paragraph_level_spec(classes@),
        r <= 1,
{
    let n = classes.len();
    let mut i: usize = 0;
    while i < n
        invariant
            n == classes@.len(),
            i <= n,
            p2_scan(classes@, 0, 0) == p2_scan(classes@, i as int, 0),
        decreases n - i,
    {
        match classes[i] {
            BidiClass::L => {
                return 0;
            },
            BidiClass::R | BidiClass::AL => {
                return 1;
            },
            BidiClass::LRI | BidiClass::RLI | BidiClass::FSI => {
                proof {
                    lemma_p2_scan_skips_isolate(classes@, i + 1, 1);
                    lemma_pdi_search_bounds(classes@, i + 1, 1);
                }
                match matching_pdi(classes, i) {
                    Some(pdi) => {
                        i = pdi + 1;
                    },
                    None => {
                        return 0;
                    },
                }
            },
            _ => {
                i = i + 1;
            },
        }
    }
    0
}

/// FSI resolution per X5c: P2 / P3 over the span from `start` (one past
/// the FSI) to its matching PDI or the end of the paragraph. Returns
/// `1` if the span's first strong character is `R` / `AL`, else `0`.
pub fn fsi_inner_level(classes: &[BidiClass], start: usize) -> (r: u8)
    ensures
        r == fsi_scan(classes@, start as int, 0),
{
    let n = classes.len();
    let mut depth: usize = 0;
    let mut k: usize = start;
    while k < n
        invariant
            n == classes@.len(),
            start <= k,
            k <= n || k == start,
            depth <= k - start,
            fsi_scan(classes@, start as int, 0) == fsi_scan(classes@, k as int, depth as nat),
        decreases n - k,
    {
        match classes[k] {
            BidiClass::LRI | BidiClass::RLI | BidiClass::FSI => {
                depth = depth + 1;
            },
            BidiClass::PDI => {
                if depth == 0 {
                    return 0;
                }
                depth = depth - 1;
            },
            BidiClass::L => {
                if depth == 0 {
                    return 0;
                }
            },
            BidiClass::R | BidiClass::AL => {
                if depth == 0 {
                    return 1;
                }
            },
            _ => {},
        }
        k = k + 1;
    }
    0
}

} // verus!
