//! Implicit embedding levels for one isolating run sequence (UAX #9
//! I1, I2).

use vstd::prelude::*;
use super::class::BidiClass;

verus! {

/// UAX #9 Table 5: the resolved level of a class at embedding level
/// `level`. `BN`, `NSM` and the other classes I1 / I2 do not name stay
/// at `level`.
pub open spec fn implicit_level_spec(c: BidiClass, level: u8) -> int {
    let even = level % 2 == 0;
    match c {
        BidiClass::L => if even {
            level as int
        } else {
            level + 1
        },
        BidiClass::R => if even {
            level + 1
        } else {
            level as int
        },
        BidiClass::EN | BidiClass::AN => if even {
            level + 2
        } else {
            level + 1
        },
        _ => level as int,
    }
}

/// Every resolved level of the sequence fits in a `u8`.
pub open spec fn implicit_levels_fit(s: Seq<BidiClass>, level: u8) -> bool {
    forall|i: int| 0 <= i < s.len() ==> implicit_level_spec(#[trigger] s[i], level) <= 255
}

/// Resolve implicit embedding levels for one isolating run sequence per
/// UAX #9 I1 + I2 (§3.3.6, Table 5): above an even level `R` goes up
/// one and `EN` / `AN` two; above an odd level `L` / `EN` / `AN` go up
/// one; everything else keeps `embedding_level`.
pub fn resolve_implicit_levels(classes: &[BidiClass], embedding_level: u8) -> (r: Vec<u8>)
    requires
        implicit_levels_fit(classes@, embedding_level),
    ensures
        r@.len() == classes@.len(),
        forall|i: int|
            0 <= i < classes@.len() ==> r@[i] as int == implicit_level_spec(
                classes@[i],
                embedding_level,
            ),
{
    let even = embedding_level % 2 == 0;
    let n = classes.len();
    let mut out: Vec<u8> = Vec::new();
    for i in 0..n
        invariant
            n == classes@.len(),
            even == (embedding_level % 2 == 0),
            implicit_levels_fit(classes@, embedding_level),
            out@.len() == i,
            forall|k: int|
                0 <= k < i ==> out@[k] as int == implicit_level_spec(classes@[k], embedding_level),
    {
        let c = classes[i];
        assert(implicit_level_spec(classes@[i as int], embedding_level) <= 255);
        let lvl = match c {
            BidiClass::L => {
                if even {
                    embedding_level
                } else {
                    embedding_level + 1
                }
            },
            BidiClass::R => {
                if even {
                    embedding_level + 1
                } else {
                    embedding_level
                }
            },
            BidiClass::EN | BidiClass::AN => {
                if even {
                    embedding_level + 2
                } else {
                    embedding_level + 1
                }
            },
            _ => embedding_level,
        };
        out.push(lvl);
    }
    out
}

} // verus!
