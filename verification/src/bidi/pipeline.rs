//! The UAX #9 paragraph pipeline: P2 / P3, X1..X10, W1..W7, N1 + N2 and
//! I1 + I2 over one paragraph, and L1 + L2 over lines of its result.

use vstd::prelude::*;
use super::class::BidiClass;
use super::paragraph::{paragraph_level_from_classes, paragraph_level_spec};
use super::explicit::{
    resolve_explicit_levels,
    ExplicitLevels,
    x_level,
    x_class,
    is_x9_removed,
    lemma_x_level_bounded,
    MAX_DEPTH,
};
use super::runs::{level_runs_spec, lemma_level_runs_partition};
use super::isolates::lemma_matched_pdi_level;
use super::sequences::{
    isolating_run_sequences,
    IsolatingRunSequence,
    kept_positions,
    runs_within,
    seeds,
    sequence_positions,
    is_sequence_of,
    sos_of,
    eos_of,
    chain_ids,
    seq_runs,
    next_run,
    last_kept,
    lemma_last_kept,
    lemma_chain_range,
    lemma_next_run_forward,
    lemma_sequence_positions,
    lemma_sequence_level,
    lemma_sequence_positions_disjoint,
    lemma_kept_position_covered,
};
use super::weak::{resolve_weak_types, weak_spec};
use super::neutral::{resolve_neutral_types, neutral_spec};
use super::implicit::{resolve_implicit_levels, implicit_level_spec, implicit_levels_fit};
use super::line::{reset_trailing_levels, l1_levels};
use super::reorder::{reorder_line, reorder_spec, is_permutation, lemma_reorder_is_permutation};

verus! {

/// X1..X8: the embedding level of every character of paragraph `s` at
/// paragraph level `pl`.
pub open spec fn x_levels(s: Seq<BidiClass>, pl: u8) -> Seq<u8> {
    Seq::new(s.len(), |i: int| x_level(s, pl, i))
}

/// X4..X6a: the override-rewritten class of every character.
pub open spec fn x_classes(s: Seq<BidiClass>, pl: u8) -> Seq<BidiClass> {
    Seq::new(s.len(), |i: int| x_class(s, pl, i))
}

/// X9: which characters are removed.
pub open spec fn x_removed(s: Seq<BidiClass>) -> Seq<bool> {
    Seq::new(s.len(), |i: int| is_x9_removed(s[i]))
}

/// W1..W7, N1 + N2 and I1 + I2 over the classes `cls` of one isolating
/// run sequence at `level` with `sos` / `eos`: the level of each
/// position.
pub open spec fn resolve_sequence_spec(
    cls: Seq<BidiClass>,
    level: u8,
    sos: BidiClass,
    eos: BidiClass,
) -> Seq<int> {
    neutral_spec(weak_spec(cls, sos), level, sos, eos).map_values(
        |c: BidiClass| implicit_level_spec(c, level),
    )
}

/// The resolved levels of the positions of the isolating run sequence of
/// paragraph `s` (at level `pl`) that starts with level run `seed`.
pub open spec fn sequence_levels_spec(s: Seq<BidiClass>, pl: u8, seed: int) -> Seq<int> {
    let lv = x_levels(s, pl);
    let rm = x_removed(s);
    let runs = level_runs_spec(lv);
    let level = runs[seed].level;
    resolve_sequence_spec(
        sequence_positions(s, lv, rm, seed).map_values(|i: usize| x_class(s, pl, i as int)),
        level,
        sos_of(lv, rm, pl, runs[seed].start as int, level),
        eos_of(s, lv, rm, pl, runs[chain_ids(s, rm, runs, seed).last()], level),
    )
}

/// `levels` are the resolved levels of paragraph `s` at level `pl`: a
/// character X9 removes keeps its X1..X8 level; every other character
/// takes the level W1..I2 resolve for it in its isolating run sequence.
pub open spec fn resolves_paragraph(s: Seq<BidiClass>, pl: u8, levels: Seq<u8>) -> bool {
    let lv = x_levels(s, pl);
    let rm = x_removed(s);
    let sd = seeds(s, rm, level_runs_spec(lv));
    &&& levels.len() == s.len()
    &&& forall|i: int| 0 <= i < s.len() && rm[i] ==> levels[i] == lv[i]
    &&& forall|k: int, o: int|
        #![trigger sequence_positions(s, lv, rm, sd[k])[o]]
        0 <= k < sd.len() && 0 <= o < sequence_positions(s, lv, rm, sd[k]).len() ==> levels[
        sequence_positions(s, lv, rm, sd[k])[o] as int] == sequence_levels_spec(
            s,
            pl,
            sd[k],
        )[o]
}

/// The resolved levels of paragraph `s` at level `pl`: the levels that
/// [`resolves_paragraph`] describes, which are unique
/// ([`lemma_resolved_levels_unique`]).
pub open spec fn resolved_levels(s: Seq<BidiClass>, pl: u8) -> Seq<u8> {
    choose|lv: Seq<u8>| resolves_paragraph(s, pl, lv)
}

/// The resolved levels of a paragraph are determined by its classes and
/// paragraph level: every character is either removed by X9 or belongs
/// to an isolating run sequence.
pub proof fn lemma_resolved_levels_unique(s: Seq<BidiClass>, pl: u8, a: Seq<u8>, b: Seq<u8>)
    requires
        s.len() <= usize::MAX,
        resolves_paragraph(s, pl, a),
        resolves_paragraph(s, pl, b),
    ensures
        a == b,
{
    let lv = x_levels(s, pl);
    let rm = x_removed(s);
    let sd = seeds(s, rm, level_runs_spec(lv));
    assert forall|i: int| 0 <= i < s.len() implies a[i] == b[i] by {
        if !rm[i] {
            lemma_kept_position_covered(s, lv, rm, i as usize);
            let k = choose|k: int|
                0 <= k < sd.len() && (#[trigger] sequence_positions(s, lv, rm, sd[k])).contains(
                    i as usize,
                );
            let pos = sequence_positions(s, lv, rm, sd[k]);
            let o = choose|o: int| 0 <= o < pos.len() && pos[o] == i as usize;
            assert(a[pos[o] as int] == sequence_levels_spec(s, pl, sd[k])[o]);
            assert(b[pos[o] as int] == sequence_levels_spec(s, pl, sd[k])[o]);
        }
    }
    assert(a =~= b);
}

/// BD13 over the X1..X8 levels: a level run and the run that continues
/// its isolating run sequence (across an isolate initiator and its
/// matching PDI) share one embedding level.
proof fn lemma_next_run_level(s: Seq<BidiClass>, pl: u8, r: int)
    requires
        s.len() < u32::MAX,
        0 <= r < level_runs_spec(x_levels(s, pl)).len(),
    ensures
        next_run(s, x_removed(s), level_runs_spec(x_levels(s, pl)), r) matches Some(q) ==> level_runs_spec(
            x_levels(s, pl),
        )[q].level == level_runs_spec(x_levels(s, pl))[r].level,
{
    let lv = x_levels(s, pl);
    let rm = x_removed(s);
    let runs = level_runs_spec(lv);
    lemma_level_runs_partition(lv);
    lemma_next_run_forward(s, lv, rm, r);
    lemma_last_kept(rm, runs[r].start as int, runs[r].end as int);
    if let Some(q) = next_run(s, rm, runs, r) {
        let j = last_kept(rm, runs[r].start as int, runs[r].end as int)->0;
        let p = runs[q].start as int;
        assert(lv[j] == runs[r].level);
        assert(runs[q].start < runs[q].end);
        assert(lv[p] == runs[q].level);
        lemma_matched_pdi_level(s, pl, j, p);
    }
}

/// BD13: every level run of an isolating run sequence carries the
/// sequence's embedding level, the level of its first run, when the
/// levels are those X1..X8 assign to the paragraph.
pub proof fn lemma_sequence_runs_share_level(s: Seq<BidiClass>, pl: u8, seed: int, i: int)
    requires
        s.len() < u32::MAX,
        0 <= seed < level_runs_spec(x_levels(s, pl)).len(),
        0 <= i < seq_runs(s, x_removed(s), level_runs_spec(x_levels(s, pl)), seed).len(),
    ensures
        seq_runs(s, x_removed(s), level_runs_spec(x_levels(s, pl)), seed)[i].level
            == level_runs_spec(x_levels(s, pl))[seed].level,
    decreases level_runs_spec(x_levels(s, pl)).len() - seed,
{
    let lv = x_levels(s, pl);
    let rm = x_removed(s);
    let runs = level_runs_spec(lv);
    let c = chain_ids(s, rm, runs, seed);
    lemma_chain_range(s, lv, rm, seed);
    lemma_next_run_forward(s, lv, rm, seed);
    if i > 0 {
        let q = next_run(s, rm, runs, seed)->0;
        assert(c =~= seq![seed] + chain_ids(s, rm, runs, q));
        lemma_next_run_level(s, pl, seed);
        lemma_sequence_runs_share_level(s, pl, q, i - 1);
        assert(seq_runs(s, rm, runs, q)[i - 1] == runs[c[i]]);
    }
}

/// The paragraph level the pipeline uses: the low bit of a level the
/// caller supplies (HL1), else P2 + P3 over the classes.
pub open spec fn base_level_of(s: Seq<BidiClass>, base_level: Option<u8>) -> u8 {
    match base_level {
        Some(l) => (l % 2) as u8,
        None => paragraph_level_spec(s),
    }
}

/// Result of the paragraph pipeline: the paragraph level and, per
/// character, the original class, the override-rewritten class, the X9
/// removal flag and the resolved level. All vectors are parallel.
#[derive(Debug, Clone, PartialEq, Eq)]
pub struct ParagraphBidi {
    /// Paragraph embedding level (P2 / P3, or supplied by the caller).
    pub paragraph_level: u8,
    /// Original class of each character (what L1 reads).
    pub classes: Vec<BidiClass>,
    /// Class of each character after override rewriting.
    pub effective_classes: Vec<BidiClass>,
    /// `removed[i]` iff X9 removes the `i`th character.
    pub removed: Vec<bool>,
    /// Resolved level of each character after X, W, N and I.
    pub levels: Vec<u8>,
}

fn scatter(levels: &mut Vec<u8>, positions: &Vec<usize>, values: &Vec<u8>)
    requires
        positions@.len() == values@.len(),
        forall|o: int| 0 <= o < positions@.len() ==> #[trigger] positions@[o] < old(levels)@.len(),
        forall|o1: int, o2: int|
            0 <= o1 < o2 < positions@.len() ==> #[trigger] positions@[o1] < #[trigger] positions@[o2],
    ensures
        final(levels)@.len() == old(levels)@.len(),
        forall|o: int|
            0 <= o < positions@.len() ==> final(levels)@[#[trigger] positions@[o] as int]
                == values@[o],
        forall|i: int|
            0 <= i < old(levels)@.len() && (forall|o: int|
                0 <= o < positions@.len() ==> #[trigger] positions@[o] != i) ==> final(levels)@[i]
                == old(levels)@[i],
{
    let ghost before = levels@;
    let np = positions.len();
    for o in 0..np
        invariant
            np == positions@.len(),
            np == values@.len(),
            levels@.len() == before.len(),
            forall|x: int| 0 <= x < np ==> #[trigger] positions@[x] < before.len(),
            forall|o1: int, o2: int|
                0 <= o1 < o2 < np ==> #[trigger] positions@[o1] < #[trigger] positions@[o2],
            forall|x: int| 0 <= x < o ==> levels@[#[trigger] positions@[x] as int] == values@[x],
            forall|i: int|
                0 <= i < before.len() ==> levels@[i] == before[i] || exists|x: int|
                    0 <= x < o && #[trigger] positions@[x] == i,
    {
        let p = positions[o];
        let ghost prev = levels@;
        levels.set(p, values[o]);
        assert forall|x: int| 0 <= x < o + 1 implies levels@[#[trigger] positions@[x] as int]
            == values@[x] by {
            if x < o {
                assert(positions@[x] < positions@[o as int]);
            }
        }
        assert forall|i: int| 0 <= i < before.len() implies levels@[i] == before[i] || exists|x: int|
            0 <= x < o + 1 && #[trigger] positions@[x] == i by {
            if i == p {
                assert(positions@[o as int] == i);
            } else {
                assert(levels@[i] == prev[i]);
            }
        }
    }
}

fn resolve_sequence(explicit: &ExplicitLevels, seq: &IsolatingRunSequence) -> (r: (
    Vec<usize>,
    Vec<u8>,
))
    requires
        runs_within(seq.runs@, explicit.removed@.len() as int),
        explicit.effective_classes@.len() == explicit.removed@.len(),
        forall|o: int|
            0 <= o < kept_positions(explicit.removed@, seq.runs@).len() ==> #[trigger] kept_positions(
                explicit.removed@,
                seq.runs@,
            )[o] < explicit.removed@.len(),
        seq.level <= MAX_DEPTH,
    ensures
        r.0@ == kept_positions(explicit.removed@, seq.runs@),
        r.1@.len() == r.0@.len(),
        forall|o: int|
            0 <= o < r.1@.len() ==> r.1@[o] == resolve_sequence_spec(
                r.0@.map_values(|i: usize| explicit.effective_classes@[i as int]),
                seq.level,
                seq.sos,
                seq.eos,
            )[o],
{
    let positions = seq.kept_indices(&explicit.removed);
    let np = positions.len();
    let mut seq_classes: Vec<BidiClass> = Vec::new();
    for o in 0..np
        invariant
            np == positions@.len(),
            positions@ == kept_positions(explicit.removed@, seq.runs@),
            explicit.effective_classes@.len() == explicit.removed@.len(),
            forall|x: int| 0 <= x < np ==> #[trigger] positions@[x] < explicit.removed@.len(),
            seq_classes@ == positions@.take(o as int).map_values(
                |i: usize| explicit.effective_classes@[i as int],
            ),
    {
        seq_classes.push(explicit.effective_classes[positions[o]]);
        assert(seq_classes@ =~= positions@.take(o + 1).map_values(
            |i: usize| explicit.effective_classes@[i as int],
        ));
    }
    assert(positions@.take(np as int) =~= positions@);
    let ghost cls = seq_classes@;
    resolve_weak_types(seq_classes.as_mut_slice(), seq.sos, seq.eos);
    resolve_neutral_types(seq_classes.as_mut_slice(), seq.level, seq.sos, seq.eos);
    proof {
        let nn = neutral_spec(weak_spec(cls, seq.sos), seq.level, seq.sos, seq.eos);
        assert(seq_classes@ == nn);
        assert forall|i: int| 0 <= i < seq_classes@.len() implies implicit_level_spec(
            #[trigger] seq_classes@[i],
            seq.level,
        ) <= 255 by {}
    }
    let resolved = resolve_implicit_levels(seq_classes.as_slice(), seq.level);
    (positions, resolved)
}

/// Run the paragraph pipeline (P2 / P3, X1..X10, W1..W7, N1 + N2,
/// I1 + I2) on a class slice. `base_level`, when given, sets the
/// paragraph level to its low bit (HL1); otherwise P2 + P3 decide.
/// Every isolating run sequence is resolved on its own; X9-removed
/// characters keep their explicit level.
#[verifier::rlimit(40)]
pub fn process_paragraph_classes(classes: &[BidiClass], base_level: Option<u8>) -> (r:
    ParagraphBidi)
    ensures
        r.paragraph_level == base_level_of(classes@, base_level),
        r.classes@ == classes@,
        r.effective_classes@ == x_classes(classes@, r.paragraph_level),
        r.removed@ == x_removed(classes@),
        resolves_paragraph(classes@, r.paragraph_level, r.levels@),
        r.levels@ == resolved_levels(classes@, r.paragraph_level),
{
    let pl = match base_level {
        Some(l) => {
            assert(l & 1 == l % 2) by (bit_vector);
            l & 1
        },
        None => paragraph_level_from_classes(classes),
    };
    let ghost s = classes@;
    let ghost lv = x_levels(s, pl);
    let ghost rm = x_removed(s);
    let ghost sd = seeds(s, rm, level_runs_spec(lv));
    let n = classes.len();
    let explicit = resolve_explicit_levels(classes, pl);
    assert(explicit.levels@ =~= lv);
    assert(explicit.removed@ =~= rm);
    assert(explicit.effective_classes@ =~= x_classes(s, pl));
    let mut levels = vstd::slice::slice_to_vec(explicit.levels.as_slice());
    let sequences = isolating_run_sequences(classes, &explicit, pl);
    let nseq = sequences.len();
    for k in 0..nseq
        invariant
            n == s.len(),
            s == classes@,
            pl <= 1,
            lv == x_levels(s, pl),
            rm == x_removed(s),
            sd == seeds(s, rm, level_runs_spec(lv)),
            explicit.levels@ == lv,
            explicit.removed@ == rm,
            explicit.effective_classes@ == x_classes(s, pl),
            nseq == sequences@.len(),
            nseq == sd.len(),
            forall|j: int|
                0 <= j < nseq ==> is_sequence_of(s, lv, rm, pl, sd[j], #[trigger] sequences@[j]),
            levels@.len() == n,
            forall|i: int| 0 <= i < n && rm[i] ==> levels@[i] == lv[i],
            forall|j: int, o: int|
                #![trigger sequence_positions(s, lv, rm, sd[j])[o]]
                0 <= j < k && 0 <= o < sequence_positions(s, lv, rm, sd[j]).len() ==> levels@[
                sequence_positions(s, lv, rm, sd[j])[o] as int] == sequence_levels_spec(
                    s,
                    pl,
                    sd[j],
                )[o],
    {
        let seq = &sequences[k];
        let ghost seed = sd[k as int];
        let ghost pos = sequence_positions(s, lv, rm, seed);
        proof {
            assert(is_sequence_of(s, lv, rm, pl, seed, sequences@[k as int]));
            crate::bidi::sequences::lemma_seeds_valid(s, lv, rm, k as int);
            lemma_sequence_positions(s, lv, rm, seed);
            lemma_sequence_level(s, lv, rm, seed);
            lemma_x_level_bounded(s, pl, level_runs_spec(lv)[seed].start as int);
        }
        let (positions, resolved) = resolve_sequence(&explicit, seq);
        assert(positions@ == pos);
        proof {
            let cls = pos.map_values(|i: usize| explicit.effective_classes@[i as int]);
            assert(cls =~= pos.map_values(|i: usize| x_class(s, pl, i as int)));
        }
        let ghost before = levels@;
        scatter(&mut levels, &positions, &resolved);
        proof {
            assert forall|i: int| 0 <= i < n && rm[i] implies levels@[i] == lv[i] by {
                assert forall|o: int| 0 <= o < pos.len() implies #[trigger] pos[o] != i by {}
            }
            assert forall|j: int, o: int|
                #![trigger sequence_positions(s, lv, rm, sd[j])[o]]
                0 <= j < k + 1 && 0 <= o < sequence_positions(s, lv, rm, sd[j]).len() implies levels@[
            sequence_positions(s, lv, rm, sd[j])[o] as int] == sequence_levels_spec(
                s,
                pl,
                sd[j],
            )[o] by {
                if j < k {
                    let q = sequence_positions(s, lv, rm, sd[j])[o];
                    crate::bidi::sequences::lemma_seeds_valid(s, lv, rm, j);
                    lemma_sequence_positions(s, lv, rm, sd[j]);
                    assert forall|o2: int| 0 <= o2 < pos.len() implies #[trigger] pos[o2] != q as int by {
                        lemma_sequence_positions_disjoint(s, lv, rm, j, k as int, o, o2);
                    }
                }
            }
        }
    }
    proof {
        assert(resolves_paragraph(s, pl, levels@));
        lemma_resolved_levels_unique(s, pl, levels@, resolved_levels(s, pl));
    }
    ParagraphBidi {
        paragraph_level: pl,
        classes: vstd::slice::slice_to_vec(classes),
        effective_classes: explicit.effective_classes,
        removed: explicit.removed,
        levels,
    }
}

impl ParagraphBidi {
    /// Run L1 + L2 over the whole paragraph as one line: entry `v` of
    /// the result is the logical index shown at visual position `v`.
    pub fn reorder_paragraph(&self) -> (r: Vec<usize>)
        requires
            self.classes@.len() == self.levels@.len(),
        ensures
            r@ == reorder_spec(l1_levels(self.classes@, self.levels@, self.paragraph_level)),
            is_permutation(r@, self.levels@.len()),
    {
        let mut levels = vstd::slice::slice_to_vec(self.levels.as_slice());
        reset_trailing_levels(self.classes.as_slice(), levels.as_mut_slice(), self.paragraph_level);
        reorder_line(levels.as_slice())
    }

    /// Run L1 + L2 over the line `line.start..line.end` of the paragraph:
    /// entry `v` of the result is the index, relative to `line.start`,
    /// shown at visual position `v`.
    pub fn reorder_line_range(&self, line: core::ops::Range<usize>) -> (r: Vec<usize>)
        requires
            self.classes@.len() == self.levels@.len(),
            line.start <= line.end <= self.levels@.len(),
        ensures
            r@ == reorder_spec(
                l1_levels(
                    self.classes@.subrange(line.start as int, line.end as int),
                    self.levels@.subrange(line.start as int, line.end as int),
                    self.paragraph_level,
                ),
            ),
            is_permutation(r@, (line.end - line.start) as nat),
    {
        let cls = vstd::slice::slice_subrange(self.classes.as_slice(), line.start, line.end);
        let lv = vstd::slice::slice_subrange(self.levels.as_slice(), line.start, line.end);
        let mut levels = vstd::slice::slice_to_vec(lv);
        reset_trailing_levels(cls, levels.as_mut_slice(), self.paragraph_level);
        reorder_line(levels.as_slice())
    }
}

} // verus!
