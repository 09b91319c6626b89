//! Visual order of one display line (UAX #9 §3.4 L1, L2, L4) and the
//! whitespace-keeping word splitter the line wrapper breaks on.

use vstd::prelude::*;
use crate::bidi::class::{chars_of, classes_of, classes_of_chars};
use crate::bidi::pipeline::{process_paragraph_classes, base_level_of, resolved_levels};
use crate::bidi::line::{reset_trailing_levels, l1_levels};
use crate::bidi::reorder::{reorder_line, reorder_spec, is_permutation};
use crate::bidi::text::lemma_flatten_prefix;
use crate::bidi::brackets::{bidi_mirror_of, mirror_glyph};

verus! {

/// Whether `c` has the Unicode `White_Space` property: the controls
/// U+0009..U+000D, space, U+0085, no-break space, ogham space mark, the
/// spaces U+2000..U+200A, line and paragraph separator, narrow no-break
/// space, medium mathematical space and ideographic space.
pub open spec fn white_space(c: char) -> bool {
    let v = c as u32;
    (0x09 <= v <= 0x0D) || v == 0x20 || v == 0x85 || v == 0xA0 || v == 0x1680 || (0x2000 <= v
        <= 0x200A) || v == 0x2028 || v == 0x2029 || v == 0x202F || v == 0x205F || v == 0x3000
}

/// Whether `c` has the Unicode `White_Space` property, the set that
/// `char::is_whitespace` is documented to test.
fn is_white_space(c: char) -> (r: bool)
    ensures
        r == white_space(c),
{
    let v = c as u32;
    (0x09 <= v && v <= 0x0D) || v == 0x20 || v == 0x85 || v == 0xA0 || v == 0x1680 || (0x2000 <= v
        && v <= 0x200A) || v == 0x2028 || v == 0x2029 || v == 0x202F || v == 0x205F || v == 0x3000
}

/// Calls `FromIterator<char>` for `String` over `chars`: the string of
/// exactly those characters, in order.
#[verifier::external_body]
fn string_from_chars(chars: &[char]) -> (r: String)
    ensures
        r@ == chars@,
{
    chars.iter().collect()
}

/// L4: a character resolved to an odd (right-to-left) level is shown as
/// its mirror glyph when it has one.
pub open spec fn l4_char(c: char, level: u8) -> char {
    if level % 2 == 1 {
        match bidi_mirror_of(c) {
            Some(m) => m,
            None => c,
        }
    } else {
        c
    }
}

/// One display line in visual order: its characters left to right (L4
/// mirroring applied), the visual-to-logical permutation (entry `k` is
/// the logical index shown at visual position `k`), its inverse, and
/// the paragraph level.
#[derive(Debug, Clone, PartialEq, Eq)]
pub struct VisualLine {
    /// The line's characters in left-to-right visual order.
    pub visual: Vec<char>,
    /// Entry `k` is the logical index of the character at visual
    /// position `k` (the L2 output).
    pub logical_to_visual: Vec<usize>,
    /// Entry `i` is the visual position of logical character `i`.
    pub visual_to_logical: Vec<usize>,
    /// Paragraph embedding level (`0` LTR, `1` RTL).
    pub base_level: u8,
}

impl VisualLine {
    /// The visual characters as a `String`, in painting order.
    pub fn to_visual_string(&self) -> (r: String)
        ensures
            r@ == self.visual@,
    {
        string_from_chars(self.visual.as_slice())
    }

    /// Number of characters in the line.
    pub fn len(&self) -> (r: usize)
        ensures
            r == self.visual@.len(),
    {
        self.visual.len()
    }

    /// Whether the line is empty.
    pub fn is_empty(&self) -> (r: bool)
        ensures
            r == (self.visual@.len() == 0),
    {
        self.visual.len() == 0
    }
}

/// Run the bidirectional pipeline over one display line and return its
/// characters in left-to-right visual order: the paragraph pipeline
/// (P2 / P3 or the low bit of `base_level`, X, W, N1 / N2, I), L1 over
/// the original classes, L2 for the order, and L4 mirroring on the
/// resolved (pre-L1) levels.
pub fn reorder_line_visual(text: &str, base_level: Option<u8>) -> (r: VisualLine)
    ensures
        r.base_level == base_level_of(classes_of(text@), base_level),
        r.logical_to_visual@ == reorder_spec(
            l1_levels(
                classes_of(text@),
                resolved_levels(classes_of(text@), r.base_level),
                r.base_level,
            ),
        ),
        is_permutation(r.logical_to_visual@, text@.len()),
        r.visual@.len() == text@.len(),
        forall|k: int|
            0 <= k < text@.len() ==> r.visual@[k] == l4_char(
                text@[r.logical_to_visual@[k] as int],
                resolved_levels(classes_of(text@), r.base_level)[r.logical_to_visual@[k] as int],
            ),
        r.visual_to_logical@.len() == text@.len(),
        forall|k: int|
            0 <= k < text@.len() ==> r.visual_to_logical@[r.logical_to_visual@[k] as int] == k,
{
    let chars = chars_of(text);
    let classes = classes_of_chars(chars.as_slice());
    let carrier = process_paragraph_classes(classes.as_slice(), base_level);
    let n = chars.len();
    let mut line_levels = vstd::slice::slice_to_vec(carrier.levels.as_slice());
    reset_trailing_levels(carrier.classes.as_slice(), line_levels.as_mut_slice(), carrier.paragraph_level);
    let logical_to_visual = reorder_line(line_levels.as_slice());
    let ghost lv = carrier.levels@;
    let ghost p = logical_to_visual@;
    let mut visual: Vec<char> = Vec::new();
    let mut visual_to_logical: Vec<usize> = Vec::new();
    for i in 0..n
        invariant
            visual_to_logical@.len() == i,
    {
        visual_to_logical.push(0);
    }
    for k in 0..n
        invariant
            n == chars@.len(),
            chars@ == text@,
            lv == carrier.levels@,
            lv.len() == n,
            p == logical_to_visual@,
            is_permutation(p, n as nat),
            visual@.len() == k,
            forall|j: int| 0 <= j < k ==> visual@[j] == l4_char(chars@[p[j] as int], lv[p[j] as int]),
            visual_to_logical@.len() == n,
            forall|j: int| 0 <= j < k ==> visual_to_logical@[#[trigger] p[j] as int] == j,
    {
        let log_idx = logical_to_visual[k];
        let c = chars[log_idx];
        let shown = if carrier.levels[log_idx] % 2 == 1 {
            match mirror_glyph(c) {
                Some(m) => m,
                None => c,
            }
        } else {
            c
        };
        visual.push(shown);
        visual_to_logical.set(log_idx, k);
        assert forall|j: int| 0 <= j < k + 1 implies visual_to_logical@[#[trigger] p[j] as int]
            == j by {
            if j < k {
                assert(p[j] != p[k as int]);
            }
        }
    }
    VisualLine {
        visual,
        logical_to_visual,
        visual_to_logical,
        base_level: carrier.paragraph_level,
    }
}

/// Where the splitter cuts: before every whitespace character that
/// follows a non-whitespace one, among the first `k` characters.
pub open spec fn word_cuts(s: Seq<char>, k: int) -> Seq<int>
    decreases k,
{
    if k <= 0 {
        Seq::empty()
    } else if k - 1 > 0 && white_space(s[k - 1]) && !white_space(s[k - 2]) {
        word_cuts(s, k - 1).push(k - 1)
    } else {
        word_cuts(s, k - 1)
    }
}

proof fn lemma_word_cuts(s: Seq<char>, k: int)
    ensures
        forall|i: int|
            0 <= i < word_cuts(s, k).len() ==> 0 < #[trigger] word_cuts(s, k)[i] < k,
        forall|i: int, j: int|
            0 <= i < j < word_cuts(s, k).len() ==> #[trigger] word_cuts(s, k)[i] < #[trigger] word_cuts(
                s,
                k,
            )[j],
    decreases k,
{
    if k > 0 {
        lemma_word_cuts(s, k - 1);
        let p = word_cuts(s, k - 1);
        if k - 1 > 0 && white_space(s[k - 1]) && !white_space(s[k - 2]) {
            let q = p.push(k - 1);
            assert(word_cuts(s, k) == q);
            assert forall|i: int| 0 <= i < q.len() implies 0 < #[trigger] q[i] < k by {
                if i < p.len() {
                    assert(q[i] == p[i]);
                }
            }
            assert forall|i: int, j: int| 0 <= i < j < q.len() implies #[trigger] q[i] < #[trigger] q[j] by {
                assert(q[i] == p[i]);
                if j < p.len() {
                    assert(q[j] == p[j]);
                }
            }
        }
    }
}

/// The pieces of `s`: the text between consecutive cuts, the last piece
/// running to the end; none for empty text.
pub open spec fn word_pieces(s: Seq<char>) -> Seq<Seq<char>> {
    let c = word_cuts(s, s.len() as int);
    if s.len() == 0 {
        Seq::empty()
    } else {
        Seq::new(
            c.len() + 1,
            |k: int|
                s.subrange(
                    if k == 0 {
                        0
                    } else {
                        c[k - 1]
                    },
                    if k == c.len() {
                        s.len() as int
                    } else {
                        c[k]
                    },
                ),
        )
    }
}

/// Split `s` into words, each carrying the whitespace before it: a cut
/// falls before every whitespace character that follows a
/// non-whitespace one.
pub fn split_keeping_whitespace(s: &str) -> (r: Vec<String>)
    ensures
        r@.len() == word_pieces(s@).len(),
        forall|k: int| 0 <= k < r@.len() ==> (#[trigger] r@[k])@ == word_pieces(s@)[k],
{
    let ghost t = s@;
    let chars = chars_of(s);
    let n = chars.len();
    let mut out: Vec<String> = Vec::new();
    let mut buf: Vec<char> = Vec::new();
    let mut in_word = false;
    let mut start: usize = 0;
    for i in 0..n
        invariant
            n == t.len(),
            chars@ == t,
            out@.len() == word_cuts(t, i as int).len(),
            start == if word_cuts(t, i as int).len() == 0 {
                0
            } else {
                word_cuts(t, i as int).last()
            },
            start <= i,
            i > 0 ==> start < i,
            buf@ == t.subrange(start as int, i as int),
            in_word == (i > 0 && !white_space(t[i - 1])),
            forall|k: int|
                0 <= k < out@.len() ==> (#[trigger] out@[k])@ == t.subrange(
                    if k == 0 {
                        0
                    } else {
                        word_cuts(t, i as int)[k - 1]
                    },
                    word_cuts(t, i as int)[k],
                ),
    {
        proof {
            lemma_word_cuts(t, i as int);
            lemma_word_cuts(t, i + 1);
        }
        let ch = chars[i];
        let ws = is_white_space(ch);
        if ws && in_word {
            out.push(string_from_chars(buf.as_slice()));
            buf = Vec::new();
            start = i;
        }
        buf.push(ch);
        in_word = !ws;
        assert(buf@ =~= t.subrange(start as int, i + 1));
    }
    if buf.len() > 0 {
        out.push(string_from_chars(buf.as_slice()));
    }
    proof {
        if n > 0 {
            assert(buf@.len() > 0);
        }
    }
    out
}

/// The words of [`split_keeping_whitespace`] concatenate back to the
/// text exactly.
pub proof fn lemma_word_pieces_concat(s: Seq<char>)
    ensures
        word_pieces(s).flatten() == s,
{
    let c = word_cuts(s, s.len() as int);
    lemma_word_cuts(s, s.len() as int);
    if s.len() == 0 {
        assert(word_pieces(s) =~= Seq::<Seq<char>>::empty());
        assert(s =~= Seq::<char>::empty());
    } else {
        let b = Seq::new(
            c.len() + 1,
            |k: int|
                (
                    if k == 0 {
                        0
                    } else {
                        c[k - 1]
                    },
                    if k == c.len() {
                        s.len() as int
                    } else {
                        c[k]
                    },
                ),
        );
        assert forall|k: int| 0 <= k < b.len() implies 0 <= (#[trigger] b[k]).0 <= b[k].1 <= s.len() by {
            if k > 0 && k < c.len() {
                assert(c[k - 1] < c[k]);
            }
        }
        lemma_flatten_prefix(s, b, b.len() as int);
        assert(Seq::new(b.len(), |k: int| s.subrange(b[k].0, b[k].1)) =~= word_pieces(s));
        assert(Seq::new(b.len(), |k: int| s.subrange(b[k].0, b[k].1)).take(b.len() as int)
            =~= word_pieces(s));
        assert(s.take(s.len() as int) =~= s);
    }
}

} // verus!
