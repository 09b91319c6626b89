//! UAX #9 over whole texts: P1 paragraph splitting, UTF-8 byte offsets
//! and the multi-paragraph driver.

use vstd::prelude::*;
use vstd::string::StrSliceExecFns;
use vstd::utf8::{encode_utf8, encode_scalar};
use super::class::{BidiClass, bidi_class, chars_of, classes_of, class_of};
use super::pipeline::{
    process_paragraph_classes,
    ParagraphBidi,
    base_level_of,
    x_classes,
    x_removed,
    resolves_paragraph,
};

verus! {

/// The UTF-8 byte offset of character `i` of `t`.
pub open spec fn byte_offset(t: Seq<char>, i: int) -> int {
    encode_utf8(t.take(i)).len() as int
}

/// `p` is the pipeline's result for a paragraph with classes `s`.
pub open spec fn paragraph_result(s: Seq<BidiClass>, base_level: Option<u8>, p: ParagraphBidi) -> bool {
    &&& p.paragraph_level == base_level_of(s, base_level)
    &&& p.classes@ == s
    &&& p.effective_classes@ == x_classes(s, p.paragraph_level)
    &&& p.removed@ == x_removed(s)
    &&& resolves_paragraph(s, p.paragraph_level, p.levels@)
}

proof fn lemma_encode_concat(a: Seq<char>, b: Seq<char>)
    ensures
        encode_utf8(a + b) == encode_utf8(a) + encode_utf8(b),
    decreases a.len(),
{
    if a.len() == 0 {
        assert(a + b =~= b);
        assert(encode_utf8(a) + encode_utf8(b) =~= encode_utf8(b));
    } else {
        assert((a + b).drop_first() =~= a.drop_first() + b);
        assert((a + b)[0] == a[0]);
        lemma_encode_concat(a.drop_first(), b);
        assert(encode_utf8(a + b) =~= encode_utf8(a) + encode_utf8(b));
    }
}

proof fn lemma_encode_len(a: Seq<char>)
    ensures
        encode_utf8(a).len() >= a.len(),
    decreases a.len(),
{
    if a.len() > 0 {
        lemma_encode_len(a.drop_first());
    }
}

/// Byte offsets grow with the character index, within the encoding.
proof fn lemma_byte_offset(t: Seq<char>, i: int, j: int)
    requires
        0 <= i <= j <= t.len(),
    ensures
        byte_offset(t, j) == byte_offset(t, i) + encode_utf8(t.subrange(i, j)).len(),
        byte_offset(t, j) <= encode_utf8(t).len(),
        byte_offset(t, i) >= i,
{
    assert(t.take(j) =~= t.take(i) + t.subrange(i, j));
    lemma_encode_concat(t.take(i), t.subrange(i, j));
    assert(t =~= t.take(j) + t.subrange(j, t.len() as int));
    lemma_encode_concat(t.take(j), t.subrange(j, t.len() as int));
    lemma_encode_len(t.take(i));
}

/// The number of bytes UTF-8 uses for `c`.
fn utf8_width(c: char) -> (r: usize)
    ensures
        r == encode_scalar(c as u32).len(),
{
    proof {
        vstd::utf8::char_is_scalar(c);
    }
    let u = c as u32;
    if u < 0x80 {
        1
    } else if u < 0x800 {
        2
    } else if u < 0x10000 {
        3
    } else {
        4
    }
}

/// The classes of the characters of `text` and the byte offset of each.
fn char_data(text: &str) -> (r: (Vec<BidiClass>, Vec<usize>))
    requires
        encode_utf8(text@).len() <= usize::MAX,
    ensures
        r.0@ == classes_of(text@),
        r.1@.len() == text@.len(),
        forall|i: int| 0 <= i < text@.len() ==> r.1@[i] == byte_offset(text@, i),
{
    let chars = chars_of(text);
    let n = chars.len();
    let mut classes: Vec<BidiClass> = Vec::new();
    let mut offsets: Vec<usize> = Vec::new();
    let mut off: usize = 0;
    for i in 0..n
        invariant
            n == text@.len(),
            chars@ == text@,
            encode_utf8(text@).len() <= usize::MAX,
            classes@ == classes_of(text@).take(i as int),
            offsets@.len() == i,
            forall|k: int| 0 <= k < i ==> offsets@[k] == byte_offset(text@, k),
            off == byte_offset(text@, i as int),
    {
        offsets.push(off);
        classes.push(bidi_class(chars[i]));
        let w = utf8_width(chars[i]);
        proof {
            lemma_byte_offset(text@, i as int, i + 1);
            let one = text@.subrange(i as int, i + 1);
            assert(one.drop_first() =~= Seq::<char>::empty());
            assert(encode_utf8(one.drop_first()) =~= Seq::<u8>::empty());
            assert(one[0] == chars@[i as int]);
            assert(encode_utf8(one) =~= encode_scalar(chars@[i as int] as u32));
            assert(classes@ =~= classes_of(text@).take(i + 1));
        }
        off = off + w;
    }
    assert(classes_of(text@).take(n as int) =~= classes_of(text@));
    (classes, offsets)
}

/// Run the paragraph pipeline on `text` (one paragraph) and return it
/// with the byte offset of each character in `text`.
pub fn process_paragraph(text: &str, base_level: Option<u8>) -> (r: (ParagraphBidi, Vec<usize>))
    ensures
        paragraph_result(classes_of(text@), base_level, r.0),
        r.1@.len() == text@.len(),
        forall|i: int| 0 <= i < text@.len() ==> r.1@[i] == byte_offset(text@, i),
{
    let bytes = text.as_bytes();
    let nb = bytes.len();
    assert(nb == encode_utf8(text@).len());
    let (classes, offsets) = char_data(text);
    let carrier = process_paragraph_classes(classes.as_slice(), base_level);
    (carrier, offsets)
}

/// P1: the ends (exclusive) of the paragraphs that a `B` closes among
/// the first `k` characters.
pub open spec fn b_ends(cs: Seq<BidiClass>, k: int) -> Seq<int>
    decreases k,
{
    if k <= 0 {
        Seq::empty()
    } else if cs[k - 1] is B {
        b_ends(cs, k - 1).push(k)
    } else {
        b_ends(cs, k - 1)
    }
}

/// The end of the last paragraph closed among the first `k` characters
/// (`0` if none).
pub open spec fn last_b_end(cs: Seq<BidiClass>, k: int) -> int {
    let e = b_ends(cs, k);
    if e.len() == 0 {
        0
    } else {
        e.last()
    }
}

/// P1: the character ranges `(start, end)` of the paragraphs of a text
/// with classes `cs`. Each separator (`B`) ends its paragraph; the
/// characters after the last separator form a final paragraph.
pub open spec fn paragraph_bounds(cs: Seq<BidiClass>) -> Seq<(int, int)> {
    let e = b_ends(cs, cs.len() as int);
    let closed = Seq::new(
        e.len(),
        |k: int|
            (
                if k == 0 {
                    0
                } else {
                    e[k - 1]
                },
                e[k],
            ),
    );
    if last_b_end(cs, cs.len() as int) < cs.len() {
        closed.push((last_b_end(cs, cs.len() as int), cs.len() as int))
    } else {
        closed
    }
}

proof fn lemma_b_ends(cs: Seq<BidiClass>, k: int)
    requires
        0 <= k <= cs.len(),
    ensures
        forall|i: int|
            0 <= i < b_ends(cs, k).len() ==> 0 < #[trigger] b_ends(cs, k)[i] <= k && cs[b_ends(
                cs,
                k,
            )[i] - 1] is B,
        forall|i: int, j: int|
            0 <= i < j < b_ends(cs, k).len() ==> #[trigger] b_ends(cs, k)[i] < #[trigger] b_ends(
                cs,
                k,
            )[j],
        forall|p: int| 0 <= p < k && cs[p] is B ==> #[trigger] b_ends(cs, k).contains(p + 1),
        0 <= last_b_end(cs, k) <= k,
    decreases k,
{
    if k > 0 {
        lemma_b_ends(cs, k - 1);
        let e = b_ends(cs, k - 1);
        if cs[k - 1] is B {
            let f = e.push(k);
            assert forall|p: int| 0 <= p < k && cs[p] is B implies #[trigger] f.contains(p + 1) by {
                if p < k - 1 {
                    assert(e.contains(p + 1));
                    let i = choose|i: int| 0 <= i < e.len() && e[i] == p + 1;
                    assert(f[i] == p + 1);
                } else {
                    assert(f[f.len() - 1] == p + 1);
                }
            }
        }
    }
}

/// P1: the paragraphs cover the text without gap or overlap and are
/// never empty; each but the last ends with its separator, and no
/// separator occurs before a paragraph's last character.
pub proof fn lemma_paragraph_bounds(cs: Seq<BidiClass>)
    ensures
        paragraph_bounds(cs).len() == 0 <==> cs.len() == 0,
        paragraph_bounds(cs).len() > 0 ==> paragraph_bounds(cs)[0].0 == 0 && paragraph_bounds(
            cs,
        ).last().1 == cs.len(),
        forall|k: int|
            0 <= k < paragraph_bounds(cs).len() - 1 ==> (#[trigger] paragraph_bounds(cs)[k]).1
                == paragraph_bounds(cs)[k + 1].0 && cs[paragraph_bounds(cs)[k].1 - 1] is B,
        forall|k: int|
            0 <= k < paragraph_bounds(cs).len() ==> 0 <= (#[trigger] paragraph_bounds(cs)[k]).0
                < paragraph_bounds(cs)[k].1 <= cs.len(),
        forall|k: int, p: int|
            0 <= k < paragraph_bounds(cs).len() && (#[trigger] paragraph_bounds(cs)[k]).0 <= p
                < paragraph_bounds(cs)[k].1 - 1 ==> !(#[trigger] cs[p] is B),
{
    let n = cs.len() as int;
    lemma_b_ends(cs, n);
    let e = b_ends(cs, n);
    let b = paragraph_bounds(cs);
    let last = last_b_end(cs, n);
    if e.len() > 0 {
        assert(e[0] > 0);
    }
    if n > 0 && e.len() == 0 {
        assert(b.len() == 1);
    }
    assert forall|k: int| 0 <= k < b.len() implies 0 <= (#[trigger] b[k]).0 < b[k].1 <= n by {
        if k < e.len() {
            if k > 0 {
                assert(e[k - 1] < e[k]);
            }
        }
    }
    assert forall|k: int| 0 <= k < b.len() - 1 implies (#[trigger] b[k]).1 == b[k + 1].0 && cs[b[k].1
        - 1] is B by {}
    assert forall|k: int, p: int| 0 <= k < b.len() && (#[trigger] b[k]).0 <= p < b[k].1 - 1 implies !(
    #[trigger] cs[p] is B) by {
        if cs[p] is B {
            assert(e.contains(p + 1));
            let i = choose|i: int| 0 <= i < e.len() && e[i] == p + 1;
            if k < e.len() {
                if i < k {
                    if k > 0 {
                        assert(e[i] <= e[k - 1]);
                    }
                } else if i > k {
                    assert(e[k] < e[i]);
                }
            } else {
                assert(e[i] <= e.last());
            }
        }
    }
}

/// The text of each paragraph: `t` restricted to each range.
pub open spec fn paragraph_texts(t: Seq<char>) -> Seq<Seq<char>> {
    let b = paragraph_bounds(classes_of(t));
    Seq::new(b.len(), |k: int| t.subrange(b[k].0, b[k].1))
}

pub(crate) proof fn lemma_flatten_prefix(t: Seq<char>, b: Seq<(int, int)>, m: int)
    requires
        0 <= m <= b.len(),
        b.len() > 0 ==> b[0].0 == 0,
        forall|k: int| 0 <= k < b.len() - 1 ==> (#[trigger] b[k]).1 == b[k + 1].0,
        forall|k: int| 0 <= k < b.len() ==> 0 <= (#[trigger] b[k]).0 <= b[k].1 <= t.len(),
    ensures
        Seq::new(b.len(), |k: int| t.subrange(b[k].0, b[k].1)).take(m).flatten() == t.take(
            if m == 0 {
                0
            } else {
                b[m - 1].1
            },
        ),
    decreases m,
{
    let ps = Seq::new(b.len(), |k: int| t.subrange(b[k].0, b[k].1));
    if m == 0 {
        assert(ps.take(0) =~= Seq::<Seq<char>>::empty());
        assert(t.take(0) =~= Seq::<char>::empty());
    } else {
        lemma_flatten_prefix(t, b, m - 1);
        assert(ps.take(m) =~= ps.take(m - 1).push(ps[m - 1]));
        ps.take(m - 1).lemma_flatten_push(ps[m - 1]);
        let start = if m - 1 == 0 {
            0
        } else {
            b[m - 2].1
        };
        assert(b[m - 1].0 == start);
        assert(t.take(b[m - 1].1) =~= t.take(start) + t.subrange(start, b[m - 1].1));
    }
}

/// P1: the paragraphs concatenate back to the text exactly.
pub proof fn lemma_paragraphs_concat(t: Seq<char>)
    ensures
        paragraph_texts(t).flatten() == t,
{
    let b = paragraph_bounds(classes_of(t));
    lemma_paragraph_bounds(classes_of(t));
    lemma_flatten_prefix(t, b, b.len() as int);
    assert(paragraph_texts(t).take(b.len() as int) =~= paragraph_texts(t));
    assert(t.take(t.len() as int) =~= t);
    if b.len() == 0 {
        assert(t =~= Seq::<char>::empty());
    }
}

/// Split `text` into paragraphs per UAX #9 P1: each paragraph separator
/// (class `B`) ends a paragraph and stays with it; the characters after
/// the last separator, if any, form the last paragraph.
pub fn split_paragraphs(text: &str) -> (r: Vec<&str>)
    ensures
        r@.len() == paragraph_texts(text@).len(),
        forall|k: int| 0 <= k < r@.len() ==> (#[trigger] r@[k])@ == paragraph_texts(text@)[k],
{
    let ghost t = text@;
    let ghost cs = classes_of(t);
    let chars = chars_of(text);
    let n = chars.len();
    let mut out: Vec<&str> = Vec::new();
    let mut start: usize = 0;
    proof {
        lemma_b_ends(cs, n as int);
    }
    for i in 0..n
        invariant
            n == t.len(),
            t == text@,
            cs == classes_of(t),
            chars@ == t,
            out@.len() == b_ends(cs, i as int).len(),
            start == last_b_end(cs, i as int),
            forall|k: int|
                0 <= k < out@.len() ==> (#[trigger] out@[k])@ == t.subrange(
                    if k == 0 {
                        0
                    } else {
                        b_ends(cs, i as int)[k - 1]
                    },
                    b_ends(cs, i as int)[k],
                ),
    {
        proof {
            lemma_b_ends(cs, i as int);
        }
        if bidi_class(chars[i]) == BidiClass::B {
            out.push(text.substring_char(start, i + 1));
            start = i + 1;
        }
    }
    proof {
        lemma_b_ends(cs, n as int);
        lemma_paragraph_bounds(cs);
    }
    if start < n {
        out.push(text.substring_char(start, n));
    }
    out
}

/// One paragraph of a multi-paragraph text: its byte range and first
/// character index in the whole text, its pipeline result, and the
/// whole-text byte offset of each of its characters.
#[derive(Debug, PartialEq, Eq)]
pub struct ParagraphSlice {
    /// Byte range of the paragraph (with its separator) in the text.
    pub byte_range: core::ops::Range<usize>,
    /// Index in the whole text of the paragraph's first character.
    pub char_offset: usize,
    /// The paragraph pipeline's result for this paragraph.
    pub bidi: ParagraphBidi,
    /// Whole-text byte offset of each character of the paragraph.
    pub char_byte_offsets: Vec<usize>,
}

/// Result of [`process_text`]: one [`ParagraphSlice`] per paragraph in
/// logical order, and the character count of the text.
#[derive(Debug, PartialEq, Eq)]
pub struct TextBidi {
    /// The paragraphs, in logical order; empty iff the text is.
    pub paragraphs: Vec<ParagraphSlice>,
    /// Total number of characters across all paragraphs.
    pub total_chars: usize,
}

/// The paragraphs of `t` follow each other: the first starts at
/// character `0`, each starts where the previous ends, and the last ends
/// at `t.total_chars`.
pub open spec fn text_bidi_wf(t: TextBidi) -> bool {
    let p = t.paragraphs@;
    &&& p.len() == 0 ==> t.total_chars == 0
    &&& p.len() > 0 ==> p[0].char_offset == 0 && p.last().char_offset + p.last().bidi.levels@.len()
        == t.total_chars
    &&& forall|k: int|
        0 <= k < p.len() - 1 ==> (#[trigger] p[k]).char_offset + p[k].bidi.levels@.len()
            == p[k + 1].char_offset
}

/// `p` is paragraph `range` of text `t`, processed with `base_level`.
pub open spec fn is_paragraph_slice(
    t: Seq<char>,
    base_level: Option<u8>,
    range: (int, int),
    p: ParagraphSlice,
) -> bool {
    let sub = t.subrange(range.0, range.1);
    &&& p.char_offset == range.0
    &&& p.byte_range.start == byte_offset(t, range.0)
    &&& p.byte_range.end == byte_offset(t, range.1)
    &&& p.char_byte_offsets@.len() == sub.len()
    &&& forall|i: int|
        0 <= i < sub.len() ==> #[trigger] p.char_byte_offsets@[i] == byte_offset(t, range.0 + i)
    &&& paragraph_result(classes_of(sub), base_level, p.bidi)
}

proof fn lemma_paragraph_end(t: TextBidi, k: int)
    requires
        text_bidi_wf(t),
        0 <= k < t.paragraphs@.len(),
    ensures
        t.paragraphs@[k].char_offset + t.paragraphs@[k].bidi.levels@.len() <= t.total_chars,
    decreases t.paragraphs@.len() - k,
{
    if k < t.paragraphs@.len() - 1 {
        lemma_paragraph_end(t, k + 1);
    }
}

impl TextBidi {
    /// Number of paragraphs.
    pub fn len(&self) -> (r: usize)
        ensures
            r == self.paragraphs@.len(),
    {
        self.paragraphs.len()
    }

    /// `true` iff there are no paragraphs.
    pub fn is_empty(&self) -> (r: bool)
        ensures
            r == (self.paragraphs@.len() == 0),
    {
        self.paragraphs.len() == 0
    }

    /// Locate the paragraph holding whole-text character `k`: its index
    /// and the index of `k` inside it; `None` iff `k >= total_chars`.
    pub fn locate_char(&self, k: usize) -> (r: Option<(usize, usize)>)
        requires
            text_bidi_wf(*self),
        ensures
            r is None <==> k >= self.total_chars,
            r matches Some((pi, li)) ==> pi < self.paragraphs@.len() && self.paragraphs@[pi as int].char_offset
                <= k && li == k - self.paragraphs@[pi as int].char_offset && li
                < self.paragraphs@[pi as int].bidi.levels@.len(),
    {
        let np = self.paragraphs.len();
        let mut pi: usize = 0;
        while pi < np
            invariant
                np == self.paragraphs@.len(),
                text_bidi_wf(*self),
                pi <= np,
                pi < np ==> self.paragraphs@[pi as int].char_offset <= k,
                pi == np ==> k >= self.total_chars,
            decreases np - pi,
        {
            let p = &self.paragraphs[pi];
            proof {
                lemma_paragraph_end(*self, pi as int);
            }
            let end = p.char_offset + p.bidi.levels.len();
            if k < end {
                return Some((pi, k - p.char_offset));
            }
            pi = pi + 1;
        }
        None
    }
}

/// Run the paragraph pipeline on every paragraph of `text` (P1 via
/// [`split_paragraphs`]), each with `base_level`, recording where each
/// paragraph lies in the text by characters and by bytes.
pub fn process_text(text: &str, base_level: Option<u8>) -> (r: TextBidi)
    ensures
        r.paragraphs@.len() == paragraph_bounds(classes_of(text@)).len(),
        r.paragraphs@.len() == paragraph_texts(text@).len(),
        r.paragraphs@.len() == 0 <==> text@.len() == 0,
        r.total_chars == text@.len(),
        text_bidi_wf(r),
        forall|k: int|
            0 <= k < r.paragraphs@.len() ==> is_paragraph_slice(
                text@,
                base_level,
                paragraph_bounds(classes_of(text@))[k],
                #[trigger] r.paragraphs@[k],
            ),
{
    let bytes = text.as_bytes();
    let nb = bytes.len();
    assert(nb == encode_utf8(text@).len());
    let ghost t = text@;
    let ghost b = paragraph_bounds(classes_of(t));
    proof {
        lemma_paragraph_bounds(classes_of(t));
        lemma_encode_len(t);
    }
    let slices = split_paragraphs(text);
    let ns = slices.len();
    let mut paragraphs: Vec<ParagraphSlice> = Vec::new();
    let mut total_chars: usize = 0;
    let mut byte_start: usize = 0;
    for k in 0..ns
        invariant
            t == text@,
            b == paragraph_bounds(classes_of(t)),
            ns == b.len(),
            ns == slices@.len(),
            ns > 0 ==> b[0].0 == 0 && b[ns - 1].1 == t.len(),
            forall|j: int| 0 <= j < ns - 1 ==> (#[trigger] b[j]).1 == b[j + 1].0,
            forall|j: int| 0 <= j < ns ==> 0 <= (#[trigger] b[j]).0 < b[j].1 <= t.len(),
            encode_utf8(t).len() <= usize::MAX,
            t.len() <= encode_utf8(t).len(),
            forall|j: int| 0 <= j < ns ==> (#[trigger] slices@[j])@ == paragraph_texts(t)[j],
            paragraphs@.len() == k,
            k < ns ==> total_chars == b[k as int].0,
            k == ns ==> total_chars == t.len(),
            0 <= total_chars <= t.len(),
            byte_start == byte_offset(t, total_chars as int),
            k > 0 ==> paragraphs@[0].char_offset == 0,
            k > 0 ==> paragraphs@.last().char_offset + paragraphs@.last().bidi.levels@.len()
                == total_chars,
            forall|j: int|
                0 <= j < k - 1 ==> (#[trigger] paragraphs@[j]).char_offset
                    + paragraphs@[j].bidi.levels@.len() == paragraphs@[j + 1].char_offset,
            forall|j: int|
                0 <= j < k ==> is_paragraph_slice(t, base_level, b[j], #[trigger] paragraphs@[j]),
    {
        let slice = slices[k];
        let ghost lo = b[k as int].0;
        let ghost hi = b[k as int].1;
        proof {
            assert(slice@ == t.subrange(lo, hi));
            lemma_byte_offset(t, lo, hi);
        }
        let len = slice.len();
        let (classes, local) = char_data(slice);
        let nc = local.len();
        let mut offsets: Vec<usize> = Vec::new();
        for i in 0..nc
            invariant
                nc == local@.len(),
                nc == hi - lo,
                slice@ == t.subrange(lo, hi),
                0 <= lo < hi <= t.len(),
                byte_start == byte_offset(t, lo),
                forall|x: int| 0 <= x < nc ==> local@[x] == byte_offset(slice@, x),
                encode_utf8(t).len() <= usize::MAX,
                offsets@.len() == i,
                forall|x: int| 0 <= x < i ==> offsets@[x] == byte_offset(t, lo + x),
        {
            proof {
                lemma_byte_offset(t, lo, lo + i);
                lemma_byte_offset(t, lo + i, t.len() as int);
                assert(t.subrange(lo, lo + i) =~= slice@.take(i as int));
            }
            offsets.push(byte_start + local[i]);
        }
        let bidi = process_paragraph_classes(classes.as_slice(), base_level);
        let char_offset = total_chars;
        total_chars = total_chars + bidi.levels.len();
        proof {
            lemma_byte_offset(t, lo, hi);
        }
        let ps = ParagraphSlice {
            byte_range: core::ops::Range { start: byte_start, end: byte_start + len },
            char_offset,
            bidi,
            char_byte_offsets: offsets,
        };
        paragraphs.push(ps);
        byte_start = byte_start + len;
    }
    TextBidi { paragraphs, total_chars }
}

/// The byte ranges of the paragraphs of a processed text tile it: the
/// first starts at byte 0, each starts where the previous ends, and the
/// last ends at the text's UTF-8 length.
pub proof fn lemma_byte_ranges_tile(t: Seq<char>, base_level: Option<u8>, ps: Seq<ParagraphSlice>)
    requires
        ps.len() == paragraph_bounds(classes_of(t)).len(),
        forall|k: int|
            0 <= k < ps.len() ==> is_paragraph_slice(
                t,
                base_level,
                paragraph_bounds(classes_of(t))[k],
                #[trigger] ps[k],
            ),
    ensures
        ps.len() > 0 ==> ps[0].byte_range.start == 0 && ps.last().byte_range.end == encode_utf8(
            t,
        ).len(),
        forall|k: int|
            0 <= k < ps.len() - 1 ==> (#[trigger] ps[k]).byte_range.end == ps[k + 1].byte_range.start,
{
    let b = paragraph_bounds(classes_of(t));
    lemma_paragraph_bounds(classes_of(t));
    assert(t.take(0) =~= Seq::<char>::empty());
    assert(encode_utf8(Seq::<char>::empty()) =~= Seq::<u8>::empty());
    assert(t.take(t.len() as int) =~= t);
    if ps.len() > 0 {
        assert(is_paragraph_slice(t, base_level, b[0], ps[0]));
        assert(is_paragraph_slice(t, base_level, b[ps.len() - 1], ps[ps.len() - 1]));
    }
    assert forall|k: int| 0 <= k < ps.len() - 1 implies (#[trigger] ps[k]).byte_range.end
        == ps[k + 1].byte_range.start by {
        assert(is_paragraph_slice(t, base_level, b[k], ps[k]));
        assert(is_paragraph_slice(t, base_level, b[k + 1], ps[k + 1]));
    }
}

} // verus!
