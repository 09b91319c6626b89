//! An ordered chain of faces and the fallback assignment of characters
//! to glyphs: each character goes to the first face whose cmap maps it
//! to a glyph other than `.notdef`.

use vstd::prelude::*;
use crate::face::{Face, FontError};

verus! {

/// An ordered chain of faces: index 0 is the primary, later faces are
/// consulted only when the earlier ones have no glyph.
#[derive(Debug)]
pub struct FaceChain {
    faces: Vec<Face>,
}

/// The first of `g` from position `k` on that is a glyph other than
/// `.notdef` (0), with its position (truncated to `u16`).
pub open spec fn first_glyph(g: Seq<Option<u16>>, k: int) -> Option<(u16, u16)>
    decreases g.len() - k,
{
    if k < 0 || k >= g.len() {
        None
    } else {
        match g[k] {
            Some(x) => if x != 0 {
                Some((k as u16, x))
            } else {
                first_glyph(g, k + 1)
            },
            None => first_glyph(g, k + 1),
        }
    }
}

/// The first face from `k` on that maps `c` to a glyph other than
/// `.notdef`, as `(face index, glyph)`: `Some(None)` when none does,
/// `None` when a face consulted before that fails to read.
pub open spec fn lookup_chain(faces: Seq<Face>, c: char, k: int) -> Option<Option<(u16, u16)>>
    decreases faces.len() - k,
{
    if k < 0 || k >= faces.len() {
        Some(None)
    } else {
        match faces[k].lookup_spec(c) {
            None => None,
            Some(Some(x)) => if x != 0 {
                Some(Some((k as u16, x)))
            } else {
                lookup_chain(faces, c, k + 1)
            },
            Some(None) => lookup_chain(faces, c, k + 1),
        }
    }
}

/// The character to retry with when no face has a glyph for shaped
/// character `i`: the original character at that position, when
/// shaping substituted it.
pub open spec fn retry_char(shaped: Seq<char>, original: Seq<char>, i: int) -> Option<char> {
    if i < original.len() && shaped[i] != original[i] {
        Some(original[i])
    } else {
        None
    }
}

/// The `(face index, glyph)` of shaped character `i`: the first face
/// with a glyph for it, else the first with a glyph for its retry
/// character, else the primary face's `.notdef`; `None` when a face
/// consulted fails to read.
pub open spec fn assign_char(faces: Seq<Face>, shaped: Seq<char>, original: Seq<char>, i: int) -> Option<
    (u16, u16),
> {
    match lookup_chain(faces, shaped[i], 0) {
        None => None,
        Some(Some(h)) => Some(h),
        Some(None) => match retry_char(shaped, original, i) {
            Some(o) => match lookup_chain(faces, o, 0) {
                None => None,
                Some(Some(h)) => Some(h),
                Some(None) => Some((0u16, 0u16)),
            },
            None => Some((0u16, 0u16)),
        },
    }
}

/// The assignments of the first `k` shaped characters; `None` when any
/// of them meets a face that fails to read.
pub open spec fn assign_all(faces: Seq<Face>, shaped: Seq<char>, original: Seq<char>, k: int) -> Option<
    Seq<(u16, u16)>,
>
    decreases k,
{
    if k <= 0 {
        Some(Seq::empty())
    } else {
        match assign_all(faces, shaped, original, k - 1) {
            None => None,
            Some(s) => match assign_char(faces, shaped, original, k - 1) {
                None => None,
                Some(h) => Some(s.push(h)),
            },
        }
    }
}

proof fn lemma_first_glyph_skip(g: Seq<Option<u16>>, k: int, m: int)
    requires
        0 <= k <= m <= g.len(),
        forall|j: int| k <= j < m ==> !(#[trigger] g[j] matches Some(x) && x != 0),
    ensures
        first_glyph(g, k) == first_glyph(g, m),
    decreases m - k,
{
    if k < m {
        lemma_first_glyph_skip(g, k + 1, m);
    }
}

/// The first of the per-face lookups `lookups` (in chain order) that is
/// a glyph other than `.notdef`, with the face's index.
pub fn pick_glyph(lookups: &[Option<u16>]) -> (r: Option<(u16, u16)>)
    ensures
        r == first_glyph(lookups@, 0),
{
    let n = lookups.len();
    let mut k: usize = 0;
    while k < n
        invariant
            n == lookups@.len(),
            k <= n,
            first_glyph(lookups@, 0) == first_glyph(lookups@, k as int),
        decreases n - k,
    {
        if let Some(x) = lookups[k] {
            if x != 0 {
                return Some((k as u16, x));
            }
        }
        proof {
            lemma_first_glyph_skip(lookups@, k as int, k + 1);
        }
        k = k + 1;
    }
    None
}

impl FaceChain {
    /// The faces, primary first.
    pub closed spec fn faces_view(&self) -> Seq<Face> {
        self.faces@
    }

    /// A chain always has its primary face.
    #[verifier::type_invariant]
    closed spec fn has_primary(&self) -> bool {
        self.faces.len() > 0
    }

    /// A chain of the one face `primary`.
    pub fn new(primary: Face) -> (r: Self)
        ensures
            r.faces_view() == seq![primary],
    {
        let mut faces: Vec<Face> = Vec::new();
        faces.push(primary);
        proof {
            assert(faces@ =~= seq![primary]);
        }
        FaceChain { faces }
    }

    /// The chain with `face` appended as the last fallback.
    pub fn push_fallback(self, face: Face) -> (r: Self)
        ensures
            r.faces_view() == self.faces_view().push(face),
    {
        proof {
            use_type_invariant(&self);
        }
        let mut faces = self.faces;
        faces.push(face);
        FaceChain { faces }
    }

    /// Number of faces, the primary included.
    pub fn len(&self) -> (r: usize)
        ensures
            r == self.faces_view().len(),
            r > 0,
    {
        proof {
            use_type_invariant(self);
        }
        self.faces.len()
    }

    /// Whether the chain has no face.
    pub fn is_empty(&self) -> (r: bool)
        ensures
            r == (self.faces_view().len() == 0),
            !r,
    {
        proof {
            use_type_invariant(self);
        }
        self.faces.len() == 0
    }

    /// The face at `idx`.
    pub fn face(&self, idx: u16) -> (r: &Face)
        requires
            idx < self.faces_view().len(),
        ensures
            *r == self.faces_view()[idx as int],
    {
        &self.faces[idx as usize]
    }

    /// The primary face.
    pub fn primary(&self) -> (r: &Face)
        ensures
            *r == self.faces_view()[0],
    {
        proof {
            use_type_invariant(self);
        }
        &self.faces[0]
    }

    /// The first face of the chain that maps `c` to a glyph other than
    /// `.notdef`, with that glyph; an error from the first face
    /// consulted that fails to read.
    pub fn lookup(&self, c: char) -> (r: Result<Option<(u16, u16)>, FontError>)
        ensures
            match lookup_chain(self.faces_view(), c, 0) {
                None => r is Err,
                Some(h) => r matches Ok(x) && x == h,
            },
    {
        let n = self.faces.len();
        let mut looked: Vec<Option<u16>> = Vec::new();
        let mut k: usize = 0;
        while k < n
            invariant
                n == self.faces@.len(),
                k <= n,
                looked@.len() == k,
                forall|j: int| 0 <= j < k ==> !(#[trigger] looked@[j] matches Some(x) && x != 0),
                lookup_chain(self.faces@, c, 0) == lookup_chain(self.faces@, c, k as int),
            decreases n - k,
        {
            let g = match self.faces[k].glyph_index(c) {
                Ok(g) => g,
                Err(e) => return Err(e),
            };
            looked.push(g);
            let hit = match g {
                Some(x) => x != 0,
                None => false,
            };
            if hit {
                proof {
                    lemma_first_glyph_skip(looked@, 0, k as int);
                }
                let r = pick_glyph(looked.as_slice());
                return Ok(r);
            }
            k = k + 1;
        }
        proof {
            lemma_first_glyph_skip(looked@, 0, k as int);
        }
        Ok(pick_glyph(looked.as_slice()))
    }

    /// Assign each shaped character a `(face index, glyph)`: the first
    /// face with a glyph for it; when none has one and shaping
    /// substituted the character (it differs from `original` at that
    /// position), the first face with a glyph for the original
    /// character; else the primary's `.notdef` `(0, 0)`. An error when a
    /// face consulted fails to read.
    pub fn assign_codepoints(&self, shaped: &[char], original: &[char]) -> (r: Result<
        Vec<(u16, u16)>,
        FontError,
    >)
        ensures
            match assign_all(self.faces_view(), shaped@, original@, shaped@.len() as int) {
                Some(s) => r matches Ok(v) && v@ == s,
                None => r is Err,
            },
    {
        let n = shaped.len();
        let mut out: Vec<(u16, u16)> = Vec::new();
        for i in 0..n
            invariant
                n == shaped@.len(),
                assign_all(self.faces_view(), shaped@, original@, i as int) == Some(out@),
        {
            let found = match self.lookup(shaped[i]) {
                Ok(h) => h,
                Err(e) => {
                    proof {
                        lemma_assign_all_stays_none(self.faces_view(), shaped@, original@, i + 1, n as int);
                    }
                    return Err(e);
                },
            };
            let h = match found {
                Some(h) => h,
                None => {
                    let retry = if i < original.len() && shaped[i] != original[i] {
                        Some(original[i])
                    } else {
                        None
                    };
                    match retry {
                        Some(o) => match self.lookup(o) {
                            Ok(Some(h)) => h,
                            Ok(None) => (0, 0),
                            Err(e) => {
                                proof {
                                    lemma_assign_all_stays_none(
                                        self.faces_view(),
                                        shaped@,
                                        original@,
                                        i + 1,
                                        n as int,
                                    );
                                }
                                return Err(e);
                            },
                        },
                        None => (0, 0),
                    }
                },
            };
            out.push(h);
        }
        Ok(out)
    }
}

proof fn lemma_assign_all_stays_none(
    faces: Seq<Face>,
    shaped: Seq<char>,
    original: Seq<char>,
    k: int,
    m: int,
)
    requires
        1 <= k <= m,
        assign_all(faces, shaped, original, k) is None,
    ensures
        assign_all(faces, shaped, original, m) is None,
    decreases m - k,
{
    if k < m {
        lemma_assign_all_stays_none(faces, shaped, original, k + 1, m);
    }
}

} // verus!
