//! A small move-to-front LRU cache keyed by glyph: the freshest entry
//! sits at the front, a hit moves its entry to the front, and an insert
//! beyond the capacity evicts the eldest entry.

use vstd::prelude::*;
use std::collections::VecDeque;

verus! {

/// Cache key: face, glyph, quantised size (`size_px * 256`, rounded),
/// quantised italic shear (`tan(angle) * 16384`, rounded) and the
/// horizontal sub-pixel slot (`0..SUBPIXEL_STEPS`).
#[derive(Debug, Clone, Copy, PartialEq, Eq, Hash, Structural)]
pub struct GlyphKey {
    /// Face identity.
    pub face_id: u64,
    /// Glyph id within the face.
    pub glyph_id: u16,
    /// Pixel size in 1/256 px.
    pub size_q8: u32,
    /// Shear in 1/16384 units; 0 for upright.
    pub shear_q14: i32,
    /// Sub-pixel horizontal offset slot.
    pub x_subpixel_q4: u8,
}

/// Number of horizontal sub-pixel offsets the rasterizer tells apart.
pub const SUBPIXEL_STEPS: u8 = 16;

/// Default LRU capacity.
pub const DEFAULT_CAPACITY: usize = 256;

impl GlyphKey {
    /// A key from already-quantised parts; the sub-pixel slot is
    /// clamped to `0..SUBPIXEL_STEPS`.
    pub fn from_quantised(face_id: u64, glyph_id: u16, size_q8: u32, shear_q14: i32, x_subpixel_q4: u8) -> (r: GlyphKey)
        ensures
            r == (GlyphKey {
                face_id,
                glyph_id,
                size_q8,
                shear_q14,
                x_subpixel_q4: if x_subpixel_q4 < SUBPIXEL_STEPS {
                    x_subpixel_q4
                } else {
                    (SUBPIXEL_STEPS - 1) as u8
                },
            }),
    {
        let slot = if x_subpixel_q4 < SUBPIXEL_STEPS {
            x_subpixel_q4
        } else {
            SUBPIXEL_STEPS - 1
        };
        GlyphKey { face_id, glyph_id, size_q8, shear_q14, x_subpixel_q4: slot }
    }
}

/// The first position at or after `i` of an entry with key `k`.
pub open spec fn find_key<V>(s: Seq<(GlyphKey, V)>, k: GlyphKey, i: int) -> Option<int>
    decreases s.len() - i,
{
    if i < 0 || i >= s.len() {
        None
    } else if s[i].0 == k {
        Some(i)
    } else {
        find_key(s, k, i + 1)
    }
}

/// No key occurs twice.
pub open spec fn keys_unique<V>(s: Seq<(GlyphKey, V)>) -> bool {
    forall|a: int, b: int| 0 <= a < b < s.len() ==> (#[trigger] s[a]).0 != (#[trigger] s[b]).0
}

/// The entries after a hit at position `i`: that entry moves to the
/// front, the others keep their order.
pub open spec fn promote<V>(s: Seq<(GlyphKey, V)>, i: int) -> Seq<(GlyphKey, V)> {
    seq![s[i]] + s.remove(i)
}

/// The entries after inserting `(k, v)` with capacity `cap`: any entry
/// for `k` is dropped, the new entry goes to the front, and the eldest
/// entries beyond `cap` are evicted.
pub open spec fn insert_spec<V>(s: Seq<(GlyphKey, V)>, cap: nat, k: GlyphKey, v: V) -> Seq<
    (GlyphKey, V),
> {
    let rest = match find_key(s, k, 0) {
        Some(i) => s.remove(i),
        None => s,
    };
    let t = seq![(k, v)] + rest;
    if t.len() > cap {
        t.take(cap as int)
    } else {
        t
    }
}

proof fn lemma_find_key<V>(s: Seq<(GlyphKey, V)>, k: GlyphKey, i: int)
    requires
        0 <= i,
    ensures
        find_key(s, k, i) matches Some(j) ==> i <= j < s.len() && s[j].0 == k && forall|m: int|
            i <= m < j ==> (#[trigger] s[m]).0 != k,
        find_key(s, k, i) is None ==> forall|m: int| i <= m < s.len() ==> (#[trigger] s[m]).0 != k,
    decreases s.len() - i,
{
    if i < s.len() {
        lemma_find_key(s, k, i + 1);
    }
}

/// A move-to-front LRU cache: entries freshest first, with hit and miss
/// counters.
#[derive(Debug)]
pub struct GlyphCache<V> {
    entries: VecDeque<(GlyphKey, V)>,
    capacity: usize,
    hits: u64,
    misses: u64,
}

impl<V> GlyphCache<V> {
    /// The entries, freshest first.
    pub closed spec fn entries_view(&self) -> Seq<(GlyphKey, V)> {
        self.entries@
    }

    /// The capacity.
    pub closed spec fn capacity_view(&self) -> nat {
        self.capacity as nat
    }

    /// The hit counter.
    pub closed spec fn hits_view(&self) -> nat {
        self.hits as nat
    }

    /// The miss counter.
    pub closed spec fn misses_view(&self) -> nat {
        self.misses as nat
    }

    /// The cache invariant: capacity at least one, at most `capacity`
    /// entries, no key twice.
    pub closed spec fn wf(&self) -> bool {
        &&& self.capacity >= 1
        &&& self.entries@.len() <= self.capacity
        &&& keys_unique(self.entries@)
    }

    /// A well-formed cache has at least one slot, holds at most its
    /// capacity of entries, and holds no key twice.
    pub proof fn lemma_wf(&self)
        requires
            self.wf(),
        ensures
            self.capacity_view() >= 1,
            self.entries_view().len() <= self.capacity_view(),
            keys_unique(self.entries_view()),
    {
    }

    /// An empty cache holding at most `capacity` entries (at least one).
    pub fn new(capacity: usize) -> (r: Self)
        ensures
            r.wf(),
            r.entries_view() == Seq::<(GlyphKey, V)>::empty(),
            r.capacity_view() == if capacity >= 1 {
                capacity
            } else {
                1
            },
            r.hits_view() == 0,
            r.misses_view() == 0,
    {
        let cap = if capacity >= 1 {
            capacity
        } else {
            1
        };
        GlyphCache { entries: VecDeque::with_capacity(cap), capacity: cap, hits: 0, misses: 0 }
    }

    /// The capacity.
    pub fn capacity(&self) -> (r: usize)
        ensures
            r == self.capacity_view(),
    {
        self.capacity
    }

    /// The number of entries.
    pub fn len(&self) -> (r: usize)
        ensures
            r == self.entries_view().len(),
    {
        self.entries.len()
    }

    /// Whether the cache is empty.
    pub fn is_empty(&self) -> (r: bool)
        ensures
            r == (self.entries_view().len() == 0),
    {
        self.entries.len() == 0
    }

    /// The hit counter.
    pub fn hits(&self) -> (r: u64)
        ensures
            r == self.hits_view(),
    {
        self.hits
    }

    /// The miss counter.
    pub fn misses(&self) -> (r: u64)
        ensures
            r == self.misses_view(),
    {
        self.misses
    }

    fn position(&self, key: &GlyphKey) -> (r: Option<usize>)
        ensures
            match find_key(self.entries@, *key, 0) {
                Some(i) => r == Some(i as usize),
                None => r is None,
            },
    {
        let n = self.entries.len();
        let mut i: usize = 0;
        while i < n
            invariant
                n == self.entries@.len(),
                i <= n,
                find_key(self.entries@, *key, 0) == find_key(self.entries@, *key, i as int),
            decreases n - i,
        {
            if self.entries[i].0 == *key {
                return Some(i);
            }
            i = i + 1;
        }
        None
    }

    /// Look up `key`: on a hit the entry moves to the front, the hit
    /// counter grows and a clone of the value is returned; on a miss the
    /// miss counter grows.
    pub fn get(&mut self, key: &GlyphKey) -> (r: Option<V>)
        where
            V: Clone,
        requires
            old(self).wf(),
            old(self).hits_view() < u64::MAX,
            old(self).misses_view() < u64::MAX,
        ensures
            final(self).wf(),
            final(self).capacity_view() == old(self).capacity_view(),
            match find_key(old(self).entries_view(), *key, 0) {
                Some(i) => {
                    &&& final(self).entries_view() == promote(old(self).entries_view(), i)
                    &&& final(self).hits_view() == old(self).hits_view() + 1
                    &&& final(self).misses_view() == old(self).misses_view()
                    &&& r matches Some(v) && cloned(old(self).entries_view()[i].1, v)
                },
                None => {
                    &&& final(self).entries_view() == old(self).entries_view()
                    &&& final(self).hits_view() == old(self).hits_view()
                    &&& final(self).misses_view() == old(self).misses_view() + 1
                    &&& r is None
                },
            },
    {
        let ghost s = self.entries@;
        proof {
            lemma_find_key(s, *key, 0);
        }
        match self.position(key) {
            Some(i) => {
                self.hits = self.hits + 1;
                if i == 0 {
                    assert(promote(s, 0) =~= s);
                    Some(self.entries[0].1.clone())
                } else {
                    match self.entries.remove(i) {
                        Some(entry) => {
                            let val = entry.1.clone();
                            self.entries.push_front(entry);
                            proof {
                                let t = self.entries@;
                                assert(t =~= promote(s, i as int));
                                assert forall|a: int, b: int| 0 <= a < b < t.len() implies (
                                #[trigger] t[a]).0 != (#[trigger] t[b]).0 by {
                                    if a == 0 {
                                        if b - 1 < i {
                                            assert(t[b] == s[b - 1]);
                                        } else {
                                            assert(t[b] == s[b]);
                                        }
                                    } else {
                                        let sa = if a - 1 < i { a - 1 } else { a };
                                        let sb = if b - 1 < i { b - 1 } else { b };
                                        assert(t[a] == s[sa]);
                                        assert(t[b] == s[sb]);
                                    }
                                }
                            }
                            Some(val)
                        },
                        None => None,
                    }
                }
            },
            None => {
                self.misses = self.misses + 1;
                None
            },
        }
    }

    /// Insert `value` for `key`: any entry for `key` is dropped, the new
    /// entry goes to the front, and the eldest entries beyond the
    /// capacity are evicted.
    pub fn insert(&mut self, key: GlyphKey, value: V)
        requires
            old(self).wf(),
        ensures
            final(self).wf(),
            final(self).entries_view() == insert_spec(
                old(self).entries_view(),
                old(self).capacity_view(),
                key,
                value,
            ),
            final(self).capacity_view() == old(self).capacity_view(),
            final(self).hits_view() == old(self).hits_view(),
            final(self).misses_view() == old(self).misses_view(),
    {
        let ghost s = self.entries@;
        let ghost cap0 = self.capacity;
        let ghost hits0 = self.hits;
        let ghost misses0 = self.misses;
        proof {
            lemma_find_key(s, key, 0);
        }
        let ghost rest = match find_key(s, key, 0) {
            Some(i) => s.remove(i),
            None => s,
        };
        match self.position(&key) {
            Some(i) => {
                let _ = self.entries.remove(i);
            },
            None => {},
        }
        assert(self.entries@ == rest);
        self.entries.push_front((key, value));
        let ghost t = seq![(key, value)] + rest;
        assert(self.entries@ == t);
        proof {
            assert forall|a: int, b: int| 0 <= a < b < t.len() implies (#[trigger] t[a]).0 != (
            #[trigger] t[b]).0 by {
                if let Some(i) = find_key(s, key, 0) {
                    let sb = if b - 1 < i { b - 1 } else { b };
                    assert(t[b] == s[sb]);
                    if a > 0 {
                        let sa = if a - 1 < i { a - 1 } else { a };
                        assert(t[a] == s[sa]);
                    }
                } else {
                    assert(t[b] == s[b - 1]);
                    if a > 0 {
                        assert(t[a] == s[a - 1]);
                    }
                }
            }
        }
        while self.entries.len() > self.capacity
            invariant
                self.capacity == cap0,
                self.hits == hits0,
                self.misses == misses0,
                self.capacity >= 1,
                self.entries@.len() <= t.len(),
                self.entries@.len() >= self.capacity || self.entries@.len() == t.len(),
                self.entries@ == t.take(self.entries@.len() as int),
                keys_unique(t),
            decreases self.entries@.len(),
        {
            let _ = self.entries.pop_back();
        }
        proof {
            if t.len() > self.capacity {
                assert(self.entries@ =~= t.take(self.capacity as int));
            } else {
                assert(t.take(t.len() as int) =~= t);
            }
            let e = self.entries@;
            assert forall|a: int, b: int| 0 <= a < b < e.len() implies (#[trigger] e[a]).0 != (
            #[trigger] e[b]).0 by {
                assert(e[a] == t[a]);
                assert(e[b] == t[b]);
            }
        }
    }
}

/// A read gives back what a write wrote: right after `insert(k, v)` the
/// entry for `k` is the freshest one and holds `v`.
pub proof fn lemma_insert_then_find<V>(s: Seq<(GlyphKey, V)>, cap: nat, k: GlyphKey, v: V)
    requires
        cap >= 1,
    ensures
        find_key(insert_spec(s, cap, k, v), k, 0) == Some(0int),
        insert_spec(s, cap, k, v)[0] == (k, v),
{
}

/// The cache never holds more than its capacity: an insert leaves at
/// most `cap` entries.
pub proof fn lemma_insert_within_capacity<V>(s: Seq<(GlyphKey, V)>, cap: nat, k: GlyphKey, v: V)
    requires
        s.len() <= cap,
    ensures
        insert_spec(s, cap, k, v).len() <= cap,
{
    lemma_find_key(s, k, 0);
}

/// Inserting a new key into a full cache evicts exactly the eldest entry.
pub proof fn lemma_insert_evicts_eldest<V>(s: Seq<(GlyphKey, V)>, cap: nat, k: GlyphKey, v: V)
    requires
        s.len() == cap,
        cap >= 1,
        find_key(s, k, 0) is None,
    ensures
        insert_spec(s, cap, k, v) == seq![(k, v)] + s.drop_last(),
{
    assert((seq![(k, v)] + s).take(cap as int) =~= seq![(k, v)] + s.drop_last());
}

/// Inserting a key absent from a full cache with distinct keys keeps it
/// full, puts the new entry first, drops the eldest key, and keeps
/// every other key.
pub proof fn lemma_full_insert_drops_eldest_key<V>(s: Seq<(GlyphKey, V)>, cap: nat, k: GlyphKey, v: V)
    requires
        s.len() == cap,
        cap >= 1,
        keys_unique(s),
        find_key(s, k, 0) is None,
    ensures
        insert_spec(s, cap, k, v).len() == cap,
        insert_spec(s, cap, k, v)[0] == (k, v),
        find_key(insert_spec(s, cap, k, v), s.last().0, 0) is None,
        forall|j: int| 0 <= j < cap - 1 ==> #[trigger] find_key(insert_spec(s, cap, k, v), s[j].0, 0) is Some,
{
    lemma_insert_evicts_eldest(s, cap, k, v);
    lemma_find_key(s, k, 0);
    let t = insert_spec(s, cap, k, v);
    assert(t == seq![(k, v)] + s.drop_last());
    lemma_find_key(t, s.last().0, 0);
    if find_key(t, s.last().0, 0) is Some {
        let i = find_key(t, s.last().0, 0)->0;
        if i > 0 {
            assert(t[i] == s[i - 1]);
            assert(s[i - 1].0 != s[s.len() - 1].0);
        } else {
            assert(s[s.len() - 1].0 != k);
        }
    }
    assert forall|j: int| 0 <= j < cap - 1 implies #[trigger] find_key(t, s[j].0, 0) is Some by {
        lemma_find_key(t, s[j].0, 0);
        assert(t[j + 1] == s[j]);
    }
}

/// A hit keeps every entry: promoting only reorders the entries.
pub proof fn lemma_promote_keeps_entries<V>(s: Seq<(GlyphKey, V)>, i: int)
    requires
        0 <= i < s.len(),
    ensures
        promote(s, i).len() == s.len(),
        promote(s, i)[0] == s[i],
        promote(s, i).to_multiset() == s.to_multiset(),
{
    broadcast use vstd::seq_lib::group_to_multiset_ensures, vstd::multiset::group_multiset_axioms;

    vstd::seq_lib::to_multiset_remove(s, i);
    vstd::seq_lib::lemma_multiset_commutative(seq![s[i]], s.remove(i));
    assert(seq![s[i]] =~= Seq::<(GlyphKey, V)>::empty().push(s[i]));
    assert(promote(s, i).to_multiset() =~= s.to_multiset());
}

impl<V> Default for GlyphCache<V> {
    /// An empty cache of [`DEFAULT_CAPACITY`] entries.
    fn default() -> (r: Self)
        ensures
            r.wf(),
            r.entries_view() == Seq::<(GlyphKey, V)>::empty(),
            r.capacity_view() == DEFAULT_CAPACITY,
            r.hits_view() == 0,
            r.misses_view() == 0,
    {
        Self::new(DEFAULT_CAPACITY)
    }
}

} // verus!
