//! Script resolution and script-run segmentation (UAX #24 §5): every
//! character is resolved to one concrete script from its `Script` and
//! `Script_Extensions` properties and its context, and consecutive
//! characters of one script form a run.

use vstd::prelude::*;
use super::{Script, script_at_index};
use crate::bidi::brackets::{BracketKind, paired_bracket, paired_bracket_spec};
use crate::bidi::class::chars_of;

verus! {

/// The `Script` of `c` as `intl` numbers scripts (the `repr(u8)`
/// discriminant of `intl::unicode::script::Script`).
pub uninterp spec fn ucd_script(c: char) -> u8;

/// Calls `intl::unicode::script::script` and reads the script's
/// discriminant. Claims only that the result is a function of `c`,
/// named [`ucd_script`].
#[verifier::external_body]
fn script_code(c: char) -> (r: u8)
    ensures
        r == ucd_script(c),
{
    intl::unicode::script::script(c) as u8
}

/// The explicit `Script_Extensions` set of `c` in `intl`'s numbering;
/// `None` when the set is just the character's `Script`.
pub uninterp spec fn ucd_script_extensions(c: char) -> Option<Seq<u8>>;

/// Calls `intl::unicode::script::script_extensions`: `None` for a
/// single-script set, else the discriminants of the listed scripts in
/// `intl`'s order. Claims that the result is a function of `c`, named
/// [`ucd_script_extensions`], and that a listed script is a
/// discriminant of `intl`'s `Script` (below 175) other than `Common`,
/// `Inherited` and `Unknown`: the explicit sets of `intl`'s compiled
/// `ScriptExtensions.txt` tables list none of those.
#[verifier::external_body]
fn script_extension_codes(c: char) -> (r: Option<Vec<u8>>)
    ensures
        match r {
            Some(v) => ucd_script_extensions(c) == Some(v@),
            None => ucd_script_extensions(c) is None,
        },
        r matches Some(v) ==> forall|k: int|
            0 <= k < v@.len() ==> #[trigger] v@[k] < 175 && script_or_unknown(v@[k]) != Script::Common
                && !is_pseudo_script(script_or_unknown(v@[k])),
{
    match intl::unicode::script::script_extensions(c) {
        intl::unicode::script::ScriptExtensions::Single(_) => None,
        intl::unicode::script::ScriptExtensions::Multiple(set) => Some(
            set.iter().map(|s| *s as u8).collect(),
        ),
    }
}

/// The script with discriminant `code`, `Unknown` past the last one.
pub open spec fn script_or_unknown(code: u8) -> Script {
    match script_at_index(code) {
        Some(s) => s,
        None => Script::Unknown,
    }
}

/// The `Script` of `c`.
pub open spec fn script_of(c: char) -> Script {
    script_or_unknown(ucd_script(c))
}

/// The explicit `Script_Extensions` set of `c`, `None` when it is just
/// its `Script`.
pub open spec fn extensions_of(c: char) -> Option<Seq<Script>> {
    match ucd_script_extensions(c) {
        Some(v) => Some(v.map_values(|x: u8| script_or_unknown(x))),
        None => None,
    }
}

/// BD16's canonical equivalence for brackets: U+2329 / U+232A stand for
/// U+3008 / U+3009.
pub open spec fn canon_bracket_spec(c: char) -> char {
    if c == '\u{2329}' {
        '\u{3008}'
    } else if c == '\u{232A}' {
        '\u{3009}'
    } else {
        c
    }
}

/// Depth of the open-bracket stack (UAX #9 BD16).
pub const BRACKET_STACK_MAX: usize = 63;

/// The state of the resolution scan between characters: the script
/// resolved so far for each character, the script of the open run, the
/// characters awaiting resolution with the constraint set they carry,
/// and the open brackets (canonical closer, opener index).
pub struct ScanState {
    /// The script each character has resolved to so far.
    pub resolved: Seq<Option<Script>>,
    /// The script of the open run; `None` while a span is pending.
    pub current: Option<Script>,
    /// The characters awaiting resolution.
    pub pending: Seq<usize>,
    /// The constraint set of the pending span, if it has one.
    pub pending_set: Option<Seq<Script>>,
    /// The open brackets: canonical closer and opener index.
    pub brackets: Seq<(char, usize)>,
}

/// Every pending character resolves to `to`.
pub open spec fn fill_span(resolved: Seq<Option<Script>>, pending: Seq<usize>, to: Script) -> Seq<
    Option<Script>,
> {
    Seq::new(
        resolved.len(),
        |x: int|
            if pending.contains(x as usize) {
                Some(to)
            } else {
                resolved[x]
            },
    )
}

/// The pending span resolves to `to` and closes.
pub open spec fn resolve_span_spec(st: ScanState, to: Script) -> ScanState {
    ScanState {
        resolved: fill_span(st.resolved, st.pending, to),
        pending: Seq::empty(),
        pending_set: None,
        ..st
    }
}

/// The script a span falls back on: the first of its constraint set,
/// `Common` when it has none.
pub open spec fn fallback_of(ps: Option<Seq<Script>>) -> Script {
    match ps {
        Some(s) => if s.len() > 0 {
            s[0]
        } else {
            Script::Common
        },
        None => Script::Common,
    }
}

/// The pending span, if any, resolves to its fallback.
pub open spec fn flush_spec(st: ScanState) -> ScanState {
    if st.pending.len() == 0 {
        ScanState { pending_set: None, ..st }
    } else {
        resolve_span_spec(st, fallback_of(st.pending_set))
    }
}

/// A span with constraint `ps` may resolve to `s`.
pub open spec fn set_admits(ps: Option<Seq<Script>>, s: Script) -> bool {
    match ps {
        Some(p) => p.contains(s),
        None => true,
    }
}

/// The scripts of `ps` that `set` also lists, in the order of `ps`.
pub open spec fn common_members(ps: Seq<Script>, set: Seq<Script>) -> Seq<Script>
    decreases ps.len(),
{
    if ps.len() == 0 {
        Seq::empty()
    } else {
        let rest = common_members(ps.drop_last(), set);
        if set.contains(ps.last()) {
            rest.push(ps.last())
        } else {
            rest
        }
    }
}

/// The deepest of the first `hi` open brackets that `key` closes.
pub open spec fn last_opener(br: Seq<(char, usize)>, key: char, hi: int) -> Option<int>
    decreases hi,
{
    if hi <= 0 {
        None
    } else if br[hi - 1].0 == key {
        Some(hi - 1)
    } else {
        last_opener(br, key, hi - 1)
    }
}

/// Character `i` resolves to `s`.
pub open spec fn set_resolved(st: ScanState, i: usize, s: Script) -> ScanState {
    ScanState { resolved: st.resolved.update(i as int, Some(s)), ..st }
}

/// Character `i` joins the pending span.
pub open spec fn push_pending(st: ScanState, i: usize) -> ScanState {
    ScanState { pending: st.pending.push(i), ..st }
}

/// §5.1: a closing bracket that matches the open bracket at `depth`
/// takes its opener's script (the enclosing text's), closing any
/// half-open span first; with the opener still pending it joins the
/// span.
pub open spec fn close_spec(st: ScanState, i: usize, depth: int) -> ScanState {
    let opener = st.brackets[depth].1;
    let st1 = ScanState { brackets: st.brackets.take(depth), ..st };
    match st1.resolved[opener as int] {
        Some(s) => {
            let st2 = if st1.current != Some(s) {
                let st3 = if st1.pending.len() > 0 {
                    if set_admits(st1.pending_set, s) {
                        resolve_span_spec(st1, s)
                    } else {
                        flush_spec(st1)
                    }
                } else {
                    st1
                };
                ScanState { current: Some(s), ..st3 }
            } else {
                st1
            };
            set_resolved(st2, i, s)
        },
        None => push_pending(st1, i),
    }
}

/// §5.2: a combining mark takes the open run's script; without one it
/// joins the pending span, its explicit set narrowing the span's
/// constraint where they share a script.
pub open spec fn mark_spec(st: ScanState, i: usize, scx: Option<Seq<Script>>) -> ScanState {
    match st.current {
        Some(s) => set_resolved(st, i, s),
        None => {
            let ps = match scx {
                Some(set) => match st.pending_set {
                    None => Some(set),
                    Some(p) => {
                        let inter = common_members(p, set);
                        if inter.len() > 0 {
                            Some(inter)
                        } else {
                            Some(p)
                        }
                    },
                },
                None => st.pending_set,
            };
            ScanState { pending_set: ps, ..push_pending(st, i) }
        },
    }
}

/// A neutral joins the open run, or the pending span.
pub open spec fn neutral_spec(st: ScanState, i: usize) -> ScanState {
    match st.current {
        Some(s) => set_resolved(st, i, s),
        None => push_pending(st, i),
    }
}

/// §5.3: a character with a limited script set continues the open run
/// when its script is a member; otherwise it opens or narrows a span
/// constrained to the set, which resolves once one script is left.
pub open spec fn constrained_spec(st: ScanState, i: usize, set: Seq<Script>) -> ScanState {
    match st.current {
        Some(t) => if set.contains(t) {
            set_resolved(st, i, t)
        } else {
            ScanState { current: None, pending_set: Some(set), ..push_pending(st, i) }
        },
        None => {
            let st2 = match st.pending_set {
                None => ScanState { pending_set: Some(set), ..push_pending(st, i) },
                Some(p) => {
                    let inter = common_members(p, set);
                    if inter.len() == 0 {
                        let f = flush_spec(st);
                        ScanState { pending_set: Some(set), ..push_pending(f, i) }
                    } else {
                        ScanState { pending_set: Some(inter), ..push_pending(st, i) }
                    }
                },
            };
            match st2.pending_set {
                Some(p) => if p.len() == 1 {
                    ScanState { current: Some(p[0]), ..resolve_span_spec(st2, p[0]) }
                } else {
                    st2
                },
                None => st2,
            }
        },
    }
}

/// A character of an explicit script continues the open run when it is
/// of that script or borrowed into it; otherwise it opens a run of its
/// own. With no open run it resolves the pending span to its script
/// when the span admits it, else the span falls back.
pub open spec fn determinate_spec(st: ScanState, i: usize, s: Script, scx: Option<Seq<Script>>) -> ScanState {
    match st.current {
        Some(t) => if t == s || (scx matches Some(set) && set.contains(t)) {
            set_resolved(st, i, t)
        } else {
            ScanState { current: Some(s), ..set_resolved(st, i, s) }
        },
        None => {
            let st2 = if set_admits(st.pending_set, s) {
                resolve_span_spec(st, s)
            } else {
                flush_spec(st)
            };
            ScanState { current: Some(s), ..set_resolved(st2, i, s) }
        },
    }
}

/// An opening bracket is pushed (canonical closer, index) while the
/// stack has room.
pub open spec fn open_spec(st: ScanState, i: usize, bracket: Option<(char, BracketKind)>) -> ScanState {
    match bracket {
        Some((partner, BracketKind::Open)) => if st.brackets.len() < BRACKET_STACK_MAX {
            ScanState { brackets: st.brackets.push((canon_bracket_spec(partner), i)), ..st }
        } else {
            st
        },
        _ => st,
    }
}

/// The bracket property of `c` where it can matter: only characters of
/// the `Common` / `Unknown` script are paired brackets.
pub open spec fn scan_bracket(c: char) -> Option<(char, BracketKind)> {
    if script_of(c) == Script::Common || script_of(c) == Script::Unknown {
        paired_bracket_spec(c)
    } else {
        None
    }
}

/// One character of the scan.
pub open spec fn scan_step(st: ScanState, c: char, i: usize) -> ScanState {
    let sc = script_of(c);
    let scx = extensions_of(c);
    let bracket = scan_bracket(c);
    let depth = last_opener(st.brackets, canon_bracket_spec(c), st.brackets.len() as int);
    if bracket matches Some((_, BracketKind::Close)) && depth is Some {
        close_spec(st, i, depth->0)
    } else {
        let st2 = if sc == Script::Inherited {
            mark_spec(st, i, scx)
        } else if sc == Script::Common || sc == Script::Unknown {
            match scx {
                Some(set) => constrained_spec(st, i, set),
                None => neutral_spec(st, i),
            }
        } else {
            determinate_spec(st, i, sc, scx)
        };
        open_spec(st2, i, bracket)
    }
}

/// The scan state after the first `k` characters.
pub open spec fn scan_state(chars: Seq<char>, k: int) -> ScanState
    decreases k,
{
    if k <= 0 {
        ScanState {
            resolved: Seq::new(chars.len(), |x: int| None),
            current: None,
            pending: Seq::empty(),
            pending_set: None,
            brackets: Seq::empty(),
        }
    } else {
        scan_step(scan_state(chars, k - 1), chars[k - 1], (k - 1) as usize)
    }
}

/// UAX #24 §5: the script each character of `chars` resolves to; a
/// trailing span falls back, and text that never meets a real script
/// is `Common`.
pub open spec fn resolve_scripts_spec(chars: Seq<char>) -> Seq<Script> {
    let fin = flush_spec(scan_state(chars, chars.len() as int));
    Seq::new(
        chars.len(),
        |x: int|
            match fin.resolved[x] {
                Some(s) => s,
                None => Script::Common,
            },
    )
}

/// `Inherited` and `Unknown`: the scripts a resolved character never
/// takes.
pub open spec fn is_pseudo_script(s: Script) -> bool {
    s == Script::Inherited || s == Script::Unknown
}

/// No script of `set` is `Inherited` or `Unknown`.
pub open spec fn no_pseudo(set: Seq<Script>) -> bool {
    forall|k: int| 0 <= k < set.len() ==> !is_pseudo_script(#[trigger] set[k])
}

/// An optional script that is not `Inherited` or `Unknown`.
pub open spec fn clean_opt(o: Option<Script>) -> bool {
    match o {
        Some(s) => !is_pseudo_script(s),
        None => true,
    }
}

/// Every script the scan holds is a real script or `Common`.
pub open spec fn scan_clean(st: ScanState) -> bool {
    &&& forall|x: int| 0 <= x < st.resolved.len() ==> clean_opt(#[trigger] st.resolved[x])
    &&& clean_opt(st.current)
    &&& (st.pending_set matches Some(p) ==> no_pseudo(p))
}

proof fn lemma_common_members(ps: Seq<Script>, set: Seq<Script>)
    ensures
        forall|k: int|
            0 <= k < common_members(ps, set).len() ==> ps.contains(#[trigger] common_members(ps, set)[k]),
    decreases ps.len(),
{
    if ps.len() > 0 {
        lemma_common_members(ps.drop_last(), set);
        let rest = common_members(ps.drop_last(), set);
        assert forall|k: int| 0 <= k < rest.len() implies ps.contains(#[trigger] rest[k]) by {
            let j = choose|j: int| 0 <= j < ps.drop_last().len() && ps.drop_last()[j] == rest[k];
            assert(ps[j] == rest[k]);
        }
        assert(ps[ps.len() - 1] == ps.last());
    }
}

proof fn lemma_common_members_clean(ps: Seq<Script>, set: Seq<Script>)
    requires
        no_pseudo(ps),
    ensures
        no_pseudo(common_members(ps, set)),
{
    lemma_common_members(ps, set);
    let c = common_members(ps, set);
    assert forall|k: int| 0 <= k < c.len() implies !is_pseudo_script(#[trigger] c[k]) by {
        let j = choose|j: int| 0 <= j < ps.len() && ps[j] == c[k];
        assert(!is_pseudo_script(ps[j]));
    }
}

proof fn lemma_resolve_span_clean(st: ScanState, to: Script)
    requires
        scan_clean(st),
        !is_pseudo_script(to),
    ensures
        scan_clean(resolve_span_spec(st, to)),
        scan_clean(flush_spec(st)),
{
    let f = fill_span(st.resolved, st.pending, to);
    assert forall|x: int| 0 <= x < f.len() implies clean_opt(#[trigger] f[x]) by {
        assert(clean_opt(st.resolved[x]));
    }
    let fb = fallback_of(st.pending_set);
    assert(!is_pseudo_script(fb)) by {
        if let Some(p) = st.pending_set {
            if p.len() > 0 {
                assert(!is_pseudo_script(p[0]));
            }
        }
    }
    let g = fill_span(st.resolved, st.pending, fb);
    assert forall|x: int| 0 <= x < g.len() implies clean_opt(#[trigger] g[x]) by {
        assert(clean_opt(st.resolved[x]));
    }
}

proof fn lemma_set_resolved_clean(st: ScanState, i: usize, s: Script)
    requires
        scan_clean(st),
        i < st.resolved.len(),
        !is_pseudo_script(s),
    ensures
        scan_clean(set_resolved(st, i, s)),
{
    let r = st.resolved.update(i as int, Some(s));
    assert forall|x: int| 0 <= x < r.len() implies clean_opt(#[trigger] r[x]) by {
        if x != i {
            assert(clean_opt(st.resolved[x]));
        }
    }
}

#[verifier::spinoff_prover]
proof fn lemma_scan_step_clean(st: ScanState, c: char, i: usize)
    requires
        scan_clean(st),
        scan_wf(st, st.resolved.len() as int),
        i < st.resolved.len(),
        extensions_of(c) matches Some(set) ==> no_pseudo(set),
    ensures
        scan_clean(scan_step(st, c, i)),
{
    let sc = script_of(c);
    let scx = extensions_of(c);
    let bracket = scan_bracket(c);
    let depth = last_opener(st.brackets, canon_bracket_spec(c), st.brackets.len() as int);
    if bracket matches Some((_, BracketKind::Close)) && depth is Some {
        let d = depth->0;
        let opener = st.brackets[d].1;
        let st1 = ScanState { brackets: st.brackets.take(d), ..st };
        assert(scan_clean(st1));
        match st1.resolved[opener as int] {
            Some(s) => {
                lemma_last_opener(st.brackets, canon_bracket_spec(c), st.brackets.len() as int);
                assert(st.brackets[d].1 < st.resolved.len());
                assert(clean_opt(st1.resolved[opener as int]));
                lemma_resolve_span_clean(st1, s);
                let st2 = if st1.current != Some(s) {
                    let st3 = if st1.pending.len() > 0 {
                        if set_admits(st1.pending_set, s) {
                            resolve_span_spec(st1, s)
                        } else {
                            flush_spec(st1)
                        }
                    } else {
                        st1
                    };
                    ScanState { current: Some(s), ..st3 }
                } else {
                    st1
                };
                assert(scan_clean(st2));
                lemma_set_resolved_clean(st2, i, s);
            },
            None => {},
        }
    } else {
        let st2 = if sc == Script::Inherited {
            mark_spec(st, i, scx)
        } else if sc == Script::Common || sc == Script::Unknown {
            match scx {
                Some(set) => constrained_spec(st, i, set),
                None => neutral_spec(st, i),
            }
        } else {
            determinate_spec(st, i, sc, scx)
        };
        assert(scan_clean(st2)) by {
            if sc == Script::Inherited {
                match st.current {
                    Some(s) => lemma_set_resolved_clean(st, i, s),
                    None => {
                        if let Some(set) = scx {
                            if let Some(p) = st.pending_set {
                                lemma_common_members_clean(p, set);
                            }
                        }
                    },
                }
            } else if sc == Script::Common || sc == Script::Unknown {
                match scx {
                    Some(set) => {
                        match st.current {
                            Some(t) => {
                                if set.contains(t) {
                                    lemma_set_resolved_clean(st, i, t);
                                }
                            },
                            None => {
                                let st3 = match st.pending_set {
                                    None => ScanState { pending_set: Some(set), ..push_pending(st, i) },
                                    Some(p) => {
                                        let inter = common_members(p, set);
                                        if inter.len() == 0 {
                                            let f = flush_spec(st);
                                            ScanState { pending_set: Some(set), ..push_pending(f, i) }
                                        } else {
                                            ScanState { pending_set: Some(inter), ..push_pending(st, i) }
                                        }
                                    },
                                };
                                if let Some(p) = st.pending_set {
                                    lemma_common_members_clean(p, set);
                                    lemma_resolve_span_clean(st, Script::Common);
                                }
                                assert(scan_clean(st3));
                                if let Some(p) = st3.pending_set {
                                    if p.len() == 1 {
                                        assert(!is_pseudo_script(p[0]));
                                        lemma_resolve_span_clean(st3, p[0]);
                                    }
                                }
                            },
                        }
                    },
                    None => {
                        if let Some(s) = st.current {
                            lemma_set_resolved_clean(st, i, s);
                        }
                    },
                }
            } else {
                match st.current {
                    Some(t) => {
                        lemma_set_resolved_clean(st, i, t);
                        lemma_set_resolved_clean(st, i, sc);
                    },
                    None => {
                        lemma_resolve_span_clean(st, sc);
                        let st3 = if set_admits(st.pending_set, sc) {
                            resolve_span_spec(st, sc)
                        } else {
                            flush_spec(st)
                        };
                        lemma_set_resolved_clean(st3, i, sc);
                    },
                }
            }
        }
    }
}

proof fn lemma_resolve_span_wf(st: ScanState, to: Script, n: int)
    requires
        scan_wf(st, n),
    ensures
        scan_wf(resolve_span_spec(st, to), n),
        scan_wf(flush_spec(st), n),
{
}

#[verifier::spinoff_prover]
proof fn lemma_scan_step_wf(st: ScanState, c: char, i: usize, n: int)
    requires
        scan_wf(st, n),
        i < n,
    ensures
        scan_wf(scan_step(st, c, i), n),
{
    let depth = last_opener(st.brackets, canon_bracket_spec(c), st.brackets.len() as int);
    lemma_last_opener(st.brackets, canon_bracket_spec(c), st.brackets.len() as int);
    lemma_resolve_span_wf(st, Script::Common, n);
    if let Some(d) = depth {
        let st1 = ScanState { brackets: st.brackets.take(d), ..st };
        assert(scan_wf(st1, n));
        lemma_resolve_span_wf(st1, Script::Common, n);
        if let Some(s) = st1.resolved[st.brackets[d].1 as int] {
            lemma_resolve_span_wf(st1, s, n);
        }
    }
    if let Some(s) = st.current {
        lemma_resolve_span_wf(st, s, n);
    }
    lemma_resolve_span_wf(st, script_of(c), n);
    let st2 = if script_of(c) == Script::Inherited {
        mark_spec(st, i, extensions_of(c))
    } else if script_of(c) == Script::Common || script_of(c) == Script::Unknown {
        match extensions_of(c) {
            Some(set) => constrained_spec(st, i, set),
            None => neutral_spec(st, i),
        }
    } else {
        determinate_spec(st, i, script_of(c), extensions_of(c))
    };
    assert(scan_wf(st2, n)) by {
        if script_of(c) != Script::Inherited && (script_of(c) == Script::Common || script_of(c)
            == Script::Unknown) {
            if let Some(set) = extensions_of(c) {
                if st.current is None {
                    let st3 = match st.pending_set {
                        None => ScanState { pending_set: Some(set), ..push_pending(st, i) },
                        Some(p) => {
                            let inter = common_members(p, set);
                            if inter.len() == 0 {
                                let f = flush_spec(st);
                                ScanState { pending_set: Some(set), ..push_pending(f, i) }
                            } else {
                                ScanState { pending_set: Some(inter), ..push_pending(st, i) }
                            }
                        },
                    };
                    assert(scan_wf(st3, n));
                    if let Some(p) = st3.pending_set {
                        lemma_resolve_span_wf(st3, p[0], n);
                    }
                }
            }
        }
    }
}

proof fn lemma_scan_state_clean(chars: Seq<char>, k: int)
    requires
        0 <= k <= chars.len(),
        forall|i: int| 0 <= i < chars.len() ==> (extensions_of(#[trigger] chars[i]) matches Some(set) ==> no_pseudo(set)),
    ensures
        scan_wf(scan_state(chars, k), chars.len() as int),
        scan_clean(scan_state(chars, k)),
    decreases k,
{
    if k == 0 {
        let st = scan_state(chars, 0);
        assert forall|x: int| 0 <= x < st.resolved.len() implies clean_opt(#[trigger] st.resolved[x]) by {}
    } else {
        lemma_scan_state_clean(chars, k - 1);
        let st = scan_state(chars, k - 1);
        let c = chars[k - 1];
        assert(extensions_of(c) matches Some(set) ==> no_pseudo(set));
        lemma_scan_step_wf(st, c, (k - 1) as usize, chars.len() as int);
        lemma_scan_step_clean(st, c, (k - 1) as usize);
    }
}

/// UAX #24 §5 resolution never leaves a character `Inherited` or
/// `Unknown`: each resolves to a real script, or to `Common` when the
/// text never meets one, provided no `Script_Extensions` set of its
/// characters lists a pseudo-script.
pub proof fn lemma_resolved_scripts_are_real(chars: Seq<char>)
    requires
        forall|i: int| 0 <= i < chars.len() ==> (extensions_of(#[trigger] chars[i]) matches Some(set) ==> no_pseudo(set)),
    ensures
        forall|x: int| 0 <= x < chars.len() ==> !is_pseudo_script(#[trigger] resolve_scripts_spec(chars)[x]),
{
    lemma_scan_state_clean(chars, chars.len() as int);
    let st = scan_state(chars, chars.len() as int);
    lemma_resolve_span_clean(st, Script::Common);
    let fin = flush_spec(st);
    assert forall|x: int| 0 <= x < chars.len() implies !is_pseudo_script(#[trigger] resolve_scripts_spec(chars)[x]) by {
        assert(clean_opt(fin.resolved[x]));
    }
}

/// A constraint set as a sequence.
pub open spec fn opt_seq(o: Option<Vec<Script>>) -> Option<Seq<Script>> {
    match o {
        Some(v) => Some(v@),
        None => None,
    }
}

/// Indices of the state point inside a text of `n` characters.
pub open spec fn scan_wf(st: ScanState, n: int) -> bool {
    &&& st.resolved.len() == n
    &&& forall|k: int| 0 <= k < st.pending.len() ==> (#[trigger] st.pending[k]) < n
    &&& forall|k: int| 0 <= k < st.brackets.len() ==> (#[trigger] st.brackets[k]).1 < n
}

struct Scan {
    resolved: Vec<Option<Script>>,
    current: Option<Script>,
    pending: Vec<usize>,
    pending_set: Option<Vec<Script>>,
    brackets: Vec<(char, usize)>,
}

impl Scan {
    spec fn state(&self) -> ScanState {
        ScanState {
            resolved: self.resolved@,
            current: self.current,
            pending: self.pending@,
            pending_set: opt_seq(self.pending_set),
            brackets: self.brackets@,
        }
    }
}

fn script_of_char(c: char) -> (r: Script)
    ensures
        r == script_of(c),
{
    match Script::from_index(script_code(c)) {
        Some(s) => s,
        None => Script::Unknown,
    }
}

fn extensions_of_char(c: char) -> (r: Option<Vec<Script>>)
    ensures
        opt_seq(r) == extensions_of(c),
        extensions_of(c) matches Some(set) ==> no_pseudo(set),
{
    match script_extension_codes(c) {
        Some(codes) => {
            let mut out: Vec<Script> = Vec::new();
            for k in 0..codes.len()
                invariant
                    out@ == codes@.take(k as int).map_values(|x: u8| script_or_unknown(x)),
            {
                let s = match Script::from_index(codes[k]) {
                    Some(s) => s,
                    None => Script::Unknown,
                };
                out.push(s);
                assert(out@ =~= codes@.take(k + 1).map_values(|x: u8| script_or_unknown(x)));
            }
            assert(codes@.take(codes@.len() as int) =~= codes@);
            assert forall|k: int| 0 <= k < out@.len() implies !is_pseudo_script(#[trigger] out@[k]) by {
                assert(out@[k] == script_or_unknown(codes@[k]));
            }
            Some(out)
        },
        None => None,
    }
}

fn canon_bracket(c: char) -> (r: char)
    ensures
        r == canon_bracket_spec(c),
{
    if c == '\u{2329}' {
        '\u{3008}'
    } else if c == '\u{232A}' {
        '\u{3009}'
    } else {
        c
    }
}

fn contains_script(v: &Vec<Script>, s: Script) -> (r: bool)
    ensures
        r == v@.contains(s),
{
    for k in 0..v.len()
        invariant
            forall|j: int| 0 <= j < k ==> v@[j] != s,
    {
        if v[k] == s {
            assert(v@[k as int] == s);
            return true;
        }
    }
    false
}

fn admits(ps: &Option<Vec<Script>>, s: Script) -> (r: bool)
    ensures
        r == set_admits(opt_seq(*ps), s),
{
    match ps {
        Some(p) => contains_script(p, s),
        None => true,
    }
}

fn common_members_of(ps: &Vec<Script>, set: &Vec<Script>) -> (r: Vec<Script>)
    ensures
        r@ == common_members(ps@, set@),
{
    let mut out: Vec<Script> = Vec::new();
    for k in 0..ps.len()
        invariant
            out@ == common_members(ps@.take(k as int), set@),
    {
        assert(ps@.take(k + 1).drop_last() =~= ps@.take(k as int));
        if contains_script(set, ps[k]) {
            out.push(ps[k]);
        }
    }
    assert(ps@.take(ps@.len() as int) =~= ps@);
    out
}

proof fn lemma_last_opener(br: Seq<(char, usize)>, key: char, hi: int)
    ensures
        last_opener(br, key, hi) matches Some(d) ==> 0 <= d < hi && br[d].0 == key,
    decreases hi,
{
    if hi > 0 {
        lemma_last_opener(br, key, hi - 1);
    }
}

/// A closing bracket pairs with the most recently opened bracket of its
/// kind still on the stack: the opener found among the first `hi`
/// entries holds `key` and no entry above it does; none is found exactly
/// when no entry holds `key`.
pub proof fn lemma_last_opener_is_innermost(br: Seq<(char, usize)>, key: char, hi: int)
    requires
        0 <= hi <= br.len(),
    ensures
        last_opener(br, key, hi) matches Some(d) ==> 0 <= d < hi && br[d].0 == key && forall|q: int|
            d < q < hi ==> #[trigger] br[q].0 != key,
        last_opener(br, key, hi) is None <==> forall|q: int| 0 <= q < hi ==> #[trigger] br[q].0 != key,
    decreases hi,
{
    if hi > 0 {
        lemma_last_opener_is_innermost(br, key, hi - 1);
    }
}

fn find_opener(br: &Vec<(char, usize)>, key: char) -> (r: Option<usize>)
    ensures
        match r {
            Some(d) => last_opener(br@, key, br@.len() as int) == Some(d as int),
            None => last_opener(br@, key, br@.len() as int) is None,
        },
        match r {
            Some(d) => d < br@.len() && br@[d as int].0 == key && forall|q: int|
                d < q < br@.len() ==> #[trigger] br@[q].0 != key,
            None => forall|q: int| 0 <= q < br@.len() ==> #[trigger] br@[q].0 != key,
        },
{
    proof {
        lemma_last_opener_is_innermost(br@, key, br@.len() as int);
    }
    let mut hi = br.len();
    while hi > 0
        invariant
            hi <= br@.len(),
            last_opener(br@, key, br@.len() as int) == last_opener(br@, key, hi as int),
        decreases hi,
    {
        if br[hi - 1].0 == key {
            proof {
                lemma_last_opener_is_innermost(br@, key, br@.len() as int);
            }
            return Some(hi - 1);
        }
        hi = hi - 1;
    }
    None
}

/// Resolves the pending span to `to`.
fn fill_pending(scan: &mut Scan, to: Script)
    requires
        scan_wf(old(scan).state(), old(scan).resolved@.len() as int),
    ensures
        final(scan).state() == resolve_span_spec(old(scan).state(), to),
{
    let ghost orig = scan.resolved@;
    let n = scan.resolved.len();
    let np = scan.pending.len();
    for k in 0..np
        invariant
            np == scan.pending@.len(),
            scan.pending@ == old(scan).pending@,
            scan.current == old(scan).current,
            scan.pending_set == old(scan).pending_set,
            scan.brackets == old(scan).brackets,
            orig == old(scan).resolved@,
            scan.resolved@.len() == orig.len(),
            orig.len() <= usize::MAX,
            scan_wf(old(scan).state(), orig.len() as int),
            scan.resolved@ == fill_span(orig, scan.pending@.take(k as int), to),
    {
        let idx = scan.pending[k];
        assert(old(scan).state().pending[k as int] == idx);
        scan.resolved[idx] = Some(to);
        proof {
            let pre = scan.pending@.take(k as int);
            let post = scan.pending@.take(k + 1);
            assert(post =~= pre.push(idx));
            assert forall|x: int| 0 <= x < orig.len() implies (#[trigger] post.contains(x as usize)
                <==> (pre.contains(x as usize) || x == idx)) by {
                if post.contains(x as usize) {
                    let j = choose|j: int| 0 <= j < post.len() && post[j] == x as usize;
                    if j < k {
                        assert(pre[j] == post[j]);
                    }
                }
                if pre.contains(x as usize) {
                    let j = choose|j: int| 0 <= j < pre.len() && pre[j] == x as usize;
                    assert(post[j] == pre[j]);
                }
                if x == idx {
                    assert(post[k as int] == idx);
                }
            }
            assert(scan.resolved@ =~= fill_span(orig, post, to));
        }
    }
    assert(scan.pending@.take(np as int) =~= scan.pending@);
    scan.pending = Vec::new();
    scan.pending_set = None;
}

/// The pending span, if any, resolves to its fallback.
fn flush(scan: &mut Scan)
    requires
        scan_wf(old(scan).state(), old(scan).resolved@.len() as int),
    ensures
        final(scan).state() == flush_spec(old(scan).state()),
{
    if scan.pending.len() == 0 {
        scan.pending_set = None;
    } else {
        let fb = match &scan.pending_set {
            Some(ps) => if ps.len() > 0 {
                ps[0]
            } else {
                Script::Common
            },
            None => Script::Common,
        };
        fill_pending(scan, fb);
    }
}

fn close_char(scan: &mut Scan, i: usize, depth: usize)
    requires
        scan_wf(old(scan).state(), old(scan).resolved@.len() as int),
        i < old(scan).resolved@.len(),
        depth < old(scan).brackets@.len(),
    ensures
        final(scan).state() == close_spec(old(scan).state(), i, depth as int),
        scan_wf(final(scan).state(), old(scan).resolved@.len() as int),
{
    let ghost n = scan.resolved@.len() as int;
    let opener = scan.brackets[depth].1;
    assert(old(scan).state().brackets[depth as int].1 == opener);
    scan.brackets.truncate(depth);
    assert(scan.brackets@ =~= old(scan).brackets@.take(depth as int));
    match scan.resolved[opener] {
        Some(s) => {
            let differs = match scan.current {
                Some(t) => t != s,
                None => true,
            };
            if differs {
                if scan.pending.len() > 0 {
                    if admits(&scan.pending_set, s) {
                        fill_pending(scan, s);
                    } else {
                        flush(scan);
                    }
                }
                scan.current = Some(s);
            }
            scan.resolved[i] = Some(s);
        },
        None => {
            scan.pending.push(i);
        },
    }
}

fn mark_char(scan: &mut Scan, i: usize, scx: Option<Vec<Script>>)
    requires
        scan_wf(old(scan).state(), old(scan).resolved@.len() as int),
        i < old(scan).resolved@.len(),
    ensures
        final(scan).state() == mark_spec(old(scan).state(), i, opt_seq(scx)),
        scan_wf(final(scan).state(), old(scan).resolved@.len() as int),
{
    match scan.current {
        Some(s) => {
            scan.resolved[i] = Some(s);
        },
        None => {
            if let Some(set) = scx {
                let had = match &scan.pending_set {
                    Some(_) => true,
                    None => false,
                };
                if !had {
                    scan.pending_set = Some(set);
                } else {
                    let inter = match &scan.pending_set {
                        Some(p) => common_members_of(p, &set),
                        None => Vec::new(),
                    };
                    if inter.len() > 0 {
                        scan.pending_set = Some(inter);
                    }
                }
            }
            scan.pending.push(i);
        },
    }
}

fn neutral_char(scan: &mut Scan, i: usize)
    requires
        scan_wf(old(scan).state(), old(scan).resolved@.len() as int),
        i < old(scan).resolved@.len(),
    ensures
        final(scan).state() == neutral_spec(old(scan).state(), i),
        scan_wf(final(scan).state(), old(scan).resolved@.len() as int),
{
    match scan.current {
        Some(s) => {
            scan.resolved[i] = Some(s);
        },
        None => {
            scan.pending.push(i);
        },
    }
}

fn constrained_char(scan: &mut Scan, i: usize, set: Vec<Script>)
    requires
        scan_wf(old(scan).state(), old(scan).resolved@.len() as int),
        i < old(scan).resolved@.len(),
    ensures
        final(scan).state() == constrained_spec(old(scan).state(), i, set@),
        scan_wf(final(scan).state(), old(scan).resolved@.len() as int),
{
    match scan.current {
        Some(t) => {
            if contains_script(&set, t) {
                scan.resolved[i] = Some(t);
            } else {
                scan.current = None;
                scan.pending.push(i);
                scan.pending_set = Some(set);
            }
        },
        None => {
            let had = match &scan.pending_set {
                Some(_) => true,
                None => false,
            };
            if !had {
                scan.pending.push(i);
                scan.pending_set = Some(set);
            } else {
                let inter = match &scan.pending_set {
                    Some(p) => common_members_of(p, &set),
                    None => Vec::new(),
                };
                if inter.len() == 0 {
                    flush(scan);
                    scan.pending.push(i);
                    scan.pending_set = Some(set);
                } else {
                    scan.pending.push(i);
                    scan.pending_set = Some(inter);
                }
            }
            let single = match &scan.pending_set {
                Some(p) => if p.len() == 1 {
                    Some(p[0])
                } else {
                    None
                },
                None => None,
            };
            if let Some(s) = single {
                fill_pending(scan, s);
                scan.current = Some(s);
            }
        },
    }
}

fn determinate_char(scan: &mut Scan, i: usize, s: Script, scx: Option<Vec<Script>>)
    requires
        scan_wf(old(scan).state(), old(scan).resolved@.len() as int),
        i < old(scan).resolved@.len(),
    ensures
        final(scan).state() == determinate_spec(old(scan).state(), i, s, opt_seq(scx)),
        scan_wf(final(scan).state(), old(scan).resolved@.len() as int),
{
    match scan.current {
        Some(t) => {
            let borrowed = match &scx {
                Some(set) => contains_script(set, t),
                None => false,
            };
            if t == s || borrowed {
                scan.resolved[i] = Some(t);
            } else {
                scan.resolved[i] = Some(s);
                scan.current = Some(s);
            }
        },
        None => {
            if admits(&scan.pending_set, s) {
                fill_pending(scan, s);
            } else {
                flush(scan);
            }
            scan.resolved[i] = Some(s);
            scan.current = Some(s);
        },
    }
}

fn open_char(scan: &mut Scan, i: usize, bracket: Option<(char, BracketKind)>)
    requires
        scan_wf(old(scan).state(), old(scan).resolved@.len() as int),
        i < old(scan).resolved@.len(),
    ensures
        final(scan).state() == open_spec(old(scan).state(), i, bracket),
        scan_wf(final(scan).state(), old(scan).resolved@.len() as int),
{
    match bracket {
        Some((partner, BracketKind::Open)) => {
            if scan.brackets.len() < BRACKET_STACK_MAX {
                let closer = canon_bracket(partner);
                scan.brackets.push((closer, i));
            }
        },
        _ => {},
    }
}

fn scan_char(scan: &mut Scan, c: char, i: usize)
    requires
        scan_wf(old(scan).state(), old(scan).resolved@.len() as int),
        i < old(scan).resolved@.len(),
    ensures
        final(scan).state() == scan_step(old(scan).state(), c, i),
        scan_wf(final(scan).state(), old(scan).resolved@.len() as int),
        extensions_of(c) matches Some(set) ==> no_pseudo(set),
{
    let sc = script_of_char(c);
    let scx = extensions_of_char(c);
    let neutral_like = sc == Script::Common || sc == Script::Unknown;
    let bracket = if neutral_like {
        paired_bracket(c)
    } else {
        None
    };
    let is_close = match bracket {
        Some((_, BracketKind::Close)) => true,
        _ => false,
    };
    if is_close {
        let key = canon_bracket(c);
        if let Some(depth) = find_opener(&scan.brackets, key) {
            proof {
                lemma_last_opener(scan.brackets@, key, scan.brackets@.len() as int);
            }
            close_char(scan, i, depth);
            return;
        }
    }
    if sc == Script::Inherited {
        mark_char(scan, i, scx);
    } else if neutral_like {
        match scx {
            Some(set) => constrained_char(scan, i, set),
            None => neutral_char(scan, i),
        }
    } else {
        determinate_char(scan, i, sc, scx);
    }
    open_char(scan, i, bracket);
}

/// Resolve every character of `chars` to one concrete Unicode script
/// (UAX #24 §5): paired brackets (§5.1) take their opener's script,
/// combining marks (§5.2) the open run's, characters with a limited
/// `Script_Extensions` set (§5.3) continue a run of a member script or
/// open a span constrained to the set, and neutrals attach to the open
/// run, a leading neutral span back-filling onto the first real script.
pub fn resolve_scripts(chars: &[char]) -> (r: Vec<Script>)
    ensures
        r@ == resolve_scripts_spec(chars@),
        forall|x: int| 0 <= x < r@.len() ==> !is_pseudo_script(#[trigger] r@[x]),
{
    let n = chars.len();
    let mut resolved: Vec<Option<Script>> = Vec::new();
    for k in 0..n
        invariant
            resolved@ == Seq::new(k as nat, |x: int| None::<Script>),
    {
        resolved.push(None);
        assert(resolved@ =~= Seq::new((k + 1) as nat, |x: int| None::<Script>));
    }
    let mut scan = Scan {
        resolved,
        current: None,
        pending: Vec::new(),
        pending_set: None,
        brackets: Vec::new(),
    };
    assert(scan.state().resolved =~= scan_state(chars@, 0).resolved);
    assert(scan.state().pending =~= scan_state(chars@, 0).pending);
    assert(scan.state().brackets =~= scan_state(chars@, 0).brackets);
    for i in 0..n
        invariant
            n == chars@.len(),
            scan.state() == scan_state(chars@, i as int),
            scan_wf(scan.state(), n as int),
            forall|j: int|
                0 <= j < i ==> (extensions_of(#[trigger] chars@[j]) matches Some(set) ==> no_pseudo(set)),
    {
        scan_char(&mut scan, chars[i], i);
    }
    flush(&mut scan);
    proof {
        lemma_resolved_scripts_are_real(chars@);
    }
    let ghost fin = flush_spec(scan_state(chars@, n as int));
    let mut out: Vec<Script> = Vec::new();
    for k in 0..n
        invariant
            n == chars@.len(),
            scan.state() == fin,
            fin.resolved.len() == n,
            out@ == Seq::new(
                k as nat,
                |x: int|
                    match fin.resolved[x] {
                        Some(s) => s,
                        None => Script::Common,
                    },
            ),
    {
        let s = match scan.resolved[k] {
            Some(s) => s,
            None => Script::Common,
        };
        out.push(s);
        assert(out@ =~= Seq::new(
            (k + 1) as nat,
            |x: int|
                match fin.resolved[x] {
                    Some(s) => s,
                    None => Script::Common,
                },
        ));
    }
    out
}

/// A maximal run of characters resolved to one script: the half-open
/// range `start..end` of char indices and the script.
#[derive(Debug, Clone, Copy, PartialEq, Eq, Structural)]
pub struct ScriptRun {
    /// First char index of the run (inclusive).
    pub start: usize,
    /// One past the last char index of the run (exclusive).
    pub end: usize,
    /// The run's resolved script.
    pub script: Script,
}

impl ScriptRun {
    /// Number of characters in the run.
    pub fn len(&self) -> (r: usize)
        requires
            self.start <= self.end,
        ensures
            r == self.end - self.start,
    {
        self.end - self.start
    }

    /// Whether the run covers no character.
    pub fn is_empty(&self) -> (r: bool)
        ensures
            r == (self.start >= self.end),
    {
        self.start >= self.end
    }
}

/// The runs of `res.take(k)` as `(start, end, value)`: an element equal
/// to the last run's value extends it, any other opens a new run.
pub open spec fn value_runs<T>(res: Seq<T>, k: int) -> Seq<(usize, usize, T)>
    decreases k,
{
    if k <= 0 {
        Seq::empty()
    } else {
        let p = value_runs(res, k - 1);
        if p.len() > 0 && p.last().2 == res[k - 1] {
            p.update(p.len() - 1, (p.last().0, k as usize, p.last().2))
        } else {
            p.push(((k - 1) as usize, k as usize, res[k - 1]))
        }
    }
}

/// `runs` partitions `0..res.len()` in order and without gaps into
/// non-empty runs `(start, end, value)`, each holding elements equal to
/// its value only, with neighbouring runs of different values.
pub open spec fn is_run_partition<T>(res: Seq<T>, runs: Seq<(usize, usize, T)>) -> bool {
    &&& (res.len() == 0 <==> runs.len() == 0)
    &&& runs.len() > 0 ==> runs[0].0 == 0 && runs.last().1 == res.len()
    &&& forall|k: int| 0 <= k < runs.len() ==> (#[trigger] runs[k]).0 < runs[k].1 <= res.len()
    &&& forall|k: int, m: int|
        #![trigger runs[k], res[m]]
        0 <= k < runs.len() && runs[k].0 <= m < runs[k].1 ==> res[m] == runs[k].2
    &&& forall|k: int|
        0 <= k < runs.len() - 1 ==> (#[trigger] runs[k]).1 == runs[k + 1].0 && runs[k].2
            != runs[k + 1].2
}

/// A script run as `(start, end, script)`.
pub open spec fn run_triple(r: ScriptRun) -> (usize, usize, Script) {
    (r.start, r.end, r.script)
}

/// The runs of a sequence of scripts as [`ScriptRun`] triples.
pub open spec fn triples(runs: Seq<ScriptRun>) -> Seq<(usize, usize, Script)> {
    runs.map_values(|r: ScriptRun| run_triple(r))
}

proof fn lemma_value_runs<T>(res: Seq<T>, k: int)
    requires
        0 <= k <= res.len(),
        res.len() <= usize::MAX,
    ensures
        is_run_partition(res.take(k), value_runs(res, k)),
    decreases k,
{
    if k > 0 {
        lemma_value_runs(res, k - 1);
        let p = value_runs(res, k - 1);
        let r = value_runs(res, k);
        let t = res.take(k);
        let t1 = res.take(k - 1);
        if p.len() > 0 && p.last().2 == res[k - 1] {
            assert forall|j: int, m: int|
                #![trigger r[j], t[m]]
                0 <= j < r.len() && r[j].0 <= m < r[j].1 implies t[m] == r[j].2 by {
                if j < p.len() - 1 {
                    assert(r[j] == p[j]);
                    assert(t1[m] == p[j].2);
                } else if m < k - 1 {
                    assert(t1[m] == p[j].2);
                }
            }
            assert forall|j: int| 0 <= j < r.len() - 1 implies (#[trigger] r[j]).1 == r[j + 1].0
                && r[j].2 != r[j + 1].2 by {
                assert(r[j] == p[j]);
                if j + 1 < p.len() - 1 {
                    assert(r[j + 1] == p[j + 1]);
                }
            }
        } else {
            assert forall|j: int, m: int|
                #![trigger r[j], t[m]]
                0 <= j < r.len() && r[j].0 <= m < r[j].1 implies t[m] == r[j].2 by {
                if j < p.len() {
                    assert(r[j] == p[j]);
                    assert(t1[m] == p[j].2);
                }
            }
            assert forall|j: int| 0 <= j < r.len() - 1 implies (#[trigger] r[j]).1 == r[j + 1].0
                && r[j].2 != r[j + 1].2 by {
                assert(r[j] == p[j]);
                if j + 1 < p.len() {
                    assert(r[j + 1] == p[j + 1]);
                }
            }
        }
    }
}

/// The maximal runs of equal values partition a sequence in order and
/// without gaps, neighbouring runs differing in value.
pub proof fn lemma_value_runs_partition<T>(res: Seq<T>)
    requires
        res.len() <= usize::MAX,
    ensures
        is_run_partition(res, value_runs(res, res.len() as int)),
{
    lemma_value_runs(res, res.len() as int);
    assert(res.take(res.len() as int) =~= res);
}

/// Itemise `chars` into maximal same-script runs: each character is
/// resolved by [`resolve_scripts`], and consecutive characters of one
/// script form one run. The runs partition `0..chars.len()` in order,
/// neighbouring runs differing in script; empty input gives no runs.
#[verifier::spinoff_prover]
pub fn script_runs(chars: &[char]) -> (r: Vec<ScriptRun>)
    ensures
        triples(r@) == value_runs(
            resolve_scripts_spec(chars@),
            resolve_scripts_spec(chars@).len() as int,
        ),
        is_run_partition(resolve_scripts_spec(chars@), triples(r@)),
        forall|k: int| 0 <= k < r@.len() ==> !is_pseudo_script(#[trigger] r@[k].script),
{
    let res = resolve_scripts(chars);
    let mut runs: Vec<ScriptRun> = Vec::new();
    let n = res.len();
    for i in 0..n
        invariant
            n == res@.len(),
            triples(runs@) == value_runs(res@, i as int),
    {
        let s = res[i];
        let m = runs.len();
        if m > 0 && runs[m - 1].script == s {
            let last = runs[m - 1];
            runs[m - 1] = ScriptRun { start: last.start, end: i + 1, script: last.script };
        } else {
            runs.push(ScriptRun { start: i, end: i + 1, script: s });
        }
        assert(triples(runs@) =~= value_runs(res@, i + 1));
    }
    proof {
        lemma_value_runs_partition(res@);
        assert forall|k: int| 0 <= k < runs@.len() implies !is_pseudo_script(#[trigger] runs@[k].script) by {
            let tr = triples(runs@);
            assert(tr[k] == run_triple(runs@[k]));
            assert(tr[k].0 < tr[k].1);
            assert(res@[tr[k].0 as int] == tr[k].2);
        }
    }
    runs
}

/// [`script_runs`] over the characters of `text`; run bounds are char
/// indices.
pub fn script_runs_str(text: &str) -> (r: Vec<ScriptRun>)
    ensures
        triples(r@) == value_runs(
            resolve_scripts_spec(text@),
            resolve_scripts_spec(text@).len() as int,
        ),
        is_run_partition(resolve_scripts_spec(text@), triples(r@)),
        forall|k: int| 0 <= k < r@.len() ==> !is_pseudo_script(#[trigger] r@[k].script),
{
    let chars = chars_of(text);
    script_runs(chars.as_slice())
}

} // verus!
