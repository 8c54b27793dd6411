//! The placeholder scanner: finds the six slot tokens `${c1}` .. `${c6}` in
//! template text with one multi-pattern search, and strips or replaces them.

use vstd::prelude::*;
use aho_corasick::{AhoCorasick, BuildError};
use crate::text::{push_char, to_chars};

verus! {

#[verifier::external_type_specification]
#[verifier::external_body]
pub struct ExAhoCorasick(aho_corasick::AhoCorasick);

#[verifier::external_type_specification]
#[verifier::external_body]
pub struct ExBuildError(aho_corasick::BuildError);

/// The patterns an automaton was built from, in order.
pub uninterp spec fn automaton_patterns(ac: AhoCorasick) -> Seq<Seq<u8>>;

/// All patterns are distinct and share one positive length.
pub open spec fn uniform_patterns(pats: Seq<Seq<u8>>) -> bool {
    &&& pats.len() > 0
    &&& pats[0].len() > 0
    &&& forall|k: int| 0 <= k < pats.len() ==> (#[trigger] pats[k]).len() == pats[0].len()
    &&& forall|k: int, l: int| 0 <= k < l < pats.len() ==> pats[k] != pats[l]
}

/// The first pattern, from index `k` on, that occurs in `hay` at `i`.
pub open spec fn pattern_at(hay: Seq<u8>, pats: Seq<Seq<u8>>, i: int, k: nat) -> Option<nat>
    decreases pats.len() - k,
{
    if k >= pats.len() {
        None
    } else if i + pats[k as int].len() <= hay.len() && hay.subrange(i, i + pats[k as int].len())
        == pats[k as int] {
        Some(k)
    } else {
        pattern_at(hay, pats, i, k + 1)
    }
}

/// Non-overlapping occurrences, found left to right from position `i`:
/// at each position the occurring pattern is taken and the search goes on
/// after it. Each occurrence is `(pattern index, start)`.
pub open spec fn scan_from(hay: Seq<u8>, pats: Seq<Seq<u8>>, i: nat) -> Seq<(nat, nat)>
    decreases (if i <= hay.len() {
        hay.len() - i
    } else {
        0
    }),
{
    if i >= hay.len() {
        Seq::empty()
    } else {
        match pattern_at(hay, pats, i as int, 0) {
            Some(k) => {
                let step: nat = if k < pats.len() && pats[k as int].len() > 0 {
                    pats[k as int].len()
                } else {
                    1
                };
                seq![(k, i)] + scan_from(hay, pats, i + step)
            },
            None => scan_from(hay, pats, i + 1),
        }
    }
}

/// Relies on `aho_corasick::AhoCorasick::new` with the default
/// configuration: on success the automaton searches for `patterns`, in
/// their order. Construction fails only past internal size limits.
#[verifier::external_body]
pub(crate) fn build_automaton(patterns: &Vec<Vec<u8>>) -> (r: Result<AhoCorasick, BuildError>)
    ensures
        r matches Ok(ac) ==> automaton_patterns(ac) == patterns.deep_view(),
{
    AhoCorasick::new(patterns)
}

/// Relies on `aho_corasick::AhoCorasick::find_iter` with the default
/// standard semantics: a match is reported as soon as it ends, and the
/// search resumes after it. With distinct patterns of one length the first
/// match to end is the leftmost one, so the matches are those of
/// `scan_from`. Unanchored searches do not fail.
#[verifier::external_body]
pub(crate) fn find_matches(ac: &AhoCorasick, hay: &[u8]) -> (r: Vec<(usize, usize)>)
    requires
        uniform_patterns(automaton_patterns(*ac)),
    ensures
        nat_matches(r@) == scan_from(hay@, automaton_patterns(*ac), 0),
{
    ac.find_iter(hay).map(|m| (m.pattern().as_usize(), m.start())).collect()
}

/// Matches as natural numbers.
pub open spec fn nat_matches(v: Seq<(usize, usize)>) -> Seq<(nat, nat)> {
    v.map_values(|m: (usize, usize)| (m.0 as nat, m.1 as nat))
}

/// The search key of a text: each character as its ASCII byte, any other
/// character as a byte that no pattern holds.
pub(crate) fn ascii_key_of(cs: &Vec<char>) -> (r: Vec<u8>)
    ensures
        r@ == ascii_key(cs@),
{
    let mut key: Vec<u8> = Vec::new();
    let mut i: usize = 0;
    while i < cs.len()
        invariant
            i <= cs@.len(),
            key@ == ascii_key(cs@.subrange(0, i as int)),
        decreases cs@.len() - i,
    {
        let u = cs[i] as u32;
        let b: u8 = if u < 128 {
            u as u8
        } else {
            255
        };
        key.push(b);
        i += 1;
        assert(key@ =~= ascii_key(cs@.subrange(0, i as int)));
    }
    assert(cs@.subrange(0, i as int) =~= cs@);
    key
}

/// The characters with each match (of length `l`) replaced by the
/// replacement for its pattern.
pub(crate) fn splice(cs: &Vec<char>, ms: &Vec<(usize, usize)>, reps: &Vec<String>, l: usize) -> (r: String)
    requires
        matches_fit(nat_matches(ms@), cs@.len(), 0, reps@.len(), l as nat),
    ensures
        r@ == spliced(cs@, nat_matches(ms@), reps@.map_values(|x: String| x@), l as nat),
{
    let ghost rv = reps@.map_values(|x: String| x@);
    let ghost pm = nat_matches(ms@);
    let mut out = String::new();
    let mut pos: usize = 0;
    let mut j: usize = 0;
    let n = cs.len();
    while j < ms.len()
        invariant
            n == cs@.len(),
            rv == reps@.map_values(|x: String| x@),
            pm == nat_matches(ms@),
            matches_fit(pm, cs@.len(), 0, reps@.len(), l as nat),
            j <= ms@.len(),
            pos == end_after(pm, j as int, l as nat),
            out@ == spliced_upto(cs@, pm, rv, l as nat, j as nat),
        decreases ms@.len() - j,
    {
        let (k, st) = ms[j];
        assert(pm[j as int] == (k as nat, st as nat));
        assert(pm[j as int].0 < reps@.len() && pm[j as int].1 + l <= cs@.len());
        if j > 0 {
            assert(pm[j - 1].1 + l <= pm[j as int].1);
        }
        let ghost base = out@;
        let mut p = pos;
        while p < st
            invariant
                pos <= p <= st <= cs@.len(),
                out@ == base + cs@.subrange(pos as int, p as int),
            decreases st - p,
        {
            push_char(&mut out, cs[p]);
            p += 1;
            assert(out@ =~= base + cs@.subrange(pos as int, p as int));
        }
        out.append(reps[k].as_str());
        assert(rv[k as int] == reps@[k as int]@);
        pos = st + l;
        j += 1;
    }
    let ghost base = out@;
    let mut p = pos;
    assert(pos <= cs@.len()) by {
        if j > 0 {
            assert(pm[j - 1].1 + l <= cs@.len());
        }
    }
    while p < cs.len()
        invariant
            pos <= p <= cs@.len(),
            out@ == base + cs@.subrange(pos as int, p as int),
        decreases cs@.len() - p,
    {
        push_char(&mut out, cs[p]);
        p += 1;
        assert(out@ =~= base + cs@.subrange(pos as int, p as int));
    }
    out
}

/// The bytes of the token for slot `k + 1`: `$`, `{`, `c`, the digit, `}`.
pub open spec fn token_bytes(k: nat) -> Seq<u8> {
    seq![36u8, 123u8, 99u8, (49 + k) as u8, 125u8]
}

/// The six placeholder tokens, slot 1 first.
pub open spec fn placeholder_patterns() -> Seq<Seq<u8>> {
    Seq::new(6, |k: int| token_bytes(k as nat))
}

/// The token characters `${cN}` for slot `N = k + 1`.
pub open spec fn token_chars(k: nat) -> Seq<char> {
    seq!['$', '{', 'c', (49 + k) as char, '}']
}

/// Each character as its ASCII byte; any other character as a byte that
/// no token holds.
pub open spec fn ascii_key(s: Seq<char>) -> Seq<u8> {
    s.map_values(|c: char| if (c as u32) < 128 { c as u32 as u8 } else { 255u8 })
}

/// The placeholder tokens of a text, left to right, as `(slot - 1, start)`
/// in character positions.
pub open spec fn placeholder_matches(s: Seq<char>) -> Seq<(nat, nat)> {
    scan_from(ascii_key(s), placeholder_patterns(), 0)
}

/// The matches are ordered, disjoint, inside a text of length `n`, and name
/// one of `np` patterns of length `l`.
pub open spec fn matches_fit(ms: Seq<(nat, nat)>, n: nat, lo: nat, np: nat, l: nat) -> bool {
    &&& forall|j: int| 0 <= j < ms.len() ==> (#[trigger] ms[j]).0 < np && ms[j].1 + l <= n
    &&& ms.len() > 0 ==> lo <= ms[0].1
    &&& forall|j: int| 0 < j < ms.len() ==> ms[j - 1].1 + l <= (#[trigger] ms[j]).1
}

/// The placeholder matches are ordered, disjoint, inside the text, and
/// name a slot.
pub open spec fn matches_wf(ms: Seq<(nat, nat)>, n: nat, lo: nat) -> bool {
    matches_fit(ms, n, lo, 6, 5)
}

/// Where the text after match `j - 1` begins (0 before the first match),
/// for matches of length `l`.
pub open spec fn end_after(ms: Seq<(nat, nat)>, j: int, l: nat) -> nat {
    if j <= 0 {
        0
    } else {
        ms[j - 1].1 + l
    }
}

/// The text up to the end of match `j - 1`, each match (of length `l`)
/// replaced by the replacement for its pattern.
pub open spec fn spliced_upto(
    s: Seq<char>,
    ms: Seq<(nat, nat)>,
    reps: Seq<Seq<char>>,
    l: nat,
    j: nat,
) -> Seq<char>
    decreases j,
{
    if j == 0 {
        Seq::empty()
    } else {
        spliced_upto(s, ms, reps, l, (j - 1) as nat) + s.subrange(
            end_after(ms, j - 1, l) as int,
            ms[j - 1].1 as int,
        ) + reps[ms[j - 1].0 as int]
    }
}

/// The text with the matches `ms`, of length `l`, replaced.
pub open spec fn spliced(s: Seq<char>, ms: Seq<(nat, nat)>, reps: Seq<Seq<char>>, l: nat) -> Seq<char> {
    spliced_upto(s, ms, reps, l, ms.len()) + s.subrange(end_after(ms, ms.len() as int, l) as int, s.len() as int)
}

/// The text with the placeholder matches `ms` replaced by the replacement
/// for their slot.
pub open spec fn replaced(s: Seq<char>, ms: Seq<(nat, nat)>, reps: Seq<Seq<char>>) -> Seq<char> {
    spliced(s, ms, reps, 5)
}

/// Every placeholder replaced by the replacement for its slot.
pub open spec fn replace_placeholders(s: Seq<char>, reps: Seq<Seq<char>>) -> Seq<char> {
    replaced(s, placeholder_matches(s), reps)
}

/// Six empty replacements.
pub open spec fn no_replacements() -> Seq<Seq<char>> {
    Seq::new(6, |_k: int| Seq::<char>::empty())
}

/// One left-to-right pass that removes the placeholders it finds. Removing
/// `${c1}` from `$${c1}{c1}` leaves a new `${c1}` behind.
pub open spec fn strip_once(s: Seq<char>) -> Seq<char> {
    replace_placeholders(s, no_replacements())
}

/// Removal passes repeated while placeholders remain, at most `fuel` times.
pub open spec fn strip_iter(s: Seq<char>, fuel: nat) -> Seq<char>
    decreases fuel,
{
    if fuel == 0 || placeholder_matches(s).len() == 0 {
        s
    } else {
        strip_iter(strip_once(s), (fuel - 1) as nat)
    }
}

/// The text with every placeholder removed, until none is left. Each pass
/// shortens the text, so as many passes as characters always suffice.
pub open spec fn strip(s: Seq<char>) -> Seq<char> {
    strip_iter(s, s.len())
}

proof fn lemma_pattern_at(hay: Seq<u8>, pats: Seq<Seq<u8>>, i: int, k: nat)
    requires
        0 <= i,
        uniform_patterns(pats),
    ensures
        pattern_at(hay, pats, i, k) matches Some(p) ==> k <= p < pats.len() && i + pats[0].len()
            <= hay.len() && hay.subrange(i, i + pats[0].len()) == pats[p as int],
    decreases pats.len() - k,
{
    if k < pats.len() {
        lemma_pattern_at(hay, pats, i, k + 1);
    }
}

/// The matches of distinct patterns of one length are ordered, disjoint and
/// inside the text.
pub proof fn lemma_scan_fits(hay: Seq<u8>, pats: Seq<Seq<u8>>, i: nat)
    requires
        uniform_patterns(pats),
    ensures
        matches_fit(scan_from(hay, pats, i), hay.len(), i, pats.len(), pats[0].len()),
    decreases hay.len() - i,
{
    let l = pats[0].len();
    if i < hay.len() {
        lemma_pattern_at(hay, pats, i as int, 0);
        match pattern_at(hay, pats, i as int, 0) {
            Some(k) => {
                assert(pats[k as int].len() == l);
                lemma_scan_fits(hay, pats, i + l);
                let rest = scan_from(hay, pats, i + l);
                let ms = scan_from(hay, pats, i);
                assert(ms == seq![(k, i)] + rest);
                assert forall|j: int| 0 < j < ms.len() implies ms[j - 1].1 + l <= (#[trigger] ms[j]).1 by {
                    if j > 1 {
                        assert(ms[j - 1] == rest[j - 2]);
                        assert(ms[j] == rest[j - 1]);
                    } else {
                        assert(ms[j] == rest[0]);
                    }
                }
                assert forall|j: int| 0 <= j < ms.len() implies (#[trigger] ms[j]).0 < pats.len() && ms[j].1 + l <= hay.len() by {
                    if j > 0 {
                        assert(ms[j] == rest[j - 1]);
                    }
                }
            },
            None => {
                lemma_scan_fits(hay, pats, i + 1);
            },
        }
    }
}

pub proof fn lemma_scan_wf(hay: Seq<u8>, i: nat)
    ensures
        matches_wf(scan_from(hay, placeholder_patterns(), i), hay.len(), i),
{
    lemma_placeholder_patterns_uniform();
    lemma_scan_fits(hay, placeholder_patterns(), i);
}

pub proof fn lemma_placeholder_patterns_uniform()
    ensures
        uniform_patterns(placeholder_patterns()),
{
    let pats = placeholder_patterns();
    assert forall|k: int, l: int| 0 <= k < l < pats.len() implies pats[k] != pats[l] by {
        assert(pats[k][3] != pats[l][3]);
    }
}

/// A placeholder found in a text: its slot (1 to 6) and the character
/// positions it covers.
#[derive(Clone, Copy, Debug, PartialEq, Eq, Hash, Structural)]
pub struct PlaceholderMatch {
    pub slot: u8,
    pub start: usize,
    pub end: usize,
}

/// Finds, strips and replaces placeholder tokens; built once and shared.
pub struct PlaceholderScanner {
    ac: AhoCorasick,
}

impl PlaceholderScanner {
    #[verifier::type_invariant]
    spec fn searches_tokens(&self) -> bool {
        automaton_patterns(self.ac) == placeholder_patterns()
    }

    /// Builds the scanner; fails only when the search automaton cannot be
    /// built.
    pub fn new() -> (r: Result<PlaceholderScanner, BuildError>) {
        let pats: Vec<Vec<u8>> = vec![
            vec![36u8, 123, 99, 49, 125],
            vec![36u8, 123, 99, 50, 125],
            vec![36u8, 123, 99, 51, 125],
            vec![36u8, 123, 99, 52, 125],
            vec![36u8, 123, 99, 53, 125],
            vec![36u8, 123, 99, 54, 125],
        ];
        assert(pats.deep_view() =~= placeholder_patterns()) by {
            assert forall|k: int| 0 <= k < 6 implies pats.deep_view()[k] =~= placeholder_patterns()[k] by {}
        }
        match build_automaton(&pats) {
            Ok(ac) => Ok(PlaceholderScanner { ac }),
            Err(e) => Err(e),
        }
    }

    /// The matches of `placeholder_matches(cs)` as character positions.
    fn scan(&self, cs: &Vec<char>) -> (r: Vec<(usize, usize)>)
        ensures
            nat_matches(r@) == placeholder_matches(cs@),
            r@.len() == placeholder_matches(cs@).len(),
            forall|j: int|
                0 <= j < r@.len() ==> (#[trigger] r@[j]).0 as nat == placeholder_matches(cs@)[j].0
                    && r@[j].1 as nat == placeholder_matches(cs@)[j].1,
            matches_wf(placeholder_matches(cs@), cs@.len(), 0),
    {
        proof {
            use_type_invariant(self);
            lemma_placeholder_patterns_uniform();
            lemma_scan_wf(ascii_key(cs@), 0);
        }
        let key = ascii_key_of(cs);
        let r = find_matches(&self.ac, key.as_slice());
        proof {
            assert forall|j: int| 0 <= j < r@.len() implies (#[trigger] r@[j]).0 as nat == placeholder_matches(cs@)[j].0
                    && r@[j].1 as nat == placeholder_matches(cs@)[j].1 by {
                assert(nat_matches(r@)[j] == placeholder_matches(cs@)[j]);
            }
        }
        r
    }

    /// The placeholder tokens of `text`, left to right.
    pub fn find_all(&self, text: &str) -> (r: Vec<PlaceholderMatch>)
        ensures
            r@.len() == placeholder_matches(text@).len(),
            forall|j: int|
                0 <= j < r@.len() ==> (#[trigger] r@[j]).slot as nat == placeholder_matches(text@)[j].0
                    + 1 && r@[j].start as nat == placeholder_matches(text@)[j].1 && r@[j].end as nat
                    == r@[j].start + 5,
    {
        let cs = to_chars(text);
        let ms = self.scan(&cs);
        let mut out: Vec<PlaceholderMatch> = Vec::new();
        let ghost pm = placeholder_matches(text@);
        let n = cs.len();
        for j in 0..ms.len()
            invariant
                n == cs@.len(),
                cs@ == text@,
                pm == placeholder_matches(text@),
                ms@.len() == pm.len(),
                forall|q: int|
                    0 <= q < ms@.len() ==> (#[trigger] ms@[q]).0 as nat == pm[q].0 && ms@[q].1 as nat
                        == pm[q].1,
                matches_wf(pm, cs@.len(), 0),
                out@.len() == j,
                forall|q: int|
                    0 <= q < j ==> (#[trigger] out@[q]).slot as nat == pm[q].0 + 1
                        && out@[q].start as nat == pm[q].1 && out@[q].end as nat == out@[q].start + 5,
        {
            let (k, st) = ms[j];
            assert(ms@[j as int].1 as nat == pm[j as int].1);
            assert(pm[j as int].0 < 6 && pm[j as int].1 + 5 <= cs@.len());
            out.push(PlaceholderMatch { slot: (k + 1) as u8, start: st, end: st + 5 });
        }
        out
    }

    /// `text` with each placeholder replaced by the replacement for its slot
    /// (`replacements[0]` for slot 1).
    pub fn replace_all(&self, text: &str, replacements: &Vec<String>) -> (r: String)
        requires
            replacements@.len() == 6,
        ensures
            r@ == replace_placeholders(text@, replacements@.map_values(|x: String| x@)),
    {
        let cs = to_chars(text);
        let ms = self.scan(&cs);
        splice(&cs, &ms, replacements, 5)
    }

    /// `text` with every placeholder removed, pass after pass, until none
    /// is left.
    pub fn strip_all(&self, text: &str) -> (r: String)
        ensures
            r@ == strip(text@),
    {
        let reps: Vec<String> = vec![
            String::new(),
            String::new(),
            String::new(),
            String::new(),
            String::new(),
            String::new(),
        ];
        assert(reps@.map_values(|x: String| x@) =~= no_replacements());
        let mut cur = text.to_owned();
        loop
            invariant
                reps@.map_values(|x: String| x@) == no_replacements(),
                reps@.len() == 6,
                strip(cur@) == strip(text@),
            ensures
                cur@ == strip(text@),
            decreases cur@.len(),
        {
            let found = self.find_all(cur.as_str());
            if found.len() == 0 {
                break;
            }
            let next = self.replace_all(cur.as_str(), &reps);
            proof {
                lemma_strip_once_len(cur@);
                lemma_strip_fuel(strip_once(cur@), (cur@.len() - 1) as nat);
            }
            cur = next;
        }
        cur
    }
}

proof fn lemma_spliced_upto_len(s: Seq<char>, ms: Seq<(nat, nat)>, j: nat)
    requires
        matches_wf(ms, s.len(), 0),
        j <= ms.len(),
    ensures
        spliced_upto(s, ms, no_replacements(), 5, j).len() + 5 * j == end_after(ms, j as int, 5),
    decreases j,
{
    if j > 0 {
        lemma_spliced_upto_len(s, ms, (j - 1) as nat);
        if j > 1 {
            assert(ms[j - 2].1 + 5 <= ms[j - 1].1);
        }
        assert(ms[j - 1].0 < 6);
        assert(no_replacements()[ms[j - 1].0 as int].len() == 0);
    }
}

/// A removal pass takes five characters away for each placeholder found.
pub proof fn lemma_strip_once_len(s: Seq<char>)
    ensures
        strip_once(s).len() + 5 * placeholder_matches(s).len() == s.len(),
{
    let ms = placeholder_matches(s);
    lemma_scan_wf(ascii_key(s), 0);
    lemma_spliced_upto_len(s, ms, ms.len());
    if ms.len() > 0 {
        assert(ms[ms.len() - 1].1 + 5 <= s.len());
    }
}

/// With at least as many passes as characters, the result no longer
/// depends on the number of passes.
pub proof fn lemma_strip_fuel(s: Seq<char>, n: nat)
    requires
        n >= s.len(),
    ensures
        strip_iter(s, n) == strip(s),
    decreases n,
{
    if placeholder_matches(s).len() > 0 {
        lemma_strip_once_len(s);
        let o = strip_once(s);
        lemma_strip_fuel(o, (n - 1) as nat);
        lemma_strip_fuel(o, (s.len() - 1) as nat);
    }
}

/// With enough passes no placeholder is left.
proof fn lemma_strip_iter_clean(s: Seq<char>, n: nat)
    requires
        n >= s.len(),
    ensures
        placeholder_matches(strip_iter(s, n)).len() == 0,
    decreases n,
{
    if placeholder_matches(s).len() > 0 {
        lemma_strip_once_len(s);
        lemma_strip_iter_clean(strip_once(s), (n - 1) as nat);
    } else if n == 0 {
        assert(ascii_key(s).len() == 0);
    }
}

/// A stripped text holds no placeholder.
pub proof fn lemma_strip_clean(s: Seq<char>)
    ensures
        placeholder_matches(strip(s)).len() == 0,
{
    lemma_strip_iter_clean(s, s.len());
}

/// Stripping is idempotent: stripping a stripped text leaves it unchanged.
pub proof fn lemma_strip_idempotent(text: Seq<char>)
    ensures
        strip(strip(text)) == strip(text),
{
    lemma_strip_clean(text);
}

} // verus!

verus! {

/// `k` spaces.
pub open spec fn space_run(k: nat) -> Seq<char> {
    Seq::new(k, |_i: int| ' ')
}

proof fn lemma_key_concat(s: Seq<char>, t: Seq<char>)
    ensures
        ascii_key(s + t) == ascii_key(s) + ascii_key(t),
{
    assert(ascii_key(s + t) =~= ascii_key(s) + ascii_key(t));
}

proof fn lemma_key_spaces(k: nat)
    ensures
        forall|q: int| 0 <= q < k ==> #[trigger] ascii_key(space_run(k))[q] == 32u8,
        ascii_key(space_run(k)).len() == k,
{
}

proof fn lemma_pattern_at_padded(s: Seq<char>, k: nat, i: int, p: nat)
    requires
        0 <= i < s.len(),
    ensures
        pattern_at(ascii_key(s + space_run(k)), placeholder_patterns(), i, p) == pattern_at(
            ascii_key(s),
            placeholder_patterns(),
            i,
            p,
        ),
    decreases 6 - p,
{
    let pats = placeholder_patterns();
    let long = ascii_key(s + space_run(k));
    let short = ascii_key(s);
    lemma_key_concat(s, space_run(k));
    lemma_key_spaces(k);
    if p < 6 {
        lemma_pattern_at_padded(s, k, i, p + 1);
        let pat = pats[p as int];
        assert(pat.len() == 5);
        if i + 5 <= s.len() {
            assert(long.subrange(i, i + 5) =~= short.subrange(i, i + 5));
        } else if i + 5 <= long.len() {
            let q = s.len() - i;
            assert(1 <= q <= 4);
            assert(long.subrange(i, i + 5)[q] == 32u8);
            assert(pat[q] != 32u8);
            assert(long.subrange(i, i + 5) != pat);
        }
    }
}

proof fn lemma_pattern_at_spaces(s: Seq<char>, k: nat, i: int, p: nat)
    requires
        s.len() <= i,
    ensures
        pattern_at(ascii_key(s + space_run(k)), placeholder_patterns(), i, p) is None,
    decreases 6 - p,
{
    let long = ascii_key(s + space_run(k));
    lemma_key_concat(s, space_run(k));
    lemma_key_spaces(k);
    if p < 6 {
        lemma_pattern_at_spaces(s, k, i, p + 1);
        if i + 5 <= long.len() {
            assert(long.subrange(i, i + 5)[0] == 32u8);
            assert(placeholder_patterns()[p as int][0] == 36u8);
        }
    }
}

proof fn lemma_scan_padded(s: Seq<char>, k: nat, i: nat)
    ensures
        scan_from(ascii_key(s + space_run(k)), placeholder_patterns(), i) == scan_from(
            ascii_key(s),
            placeholder_patterns(),
            i,
        ),
    decreases (s.len() + k) - i,
{
    let long = ascii_key(s + space_run(k));
    let short = ascii_key(s);
    lemma_key_concat(s, space_run(k));
    lemma_key_spaces(k);
    let pats = placeholder_patterns();
    if i < s.len() {
        lemma_pattern_at_padded(s, k, i as int, 0);
        lemma_pattern_at(short, pats, i as int, 0);
        match pattern_at(short, pats, i as int, 0) {
            Some(p) => {
                assert(pats[p as int].len() == 5);
                lemma_scan_padded(s, k, i + 5);
            },
            None => {
                lemma_scan_padded(s, k, i + 1);
            },
        }
    } else if i < long.len() {
        lemma_pattern_at_spaces(s, k, i as int, 0);
        lemma_scan_padded(s, k, i + 1);
    }
}

proof fn lemma_spliced_upto_padded(s: Seq<char>, t: Seq<char>, ms: Seq<(nat, nat)>, reps: Seq<Seq<char>>, j: nat)
    requires
        j <= ms.len(),
        matches_wf(ms, s.len(), 0),
    ensures
        spliced_upto(s + t, ms, reps, 5, j) == spliced_upto(s, ms, reps, 5, j),
    decreases j,
{
    if j > 0 {
        lemma_spliced_upto_padded(s, t, ms, reps, (j - 1) as nat);
        let a = end_after(ms, j - 1, 5) as int;
        let b = ms[j - 1].1 as int;
        if j > 1 {
            assert(ms[j - 2].1 + 5 <= ms[j - 1].1);
        }
        assert(ms[j - 1].1 + 5 <= s.len());
        assert((s + t).subrange(a, b) =~= s.subrange(a, b));
    }
}

proof fn lemma_strip_once_padded(s: Seq<char>, k: nat)
    ensures
        strip_once(s + space_run(k)) == strip_once(s) + space_run(k),
        placeholder_matches(s + space_run(k)) == placeholder_matches(s),
{
    let t = space_run(k);
    lemma_scan_padded(s, k, 0);
    let ms = placeholder_matches(s);
    assert(placeholder_matches(s + t) == ms);
    lemma_scan_wf(ascii_key(s), 0);
    lemma_spliced_upto_padded(s, t, ms, no_replacements(), ms.len());
    let e = end_after(ms, ms.len() as int, 5) as int;
    assert(e <= s.len()) by {
        if ms.len() > 0 {
            assert(ms[ms.len() - 1].1 + 5 <= s.len());
        }
    }
    assert((s + t).subrange(e, (s + t).len() as int) =~= s.subrange(e, s.len() as int) + t);
    assert(strip_once(s + t) =~= strip_once(s) + t);
}

proof fn lemma_strip_iter_padded(s: Seq<char>, k: nat, n: nat)
    requires
        n >= s.len() + k,
    ensures
        strip_iter(s + space_run(k), n) == strip_iter(s, n) + space_run(k),
    decreases n,
{
    lemma_strip_once_padded(s, k);
    if n > 0 && placeholder_matches(s).len() > 0 {
        lemma_strip_once_len(s);
        lemma_strip_iter_padded(strip_once(s), k, (n - 1) as nat);
    }
}

/// Padding a line with spaces pads its visible text by the same spaces:
/// no placeholder can reach into the padding.
pub proof fn lemma_strip_padded(s: Seq<char>, k: nat)
    ensures
        strip(s + space_run(k)) == strip(s) + space_run(k),
{
    lemma_strip_iter_padded(s, k, s.len() + k);
    lemma_strip_fuel(s, s.len() + k);
}

} // verus!
