//! Colour profiles: ordered colour sequences and the ways to stretch them.

use vstd::prelude::*;
use crate::color::{Rgb, ToAnsiString, ansi_seq};
use crate::text::{graphemes, grapheme_clusters, str_eq};
use crate::types::{AnsiMode, ForegroundBackground};
use indexmap::IndexSet;

verus! {

#[verifier::external_type_specification]
#[verifier::external_body]
#[verifier::reject_recursive_types(T)]
#[verifier::reject_recursive_types(S)]
pub struct ExIndexSet<T, S>(indexmap::IndexSet<T, S>);

/// The items of a set of colour triples, in insertion order.
pub uninterp spec fn set_items(s: IndexSet<(u8, u8, u8)>) -> Seq<(u8, u8, u8)>;

/// Relies on `indexmap::IndexSet::new`: a set without items.
#[verifier::external_body]
fn new_triple_set() -> (r: IndexSet<(u8, u8, u8)>)
    ensures
        set_items(r) == Seq::<(u8, u8, u8)>::empty(),
{
    IndexSet::new()
}

/// Relies on `indexmap::IndexSet::insert`: an item already present leaves
/// the set and its order as they are and gives `false`; a new item goes
/// last and gives `true`.
#[verifier::external_body]
fn insert_triple(s: &mut IndexSet<(u8, u8, u8)>, v: (u8, u8, u8)) -> (r: bool)
    ensures
        set_items(*old(s)).contains(v) ==> !r && set_items(*final(s)) == set_items(*old(s)),
        !set_items(*old(s)).contains(v) ==> r && set_items(*final(s)) == set_items(*old(s)).push(v),
{
    s.insert(v)
}

/// Relies on `indexmap::IndexSet::iter`: every item once, in insertion
/// order.
#[verifier::external_body]
fn triple_set_items(s: &IndexSet<(u8, u8, u8)>) -> (r: Vec<(u8, u8, u8)>)
    ensures
        r@ == set_items(*s),
{
    s.iter().copied().collect()
}

/// The colour as a `(r, g, b)` triple.
pub open spec fn triple_of(c: Rgb) -> (u8, u8, u8) {
    (c.r, c.g, c.b)
}

proof fn lemma_triples_contain(s: Seq<Rgb>, c: Rgb)
    ensures
        s.map_values(|x: Rgb| triple_of(x)).contains(triple_of(c)) == s.contains(c),
{
    let m = s.map_values(|x: Rgb| triple_of(x));
    if s.contains(c) {
        let i = choose|i: int| 0 <= i < s.len() && s[i] == c;
        assert(m[i] == triple_of(c));
    }
    if m.contains(triple_of(c)) {
        let i = choose|i: int| 0 <= i < m.len() && m[i] == triple_of(c);
        assert(s[i] == c);
    }
}

/// An ordered, possibly repeating sequence of colours.
#[derive(Clone, Debug, PartialEq, Eq)]
pub struct ColorProfile {
    pub colors: Vec<Rgb>,
}

/// Why a profile operation failed.
#[derive(Clone, Copy, Debug, PartialEq, Eq, Hash, Structural)]
pub enum ProfileError {
    /// The weights do not correspond one for one to the colours.
    WeightsLengthMismatch,
    /// A profile without colours cannot be spread over any length.
    EmptyProfile,
    /// The text has more grapheme clusters than a spread length can hold.
    LengthTooLarge,
}

/// Each colour repeated as many times as its weight, in order.
pub open spec fn weighted(cs: Seq<Rgb>, ws: Seq<u8>) -> Seq<Rgb>
    decreases cs.len(),
{
    if cs.len() == 0 || ws.len() == 0 {
        Seq::empty()
    } else {
        weighted(cs.drop_last(), ws.drop_last()) + Seq::new(ws.last() as nat, |_j: int| cs.last())
    }
}

/// The sum of a sequence of weights.
pub open spec fn weight_sum(ws: Seq<u8>) -> nat
    decreases ws.len(),
{
    if ws.len() == 0 {
        0
    } else {
        weight_sum(ws.drop_last()) + ws.last() as nat
    }
}

/// The weight of position `i` when `n` colours are spread over `length`
/// slots: every colour gets `length / n`; an odd remainder widens the centre
/// colour `n / 2`; the rest of the remainder widens the colours at both ends,
/// one from each end at a time.
pub open spec fn spread_weight(n: nat, length: nat, i: nat) -> nat
    recommends
        n > 0,
{
    let repeats = length / n;
    let extras = length % n;
    let centre: nat = if extras % 2 == 1 && i == n / 2 {
        1
    } else {
        0
    };
    let half = extras / 2;
    let border: nat = if i < half || i >= n - half {
        1
    } else {
        0
    };
    repeats + centre + border
}

/// The weights of all `n` positions.
pub open spec fn spread_weights(n: nat, length: nat) -> Seq<u8> {
    Seq::new(n, |i: int| spread_weight(n, length, i as nat) as u8)
}

/// What spreading a sequence of colours over `length` slots gives.
pub open spec fn spread(cs: Seq<Rgb>, length: nat) -> Seq<Rgb> {
    weighted(cs, spread_weights(cs.len(), length))
}

pub proof fn lemma_weighted_len(cs: Seq<Rgb>, ws: Seq<u8>)
    requires
        cs.len() == ws.len(),
    ensures
        weighted(cs, ws).len() == weight_sum(ws),
    decreases cs.len(),
{
    if cs.len() > 0 {
        lemma_weighted_len(cs.drop_last(), ws.drop_last());
    }
}

proof fn lemma_spread_weight_bound(n: nat, length: nat, i: nat)
    requires
        n > 0,
        length < 256,
        i < n,
    ensures
        spread_weight(n, length, i) < 256,
{
    let repeats = length / n;
    let extras = length % n;
    let half = extras / 2;
    assert(extras < n);
    if n == 1 {
        assert(length / 1 == length);
        assert(extras == 0);
    } else {
        assert(repeats <= 127) by (nonlinear_arith)
            requires
                repeats == length / n,
                n >= 2,
                length < 256,
        ;
    }
    // centre and border never both apply
    if extras % 2 == 1 && i == n / 2 {
        assert(!(i < half || i >= n - half));
    }
}

/// Sum of the first `m` spread weights, in closed form.
proof fn lemma_spread_prefix_sum(n: nat, length: nat, m: nat)
    requires
        n > 0,
        length < 256,
        m <= n,
    ensures
        weight_sum(spread_weights(n, length).subrange(0, m as int)) == m * (length / n) + (if length
            % n % 2 == 1 && n / 2 < m {
            1nat
        } else {
            0nat
        }) + (if m < (length % n) / 2 {
            m
        } else {
            (length % n) / 2
        }) + (if m > n - (length % n) / 2 {
            (m - (n - (length % n) / 2)) as nat
        } else {
            0nat
        }),
    decreases m,
{
    let ws = spread_weights(n, length);
    let q = length / n;
    let extras = length % n;
    let half = extras / 2;
    assert(extras < n);
    if m == 0 {
        assert(ws.subrange(0, 0) =~= Seq::<u8>::empty());
        assert(m * q == 0);
    } else {
        lemma_spread_prefix_sum(n, length, (m - 1) as nat);
        let pre = ws.subrange(0, m as int);
        assert(pre.drop_last() =~= ws.subrange(0, m - 1));
        lemma_spread_weight_bound(n, length, (m - 1) as nat);
        let w = spread_weight(n, length, (m - 1) as nat);
        assert(pre.last() == w as u8);
        assert((w as u8) as nat == w);
        assert(weight_sum(pre) == weight_sum(ws.subrange(0, m - 1)) + w);
        assert(m * q == (m - 1) * q + q) by (nonlinear_arith)
            requires
                m > 0,
        ;
        assert(!((m - 1) < half && (m - 1) >= n - half));
    }
}

/// Spreading over at least as many slots as there are colours yields
/// exactly that many slots.
pub proof fn lemma_spread_len(cs: Seq<Rgb>, length: nat)
    requires
        cs.len() > 0,
        length < 256,
    ensures
        spread(cs, length).len() == length,
{
    let n = cs.len();
    lemma_spread_prefix_sum(n, length, n);
    assert(spread_weights(n, length).subrange(0, n as int) == spread_weights(n, length));
    lemma_weighted_len(cs, spread_weights(n, length));
    let extras = length % n;
    assert(length == n * (length / n) + extras) by (nonlinear_arith)
        requires
            n > 0,
            extras == length % n,
    ;
    assert(extras < n);
}

/// The profile spread over a length of at least its own size has exactly
/// that length.
pub proof fn lemma_with_length_total(p: Seq<Rgb>, length: u8)
    requires
        p.len() > 0,
        length as nat >= p.len(),
    ensures
        spread(p, length as nat).len() == length as nat,
{
    lemma_spread_len(p, length as nat);
}

/// The text terminator that resets foreground and background together.
pub open spec fn color_reset() -> Seq<char> {
    "\x1b[39;49m"@
}

/// One painted grapheme cluster of `color_text`.
pub open spec fn painted_piece(
    gs: Seq<Seq<char>>,
    cs: Seq<Rgb>,
    mode: AnsiMode,
    fb: ForegroundBackground,
    space_only: bool,
    i: int,
) -> Seq<char> {
    if space_only && gs[i] != " "@ {
        if i > 0 && gs[i - 1] == " "@ {
            color_reset() + gs[i]
        } else {
            gs[i]
        }
    } else {
        ansi_seq(cs[i], mode, fb) + gs[i]
    }
}

/// The first `m` painted grapheme clusters.
pub open spec fn painted(
    gs: Seq<Seq<char>>,
    cs: Seq<Rgb>,
    mode: AnsiMode,
    fb: ForegroundBackground,
    space_only: bool,
    m: nat,
) -> Seq<char>
    decreases m,
{
    if m == 0 {
        Seq::empty()
    } else {
        painted(gs, cs, mode, fb, space_only, (m - 1) as nat) + painted_piece(
            gs,
            cs,
            mode,
            fb,
            space_only,
            m - 1,
        )
    }
}

/// What `color_text` produces for the clusters `gs` and the per-cluster
/// colours `cs`.
pub open spec fn color_text_spec(
    gs: Seq<Seq<char>>,
    cs: Seq<Rgb>,
    mode: AnsiMode,
    fb: ForegroundBackground,
    space_only: bool,
) -> Seq<char> {
    painted(gs, cs, mode, fb, space_only, gs.len()) + color_reset()
}

impl ColorProfile {
    pub fn new(colors: Vec<Rgb>) -> (r: ColorProfile)
        ensures
            r.colors@ == colors@,
    {
        ColorProfile { colors }
    }

    /// Parses each colour of `hex_colors`; fails on the first that is not a
    /// hex colour, giving its position.
    pub fn from_hex_colors(hex_colors: &Vec<&str>) -> (r: Result<ColorProfile, usize>)
        ensures
            r matches Ok(p) ==> p.colors@.len() == hex_colors@.len() && forall|i: int|
                0 <= i < hex_colors@.len() ==> crate::color::parse_hex_spec(hex_colors@[i]@)
                    == Some(#[trigger] p.colors@[i]),
            r matches Err(k) ==> k < hex_colors@.len() && crate::color::parse_hex_spec(
                hex_colors@[k as int]@,
            ) is None && forall|i: int|
                0 <= i < k ==> (#[trigger] crate::color::parse_hex_spec(hex_colors@[i]@)) is Some,
    {
        let mut colors: Vec<Rgb> = Vec::new();
        for i in 0..hex_colors.len()
            invariant
                colors@.len() == i,
                forall|j: int|
                    0 <= j < i ==> crate::color::parse_hex_spec(hex_colors@[j]@) == Some(
                        #[trigger] colors@[j],
                    ),
                forall|j: int|
                    0 <= j < i ==> (#[trigger] crate::color::parse_hex_spec(hex_colors@[j]@)) is Some,
        {
            match Rgb::parse_hex(hex_colors[i]) {
                Some(c) => colors.push(c),
                None => {
                    return Err(i);
                },
            }
        }
        Ok(ColorProfile { colors })
    }

    /// Repeats colour `i` `weights[i]` times, in order.
    pub fn with_weights(&self, weights: Vec<u8>) -> (r: Result<ColorProfile, ProfileError>)
        ensures
            weights@.len() != self.colors@.len() ==> r == Err::<ColorProfile, ProfileError>(
                ProfileError::WeightsLengthMismatch,
            ),
            weights@.len() == self.colors@.len() ==> (r matches Ok(p) && p.colors@ == weighted(
                self.colors@,
                weights@,
            )),
    {
        if weights.len() != self.colors.len() {
            return Err(ProfileError::WeightsLengthMismatch);
        }
        let mut out: Vec<Rgb> = Vec::new();
        let mut i: usize = 0;
        while i < weights.len()
            invariant
                i <= weights@.len() == self.colors@.len(),
                out@ == weighted(self.colors@.subrange(0, i as int), weights@.subrange(0, i as int)),
            decreases weights@.len() - i,
        {
            let c = self.colors[i];
            let w = weights[i];
            let ghost before = out@;
            let mut k: u8 = 0;
            while k < w
                invariant
                    k <= w,
                    out@ == before + Seq::new(k as nat, |_j: int| c),
                decreases w - k,
            {
                out.push(c);
                k += 1;
                assert(out@ =~= before + Seq::new(k as nat, |_j: int| c));
            }
            proof {
                let cs1 = self.colors@.subrange(0, i + 1);
                let ws1 = weights@.subrange(0, i + 1);
                assert(cs1.drop_last() =~= self.colors@.subrange(0, i as int));
                assert(ws1.drop_last() =~= weights@.subrange(0, i as int));
                assert(cs1.last() == c);
                assert(ws1.last() == w);
            }
            i += 1;
        }
        assert(self.colors@.subrange(0, i as int) =~= self.colors@);
        assert(weights@.subrange(0, i as int) =~= weights@);
        Ok(ColorProfile { colors: out })
    }

    /// Spreads the colours over `length` slots (see `spread_weight`).
    pub fn with_length(&self, length: u8) -> (r: Result<ColorProfile, ProfileError>)
        ensures
            self.colors@.len() == 0 ==> r == Err::<ColorProfile, ProfileError>(
                ProfileError::EmptyProfile,
            ),
            self.colors@.len() > 0 ==> (r matches Ok(p) && p.colors@ == spread(
                self.colors@,
                length as nat,
            )),
    {
        let n = self.colors.len();
        if n == 0 {
            return Err(ProfileError::EmptyProfile);
        }
        let len = length as usize;
        let repeats = len / n;
        let extras = len % n;
        let half = extras / 2;
        let mut weights: Vec<u8> = Vec::new();
        let mut i: usize = 0;
        while i < n
            invariant
                n == self.colors@.len() > 0,
                len == length as nat,
                repeats == len / n,
                extras == len % n,
                half == extras / 2,
                i <= n,
                weights@ == spread_weights(n as nat, len as nat).subrange(0, i as int),
            decreases n - i,
        {
            proof {
                lemma_spread_weight_bound(n as nat, len as nat, i as nat);
            }
            let centre: usize = if extras % 2 == 1 && i == n / 2 {
                1
            } else {
                0
            };
            let border: usize = if i < half || i >= n - half {
                1
            } else {
                0
            };
            let w = (repeats + centre + border) as u8;
            weights.push(w);
            i += 1;
            assert(weights@ =~= spread_weights(n as nat, len as nat).subrange(0, i as int));
        }
        assert(weights@ =~= spread_weights(n as nat, len as nat));
        self.with_weights(weights)
    }

    /// The distinct colours, each at its first occurrence.
    pub fn unique_colors(&self) -> (r: ColorProfile)
        ensures
            r.colors@ == distinct_in_order(self.colors@),
    {
        let mut set = new_triple_set();
        let mut i: usize = 0;
        while i < self.colors.len()
            invariant
                i <= self.colors@.len(),
                set_items(set) == distinct_in_order(self.colors@.subrange(0, i as int)).map_values(
                    |x: Rgb| triple_of(x),
                ),
            decreases self.colors@.len() - i,
        {
            let c = self.colors[i];
            proof {
                let pre = self.colors@.subrange(0, i as int);
                assert(self.colors@.subrange(0, i + 1).drop_last() =~= pre);
                lemma_triples_contain(distinct_in_order(pre), c);
                assert(distinct_in_order(pre).push(c).map_values(|x: Rgb| triple_of(x))
                    =~= distinct_in_order(pre).map_values(|x: Rgb| triple_of(x)).push(triple_of(c)));
            }
            insert_triple(&mut set, (c.r, c.g, c.b));
            i += 1;
        }
        assert(self.colors@.subrange(0, i as int) =~= self.colors@);
        let items = triple_set_items(&set);
        let ghost d = distinct_in_order(self.colors@);
        let mut out: Vec<Rgb> = Vec::new();
        let mut k: usize = 0;
        while k < items.len()
            invariant
                items@ == d.map_values(|x: Rgb| triple_of(x)),
                k <= items@.len(),
                out@ == d.subrange(0, k as int),
            decreases items@.len() - k,
        {
            let (r, g, b) = items[k];
            out.push(Rgb { r, g, b });
            k += 1;
            assert(out@ =~= d.subrange(0, k as int));
        }
        assert(d.subrange(0, k as int) =~= d);
        ColorProfile { colors: out }
    }

    /// Paints each grapheme cluster of `txt` with its own colour of the
    /// profile spread over the cluster count, then resets the colours. With
    /// `space_only`, only space clusters are painted.
    pub fn color_text(
        &self,
        txt: &str,
        mode: AnsiMode,
        fb: ForegroundBackground,
        space_only: bool,
    ) -> (r: Result<String, ProfileError>)
        ensures
            self.colors@.len() == 0 ==> r == Err::<String, ProfileError>(ProfileError::EmptyProfile),
            self.colors@.len() > 0 && grapheme_clusters(txt@).len() > 255 ==> r == Err::<
                String,
                ProfileError,
            >(ProfileError::LengthTooLarge),
            self.colors@.len() > 0 && grapheme_clusters(txt@).len() <= 255 ==> (r matches Ok(s)
                && s@ == color_text_spec(
                grapheme_clusters(txt@),
                spread(self.colors@, grapheme_clusters(txt@).len()),
                mode,
                fb,
                space_only,
            )),
    {
        let gs = graphemes(txt);
        let ghost gv = gs@.map_values(|g: String| g@);
        if self.colors.len() == 0 {
            return Err(ProfileError::EmptyProfile);
        }
        if gs.len() > 255 {
            return Err(ProfileError::LengthTooLarge);
        }
        let spread_profile = match self.with_length(gs.len() as u8) {
            Ok(p) => p,
            Err(e) => {
                return Err(e);
            },
        };
        proof {
            lemma_spread_len(self.colors@, gs@.len() as nat);
        }
        Ok(paint_clusters(&gs, &spread_profile.colors, mode, fb, space_only))
    }
}

/// Paints grapheme clusters with one colour each (see `color_text_spec`).
pub fn paint_clusters(
    gs: &Vec<String>,
    cs: &Vec<Rgb>,
    mode: AnsiMode,
    fb: ForegroundBackground,
    space_only: bool,
) -> (r: String)
    requires
        cs@.len() == gs@.len(),
    ensures
        r@ == color_text_spec(gs@.map_values(|g: String| g@), cs@, mode, fb, space_only),
{
    let ghost gv = gs@.map_values(|g: String| g@);
    let mut buf = String::new();
    let mut i: usize = 0;
    while i < gs.len()
        invariant
            i <= gs@.len(),
            gv == gs@.map_values(|g: String| g@),
            cs@.len() == gs@.len(),
            buf@ == painted(gv, cs@, mode, fb, space_only, i as nat),
        decreases gs@.len() - i,
    {
        let g = gs[i].as_str();
        if space_only && !str_eq(g, " ") {
            if i > 0 && str_eq(gs[i - 1].as_str(), " ") {
                buf.append("\x1b[39;49m");
            }
            buf.append(g);
        } else {
            let code = cs[i].to_ansi_string(mode, fb);
            buf.append(code.as_str());
            buf.append(g);
        }
        proof {
            assert(gv[i as int] == g@);
            if i > 0 {
                assert(gv[i - 1] == gs@[i - 1]@);
            }
        }
        i += 1;
        assert(buf@ =~= painted(gv, cs@, mode, fb, space_only, i as nat));
    }
    buf.append("\x1b[39;49m");
    buf
}

/// The distinct elements of a sequence, each at its first occurrence.
pub open spec fn distinct_in_order(s: Seq<Rgb>) -> Seq<Rgb>
    decreases s.len(),
{
    if s.len() == 0 {
        Seq::empty()
    } else {
        let prev = distinct_in_order(s.drop_last());
        if prev.contains(s.last()) {
            prev
        } else {
            prev.push(s.last())
        }
    }
}

} // verus!
