//! The colour aligner: recolours normalised art by rows, by columns or by
//! an explicit slot-to-colour mapping.

use vstd::prelude::*;
use indexmap::IndexMap;
use crate::ascii::{NormalizedAsciiArt, RawAsciiArt, RecoloredAsciiArt, RenderError, fill_starting, fill_starting_spec};
use crate::color::{Rgb, ToAnsiString, ansi_seq};
use crate::markup::{parse_byte, parse_byte_spec};
use crate::profile::{ColorProfile, color_reset, color_text_spec, distinct_in_order, spread};
use crate::scanner::{PlaceholderScanner, placeholder_matches, replace_placeholders, strip};
use crate::text::{graphemes, grapheme_clusters, join_lines, join_with_newline, split_lines, sub_string, to_chars};
use crate::types::{AnsiMode, ForegroundBackground, TerminalTheme};

verus! {

#[verifier::external_type_specification]
#[verifier::external_body]
#[verifier::reject_recursive_types(K)]
#[verifier::reject_recursive_types(V)]
#[verifier::reject_recursive_types(S)]
pub struct ExIndexMap<K, V, S>(indexmap::IndexMap<K, V, S>);

/// The entries of a slot-to-palette-index map, in insertion order.
pub uninterp spec fn custom_entries(m: IndexMap<u8, u8>) -> Seq<(u8, u8)>;

/// Relies on `indexmap::IndexMap::iter`: every entry once, in insertion
/// order.
#[verifier::external_body]
fn entries_of(m: &IndexMap<u8, u8>) -> (r: Vec<(u8, u8)>)
    ensures
        r@ == custom_entries(*m),
{
    m.iter().map(|(k, v)| (*k, *v)).collect()
}

/// A placeholder slot of the template art, from 1 to 6.
#[derive(Clone, Copy, Debug, PartialEq, Eq, Hash, Structural)]
pub struct NeofetchAsciiIndexedColor {
    slot: u8,
}

impl NeofetchAsciiIndexedColor {
    #[verifier::type_invariant]
    spec fn in_range(&self) -> bool {
        1 <= self.slot <= 6
    }

    /// The slot number.
    pub closed spec fn index(&self) -> u8 {
        self.slot
    }

    /// The slot with number `v`, if `v` is from 1 to 6.
    pub fn new(v: u8) -> (r: Option<NeofetchAsciiIndexedColor>)
        ensures
            r is Some <==> 1 <= v <= 6,
            r matches Some(c) ==> c.index() == v,
    {
        if 1 <= v && v <= 6 {
            Some(NeofetchAsciiIndexedColor { slot: v })
        } else {
            None
        }
    }

    /// The slot written in decimal, if it is from 1 to 6.
    pub fn parse(s: &str) -> (r: Option<NeofetchAsciiIndexedColor>)
        ensures
            r is Some <==> (parse_byte_spec(s@) matches Some(v) && 1 <= v <= 6),
            r matches Some(c) ==> parse_byte_spec(s@) == Some(c.index()),
    {
        match parse_byte(&to_chars(s)) {
            Some(v) => NeofetchAsciiIndexedColor::new(v),
            None => None,
        }
    }

    /// The slot number, from 1 to 6.
    pub fn get(&self) -> (r: u8)
        ensures
            r == self.index(),
            1 <= r <= 6,
    {
        proof {
            use_type_invariant(self);
        }
        self.slot
    }
}

/// An index into the unique colours of a profile.
#[derive(Clone, Copy, Debug, PartialEq, Eq, Hash, Structural)]
pub struct PresetIndexedColor(pub u8);

impl PresetIndexedColor {
    /// The index written in decimal, if it fits a byte.
    pub fn parse(s: &str) -> (r: Option<PresetIndexedColor>)
        ensures
            r is Some <==> parse_byte_spec(s@) is Some,
            r matches Some(p) ==> parse_byte_spec(s@) == Some(p.0),
    {
        match parse_byte(&to_chars(s)) {
            Some(v) => Some(PresetIndexedColor(v)),
            None => None,
        }
    }
}

/// The slots of the art drawn in the static readability colour and in the
/// spread profile colours.
pub type ForeBackColorPair = (NeofetchAsciiIndexedColor, NeofetchAsciiIndexedColor);

/// How profile colours are laid onto the art.
#[derive(Debug)]
pub enum ColorAlignment {
    /// One colour per row.
    Horizontal { fore_back: Option<ForeBackColorPair> },
    /// One colour per column.
    Vertical { fore_back: Option<ForeBackColorPair> },
    /// Slot `k` gets unique colour `colors[k]` of the profile (a slot
    /// number mapped to a palette index).
    Custom { colors: IndexMap<u8, u8> },
}

/// The sequence that ends every recoloured line.
pub open spec fn reset_seq() -> Seq<char> {
    "\x1b[39m\x1b[49m"@
}

/// The static foreground colour that reads well on the theme's background.
pub open spec fn theme_fg(theme: TerminalTheme) -> Seq<char> {
    match theme {
        TerminalTheme::Light => "\x1b[38;5;0m"@,
        TerminalTheme::Dark => "\x1b[38;5;15m"@,
    }
}

fn reset_string() -> (r: String)
    ensures
        r@ == reset_seq(),
{
    let mut s = String::new();
    s.append("\x1b[39m\x1b[49m");
    s
}

fn theme_fg_string(theme: TerminalTheme) -> (r: String)
    ensures
        r@ == theme_fg(theme),
{
    let mut s = String::new();
    match theme {
        TerminalTheme::Light => s.append("\x1b[38;5;0m"),
        TerminalTheme::Dark => s.append("\x1b[38;5;15m"),
    }
    s
}

/// The first error among per-line results, else all lines.
pub open spec fn collect_lines(rs: Seq<Result<Seq<char>, RenderError>>, m: nat) -> Result<
    Seq<Seq<char>>,
    RenderError,
>
    decreases m,
{
    if m == 0 {
        Ok(Seq::empty())
    } else {
        match collect_lines(rs, (m - 1) as nat) {
            Err(e) => Err(e),
            Ok(v) => match rs[m - 1] {
                Ok(x) => Ok(v.push(x)),
                Err(e) => Err(e),
            },
        }
    }
}

proof fn lemma_collect_err_persists(rs: Seq<Result<Seq<char>, RenderError>>, m: nat, n: nat)
    requires
        m <= n,
        collect_lines(rs, m) is Err,
    ensures
        collect_lines(rs, n) == collect_lines(rs, m),
    decreases n - m,
{
    if m < n {
        lemma_collect_err_persists(rs, m, (n - 1) as nat);
    }
}

/// Horizontal without a readability pair: placeholders removed, the row's
/// colour in front, the reset at the end.
pub open spec fn horizontal_plain_line(line: Seq<char>, c: Rgb, mode: AnsiMode) -> Seq<char> {
    ansi_seq(c, mode, ForegroundBackground::Foreground) + strip(line) + reset_seq()
}

/// Replacements for a horizontal row with a readability pair.
pub open spec fn horizontal_reps(fore: nat, back: nat, fg: Seq<char>, row: Seq<char>) -> Seq<Seq<char>> {
    Seq::new(
        6,
        |k: int|
            if k + 1 == fore {
                fg
            } else if k + 1 == back {
                row
            } else {
                Seq::<char>::empty()
            },
    )
}

/// Horizontal with a readability pair: the foreground slot in the theme's
/// colour, the background slot in the row's colour, other slots removed.
pub open spec fn horizontal_pair_line(
    line: Seq<char>,
    fore: nat,
    back: nat,
    c: Rgb,
    mode: AnsiMode,
    theme: TerminalTheme,
) -> Seq<char> {
    replace_placeholders(
        line,
        horizontal_reps(fore, back, theme_fg(theme), ansi_seq(c, mode, ForegroundBackground::Foreground)),
    ) + reset_seq()
}

/// Where segment `j` of a line ends: at the next placeholder or at the end.
pub open spec fn seg_end(line: Seq<char>, ms: Seq<(nat, nat)>, j: int) -> nat {
    if j + 1 < ms.len() {
        ms[j + 1].1
    } else {
        line.len()
    }
}

/// The text that follows placeholder `j` up to the next one.
pub open spec fn segment(line: Seq<char>, ms: Seq<(nat, nat)>, j: int) -> Seq<char> {
    line.subrange((ms[j].1 + 5) as int, seg_end(line, ms, j) as int)
}

/// The text before the first placeholder.
pub open spec fn line_prefix(line: Seq<char>) -> Seq<char> {
    let ms = placeholder_matches(line);
    line.subrange(
        0,
        if ms.len() > 0 {
            ms[0].1 as int
        } else {
            line.len() as int
        },
    )
}

/// The first `m` segments of a line, with the column reached; `cs` holds
/// one colour per column. A segment of the foreground slot is drawn in the
/// theme's colour; a segment of any other slot is painted column by column.
pub open spec fn vertical_walk(
    line: Seq<char>,
    cs: Seq<Rgb>,
    fore: nat,
    mode: AnsiMode,
    theme: TerminalTheme,
    m: nat,
) -> Result<(Seq<char>, nat), RenderError>
    decreases m,
{
    let ms = placeholder_matches(line);
    if m == 0 {
        Ok((line_prefix(line), grapheme_clusters(line_prefix(line)).len()))
    } else {
        match vertical_walk(line, cs, fore, mode, theme, (m - 1) as nat) {
            Err(e) => Err(e),
            Ok((out, col)) => {
                let seg = segment(line, ms, m - 1);
                let gs = grapheme_clusters(seg);
                let n = gs.len();
                let slot = ms[m - 1].0 + 1;
                if seg.len() == 0 {
                    Ok((out, col))
                } else if slot == fore {
                    Ok((out + theme_fg(theme) + seg + reset_seq(), col + n))
                } else {
                    if col + n > cs.len() {
                        Err(RenderError::ColumnOutOfRange)
                    } else if n == 0 {
                        Err(RenderError::SpreadFailed { length: 0 })
                    } else {
                        Ok(
                            (
                                out + color_text_spec(
                                    gs,
                                    spread(cs.subrange(col as int, (col + n) as int), n),
                                    mode,
                                    ForegroundBackground::Foreground,
                                    false,
                                ),
                                col + n,
                            ),
                        )
                    }
                }
            },
        }
    }
}

/// A vertical line with a readability pair, reset at the end.
pub open spec fn vertical_pair_line(
    line: Seq<char>,
    cs: Seq<Rgb>,
    fore: nat,
    mode: AnsiMode,
    theme: TerminalTheme,
) -> Result<Seq<char>, RenderError> {
    match vertical_walk(line, cs, fore, mode, theme, placeholder_matches(line).len()) {
        Ok((out, _)) => Ok(out + reset_seq()),
        Err(e) => Err(e),
    }
}

/// A vertical line without a readability pair: placeholders removed, then
/// the profile spread over the line's own clusters; `color_text` ends it
/// with its reset.
pub open spec fn vertical_plain_line(line: Seq<char>, p: Seq<Rgb>, mode: AnsiMode) -> Result<
    Seq<char>,
    RenderError,
> {
    let gs = grapheme_clusters(strip(line));
    if p.len() == 0 || gs.len() > 255 {
        Err(RenderError::SpreadFailed { length: gs.len() as usize })
    } else {
        Ok(color_text_spec(gs, spread(p, gs.len()), mode, ForegroundBackground::Foreground, false))
    }
}

/// Replacements after the first `m` custom entries; `None` names the first
/// invalid entry's error.
pub open spec fn custom_reps(
    entries: Seq<(u8, u8)>,
    unique: Seq<Rgb>,
    mode: AnsiMode,
    m: nat,
) -> Result<Seq<Seq<char>>, RenderError>
    decreases m,
{
    if m == 0 {
        Ok(Seq::new(6, |_k: int| Seq::<char>::empty()))
    } else {
        match custom_reps(entries, unique, mode, (m - 1) as nat) {
            Err(e) => Err(e),
            Ok(reps) => {
                let (slot, pi) = entries[m - 1];
                if slot < 1 || slot > 6 {
                    Err(RenderError::InvalidSlot { slot })
                } else if pi as nat >= unique.len() {
                    Err(RenderError::PaletteIndexOutOfRange { index: pi })
                } else {
                    Ok(
                        reps.update(
                            slot - 1,
                            ansi_seq(unique[pi as int], mode, ForegroundBackground::Foreground),
                        ),
                    )
                }
            },
        }
    }
}

/// The recoloured lines of art, or the reason it cannot be recoloured.
pub open spec fn recolor_spec(
    lines: Seq<Seq<char>>,
    w: nat,
    align: ColorAlignment,
    p: Seq<Rgb>,
    mode: AnsiMode,
    theme: TerminalTheme,
) -> Result<Seq<Seq<char>>, RenderError> {
    if lines.len() == 0 {
        Ok(Seq::empty())
    } else {
        match align {
            ColorAlignment::Horizontal { fore_back: None } => {
                if lines.len() > 255 {
                    Err(RenderError::TooLarge)
                } else if p.len() == 0 {
                    Err(RenderError::SpreadFailed { length: lines.len() as usize })
                } else {
                    let cs = spread(p, lines.len());
                    Ok(Seq::new(lines.len(), |i: int| horizontal_plain_line(lines[i], cs[i], mode)))
                }
            },
            ColorAlignment::Horizontal { fore_back: Some((f, b)) } => {
                match fill_starting_spec(lines) {
                    Err(e) => Err(RenderError::MissingStartingPlaceholder { line: e as usize }),
                    Ok(filled) => {
                        if lines.len() > 255 {
                            Err(RenderError::TooLarge)
                        } else if p.len() == 0 {
                            Err(RenderError::SpreadFailed { length: lines.len() as usize })
                        } else {
                            let cs = spread(p, lines.len());
                            Ok(
                                Seq::new(
                                    filled.len(),
                                    |i: int|
                                        horizontal_pair_line(
                                            filled[i],
                                            f.index() as nat,
                                            b.index() as nat,
                                            cs[i],
                                            mode,
                                            theme,
                                        ),
                                ),
                            )
                        }
                    },
                }
            },
            ColorAlignment::Vertical { fore_back: None } => {
                let rs = Seq::new(lines.len(), |i: int| vertical_plain_line(lines[i], p, mode));
                collect_lines(rs, lines.len())
            },
            ColorAlignment::Vertical { fore_back: Some((f, _)) } => {
                match fill_starting_spec(lines) {
                    Err(e) => Err(RenderError::MissingStartingPlaceholder { line: e as usize }),
                    Ok(filled) => {
                        if p.len() == 0 || w > 255 {
                            Err(RenderError::SpreadFailed { length: w as usize })
                        } else {
                            let cs = spread(p, w);
                            let rs = Seq::new(
                                filled.len(),
                                |i: int|
                                    vertical_pair_line(
                                        filled[i],
                                        cs,
                                        f.index() as nat,
                                        mode,
                                        theme,
                                    ),
                            );
                            collect_lines(rs, filled.len())
                        }
                    },
                }
            },
            ColorAlignment::Custom { colors } => {
                match fill_starting_spec(lines) {
                    Err(e) => Err(RenderError::MissingStartingPlaceholder { line: e as usize }),
                    Ok(filled) => {
                        let entries = custom_entries(colors);
                        match custom_reps(entries, distinct_in_order(p), mode, entries.len()) {
                            Err(e) => Err(e),
                            Ok(reps) => Ok(
                                Seq::new(
                                    filled.len(),
                                    |i: int| replace_placeholders(filled[i], reps) + reset_seq(),
                                ),
                            ),
                        }
                    },
                }
            },
        }
    }
}

} // verus!

verus! {

proof fn lemma_walk_err_persists(
    line: Seq<char>,
    cs: Seq<Rgb>,
    fore: nat,
    mode: AnsiMode,
    theme: TerminalTheme,
    m: nat,
    n: nat,
)
    requires
        m <= n,
        vertical_walk(line, cs, fore, mode, theme, m) is Err,
    ensures
        vertical_walk(line, cs, fore, mode, theme, n) == vertical_walk(
            line,
            cs,
            fore,
            mode,
            theme,
            m,
        ),
    decreases n - m,
{
    if m < n {
        lemma_walk_err_persists(line, cs, fore, mode, theme, m, (n - 1) as nat);
    }
}

/// One line of vertical colouring with a readability pair.
fn vertical_pair_line_exec(
    sc: &PlaceholderScanner,
    line: &str,
    cs: &Vec<Rgb>,
    fore: u8,
    mode: AnsiMode,
    theme: TerminalTheme,
) -> (r: Result<String, RenderError>)
    requires
        cs@.len() <= 255,
    ensures
        match vertical_pair_line(line@, cs@, fore as nat, mode, theme) {
            Ok(v) => r matches Ok(s) && s@ == v,
            Err(e) => r == Err::<String, RenderError>(e),
        },
{
    let chars = to_chars(line);
    let ms = sc.find_all(line);
    let ghost pm = placeholder_matches(line@);
    proof {
        crate::scanner::lemma_scan_wf(crate::scanner::ascii_key(line@), 0);
    }
    let pre_end = if ms.len() > 0 {
        ms[0].start
    } else {
        chars.len()
    };
    let prefix = sub_string(&chars, 0, pre_end);
    assert(prefix@ == line_prefix(line@));
    let mut col = graphemes(prefix.as_str()).len();
    let mut out = prefix;
    let fg = theme_fg_string(theme);
    let reset = reset_string();
    let mut pos = pre_end;
    let mut j: usize = 0;
    while j < ms.len()
        invariant
            chars@ == line@,
            pm == placeholder_matches(line@),
            crate::scanner::matches_wf(pm, chars@.len(), 0),
            ms@.len() == pm.len(),
            forall|q: int|
                0 <= q < ms@.len() ==> (#[trigger] ms@[q]).slot as nat == pm[q].0 + 1
                    && ms@[q].start as nat == pm[q].1 && ms@[q].end as nat == ms@[q].start + 5,
            cs@.len() <= 255,
            fg@ == theme_fg(theme),
            reset@ == reset_seq(),
            j <= ms@.len(),
            col <= pos <= chars@.len(),
            j < ms@.len() ==> pos <= pm[j as int].1,
            vertical_walk(line@, cs@, fore as nat, mode, theme, j as nat) == Ok::<
                (Seq<char>, nat),
                RenderError,
            >((out@, col as nat)),
        decreases ms@.len() - j,
    {
        let a = ms[j].end;
        let b = if j + 1 < ms.len() {
            ms[j + 1].start
        } else {
            chars.len()
        };
        assert(pm[j as int].1 + 5 <= chars@.len());
        if j + 1 < ms.len() {
            assert(pm[j as int].1 + 5 <= pm[j + 1].1);
        }
        let seg = sub_string(&chars, a, b);
        assert(seg@ == segment(line@, pm, j as int));
        if a < b {
            let gs = graphemes(seg.as_str());
            let n = gs.len();
            let slot = ms[j].slot;
            if slot == fore {
                out.append(fg.as_str());
                out.append(seg.as_str());
                out.append(reset.as_str());
            } else {
                if col + n > cs.len() {
                    proof {
                        lemma_walk_err_persists(line@, cs@, fore as nat, mode, theme, (j + 1) as nat, pm.len());
                    }
                    return Err(RenderError::ColumnOutOfRange);
                }
                if n == 0 {
                    proof {
                        lemma_walk_err_persists(line@, cs@, fore as nat, mode, theme, (j + 1) as nat, pm.len());
                    }
                    return Err(RenderError::SpreadFailed { length: 0 });
                }
                let mut sub: Vec<Rgb> = Vec::new();
                let mut k = col;
                let end = col + n;
                while k < end
                    invariant
                        end == col + n,
                        col <= k <= col + n <= cs@.len(),
                        sub@ == cs@.subrange(col as int, k as int),
                    decreases col + n - k,
                {
                    sub.push(cs[k]);
                    k += 1;
                    assert(sub@ =~= cs@.subrange(col as int, k as int));
                }
                let sub_profile = ColorProfile::new(sub);
                match sub_profile.color_text(seg.as_str(), mode, ForegroundBackground::Foreground, false) {
                    Ok(s) => {
                        out.append(s.as_str());
                    },
                    Err(_) => {
                        return Err(RenderError::SpreadFailed { length: n });
                    },
                }
            }
            col = col + n;
        }
        pos = b;
        j += 1;
    }
    out.append(reset.as_str());
    Ok(out)
}

} // verus!

verus! {

fn horizontal_plain_exec(
    sc: &PlaceholderScanner,
    lines: &Vec<String>,
    profile: &ColorProfile,
    mode: AnsiMode,
) -> (r: Result<Vec<String>, RenderError>)
    ensures
        if lines@.len() > 255 {
            r == Err::<Vec<String>, RenderError>(RenderError::TooLarge)
        } else if profile.colors@.len() == 0 {
            r == Err::<Vec<String>, RenderError>(
                RenderError::SpreadFailed { length: lines@.len() as usize },
            )
        } else {
            r matches Ok(out) && out@.map_values(|l: String| l@) == Seq::new(
                lines@.len(),
                |i: int|
                    horizontal_plain_line(
                        lines@[i]@,
                        spread(profile.colors@, lines@.len())[i],
                        mode,
                    ),
            )
        },
{
    let ghost views = lines@.map_values(|l: String| l@);
    let n = lines.len();
    if n > 255 {
        return Err(RenderError::TooLarge);
    }
    let spread_profile = match profile.with_length(n as u8) {
        Ok(p) => p,
        Err(_) => {
            return Err(RenderError::SpreadFailed { length: n });
        },
    };
    proof {
        crate::profile::lemma_spread_len(profile.colors@, n as nat);
    }
    let ghost cs = spread_profile.colors@;
    let reset = reset_string();
    let mut out: Vec<String> = Vec::new();
    let mut i: usize = 0;
    while i < n
        invariant
            n == lines@.len(),
            views == lines@.map_values(|l: String| l@),
            cs == spread_profile.colors@,
            cs.len() == n,
            reset@ == reset_seq(),
            i <= n,
            out@.len() == i,
            forall|j: int|
                0 <= j < i ==> (#[trigger] out@[j])@ == horizontal_plain_line(views[j], cs[j], mode),
        decreases n - i,
    {
        let stripped = sc.strip_all(lines[i].as_str());
        let mut line = spread_profile.colors[i].to_ansi_string(mode, ForegroundBackground::Foreground);
        line.append(stripped.as_str());
        line.append(reset.as_str());
        assert(views[i as int] == lines@[i as int]@);
        out.push(line);
        i += 1;
    }
    assert(out@.map_values(|l: String| l@) =~= Seq::new(
        n as nat,
        |j: int| horizontal_plain_line(lines@[j]@, cs[j], mode),
    ));
    Ok(out)
}

fn horizontal_pair_exec(
    sc: &PlaceholderScanner,
    lines: &Vec<String>,
    fore: u8,
    back: u8,
    profile: &ColorProfile,
    mode: AnsiMode,
    theme: TerminalTheme,
) -> (r: Result<Vec<String>, RenderError>)
    requires
        lines@.len() > 0,
    ensures
        match fill_starting_spec(lines@.map_values(|l: String| l@)) {
            Err(e) => r == Err::<Vec<String>, RenderError>(
                RenderError::MissingStartingPlaceholder { line: e as usize },
            ),
            Ok(filled) => if lines@.len() > 255 {
                r == Err::<Vec<String>, RenderError>(RenderError::TooLarge)
            } else if profile.colors@.len() == 0 {
                r == Err::<Vec<String>, RenderError>(
                    RenderError::SpreadFailed { length: lines@.len() as usize },
                )
            } else {
                r matches Ok(out) && out@.map_values(|l: String| l@) == Seq::new(
                    filled.len(),
                    |i: int|
                        horizontal_pair_line(
                            filled[i],
                            fore as nat,
                            back as nat,
                            spread(profile.colors@, lines@.len())[i],
                            mode,
                            theme,
                        ),
                )
            },
        },
{
    let filled = match fill_starting(sc, lines) {
        Ok(f) => f,
        Err(e) => {
            return Err(e);
        },
    };
    let ghost fv = filled@.map_values(|l: String| l@);
    proof {
        crate::ascii::lemma_fill_len(lines@.map_values(|l: String| l@));
    }
    let n = lines.len();
    if n > 255 {
        return Err(RenderError::TooLarge);
    }
    let spread_profile = match profile.with_length(n as u8) {
        Ok(p) => p,
        Err(_) => {
            return Err(RenderError::SpreadFailed { length: n });
        },
    };
    proof {
        crate::profile::lemma_spread_len(profile.colors@, n as nat);
    }
    let ghost cs = spread_profile.colors@;
    let reset = reset_string();
    let fg = theme_fg_string(theme);
    let mut out: Vec<String> = Vec::new();
    let mut i: usize = 0;
    while i < n
        invariant
            n == lines@.len() == filled@.len(),
            fv == filled@.map_values(|l: String| l@),
            cs == spread_profile.colors@,
            cs.len() == n,
            reset@ == reset_seq(),
            fg@ == theme_fg(theme),
            i <= n,
            out@.len() == i,
            forall|j: int|
                0 <= j < i ==> (#[trigger] out@[j])@ == horizontal_pair_line(
                    fv[j],
                    fore as nat,
                    back as nat,
                    cs[j],
                    mode,
                    theme,
                ),
        decreases n - i,
    {
        let row = spread_profile.colors[i].to_ansi_string(mode, ForegroundBackground::Foreground);
        let mut reps: Vec<String> = Vec::new();
        let mut k: usize = 0;
        while k < 6
            invariant
                k <= 6,
                reps@.len() == k,
                fg@ == theme_fg(theme),
                forall|q: int|
                    0 <= q < k ==> (#[trigger] reps@[q])@ == horizontal_reps(
                        fore as nat,
                        back as nat,
                        fg@,
                        row@,
                    )[q],
            decreases 6 - k,
        {
            if k + 1 == fore as usize {
                reps.push(fg.clone());
            } else if k + 1 == back as usize {
                reps.push(row.clone());
            } else {
                reps.push(String::new());
            }
            k += 1;
        }
        assert(reps@.map_values(|x: String| x@) =~= horizontal_reps(fore as nat, back as nat, fg@, row@));
        let mut line = sc.replace_all(filled[i].as_str(), &reps);
        line.append(reset.as_str());
        assert(fv[i as int] == filled@[i as int]@);
        out.push(line);
        i += 1;
    }
    assert(out@.map_values(|l: String| l@) =~= Seq::new(
        n as nat,
        |j: int| horizontal_pair_line(fv[j], fore as nat, back as nat, cs[j], mode, theme),
    ));
    Ok(out)
}

} // verus!

verus! {

fn vertical_plain_exec(
    sc: &PlaceholderScanner,
    lines: &Vec<String>,
    profile: &ColorProfile,
    mode: AnsiMode,
) -> (r: Result<Vec<String>, RenderError>)
    ensures
        match collect_lines(
            Seq::new(
                lines@.len(),
                |i: int| vertical_plain_line(lines@[i]@, profile.colors@, mode),
            ),
            lines@.len(),
        ) {
            Ok(v) => r matches Ok(out) && out@.map_values(|l: String| l@) == v,
            Err(e) => r == Err::<Vec<String>, RenderError>(e),
        },
{
    let ghost rs = Seq::new(
        lines@.len(),
        |i: int| vertical_plain_line(lines@[i]@, profile.colors@, mode),
    );
    let mut out: Vec<String> = Vec::new();
    assert(out@.map_values(|l: String| l@) =~= Seq::<Seq<char>>::empty());
    let mut i: usize = 0;
    while i < lines.len()
        invariant
            rs == Seq::new(
                lines@.len(),
                |i: int| vertical_plain_line(lines@[i]@, profile.colors@, mode),
            ),
            i <= lines@.len(),
            collect_lines(rs, i as nat) == Ok::<Seq<Seq<char>>, RenderError>(
                out@.map_values(|l: String| l@),
            ),
        decreases lines@.len() - i,
    {
        let stripped = sc.strip_all(lines[i].as_str());
        match profile.color_text(stripped.as_str(), mode, ForegroundBackground::Foreground, false) {
            Ok(s) => {
                out.push(s);
                assert(out@.map_values(|l: String| l@) =~= collect_lines(rs, i as nat)->Ok_0.push(
                    s@,
                ));
            },
            Err(_) => {
                let gs = graphemes(stripped.as_str());
                proof {
                    lemma_collect_err_persists(rs, (i + 1) as nat, rs.len());
                }
                return Err(RenderError::SpreadFailed { length: gs.len() });
            },
        }
        i += 1;
    }
    Ok(out)
}

fn vertical_pair_exec(
    sc: &PlaceholderScanner,
    filled: &Vec<String>,
    cs: &Vec<Rgb>,
    fore: u8,
    mode: AnsiMode,
    theme: TerminalTheme,
) -> (r: Result<Vec<String>, RenderError>)
    requires
        cs@.len() <= 255,
    ensures
        match collect_lines(
            Seq::new(
                filled@.len(),
                |i: int| vertical_pair_line(filled@[i]@, cs@, fore as nat, mode, theme),
            ),
            filled@.len(),
        ) {
            Ok(v) => r matches Ok(out) && out@.map_values(|l: String| l@) == v,
            Err(e) => r == Err::<Vec<String>, RenderError>(e),
        },
{
    let ghost rs = Seq::new(
        filled@.len(),
        |i: int| vertical_pair_line(filled@[i]@, cs@, fore as nat, mode, theme),
    );
    let mut out: Vec<String> = Vec::new();
    assert(out@.map_values(|l: String| l@) =~= Seq::<Seq<char>>::empty());
    let mut i: usize = 0;
    while i < filled.len()
        invariant
            rs == Seq::new(
                filled@.len(),
                |i: int| vertical_pair_line(filled@[i]@, cs@, fore as nat, mode, theme),
            ),
            cs@.len() <= 255,
            i <= filled@.len(),
            collect_lines(rs, i as nat) == Ok::<Seq<Seq<char>>, RenderError>(
                out@.map_values(|l: String| l@),
            ),
        decreases filled@.len() - i,
    {
        match vertical_pair_line_exec(sc, filled[i].as_str(), cs, fore, mode, theme) {
            Ok(s) => {
                out.push(s);
                assert(out@.map_values(|l: String| l@) =~= collect_lines(rs, i as nat)->Ok_0.push(
                    s@,
                ));
            },
            Err(e) => {
                proof {
                    lemma_collect_err_persists(rs, (i + 1) as nat, rs.len());
                }
                return Err(e);
            },
        }
        i += 1;
    }
    Ok(out)
}

fn custom_exec(
    sc: &PlaceholderScanner,
    filled: &Vec<String>,
    colors: &IndexMap<u8, u8>,
    profile: &ColorProfile,
    mode: AnsiMode,
) -> (r: Result<Vec<String>, RenderError>)
    ensures
        match custom_reps(
            custom_entries(*colors),
            distinct_in_order(profile.colors@),
            mode,
            custom_entries(*colors).len(),
        ) {
            Err(e) => r == Err::<Vec<String>, RenderError>(e),
            Ok(reps) => r matches Ok(out) && out@.map_values(|l: String| l@) == Seq::new(
                filled@.len(),
                |i: int| replace_placeholders(filled@[i]@, reps) + reset_seq(),
            ),
        },
{
    let entries = entries_of(colors);
    let unique = profile.unique_colors();
    let ghost uq = unique.colors@;
    let mut reps: Vec<String> = vec![
        String::new(),
        String::new(),
        String::new(),
        String::new(),
        String::new(),
        String::new(),
    ];
    assert(reps@.map_values(|x: String| x@) =~= custom_reps(entries@, uq, mode, 0)->Ok_0);
    let mut e: usize = 0;
    while e < entries.len()
        invariant
            entries@ == custom_entries(*colors),
            uq == unique.colors@,
            uq == distinct_in_order(profile.colors@),
            e <= entries@.len(),
            reps@.len() == 6,
            custom_reps(entries@, uq, mode, e as nat) == Ok::<Seq<Seq<char>>, RenderError>(
                reps@.map_values(|x: String| x@),
            ),
        decreases entries@.len() - e,
    {
        let (slot, pi) = entries[e];
        if slot < 1 || slot > 6 {
            proof {
                lemma_custom_err_persists(entries@, uq, mode, (e + 1) as nat, entries@.len());
            }
            return Err(RenderError::InvalidSlot { slot });
        }
        if pi as usize >= unique.colors.len() {
            proof {
                lemma_custom_err_persists(entries@, uq, mode, (e + 1) as nat, entries@.len());
            }
            return Err(RenderError::PaletteIndexOutOfRange { index: pi });
        }
        let code = unique.colors[pi as usize].to_ansi_string(mode, ForegroundBackground::Foreground);
        reps.set((slot - 1) as usize, code);
        assert(reps@.map_values(|x: String| x@) =~= custom_reps(entries@, uq, mode, (e + 1) as nat)->Ok_0);
        e += 1;
    }
    let ghost rv = reps@.map_values(|x: String| x@);
    let reset = reset_string();
    let mut out: Vec<String> = Vec::new();
    let mut i: usize = 0;
    while i < filled.len()
        invariant
            rv == reps@.map_values(|x: String| x@),
            reps@.len() == 6,
            reset@ == reset_seq(),
            i <= filled@.len(),
            out@.len() == i,
            forall|j: int|
                0 <= j < i ==> (#[trigger] out@[j])@ == replace_placeholders(filled@[j]@, rv)
                    + reset_seq(),
        decreases filled@.len() - i,
    {
        let mut line = sc.replace_all(filled[i].as_str(), &reps);
        line.append(reset.as_str());
        out.push(line);
        i += 1;
    }
    assert(out@.map_values(|l: String| l@) =~= Seq::new(
        filled@.len(),
        |i: int| replace_placeholders(filled@[i]@, rv) + reset_seq(),
    ));
    Ok(out)
}

proof fn lemma_custom_err_persists(
    entries: Seq<(u8, u8)>,
    unique: Seq<Rgb>,
    mode: AnsiMode,
    m: nat,
    n: nat,
)
    requires
        m <= n,
        custom_reps(entries, unique, mode, m) is Err,
    ensures
        custom_reps(entries, unique, mode, n) == custom_reps(entries, unique, mode, m),
    decreases n - m,
{
    if m < n {
        lemma_custom_err_persists(entries, unique, mode, m, (n - 1) as nat);
    }
}

} // verus!

verus! {

impl NormalizedAsciiArt {
    /// Recolours the art with a colour alignment, a profile, a rendering
    /// mode and a theme; every line ends with the reset sequence.
    pub fn to_recolored(
        &self,
        sc: &PlaceholderScanner,
        color_align: &ColorAlignment,
        color_profile: &ColorProfile,
        color_mode: AnsiMode,
        theme: TerminalTheme,
    ) -> (r: Result<RecoloredAsciiArt, RenderError>)
        ensures
            match recolor_spec(
                self.lines@.map_values(|l: String| l@),
                self.w as nat,
                *color_align,
                color_profile.colors@,
                color_mode,
                theme,
            ) {
                Ok(v) => r matches Ok(a) && a.lines@.map_values(|l: String| l@) == v && a.w == (
                if self.lines@.len() == 0 {
                    0
                } else {
                    self.w
                }) && a.h == (if self.lines@.len() == 0 {
                    0
                } else {
                    self.h
                }),
                Err(e) => r == Err::<RecoloredAsciiArt, RenderError>(e),
            },
    {
        let ghost views = self.lines@.map_values(|l: String| l@);
        if self.lines.len() == 0 {
            assert(self.lines@.map_values(|l: String| l@) =~= Seq::<Seq<char>>::empty());
            return Ok(RecoloredAsciiArt { lines: Vec::new(), w: 0, h: 0 });
        }
        let lines = match color_align {
            ColorAlignment::Horizontal { fore_back: None } => {
                proof {
                    let cs = spread(color_profile.colors@, views.len());
                    assert(Seq::new(
                        views.len(),
                        |i: int| horizontal_plain_line(self.lines@[i]@, cs[i], color_mode),
                    ) =~= Seq::new(
                        views.len(),
                        |i: int| horizontal_plain_line(views[i], cs[i], color_mode),
                    ));
                }
                match horizontal_plain_exec(sc, &self.lines, color_profile, color_mode) {
                    Ok(v) => v,
                    Err(e) => {
                        return Err(e);
                    },
                }
            },
            ColorAlignment::Horizontal { fore_back: Some((f, b)) } => {
                let fore = f.get();
                let back = b.get();
                match horizontal_pair_exec(sc, &self.lines, fore, back, color_profile, color_mode, theme) {
                    Ok(v) => v,
                    Err(e) => {
                        return Err(e);
                    },
                }
            },
            ColorAlignment::Vertical { fore_back: None } => {
                proof {
                    let p = color_profile.colors@;
                    assert(Seq::new(
                        views.len(),
                        |i: int| vertical_plain_line(self.lines@[i]@, p, color_mode),
                    ) =~= Seq::new(views.len(), |i: int| vertical_plain_line(views[i], p, color_mode)));
                }
                match vertical_plain_exec(sc, &self.lines, color_profile, color_mode) {
                    Ok(v) => v,
                    Err(e) => {
                        return Err(e);
                    },
                }
            },
            ColorAlignment::Vertical { fore_back: Some((f, _)) } => {
                let fore = f.get();
                let filled = match fill_starting(sc, &self.lines) {
                    Ok(v) => v,
                    Err(e) => {
                        return Err(e);
                    },
                };
                let cs = match color_profile.with_length(self.w) {
                    Ok(p) => p,
                    Err(_) => {
                        return Err(RenderError::SpreadFailed { length: self.w as usize });
                    },
                };
                proof {
                    crate::profile::lemma_spread_len(color_profile.colors@, self.w as nat);
                    let fv = filled@.map_values(|l: String| l@);
                    let c = cs.colors@;
                    assert(Seq::new(
                        filled@.len(),
                        |i: int| vertical_pair_line(filled@[i]@, c, fore as nat, color_mode, theme),
                    ) =~= Seq::new(
                        fv.len(),
                        |i: int| vertical_pair_line(fv[i], c, fore as nat, color_mode, theme),
                    ));
                }
                match vertical_pair_exec(sc, &filled, &cs.colors, fore, color_mode, theme) {
                    Ok(v) => v,
                    Err(e) => {
                        return Err(e);
                    },
                }
            },
            ColorAlignment::Custom { colors } => {
                let filled = match fill_starting(sc, &self.lines) {
                    Ok(v) => v,
                    Err(e) => {
                        return Err(e);
                    },
                };
                proof {
                    let fv = filled@.map_values(|l: String| l@);
                    let entries = custom_entries(*colors);
                    let cr = custom_reps(entries, distinct_in_order(color_profile.colors@), color_mode, entries.len());
                    if cr is Ok {
                        let reps = cr->Ok_0;
                        assert(Seq::new(
                            filled@.len(),
                            |i: int| replace_placeholders(filled@[i]@, reps) + reset_seq(),
                        ) =~= Seq::new(fv.len(), |i: int| replace_placeholders(fv[i], reps) + reset_seq()));
                    }
                }
                match custom_exec(sc, &filled, colors, color_profile, color_mode) {
                    Ok(v) => v,
                    Err(e) => {
                        return Err(e);
                    },
                }
            },
        };
        Ok(RecoloredAsciiArt { lines, w: self.w, h: self.h })
    }
}

} // verus!

verus! {

/// `s` ends with `suffix`.
pub open spec fn ends_with(s: Seq<char>, suffix: Seq<char>) -> bool {
    s.len() >= suffix.len() && s.subrange(s.len() - suffix.len(), s.len() as int) == suffix
}

proof fn lemma_concat_ends_with(a: Seq<char>, b: Seq<char>)
    ensures
        ends_with(a + b, b),
{
    assert((a + b).subrange(a.len() as int, (a + b).len() as int) =~= b);
}

proof fn lemma_collect_lines_ok(rs: Seq<Result<Seq<char>, RenderError>>, m: nat)
    requires
        m <= rs.len(),
        collect_lines(rs, m) is Ok,
    ensures
        collect_lines(rs, m)->Ok_0.len() == m,
        forall|i: int|
            0 <= i < m ==> rs[i] == Ok::<Seq<char>, RenderError>(
                #[trigger] collect_lines(rs, m)->Ok_0[i],
            ),
    decreases m,
{
    if m > 0 {
        lemma_collect_lines_ok(rs, (m - 1) as nat);
        let v = collect_lines(rs, (m - 1) as nat)->Ok_0;
        assert forall|i: int| 0 <= i < m implies rs[i] == Ok::<Seq<char>, RenderError>(
            #[trigger] collect_lines(rs, m)->Ok_0[i],
        ) by {
            if i < m - 1 {
                assert(collect_lines(rs, m)->Ok_0[i] == v[i]);
            }
        }
    }
}

/// Every line of recoloured art ends with a reset, whatever the alignment:
/// the full reset sequence, or (for columns without a readability pair)
/// `color_text`'s combined reset.
pub proof fn lemma_lines_end_with_reset(
    lines: Seq<Seq<char>>,
    w: nat,
    align: ColorAlignment,
    p: Seq<Rgb>,
    mode: AnsiMode,
    theme: TerminalTheme,
)
    requires
        recolor_spec(lines, w, align, p, mode, theme) is Ok,
    ensures
        forall|i: int|
            0 <= i < recolor_spec(lines, w, align, p, mode, theme)->Ok_0.len() ==> ends_with(
                #[trigger] recolor_spec(lines, w, align, p, mode, theme)->Ok_0[i],
                reset_seq(),
            ) || ends_with(recolor_spec(lines, w, align, p, mode, theme)->Ok_0[i], color_reset()),
{
    let out = recolor_spec(lines, w, align, p, mode, theme)->Ok_0;
    if lines.len() > 0 {
        match align {
            ColorAlignment::Horizontal { fore_back: None } => {
                let cs = spread(p, lines.len());
                assert forall|i: int| 0 <= i < out.len() implies ends_with(#[trigger] out[i], reset_seq()) by {
                    lemma_concat_ends_with(
                        ansi_seq(cs[i], mode, ForegroundBackground::Foreground) + strip(lines[i]),
                        reset_seq(),
                    );
                }
            },
            ColorAlignment::Horizontal { fore_back: Some((f, b)) } => {
                let filled = fill_starting_spec(lines)->Ok_0;
                let cs = spread(p, lines.len());
                assert forall|i: int| 0 <= i < out.len() implies ends_with(#[trigger] out[i], reset_seq()) by {
                    lemma_concat_ends_with(
                        replace_placeholders(
                            filled[i],
                            horizontal_reps(
                                f.index() as nat,
                                b.index() as nat,
                                theme_fg(theme),
                                ansi_seq(cs[i], mode, ForegroundBackground::Foreground),
                            ),
                        ),
                        reset_seq(),
                    );
                }
            },
            ColorAlignment::Vertical { fore_back: None } => {
                let rs = Seq::new(lines.len(), |i: int| vertical_plain_line(lines[i], p, mode));
                lemma_collect_lines_ok(rs, lines.len());
                assert forall|i: int| 0 <= i < out.len() implies ends_with(#[trigger] out[i], color_reset()) by {
                    assert(rs[i] == Ok::<Seq<char>, RenderError>(out[i]));
                    let gs = grapheme_clusters(strip(lines[i]));
                    lemma_concat_ends_with(
                        crate::profile::painted(gs, spread(p, gs.len()), mode, ForegroundBackground::Foreground, false, gs.len()),
                        color_reset(),
                    );
                }
            },
            ColorAlignment::Vertical { fore_back: Some((f, _)) } => {
                let filled = fill_starting_spec(lines)->Ok_0;
                let cs = spread(p, w);
                let rs = Seq::new(
                    filled.len(),
                    |i: int|
                        vertical_pair_line(filled[i], cs, f.index() as nat, mode, theme),
                );
                lemma_collect_lines_ok(rs, filled.len());
                assert forall|i: int| 0 <= i < out.len() implies ends_with(#[trigger] out[i], reset_seq()) by {
                    assert(rs[i] == Ok::<Seq<char>, RenderError>(out[i]));
                    let walk = vertical_walk(
                        filled[i],
                        cs,
                        f.index() as nat,
                        mode,
                        theme,
                        placeholder_matches(filled[i]).len(),
                    );
                    lemma_concat_ends_with(walk->Ok_0.0, reset_seq());
                }
            },
            ColorAlignment::Custom { colors } => {
                let filled = fill_starting_spec(lines)->Ok_0;
                let entries = custom_entries(colors);
                let reps = custom_reps(entries, distinct_in_order(p), mode, entries.len())->Ok_0;
                assert forall|i: int| 0 <= i < out.len() implies ends_with(#[trigger] out[i], reset_seq()) by {
                    lemma_concat_ends_with(replace_placeholders(filled[i], reps), reset_seq());
                }
            },
        }
    }
}

} // verus!

verus! {

/// The lines of normalised art for a text.
pub open spec fn normalized_lines(asc: Seq<char>) -> Seq<Seq<char>> {
    Seq::new(
        crate::ascii::art_height(asc),
        |i: int| crate::ascii::padded(split_lines(asc)[i], crate::ascii::art_width(asc)),
    )
}

impl ColorAlignment {
    /// Normalises template text, recolours it and joins the lines again.
    pub fn recolor_ascii(
        &self,
        sc: &PlaceholderScanner,
        asc: &str,
        color_profile: &ColorProfile,
        color_mode: AnsiMode,
        theme: TerminalTheme,
    ) -> (r: Result<String, RenderError>)
        ensures
            crate::ascii::art_width(asc@) > 255 || crate::ascii::art_height(asc@) > 255 ==> r
                == Err::<String, RenderError>(RenderError::TooLarge),
            crate::ascii::art_width(asc@) <= 255 && crate::ascii::art_height(asc@) <= 255 ==> match recolor_spec(
                normalized_lines(asc@),
                crate::ascii::art_width(asc@),
                *self,
                color_profile.colors@,
                color_mode,
                theme,
            ) {
                Ok(v) => r matches Ok(s) && s@ == join_lines(v),
                Err(e) => r == Err::<String, RenderError>(e),
            },
    {
        let raw = RawAsciiArt { asc: asc.to_owned() };
        let norm = match raw.to_normalized(sc) {
            Ok(n) => n,
            Err(e) => {
                return Err(e);
            },
        };
        assert(norm.lines@.map_values(|l: String| l@) =~= normalized_lines(asc@));
        let rec = match norm.to_recolored(sc, self, color_profile, color_mode, theme) {
            Ok(a) => a,
            Err(e) => {
                return Err(e);
            },
        };
        Ok(join_with_newline(&rec.lines))
    }
}

} // verus!
