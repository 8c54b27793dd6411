//! Template art: measuring, normalising to a rectangle, and completing the
//! placeholder that starts each line.

use vstd::prelude::*;
use crate::profile::ProfileError;
use crate::scanner::{PlaceholderScanner, placeholder_matches, space_run, strip, token_chars};
use crate::text::{graphemes, grapheme_clusters, lines_of, push_char, split_lines, to_chars};

verus! {

/// Why art could not be measured, normalised or recoloured.
#[derive(Clone, Copy, Debug, PartialEq, Eq, Hash, Structural)]
pub enum RenderError {
    /// The art is wider or taller than 255 columns or lines.
    TooLarge,
    /// Line `line` (from 0) does not begin with a placeholder and no earlier
    /// line holds one.
    MissingStartingPlaceholder { line: usize },
    /// The profile could not be spread over `length` slots.
    SpreadFailed { length: usize },
    /// A custom mapping names a palette index past the unique colours.
    PaletteIndexOutOfRange { index: u8 },
    /// A custom mapping names a slot outside 1 to 6.
    InvalidSlot { slot: u8 },
    /// A coloured segment reaches past the art's width.
    ColumnOutOfRange,
}

/// Raw ascii art before any processing.
#[derive(Clone, Debug)]
pub struct RawAsciiArt {
    pub asc: String,
}

/// Ascii art whose lines all have the same width.
#[derive(Clone, Debug)]
pub struct NormalizedAsciiArt {
    pub lines: Vec<String>,
    pub w: u8,
    pub h: u8,
}

/// Recoloured ascii art: every placeholder replaced by escape sequences.
#[derive(Clone, Debug)]
pub struct RecoloredAsciiArt {
    pub lines: Vec<String>,
    pub w: u8,
    pub h: u8,
}

/// The visible width of a line: its grapheme clusters once the
/// placeholders are removed.
pub open spec fn line_width(line: Seq<char>) -> nat {
    grapheme_clusters(strip(line)).len()
}

/// The largest visible width among lines.
pub open spec fn max_width(lines: Seq<Seq<char>>) -> nat
    decreases lines.len(),
{
    if lines.len() == 0 {
        0
    } else {
        let prev = max_width(lines.drop_last());
        let w = line_width(lines.last());
        if w > prev {
            w
        } else {
            prev
        }
    }
}

/// The width of a text: the largest visible width of its lines.
pub open spec fn art_width(s: Seq<char>) -> nat {
    max_width(split_lines(s))
}

/// The height of a text: its number of lines.
pub open spec fn art_height(s: Seq<char>) -> nat {
    split_lines(s).len()
}

/// A line padded with spaces to width `w`.
pub open spec fn padded(line: Seq<char>, w: nat) -> Seq<char> {
    line + space_run((w - line_width(line)) as nat)
}

proof fn lemma_max_width_bound(lines: Seq<Seq<char>>, i: int)
    requires
        0 <= i < lines.len(),
    ensures
        line_width(lines[i]) <= max_width(lines),
    decreases lines.len(),
{
    if i < lines.len() - 1 {
        lemma_max_width_bound(lines.drop_last(), i);
    }
}

/// Measures each line of `lines`, giving the largest width, or `None` past 255.
fn measure_lines(sc: &PlaceholderScanner, lines: &Vec<String>) -> (r: (Option<u8>, Vec<usize>))
    ensures
        r.1@.len() == lines@.len(),
        forall|i: int| 0 <= i < lines@.len() ==> r.1@[i] as nat == line_width(#[trigger] lines@[i]@),
        r.0 matches Some(w) ==> w as nat == max_width(lines@.map_values(|l: String| l@)),
        r.0 is None ==> max_width(lines@.map_values(|l: String| l@)) > 255,
{
    let ghost views = lines@.map_values(|l: String| l@);
    let mut widths: Vec<usize> = Vec::new();
    let mut w: usize = 0;
    let mut i: usize = 0;
    while i < lines.len()
        invariant
            i <= lines@.len(),
            views == lines@.map_values(|l: String| l@),
            widths@.len() == i,
            forall|j: int| 0 <= j < i ==> widths@[j] as nat == line_width(#[trigger] lines@[j]@),
            w as nat == max_width(views.subrange(0, i as int)),
        decreases lines@.len() - i,
    {
        let stripped = sc.strip_all(lines[i].as_str());
        let gs = graphemes(stripped.as_str());
        let lw = gs.len();
        proof {
            let pre = views.subrange(0, i + 1);
            assert(pre.drop_last() =~= views.subrange(0, i as int));
            assert(pre.last() == lines@[i as int]@);
        }
        if lw > w {
            w = lw;
        }
        widths.push(lw);
        i += 1;
    }
    assert(views.subrange(0, i as int) =~= views);
    if w > 255 {
        (None, widths)
    } else {
        (Some(w as u8), widths)
    }
}

/// Width and height of a text, ignoring placeholders; `None` when either
/// exceeds 255.
pub fn ascii_size(sc: &PlaceholderScanner, asc: &str) -> (r: Option<(u8, u8)>)
    ensures
        r matches Some((w, h)) ==> w as nat == art_width(asc@) && h as nat == art_height(asc@),
        r is None <==> art_width(asc@) > 255 || art_height(asc@) > 255,
{
    let lines = lines_of(asc);
    assert(lines@.map_values(|l: String| l@) =~= split_lines(asc@));
    let (w, _widths) = measure_lines(sc, &lines);
    match w {
        Some(w) => {
            if lines.len() > 255 {
                None
            } else {
                Some((w, lines.len() as u8))
            }
        },
        None => None,
    }
}

impl RawAsciiArt {
    /// Pads every line with spaces to the width of the widest line.
    pub fn to_normalized(&self, sc: &PlaceholderScanner) -> (r: Result<NormalizedAsciiArt, RenderError>)
        ensures
            r is Err <==> art_width(self.asc@) > 255 || art_height(self.asc@) > 255,
            r is Err ==> r == Err::<NormalizedAsciiArt, RenderError>(RenderError::TooLarge),
            r matches Ok(n) ==> {
                &&& n.w as nat == art_width(self.asc@)
                &&& n.h as nat == art_height(self.asc@)
                &&& n.lines@.len() == art_height(self.asc@)
                &&& forall|i: int|
                    0 <= i < n.lines@.len() ==> (#[trigger] n.lines@[i])@ == padded(
                        split_lines(self.asc@)[i],
                        n.w as nat,
                    )
            },
    {
        let lines = lines_of(self.asc.as_str());
        let ghost views = lines@.map_values(|l: String| l@);
        assert(views =~= split_lines(self.asc@));
        let (w, widths) = measure_lines(sc, &lines);
        let w = match w {
            Some(w) => w,
            None => {
                return Err(RenderError::TooLarge);
            },
        };
        if lines.len() > 255 {
            return Err(RenderError::TooLarge);
        }
        let mut out: Vec<String> = Vec::new();
        let mut i: usize = 0;
        while i < lines.len()
            invariant
                i <= lines@.len(),
                views == lines@.map_values(|l: String| l@),
                views == split_lines(self.asc@),
                widths@.len() == lines@.len(),
                forall|j: int| 0 <= j < lines@.len() ==> widths@[j] as nat == line_width(#[trigger] lines@[j]@),
                w as nat == max_width(views),
                out@.len() == i,
                forall|j: int| 0 <= j < i ==> (#[trigger] out@[j])@ == padded(views[j], w as nat),
            decreases lines@.len() - i,
        {
            proof {
                lemma_max_width_bound(views, i as int);
                assert(views[i as int] == lines@[i as int]@);
            }
            let pad = w as usize - widths[i];
            let mut line = lines[i].clone();
            let ghost base = lines@[i as int]@;
            let mut k: usize = 0;
            while k < pad
                invariant
                    k <= pad,
                    line@ == base + space_run(k as nat),
                decreases pad - k,
            {
                push_char(&mut line, ' ');
                k += 1;
                assert(line@ =~= base + space_run(k as nat));
            }
            out.push(line);
            i += 1;
        }
        Ok(NormalizedAsciiArt { lines: out, w, h: lines.len() as u8 })
    }
}

/// Every line of normalised art is its unpadded line padded to the art's
/// width: its visible text is the unpadded line's visible text followed by
/// spaces, and that line's visible width plus those spaces is the width of
/// the art, the width that `ascii_size` reports.
pub proof fn lemma_normalized_width(asc: Seq<char>, i: int)
    requires
        0 <= i < art_height(asc),
    ensures
        line_width(split_lines(asc)[i]) <= art_width(asc),
        strip(padded(split_lines(asc)[i], art_width(asc))) == strip(split_lines(asc)[i]) + space_run(
            (art_width(asc) - line_width(split_lines(asc)[i])) as nat,
        ),
        line_width(split_lines(asc)[i]) + (art_width(asc) - line_width(split_lines(asc)[i])) == art_width(asc),
{
    lemma_max_width_bound(split_lines(asc), i);
    crate::scanner::lemma_strip_padded(
        split_lines(asc)[i],
        (art_width(asc) - line_width(split_lines(asc)[i])) as nat,
    );
}

/// The line begins with a placeholder, possibly after spaces.
pub open spec fn starts_with_placeholder(line: Seq<char>) -> bool {
    let ms = placeholder_matches(line);
    ms.len() > 0 && forall|j: int| 0 <= j < ms[0].1 ==> line[j] == ' '
}

/// The slot (from 0) of the last placeholder seen, after this line.
pub open spec fn last_slot_after(line: Seq<char>, prev: Option<nat>) -> Option<nat> {
    let ms = placeholder_matches(line);
    if ms.len() > 0 {
        Some(ms.last().0)
    } else {
        prev
    }
}

/// The lines completed so far and the last slot seen, or the first line
/// that could not be completed.
pub open spec fn filled_prefix(lines: Seq<Seq<char>>, m: nat) -> Result<(Seq<Seq<char>>, Option<nat>), nat>
    decreases m,
{
    if m == 0 {
        Ok((Seq::empty(), None))
    } else {
        match filled_prefix(lines, (m - 1) as nat) {
            Err(e) => Err(e),
            Ok((out, last)) => {
                let line = lines[m - 1];
                if starts_with_placeholder(line) {
                    Ok((out.push(line), last_slot_after(line, last)))
                } else {
                    match last {
                        None => Err((m - 1) as nat),
                        Some(k) => Ok((out.push(token_chars(k) + line), last_slot_after(line, last))),
                    }
                }
            },
        }
    }
}

/// Each line made to begin with a placeholder: a line that does not (after
/// leading spaces) gets the last placeholder of the lines before it.
pub open spec fn fill_starting_spec(lines: Seq<Seq<char>>) -> Result<Seq<Seq<char>>, nat> {
    match filled_prefix(lines, lines.len()) {
        Ok((out, _)) => Ok(out),
        Err(e) => Err(e),
    }
}

proof fn lemma_filled_len(lines: Seq<Seq<char>>, m: nat)
    requires
        m <= lines.len(),
    ensures
        filled_prefix(lines, m) matches Ok((out, _)) ==> out.len() == m,
    decreases m,
{
    if m > 0 {
        lemma_filled_len(lines, (m - 1) as nat);
    }
}

/// Completing the starting placeholders keeps the number of lines.
pub proof fn lemma_fill_len(lines: Seq<Seq<char>>)
    ensures
        fill_starting_spec(lines) matches Ok(v) ==> v.len() == lines.len(),
{
    lemma_filled_len(lines, lines.len());
}

proof fn lemma_filled_err_persists(lines: Seq<Seq<char>>, m: nat, n: nat)
    requires
        m <= n,
        filled_prefix(lines, m) is Err,
    ensures
        filled_prefix(lines, n) == filled_prefix(lines, m),
    decreases n - m,
{
    if m < n {
        lemma_filled_err_persists(lines, m, (n - 1) as nat);
    }
}

/// Appends the token characters of slot `k + 1`.
fn push_token(s: &mut String, k: usize)
    requires
        k < 6,
    ensures
        final(s)@ == old(s)@ + token_chars(k as nat),
{
    push_char(s, '$');
    push_char(s, '{');
    push_char(s, 'c');
    let d: char = match k {
        0 => '1',
        1 => '2',
        2 => '3',
        3 => '4',
        4 => '5',
        _ => '6',
    };
    assert(d == (49 + k) as char);
    push_char(s, d);
    push_char(s, '}');
    assert(final(s)@ =~= old(s)@ + token_chars(k as nat));
}

/// Completes the starting placeholder of each line; fails with the first
/// line that has none to inherit.
pub fn fill_starting(sc: &PlaceholderScanner, lines: &Vec<String>) -> (r: Result<Vec<String>, RenderError>)
    ensures
        match fill_starting_spec(lines@.map_values(|l: String| l@)) {
            Ok(v) => r matches Ok(out) && out@.map_values(|l: String| l@) == v,
            Err(e) => r == Err::<Vec<String>, RenderError>(
                RenderError::MissingStartingPlaceholder { line: e as usize },
            ),
        },
{
    let ghost views = lines@.map_values(|l: String| l@);
    let mut out: Vec<String> = Vec::new();
    let mut last: Option<usize> = None;
    let mut i: usize = 0;
    while i < lines.len()
        invariant
            i <= lines@.len(),
            views == lines@.map_values(|l: String| l@),
            filled_prefix(views, i as nat) matches Ok((o, l)) && o == out@.map_values(
                |x: String| x@,
            ) && l == (match last {
                Some(k) => Some(k as nat),
                None => None::<nat>,
            }),
            last matches Some(k) ==> k < 6,
        decreases lines@.len() - i,
    {
        let line = lines[i].as_str();
        assert(views[i as int] == line@);
        let cs = to_chars(line);
        let ms = sc.find_all(line);
        proof {
            crate::scanner::lemma_scan_wf(crate::scanner::ascii_key(line@), 0);
        }
        let mut starts = false;
        if ms.len() > 0 {
            let first = ms[0].start;
            assert(first as nat + 5 <= cs@.len());
            let mut j: usize = 0;
            let mut all_spaces = true;
            while j < first
                invariant
                    j <= first <= cs@.len(),
                    cs@ == line@,
                    all_spaces == (forall|q: int| 0 <= q < j ==> cs@[q] == ' '),
                decreases first - j,
            {
                if cs[j] != ' ' {
                    all_spaces = false;
                }
                j += 1;
            }
            starts = all_spaces;
        }
        assert(starts == starts_with_placeholder(line@));
        let mut new_line = String::new();
        if !starts {
            match last {
                None => {
                    proof {
                        lemma_filled_err_persists(views, (i + 1) as nat, views.len());
                    }
                    return Err(RenderError::MissingStartingPlaceholder { line: i });
                },
                Some(k) => {
                    push_token(&mut new_line, k);
                },
            }
        }
        new_line.append(line);
        if ms.len() > 0 {
            let lk = (ms[ms.len() - 1].slot - 1) as usize;
            last = Some(lk);
        }
        out.push(new_line);
        proof {
            assert(out@.map_values(|x: String| x@) =~= filled_prefix(views, (i + 1) as nat)->Ok_0.0);
        }
        i += 1;
    }
    assert(views.len() == lines@.len());
    Ok(out)
}

} // verus!
