//! The terminal markup renderer: short `&x` codes for colours and styles,
//! and `&gf(..)` / `&gb(..)` for explicit RGB or hex colours, rewritten as
//! ANSI escape sequences.

use vstd::prelude::*;
use aho_corasick::{AhoCorasick, BuildError};
use crate::color::{Rgb, ToAnsiString, ansi_seq, parse_hex_spec};
use crate::scanner::{
    ascii_key, ascii_key_of, automaton_patterns, build_automaton, find_matches, lemma_scan_fits,
    matches_fit, nat_matches, scan_from, splice, spliced, uniform_patterns,
};
use crate::text::{push_char, sub_string, to_chars};
use crate::types::{AnsiMode, ForegroundBackground};

verus! {

/// The second character of each markup code, in table order.
pub open spec fn code_chars() -> Seq<u8> {
    seq![48u8, 49, 50, 51, 52, 53, 54, 55, 56, 57, 97, 98, 99, 100, 101, 102, 108, 111, 110, 107, 109, 114, 45, 126, 42, 76, 79, 78, 75, 77]
}

/// The markup codes: `&` followed by one character.
pub open spec fn markup_codes() -> Seq<Seq<u8>> {
    Seq::new(30, |k: int| seq![38u8, code_chars()[k]])
}

/// What each markup code stands for: the 16 colours of the 256-colour
/// palette, bold, italic, underline, hidden and strikethrough on, a full
/// reset, a line break, text and background colour resets, and the five
/// styles off again.
pub open spec fn markup_escapes() -> Seq<Seq<char>> {
    seq![
        "\x1b[38;5;0m"@,
        "\x1b[38;5;4m"@,
        "\x1b[38;5;2m"@,
        "\x1b[38;5;6m"@,
        "\x1b[38;5;1m"@,
        "\x1b[38;5;5m"@,
        "\x1b[38;5;3m"@,
        "\x1b[38;5;7m"@,
        "\x1b[38;5;8m"@,
        "\x1b[38;5;12m"@,
        "\x1b[38;5;10m"@,
        "\x1b[38;5;14m"@,
        "\x1b[38;5;9m"@,
        "\x1b[38;5;13m"@,
        "\x1b[38;5;11m"@,
        "\x1b[38;5;15m"@,
        "\x1b[1m"@,
        "\x1b[3m"@,
        "\x1b[4m"@,
        "\x1b[8m"@,
        "\x1b[9m"@,
        "\x1b[0m"@,
        "\n"@,
        "\x1b[39m"@,
        "\x1b[49m"@,
        "\x1b[22m"@,
        "\x1b[23m"@,
        "\x1b[24m"@,
        "\x1b[28m"@,
        "\x1b[29m"@,
    ]
}

/// The openers of an explicit colour: `&gf(` for the text, `&gb(` for the
/// background.
pub open spec fn rgb_openers() -> Seq<Seq<u8>> {
    seq![seq![38u8, 103u8, 102u8, 40u8], seq![38u8, 103u8, 98u8, 40u8]]
}

/// Why markup could not be rendered.
#[derive(Clone, Copy, Debug, PartialEq, Eq, Hash, Structural)]
pub enum MarkupError {
    /// An explicit colour has no closing parenthesis.
    MissingClosingParen,
    /// An explicit colour is neither hex nor three 8-bit components.
    InvalidColor,
}

/// A separator between the components of an explicit colour.
pub open spec fn is_sep(c: char) -> bool {
    c == ',' || c == ';' || c == ' '
}

/// The fields found in the first `m` characters, and the field being read.
pub open spec fn fields_upto(s: Seq<char>, m: nat) -> (Seq<Seq<char>>, Seq<char>)
    decreases m,
{
    if m == 0 {
        (Seq::empty(), Seq::empty())
    } else {
        let (done, cur) = fields_upto(s, (m - 1) as nat);
        let c = s[m - 1];
        if is_sep(c) {
            if cur.len() > 0 {
                (done.push(cur), Seq::empty())
            } else {
                (done, Seq::empty())
            }
        } else {
            (done, cur.push(c))
        }
    }
}

/// The non-empty runs of non-separator characters.
pub open spec fn fields(s: Seq<char>) -> Seq<Seq<char>> {
    let (done, cur) = fields_upto(s, s.len());
    if cur.len() > 0 {
        done.push(cur)
    } else {
        done
    }
}

/// The value of a decimal digit character, if it is one.
pub open spec fn digit_value(c: char) -> Option<nat> {
    if 48 <= (c as u32) <= 57 {
        Some(((c as u32) - 48) as nat)
    } else {
        None
    }
}

/// The value of a string of decimal digits.
pub open spec fn decimal_value(ds: Seq<char>) -> nat
    decreases ds.len(),
{
    if ds.len() == 0 {
        0
    } else {
        decimal_value(ds.drop_last()) * 10 + digit_value(ds.last())->0
    }
}

/// A non-empty string of decimal digits whose value fits a byte.
pub open spec fn parse_byte_spec(ds: Seq<char>) -> Option<u8> {
    if ds.len() > 0 && (forall|i: int| 0 <= i < ds.len() ==> (#[trigger] digit_value(ds[i])) is Some)
        && decimal_value(ds) <= 255 {
        Some(decimal_value(ds) as u8)
    } else {
        None
    }
}

/// The colour an explicit colour's contents denote: a hex colour starting
/// with `#`, or three byte components between separators.
pub open spec fn parse_rgb_spec(content: Seq<char>) -> Option<Rgb> {
    if content.len() > 0 && content[0] == '#' {
        parse_hex_spec(content)
    } else {
        let fs = fields(content);
        if fs.len() == 3 && parse_byte_spec(fs[0]) is Some && parse_byte_spec(fs[1]) is Some
            && parse_byte_spec(fs[2]) is Some {
            Some(
                Rgb {
                    r: parse_byte_spec(fs[0])->0,
                    g: parse_byte_spec(fs[1])->0,
                    b: parse_byte_spec(fs[2])->0,
                },
            )
        } else {
            None
        }
    }
}

/// The first closing parenthesis at or after `from`.
pub open spec fn close_paren(t: Seq<char>, from: nat) -> Option<nat>
    decreases t.len() - from,
{
    if from >= t.len() {
        None
    } else if t[from as int] == ')' {
        Some(from)
    } else {
        close_paren(t, from + 1)
    }
}

/// The role an opener selects.
pub open spec fn opener_role(k: nat) -> ForegroundBackground {
    if k == 0 {
        ForegroundBackground::Foreground
    } else {
        ForegroundBackground::Background
    }
}

/// The rest of `t` from `pos`, with the explicit colours of openers `j` on
/// rewritten; an opener inside an earlier colour's parentheses is text.
pub open spec fn rgb_pass(t: Seq<char>, ms: Seq<(nat, nat)>, mode: AnsiMode, j: nat, pos: nat) -> Result<
    Seq<char>,
    MarkupError,
>
    decreases ms.len() - j, t.len() - pos,
{
    if j >= ms.len() || pos > t.len() {
        Ok(t.subrange(pos as int, t.len() as int))
    } else if ms[j as int].1 < pos {
        rgb_pass(t, ms, mode, j + 1, pos)
    } else {
        match close_paren(t, ms[j as int].1 + 4) {
            None => Err(MarkupError::MissingClosingParen),
            Some(c) => match parse_rgb_spec(t.subrange((ms[j as int].1 + 4) as int, c as int)) {
                None => Err(MarkupError::InvalidColor),
                Some(rgb) => match rgb_pass(t, ms, mode, j + 1, c + 1) {
                    Ok(rest) => Ok(
                        t.subrange(pos as int, ms[j as int].1 as int) + ansi_seq(
                            rgb,
                            mode,
                            opener_role(ms[j as int].0),
                        ) + rest,
                    ),
                    Err(e) => Err(e),
                },
            },
        }
    }
}

/// Markup codes replaced first, explicit colours after.
pub open spec fn markup_spec(msg: Seq<char>, mode: AnsiMode) -> Result<Seq<char>, MarkupError> {
    let t = spliced(msg, scan_from(ascii_key(msg), markup_codes(), 0), markup_escapes(), 2);
    rgb_pass(t, scan_from(ascii_key(t), rgb_openers(), 0), mode, 0, 0)
}

proof fn lemma_markup_patterns_uniform()
    ensures
        uniform_patterns(markup_codes()),
        uniform_patterns(rgb_openers()),
{
    let pats = markup_codes();
    let cc = code_chars();
    assert forall|k: int, l: int| 0 <= k < l < pats.len() implies pats[k] != pats[l] by {
        assert(pats[k][1] == cc[k]);
        assert(pats[l][1] == cc[l]);
        assert(cc[k] != cc[l]);
    }
    let r = rgb_openers();
    assert(r[0][2] != r[1][2]);
}

/// Renders markup; built once and shared.
pub struct MarkupRenderer {
    codes: AhoCorasick,
    openers: AhoCorasick,
}

fn strings_of(v: &Vec<&'static str>) -> (r: Vec<String>)
    ensures
        r@.map_values(|x: String| x@) == v@.map_values(|s: &str| s@),
{
    let mut r: Vec<String> = Vec::new();
    let mut i: usize = 0;
    while i < v.len()
        invariant
            i <= v@.len(),
            r@.len() == i,
            forall|j: int| 0 <= j < i ==> (#[trigger] r@[j])@ == v@[j]@,
        decreases v@.len() - i,
    {
        r.push(v[i].to_owned());
        i += 1;
    }
    assert(r@.map_values(|x: String| x@) =~= v@.map_values(|s: &str| s@));
    r
}

/// Parses a byte written in decimal.
pub fn parse_byte(ds: &Vec<char>) -> (r: Option<u8>)
    ensures
        r == parse_byte_spec(ds@),
{
    if ds.len() == 0 {
        return None;
    }
    let mut val: u32 = 0;
    let mut i: usize = 0;
    while i < ds.len()
        invariant
            i <= ds@.len(),
            forall|q: int| 0 <= q < i ==> (#[trigger] digit_value(ds@[q])) is Some,
            val as nat == if decimal_value(ds@.subrange(0, i as int)) > 256 {
                256
            } else {
                decimal_value(ds@.subrange(0, i as int))
            },
        decreases ds@.len() - i,
    {
        let u = ds[i] as u32;
        if u < 48 || u > 57 {
            assert(digit_value(ds@[i as int]) is None);
            return None;
        }
        let ghost pre = ds@.subrange(0, i as int);
        let ghost nxt = ds@.subrange(0, i + 1);
        assert(nxt.drop_last() =~= pre);
        assert(decimal_value(nxt) == decimal_value(pre) * 10 + (u - 48) as nat);
        let next = val * 10 + (u - 48);
        val = if next > 256 {
            256
        } else {
            next
        };
        proof {
            if decimal_value(pre) > 256 {
                assert(decimal_value(pre) * 10 >= 256) by (nonlinear_arith)
                    requires
                        decimal_value(pre) > 256,
                ;
            }
        }
        i += 1;
    }
    assert(ds@.subrange(0, i as int) =~= ds@);
    if val > 255 {
        None
    } else {
        Some(val as u8)
    }
}

/// Parses the contents of an explicit colour.
fn parse_rgb(content: &Vec<char>) -> (r: Option<Rgb>)
    ensures
        r == parse_rgb_spec(content@),
{
    if content.len() > 0 && content[0] == '#' {
        let s = sub_string(content, 0, content.len());
        assert(content@.subrange(0, content@.len() as int) =~= content@);
        return Rgb::parse_hex(s.as_str());
    }
    let mut done: Vec<Vec<char>> = Vec::new();
    let mut cur: Vec<char> = Vec::new();
    let mut i: usize = 0;
    while i < content.len()
        invariant
            i <= content@.len(),
            fields_upto(content@, i as nat).0 == done@.map_values(|f: Vec<char>| f@),
            fields_upto(content@, i as nat).1 == cur@,
        decreases content@.len() - i,
    {
        let c = content[i];
        if c == ',' || c == ';' || c == ' ' {
            if cur.len() > 0 {
                done.push(cur);
            }
            cur = Vec::new();
        } else {
            cur.push(c);
        }
        i += 1;
        assert(done@.map_values(|f: Vec<char>| f@) =~= fields_upto(content@, i as nat).0);
    }
    if cur.len() > 0 {
        done.push(cur);
    }
    assert(done@.map_values(|f: Vec<char>| f@) =~= fields(content@));
    if done.len() != 3 {
        return None;
    }
    let r = parse_byte(&done[0]);
    let g = parse_byte(&done[1]);
    let b = parse_byte(&done[2]);
    match (r, g, b) {
        (Some(r), Some(g), Some(b)) => Some(Rgb { r, g, b }),
        _ => None,
    }
}

impl MarkupRenderer {
    #[verifier::type_invariant]
    spec fn searches_markup(&self) -> bool {
        automaton_patterns(self.codes) == markup_codes() && automaton_patterns(self.openers)
            == rgb_openers()
    }

    /// Builds the renderer; fails only when a search automaton cannot be
    /// built.
    pub fn new() -> (r: Result<MarkupRenderer, BuildError>) {
        let cc: Vec<u8> = vec![48u8, 49, 50, 51, 52, 53, 54, 55, 56, 57, 97, 98, 99, 100, 101, 102, 108, 111, 110, 107, 109, 114, 45, 126, 42, 76, 79, 78, 75, 77];
        assert(cc@ == code_chars());
        let mut codes: Vec<Vec<u8>> = Vec::new();
        let mut i: usize = 0;
        while i < cc.len()
            invariant
                cc@ == code_chars(),
                i <= 30,
                codes@.len() == i,
                forall|k: int| 0 <= k < i ==> (#[trigger] codes@[k])@ == markup_codes()[k],
            decreases 30 - i,
        {
            let pat: Vec<u8> = vec![38u8, cc[i]];
            assert(pat@ =~= markup_codes()[i as int]);
            codes.push(pat);
            i += 1;
        }
        assert(codes.deep_view() =~= markup_codes()) by {
            assert forall|k: int| 0 <= k < 30 implies codes.deep_view()[k] =~= markup_codes()[k] by {
                assert(codes.deep_view()[k] == codes@[k].deep_view());
                assert(codes@[k].deep_view() =~= codes@[k]@);
            }
        }
        let openers: Vec<Vec<u8>> = vec![vec![38u8, 103, 102, 40], vec![38u8, 103, 98, 40]];
        assert(openers.deep_view() =~= rgb_openers()) by {
            assert(openers.deep_view()[0] =~= rgb_openers()[0]);
            assert(openers.deep_view()[1] =~= rgb_openers()[1]);
        }
        let codes = match build_automaton(&codes) {
            Ok(ac) => ac,
            Err(e) => {
                return Err(e);
            },
        };
        let openers = match build_automaton(&openers) {
            Ok(ac) => ac,
            Err(e) => {
                return Err(e);
            },
        };
        Ok(MarkupRenderer { codes, openers })
    }

    /// Rewrites markup codes and explicit colours as escape sequences.
    pub fn color(&self, msg: &str, mode: AnsiMode) -> (r: Result<String, MarkupError>)
        ensures
            match markup_spec(msg@, mode) {
                Ok(v) => r matches Ok(s) && s@ == v,
                Err(e) => r == Err::<String, MarkupError>(e),
            },
    {
        proof {
            use_type_invariant(self);
            lemma_markup_patterns_uniform();
        }
        let escapes: Vec<&'static str> = vec![
        "\x1b[38;5;0m",
        "\x1b[38;5;4m",
        "\x1b[38;5;2m",
        "\x1b[38;5;6m",
        "\x1b[38;5;1m",
        "\x1b[38;5;5m",
        "\x1b[38;5;3m",
        "\x1b[38;5;7m",
        "\x1b[38;5;8m",
        "\x1b[38;5;12m",
        "\x1b[38;5;10m",
        "\x1b[38;5;14m",
        "\x1b[38;5;9m",
        "\x1b[38;5;13m",
        "\x1b[38;5;11m",
        "\x1b[38;5;15m",
        "\x1b[1m",
        "\x1b[3m",
        "\x1b[4m",
        "\x1b[8m",
        "\x1b[9m",
        "\x1b[0m",
        "\n",
        "\x1b[39m",
        "\x1b[49m",
        "\x1b[22m",
        "\x1b[23m",
        "\x1b[24m",
        "\x1b[28m",
        "\x1b[29m",
        ];
        assert(escapes@.map_values(|s: &str| s@) =~= markup_escapes());
        let reps = strings_of(&escapes);
        let cs = to_chars(msg);
        let key = ascii_key_of(&cs);
        let ms = find_matches(&self.codes, key.as_slice());
        proof {
            lemma_scan_fits(ascii_key(cs@), markup_codes(), 0);
        }
        let step = splice(&cs, &ms, &reps, 2);
        let t = to_chars(step.as_str());
        let tkey = ascii_key_of(&t);
        let os = find_matches(&self.openers, tkey.as_slice());
        proof {
            lemma_scan_fits(ascii_key(t@), rgb_openers(), 0);
        }
        rgb_pass_exec(&t, &os, mode)
    }
}

/// Rewrites the explicit colours of `t`, whose openers are `os`.
fn rgb_pass_exec(t: &Vec<char>, os: &Vec<(usize, usize)>, mode: AnsiMode) -> (r: Result<String, MarkupError>)
    requires
        matches_fit(nat_matches(os@), t@.len(), 0, 2, 4),
    ensures
        match rgb_pass(t@, nat_matches(os@), mode, 0, 0) {
            Ok(v) => r matches Ok(s) && s@ == v,
            Err(e) => r == Err::<String, MarkupError>(e),
        },
{
        let ghost pm = nat_matches(os@);
        let ghost total = rgb_pass(t@, pm, mode, 0, 0);
        let mut out = String::new();
        let mut pos: usize = 0;
        let mut j: usize = 0;
        let n = t.len();
        while j < os.len()
            invariant
                n == t@.len(),
                pm == nat_matches(os@),
                matches_fit(pm, t@.len(), 0, 2, 4),
                total == rgb_pass(t@, pm, mode, 0, 0),
                j <= os@.len(),
                pos <= t@.len(),
                match rgb_pass(t@, pm, mode, j as nat, pos as nat) {
                    Ok(rest) => total == Ok::<Seq<char>, MarkupError>(out@ + rest),
                    Err(e) => total == Err::<Seq<char>, MarkupError>(e),
                },
            decreases os@.len() - j,
        {
            let (k, st) = os[j];
            assert(pm[j as int] == (k as nat, st as nat));
            assert(st + 4 <= t@.len());
            if st < pos {
                assert(rgb_pass(t@, pm, mode, j as nat, pos as nat) == rgb_pass(
                    t@,
                    pm,
                    mode,
                    (j + 1) as nat,
                    pos as nat,
                ));
                j += 1;
                continue;
            }
            let mut c = st + 4;
            while c < t.len() && t[c] != ')'
                invariant
                    st + 4 <= c <= t@.len(),
                    close_paren(t@, (st + 4) as nat) == close_paren(t@, c as nat),
                decreases t@.len() - c,
            {
                c += 1;
            }
            if c == t.len() {
                assert(close_paren(t@, (st + 4) as nat) is None);
                assert(rgb_pass(t@, pm, mode, j as nat, pos as nat) == Err::<Seq<char>, MarkupError>(
                    MarkupError::MissingClosingParen,
                ));
                return Err(MarkupError::MissingClosingParen);
            }
            assert(close_paren(t@, (st + 4) as nat) == Some(c as nat));
            let content = sub_string(&t, st + 4, c);
            let content_chars = to_chars(content.as_str());
            assert(content_chars@ == t@.subrange(st + 4, c as int));
            match parse_rgb(&content_chars) {
                None => {
                    assert(rgb_pass(t@, pm, mode, j as nat, pos as nat) == Err::<Seq<char>, MarkupError>(
                        MarkupError::InvalidColor,
                    ));
                    return Err(MarkupError::InvalidColor);
                },
                Some(rgb) => {
                    let fb = if k == 0 {
                        ForegroundBackground::Foreground
                    } else {
                        ForegroundBackground::Background
                    };
                    let mut p = pos;
                    let ghost base = out@;
                    while p < st
                        invariant
                            pos <= p <= st <= t@.len(),
                            out@ == base + t@.subrange(pos as int, p as int),
                        decreases st - p,
                    {
                        push_char(&mut out, t[p]);
                        p += 1;
                        assert(out@ =~= base + t@.subrange(pos as int, p as int));
                    }
                    let code = rgb.to_ansi_string(mode, fb);
                    out.append(code.as_str());
                    proof {
                        assert(fb == opener_role(pm[j as int].0));
                        let cur = rgb_pass(t@, pm, mode, j as nat, pos as nat);
                        let nxt = rgb_pass(t@, pm, mode, (j + 1) as nat, (c + 1) as nat);
                        match nxt {
                            Ok(rest) => {
                                assert(cur == Ok::<Seq<char>, MarkupError>(
                                    t@.subrange(pos as int, st as int) + ansi_seq(rgb, mode, fb) + rest,
                                ));
                                assert(total == Ok::<Seq<char>, MarkupError>(base + cur->Ok_0));
                                assert(out@ + rest =~= base + (t@.subrange(pos as int, st as int)
                                    + ansi_seq(rgb, mode, fb) + rest));
                            },
                            Err(e) => {
                                assert(cur == Err::<Seq<char>, MarkupError>(e));
                                assert(total == Err::<Seq<char>, MarkupError>(e));
                            },
                        }
                    }
                    pos = c + 1;
                },
            }
            j += 1;
        }
        let ghost base = out@;
        let mut p = pos;
        while p < t.len()
            invariant
                pos <= p <= t@.len(),
                out@ == base + t@.subrange(pos as int, p as int),
            decreases t@.len() - p,
        {
            push_char(&mut out, t[p]);
            p += 1;
            assert(out@ =~= base + t@.subrange(pos as int, p as int));
        }
        Ok(out)
}

} // verus!
