//! The colour model: 8-bit RGB colours, their hex form and their ANSI
//! escape sequences.

use vstd::prelude::*;
use palette::color_difference::ImprovedCiede2000;
use palette::IntoColor;
use crate::text::{push_char, to_chars};
use crate::types::{AnsiMode, ForegroundBackground};

verus! {

/// A colour with 8 bits per sRGB channel.
#[derive(Clone, Copy, Debug, PartialEq, Eq, Hash, Structural)]
pub struct Rgb {
    pub r: u8,
    pub g: u8,
    pub b: u8,
}

/// The index in the 256-colour palette that approximates a colour.
pub uninterp spec fn ansi256_index(c: (u8, u8, u8)) -> u8;

/// The colour that a 256-colour palette index stands for.
pub uninterp spec fn ansi256_rgb(idx: u8) -> (u8, u8, u8);

/// A key that orders colour pairs by their perceptual difference.
pub uninterp spec fn contrast_key(background: (u8, u8, u8), candidate: (u8, u8, u8)) -> u32;

/// Relies on `ansi_colours::ansi256_from_rgb`: the palette index nearest to
/// the colour, which depends on the three channels alone.
#[verifier::external_body]
fn ansi256_from_rgb(c: (u8, u8, u8)) -> (r: u8)
    ensures
        r == ansi256_index(c),
{
    ansi_colours::ansi256_from_rgb(c)
}

/// Relies on `ansi_colours::rgb_from_ansi256`: the palette's colour at an
/// index, a fixed table.
#[verifier::external_body]
fn rgb_from_ansi256(idx: u8) -> (r: (u8, u8, u8))
    ensures
        r == ansi256_rgb(idx),
{
    ansi_colours::rgb_from_ansi256(idx)
}

/// Relies on palette: both colours are taken to CIE L*a*b* and compared
/// with `ImprovedCiede2000::improved_difference`. The difference is a
/// non-negative float, whose IEEE bit pattern orders as the value does.
#[verifier::external_body]
fn perceptual_difference_key(background: (u8, u8, u8), candidate: (u8, u8, u8)) -> (r: u32)
    ensures
        r == contrast_key(background, candidate),
{
    let bg: palette::Lab = palette::Srgb::new(background.0, background.1, background.2)
        .into_linear()
        .into_color();
    let fg: palette::Lab = palette::Srgb::new(candidate.0, candidate.1, candidate.2)
        .into_linear()
        .into_color();
    fg.improved_difference(bg).to_bits()
}

/// The decimal digit character for `d < 10`.
pub open spec fn digit_char(d: nat) -> char {
    seq!['0', '1', '2', '3', '4', '5', '6', '7', '8', '9'][d as int]
}

/// The upper-case hexadecimal digit character for `d < 16`.
pub open spec fn hex_char(d: nat) -> char {
    seq!['0', '1', '2', '3', '4', '5', '6', '7', '8', '9', 'A', 'B', 'C', 'D', 'E', 'F'][d as int]
}

/// The decimal representation of a natural number, without leading zeros.
pub open spec fn decimal(n: nat) -> Seq<char>
    decreases n,
{
    if n < 10 {
        seq![digit_char(n)]
    } else {
        decimal(n / 10).push(digit_char(n % 10))
    }
}

/// The value of a hexadecimal digit, either case.
pub open spec fn hex_value(c: char) -> Option<nat> {
    let u = c as u32;
    if 48 <= u <= 57 {
        Some((u - 48) as nat)
    } else if 65 <= u <= 70 {
        Some((u - 55) as nat)
    } else if 97 <= u <= 102 {
        Some((u - 87) as nat)
    } else {
        None
    }
}

/// Two hexadecimal digits for a byte, upper case.
pub open spec fn hex_byte(b: u8) -> Seq<char> {
    seq![hex_char(b as nat / 16), hex_char(b as nat % 16)]
}

/// The `#RRGGBB` form of a colour.
pub open spec fn hex_of(c: Rgb) -> Seq<char> {
    seq!['#'] + hex_byte(c.r) + hex_byte(c.g) + hex_byte(c.b)
}

/// The byte spelled by the two hexadecimal digits at `i` and `i + 1`.
pub open spec fn byte_at(s: Seq<char>, i: int) -> nat {
    hex_value(s[i])->0 * 16 + hex_value(s[i + 1])->0
}

/// A colour string without its optional leading `#`.
pub open spec fn hex_body(s: Seq<char>) -> Seq<char> {
    if s.len() > 0 && s[0] == '#' {
        s.drop_first()
    } else {
        s
    }
}

/// Every character is a hexadecimal digit.
pub open spec fn all_hex(t: Seq<char>) -> bool {
    forall|i: int| 0 <= i < t.len() ==> (#[trigger] hex_value(t[i])) is Some
}

/// What a colour string denotes: six hexadecimal digits in either case,
/// optionally preceded by `#`.
pub open spec fn parse_hex_spec(s: Seq<char>) -> Option<Rgb> {
    let t = hex_body(s);
    if t.len() == 6 && all_hex(t) {
        Some(
            Rgb {
                r: byte_at(t, 0) as u8,
                g: byte_at(t, 2) as u8,
                b: byte_at(t, 4) as u8,
            },
        )
    } else {
        None
    }
}

/// The SGR parameter that selects the foreground or the background slot.
pub open spec fn role_code(fb: ForegroundBackground) -> nat {
    match fb {
        ForegroundBackground::Foreground => 38,
        ForegroundBackground::Background => 48,
    }
}

/// The escape sequence that sets a colour in the given mode and slot.
pub open spec fn ansi_seq(c: Rgb, mode: AnsiMode, fb: ForegroundBackground) -> Seq<char> {
    match mode {
        AnsiMode::Rgb => "\x1b["@ + decimal(role_code(fb)) + ";2;"@ + decimal(c.r as nat) + ";"@
            + decimal(c.g as nat) + ";"@ + decimal(c.b as nat) + "m"@,
        AnsiMode::Ansi256 => "\x1b["@ + decimal(role_code(fb)) + ";5;"@ + decimal(
            ansi256_index((c.r, c.g, c.b)) as nat,
        ) + "m"@,
    }
}

fn digit_char_exec(d: u8) -> (c: char)
    requires
        d < 16,
    ensures
        d < 10 ==> c == digit_char(d as nat),
        c == hex_char(d as nat),
{
    match d {
        0 => '0',
        1 => '1',
        2 => '2',
        3 => '3',
        4 => '4',
        5 => '5',
        6 => '6',
        7 => '7',
        8 => '8',
        9 => '9',
        10 => 'A',
        11 => 'B',
        12 => 'C',
        13 => 'D',
        14 => 'E',
        _ => 'F',
    }
}

/// Appends the decimal representation of a byte.
pub fn push_decimal(s: &mut String, n: u8)
    ensures
        final(s)@ == old(s)@ + decimal(n as nat),
{
    if n >= 100 {
        push_char(s, digit_char_exec(n / 100));
        push_char(s, digit_char_exec((n / 10) % 10));
        push_char(s, digit_char_exec(n % 10));
        assert(decimal(n as nat) == seq![
            digit_char(n as nat / 100),
            digit_char((n as nat / 10) % 10),
            digit_char(n as nat % 10),
        ]) by {
            reveal_with_fuel(decimal, 3);
            assert((n as nat / 10) / 10 == n as nat / 100);
        }
    } else if n >= 10 {
        push_char(s, digit_char_exec(n / 10));
        push_char(s, digit_char_exec(n % 10));
        assert(decimal(n as nat) == seq![digit_char(n as nat / 10), digit_char(n as nat % 10)]) by {
            reveal_with_fuel(decimal, 2);
        }
    } else {
        push_char(s, digit_char_exec(n));
    }
    assert(final(s)@ =~= old(s)@ + decimal(n as nat));
}

fn hex_value_exec(c: char) -> (r: Option<u8>)
    ensures
        r is Some <==> hex_value(c) is Some,
        r matches Some(v) ==> v as nat == hex_value(c)->0 && v < 16,
{
    let u = c as u32;
    if 48 <= u && u <= 57 {
        Some((u - 48) as u8)
    } else if 65 <= u && u <= 70 {
        Some((u - 55) as u8)
    } else if 97 <= u && u <= 102 {
        Some((u - 87) as u8)
    } else {
        None
    }
}

impl Rgb {
    pub fn new(r: u8, g: u8, b: u8) -> (c: Rgb)
        ensures
            c == (Rgb { r, g, b }),
    {
        Rgb { r, g, b }
    }

    /// The colour as a `(r, g, b)` triple.
    pub open spec fn triple(&self) -> (u8, u8, u8) {
        (self.r, self.g, self.b)
    }

    /// Parses `#RRGGBB` or `RRGGBB`, hexadecimal digits in either case.
    pub fn parse_hex(s: &str) -> (r: Option<Rgb>)
        ensures
            r == parse_hex_spec(s@),
    {
        let cs = to_chars(s);
        let start: usize = if cs.len() > 0 && cs[0] == '#' {
            1
        } else {
            0
        };
        let ghost t = if cs@.len() > 0 && cs@[0] == '#' {
            cs@.drop_first()
        } else {
            cs@
        };
        assert(t =~= cs@.subrange(start as int, cs@.len() as int));
        if cs.len() - start != 6 {
            return None;
        }
        let mut vals: Vec<u8> = Vec::new();
        let mut i: usize = 0;
        while i < 6
            invariant
                i <= 6,
                cs@ == s@,
                cs@.len() == start + 6,
                start <= 1,
                t == hex_body(s@),
                t =~= cs@.subrange(start as int, cs@.len() as int),
                vals@.len() == i,
                forall|j: int| 0 <= j < i ==> (#[trigger] hex_value(t[j])) is Some,
                forall|j: int| 0 <= j < i ==> vals@[j] as nat == hex_value(t[j])->0,
                forall|j: int| 0 <= j < i ==> vals@[j] < 16,
            decreases 6 - i,
        {
            assert(t[i as int] == cs@[start + i]);
            match hex_value_exec(cs[start + i]) {
                Some(v) => {
                    vals.push(v);
                },
                None => {
                    assert(hex_value(t[i as int]) is None);
                    assert(!all_hex(t));
                    return None;
                },
            }
            i += 1;
        }
        let r = vals[0] * 16 + vals[1];
        let g = vals[2] * 16 + vals[3];
        let b = vals[4] * 16 + vals[5];
        Some(Rgb { r, g, b })
    }

    /// The `#RRGGBB` form, upper case.
    pub fn to_hex(&self) -> (r: String)
        ensures
            r@ == hex_of(*self),
    {
        let mut s = String::new();
        push_char(&mut s, '#');
        push_hex_byte(&mut s, self.r);
        push_hex_byte(&mut s, self.g);
        push_hex_byte(&mut s, self.b);
        assert(s@ =~= hex_of(*self));
        s
    }
}

fn push_hex_byte(s: &mut String, b: u8)
    ensures
        final(s)@ == old(s)@ + hex_byte(b),
{
    push_char(s, digit_char_exec(b / 16));
    push_char(s, digit_char_exec(b % 16));
    assert(final(s)@ =~= old(s)@ + hex_byte(b));
}

/// Conversion of a colour to an ANSI escape sequence.
pub trait ToAnsiString {
    spec fn ansi_spec(&self, mode: AnsiMode, fb: ForegroundBackground) -> Seq<char>;

    /// The escape sequence that selects this colour.
    fn to_ansi_string(&self, mode: AnsiMode, fb: ForegroundBackground) -> (r: String)
        ensures
            r@ == self.ansi_spec(mode, fb),
    ;
}

impl ToAnsiString for Rgb {
    open spec fn ansi_spec(&self, mode: AnsiMode, fb: ForegroundBackground) -> Seq<char> {
        ansi_seq(*self, mode, fb)
    }

    fn to_ansi_string(&self, mode: AnsiMode, fb: ForegroundBackground) -> (r: String) {
        let code: u8 = match fb {
            ForegroundBackground::Foreground => 38,
            ForegroundBackground::Background => 48,
        };
        let mut s = String::new();
        s.append("\x1b[");
        push_decimal(&mut s, code);
        match mode {
            AnsiMode::Rgb => {
                s.append(";2;");
                push_decimal(&mut s, self.r);
                s.append(";");
                push_decimal(&mut s, self.g);
                s.append(";");
                push_decimal(&mut s, self.b);
            },
            AnsiMode::Ansi256 => {
                s.append(";5;");
                let idx = ansi256_from_rgb((self.r, self.g, self.b));
                push_decimal(&mut s, idx);
            },
        }
        s.append("m");
        s
    }
}

/// The grayscale candidates, in scan order: the greys of the colour cube
/// followed by the grayscale ramp.
pub open spec fn grayscale_candidates() -> Seq<u8> {
    seq![
        16u8, 59, 102, 145, 188, 231, 232, 233, 234, 235, 236, 237, 238, 239, 240, 241, 242, 243,
        244, 245, 246, 247, 248, 249, 250, 251, 252, 253, 254, 255,
    ]
}

/// The contrast key of candidate `i` against a background.
pub open spec fn candidate_key(bg: Rgb, i: int) -> u32 {
    contrast_key(bg.triple(), ansi256_rgb(grayscale_candidates()[i]))
}

/// `i` is the first candidate with the largest key.
pub open spec fn is_first_best(bg: Rgb, i: int) -> bool {
    &&& 0 <= i < grayscale_candidates().len()
    &&& forall|j: int|
        0 <= j < grayscale_candidates().len() ==> candidate_key(bg, j) <= candidate_key(bg, i)
    &&& forall|j: int| 0 <= j < i ==> candidate_key(bg, j) < candidate_key(bg, i)
}

/// There is exactly one first best candidate.
pub proof fn lemma_first_best_unique(bg: Rgb, i: int, k: int)
    requires
        is_first_best(bg, i),
        is_first_best(bg, k),
    ensures
        i == k,
{
    if i < k {
        assert(candidate_key(bg, i) < candidate_key(bg, k));
    } else if k < i {
        assert(candidate_key(bg, k) < candidate_key(bg, i));
    }
}

impl Rgb {
    /// The 256-palette grayscale index that contrasts most with this
    /// background colour: candidates are scanned in order and a later one
    /// replaces the best so far only when its difference is strictly larger.
    pub fn contrast_grayscale(&self) -> (r: u8)
        ensures
            exists|i: int| is_first_best(*self, i) && r == grayscale_candidates()[i],
    {
        let cands: Vec<u8> = vec![
            16u8, 59, 102, 145, 188, 231, 232, 233, 234, 235, 236, 237, 238, 239, 240, 241, 242,
            243, 244, 245, 246, 247, 248, 249, 250, 251, 252, 253, 254, 255,
        ];
        assert(cands@ == grayscale_candidates());
        let bg = (self.r, self.g, self.b);
        let mut keys: Vec<u32> = Vec::new();
        let mut i: usize = 0;
        while i < cands.len()
            invariant
                cands@ == grayscale_candidates(),
                bg == self.triple(),
                i <= cands@.len(),
                keys@.len() == i,
                forall|j: int| 0 <= j < i ==> keys@[j] == candidate_key(*self, j),
            decreases cands@.len() - i,
        {
            keys.push(perceptual_difference_key(bg, rgb_from_ansi256(cands[i])));
            i += 1;
        }
        let best = first_best(&keys);
        assert(is_first_best(*self, best as int));
        cands[best]
    }
}

/// The first position of the largest key.
pub fn first_best(keys: &Vec<u32>) -> (r: usize)
    requires
        keys@.len() > 0,
    ensures
        r < keys@.len(),
        forall|j: int| 0 <= j < keys@.len() ==> keys@[j] <= keys@[r as int],
        forall|j: int| 0 <= j < r ==> keys@[j] < keys@[r as int],
{
    let mut best: usize = 0;
    let mut i: usize = 1;
    while i < keys.len()
        invariant
            1 <= i <= keys@.len(),
            best < i,
            forall|j: int| 0 <= j < i ==> keys@[j] <= keys@[best as int],
            forall|j: int| 0 <= j < best ==> keys@[j] < keys@[best as int],
        decreases keys@.len() - i,
    {
        if keys[i] > keys[best] {
            best = i;
        }
        i += 1;
    }
    best
}

/// A colour read back from its hex form is the colour itself.
pub proof fn lemma_hex_round_trip(c: Rgb)
    ensures
        parse_hex_spec(hex_of(c)) == Some(c),
{
    let s = hex_of(c);
    let t = s.drop_first();
    assert(s[0] == '#');
    assert(t =~= hex_byte(c.r) + hex_byte(c.g) + hex_byte(c.b));
    lemma_hex_byte(c.r);
    lemma_hex_byte(c.g);
    lemma_hex_byte(c.b);
    assert(all_hex(t)) by {
        assert(t[0] == hex_byte(c.r)[0]);
        assert(t[1] == hex_byte(c.r)[1]);
        assert(t[2] == hex_byte(c.g)[0]);
        assert(t[3] == hex_byte(c.g)[1]);
        assert(t[4] == hex_byte(c.b)[0]);
        assert(t[5] == hex_byte(c.b)[1]);
    }
    assert(byte_at(t, 0) == c.r as nat);
    assert(byte_at(t, 2) == c.g as nat);
    assert(byte_at(t, 4) == c.b as nat);
}

proof fn lemma_hex_digit(d: nat)
    requires
        d < 16,
    ensures
        hex_value(hex_char(d)) == Some(d),
{
    assert(hex_value('0') == Some(0nat));
    assert(hex_value('A') == Some(10nat));
    if d < 10 {
        assert(hex_char(d) as u32 == 48 + d) by {
            assert(hex_char(d) == seq!['0', '1', '2', '3', '4', '5', '6', '7', '8', '9', 'A', 'B', 'C', 'D', 'E', 'F'][d as int]);
        }
    } else {
        assert(hex_char(d) as u32 == 55 + d);
    }
}

proof fn lemma_hex_byte(b: u8)
    ensures
        hex_value(hex_byte(b)[0]) == Some(b as nat / 16),
        hex_value(hex_byte(b)[1]) == Some(b as nat % 16),
        (b as nat / 16) * 16 + b as nat % 16 == b as nat,
{
    lemma_hex_digit(b as nat / 16);
    lemma_hex_digit(b as nat % 16);
}

} // verus!
