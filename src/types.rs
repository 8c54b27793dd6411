//! Rendering mode, terminal theme, backend choice and the colour role.

use vstd::prelude::*;
use crate::text::str_eq;

verus! {

/// How colours are written to the terminal.
#[derive(Clone, Copy, Debug, PartialEq, Eq, Hash, Structural)]
pub enum AnsiMode {
    /// 256-colour palette, each colour approximated by its nearest index.
    Ansi256,
    /// 24-bit true colour.
    Rgb,
}

/// Whether the terminal has a light or a dark background.
#[derive(Clone, Copy, Debug, PartialEq, Eq, Hash, Structural)]
pub enum TerminalTheme {
    Light,
    Dark,
}

/// The external system-information program that displays the art.
#[derive(Clone, Copy, Debug, PartialEq, Eq, Hash, Structural)]
pub enum Backend {
    Neofetch,
    Fastfetch,
}

/// Whether a colour applies to the text itself or to the cell behind it.
#[derive(Clone, Copy, Debug, PartialEq, Eq, Hash, Structural)]
pub enum ForegroundBackground {
    Foreground,
    Background,
}

/// Which way a lightness bound holds colours.
#[derive(Clone, Copy, Debug, PartialEq, Eq, Hash, Structural)]
pub enum LightnessClamp {
    /// Colours darker than the bound are raised to it.
    AtLeast,
    /// Colours lighter than the bound are lowered to it.
    AtMost,
}

/// On a dark background colours are kept bright enough, on a light one dark
/// enough.
pub open spec fn adaptive_clamp_spec(theme: TerminalTheme) -> LightnessClamp {
    match theme {
        TerminalTheme::Dark => LightnessClamp::AtLeast,
        TerminalTheme::Light => LightnessClamp::AtMost,
    }
}

/// The direction in which an adaptive lightness bound applies for a theme.
pub fn adaptive_clamp(theme: TerminalTheme) -> (r: LightnessClamp)
    ensures
        r == adaptive_clamp_spec(theme),
{
    match theme {
        TerminalTheme::Dark => LightnessClamp::AtLeast,
        TerminalTheme::Light => LightnessClamp::AtMost,
    }
}

pub open spec fn ansi_mode_name(m: AnsiMode) -> Seq<char> {
    match m {
        AnsiMode::Ansi256 => "8bit"@,
        AnsiMode::Rgb => "rgb"@,
    }
}

pub open spec fn theme_name(t: TerminalTheme) -> Seq<char> {
    match t {
        TerminalTheme::Light => "light"@,
        TerminalTheme::Dark => "dark"@,
    }
}

pub open spec fn backend_name(b: Backend) -> Seq<char> {
    match b {
        Backend::Neofetch => "neofetch"@,
        Backend::Fastfetch => "fastfetch"@,
    }
}

impl AnsiMode {
    /// All modes, in the order in which they are offered.
    pub fn variants() -> (r: Vec<AnsiMode>)
        ensures
            r@ == seq![AnsiMode::Ansi256, AnsiMode::Rgb],
    {
        vec![AnsiMode::Ansi256, AnsiMode::Rgb]
    }

    /// The configuration name of the mode.
    pub fn name(&self) -> (r: &'static str)
        ensures
            r@ == ansi_mode_name(*self),
    {
        match self {
            AnsiMode::Ansi256 => "8bit",
            AnsiMode::Rgb => "rgb",
        }
    }

    /// The mode with the given configuration name.
    pub fn from_name(s: &str) -> (r: Option<AnsiMode>)
        ensures
            r matches Some(m) ==> ansi_mode_name(m) == s@,
            r is None ==> forall|m: AnsiMode| ansi_mode_name(m) != s@,
    {
        if str_eq(s, "8bit") {
            Some(AnsiMode::Ansi256)
        } else if str_eq(s, "rgb") {
            Some(AnsiMode::Rgb)
        } else {
            proof {
                assert forall|m: AnsiMode| ansi_mode_name(m) != s@ by {
                    match m {
                        AnsiMode::Ansi256 => {},
                        AnsiMode::Rgb => {},
                    }
                }
            }
            None
        }
    }
}

impl TerminalTheme {
    /// The configuration name of the theme.
    pub fn name(&self) -> (r: &'static str)
        ensures
            r@ == theme_name(*self),
    {
        match self {
            TerminalTheme::Light => "light",
            TerminalTheme::Dark => "dark",
        }
    }

    /// The theme with the given configuration name.
    pub fn from_name(s: &str) -> (r: Option<TerminalTheme>)
        ensures
            r matches Some(t) ==> theme_name(t) == s@,
            r is None ==> forall|t: TerminalTheme| theme_name(t) != s@,
    {
        if str_eq(s, "light") {
            Some(TerminalTheme::Light)
        } else if str_eq(s, "dark") {
            Some(TerminalTheme::Dark)
        } else {
            proof {
                assert forall|t: TerminalTheme| theme_name(t) != s@ by {
                    match t {
                        TerminalTheme::Light => {},
                        TerminalTheme::Dark => {},
                    }
                }
            }
            None
        }
    }
}

impl Backend {
    /// All backends, in the order in which they are offered.
    pub fn variants() -> (r: Vec<Backend>)
        ensures
            r@ == seq![Backend::Neofetch, Backend::Fastfetch],
    {
        vec![Backend::Neofetch, Backend::Fastfetch]
    }

    /// The configuration name of the backend.
    pub fn name(&self) -> (r: &'static str)
        ensures
            r@ == backend_name(*self),
    {
        match self {
            Backend::Neofetch => "neofetch",
            Backend::Fastfetch => "fastfetch",
        }
    }

    /// The backend with the given configuration name.
    pub fn from_name(s: &str) -> (r: Option<Backend>)
        ensures
            r matches Some(b) ==> backend_name(b) == s@,
            r is None ==> forall|b: Backend| backend_name(b) != s@,
    {
        if str_eq(s, "neofetch") {
            Some(Backend::Neofetch)
        } else if str_eq(s, "fastfetch") {
            Some(Backend::Fastfetch)
        } else {
            proof {
                assert forall|b: Backend| backend_name(b) != s@ by {
                    match b {
                        Backend::Neofetch => {},
                        Backend::Fastfetch => {},
                    }
                }
            }
            None
        }
    }
}

} // verus!
