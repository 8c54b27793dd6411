use hyfetch::markup::{MarkupError, MarkupRenderer};
use hyfetch::types::AnsiMode;

fn renderer() -> MarkupRenderer {
    MarkupRenderer::new().unwrap()
}

#[test]
fn codes_become_escapes() {
    let m = renderer();
    assert_eq!(m.color("&aHi&r", AnsiMode::Rgb).unwrap(), "\x1b[38;5;10mHi\x1b[0m");
    assert_eq!(m.color("a&-b", AnsiMode::Rgb).unwrap(), "a\nb");
    assert_eq!(m.color("&l&nX&L&N", AnsiMode::Ansi256).unwrap(), "\x1b[1m\x1b[4mX\x1b[22m\x1b[24m");
    assert_eq!(m.color("&z & plain", AnsiMode::Rgb).unwrap(), "&z & plain");
}

#[test]
fn resets_and_theme_colours_match_the_aligner() {
    let m = renderer();
    assert_eq!(m.color("&~&*", AnsiMode::Rgb).unwrap(), "\x1b[39m\x1b[49m");
    assert_eq!(m.color("&0", AnsiMode::Rgb).unwrap(), "\x1b[38;5;0m");
    assert_eq!(m.color("&f", AnsiMode::Ansi256).unwrap(), "\x1b[38;5;15m");
}

#[test]
fn explicit_colours() {
    let m = renderer();
    assert_eq!(m.color("&gf(#ff0000)x", AnsiMode::Rgb).unwrap(), "\x1b[38;2;255;0;0mx");
    assert_eq!(m.color("&gb(1, 2;3)y", AnsiMode::Rgb).unwrap(), "\x1b[48;2;1;2;3my");
    assert_eq!(m.color("&gb(1, 2;3)y", AnsiMode::Ansi256).unwrap(), "\x1b[48;5;16my");
    assert_eq!(m.color("&gf(0,0,255)&r", AnsiMode::Rgb).unwrap(), "\x1b[38;2;0;0;255m\x1b[0m");
}

#[test]
fn explicit_colour_errors() {
    let m = renderer();
    assert_eq!(m.color("&gf(#fff", AnsiMode::Rgb).unwrap_err(), MarkupError::MissingClosingParen);
    assert_eq!(m.color("&gf(1,2)", AnsiMode::Rgb).unwrap_err(), MarkupError::InvalidColor);
    assert_eq!(m.color("&gf(256,0,0)", AnsiMode::Rgb).unwrap_err(), MarkupError::InvalidColor);
    assert_eq!(m.color("&gb(#12345)", AnsiMode::Rgb).unwrap_err(), MarkupError::InvalidColor);
}
