use hyfetch::align::{ColorAlignment, NeofetchAsciiIndexedColor};
use hyfetch::ascii::{fill_starting, ascii_size, NormalizedAsciiArt, RawAsciiArt, RenderError};
use hyfetch::color::Rgb;
use hyfetch::profile::ColorProfile;
use hyfetch::scanner::PlaceholderScanner;
use hyfetch::types::{AnsiMode, TerminalTheme};
use indexmap::IndexMap;
use unicode_segmentation::UnicodeSegmentation;

const RESET: &str = "\x1b[39m\x1b[49m";

fn scanner() -> PlaceholderScanner {
    PlaceholderScanner::new().unwrap()
}

fn slot(v: u8) -> NeofetchAsciiIndexedColor {
    NeofetchAsciiIndexedColor::new(v).unwrap()
}

fn red() -> Rgb {
    Rgb::new(255, 0, 0)
}

fn blue() -> Rgb {
    Rgb::new(0, 0, 255)
}

fn normalize(sc: &PlaceholderScanner, asc: &str) -> NormalizedAsciiArt {
    RawAsciiArt { asc: asc.to_owned() }.to_normalized(sc).unwrap()
}

#[test]
fn horizontal_without_fore_back() {
    let sc = scanner();
    let art = normalize(&sc, "${c1}AA\n${c1}BB");
    let profile = ColorProfile::new(vec![red(), blue()]);
    let out = art
        .to_recolored(
            &sc,
            &ColorAlignment::Horizontal { fore_back: None },
            &profile,
            AnsiMode::Rgb,
            TerminalTheme::Dark,
        )
        .unwrap();
    assert_eq!(
        out.lines,
        vec![
            format!("\x1b[38;2;255;0;0mAA{RESET}"),
            format!("\x1b[38;2;0;0;255mBB{RESET}"),
        ]
    );
}

#[test]
fn horizontal_with_fore_back() {
    let sc = scanner();
    let art = normalize(&sc, "${c1}X${c2}Y\nZ");
    let profile = ColorProfile::new(vec![red(), blue()]);
    let out = art
        .to_recolored(
            &sc,
            &ColorAlignment::Horizontal { fore_back: Some((slot(1), slot(2))) },
            &profile,
            AnsiMode::Rgb,
            TerminalTheme::Dark,
        )
        .unwrap();
    assert_eq!(
        out.lines,
        vec![
            format!("\x1b[38;5;15mX\x1b[38;2;255;0;0mY{RESET}"),
            format!("\x1b[38;2;0;0;255mZ {RESET}"),
        ]
    );
}

#[test]
fn horizontal_light_theme_foreground() {
    let sc = scanner();
    let art = normalize(&sc, "${c1}X${c2}Y");
    let profile = ColorProfile::new(vec![red()]);
    let out = art
        .to_recolored(
            &sc,
            &ColorAlignment::Horizontal { fore_back: Some((slot(1), slot(2))) },
            &profile,
            AnsiMode::Rgb,
            TerminalTheme::Light,
        )
        .unwrap();
    assert_eq!(out.lines, vec![format!("\x1b[38;5;0mX\x1b[38;2;255;0;0mY{RESET}")]);
}

#[test]
fn vertical_with_fore_back() {
    let sc = scanner();
    let art = normalize(&sc, "${c2}ab${c1}cd");
    let profile = ColorProfile::new(vec![red(), blue()]);
    let out = art
        .to_recolored(
            &sc,
            &ColorAlignment::Vertical { fore_back: Some((slot(1), slot(2))) },
            &profile,
            AnsiMode::Rgb,
            TerminalTheme::Dark,
        )
        .unwrap();
    assert_eq!(
        out.lines,
        vec![format!(
            "\x1b[38;2;255;0;0ma\x1b[38;2;255;0;0mb\x1b[39;49m\x1b[38;5;15mcd{RESET}{RESET}"
        )]
    );
}

#[test]
fn vertical_columns_follow_the_spread() {
    let sc = scanner();
    let art = normalize(&sc, "${c1}ab${c2}cd");
    let profile = ColorProfile::new(vec![red(), blue()]);
    let out = art
        .to_recolored(
            &sc,
            &ColorAlignment::Vertical { fore_back: Some((slot(1), slot(2))) },
            &profile,
            AnsiMode::Rgb,
            TerminalTheme::Dark,
        )
        .unwrap();
    assert_eq!(
        out.lines,
        vec![format!(
            "\x1b[38;5;15mab{RESET}\x1b[38;2;0;0;255mc\x1b[38;2;0;0;255md\x1b[39;49m{RESET}"
        )]
    );
}

#[test]
fn vertical_without_fore_back() {
    let sc = scanner();
    let art = normalize(&sc, "${c1}ab");
    let profile = ColorProfile::new(vec![red(), blue()]);
    let out = art
        .to_recolored(
            &sc,
            &ColorAlignment::Vertical { fore_back: None },
            &profile,
            AnsiMode::Rgb,
            TerminalTheme::Dark,
        )
        .unwrap();
    assert_eq!(
        out.lines,
        vec!["\x1b[38;2;255;0;0ma\x1b[38;2;0;0;255mb\x1b[39;49m".to_owned()]
    );
}

#[test]
fn custom_alignment() {
    let sc = scanner();
    let art = normalize(&sc, "${c1}AB${c2}CD\n${c1}EF");
    let green = Rgb::new(0, 255, 0);
    let yellow = Rgb::new(255, 255, 0);
    let profile = ColorProfile::new(vec![green, yellow, green]);
    let mut colors = IndexMap::new();
    colors.insert(1u8, 0u8);
    colors.insert(2u8, 1u8);
    let out = art
        .to_recolored(&sc, &ColorAlignment::Custom { colors }, &profile, AnsiMode::Rgb, TerminalTheme::Dark)
        .unwrap();
    assert_eq!(
        out.lines,
        vec![
            format!("\x1b[38;2;0;255;0mAB\x1b[38;2;255;255;0mCD{RESET}"),
            format!("\x1b[38;2;0;255;0mEF  {RESET}"),
        ]
    );
    assert_eq!(out.lines[0].matches(RESET).count(), 1);
}

#[test]
fn custom_unmapped_slot_is_removed() {
    let sc = scanner();
    let art = normalize(&sc, "${c1}A${c3}B");
    let profile = ColorProfile::new(vec![red()]);
    let mut colors = IndexMap::new();
    colors.insert(1u8, 0u8);
    let out = art
        .to_recolored(&sc, &ColorAlignment::Custom { colors }, &profile, AnsiMode::Rgb, TerminalTheme::Dark)
        .unwrap();
    assert_eq!(out.lines, vec![format!("\x1b[38;2;255;0;0mAB{RESET}")]);
}

#[test]
fn custom_palette_index_out_of_range() {
    let sc = scanner();
    let art = normalize(&sc, "${c1}A");
    let profile = ColorProfile::new(vec![red(), red()]);
    let mut colors = IndexMap::new();
    colors.insert(1u8, 1u8);
    let out = art.to_recolored(&sc, &ColorAlignment::Custom { colors }, &profile, AnsiMode::Rgb, TerminalTheme::Dark);
    assert_eq!(out.unwrap_err(), RenderError::PaletteIndexOutOfRange { index: 1 });
}

#[test]
fn custom_invalid_slot() {
    let sc = scanner();
    let art = normalize(&sc, "${c1}A");
    let profile = ColorProfile::new(vec![red()]);
    let mut colors = IndexMap::new();
    colors.insert(7u8, 0u8);
    let out = art.to_recolored(&sc, &ColorAlignment::Custom { colors }, &profile, AnsiMode::Rgb, TerminalTheme::Dark);
    assert_eq!(out.unwrap_err(), RenderError::InvalidSlot { slot: 7 });
}

#[test]
fn fill_starting_without_previous_placeholder_fails() {
    let sc = scanner();
    let lines = vec!["  no_placeholder_here".to_owned(), "${c1}X".to_owned()];
    assert_eq!(
        fill_starting(&sc, &lines).unwrap_err(),
        RenderError::MissingStartingPlaceholder { line: 0 }
    );
    let art = normalize(&sc, "  no_placeholder_here\n${c1}X");
    let out = art.to_recolored(
        &sc,
        &ColorAlignment::Vertical { fore_back: Some((slot(1), slot(2))) },
        &ColorProfile::new(vec![red()]),
        AnsiMode::Rgb,
        TerminalTheme::Dark,
    );
    assert_eq!(out.unwrap_err(), RenderError::MissingStartingPlaceholder { line: 0 });
}

#[test]
fn fill_starting_inherits_last_placeholder() {
    let sc = scanner();
    let lines = vec!["${c1}a${c3}b".to_owned(), "cd".to_owned(), "  ${c2}e".to_owned()];
    assert_eq!(
        fill_starting(&sc, &lines).unwrap(),
        vec!["${c1}a${c3}b".to_owned(), "${c3}cd".to_owned(), "  ${c2}e".to_owned()]
    );
}

#[test]
fn fill_starting_text_before_first_placeholder_takes_previous() {
    let sc = scanner();
    let lines = vec!["${c2}a".to_owned(), "x${c1}y".to_owned()];
    assert_eq!(
        fill_starting(&sc, &lines).unwrap(),
        vec!["${c2}a".to_owned(), "${c2}x${c1}y".to_owned()]
    );
}

#[test]
fn every_line_ends_with_reset() {
    let sc = scanner();
    let art = normalize(&sc, "${c1}ab${c2}c\nd${c1}e\n${c2}fgh");
    let profile = ColorProfile::new(vec![red(), blue(), Rgb::new(1, 2, 3)]);
    let mut colors = IndexMap::new();
    colors.insert(2u8, 2u8);
    let aligns = vec![
        ColorAlignment::Horizontal { fore_back: None },
        ColorAlignment::Horizontal { fore_back: Some((slot(2), slot(1))) },
        ColorAlignment::Vertical { fore_back: None },
        ColorAlignment::Vertical { fore_back: Some((slot(2), slot(1))) },
        ColorAlignment::Custom { colors },
    ];
    for align in &aligns {
        for mode in [AnsiMode::Rgb, AnsiMode::Ansi256] {
            let out = art.to_recolored(&sc, align, &profile, mode, TerminalTheme::Light).unwrap();
            assert_eq!(out.lines.len(), 3);
            for line in &out.lines {
                assert!(line.ends_with(RESET) || line.ends_with("\x1b[39;49m"), "{align:?}: {line:?}");
            }
        }
    }
}

#[test]
fn empty_profile_cannot_spread() {
    let sc = scanner();
    let art = normalize(&sc, "${c1}ab\n${c1}cd");
    let out = art.to_recolored(
        &sc,
        &ColorAlignment::Horizontal { fore_back: None },
        &ColorProfile::new(vec![]),
        AnsiMode::Rgb,
        TerminalTheme::Dark,
    );
    assert_eq!(out.unwrap_err(), RenderError::SpreadFailed { length: 2 });
}

#[test]
fn column_past_declared_width() {
    let sc = scanner();
    let art = NormalizedAsciiArt { lines: vec!["${c2}abc".to_owned()], w: 2, h: 1 };
    let out = art.to_recolored(
        &sc,
        &ColorAlignment::Vertical { fore_back: Some((slot(1), slot(2))) },
        &ColorProfile::new(vec![red()]),
        AnsiMode::Rgb,
        TerminalTheme::Dark,
    );
    assert_eq!(out.unwrap_err(), RenderError::ColumnOutOfRange);
}

#[test]
fn empty_art_stays_empty() {
    let sc = scanner();
    let art = NormalizedAsciiArt { lines: vec![], w: 3, h: 0 };
    let out = art
        .to_recolored(
            &sc,
            &ColorAlignment::Horizontal { fore_back: None },
            &ColorProfile::new(vec![]),
            AnsiMode::Rgb,
            TerminalTheme::Dark,
        )
        .unwrap();
    assert!(out.lines.is_empty());
    assert_eq!((out.w, out.h), (0, 0));
}

#[test]
fn normalized_lines_share_one_width() {
    let sc = scanner();
    let asc = "${c1}█▀█\n${c2}a\n${c1}e\u{301}${c2}x";
    let (w, h) = ascii_size(&sc, asc).unwrap();
    assert_eq!((w, h), (3, 3));
    let art = normalize(&sc, asc);
    assert_eq!((art.w, art.h), (3, 3));
    assert_eq!(art.lines, vec!["${c1}█▀█", "${c2}a  ", "${c1}e\u{301}${c2}x "]);
    for line in &art.lines {
        let stripped = sc.strip_all(line);
        assert_eq!(stripped.graphemes(true).count(), 3);
    }
}

#[test]
fn too_wide_art_is_refused() {
    let sc = scanner();
    let asc = "x".repeat(256);
    assert!(ascii_size(&sc, &asc).is_none());
    let out = RawAsciiArt { asc }.to_normalized(&sc);
    assert_eq!(out.unwrap_err(), RenderError::TooLarge);
}

#[test]
fn recolor_ascii_joins_lines() {
    let sc = scanner();
    let out = ColorAlignment::Horizontal { fore_back: None }
        .recolor_ascii(&sc, "${c1}A\n${c1}BB", &ColorProfile::new(vec![red(), blue()]), AnsiMode::Ansi256, TerminalTheme::Dark)
        .unwrap();
    assert_eq!(out, format!("\x1b[38;5;196mA {RESET}\n\x1b[38;5;21mBB{RESET}"));
}

#[test]
fn vertical_paints_every_slot_but_the_foreground() {
    let sc = scanner();
    let art = normalize(&sc, "${c2}ab${c3}cd${c1}ef");
    let profile = ColorProfile::new(vec![red(), blue()]);
    let out = art
        .to_recolored(
            &sc,
            &ColorAlignment::Vertical { fore_back: Some((slot(1), slot(2))) },
            &profile,
            AnsiMode::Rgb,
            TerminalTheme::Dark,
        )
        .unwrap();
    assert_eq!(
        out.lines,
        vec![format!(
            "\x1b[38;2;255;0;0ma\x1b[38;2;255;0;0mb\x1b[39;49m\x1b[38;2;255;0;0mc\x1b[38;2;0;0;255md\x1b[39;49m\x1b[38;5;15mef{RESET}{RESET}"
        )]
    );
}

#[test]
fn widths_ignore_tokens_that_removal_forms() {
    let sc = scanner();
    assert_eq!(ascii_size(&sc, "$${c1}{c1}ab\n${c1}x"), Some((2, 2)));
}

#[test]
fn prepend_character_joins_the_padding() {
    let sc = scanner();
    let art = normalize(&sc, "${c1}\u{600}\n${c1}ab");
    assert_eq!(art.w, 2);
    assert_eq!(art.lines[0], "${c1}\u{600} ");
    assert_eq!(sc.strip_all(&art.lines[0]).graphemes(true).count(), 1);
}
