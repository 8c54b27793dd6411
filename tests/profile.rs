use hyfetch::color::{first_best, Rgb, ToAnsiString};
use hyfetch::text::{lines_of, JoinResultsWithNewline, JoinWithNewline};
use hyfetch::presets::Preset;
use hyfetch::profile::{paint_clusters, ColorProfile, ProfileError};
use hyfetch::types::{AnsiMode, ForegroundBackground};

fn abc() -> (Rgb, Rgb, Rgb) {
    (Rgb::new(1, 0, 0), Rgb::new(2, 0, 0), Rgb::new(3, 0, 0))
}

#[test]
fn spread_odd_remainder_widens_centre() {
    let (a, b, c) = abc();
    let p = ColorProfile::new(vec![a, b, c]);
    assert_eq!(p.with_length(4).unwrap().colors, vec![a, b, b, c]);
}

#[test]
fn spread_even_remainder_widens_borders() {
    let (a, b, c) = abc();
    let p = ColorProfile::new(vec![a, b, c]);
    assert_eq!(p.with_length(5).unwrap().colors, vec![a, a, b, c, c]);
}

#[test]
fn spread_has_requested_length() {
    let (a, b, c) = abc();
    for colors in [vec![a], vec![a, b], vec![a, b, c], vec![a, b, c, a, b, c, a]] {
        let p = ColorProfile::new(colors.clone());
        for n in colors.len()..=255 {
            assert_eq!(p.with_length(n as u8).unwrap().colors.len(), n);
        }
    }
}

#[test]
fn spread_of_empty_profile_fails() {
    assert_eq!(ColorProfile::new(vec![]).with_length(3).unwrap_err(), ProfileError::EmptyProfile);
}

#[test]
fn weights_repeat_colours() {
    let (a, b, c) = abc();
    let p = ColorProfile::new(vec![a, b, c]);
    assert_eq!(p.with_weights(vec![2, 0, 3]).unwrap().colors, vec![a, a, c, c, c]);
    assert_eq!(p.with_weights(vec![1, 1]).unwrap_err(), ProfileError::WeightsLengthMismatch);
}

#[test]
fn unique_keeps_first_occurrences() {
    let (a, b, c) = abc();
    let p = ColorProfile::new(vec![b, a, b, c, a]);
    assert_eq!(p.unique_colors().colors, vec![b, a, c]);
}

#[test]
fn color_text_paints_each_cluster() {
    let p = ColorProfile::new(vec![Rgb::new(255, 0, 0), Rgb::new(0, 0, 255)]);
    let out = p.color_text("ab", AnsiMode::Rgb, ForegroundBackground::Background, false).unwrap();
    assert_eq!(out, "\x1b[48;2;255;0;0ma\x1b[48;2;0;0;255mb\x1b[39;49m");
    let out = p.color_text("e\u{301}x", AnsiMode::Rgb, ForegroundBackground::Foreground, false).unwrap();
    assert_eq!(out, "\x1b[38;2;255;0;0me\u{301}\x1b[38;2;0;0;255mx\x1b[39;49m");
}

#[test]
fn color_text_space_only() {
    let p = ColorProfile::new(vec![Rgb::new(1, 2, 3)]);
    let out = p.color_text(" a ", AnsiMode::Rgb, ForegroundBackground::Background, true).unwrap();
    assert_eq!(out, "\x1b[48;2;1;2;3m \x1b[39;49ma\x1b[48;2;1;2;3m \x1b[39;49m");
}

#[test]
fn color_text_too_long() {
    let p = ColorProfile::new(vec![Rgb::new(1, 2, 3)]);
    let txt = "y".repeat(256);
    assert_eq!(
        p.color_text(&txt, AnsiMode::Rgb, ForegroundBackground::Foreground, false).unwrap_err(),
        ProfileError::LengthTooLarge
    );
}

#[test]
fn hex_round_trip() {
    for c in [Rgb::new(0, 0, 0), Rgb::new(255, 255, 255), Rgb::new(0xE5, 0x8D, 0x0A), Rgb::new(16, 9, 160)] {
        let hex = c.to_hex();
        assert_eq!(Rgb::parse_hex(&hex), Some(c));
    }
    assert_eq!(Rgb::new(0xE5, 0x00, 0x0A).to_hex(), "#E5000A");
}

#[test]
fn hex_parsing() {
    assert_eq!(Rgb::parse_hex("#abcDEF"), Some(Rgb::new(0xAB, 0xCD, 0xEF)));
    assert_eq!(Rgb::parse_hex("f9e6d7"), Some(Rgb::new(0xF9, 0xE6, 0xD7)));
    assert_eq!(Rgb::parse_hex("#abc"), None);
    assert_eq!(Rgb::parse_hex("#abcdeg"), None);
    assert_eq!(Rgb::parse_hex("##abcdef"), None);
}

#[test]
fn hex_profile() {
    let p = ColorProfile::from_hex_colors(&vec!["#FF0000", "00ff00"]).unwrap();
    assert_eq!(p.colors, vec![Rgb::new(255, 0, 0), Rgb::new(0, 255, 0)]);
    assert_eq!(ColorProfile::from_hex_colors(&vec!["#FF0000", "nope", "x"]).unwrap_err(), 1);
}

#[test]
fn ansi_strings() {
    let c = Rgb::new(255, 0, 0);
    assert_eq!(c.to_ansi_string(AnsiMode::Rgb, ForegroundBackground::Foreground), "\x1b[38;2;255;0;0m");
    assert_eq!(c.to_ansi_string(AnsiMode::Rgb, ForegroundBackground::Background), "\x1b[48;2;255;0;0m");
    assert_eq!(c.to_ansi_string(AnsiMode::Ansi256, ForegroundBackground::Foreground), "\x1b[38;5;196m");
    let c = Rgb::new(95, 135, 175);
    assert_eq!(c.to_ansi_string(AnsiMode::Ansi256, ForegroundBackground::Background), "\x1b[48;5;67m");
    let c = Rgb::new(7, 42, 100);
    assert_eq!(c.to_ansi_string(AnsiMode::Rgb, ForegroundBackground::Foreground), "\x1b[38;2;7;42;100m");
}

#[test]
fn contrast_grayscale_extremes() {
    assert_eq!(Rgb::new(0, 0, 0).contrast_grayscale(), 231);
    assert_eq!(Rgb::new(255, 255, 255).contrast_grayscale(), 16);
}

#[test]
fn presets_have_colours() {
    for p in Preset::variants() {
        assert!(!p.color_profile().colors.is_empty(), "{}", p.name());
    }
    let rainbow = Preset::Rainbow.color_profile();
    assert_eq!(rainbow.colors[0], Rgb::new(0xE5, 0, 0));
    assert_eq!(rainbow.colors.len(), 6);
    let intergender = Preset::Intergender.color_profile();
    assert_eq!(intergender.colors.len(), 5);
}

#[test]
fn first_best_takes_the_earliest_maximum() {
    assert_eq!(first_best(&vec![3, 9, 2, 9, 1]), 1);
    assert_eq!(first_best(&vec![5]), 0);
    assert_eq!(first_best(&vec![1, 2, 3]), 2);
}

#[test]
fn paint_given_clusters() {
    let gs = vec![" ".to_owned(), "x".to_owned(), "y".to_owned()];
    let cs = vec![Rgb::new(1, 1, 1), Rgb::new(2, 2, 2), Rgb::new(3, 3, 3)];
    assert_eq!(
        paint_clusters(&gs, &cs, AnsiMode::Rgb, ForegroundBackground::Foreground, false),
        "\x1b[38;2;1;1;1m \x1b[38;2;2;2;2mx\x1b[38;2;3;3;3my\x1b[39;49m"
    );
    assert_eq!(
        paint_clusters(&gs, &cs, AnsiMode::Rgb, ForegroundBackground::Background, true),
        "\x1b[48;2;1;1;1m \x1b[39;49mxy\x1b[39;49m"
    );
}

#[test]
fn join_lines_with_newline() {
    let lines = lines_of("a\n\nb");
    assert_eq!(lines, vec!["a", "", "b"]);
    assert_eq!(lines.join_with_newline(), "a\n\nb");
    assert_eq!(lines_of(""), vec![""]);
}

#[test]
fn join_results_stops_at_first_error() {
    let ok: Vec<Result<String, u8>> = vec![Ok("a".to_owned()), Ok("b".to_owned())];
    assert_eq!(ok.join_results_with_newline(), Ok("a\nb".to_owned()));
    let bad: Vec<Result<String, u8>> = vec![Ok("a".to_owned()), Err(2), Err(3)];
    assert_eq!(bad.join_results_with_newline(), Err(2));
    let empty: Vec<Result<String, u8>> = vec![];
    assert_eq!(empty.join_results_with_newline(), Ok(String::new()));
}
