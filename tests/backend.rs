use hyfetch::backend::{
    complete_backend, complete_mode, complete_preset, escape_backslashes, process_command_status, run,
    unescape_backslashes, CommandError,
};
use hyfetch::align::{NeofetchAsciiIndexedColor, PresetIndexedColor};
use hyfetch::types::{adaptive_clamp, AnsiMode, Backend, LightnessClamp, TerminalTheme};

#[test]
fn completions_filter_by_prefix() {
    assert_eq!(complete_mode(&"8".to_owned()), vec![("8bit".to_owned(), None)]);
    assert_eq!(complete_mode(&"".to_owned()).len(), 2);
    assert_eq!(complete_backend(&"fast".to_owned()), vec![("fastfetch".to_owned(), None)]);
    assert!(complete_backend(&"x".to_owned()).is_empty());
    let trans: Vec<String> = complete_preset(&"trans".to_owned()).into_iter().map(|(n, _)| n).collect();
    assert_eq!(trans, vec!["transgender", "transmasculine", "transfeminine"]);
    let gnc: Vec<String> = complete_preset(&"gendern".to_owned()).into_iter().map(|(n, _)| n).collect();
    assert_eq!(gnc, vec!["gendernonconforming1", "gendernonconforming2"]);
}

#[test]
fn names_round_trip() {
    assert_eq!(AnsiMode::from_name("8bit"), Some(AnsiMode::Ansi256));
    assert_eq!(AnsiMode::from_name(AnsiMode::Rgb.name()), Some(AnsiMode::Rgb));
    assert_eq!(AnsiMode::from_name("ansi"), None);
    assert_eq!(TerminalTheme::from_name("light"), Some(TerminalTheme::Light));
    assert_eq!(Backend::from_name("fastfetch"), Some(Backend::Fastfetch));
    assert_eq!(Backend::from_name("macchina"), None);
}

#[test]
fn neofetch_invocation() {
    let args = vec!["--off".to_owned()];
    let inv = run("a\\b".to_owned(), Backend::Neofetch, Some(&args));
    assert_eq!(inv.ascii_file, "a\\\\b");
    assert_eq!(inv.args_before_file, vec!["--ascii", "--source"]);
    assert_eq!(inv.args_after_file, vec!["--ascii_colors", "--off"]);
}

#[test]
fn fastfetch_invocation() {
    let inv = run("a\\b".to_owned(), Backend::Fastfetch, None);
    assert_eq!(inv.ascii_file, "a\\b");
    assert_eq!(inv.args_before_file, vec!["--file-raw"]);
    assert!(inv.args_after_file.is_empty());
}

#[test]
fn backslash_escaping() {
    assert_eq!(escape_backslashes("\\x\\\\"), "\\\\x\\\\\\\\");
    assert_eq!(unescape_backslashes("\\\\x\\\\\\"), "\\x\\\\");
    assert_eq!(unescape_backslashes(&escape_backslashes("a\\b\\\\c")), "a\\b\\\\c");
}

#[test]
fn command_status() {
    assert_eq!(process_command_status(true, Some(0), None), Ok(()));
    assert_eq!(process_command_status(false, Some(2), None), Err(CommandError::ExitCode(2)));
    assert_eq!(process_command_status(false, None, Some(9)), Err(CommandError::Signal(9)));
    assert_eq!(process_command_status(false, None, None), Err(CommandError::NoStatus));
}

#[test]
fn slot_and_palette_index_parsing() {
    assert_eq!(NeofetchAsciiIndexedColor::parse("3").map(|c| c.get()), Some(3));
    assert!(NeofetchAsciiIndexedColor::parse("0").is_none());
    assert!(NeofetchAsciiIndexedColor::parse("7").is_none());
    assert!(NeofetchAsciiIndexedColor::parse("x").is_none());
    assert!(NeofetchAsciiIndexedColor::new(6).is_some());
    assert_eq!(PresetIndexedColor::parse("255"), Some(PresetIndexedColor(255)));
    assert_eq!(PresetIndexedColor::parse("007"), Some(PresetIndexedColor(7)));
    assert_eq!(PresetIndexedColor::parse("256"), None);
    assert_eq!(PresetIndexedColor::parse(""), None);
}

#[test]
fn adaptive_lightness_direction() {
    assert_eq!(adaptive_clamp(TerminalTheme::Dark), LightnessClamp::AtLeast);
    assert_eq!(adaptive_clamp(TerminalTheme::Light), LightnessClamp::AtMost);
}
