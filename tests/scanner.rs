use hyfetch::scanner::{PlaceholderMatch, PlaceholderScanner};

fn scanner() -> PlaceholderScanner {
    PlaceholderScanner::new().unwrap()
}

#[test]
fn strip_removes_all_tokens() {
    let sc = scanner();
    assert_eq!(sc.strip_all("${c1}ab${c6}c${c7}d"), "abc${c7}d");
}

#[test]
fn strip_is_idempotent() {
    let sc = scanner();
    for text in ["", "plain", "${c1}a\n${c2}b", "é${c3}ü${c4}", "$ {c1}${c2}", "$${c1}{c2}", "${${c1}c1}"] {
        let once = sc.strip_all(text);
        assert_eq!(sc.strip_all(&once), once, "{text:?}");
    }
}

#[test]
fn strip_removes_tokens_that_removal_forms() {
    let sc = scanner();
    assert_eq!(sc.strip_all("${${c1}c1}"), "");
    assert_eq!(sc.strip_all("$${c1}{c1}"), "");
    assert_eq!(sc.strip_all("x$${${c2}c1}{c3}y"), "xy");
}

#[test]
fn find_all_reports_slots_and_char_positions() {
    let sc = scanner();
    let found = sc.find_all("é${c2}x${c5}${c1}");
    assert_eq!(
        found,
        vec![
            PlaceholderMatch { slot: 2, start: 1, end: 6 },
            PlaceholderMatch { slot: 5, start: 7, end: 12 },
            PlaceholderMatch { slot: 1, start: 12, end: 17 },
        ]
    );
}

#[test]
fn replace_all_uses_slot_replacements() {
    let sc = scanner();
    let reps: Vec<String> = ["one", "two", "", "four", "", "six"].iter().map(|s| s.to_string()).collect();
    assert_eq!(sc.replace_all("${c1}-${c2}-${c3}-${c6}", &reps), "one-two--six");
}
