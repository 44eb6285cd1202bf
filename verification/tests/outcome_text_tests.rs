use jpg_cleanup::outcome::{classify_deletion, render_outcome, Outcome};
use jpg_cleanup::text::{contains_substring, trim_spaces};

#[test]
fn successful_exit_is_deleted() {
    let o = classify_deletion(true, true, String::new());
    assert!(matches!(o, Outcome::Deleted));
}

#[test]
fn not_found_signature_is_recognized() {
    let diagnostic = "execution error: Finder got an error: AppleEvent handler failed. (29:106)";
    let o = classify_deletion(true, false, diagnostic.to_string());
    assert!(matches!(o, Outcome::NotFound));
}

#[test]
fn other_diagnostics_keep_their_text() {
    let o = classify_deletion(true, false, "permission denied".to_string());
    match o {
        Outcome::OtherFailure(m) => assert_eq!(m, "permission denied"),
        _ => panic!("expected OtherFailure"),
    }
}

#[test]
fn launch_failure_gets_the_fixed_note() {
    let o = classify_deletion(false, false, String::new());
    match o {
        Outcome::OtherFailure(m) => {
            assert_eq!(m, "could not launch the deletion automation")
        },
        _ => panic!("expected OtherFailure"),
    }
}

#[test]
fn one_not_found_and_one_deleted_in_the_same_run() {
    let first = classify_deletion(
        true,
        false,
        "Finder got an error (29:106)".to_string(),
    );
    let second = classify_deletion(true, true, String::new());
    assert!(matches!(first, Outcome::NotFound));
    assert!(matches!(second, Outcome::Deleted));
}

#[test]
fn report_lines_carry_the_file_name() {
    let deleted = render_outcome(&Outcome::Deleted, "img002.jpg");
    assert_eq!(deleted, "👍 Deleted img002.jpg");

    let missing = render_outcome(&Outcome::NotFound, "img002.jpg");
    assert_eq!(
        missing,
        "❌ Could not delete file cause couldn't find the file \"img002.jpg\""
    );

    let failed = render_outcome(
        &Outcome::OtherFailure("permission denied".to_string()),
        "img002.jpg",
    );
    assert_eq!(failed, "❌ permission denied");
}

#[test]
fn substring_search_finds_inner_matches() {
    assert!(contains_substring("error (29:106) occurred", "29:106"));
    assert!(!contains_substring("error (29:107) occurred", "29:106"));
    assert!(contains_substring("anything", ""));
    assert!(!contains_substring("short", "much longer pattern"));
    assert!(contains_substring("29:106", "29:106"));
}

#[test]
fn trim_removes_surrounding_whitespace_only() {
    assert_eq!(trim_spaces("Macintosh HD:Users:me:JPG\n"), "Macintosh HD:Users:me:JPG");
    assert_eq!(trim_spaces("  \t spaced out \r\n"), "spaced out");
    assert_eq!(trim_spaces("untouched"), "untouched");
    assert_eq!(trim_spaces(" \t\r\n"), "");
    assert_eq!(trim_spaces(""), "");
}

#[test]
fn trim_matches_std_trim_on_unicode_whitespace() {
    let inputs = [
        "\u{000B}x\u{00A0}",
        "\u{2028}\u{3000} y \u{0085}",
        "\u{1680}\u{2007}z\u{202F}\u{205F}",
        "\u{000C}",
        "inner\u{00A0}kept",
    ];
    for s in inputs {
        assert_eq!(trim_spaces(s), s.trim());
    }
}

#[test]
fn multi_line_diagnostics_report_as_one_line() {
    let failed = render_outcome(
        &Outcome::OtherFailure("line one\nline two\r\nline three\n".to_string()),
        "img002.jpg",
    );
    assert_eq!(failed, "❌ line one line two  line three");
}

#[test]
fn classification_keeps_the_raw_diagnostic() {
    let o = classify_deletion(true, false, "first\nsecond\n".to_string());
    match o {
        Outcome::OtherFailure(m) => assert_eq!(m, "first\nsecond\n"),
        _ => panic!("expected OtherFailure"),
    }
}
