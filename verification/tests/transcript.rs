use daapstt::transcript::clean;

#[test]
fn preserves_unchanged_prose_and_short_terminal_periods() {
    assert_eq!(clean("Hello, world!"), "Hello, world!");
    assert_eq!(clean("One period."), "One period.");
    assert_eq!(clean("Two periods.."), "Two periods..");
}

#[test]
fn removes_boundary_whitespace_and_quote_wrappers() {
    assert_eq!(clean("  \"Hello\"  "), "Hello");
    assert_eq!(clean("“  Hello  ”"), "Hello");
    assert_eq!(clean("\"“Hello”\""), "Hello");
}

#[test]
fn removes_terminal_ascii_and_unicode_ellipses() {
    assert_eq!(clean("unfinished..."), "unfinished");
    assert_eq!(clean("unfinished......"), "unfinished");
    assert_eq!(clean("unfinished……"), "unfinished");
    assert_eq!(clean("unfinished...…"), "unfinished");
}

#[test]
fn removes_terminal_hyphens_and_their_preceding_space() {
    assert_eq!(clean("unfinished -"), "unfinished");
    assert_eq!(clean("unfinished---"), "unfinished");
    assert_eq!(clean("-"), "");
}

#[test]
fn cleans_combined_wrappers_and_terminal_ellipsis() {
    assert_eq!(clean("“unfinished...”"), "unfinished");
}

#[test]
fn handles_empty_and_punctuation_only_input() {
    assert_eq!(clean("   "), "");
    assert_eq!(clean("\"...\""), "");
    assert_eq!(clean("“…”"), "");
}

#[test]
fn preserves_internal_quotes_single_quotes_and_internal_ellipses() {
    assert_eq!(clean("She said \"hello\"."), "She said \"hello\".");
    assert_eq!(clean("It's a speaker's note."), "It's a speaker's note.");
    assert_eq!(clean("Wait... what happened?"), "Wait... what happened?");
}

#[test]
fn cleaning_twice_changes_nothing_more() {
    for text in ["  \"Hello\"  ", "“unfinished...”", "\"Hello\"...", "a - b -", "plain", ""] {
        let once = clean(text);
        assert_eq!(clean(&once), once);
    }
}

#[test]
fn a_quote_that_ellipses_uncover_goes_too() {
    assert_eq!(clean("abc\"..."), "abc");
    assert_eq!(clean("\"Hello\"..."), "Hello");
    assert_eq!(clean("“Hello…”\u{2026} - "), "Hello");
    assert_eq!(clean("\"Wait.\"..."), "Wait.");
    assert_eq!(clean("\"...\"...\""), "");
}

#[test]
fn a_quote_inside_the_transcript_stays() {
    assert_eq!(clean("Say \"hello\" twice..."), "Say \"hello\" twice");
    assert_eq!(clean("\"a\" and \"b\"..."), "a\" and \"b");
}
