use daapstt::graphemes::grapheme_count;
use daapstt::live_text::{LiveText, LiveTextEdit};

#[test]
fn append_partial_inserts_only_new_suffix() {
    let state = LiveText::new();
    let first = state.partial("hello");
    assert_eq!(
        first.edit,
        LiveTextEdit {
            backspaces: 0,
            insert: "hello".into()
        }
    );
    // Advance state only after this edit was delivered successfully.
    let state = first.next;

    let second = state.partial("hello world");
    assert_eq!(
        second.edit,
        LiveTextEdit {
            backspaces: 0,
            insert: " world".into()
        }
    );
    assert_eq!(second.next.tail(), "hello world");
}

#[test]
fn revised_partial_replaces_only_changed_suffix() {
    let state = LiveText::new().partial("hello there").next;
    let transition = state.partial("hello world");
    assert_eq!(transition.edit.backspaces, 5);
    assert_eq!(transition.edit.insert, "world");
}

#[test]
fn edits_are_grapheme_safe_for_combining_and_emoji() {
    let combining = LiveText::new().partial("cafe\u{301}").next;
    let transition = combining.partial("café");
    assert_eq!(transition.edit.backspaces, 1);
    assert_eq!(transition.edit.insert, "é");

    let emoji = LiveText::new().partial("go 👨‍👩‍👧‍👦").next;
    let transition = emoji.partial("go 👍");
    assert_eq!(transition.edit.backspaces, 1);
    assert_eq!(transition.edit.insert, "👍");
}

#[test]
fn empty_partial_clears_the_tail() {
    let state = LiveText::new().partial("draft").next;
    let transition = state.partial("");
    assert_eq!(
        transition.edit,
        LiveTextEdit {
            backspaces: 5,
            insert: String::new()
        }
    );
    assert_eq!(transition.next.tail(), "");
    assert!(!transition.next.committed_any());
}

#[test]
fn commit_reconciles_then_makes_text_immutable() {
    let state = LiveText::new().partial("hel").next;
    let transition = state.commit("hello");
    assert_eq!(
        transition.edit,
        LiveTextEdit {
            backspaces: 0,
            insert: "lo".into()
        }
    );
    assert!(transition.next.committed_any());
    assert_eq!(transition.next.tail(), "");
}

#[test]
fn later_segments_have_exactly_one_leading_separator() {
    let state = LiveText::new().commit("first").next;
    let partial = state.partial("second");
    assert_eq!(
        partial.edit,
        LiveTextEdit {
            backspaces: 0,
            insert: " second".into()
        }
    );
    let state = partial.next;

    let commit = state.commit("second segment");
    assert_eq!(
        commit.edit,
        LiveTextEdit {
            backspaces: 0,
            insert: " segment".into()
        }
    );
    let state = commit.next;

    let next = state.commit("third");
    assert_eq!(
        next.edit,
        LiveTextEdit {
            backspaces: 0,
            insert: " third".into()
        }
    );
}

#[test]
fn committed_rewrite_replaces_only_changed_grapheme_suffix() {
    let state = LiveText::new().commit("hello 👨‍👩‍👧‍👦 banana").next;
    let transition = state.rewrite_committed("hello 👨‍👩‍👧‍👦 clipboard");
    assert_eq!(transition.edit.backspaces, 6);
    assert_eq!(transition.edit.insert, "clipboard");
    assert_eq!(transition.next.committed_text(), "hello 👨‍👩‍👧‍👦 clipboard");
}

#[test]
fn cleanup_removes_only_mutable_tail() {
    let state = LiveText::new().commit("kept").next.partial("discard").next;
    let transition = state.cleanup();
    assert_eq!(
        transition.edit,
        LiveTextEdit {
            backspaces: 8,
            insert: String::new()
        }
    );
    assert!(transition.next.committed_any());
    assert_eq!(transition.next.tail(), "");
}

#[test]
fn committing_the_shown_tail_edits_nothing() {
    let state = LiveText::new().partial("same").next;
    assert_eq!(state.commit("same").edit, LiveTextEdit::default());
}

#[test]
fn an_empty_commit_removes_the_tail_and_commits_nothing() {
    let transition = LiveText::new().partial("draft").next.commit("");
    assert_eq!(transition.edit.backspaces, 5);
    assert!(!transition.next.committed_any());
}

#[test]
fn graphemes_are_counted_as_one_backspace_each() {
    assert_eq!(grapheme_count("abc"), 3);
    assert_eq!(grapheme_count("cafe\u{301}"), 4);
    assert_eq!(grapheme_count("👨‍👩‍👧‍👦"), 1);
    assert_eq!(grapheme_count("\r\n"), 1);
    assert_eq!(grapheme_count(""), 0);
}
