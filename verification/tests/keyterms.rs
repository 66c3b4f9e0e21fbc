use crossterm::cursor::MoveTo;
use crossterm::style::Print;
use crossterm::QueueableCommand;
use daapstt::keyterms::{
    add, file_text, load, parse, remove, save_policy, temporary_name, validate_term, KeytermError,
    MAX_TERMS, MAX_TERM_CHARS,
};
use daapstt::menu::{
    delete_prompt, display_term, is_delete_confirmation, move_selection, render, Menu, MenuKey,
    MenuStep,
};
use daapstt::storage::FileRead;

/// A file that is kept in memory.
struct Stored {
    file: FileRead,
}

impl Stored {
    fn missing() -> Stored {
        Stored {
            file: FileRead::Missing,
        }
    }

    fn load(&self) -> Result<Vec<String>, KeytermError> {
        load(&self.file)
    }

    fn add(&mut self, term: &str) -> Result<(), KeytermError> {
        let terms = add(self.load()?, term)?;
        self.file = FileRead::Contents(file_text(&terms));
        Ok(())
    }

    fn remove(&mut self, term: &str) -> Result<(), KeytermError> {
        let terms = remove(self.load()?, term)?;
        self.file = FileRead::Contents(file_text(&terms));
        Ok(())
    }
}

fn numbered_terms(count: usize) -> Vec<String> {
    (0..count).map(|index| format!("term{index}")).collect()
}

#[test]
fn parsing_trims_ignores_empty_and_deduplicates() {
    assert_eq!(
        parse("  Rust\n\nRust\n rust \n  Wayland  \n").unwrap(),
        ["Rust", "rust", "Wayland"]
    );
}

#[test]
fn parsing_rejects_invalid_terms() {
    assert!(parse(&"é".repeat(MAX_TERM_CHARS + 1)).is_err());
    assert!(validate_term("   ").is_err());
    assert!(validate_term("first\nsecond").is_err());
}

#[test]
fn parsing_enforces_the_unique_term_cap() {
    let input = (0..=MAX_TERMS)
        .map(|index| format!("term{index}"))
        .collect::<Vec<_>>()
        .join("\n");
    assert!(parse(&input).is_err());
}

#[test]
fn mutations_persist_and_missing_files_are_empty() {
    let mut stored = Stored::missing();
    assert!(stored.load().unwrap().is_empty());
    stored.add("first").unwrap();
    stored.add("second").unwrap();
    assert!(stored.add("first").is_err());
    assert_eq!(stored.load().unwrap(), ["first", "second"]);
    stored.remove("first").unwrap();
    assert!(stored.remove("missing").is_err());
    assert_eq!(stored.load().unwrap(), ["second"]);
}

#[test]
fn adding_rejects_the_term_cap() {
    let mut stored = Stored {
        file: FileRead::Contents(file_text(&numbered_terms(MAX_TERMS))),
    };
    assert!(stored.add("one-too-many").is_err());
}

#[test]
fn selection_wraps_and_empty_lists_stay_at_zero() {
    assert_eq!(move_selection(0, 0, 1), 0);
    assert_eq!(move_selection(0, 3, -1), 2);
    assert_eq!(move_selection(2, 3, 1), 0);
}

#[test]
fn render_positions_each_row_at_the_left_edge() {
    let mut output = Vec::new();
    for line in render(&vec!["pi".to_string(), "mateo".to_string()], 0) {
        output
            .queue(MoveTo(0, line.row))
            .unwrap()
            .queue(Print(line.text))
            .unwrap();
    }
    let output = String::from_utf8(output).unwrap();
    assert!(output.contains("\x1b[1;1HKeyterms (2 of 1000)"));
    assert!(output.contains("\x1b[2;1H↑/↓ or j/k: move"));
    assert!(output.contains("\x1b[3;1H> pi"));
    assert!(output.contains("\x1b[4;1H  mateo"));
}

#[test]
fn only_y_confirms_deletion() {
    assert!(is_delete_confirmation(MenuKey::Char('y')));
    assert!(is_delete_confirmation(MenuKey::Char('Y')));
    assert!(!is_delete_confirmation(MenuKey::Char('n')));
    assert!(!is_delete_confirmation(MenuKey::Esc));
}

#[test]
fn every_refusal_names_its_reason() {
    assert_eq!(validate_term(" \t "), Err(KeytermError::Empty));
    assert_eq!(validate_term("a\rb"), Err(KeytermError::NotSingleLine));
    assert_eq!(validate_term(&"a".repeat(51)), Err(KeytermError::TooLong));
    assert_eq!(validate_term("1 2 3 4 5 6"), Err(KeytermError::TooManyWords));
    assert_eq!(validate_term("a<b"), Err(KeytermError::UnsupportedCharacters));
    assert_eq!(
        add(vec!["x".to_string()], " x "),
        Err(KeytermError::AlreadyExists)
    );
    assert_eq!(
        add(numbered_terms(MAX_TERMS), "x"),
        Err(KeytermError::LimitReached)
    );
    assert_eq!(
        parse(&numbered_terms(MAX_TERMS + 1).join("\n")),
        Err(KeytermError::LimitExceeded)
    );
    assert_eq!(remove(vec![], "x"), Err(KeytermError::NotFound));
    assert_eq!(load(&FileRead::Failed), Err(KeytermError::ReadFailed));
    assert_eq!(
        KeytermError::TooLong.message(),
        "keyterm must be at most 50 characters"
    );
}

#[test]
fn removing_undoes_adding() {
    let terms = vec!["one".to_string(), "two words".to_string()];
    let more = add(terms.clone(), " three ").unwrap();
    assert_eq!(more, ["one", "two words", "three"]);
    assert_eq!(remove(more, "three").unwrap(), terms);
}

#[test]
fn written_lists_are_read_back() {
    let terms = vec!["ElevenLabs Scribe".to_string(), "Zoë".to_string()];
    assert_eq!(file_text(&terms), "ElevenLabs Scribe\nZoë\n");
    assert_eq!(parse(&file_text(&terms)).unwrap(), terms);
    assert_eq!(file_text(&vec![]), "");
}

#[test]
fn temporary_files_are_numbered() {
    assert_eq!(temporary_name(12, 3), ".keyterms.12.3.tmp");
    assert_eq!(save_policy().names, 100);
}

#[test]
fn only_confirmed_deletions_change_the_list() {
    let mut menu = Menu::new(vec!["a".to_string(), "b".to_string()]);
    assert_eq!(menu.press(MenuKey::Down), MenuStep::Redraw);
    assert_eq!(menu.selected(), 1);
    assert_eq!(menu.press(MenuKey::Char('D')), MenuStep::AskDelete);
    assert_eq!(menu.press(MenuKey::Char('n')), MenuStep::Redraw);
    assert_eq!(*menu.terms(), ["a", "b"]);
    assert_eq!(menu.press(MenuKey::Char('D')), MenuStep::AskDelete);
    assert_eq!(menu.press(MenuKey::Char('Y')), MenuStep::Save);
    assert_eq!(*menu.terms(), ["a"]);
    assert_eq!(menu.selected(), 0);
    assert_eq!(menu.press(MenuKey::Char('d')), MenuStep::Redraw);
    assert_eq!(menu.press(MenuKey::Other), MenuStep::Redraw);
    assert_eq!(menu.press(MenuKey::Char('k')), MenuStep::Redraw);
    assert_eq!(menu.press(MenuKey::Char('q')), MenuStep::Exit);
    assert_eq!(menu.press(MenuKey::Esc), MenuStep::Exit);
}

#[test]
fn empty_lists_say_how_to_fill_them() {
    let lines = render(&vec![], 0);
    assert_eq!(lines[0].text, "Keyterms (0 of 1000)");
    assert_eq!(lines[2].row, 3);
    assert_eq!(
        lines[2].text,
        "(no keyterms; add one with: daapstt keyterms add <term>)"
    );
    let mut menu = Menu::new(vec![]);
    assert_eq!(menu.press(MenuKey::Char('D')), MenuStep::Redraw);
}

#[test]
fn terms_are_escaped_as_the_standard_library_does() {
    for term in ["plain", "tab\t", "q\"uo'te", "back\\slash", "Zoë", "\u{1b}[2J", "🍌", "\u{7f}"] {
        assert_eq!(display_term(term), term.escape_default().to_string());
    }
    assert_eq!(delete_prompt("a\"b"), "Delete \"a\\\"b\"? y to confirm: ");
}
