use daapstt::clipboard::{
    clipboard_kind, depends_on_window, paste_shortcut, select_paste_shortcut, shortcut_for,
    ClipboardKind, PasteShortcut,
};
use daapstt::deliver::{
    apply_realtime_edit, backspace_args, backspace_marker, deliver_chunks, deliver_transcript,
    paste_args, paste_clipboard, type_marker, type_text, Delivery, Keystrokes,
};
use daapstt::notify;
use daapstt::placeholder::TranscriptChunk;

fn typed(text: &str) -> Keystrokes {
    Keystrokes {
        arguments: vec!["-"],
        input: Some(text.to_string()),
    }
}

#[test]
fn image_mime_has_priority_over_kitty() {
    assert_eq!(
        select_paste_shortcut("text/plain\nimage/png\n", Some(r#"{"class":"kitty"}"#)),
        PasteShortcut::CtrlV
    );
}

#[test]
fn only_exact_kitty_class_uses_terminal_paste() {
    assert_eq!(
        select_paste_shortcut("text/plain", Some(r#"{"class":"KiTtY"}"#)),
        PasteShortcut::CtrlShiftV
    );
    assert_eq!(
        select_paste_shortcut("text/plain", Some(r#"{"class":"kitty-terminal"}"#)),
        PasteShortcut::CtrlV
    );
}

#[test]
fn invalid_or_missing_probe_data_falls_back() {
    assert_eq!(
        select_paste_shortcut("text/plain", None),
        PasteShortcut::CtrlV
    );
    assert_eq!(
        select_paste_shortcut("text/plain", Some("not json")),
        PasteShortcut::CtrlV
    );
}

#[test]
fn native_paste_command_sequences_are_exact() {
    assert_eq!(
        paste_args(PasteShortcut::CtrlV),
        ["-M", "ctrl", "-k", "v", "-m", "ctrl"]
    );
    assert_eq!(
        paste_args(PasteShortcut::CtrlShiftV),
        ["-M", "ctrl", "-M", "shift", "-k", "v", "-m", "shift", "-m", "ctrl"]
    );
}

#[test]
fn backspace_planner_repeats_one_key_per_grapheme() {
    assert_eq!(backspace_args(2), ["-k", "backspace", "-k", "backspace"]);
}

#[test]
fn window_classes_are_read_out_of_json() {
    let window = r#"{"address":"0x1","class":"kitty","size":[1,2],"nested":{"class":"x"}}"#;
    assert_eq!(
        paste_shortcut(Some("text/plain"), Some(window)),
        PasteShortcut::CtrlShiftV
    );
    for window in [r#"{"class":5}"#, r#"["class"]"#, r#"{"title":"kitty"}"#, ""] {
        assert_eq!(
            paste_shortcut(Some("text/plain"), Some(window)),
            PasteShortcut::CtrlV
        );
    }
    assert_eq!(
        paste_shortcut(None, Some(r#"{"class":"kitty"}"#)),
        PasteShortcut::CtrlV
    );
}

#[test]
fn clipboard_types_tell_images_from_text() {
    assert_eq!(clipboard_kind(None), ClipboardKind::Unknown);
    assert_eq!(clipboard_kind(Some("")), ClipboardKind::Text);
    assert_eq!(clipboard_kind(Some("text/html\r\n image/png \r\n")), ClipboardKind::Image);
    assert_eq!(clipboard_kind(Some("x-image/png")), ClipboardKind::Text);
    assert_eq!(clipboard_kind(Some("IMAGE/PNG")), ClipboardKind::Text);
    assert_eq!(shortcut_for(ClipboardKind::Image, Some("kitty")), PasteShortcut::CtrlV);
    assert_eq!(shortcut_for(ClipboardKind::Text, Some("kitty")), PasteShortcut::CtrlShiftV);
    assert!(depends_on_window(ClipboardKind::Text));
    assert!(!depends_on_window(ClipboardKind::Image));
    assert!(!depends_on_window(ClipboardKind::Unknown));
}

#[test]
fn pasted_text_is_quoted_and_images_are_spaced() {
    let paste = |shortcut| Keystrokes {
        arguments: paste_args(shortcut),
        input: None,
    };
    assert_eq!(
        paste_clipboard(Some("text/plain"), Some(r#"{"class":"kitty"}"#)),
        [typed("\""), paste(PasteShortcut::CtrlShiftV), typed("\"")]
    );
    assert_eq!(
        paste_clipboard(Some("image/png"), None),
        [typed(" "), paste(PasteShortcut::CtrlV), typed(" ")]
    );
    assert_eq!(paste_clipboard(None, None), [paste(PasteShortcut::CtrlV)]);
}

#[test]
fn edits_send_backspaces_before_text() {
    assert_eq!(apply_realtime_edit(0, ""), None);
    assert_eq!(apply_realtime_edit(0, "a"), Some(typed("a")));
    assert_eq!(
        apply_realtime_edit(1, ""),
        Some(Keystrokes {
            arguments: vec!["-k", "backspace"],
            input: None
        })
    );
    assert_eq!(
        apply_realtime_edit(1, "b"),
        Some(Keystrokes {
            arguments: vec!["-k", "backspace", "-"],
            input: Some("b".to_string())
        })
    );
}

#[test]
fn markers_and_text_are_typed_from_input() {
    assert_eq!(type_marker("§"), typed("§"));
    assert_eq!(backspace_marker().arguments, ["-k", "backspace"]);
    assert_eq!(type_text(""), None);
    assert_eq!(type_text("hi"), Some(typed("hi")));
}

#[test]
fn transcripts_are_delivered_in_order() {
    assert_eq!(
        deliver_transcript("put banana here"),
        [
            Delivery::Type("put ".to_string()),
            Delivery::Paste,
            Delivery::Type(" here".to_string()),
        ]
    );
    assert_eq!(
        deliver_transcript("no token"),
        [Delivery::Type("no token".to_string())]
    );
    assert!(deliver_transcript("").is_empty());
    assert_eq!(
        deliver_chunks(&vec![
            TranscriptChunk::Literal(""),
            TranscriptChunk::ClipboardPlaceholder
        ]),
        [Delivery::Paste]
    );
}

#[test]
fn notifications_have_their_urgency() {
    assert_eq!(
        notify::error(notify::TITLE, "text"),
        [
            "Voice daemon",
            "text",
            "--urgency=critical",
            "--expire-time=5000",
            "--app-name=voice-daemon",
            "--icon=dialog-error"
        ]
    );
    assert_eq!(
        notify::info("title", "text"),
        [
            "title",
            "text",
            "--expire-time=3000",
            "--app-name=voice-daemon",
            "--icon=dialog-information"
        ]
    );
}
