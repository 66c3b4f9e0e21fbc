use daapstt::placeholder::{has_placeholder, is_word_char, parse_banana_chunks, TranscriptChunk};

#[test]
fn parses_case_insensitive_tokens_in_order() {
    assert_eq!(
        parse_banana_chunks("BANANA, banana! (BaNaNa)"),
        vec![
            TranscriptChunk::ClipboardPlaceholder,
            TranscriptChunk::Literal(", "),
            TranscriptChunk::ClipboardPlaceholder,
            TranscriptChunk::Literal("! ("),
            TranscriptChunk::ClipboardPlaceholder,
            TranscriptChunk::Literal(")"),
        ]
    );
}

#[test]
fn preserves_multiple_literals_and_multiline_order() {
    assert_eq!(
        parse_banana_chunks("before banana\nafter banana end"),
        vec![
            TranscriptChunk::Literal("before "),
            TranscriptChunk::ClipboardPlaceholder,
            TranscriptChunk::Literal("\nafter "),
            TranscriptChunk::ClipboardPlaceholder,
            TranscriptChunk::Literal(" end"),
        ]
    );
}

#[test]
fn leaves_nonmatching_identifiers_literal() {
    assert_eq!(
        parse_banana_chunks("bananas banana_split ébanana bananaé"),
        vec![TranscriptChunk::Literal(
            "bananas banana_split ébanana bananaé"
        )]
    );
}

#[test]
fn empty_input_has_no_chunks() {
    assert!(parse_banana_chunks("").is_empty());
}

#[test]
fn word_characters_follow_the_standard_library() {
    for code in 0..=0x10ffff_u32 {
        if let Some(c) = char::from_u32(code) {
            assert_eq!(is_word_char(c), c.is_alphanumeric() || c == '_');
        }
    }
}

#[test]
fn placeholders_are_found_among_chunks() {
    assert!(has_placeholder(&parse_banana_chunks("a banana b")));
    assert!(!has_placeholder(&parse_banana_chunks("a bananas b")));
    assert!(!has_placeholder(&parse_banana_chunks("")));
}

#[test]
fn chunks_spell_the_transcript() {
    let text = "one banana two Banana, three";
    let mut spelled = String::new();
    for chunk in parse_banana_chunks(text) {
        match chunk {
            TranscriptChunk::Literal(literal) => spelled.push_str(literal),
            TranscriptChunk::ClipboardPlaceholder => spelled.push_str("banana"),
        }
    }
    assert!(spelled.eq_ignore_ascii_case(text));
}
