//! Parsing of the `banana` dictation placeholder.

use crate::text;
use vstd::prelude::*;

verus! {

/// An ordered portion of a transcript to deliver.
#[derive(Clone, Debug, Eq, PartialEq)]
pub enum TranscriptChunk<'a> {
    Literal(&'a str),
    ClipboardPlaceholder,
}

/// What a [`TranscriptChunk`] stands for.
pub enum ChunkView {
    Literal(Seq<char>),
    ClipboardPlaceholder,
}

impl<'a> View for TranscriptChunk<'a> {
    type V = ChunkView;

    open spec fn view(&self) -> ChunkView {
        match *self {
            TranscriptChunk::Literal(text) => ChunkView::Literal(text@),
            TranscriptChunk::ClipboardPlaceholder => ChunkView::ClipboardPlaceholder,
        }
    }
}

/// What a list of chunks stands for.
pub open spec fn chunk_views(chunks: Seq<TranscriptChunk<'_>>) -> Seq<ChunkView> {
    Seq::new(chunks.len(), |i: int| chunks[i]@)
}

/// Whether `char::is_alphanumeric` holds of a character.
pub uninterp spec fn alphanumeric(c: char) -> bool;

/// Whether `c` is an ASCII letter or digit.
pub open spec fn ascii_alphanumeric(c: char) -> bool {
    'a' <= c <= 'z' || 'A' <= c <= 'Z' || '0' <= c <= '9'
}

/// Whether `c` can be part of a word: a letter or digit of any script, or an
/// underscore.
pub open spec fn word_char(c: char) -> bool {
    ||| c == '_'
    ||| if c <= '\u{7f}' {
        ascii_alphanumeric(c)
    } else {
        alphanumeric(c)
    }
}

/// The word that stands for the clipboard.
pub open spec fn token() -> Seq<char> {
    seq!['b', 'a', 'n', 'a', 'n', 'a']
}

/// Whether a standalone token begins at character `at`: the word in any ASCII
/// case, with no word character on either side.
pub open spec fn token_at(text: Seq<char>, at: int) -> bool {
    &&& 0 <= at
    &&& at + token().len() <= text.len()
    &&& text::same_ignoring_ascii_case(text.subrange(at, at + token().len()), token())
    &&& at == 0 || !word_char(text[at - 1])
    &&& at + token().len() == text.len() || !word_char(text[at + token().len()])
}

/// The first position from `from` on where a standalone token begins.
pub open spec fn next_token(text: Seq<char>, from: int) -> Option<int>
    decreases text.len() - from,
{
    if from >= text.len() {
        None
    } else if token_at(text, from) {
        Some(from)
    } else {
        next_token(text, from + 1)
    }
}

/// `text` from `from` to `to` as one literal chunk, or nothing if it is empty.
pub open spec fn literal(text: Seq<char>, from: int, to: int) -> Seq<ChunkView> {
    if from < to {
        seq![ChunkView::Literal(text.subrange(from, to))]
    } else {
        Seq::empty()
    }
}

/// The chunks of `text` from `from` on.
pub open spec fn chunks_from(text: Seq<char>, from: int) -> Seq<ChunkView>
    decreases text.len() - from,
    via chunks_from_decreases
{
    match next_token(text, from) {
        None => literal(text, from, text.len() as int),
        Some(at) => literal(text, from, at) + seq![ChunkView::ClipboardPlaceholder]
            + chunks_from(text, at + token().len()),
    }
}

#[via_fn]
proof fn chunks_from_decreases(text: Seq<char>, from: int) {
    lemma_next_token(text, from);
}

/// The chunks of a transcript.
pub open spec fn chunks(text: Seq<char>) -> Seq<ChunkView> {
    chunks_from(text, 0)
}

/// What `next_token` finds is the first token from `from` on.
pub proof fn lemma_next_token(text: Seq<char>, from: int)
    ensures
        match next_token(text, from) {
            None => forall|i: int| from <= i ==> !token_at(text, i),
            Some(at) => {
                &&& from <= at
                &&& token_at(text, at)
                &&& forall|i: int| from <= i < at ==> !token_at(text, i)
            },
        },
    decreases text.len() - from,
{
    if from < text.len() && !token_at(text, from) {
        lemma_next_token(text, from + 1);
    }
}

/// `char::is_alphanumeric`: of the ASCII characters it holds exactly for the
/// letters and digits.
#[verifier::external_body]
fn is_alphanumeric(c: char) -> (res: bool)
    ensures
        res == alphanumeric(c),
        c <= '\u{7f}' ==> res == ascii_alphanumeric(c),
{
    c.is_alphanumeric()
}

/// Whether `ch` can be part of a word.
pub fn is_word_char(ch: char) -> (res: bool)
    ensures
        res == word_char(ch),
{
    is_alphanumeric(ch) || ch == '_'
}

/// Whether a word character stands just before `index`.
fn previous_is_word_char(text: &Vec<char>, index: usize) -> (res: bool)
    requires
        index <= text@.len(),
    ensures
        res == (index > 0 && word_char(text@[index - 1])),
{
    index > 0 && is_word_char(text[index - 1])
}

/// Whether a word character stands at `index`.
fn next_is_word_char(text: &Vec<char>, index: usize) -> (res: bool)
    requires
        index <= text@.len(),
    ensures
        res == (index < text@.len() && word_char(text@[index as int])),
{
    index < text.len() && is_word_char(text[index])
}

/// The first position from `from` on where a standalone token begins.
fn find_banana(text: &Vec<char>, from: usize) -> (res: Option<usize>)
    requires
        from <= text@.len(),
    ensures
        match res {
            None => next_token(text@, from as int) is None,
            Some(at) => next_token(text@, from as int) == Some(at as int),
        },
{
    let word: Vec<char> = vec!['b', 'a', 'n', 'a', 'n', 'a'];
    assert(word@ == token());
    let mut start: usize = from;
    while start < text.len() && text.len() - start >= 6
        invariant
            from <= start <= text@.len(),
            word@ == token(),
            next_token(text@, from as int) == next_token(text@, start as int),
        decreases text@.len() - start,
    {
        if text::matches_at_ignoring_ascii_case(text, start, &word) && !previous_is_word_char(
            text,
            start,
        ) && !next_is_word_char(text, start + 6) {
            assert(token_at(text@, start as int));
            return Some(start);
        }
        assert(!token_at(text@, start as int));
        start = start + 1;
    }
    proof {
        lemma_next_token(text@, start as int);
        if let Some(at) = next_token(text@, start as int) {
            assert(token_at(text@, at));
        }
    }
    None
}

/// Splits standalone ASCII `banana` tokens into literal and clipboard chunks.
///
/// Matching is case-insensitive. Unicode alphanumeric characters and
/// underscores are word characters, so a token embedded in an identifier is
/// left literal.
pub fn parse_banana_chunks<'a>(text: &'a str) -> (res: Vec<TranscriptChunk<'a>>)
    ensures
        chunk_views(res@) == chunks(text@),
{
    let chars = text::to_chars(text);
    let count: usize = chars.len();
    let mut result: Vec<TranscriptChunk<'a>> = Vec::new();
    let mut cursor: usize = 0;
    loop
        invariant
            cursor <= chars@.len(),
            count == chars@.len(),
            chars@ == text@,
            chunks(text@) == chunk_views(result@) + chunks_from(text@, cursor as int),
        decreases chars@.len() - cursor,
    {
        let ghost before = chunk_views(result@);
        let found = find_banana(&chars, cursor);
        proof {
            lemma_next_token(text@, cursor as int);
        }
        let end: usize = match found {
            Some(start) => start,
            None => chars.len(),
        };
        if cursor < end {
            let part: &'a str = text.substring_char(cursor, end);
            result.push(TranscriptChunk::Literal(part));
        }
        assert(chunk_views(result@) == before + literal(text@, cursor as int, end as int));
        if found.is_none() {
            return result;
        }
        result.push(TranscriptChunk::ClipboardPlaceholder);
        assert(chunk_views(result@) == before + (literal(text@, cursor as int, end as int)
            + seq![ChunkView::ClipboardPlaceholder]));
        cursor = end + 6;
        assert(chunks(text@) == chunk_views(result@) + chunks_from(text@, cursor as int));
    }
}

/// Whether any of the chunks stands for the clipboard.
pub fn has_placeholder(chunks: &Vec<TranscriptChunk<'_>>) -> (res: bool)
    ensures
        res == chunk_views(chunks@).contains(ChunkView::ClipboardPlaceholder),
{
    let ghost shown = chunk_views(chunks@);
    let mut i: usize = 0;
    while i < chunks.len()
        invariant
            i <= chunks@.len(),
            shown == chunk_views(chunks@),
            forall|j: int| 0 <= j < i ==> #[trigger] shown[j] != ChunkView::ClipboardPlaceholder,
        decreases chunks@.len() - i,
    {
        assert(shown[i as int] == chunks@[i as int]@);
        match &chunks[i] {
            TranscriptChunk::ClipboardPlaceholder => {
                return true;
            },
            TranscriptChunk::Literal(_) => {},
        }
        i = i + 1;
    }
    false
}

/// The text that chunks stand for when every placeholder is spelled out.
pub open spec fn spelled(chunks: Seq<ChunkView>) -> Seq<char>
    decreases chunks.len(),
{
    if chunks.len() == 0 {
        Seq::empty()
    } else {
        (match chunks[0] {
            ChunkView::Literal(text) => text,
            ChunkView::ClipboardPlaceholder => token(),
        }) + spelled(chunks.drop_first())
    }
}

/// The number of standalone tokens that begin at `from` or later.
pub open spec fn token_count(text: Seq<char>, from: int) -> nat
    decreases text.len() - from,
{
    if from >= text.len() {
        0
    } else if token_at(text, from) {
        1 + token_count(text, from + 1)
    } else {
        token_count(text, from + 1)
    }
}

/// The number of placeholders among the chunks.
pub open spec fn placeholder_count(chunks: Seq<ChunkView>) -> nat
    decreases chunks.len(),
{
    if chunks.len() == 0 {
        0
    } else {
        (if chunks[0] is ClipboardPlaceholder {
            1nat
        } else {
            0nat
        }) + placeholder_count(chunks.drop_first())
    }
}

/// Chunks have a placeholder exactly when they count one.
pub proof fn lemma_placeholder_count(chunks: Seq<ChunkView>)
    ensures
        placeholder_count(chunks) > 0 <==> chunks.contains(ChunkView::ClipboardPlaceholder),
    decreases chunks.len(),
{
    let mark = ChunkView::ClipboardPlaceholder;
    if chunks.len() > 0 {
        let rest = chunks.drop_first();
        lemma_placeholder_count(rest);
        if rest.contains(mark) {
            let i = choose|i: int| 0 <= i < rest.len() && rest[i] == mark;
            assert(chunks[i + 1] == mark);
        }
        if chunks.contains(mark) && chunks[0] != mark {
            let i = choose|i: int| 0 <= i < chunks.len() && chunks[i] == mark;
            assert(rest[i - 1] == mark);
        }
    }
}

proof fn lemma_spelled_concat(a: Seq<ChunkView>, b: Seq<ChunkView>)
    ensures
        spelled(a + b) == spelled(a) + spelled(b),
        placeholder_count(a + b) == placeholder_count(a) + placeholder_count(b),
    decreases a.len(),
{
    if a.len() == 0 {
        assert(a + b == b);
    } else {
        lemma_spelled_concat(a.drop_first(), b);
        assert((a + b).drop_first() == a.drop_first() + b);
    }
}

proof fn lemma_literal(text: Seq<char>, from: int, to: int)
    requires
        0 <= from <= to <= text.len(),
    ensures
        spelled(literal(text, from, to)) == text.subrange(from, to),
        placeholder_count(literal(text, from, to)) == 0,
{
    let part = literal(text, from, to);
    if from < to {
        assert(part.drop_first() == Seq::<ChunkView>::empty());
        assert(spelled(part.drop_first()) == Seq::<char>::empty());
        assert(spelled(part) == text.subrange(from, to) + spelled(part.drop_first()));
        assert(placeholder_count(part) == placeholder_count(part.drop_first()));
    }
}

proof fn lemma_chunks_from_spelled(text: Seq<char>, from: int)
    requires
        0 <= from <= text.len(),
    ensures
        text::same_ignoring_ascii_case(
            spelled(chunks_from(text, from)),
            text.subrange(from, text.len() as int),
        ),
    decreases text.len() - from,
{
    lemma_next_token(text, from);
    match next_token(text, from) {
        None => {
            lemma_literal(text, from, text.len() as int);
        },
        Some(at) => {
            let n = token().len() as int;
            let mark = seq![ChunkView::ClipboardPlaceholder];
            let rest = chunks_from(text, at + n);
            lemma_literal(text, from, at);
            lemma_chunks_from_spelled(text, at + n);
            lemma_spelled_concat(literal(text, from, at), mark);
            lemma_spelled_concat(literal(text, from, at) + mark, rest);
            assert(mark.drop_first() == Seq::<ChunkView>::empty());
            assert(spelled(mark.drop_first()) == Seq::<char>::empty());
            assert(spelled(mark) == token() + spelled(mark.drop_first()));
            let whole = spelled(chunks_from(text, from));
            let part = text.subrange(from, text.len() as int);
            assert(whole == text.subrange(from, at) + token() + spelled(rest));
            let word = text.subrange(at, at + n);
            let after = text.subrange(at + n, text.len() as int);
            assert(whole.len() == part.len());
            assert forall|i: int| 0 <= i < whole.len() implies text::ascii_lower(
                #[trigger] whole[i],
            ) == text::ascii_lower(part[i]) by {
                if i < at - from {
                    assert(whole[i] == part[i]);
                } else if i < at - from + n {
                    assert(whole[i] == token()[i - (at - from)]);
                    assert(part[i] == word[i - (at - from)]);
                } else {
                    assert(whole[i] == spelled(rest)[i - (at - from) - n]);
                    assert(part[i] == after[i - (at - from) - n]);
                }
            }
        },
    }
}

/// Splitting loses nothing: with every placeholder spelled out again, the chunks
/// read as the transcript does, up to the case of the tokens.
pub proof fn law_chunks_cover_the_text(text: Seq<char>)
    ensures
        text::same_ignoring_ascii_case(spelled(chunks(text)), text),
{
    lemma_chunks_from_spelled(text, 0);
    assert(text.subrange(0, text.len() as int) == text);
}

proof fn lemma_tokens_do_not_overlap(text: Seq<char>, at: int, other: int)
    requires
        token_at(text, at),
        at < other < at + token().len(),
    ensures
        !token_at(text, other),
{
    let word = text.subrange(at, at + token().len());
    let i = other - at - 1;
    assert(word[i] == text[other - 1]);
    assert(text::ascii_lower(word[i]) == text::ascii_lower(token()[i]));
    assert(word_char(text[other - 1]));
}

proof fn lemma_token_count_skip(text: Seq<char>, from: int, to: int)
    requires
        from <= to,
        forall|i: int| from <= i < to ==> !token_at(text, i),
    ensures
        token_count(text, from) == token_count(text, to),
    decreases to - from,
{
    if from < to {
        lemma_token_count_skip(text, from + 1, to);
    }
}

proof fn lemma_chunks_from_count(text: Seq<char>, from: int)
    requires
        0 <= from <= text.len(),
    ensures
        placeholder_count(chunks_from(text, from)) == token_count(text, from),
    decreases text.len() - from,
{
    lemma_next_token(text, from);
    match next_token(text, from) {
        None => {
            lemma_literal(text, from, text.len() as int);
            lemma_token_count_skip(text, from, text.len() as int);
        },
        Some(at) => {
            let n = token().len() as int;
            let mark = seq![ChunkView::ClipboardPlaceholder];
            lemma_literal(text, from, at);
            lemma_chunks_from_count(text, at + n);
            lemma_spelled_concat(literal(text, from, at), mark);
            lemma_spelled_concat(literal(text, from, at) + mark, chunks_from(text, at + n));
            assert(placeholder_count(mark) == 1 + placeholder_count(mark.drop_first()));
            lemma_token_count_skip(text, from, at);
            assert forall|i: int| at + 1 <= i < at + n implies !token_at(text, i) by {
                lemma_tokens_do_not_overlap(text, at, i);
            }
            lemma_token_count_skip(text, at + 1, at + n);
        },
    }
}

/// Every standalone token is recognized, and nothing else: there are as many
/// placeholders as there are tokens in the transcript.
pub proof fn law_every_token_is_a_placeholder(text: Seq<char>)
    ensures
        placeholder_count(chunks(text)) == token_count(text, 0),
{
    lemma_chunks_from_count(text, 0);
}

/// A transcript without a standalone token is one literal chunk, and an empty
/// transcript has no chunks at all.
pub proof fn law_text_without_token_is_literal(text: Seq<char>)
    requires
        forall|i: int| !token_at(text, i),
    ensures
        chunks(text) == literal(text, 0, text.len() as int),
        text.len() == 0 ==> chunks(text).len() == 0,
{
    lemma_next_token(text, 0);
}

/// How many characters of a transcript a chunk stands for.
pub open spec fn width(chunk: ChunkView) -> nat {
    match chunk {
        ChunkView::Literal(text) => text.len(),
        ChunkView::ClipboardPlaceholder => 6,
    }
}

/// Where in the transcript the chunk with the given number begins.
pub open spec fn offset(chunks: Seq<ChunkView>, number: int) -> int
    decreases number,
{
    if number <= 0 {
        0
    } else {
        offset(chunks, number - 1) + width(chunks[number - 1])
    }
}

/// Whether a text is the word `banana`, each letter in either case.
pub open spec fn reads_banana(word: Seq<char>) -> bool {
    &&& word.len() == 6
    &&& word[0] == 'b' || word[0] == 'B'
    &&& word[1] == 'a' || word[1] == 'A'
    &&& word[2] == 'n' || word[2] == 'N'
    &&& word[3] == 'a' || word[3] == 'A'
    &&& word[4] == 'n' || word[4] == 'N'
    &&& word[5] == 'a' || word[5] == 'A'
}

/// Whether a character ends a word: it is no underscore, and neither an ASCII
/// letter or digit nor, beyond ASCII, alphanumeric. Every punctuation mark and
/// every space is one.
pub open spec fn ends_words(c: char) -> bool {
    &&& c != '_'
    &&& c as u32 <= 127 ==> !(48 <= c as u32 <= 57 || 65 <= c as u32 <= 90 || 97 <= c as u32
        <= 122)
    &&& c as u32 > 127 ==> !alphanumeric(c)
}

/// Whether the six characters at `at` are the word `banana` on its own.
pub open spec fn banana_at(text: Seq<char>, at: int) -> bool {
    &&& 0 <= at <= text.len() - 6
    &&& reads_banana(text.subrange(at, at + 6))
    &&& at > 0 ==> ends_words(text[at - 1])
    &&& at + 6 < text.len() ==> ends_words(text[at + 6])
}

proof fn lemma_ends_words(c: char)
    ensures
        ends_words(c) == !word_char(c),
{
}

proof fn lemma_banana_at(text: Seq<char>, at: int)
    ensures
        banana_at(text, at) <==> token_at(text, at),
{
    assert(token().len() == 6);
    if 0 <= at <= text.len() - 6 {
        let word = text.subrange(at, at + 6);
        text::law_ascii_case(word, token());
        lemma_ends_words(text[at - 1]);
        lemma_ends_words(text[at + 6]);
        assert(text::same_ignoring_ascii_case(word, token()) <==> reads_banana(word)) by {
            if text::same_ignoring_ascii_case(word, token()) {
                assert(word[0] == token()[0] || word[0] as u32 == 66);
                assert(word[1] == token()[1] || word[1] as u32 == 65);
                assert(word[2] == token()[2] || word[2] as u32 == 78);
                assert(word[3] == token()[3] || word[3] as u32 == 65);
                assert(word[4] == token()[4] || word[4] as u32 == 78);
                assert(word[5] == token()[5] || word[5] as u32 == 65);
            }
            if reads_banana(word) {
                assert forall|i: int| 0 <= i < 6 implies text::ascii_lower(#[trigger] word[i])
                    == text::ascii_lower(token()[i]) by {
                    assert(i == 0 || i == 1 || i == 2 || i == 3 || i == 4 || i == 5);
                }
            }
        }
    }
}

/// Whether the chunk with the given number is rightly what it is: a literal is the
/// part of the transcript where it stands, and is not empty; a placeholder stands
/// for the word on its own.
pub open spec fn rightly_placed(text: Seq<char>, from: int, chunks: Seq<ChunkView>, number: int) -> bool {
    let at = from + offset(chunks, number);
    match chunks[number] {
        ChunkView::Literal(part) => part.len() > 0 && at + part.len() <= text.len() && part
            == text.subrange(at, at + part.len()),
        ChunkView::ClipboardPlaceholder => banana_at(text, at),
    }
}

proof fn lemma_offset_of_joined(a: Seq<ChunkView>, b: Seq<ChunkView>, number: int)
    requires
        0 <= number <= b.len(),
    ensures
        offset(a + b, a.len() + number) == offset(a, a.len() as int) + offset(b, number),
    decreases number,
{
    if number > 0 {
        lemma_offset_of_joined(a, b, number - 1);
        assert((a + b)[a.len() + number - 1] == b[number - 1]);
    } else {
        lemma_offset_of_prefix(a, b, a.len() as int);
    }
}

proof fn lemma_offset_of_prefix(a: Seq<ChunkView>, b: Seq<ChunkView>, number: int)
    requires
        0 <= number <= a.len(),
    ensures
        offset(a + b, number) == offset(a, number),
    decreases number,
{
    if number > 0 {
        lemma_offset_of_prefix(a, b, number - 1);
        assert((a + b)[number - 1] == a[number - 1]);
    }
}

/// The chunks before the first token from `from` on, and its placeholder.
proof fn lemma_head(text: Seq<char>, from: int, at: int) -> (head: Seq<ChunkView>)
    requires
        0 <= from <= at,
        banana_at(text, at),
    ensures
        head == literal(text, from, at) + seq![ChunkView::ClipboardPlaceholder],
        offset(head, head.len() as int) == at + 6 - from,
        offset(head, head.len() - 1) == at - from,
        head.last() is ClipboardPlaceholder,
        forall|k: int| 0 <= k < head.len() ==> rightly_placed(text, from, head, k),
        head.len() == (if from < at {
            2int
        } else {
            1int
        }),
        from < at ==> head[0] is Literal,
{
    let head = literal(text, from, at) + seq![ChunkView::ClipboardPlaceholder];
    if from < at {
        assert(head.len() == 2);
        assert(head[0] == ChunkView::Literal(text.subrange(from, at)));
        assert(head[1] is ClipboardPlaceholder);
        assert(offset(head, 0) == 0);
        assert(offset(head, 1) == at - from);
        assert(offset(head, 2) == at + 6 - from);
    } else {
        assert(head.len() == 1);
        assert(head[0] is ClipboardPlaceholder);
        assert(offset(head, 0) == 0);
        assert(offset(head, 1) == 6);
    }
    head
}

proof fn lemma_chunks_from_right(text: Seq<char>, from: int)
    requires
        0 <= from <= text.len(),
    ensures
        ({
            let all = chunks_from(text, from);
            &&& offset(all, all.len() as int) == text.len() - from
            &&& forall|k: int| 0 <= k < all.len() ==> #[trigger] rightly_placed(text, from, all, k)
            &&& forall|k: int|
                0 < k < all.len() ==> !(#[trigger] all[k] is Literal) || !(all[k - 1] is Literal)
            &&& forall|at: int|
                from <= at && #[trigger] banana_at(text, at) ==> placeholder_stands(
                    all,
                    at - from,
                )
        }),
    decreases text.len() - from,
{
    let all = chunks_from(text, from);
    lemma_next_token(text, from);
    match next_token(text, from) {
        None => {
            if from < text.len() {
                assert(all.len() == 1);
                assert(offset(all, 0) == 0);
                assert(offset(all, 1) == text.len() - from);
            }
            assert forall|at: int| from <= at && #[trigger] banana_at(text, at) implies
                placeholder_stands(all, at - from) by {
                lemma_banana_at(text, at);
            }
        },
        Some(first) => {
            lemma_banana_at(text, first);
            let head = lemma_head(text, from, first);
            let rest = chunks_from(text, first + 6);
            assert(token().len() == 6);
            assert(all == head + rest);
            lemma_chunks_from_right(text, first + 6);
            let n = head.len() as int;
            lemma_offset_of_joined(head, rest, rest.len() as int);
            assert forall|k: int| 0 <= k < all.len() implies #[trigger] rightly_placed(
                text,
                from,
                all,
                k,
            ) by {
                if k < n {
                    lemma_offset_of_prefix(head, rest, k);
                    assert(all[k] == head[k]);
                    assert(rightly_placed(text, from, head, k));
                } else {
                    lemma_offset_of_joined(head, rest, k - n);
                    assert(all[k] == rest[k - n]);
                    assert(rightly_placed(text, first + 6, rest, k - n));
                }
            }
            assert forall|k: int| 0 < k < all.len() implies !(#[trigger] all[k] is Literal) || !(
            all[k - 1] is Literal) by {
                if k < n {
                    assert(all[k] == head[k]);
                } else if k == n {
                    assert(all[k - 1] == head[n - 1]);
                } else {
                    assert(all[k] == rest[k - n]);
                    assert(all[k - 1] == rest[k - n - 1]);
                }
            }
            assert forall|at: int| from <= at && #[trigger] banana_at(text, at) implies
                placeholder_stands(all, at - from) by {
                lemma_banana_at(text, at);
                if at == first {
                    lemma_offset_of_prefix(head, rest, n - 1);
                    assert(all[n - 1] == head[n - 1]);
                    assert(stands_at(all, n - 1, at - from));
                } else {
                    if at < first + 6 {
                        lemma_tokens_do_not_overlap(text, first, at);
                    }
                    let later = at - (first + 6);
                    assert(placeholder_stands(rest, later));
                    let k = choose|k: int| #[trigger] stands_at(rest, k, later);
                    lemma_offset_of_joined(head, rest, k);
                    assert(all[n + k] == rest[k]);
                    assert(stands_at(all, n + k, at - from));
                }
            }
        },
    }
}

/// Whether the chunk with the given number is a placeholder that begins at
/// character `at`.
pub open spec fn stands_at(chunks: Seq<ChunkView>, number: int, at: int) -> bool {
    &&& 0 <= number < chunks.len()
    &&& chunks[number] is ClipboardPlaceholder
    &&& offset(chunks, number) == at
}

/// Whether a placeholder stands among the chunks for the word at character `at`.
pub open spec fn placeholder_stands(chunks: Seq<ChunkView>, at: int) -> bool {
    exists|number: int| #[trigger] stands_at(chunks, number, at)
}

/// Every `banana` is recognized, in any case, wherever it stands on its own: at
/// either end of the transcript, next to a space or next to any punctuation mark.
/// A placeholder stands in its place.
pub proof fn law_every_banana_is_recognized(before: Seq<char>, word: Seq<char>, after: Seq<char>)
    requires
        reads_banana(word),
        before.len() > 0 ==> ends_words(before.last()),
        after.len() > 0 ==> ends_words(after[0]),
    ensures
        placeholder_stands(chunks(before + word + after), before.len() as int),
{
    let text = before + word + after;
    let at = before.len() as int;
    assert(text.subrange(at, at + 6) == word);
    assert(at > 0 ==> text[at - 1] == before.last());
    assert(at + 6 < text.len() ==> text[at + 6] == after[0]);
    assert(banana_at(text, at));
    lemma_chunks_from_right(text, 0);
    assert(placeholder_stands(chunks(text), at - 0));
}

/// What the chunks are, one after the other: parts of the transcript as they stand
/// there, and placeholders for `banana` on its own and for nothing else. Together
/// they make up the whole transcript, and no literal is empty or follows another.
pub proof fn law_chunks_are_what_they_stand_for(text: Seq<char>)
    ensures
        ({
            let all = chunks(text);
            &&& offset(all, all.len() as int) == text.len()
            &&& forall|k: int| 0 <= k < all.len() ==> #[trigger] rightly_placed(text, 0, all, k)
            &&& forall|k: int|
                0 < k < all.len() ==> !(#[trigger] all[k] is Literal) || !(all[k - 1] is Literal)
            &&& forall|at: int|
                #[trigger] banana_at(text, at) ==> placeholder_stands(all, at)
        }),
{
    lemma_chunks_from_right(text, 0);
    assert forall|at: int| #[trigger] banana_at(text, at) implies placeholder_stands(
        chunks(text),
        at,
    ) by {
        assert(placeholder_stands(chunks(text), at - 0));
    }
}

} // verus!
