//! Keyterms: the vocabulary hints that are kept in a text file, one per line.

use crate::storage::{FileRead, SavePolicy};
use crate::text::{self, CharClass};
use vstd::prelude::*;

verus! {

/// The most keyterms that are kept.
pub const MAX_TERMS: usize = 1000;

/// The most characters that a keyterm may have.
pub const MAX_TERM_CHARS: usize = 50;

/// The most words that a keyterm may have.
pub const MAX_TERM_WORDS: usize = 5;

/// Why a keyterm or a list of keyterms was refused.
#[derive(Debug, Clone, Copy, PartialEq, Eq)]
pub enum KeytermError {
    /// The keyterm is blank.
    Empty,
    /// The keyterm spans several lines.
    NotSingleLine,
    /// The keyterm has too many characters.
    TooLong,
    /// The keyterm has too many words.
    TooManyWords,
    /// The keyterm holds a character that the provider does not accept.
    UnsupportedCharacters,
    /// The keyterm is already in the list.
    AlreadyExists,
    /// The list is full.
    LimitReached,
    /// The file holds more keyterms than a list can.
    LimitExceeded,
    /// The keyterm is not in the list.
    NotFound,
    /// The file could not be read.
    ReadFailed,
}

impl KeytermError {
    /// The error as it is reported to the user.
    pub open spec fn text(self) -> Seq<char> {
        match self {
            KeytermError::Empty => "keyterm must not be empty"@,
            KeytermError::NotSingleLine => "keyterm must be a single line"@,
            KeytermError::TooLong => "keyterm must be at most 50 characters"@,
            KeytermError::TooManyWords => "keyterm must contain at most 5 words"@,
            KeytermError::UnsupportedCharacters =>
                "keyterm contains characters unsupported by ElevenLabs"@,
            KeytermError::AlreadyExists => "keyterm already exists"@,
            KeytermError::LimitReached => "keyterm limit of 1000 reached"@,
            KeytermError::LimitExceeded => "keyterm limit of 1000 exceeded"@,
            KeytermError::NotFound => "keyterm not found"@,
            KeytermError::ReadFailed => "failed to read keyterms"@,
        }
    }

    /// The error as it is reported to the user.
    pub fn message(self) -> (res: &'static str)
        ensures
            res@ == self.text(),
    {
        match self {
            KeytermError::Empty => "keyterm must not be empty",
            KeytermError::NotSingleLine => "keyterm must be a single line",
            KeytermError::TooLong => "keyterm must be at most 50 characters",
            KeytermError::TooManyWords => "keyterm must contain at most 5 words",
            KeytermError::UnsupportedCharacters =>
                "keyterm contains characters unsupported by ElevenLabs",
            KeytermError::AlreadyExists => "keyterm already exists",
            KeytermError::LimitReached => "keyterm limit of 1000 reached",
            KeytermError::LimitExceeded => "keyterm limit of 1000 exceeded",
            KeytermError::NotFound => "keyterm not found",
            KeytermError::ReadFailed => "failed to read keyterms",
        }
    }
}

/// Whether the provider refuses a keyterm that holds `c`.
pub open spec fn unsupported(c: char) -> bool {
    c == '<' || c == '>' || c == '{' || c == '}' || c == '[' || c == ']' || c == '\\'
}

/// Whether some character of `s` is refused by the provider.
pub open spec fn has_unsupported(s: Seq<char>) -> bool {
    exists|i: int| 0 <= i < s.len() && unsupported(#[trigger] s[i])
}

/// What a keyterm becomes when it is accepted: the term without white space at
/// its ends, if that has one line, at most fifty characters and five words, and
/// no character that the provider refuses.
pub open spec fn validated(term: Seq<char>) -> Result<Seq<char>, KeytermError> {
    let term = text::trim(term);
    if term.len() == 0 {
        Err(KeytermError::Empty)
    } else if term.contains('\n') || term.contains('\r') {
        Err(KeytermError::NotSingleLine)
    } else if term.len() > MAX_TERM_CHARS {
        Err(KeytermError::TooLong)
    } else if text::word_count(term) > MAX_TERM_WORDS {
        Err(KeytermError::TooManyWords)
    } else if has_unsupported(term) {
        Err(KeytermError::UnsupportedCharacters)
    } else {
        Ok(term)
    }
}

/// A list of keyterms that can be kept: accepted as they stand, without
/// duplicates, and not too many.
pub open spec fn valid_terms(terms: Seq<Seq<char>>) -> bool {
    &&& terms.len() <= MAX_TERMS
    &&& terms.no_duplicates()
    &&& forall|i: int|
        0 <= i < terms.len() ==> validated(#[trigger] terms[i]) == Ok::<_, KeytermError>(terms[i])
}

/// The list after one more line of the file: blank lines and repeated keyterms
/// change nothing.
pub open spec fn with_line(terms: Seq<Seq<char>>, line: Seq<char>) -> Result<
    Seq<Seq<char>>,
    KeytermError,
> {
    if text::trim(line).len() == 0 {
        Ok(terms)
    } else {
        match validated(line) {
            Err(error) => Err(error),
            Ok(term) => if terms.contains(term) {
                Ok(terms)
            } else if terms.len() == MAX_TERMS {
                Err(KeytermError::LimitExceeded)
            } else {
                Ok(terms.push(term))
            },
        }
    }
}

/// The keyterms that the lines hold, in the order of their first appearance.
pub open spec fn from_lines(lines: Seq<Seq<char>>) -> Result<Seq<Seq<char>>, KeytermError>
    decreases lines.len(),
{
    if lines.len() == 0 {
        Ok(Seq::empty())
    } else {
        match from_lines(lines.drop_last()) {
            Err(error) => Err(error),
            Ok(terms) => with_line(terms, lines.last()),
        }
    }
}

/// The keyterms that the contents of a file hold.
pub open spec fn parsed(contents: Seq<char>) -> Result<Seq<Seq<char>>, KeytermError> {
    from_lines(text::split_on(contents, '\n'))
}

/// The contents of the file that keeps a list: every keyterm on a line.
pub open spec fn file_contents(terms: Seq<Seq<char>>) -> Seq<char>
    decreases terms.len(),
{
    if terms.len() == 0 {
        Seq::empty()
    } else {
        file_contents(terms.drop_last()) + terms.last() + seq!['\n']
    }
}

/// The list after adding a keyterm.
pub open spec fn with_term(terms: Seq<Seq<char>>, term: Seq<char>) -> Result<
    Seq<Seq<char>>,
    KeytermError,
> {
    match validated(term) {
        Err(error) => Err(error),
        Ok(term) => if terms.contains(term) {
            Err(KeytermError::AlreadyExists)
        } else if terms.len() >= MAX_TERMS {
            Err(KeytermError::LimitReached)
        } else {
            Ok(terms.push(term))
        },
    }
}

/// The position of the first occurrence of `term`.
pub open spec fn position(terms: Seq<Seq<char>>, term: Seq<char>) -> Option<int> {
    if terms.contains(term) {
        Some(
            choose|i: int|
                0 <= i < terms.len() && #[trigger] terms[i] == term && forall|j: int|
                    0 <= j < i ==> terms[j] != term,
        )
    } else {
        None
    }
}

/// The list after removing a keyterm.
pub open spec fn without_term(terms: Seq<Seq<char>>, term: Seq<char>) -> Result<
    Seq<Seq<char>>,
    KeytermError,
> {
    match validated(term) {
        Err(error) => Err(error),
        Ok(term) => match position(terms, term) {
            None => Err(KeytermError::NotFound),
            Some(at) => Ok(terms.remove(at)),
        },
    }
}

/// Whether what a function returned is what the specification says, with the
/// strings taken as texts.
pub open spec fn same_list(
    res: Result<Vec<String>, KeytermError>,
    spec_res: Result<Seq<Seq<char>>, KeytermError>,
) -> bool {
    match res {
        Ok(terms) => spec_res == Ok::<_, KeytermError>(text::views(terms@)),
        Err(error) => spec_res == Err::<Seq<Seq<char>>, _>(error),
    }
}

/// Checks a keyterm and returns it without white space at its ends.
pub fn validate_term(term: &str) -> (res: Result<String, KeytermError>)
    ensures
        match res {
            Ok(accepted) => validated(term@) == Ok::<_, KeytermError>(accepted@),
            Err(error) => validated(term@) == Err::<Seq<char>, _>(error),
        },
{
    let chars = text::to_chars(term);
    assert(chars@.subrange(0, chars@.len() as int) == chars@);
    let (lo, hi) = text::strip_bounds(&chars, 0, chars.len(), CharClass::Space);
    let ghost inner = chars@.subrange(lo as int, hi as int);
    if lo == hi {
        return Err(KeytermError::Empty);
    }
    let mut single_line = true;
    let mut supported = true;
    let mut i: usize = lo;
    while i < hi
        invariant
            lo <= i <= hi <= chars@.len(),
            inner == chars@.subrange(lo as int, hi as int),
            single_line == forall|j: int|
                0 <= j < i - lo ==> #[trigger] inner[j] != '\n' && inner[j] != '\r',
            supported == forall|j: int| 0 <= j < i - lo ==> !unsupported(#[trigger] inner[j]),
        decreases hi - i,
    {
        let c = chars[i];
        assert(inner[i - lo] == c);
        if c == '\n' || c == '\r' {
            single_line = false;
        }
        if c == '<' || c == '>' || c == '{' || c == '}' || c == '[' || c == ']' || c == '\\' {
            supported = false;
        }
        i = i + 1;
    }
    assert(single_line == (!inner.contains('\n') && !inner.contains('\r')));
    assert(supported == !has_unsupported(inner));
    if !single_line {
        return Err(KeytermError::NotSingleLine);
    }
    if hi - lo > MAX_TERM_CHARS {
        return Err(KeytermError::TooLong);
    }
    if text::count_words(&chars, lo, hi) > MAX_TERM_WORDS {
        return Err(KeytermError::TooManyWords);
    }
    if !supported {
        return Err(KeytermError::UnsupportedCharacters);
    }
    Ok(text::from_chars(&chars, lo, hi))
}

/// The position of the first string that reads as `term`.
fn find_term(terms: &Vec<String>, term: &String) -> (res: Option<usize>)
    ensures
        match res {
            None => !text::views(terms@).contains(term@),
            Some(at) => {
                &&& at < terms@.len()
                &&& text::views(terms@).contains(term@)
                &&& position(text::views(terms@), term@) == Some(at as int)
            },
        },
{
    let ghost list = text::views(terms@);
    let mut i: usize = 0;
    while i < terms.len()
        invariant
            i <= terms@.len(),
            list == text::views(terms@),
            forall|j: int| 0 <= j < i ==> #[trigger] list[j] != term@,
        decreases terms@.len() - i,
    {
        assert(list[i as int] == terms@[i as int]@);
        if terms[i] == *term {
            proof {
                lemma_position(list, term@, i as int);
            }
            return Some(i);
        }
        i = i + 1;
    }
    None
}

proof fn lemma_position(terms: Seq<Seq<char>>, term: Seq<char>, at: int)
    requires
        0 <= at < terms.len(),
        terms[at] == term,
        forall|j: int| 0 <= j < at ==> terms[j] != term,
    ensures
        position(terms, term) == Some(at),
{
    let found = position(terms, term)->0;
    assert(terms.contains(term));
    assert(0 <= found < terms.len() && terms[found] == term && forall|j: int|
        0 <= j < found ==> terms[j] != term);
    assert(found == at) by {
        if found < at {
            assert(terms[found] != term);
        } else if at < found {
            assert(terms[at] != term);
        }
    }
}

/// Reads the keyterms out of the contents of their file.
pub fn parse(contents: &str) -> (res: Result<Vec<String>, KeytermError>)
    ensures
        same_list(res, parsed(contents@)),
{
    let chars = text::to_chars(contents);
    let bounds = text::split_bounds(&chars, '\n');
    let ghost lines = text::split_on(contents@, '\n');
    let mut terms: Vec<String> = Vec::new();
    let mut i: usize = 0;
    assert(lines.take(0) == Seq::<Seq<char>>::empty());
    assert(text::views(terms@) == Seq::<Seq<char>>::empty());
    while i < bounds.len()
        invariant
            i <= bounds@.len(),
            lines == text::split_on(contents@, '\n'),
            bounds@.len() == lines.len(),
            forall|j: int|
                0 <= j < bounds@.len() ==> {
                    &&& (#[trigger] bounds@[j]).0 <= bounds@[j].1 <= chars@.len()
                    &&& chars@.subrange(bounds@[j].0 as int, bounds@[j].1 as int) == lines[j]
                },
            from_lines(lines.take(i as int)) == Ok::<_, KeytermError>(text::views(terms@)),
        decreases bounds@.len() - i,
    {
        let ghost list = text::views(terms@);
        let (lo, hi) = bounds[i];
        let line = text::from_chars(&chars, lo, hi);
        assert(line@ == lines[i as int]);
        assert(lines.take(i + 1).drop_last() == lines.take(i as int));
        assert(from_lines(lines.take(i + 1)) == with_line(list, line@));
        proof {
            lemma_error_stays(lines, i + 1);
        }
        if !text::is_blank(line.as_str()) {
            match validate_term(line.as_str()) {
                Err(error) => {
                    return Err(error);
                },
                Ok(term) => {
                    if find_term(&terms, &term).is_none() {
                        if terms.len() == MAX_TERMS {
                            return Err(KeytermError::LimitExceeded);
                        }
                        terms.push(term);
                        assert(text::views(terms@) == list.push(term@));
                    }
                },
            }
        }
        i = i + 1;
    }
    assert(lines.take(lines.len() as int) == lines);
    Ok(terms)
}

/// An error in the first lines is an error of the whole file.
proof fn lemma_error_stays(lines: Seq<Seq<char>>, n: int)
    requires
        0 <= n <= lines.len(),
    ensures
        from_lines(lines.take(n)) is Err ==> from_lines(lines) == from_lines(lines.take(n)),
    decreases lines.len() - n,
{
    if n < lines.len() {
        lemma_error_stays(lines, n + 1);
        assert(lines.take(n + 1).drop_last() == lines.take(n));
    } else {
        assert(lines.take(n) == lines);
    }
}

/// Reads the keyterms out of their file; without a file there are none.
pub fn load(file: &FileRead) -> (res: Result<Vec<String>, KeytermError>)
    ensures
        match file {
            FileRead::Missing => same_list(res, Ok(Seq::empty())),
            FileRead::Contents(contents) => same_list(res, parsed(contents@)),
            FileRead::Failed => same_list(res, Err(KeytermError::ReadFailed)),
        },
{
    match file {
        FileRead::Missing => {
            let none: Vec<String> = Vec::new();
            assert(text::views(none@) == Seq::<Seq<char>>::empty());
            Ok(none)
        },
        FileRead::Contents(contents) => parse(contents.as_str()),
        FileRead::Failed => Err(KeytermError::ReadFailed),
    }
}

/// Adds a keyterm to the end of the list.
pub fn add(terms: Vec<String>, term: &str) -> (res: Result<Vec<String>, KeytermError>)
    ensures
        same_list(res, with_term(text::views(terms@), term@)),
{
    let mut terms = terms;
    let ghost list = text::views(terms@);
    match validate_term(term) {
        Err(error) => Err(error),
        Ok(term) => {
            if find_term(&terms, &term).is_some() {
                return Err(KeytermError::AlreadyExists);
            }
            if terms.len() >= MAX_TERMS {
                return Err(KeytermError::LimitReached);
            }
            terms.push(term);
            assert(text::views(terms@) == list.push(term@));
            Ok(terms)
        },
    }
}

/// Removes a keyterm from the list.
pub fn remove(terms: Vec<String>, term: &str) -> (res: Result<Vec<String>, KeytermError>)
    ensures
        same_list(res, without_term(text::views(terms@), term@)),
{
    let mut terms = terms;
    let ghost list = text::views(terms@);
    match validate_term(term) {
        Err(error) => Err(error),
        Ok(term) => match find_term(&terms, &term) {
            None => Err(KeytermError::NotFound),
            Some(index) => {
                terms.remove(index);
                assert(text::views(terms@) == list.remove(index as int));
                Ok(terms)
            },
        },
    }
}

/// The contents of the file that keeps a list.
pub fn file_text(terms: &Vec<String>) -> (res: String)
    ensures
        res@ == file_contents(text::views(terms@)),
{
    let ghost list = text::views(terms@);
    let mut res = String::new();
    let mut i: usize = 0;
    assert(list.take(0) == Seq::<Seq<char>>::empty());
    while i < terms.len()
        invariant
            i <= terms@.len(),
            list == text::views(terms@),
            res@ == file_contents(list.take(i as int)),
        decreases terms@.len() - i,
    {
        let ghost before = res@;
        res.append(terms[i].as_str());
        res.push('\n');
        assert(list.take(i + 1).drop_last() == list.take(i as int));
        assert(res@ == before + list[i as int] + seq!['\n']);
        i = i + 1;
    }
    assert(list.take(list.len() as int) == list);
    res
}

/// How the keyterms file is replaced: up to a hundred names are tried for the
/// temporary file.
pub fn save_policy() -> (res: SavePolicy)
    ensures
        res == (SavePolicy { names: 100, remove_when_not_created: false }),
{
    SavePolicy { names: 100, remove_when_not_created: false }
}

/// The name of the temporary file with the given number.
pub fn temporary_name(process: u32, number: u32) -> (res: String)
    ensures
        res@ == ".keyterms."@ + text::decimal(process as nat) + "."@ + text::decimal(
            number as nat,
        ) + ".tmp"@,
{
    ".keyterms.".to_owned().concat(text::format_decimal(process as u64).as_str()).concat(
        ".",
    ).concat(text::format_decimal(number as u64).as_str()).concat(".tmp")
}

/// A keyterm that was accepted is accepted again, unchanged.
pub proof fn law_validation_is_idempotent(term: Seq<char>)
    ensures
        validated(term) matches Ok(accepted) ==> validated(accepted) == Ok::<_, KeytermError>(
            accepted,
        ),
{
    let _ = text::lemma_strip(term, CharClass::Space);
    text::lemma_strip_nothing(text::trim(term), CharClass::Space);
}

proof fn lemma_with_line_valid(terms: Seq<Seq<char>>, line: Seq<char>)
    requires
        valid_terms(terms),
    ensures
        with_line(terms, line) matches Ok(more) ==> valid_terms(more),
{
    law_validation_is_idempotent(line);
    if let Ok(term) = validated(line) {
        if !terms.contains(term) {
            assert(terms.push(term).no_duplicates());
        }
    }
}

proof fn lemma_from_lines_valid(lines: Seq<Seq<char>>)
    ensures
        from_lines(lines) matches Ok(terms) ==> valid_terms(terms),
    decreases lines.len(),
{
    if lines.len() > 0 {
        lemma_from_lines_valid(lines.drop_last());
        if let Ok(terms) = from_lines(lines.drop_last()) {
            lemma_with_line_valid(terms, lines.last());
        }
    }
}

/// Whatever file is read, what comes out is a list that can be kept: trimmed,
/// accepted keyterms without duplicates, at most a thousand of them.
pub proof fn law_parsed_lists_are_valid(contents: Seq<char>)
    ensures
        parsed(contents) matches Ok(terms) ==> valid_terms(terms),
{
    lemma_from_lines_valid(text::split_on(contents, '\n'));
}

/// Adding to a list that can be kept gives one that can be kept: the old
/// keyterms in their order, and the new one at the end.
pub proof fn law_adding_keeps_lists_valid(terms: Seq<Seq<char>>, term: Seq<char>)
    requires
        valid_terms(terms),
    ensures
        with_term(terms, term) matches Ok(more) ==> {
            &&& valid_terms(more)
            &&& more == terms.push(text::trim(term))
        },
{
    law_validation_is_idempotent(term);
    if let Ok(accepted) = validated(term) {
        if !terms.contains(accepted) {
            assert(terms.push(accepted).no_duplicates());
        }
    }
}

/// Removing from a list that can be kept gives one that can be kept, which no
/// longer holds the keyterm.
pub proof fn law_removing_keeps_lists_valid(terms: Seq<Seq<char>>, term: Seq<char>)
    requires
        valid_terms(terms),
    ensures
        without_term(terms, term) matches Ok(less) ==> {
            &&& valid_terms(less)
            &&& less.len() + 1 == terms.len()
            &&& !less.contains(text::trim(term))
        },
{
    if let Ok(accepted) = validated(term) {
        if terms.contains(accepted) {
            lemma_position_exists(terms, accepted);
            let at = position(terms, accepted)->0;
            let less = terms.remove(at);
            assert(forall|i: int| 0 <= i < less.len() ==> #[trigger] less[i] == terms[if i < at {
                i
            } else {
                i + 1
            }]);
        }
    }
}

proof fn lemma_position_exists(terms: Seq<Seq<char>>, term: Seq<char>)
    requires
        terms.contains(term),
    ensures
        position(terms, term) matches Some(at) && 0 <= at < terms.len() && terms[at] == term,
{
    let some = choose|i: int| 0 <= i < terms.len() && terms[i] == term;
    let first = lemma_first_occurrence(terms, term, some);
    lemma_position(terms, term, first);
}

proof fn lemma_first_occurrence(terms: Seq<Seq<char>>, term: Seq<char>, at: int) -> (first: int)
    requires
        0 <= at < terms.len(),
        terms[at] == term,
    ensures
        0 <= first < terms.len(),
        terms[first] == term,
        forall|j: int| 0 <= j < first ==> terms[j] != term,
    decreases at,
{
    if exists|j: int| 0 <= j < at && terms[j] == term {
        let earlier = choose|j: int| 0 <= j < at && terms[j] == term;
        lemma_first_occurrence(terms, term, earlier)
    } else {
        at
    }
}

proof fn lemma_split_file(terms: Seq<Seq<char>>)
    requires
        forall|i: int| 0 <= i < terms.len() ==> !(#[trigger] terms[i]).contains('\n'),
    ensures
        text::split_on(file_contents(terms), '\n') == terms.push(Seq::empty()),
    decreases terms.len(),
{
    let whole = file_contents(terms);
    if terms.len() == 0 {
        assert(terms.push(Seq::<char>::empty()) == seq![Seq::<char>::empty()]);
    } else {
        let before = terms.drop_last();
        assert forall|i: int| 0 <= i < before.len() implies !(#[trigger] before[i]).contains(
            '\n',
        ) by {
            assert(before[i] == terms[i]);
        }
        lemma_split_file(before);
        let head = file_contents(before);
        let last = terms.last();
        assert(!last.contains('\n')) by {
            assert(last == terms[terms.len() - 1]);
        }
        text::lemma_split_on_extend(head, last, '\n');
        assert(whole.drop_last() == head + last);
        assert(whole.last() == '\n');
        assert(Seq::<char>::empty() + last == last);
        assert(before.push(Seq::<char>::empty()).drop_last() == before);
        assert(before.push(last) == terms);
        assert(text::split_on(head + last, '\n') == terms);
    }
}

proof fn lemma_from_lines_of_valid(terms: Seq<Seq<char>>)
    requires
        valid_terms(terms),
    ensures
        from_lines(terms) == Ok::<_, KeytermError>(terms),
    decreases terms.len(),
{
    if terms.len() > 0 {
        let before = terms.drop_last();
        let last = terms.last();
        assert forall|i: int| 0 <= i < before.len() implies validated(#[trigger] before[i])
            == Ok::<_, KeytermError>(before[i]) by {
            assert(before[i] == terms[i]);
        }
        assert(before.no_duplicates());
        lemma_from_lines_of_valid(before);
        assert(last == terms[terms.len() - 1]);
        assert(validated(last) == Ok::<_, KeytermError>(last));
        assert(!before.contains(last)) by {
            if before.contains(last) {
                let i = choose|i: int| 0 <= i < before.len() && before[i] == last;
                assert(terms[i] == terms[terms.len() - 1]);
            }
        }
        assert(before.push(last) == terms);
    } else {
        assert(terms == Seq::<Seq<char>>::empty());
    }
}

/// What is written is what is read back: the file that keeps a list holds
/// exactly that list.
pub proof fn law_written_lists_are_read_back(terms: Seq<Seq<char>>)
    requires
        valid_terms(terms),
    ensures
        parsed(file_contents(terms)) == Ok::<_, KeytermError>(terms),
{
    assert forall|i: int| 0 <= i < terms.len() implies !(#[trigger] terms[i]).contains('\n') by {
        assert(validated(terms[i]) == Ok::<_, KeytermError>(terms[i]));
    }
    lemma_split_file(terms);
    let lines = terms.push(Seq::empty());
    assert(lines.drop_last() == terms);
    lemma_from_lines_of_valid(terms);
    assert(text::trim(Seq::<char>::empty()).len() == 0);
}

/// Adding a keyterm and removing it again gives the list back.
pub proof fn law_remove_undoes_add(terms: Seq<Seq<char>>, term: Seq<char>)
    requires
        valid_terms(terms),
    ensures
        with_term(terms, term) matches Ok(more) ==> without_term(more, term) == Ok::<
            _,
            KeytermError,
        >(terms),
{
    if let Ok(accepted) = validated(term) {
        if !terms.contains(accepted) && terms.len() < MAX_TERMS {
            let more = terms.push(accepted);
            assert(more[terms.len() as int] == accepted);
            assert forall|j: int| 0 <= j < terms.len() implies more[j] != accepted by {
                assert(more[j] == terms[j]);
            }
            lemma_position(more, accepted, terms.len() as int);
            assert(more.remove(terms.len() as int) == terms);
        }
    }
}

/// Which keyterms are accepted, and why the others are not. Whatever white space
/// surrounds it, a text that neither begins nor ends with any is accepted as it is
/// exactly where it stands on one line, has at most fifty characters and five
/// words, and holds none of the characters that the provider refuses. Where it is
/// not, the first of these that it breaks is named.
pub proof fn law_which_terms_are_accepted(before: Seq<char>, term: Seq<char>, after: Seq<char>)
    requires
        term.len() > 0,
        !text::is_space(term[0]),
        !text::is_space(term.last()),
        forall|i: int| 0 <= i < before.len() ==> text::is_space(#[trigger] before[i]),
        forall|i: int| 0 <= i < after.len() ==> text::is_space(#[trigger] after[i]),
    ensures
        ({
            let res = validated(before + term + after);
            let one_line = !term.contains('\n') && !term.contains('\r');
            let short = term.len() <= 50;
            let few_words = text::word_count(term) <= 5;
            let plain = !term.contains('<') && !term.contains('>') && !term.contains('{')
                && !term.contains('}') && !term.contains('[') && !term.contains(']')
                && !term.contains('\\');
            &&& res == Ok::<_, KeytermError>(term) <==> one_line && short && few_words && plain
            &&& res is Ok <==> res == Ok::<_, KeytermError>(term)
            &&& res == Err::<Seq<char>, _>(KeytermError::NotSingleLine) <==> !one_line
            &&& res == Err::<Seq<char>, _>(KeytermError::TooLong) <==> one_line && !short
            &&& res == Err::<Seq<char>, _>(KeytermError::TooManyWords) <==> one_line && short
                && !few_words
            &&& res == Err::<Seq<char>, _>(KeytermError::UnsupportedCharacters) <==> one_line
                && short && few_words && !plain
        }),
{
    text::law_trim_unwraps(before, term, after);
    let plain = !term.contains('<') && !term.contains('>') && !term.contains('{')
        && !term.contains('}') && !term.contains('[') && !term.contains(']') && !term.contains(
        '\\',
    );
    if has_unsupported(term) {
        let i = choose|i: int| 0 <= i < term.len() && unsupported(#[trigger] term[i]);
        assert(term.contains(term[i]));
    }
    if !plain {
        let i = choose|i: int| 0 <= i < term.len() && unsupported(#[trigger] term[i]);
        assert(has_unsupported(term));
    }
}

/// A blank keyterm is refused as empty.
pub proof fn law_blank_terms_are_refused(blank: Seq<char>)
    requires
        forall|i: int| 0 <= i < blank.len() ==> text::is_space(#[trigger] blank[i]),
    ensures
        validated(blank) == Err::<Seq<char>, _>(KeytermError::Empty),
{
    let none = Seq::<char>::empty();
    text::law_trim_unwraps(blank, none, none);
    assert(blank + none + none == blank);
}

/// An accepted keyterm goes to the end of the list, unless it is in there already
/// or there are a thousand others; one that is not accepted changes nothing.
pub proof fn law_when_terms_are_added(terms: Seq<Seq<char>>, term: Seq<char>)
    ensures
        match validated(term) {
            Err(error) => with_term(terms, term) == Err::<Seq<Seq<char>>, _>(error),
            Ok(accepted) => {
                let res = with_term(terms, term);
                &&& terms.contains(accepted) ==> res == Err::<Seq<Seq<char>>, _>(
                    KeytermError::AlreadyExists,
                )
                &&& !terms.contains(accepted) && terms.len() >= 1000 ==> res == Err::<
                    Seq<Seq<char>>,
                    _,
                >(KeytermError::LimitReached)
                &&& !terms.contains(accepted) && terms.len() < 1000 ==> res == Ok::<
                    _,
                    KeytermError,
                >(terms + seq![accepted])
            },
        },
{
    if let Ok(accepted) = validated(term) {
        assert(terms.push(accepted) == terms + seq![accepted]);
    }
}

/// A keyterm that is in the list is removed from it, whatever white space
/// surrounds it; all others stay, in their order. One that is not in the list
/// cannot be removed.
pub proof fn law_when_terms_are_removed(
    before: Seq<Seq<char>>,
    term: Seq<char>,
    after: Seq<Seq<char>>,
    given: Seq<char>,
)
    requires
        validated(given) == Ok::<_, KeytermError>(term),
        !before.contains(term),
    ensures
        without_term(before + seq![term] + after, given) == Ok::<_, KeytermError>(before + after),
        without_term(before, given) == Err::<Seq<Seq<char>>, _>(KeytermError::NotFound),
{
    let all = before + seq![term] + after;
    let at = before.len() as int;
    assert(all[at] == term);
    assert forall|j: int| 0 <= j < at implies all[j] != term by {
        assert(all[j] == before[j]);
    }
    lemma_position(all, term, at);
    assert(all.contains(term));
    assert(all.remove(at) == before + after);
}

proof fn lemma_complete_lines(contents: Seq<char>)
    requires
        contents.len() == 0 || contents.last() == '\n',
    ensures
        text::split_on(contents, '\n').len() > 0,
        text::split_on(contents, '\n').last().len() == 0,
        from_lines(text::split_on(contents, '\n').drop_last()) == parsed(contents),
{
    let lines = text::split_on(contents, '\n');
    text::lemma_split_on_extend(contents, Seq::empty(), '\n');
    let before = lines.drop_last();
    assert(lines.last() == Seq::<char>::empty());
    assert(text::trim(lines.last()).len() == 0);
    if let Ok(terms) = from_lines(before) {
        assert(with_line(terms, lines.last()) == Ok::<_, KeytermError>(terms));
    }
}

/// A file is read line by line. A line that follows complete lines adds its
/// keyterm to theirs; blank lines and repeated keyterms add nothing; a keyterm
/// that is not accepted, or that is one too many, makes the file unusable, as does
/// an earlier line. It makes no difference whether the last line is complete.
pub proof fn law_files_are_read_line_by_line(contents: Seq<char>, line: Seq<char>)
    requires
        contents.len() == 0 || contents.last() == '\n',
        !line.contains('\n'),
    ensures
        parsed(Seq::empty()) == Ok::<_, KeytermError>(Seq::<Seq<char>>::empty()),
        parsed(contents + line + seq!['\n']) == parsed(contents + line),
        ({
            let blank = forall|i: int| 0 <= i < line.len() ==> text::is_space(#[trigger] line[i]);
            let res = parsed(contents + line);
            match parsed(contents) {
                Err(error) => res == Err::<Seq<Seq<char>>, _>(error),
                Ok(terms) => if blank {
                    res == Ok::<_, KeytermError>(terms)
                } else {
                    match validated(line) {
                        Err(error) => res == Err::<Seq<Seq<char>>, _>(error),
                        Ok(term) => {
                            &&& terms.contains(term) ==> res == Ok::<_, KeytermError>(terms)
                            &&& !terms.contains(term) && terms.len() < 1000 ==> res == Ok::<
                                _,
                                KeytermError,
                            >(terms + seq![term])
                            &&& !terms.contains(term) && terms.len() == 1000 ==> res == Err::<
                                Seq<Seq<char>>,
                                _,
                            >(KeytermError::LimitExceeded)
                        },
                    }
                },
            }
        }),
{
    let none = Seq::<char>::empty();
    lemma_complete_lines(none);
    lemma_complete_lines(contents);
    let before = text::split_on(contents, '\n').drop_last();
    text::lemma_split_on_extend(contents, line, '\n');
    let lines = text::split_on(contents + line, '\n');
    assert(none + line == line);
    assert(text::split_on(contents, '\n').last() == none);
    assert(lines == before.push(line));
    assert(lines.drop_last() == before);
    let whole = contents + line + seq!['\n'];
    assert(whole.drop_last() == contents + line);
    lemma_complete_lines(whole);
    assert(text::split_on(whole, '\n') == lines.push(none));
    assert(lines.push(none).drop_last() == lines);
    assert(text::split_on(none, '\n') == seq![none]);
    assert(seq![none].drop_last() == Seq::<Seq<char>>::empty());
    let blank = forall|i: int| 0 <= i < line.len() ==> text::is_space(#[trigger] line[i]);
    if blank {
        text::law_trim_unwraps(line, none, none);
        assert(line + none + none == line);
    } else {
        let (lo, hi) = text::lemma_strip(line, CharClass::Space);
        assert(lo < hi);
    }
    if let Ok(terms) = parsed(contents) {
        law_parsed_lists_are_valid(contents);
        if let Ok(term) = validated(line) {
            assert(terms.push(term) == terms + seq![term]);
        }
    }
}

/// A list is written one keyterm a line, in its order, and every line is complete.
pub proof fn law_one_term_a_line(terms: Seq<Seq<char>>, term: Seq<char>)
    ensures
        file_contents(Seq::empty()).len() == 0,
        file_contents(terms + seq![term]) == file_contents(terms) + term + seq!['\n'],
{
    assert((terms + seq![term]).drop_last() == terms);
}

} // verus!
