//! Text primitives over sequences of characters.
//!
//! Every function here works on a text as the sequence of its characters, so
//! that the rest of the library can speak of lines, words and trimmed text
//! without byte offsets.

use vstd::prelude::*;

verus! {

/// `String::push` appends one character to the end of the string.
pub assume_specification[ String::push ](s: &mut String, c: char)
    ensures
        final(s)@ == old(s)@.push(c),
;

/// The texts that a sequence of strings holds.
pub open spec fn views(list: Seq<String>) -> Seq<Seq<char>> {
    Seq::new(list.len(), |i: int| list[i]@)
}

/// The texts that a sequence of string slices holds.
pub open spec fn str_views(list: Seq<&str>) -> Seq<Seq<char>> {
    Seq::new(list.len(), |i: int| list[i]@)
}

/// The text that an optional string holds.
pub open spec fn opt_view(value: Option<String>) -> Option<Seq<char>> {
    match value {
        Some(text) => Some(text@),
        None => None,
    }
}

/// The text that an optional string slice holds.
pub open spec fn opt_str_view(value: Option<&str>) -> Option<Seq<char>> {
    match value {
        Some(text) => Some(text@),
        None => None,
    }
}

/// The characters of a text.
pub fn to_chars(s: &str) -> (res: Vec<char>)
    ensures
        res@ == s@,
{
    let mut res: Vec<char> = Vec::new();
    for c in it: s.chars()
        invariant
            res@ == it.seq().take(it.index()),
            it.seq() == s@,
    {
        res.push(c);
    }
    res
}

/// The text made of the characters from `lo` up to `hi`.
pub fn from_chars(chars: &Vec<char>, lo: usize, hi: usize) -> (res: String)
    requires
        lo <= hi <= chars@.len(),
    ensures
        res@ == chars@.subrange(lo as int, hi as int),
{
    let mut res = String::new();
    let mut i: usize = lo;
    while i < hi
        invariant
            lo <= i <= hi <= chars@.len(),
            res@ == chars@.subrange(lo as int, i as int),
        decreases hi - i,
    {
        res.push(chars[i]);
        i = i + 1;
    }
    res
}

/// Unicode white space: the characters with the `White_Space` property.
pub open spec fn is_space(c: char) -> bool {
    ||| '\u{9}' <= c <= '\u{d}'
    ||| c == ' '
    ||| c == '\u{85}'
    ||| c == '\u{a0}'
    ||| c == '\u{1680}'
    ||| '\u{2000}' <= c <= '\u{200a}'
    ||| c == '\u{2028}'
    ||| c == '\u{2029}'
    ||| c == '\u{202f}'
    ||| c == '\u{205f}'
    ||| c == '\u{3000}'
}

/// A set of characters that may be stripped from the ends of a text.
#[derive(Debug, Clone, Copy, PartialEq, Eq)]
pub enum CharClass {
    /// White space.
    Space,
    /// ASCII and typographic double quotes, and white space.
    QuoteOrSpace,
    /// The full stop.
    Period,
    /// The ellipsis character, the hyphen and white space.
    TrailingMark,
}

/// Whether `c` is an ASCII or typographic double quote.
pub open spec fn is_double_quote(c: char) -> bool {
    c == '"' || c == '\u{201c}' || c == '\u{201d}'
}

impl CharClass {
    pub open spec fn holds(self, c: char) -> bool {
        match self {
            CharClass::Space => is_space(c),
            CharClass::QuoteOrSpace => is_double_quote(c) || is_space(c),
            CharClass::Period => c == '.',
            CharClass::TrailingMark => c == '\u{2026}' || c == '-' || is_space(c),
        }
    }

    /// Whether `c` belongs to the class.
    pub fn contains(self, c: char) -> (res: bool)
        ensures
            res == self.holds(c),
    {
        match self {
            CharClass::Space => is_white_space(c),
            CharClass::QuoteOrSpace => c == '"' || c == '\u{201c}' || c == '\u{201d}'
                || is_white_space(c),
            CharClass::Period => c == '.',
            CharClass::TrailingMark => c == '\u{2026}' || c == '-' || is_white_space(c),
        }
    }
}

/// Whether `c` is Unicode white space.
pub fn is_white_space(c: char) -> (res: bool)
    ensures
        res == is_space(c),
{
    ('\u{9}' <= c && c <= '\u{d}') || c == ' ' || c == '\u{85}' || c == '\u{a0}'
        || c == '\u{1680}' || ('\u{2000}' <= c && c <= '\u{200a}') || c == '\u{2028}'
        || c == '\u{2029}' || c == '\u{202f}' || c == '\u{205f}' || c == '\u{3000}'
}

/// The lower case form of an ASCII letter; any other character as it is.
pub open spec fn ascii_lower(c: char) -> char {
    if 'A' <= c <= 'Z' {
        (c as u32 + 32) as char
    } else {
        c
    }
}

/// Whether two texts are equal when the case of ASCII letters is ignored.
pub open spec fn same_ignoring_ascii_case(a: Seq<char>, b: Seq<char>) -> bool {
    &&& a.len() == b.len()
    &&& forall|i: int| 0 <= i < a.len() ==> ascii_lower(#[trigger] a[i]) == ascii_lower(b[i])
}

/// The lower case form of an ASCII letter; any other character as it is.
pub fn to_ascii_lower(c: char) -> (res: char)
    ensures
        res == ascii_lower(c),
{
    if 'A' <= c && c <= 'Z' {
        let code: u8 = c as u8;
        (code + 32) as char
    } else {
        c
    }
}

/// Whether `chars` continues at `at` with `pattern`, ignoring ASCII case.
pub fn matches_at_ignoring_ascii_case(chars: &Vec<char>, at: usize, pattern: &Vec<char>) -> (res:
    bool)
    requires
        at + pattern@.len() <= chars@.len(),
    ensures
        res == same_ignoring_ascii_case(
            chars@.subrange(at as int, at + pattern@.len()),
            pattern@,
        ),
{
    let ghost part = chars@.subrange(at as int, at + pattern@.len());
    let count: usize = chars.len();
    let mut i: usize = 0;
    while i < pattern.len()
        invariant
            i <= pattern@.len(),
            count == chars@.len(),
            at + pattern@.len() <= chars@.len(),
            part == chars@.subrange(at as int, at + pattern@.len()),
            forall|j: int| 0 <= j < i ==> ascii_lower(#[trigger] part[j]) == ascii_lower(pattern@[j]),
        decreases pattern@.len() - i,
    {
        assert(part[i as int] == chars@[at + i]);
        if to_ascii_lower(chars[at + i]) != to_ascii_lower(pattern[i]) {
            return false;
        }
        i = i + 1;
    }
    true
}

/// Whether two texts are equal when the case of ASCII letters is ignored.
pub fn eq_ignoring_ascii_case(a: &str, b: &str) -> (res: bool)
    ensures
        res == same_ignoring_ascii_case(a@, b@),
{
    let x = to_chars(a);
    let y = to_chars(b);
    if x.len() != y.len() {
        return false;
    }
    assert(x@.subrange(0, y@.len() as int) == x@);
    matches_at_ignoring_ascii_case(&x, 0, &y)
}

/// `s` without the longest tail whose characters all belong to `class`.
pub open spec fn strip_end(s: Seq<char>, class: CharClass) -> Seq<char>
    decreases s.len(),
{
    if s.len() > 0 && class.holds(s.last()) {
        strip_end(s.drop_last(), class)
    } else {
        s
    }
}

/// `s` without the longest head whose characters all belong to `class`.
pub open spec fn strip_start(s: Seq<char>, class: CharClass) -> Seq<char>
    decreases s.len(),
{
    if s.len() > 0 && class.holds(s[0]) {
        strip_start(s.drop_first(), class)
    } else {
        s
    }
}

/// `s` without the characters of `class` at either end.
pub open spec fn strip(s: Seq<char>, class: CharClass) -> Seq<char> {
    strip_end(strip_start(s, class), class)
}

/// `s` without white space at either end.
pub open spec fn trim(s: Seq<char>) -> Seq<char> {
    strip(s, CharClass::Space)
}

/// The position after the last character of `chars[lo..hi]` outside `class`.
pub fn end_without(chars: &Vec<char>, lo: usize, hi: usize, class: CharClass) -> (res: usize)
    requires
        lo <= hi <= chars@.len(),
    ensures
        lo <= res <= hi,
        strip_end(chars@.subrange(lo as int, hi as int), class) == chars@.subrange(
            lo as int,
            res as int,
        ),
{
    let mut end: usize = hi;
    while end > lo && class.contains(chars[end - 1])
        invariant
            lo <= end <= hi <= chars@.len(),
            strip_end(chars@.subrange(lo as int, hi as int), class) == strip_end(
                chars@.subrange(lo as int, end as int),
                class,
            ),
        decreases end,
    {
        assert(chars@.subrange(lo as int, end as int).drop_last() == chars@.subrange(
            lo as int,
            end - 1,
        ));
        end = end - 1;
    }
    end
}

/// The position of the first character of `chars[lo..hi]` outside `class`.
pub fn start_without(chars: &Vec<char>, lo: usize, hi: usize, class: CharClass) -> (res: usize)
    requires
        lo <= hi <= chars@.len(),
    ensures
        lo <= res <= hi,
        strip_start(chars@.subrange(lo as int, hi as int), class) == chars@.subrange(
            res as int,
            hi as int,
        ),
{
    let mut start: usize = lo;
    while start < hi && class.contains(chars[start])
        invariant
            lo <= start <= hi <= chars@.len(),
            strip_start(chars@.subrange(lo as int, hi as int), class) == strip_start(
                chars@.subrange(start as int, hi as int),
                class,
            ),
        decreases hi - start,
    {
        assert(chars@.subrange(start as int, hi as int).drop_first() == chars@.subrange(
            start + 1,
            hi as int,
        ));
        start = start + 1;
    }
    start
}

/// The bounds of `chars[lo..hi]` without the characters of `class` at either end.
pub fn strip_bounds(chars: &Vec<char>, lo: usize, hi: usize, class: CharClass) -> (res: (
    usize,
    usize,
))
    requires
        lo <= hi <= chars@.len(),
    ensures
        lo <= res.0 <= res.1 <= hi,
        strip(chars@.subrange(lo as int, hi as int), class) == chars@.subrange(
            res.0 as int,
            res.1 as int,
        ),
{
    let start: usize = start_without(chars, lo, hi, class);
    let end: usize = end_without(chars, start, hi, class);
    (start, end)
}

/// The text without white space at either end.
pub fn trimmed(s: &str) -> (res: String)
    ensures
        res@ == trim(s@),
{
    let chars = to_chars(s);
    let (lo, hi) = strip_bounds(&chars, 0, chars.len(), CharClass::Space);
    assert(chars@.subrange(0, chars@.len() as int) == chars@);
    from_chars(&chars, lo, hi)
}

/// Whether a text is empty or holds nothing but white space.
pub fn is_blank(s: &str) -> (res: bool)
    ensures
        res == (trim(s@).len() == 0),
{
    let chars = to_chars(s);
    let (lo, hi) = strip_bounds(&chars, 0, chars.len(), CharClass::Space);
    assert(chars@.subrange(0, chars@.len() as int) == chars@);
    lo == hi
}

/// Stripping the end leaves a prefix that no longer ends in the class.
pub proof fn lemma_strip_end(s: Seq<char>, class: CharClass)
    ensures
        strip_end(s, class).len() <= s.len(),
        strip_end(s, class) == s.subrange(0, strip_end(s, class).len() as int),
        strip_end(s, class).len() > 0 ==> !class.holds(strip_end(s, class).last()),
        forall|i: int|
            strip_end(s, class).len() <= i < s.len() ==> class.holds(#[trigger] s[i]),
    decreases s.len(),
{
    if s.len() > 0 && class.holds(s.last()) {
        lemma_strip_end(s.drop_last(), class);
        let n = strip_end(s, class).len() as int;
        assert(s.drop_last().subrange(0, n) == s.subrange(0, n));
        assert forall|i: int| n <= i < s.len() implies class.holds(#[trigger] s[i]) by {
            if i < s.len() - 1 {
                assert(s.drop_last()[i] == s[i]);
            }
        }
    } else {
        assert(s == s.subrange(0, s.len() as int));
    }
}

/// Stripping the start leaves a suffix that no longer begins with the class.
pub proof fn lemma_strip_start(s: Seq<char>, class: CharClass)
    ensures
        strip_start(s, class).len() <= s.len(),
        strip_start(s, class) == s.subrange(
            s.len() - strip_start(s, class).len(),
            s.len() as int,
        ),
        strip_start(s, class).len() > 0 ==> !class.holds(strip_start(s, class)[0]),
        forall|i: int|
            0 <= i < s.len() - strip_start(s, class).len() ==> class.holds(#[trigger] s[i]),
    decreases s.len(),
{
    if s.len() > 0 && class.holds(s[0]) {
        lemma_strip_start(s.drop_first(), class);
        let n = strip_start(s, class).len() as int;
        let t = s.drop_first();
        assert(t.subrange(t.len() - n, t.len() as int) == s.subrange(s.len() - n, s.len() as int));
        assert forall|i: int| 0 <= i < s.len() - n implies class.holds(#[trigger] s[i]) by {
            if i > 0 {
                assert(t[i - 1] == s[i]);
            }
        }
    } else {
        assert(s == s.subrange(0, s.len() as int));
    }
}

/// A text that neither begins nor ends with the class is left alone.
pub proof fn lemma_strip_nothing(s: Seq<char>, class: CharClass)
    requires
        s.len() > 0 ==> !class.holds(s[0]) && !class.holds(s.last()),
    ensures
        strip(s, class) == s,
{
}

/// What stripping leaves neither begins nor ends with the class, and is a part
/// of the text that was stripped.
pub proof fn lemma_strip(s: Seq<char>, class: CharClass) -> (bounds: (int, int))
    ensures
        0 <= bounds.0 <= bounds.1 <= s.len(),
        strip(s, class) == s.subrange(bounds.0, bounds.1),
        strip(s, class).len() > 0 ==> !class.holds(strip(s, class)[0]) && !class.holds(
            strip(s, class).last(),
        ),
        forall|i: int|
            0 <= i < bounds.0 || bounds.1 <= i < s.len() ==> class.holds(#[trigger] s[i]),
{
    let t = strip_start(s, class);
    lemma_strip_start(s, class);
    lemma_strip_end(t, class);
    let lo = s.len() - t.len();
    let hi = lo + strip_end(t, class).len();
    assert(t.subrange(0, hi - lo) == s.subrange(lo, hi));
    assert forall|i: int| hi <= i < s.len() implies class.holds(#[trigger] s[i]) by {
        assert(t[i - lo] == s[i]);
    }
    (lo, hi)
}

/// A text that trimming leaves alone has no white space at its ends.
pub proof fn lemma_trimmed_ends(s: Seq<char>)
    requires
        trim(s) == s,
        s.len() > 0,
    ensures
        !is_space(s[0]),
        !is_space(s.last()),
{
    let stripped = strip_start(s, CharClass::Space);
    lemma_strip_start(s, CharClass::Space);
    lemma_strip_end(stripped, CharClass::Space);
    assert(stripped.len() == s.len());
}

/// `s` cut at every `separator`: one part more than there are separators.
pub open spec fn split_on(s: Seq<char>, separator: char) -> Seq<Seq<char>>
    decreases s.len(),
{
    if s.len() == 0 {
        seq![Seq::empty()]
    } else {
        let before = split_on(s.drop_last(), separator);
        if s.last() == separator {
            before.push(Seq::empty())
        } else {
            before.drop_last().push(before.last().push(s.last()))
        }
    }
}

/// The bounds of the parts of `chars` between the separators.
pub fn split_bounds(chars: &Vec<char>, separator: char) -> (res: Vec<(usize, usize)>)
    ensures
        res@.len() == split_on(chars@, separator).len(),
        forall|i: int|
            0 <= i < res@.len() ==> {
                &&& (#[trigger] res@[i]).0 <= res@[i].1 <= chars@.len()
                &&& chars@.subrange(res@[i].0 as int, res@[i].1 as int) == split_on(
                    chars@,
                    separator,
                )[i]
            },
{
    let mut res: Vec<(usize, usize)> = Vec::new();
    let mut start: usize = 0;
    let mut i: usize = 0;
    assert(chars@.take(0) == Seq::<char>::empty());
    assert(chars@.subrange(0, 0) == Seq::<char>::empty());
    while i < chars.len()
        invariant
            start <= i <= chars@.len(),
            res@.len() + 1 == split_on(chars@.take(i as int), separator).len(),
            split_on(chars@.take(i as int), separator).last() == chars@.subrange(
                start as int,
                i as int,
            ),
            forall|j: int|
                0 <= j < res@.len() ==> {
                    &&& (#[trigger] res@[j]).0 <= res@[j].1 <= chars@.len()
                    &&& chars@.subrange(res@[j].0 as int, res@[j].1 as int) == split_on(
                        chars@.take(i as int),
                        separator,
                    )[j]
                },
        decreases chars@.len() - i,
    {
        assert(chars@.take(i + 1).drop_last() == chars@.take(i as int));
        assert(chars@.take(i + 1).last() == chars@[i as int]);
        if chars[i] == separator {
            res.push((start, i));
            start = i + 1;
            assert(chars@.subrange(start as int, i + 1) == Seq::<char>::empty());
        } else {
            assert(chars@.subrange(start as int, i + 1) == chars@.subrange(
                start as int,
                i as int,
            ).push(chars@[i as int]));
        }
        i = i + 1;
    }
    assert(chars@.take(i as int) == chars@);
    res.push((start, i));
    res
}

/// Adding text without a separator lengthens the last part.
pub proof fn lemma_split_on_extend(s: Seq<char>, more: Seq<char>, separator: char)
    requires
        !more.contains(separator),
    ensures
        split_on(s, separator).len() > 0,
        split_on(s + more, separator) == split_on(s, separator).drop_last().push(
            split_on(s, separator).last() + more,
        ),
    decreases s.len() + more.len(),
{
    lemma_split_on_nonempty(s, separator);
    let before = split_on(s, separator);
    if more.len() == 0 {
        assert(s + more == s);
        assert(before.last() + more == before.last());
        assert(before == before.drop_last().push(before.last()));
    } else {
        let shorter = more.drop_last();
        assert(!shorter.contains(separator)) by {
            if shorter.contains(separator) {
                let i = choose|i: int| 0 <= i < shorter.len() && shorter[i] == separator;
                assert(more[i] == separator);
            }
        }
        lemma_split_on_extend(s, shorter, separator);
        assert((s + more).drop_last() == s + shorter);
        assert(more.last() != separator) by {
            assert(more[more.len() - 1] == more.last());
        }
        let now = split_on(s + shorter, separator);
        assert(now.drop_last() == before.drop_last());
        assert((before.last() + shorter).push(more.last()) == before.last() + more);
    }
}

proof fn lemma_split_on_nonempty(s: Seq<char>, separator: char)
    ensures
        split_on(s, separator).len() > 0,
    decreases s.len(),
{
    if s.len() > 0 {
        lemma_split_on_nonempty(s.drop_last(), separator);
    }
}

/// The number of words: of maximal runs of characters other than white space.
pub open spec fn word_count(s: Seq<char>) -> nat
    decreases s.len(),
{
    if s.len() == 0 {
        0
    } else {
        word_count(s.drop_last()) + (if !is_space(s.last()) && (s.len() == 1 || is_space(
            s[s.len() - 2],
        )) {
            1nat
        } else {
            0nat
        })
    }
}

/// The number of words in `chars[lo..hi]`.
pub fn count_words(chars: &Vec<char>, lo: usize, hi: usize) -> (res: usize)
    requires
        lo <= hi <= chars@.len(),
    ensures
        res == word_count(chars@.subrange(lo as int, hi as int)),
{
    let mut count: usize = 0;
    let mut i: usize = lo;
    assert(chars@.subrange(lo as int, lo as int) == Seq::<char>::empty());
    while i < hi
        invariant
            lo <= i <= hi <= chars@.len(),
            count <= i - lo,
            count == word_count(chars@.subrange(lo as int, i as int)),
        decreases hi - i,
    {
        assert(chars@.subrange(lo as int, i + 1).drop_last() == chars@.subrange(
            lo as int,
            i as int,
        ));
        if !is_white_space(chars[i]) && (i == lo || is_white_space(chars[i - 1])) {
            count = count + 1;
        }
        i = i + 1;
    }
    count
}

/// Whether `part` occurs somewhere in `s`.
pub open spec fn occurs_in(part: Seq<char>, s: Seq<char>) -> bool {
    exists|at: int|
        0 <= at <= s.len() - part.len() && #[trigger] s.subrange(at, at + part.len()) == part
}

/// Whether `chars` continues at `at` with `pattern`.
pub fn matches_at(chars: &Vec<char>, at: usize, pattern: &Vec<char>) -> (res: bool)
    requires
        at + pattern@.len() <= chars@.len(),
    ensures
        res == (chars@.subrange(at as int, at + pattern@.len()) == pattern@),
{
    let ghost part = chars@.subrange(at as int, at + pattern@.len());
    let count: usize = chars.len();
    let mut i: usize = 0;
    while i < pattern.len()
        invariant
            i <= pattern@.len(),
            count == chars@.len(),
            at + pattern@.len() <= chars@.len(),
            part == chars@.subrange(at as int, at + pattern@.len()),
            forall|j: int| 0 <= j < i ==> #[trigger] part[j] == pattern@[j],
        decreases pattern@.len() - i,
    {
        assert(part[i as int] == chars@[at + i]);
        if chars[at + i] != pattern[i] {
            return false;
        }
        i = i + 1;
    }
    assert(part == pattern@);
    true
}

/// Whether two texts are the same.
pub fn same_text(a: &str, b: &str) -> (res: bool)
    ensures
        res == (a@ == b@),
{
    let x = to_chars(a);
    let y = to_chars(b);
    if x.len() != y.len() {
        return false;
    }
    assert(x@.subrange(0, y@.len() as int) == x@);
    matches_at(&x, 0, &y)
}

/// Whether `part` occurs somewhere in `s`.
pub fn contains_text(s: &str, part: &str) -> (res: bool)
    ensures
        res == occurs_in(part@, s@),
{
    let chars = to_chars(s);
    let pattern = to_chars(part);
    let mut at: usize = 0;
    while at <= chars.len() && chars.len() - at >= pattern.len()
        invariant
            at <= chars@.len() + 1,
            chars@ == s@,
            pattern@ == part@,
            forall|j: int|
                0 <= j < at && j <= s@.len() - part@.len() ==> #[trigger] s@.subrange(
                    j,
                    j + part@.len(),
                ) != part@,
        decreases chars@.len() + 1 - at,
    {
        if matches_at(&chars, at, &pattern) {
            return true;
        }
        if at == chars.len() {
            return false;
        }
        at = at + 1;
    }
    false
}

/// Whether `s` ends with `suffix`.
pub fn finishes_with(s: &str, suffix: &str) -> (res: bool)
    ensures
        res == suffix@.is_suffix_of(s@),
{
    let chars = to_chars(s);
    let pattern = to_chars(suffix);
    if chars.len() < pattern.len() {
        return false;
    }
    matches_at(&chars, chars.len() - pattern.len(), &pattern)
}

/// The character for a digit below sixteen, in lower case.
pub open spec fn digit_char(digit: nat) -> char {
    if digit < 10 {
        (48 + digit) as char
    } else {
        (87 + digit) as char
    }
}

/// The digits of `n` in the given base, without leading zeros.
pub open spec fn digits(n: nat, base: nat) -> Seq<char>
    decreases n,
{
    if base < 2 || n < base {
        seq![digit_char(n)]
    } else {
        proof {
            assert(n / base < n) by (nonlinear_arith)
                requires
                    2 <= base,
                    base <= n,
            ;
        }
        digits(n / base, base).push(digit_char(n % base))
    }
}

/// The decimal digits of `n`.
pub open spec fn decimal(n: nat) -> Seq<char> {
    digits(n, 10)
}

/// The digits of `n` in the given base, without leading zeros.
pub fn format_digits(n: u64, base: u64) -> (res: String)
    requires
        2 <= base <= 16,
    ensures
        res@ == digits(n as nat, base as nat),
    decreases n,
{
    let mut res = if n < base {
        String::new()
    } else {
        assert(n / base < n) by (nonlinear_arith)
            requires
                2 <= base,
                base <= n,
        ;
        format_digits(n / base, base)
    };
    let digit: u8 = (n % base) as u8;
    assert(n < base ==> n % base == n) by (nonlinear_arith);
    assert(n % base < 16) by (nonlinear_arith)
        requires
            2 <= base <= 16,
    ;
    let c: char = if digit < 10 {
        (48 + digit) as char
    } else {
        (87 + digit) as char
    };
    res.push(c);
    res
}

/// The decimal digits of `n`.
pub fn format_decimal(n: u64) -> (res: String)
    ensures
        res@ == decimal(n as nat),
{
    format_digits(n, 10)
}

/// White space is what Unicode calls so: the tabs and line ends from U+0009 to
/// U+000D, the space, and the separators beyond ASCII.
pub proof fn law_white_space(c: char)
    ensures
        ({
            let code = c as u32;
            is_space(c) <==> {
                ||| 9 <= code <= 13
                ||| code == 32
                ||| code == 133
                ||| code == 160
                ||| code == 5760
                ||| 8192 <= code <= 8202
                ||| code == 8232
                ||| code == 8233
                ||| code == 8239
                ||| code == 8287
                ||| code == 12288
            }
        }),
{
}

/// Stripping takes exactly what stands at the ends: a text that neither begins nor
/// ends with the class comes out whole, whatever of the class surrounds it.
pub proof fn law_strip_unwraps(before: Seq<char>, s: Seq<char>, after: Seq<char>, class: CharClass)
    requires
        s.len() > 0 ==> !class.holds(s[0]) && !class.holds(s.last()),
        forall|i: int| 0 <= i < before.len() ==> class.holds(#[trigger] before[i]),
        forall|i: int| 0 <= i < after.len() ==> class.holds(#[trigger] after[i]),
    ensures
        strip(before + s + after, class) == s,
{
    let whole = before + s + after;
    let (lo, hi) = lemma_strip(whole, class);
    let start = before.len() as int;
    let end = start + s.len();
    let part = strip(whole, class);
    assert(forall|i: int| 0 <= i < start ==> whole[i] == before[i]);
    assert(forall|i: int| end <= i < whole.len() ==> whole[i] == after[i - end]);
    if lo < hi {
        assert(part[0] == whole[lo]);
        assert(part.last() == whole[hi - 1]);
    }
    if s.len() > 0 {
        assert(whole[start] == s[0]);
        assert(whole[end - 1] == s.last());
        assert(lo == start && hi == end);
    } else if lo < hi {
        assert(class.holds(whole[lo])) by {
            if lo < start {
                assert(whole[lo] == before[lo]);
            } else {
                assert(whole[lo] == after[lo - end]);
            }
        }
    }
    assert(part == s);
}

/// Trimming takes exactly the white space around a text.
pub proof fn law_trim_unwraps(before: Seq<char>, s: Seq<char>, after: Seq<char>)
    requires
        s.len() > 0 ==> !is_space(s[0]) && !is_space(s.last()),
        forall|i: int| 0 <= i < before.len() ==> is_space(#[trigger] before[i]),
        forall|i: int| 0 <= i < after.len() ==> is_space(#[trigger] after[i]),
    ensures
        trim(before + s + after) == s,
{
    law_strip_unwraps(before, s, after, CharClass::Space);
}

proof fn lemma_words_add_up(a: Seq<char>, b: Seq<char>)
    requires
        a.len() > 0 ==> is_space(a.last()),
    ensures
        word_count(a + b) == word_count(a) + word_count(b),
    decreases b.len(),
{
    if b.len() == 0 {
        assert(a + b == a);
    } else {
        let shorter = b.drop_last();
        lemma_words_add_up(a, shorter);
        assert((a + b).drop_last() == a + shorter);
        assert((a + b).last() == b.last());
        if b.len() > 1 {
            assert((a + b)[(a + b).len() - 2] == b[b.len() - 2]);
        } else if a.len() > 0 {
            assert((a + b)[(a + b).len() - 2] == a.last());
        }
    }
}

proof fn lemma_no_words(s: Seq<char>)
    requires
        forall|i: int| 0 <= i < s.len() ==> is_space(#[trigger] s[i]),
    ensures
        word_count(s) == 0,
    decreases s.len(),
{
    if s.len() > 0 {
        assert(is_space(s[s.len() - 1]));
        lemma_no_words(s.drop_last());
    }
}

proof fn lemma_spaces_end_words(a: Seq<char>, spaces: Seq<char>)
    requires
        forall|i: int| 0 <= i < spaces.len() ==> is_space(#[trigger] spaces[i]),
    ensures
        word_count(a + spaces) == word_count(a),
    decreases spaces.len(),
{
    if spaces.len() == 0 {
        assert(a + spaces == a);
    } else {
        assert(is_space(spaces[spaces.len() - 1]));
        lemma_spaces_end_words(a, spaces.drop_last());
        assert((a + spaces).drop_last() == a + spaces.drop_last());
        assert((a + spaces).last() == spaces.last());
    }
}

/// A text without white space is one word.
pub proof fn law_one_word(word: Seq<char>)
    requires
        word.len() > 0,
        forall|i: int| 0 <= i < word.len() ==> !is_space(#[trigger] word[i]),
    ensures
        word_count(word) == 1,
    decreases word.len(),
{
    assert(!is_space(word[word.len() - 1]));
    if word.len() > 1 {
        assert(!is_space(word[word.len() - 2]));
        law_one_word(word.drop_last());
    } else {
        assert(word_count(word.drop_last()) == 0);
    }
}

/// White space separates words, however much of it, and is no word itself: the
/// words before it and after it add up.
pub proof fn law_words_add_up(a: Seq<char>, spaces: Seq<char>, b: Seq<char>)
    requires
        spaces.len() > 0,
        forall|i: int| 0 <= i < spaces.len() ==> is_space(#[trigger] spaces[i]),
    ensures
        word_count(a + spaces + b) == word_count(a) + word_count(b),
        word_count(spaces) == 0,
{
    assert(is_space(spaces[spaces.len() - 1]));
    assert((a + spaces).last() == spaces.last());
    lemma_words_add_up(a + spaces, b);
    lemma_spaces_end_words(a, spaces);
    lemma_no_words(spaces);
}

/// Texts with a separator between each and the next.
pub open spec fn rejoined(parts: Seq<Seq<char>>, separator: char) -> Seq<char>
    decreases parts.len(),
{
    if parts.len() == 0 {
        Seq::empty()
    } else if parts.len() == 1 {
        parts[0]
    } else {
        rejoined(parts.drop_last(), separator).push(separator) + parts.last()
    }
}

/// Splitting undoes joining: texts that are put together with a separator that
/// none of them holds come out again, each as it was and in their order.
pub proof fn law_split_undoes_join(parts: Seq<Seq<char>>, separator: char)
    requires
        parts.len() > 0,
        forall|i: int| 0 <= i < parts.len() ==> !(#[trigger] parts[i]).contains(separator),
    ensures
        split_on(rejoined(parts, separator), separator) == parts,
    decreases parts.len(),
{
    let last = parts.last();
    assert(last == parts[parts.len() - 1]);
    let none = Seq::<char>::empty();
    if parts.len() == 1 {
        lemma_split_on_extend(none, last, separator);
        assert(none + last == last);
        assert(split_on(none, separator) == seq![none]);
        assert(seq![none].drop_last().push(last) == parts);
    } else {
        let before = parts.drop_last();
        assert forall|i: int| 0 <= i < before.len() implies !(#[trigger] before[i]).contains(
            separator,
        ) by {
            assert(before[i] == parts[i]);
        }
        law_split_undoes_join(before, separator);
        let head = rejoined(before, separator).push(separator);
        assert(head.drop_last() == rejoined(before, separator));
        assert(split_on(head, separator) == before.push(none));
        lemma_split_on_extend(head, last, separator);
        assert(none + last == last);
        assert(before.push(none).drop_last() == before);
        assert(before.push(last) == parts);
    }
}

/// Two texts are the same but for ASCII case exactly where each character of the
/// one is that of the other, or both are the same letter from A to Z.
pub proof fn law_ascii_case(a: Seq<char>, b: Seq<char>)
    ensures
        same_ignoring_ascii_case(a, b) <==> a.len() == b.len() && forall|i: int|
            0 <= i < a.len() ==> {
                ||| #[trigger] a[i] == b[i]
                ||| 65 <= a[i] as u32 <= 90 && b[i] as u32 == a[i] as u32 + 32
                ||| 65 <= b[i] as u32 <= 90 && a[i] as u32 == b[i] as u32 + 32
            },
{
    if same_ignoring_ascii_case(a, b) {
        assert forall|i: int| 0 <= i < a.len() implies {
            ||| #[trigger] a[i] == b[i]
            ||| 65 <= a[i] as u32 <= 90 && b[i] as u32 == a[i] as u32 + 32
            ||| 65 <= b[i] as u32 <= 90 && a[i] as u32 == b[i] as u32 + 32
        } by {
            assert(ascii_lower(a[i]) == ascii_lower(b[i]));
        }
    }
}

/// The number that decimal digits write.
pub open spec fn decimal_value(digits: Seq<char>) -> nat
    decreases digits.len(),
{
    if digits.len() == 0 {
        0
    } else {
        (10 * decimal_value(digits.drop_last()) + (digits.last() as u32 - 48)) as nat
    }
}

/// A number is written in decimal digits, without leading zeros, so that it can be
/// read back.
pub proof fn law_decimals_can_be_read_back(n: nat)
    ensures
        decimal_value(decimal(n)) == n,
        decimal(n).len() > 0,
        forall|i: int|
            0 <= i < decimal(n).len() ==> 48 <= (#[trigger] decimal(n)[i]) as u32 <= 57,
        n > 0 ==> decimal(n)[0] as u32 != 48,
        n == 0 ==> decimal(n).len() == 1,
    decreases n,
{
    let all = decimal(n);
    if n < 10 {
        assert(all.drop_last() == Seq::<char>::empty());
        assert(decimal_value(all.drop_last()) == 0);
    } else {
        law_decimals_can_be_read_back(n / 10);
        let head = decimal(n / 10);
        assert(all == head.push(digit_char(n % 10)));
        assert(all.drop_last() == head);
        assert forall|i: int| 0 <= i < all.len() implies 48 <= (#[trigger] all[i]) as u32 <= 57 by {
            if i < head.len() {
                assert(all[i] == head[i]);
            }
        }
        assert(all[0] == head[0]);
    }
}

/// Trimming leaves nothing exactly of a text of white space alone.
pub proof fn lemma_blank(s: Seq<char>)
    ensures
        trim(s).len() == 0 <==> forall|i: int| 0 <= i < s.len() ==> is_space(#[trigger] s[i]),
{
    let (lo, hi) = lemma_strip(s, CharClass::Space);
    if lo < hi {
        assert(trim(s)[0] == s[lo]);
    }
}

/// Hexadecimal digits are written in lower case, the most significant first, without
/// leading zeros: one digit more for each multiplication by sixteen.
pub proof fn law_hexadecimal_digits(n: nat, digit: nat)
    requires
        digit < 16,
    ensures
        ({
            let last = if digit < 10 {
                (48 + digit) as char
            } else {
                (87 + digit) as char
            };
            &&& digits(digit, 16) == seq![last]
            &&& n > 0 ==> digits(16 * n + digit, 16) == digits(n, 16) + seq![last]
        }),
{
    if n > 0 {
        let all = 16 * n + digit;
        assert(all / 16 == n);
        assert(all % 16 == digit);
        assert(digits(n, 16).push(digit_char(digit)) == digits(n, 16) + seq![digit_char(digit)]);
    }
}

/// A text occurs in another wherever it stands there, with anything before and after
/// it; and where it occurs, it stands.
pub proof fn law_where_texts_occur(before: Seq<char>, part: Seq<char>, after: Seq<char>, s: Seq<char>)
    ensures
        occurs_in(part, before + part + after),
        occurs_in(part, s) ==> exists|at: int|
            0 <= at <= s.len() - part.len() && s == #[trigger] s.take(at) + part + s.skip(
                at + part.len(),
            ),
{
    let whole = before + part + after;
    let at = before.len() as int;
    assert(whole.subrange(at, at + part.len()) == part);
    if occurs_in(part, s) {
        let at = choose|at: int|
            0 <= at <= s.len() - part.len() && #[trigger] s.subrange(at, at + part.len()) == part;
        assert(s == s.take(at) + part + s.skip(at + part.len()));
    }
}

} // verus!
