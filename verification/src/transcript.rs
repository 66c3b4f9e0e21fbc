//! Removal of transcription artifacts at the ends of a transcript.

use crate::text::{self, end_without, from_chars, strip_bounds, to_chars, CharClass};
use vstd::prelude::*;

verus! {

/// The number of full stops at the end of `s`.
pub open spec fn trailing_periods(s: Seq<char>) -> int {
    s.len() - text::strip_end(s, CharClass::Period).len()
}

/// Whether `s` ends in something that cleaning takes away: an ellipsis, written
/// as one character or as three or more full stops, a hyphen or white space.
pub open spec fn ends_unfinished(s: Seq<char>) -> bool {
    ||| s.len() > 0 && CharClass::TrailingMark.holds(s.last())
    ||| trailing_periods(s) >= 3
}

/// `s` without the ellipses, hyphens and white space at its end.
///
/// One or two full stops are ordinary punctuation and stay.
pub open spec fn finished(s: Seq<char>) -> Seq<char>
    decreases s.len(),
{
    let marked = text::strip_end(s, CharClass::TrailingMark);
    let stopped = text::strip_end(marked, CharClass::Period);
    proof {
        text::lemma_strip_end(s, CharClass::TrailingMark);
    }
    if marked.len() - stopped.len() >= 3 {
        finished(stopped)
    } else {
        marked
    }
}

/// The cleaned form of a transcript: the double quotes and white space around
/// it are removed, then what `finished` removes at its end, and so on for as long
/// as there is something to remove: an ellipsis can hide a closing quote.
pub open spec fn cleaned(s: Seq<char>) -> Seq<char>
    decreases s.len(),
{
    let cut = finished(text::strip(s, CharClass::QuoteOrSpace));
    if cut.len() < s.len() {
        cleaned(cut)
    } else {
        cut
    }
}

/// Where `finished` cuts off the characters from `lo` to `hi`.
fn finished_end(chars: &Vec<char>, lo: usize, hi: usize) -> (res: usize)
    requires
        lo <= hi <= chars@.len(),
    ensures
        lo <= res <= hi,
        finished(chars@.subrange(lo as int, hi as int)) == chars@.subrange(lo as int, res as int),
{
    let mut end: usize = hi;
    loop
        invariant
            lo <= end <= hi <= chars@.len(),
            finished(chars@.subrange(lo as int, hi as int)) == finished(
                chars@.subrange(lo as int, end as int),
            ),
        decreases end,
    {
        let marked: usize = end_without(chars, lo, end, CharClass::TrailingMark);
        let stopped: usize = end_without(chars, lo, marked, CharClass::Period);
        if marked - stopped >= 3 {
            end = stopped;
        } else {
            return marked;
        }
    }
}

/// Cleans transcription artifacts without altering meaningful punctuation.
pub fn clean(text: &str) -> (res: String)
    ensures
        res@ == cleaned(text@),
{
    let chars = to_chars(text);
    assert(chars@.subrange(0, chars@.len() as int) == chars@);
    let mut lo: usize = 0;
    let mut hi: usize = chars.len();
    loop
        invariant
            lo <= hi <= chars@.len(),
            cleaned(text@) == cleaned(chars@.subrange(lo as int, hi as int)),
        decreases hi - lo,
    {
        let (start, end) = strip_bounds(&chars, lo, hi, CharClass::QuoteOrSpace);
        let cut: usize = finished_end(&chars, start, end);
        if cut - start < hi - lo {
            lo = start;
            hi = cut;
        } else {
            return from_chars(&chars, start, cut);
        }
    }
}

/// Whether three full stops stand at `at`.
pub open spec fn dots_at(s: Seq<char>, at: int) -> bool {
    0 <= at <= s.len() - 3 && s[at] == '.' && s[at + 1] == '.' && s[at + 2] == '.'
}

/// Whether the character at `i` belongs to three full stops in a row that stand
/// at `from` or later.
pub open spec fn in_dots(s: Seq<char>, from: int, i: int) -> bool {
    exists|at: int| from <= at <= i < at + 3 && #[trigger] dots_at(s, at)
}

/// Whether `c` is a double quote, straight or typographic, or white space.
pub open spec fn surrounds(c: char) -> bool {
    c == '"' || c == '\u{201c}' || c == '\u{201d}' || text::is_space(c)
}

/// Whether the character at `i` may be cut after a text that ends at `from`: a
/// double quote, white space, an ellipsis character, a hyphen, or a full stop
/// among three or more in a row.
pub open spec fn follows(s: Seq<char>, from: int, i: int) -> bool {
    surrounds(s[i]) || s[i] == '\u{2026}' || s[i] == '-' || in_dots(s, from, i)
}

/// Whether the part of `s` from `lo` up to `hi` is what a cleaned transcript keeps
/// of it:
///
/// - before it stand double quotes and white space alone;
/// - after it stand double quotes, white space, ellipsis characters, hyphens and
///   full stops alone, the full stops in runs of three or more;
/// - it neither begins nor ends with a double quote or white space, nor ends in an
///   ellipsis character, a hyphen or three full stops;
/// - no run of full stops is cut in two.
pub open spec fn cut_rightly(s: Seq<char>, lo: int, hi: int) -> bool {
    &&& 0 <= lo <= hi <= s.len()
    &&& forall|i: int| 0 <= i < lo ==> surrounds(#[trigger] s[i])
    &&& forall|i: int| hi <= i < s.len() ==> #[trigger] follows(s, hi, i)
    &&& lo < hi ==> {
        &&& !surrounds(s[lo])
        &&& !surrounds(s[hi - 1])
        &&& s[hi - 1] != '\u{2026}'
        &&& s[hi - 1] != '-'
        &&& lo <= hi - 3 ==> !dots_at(s, hi - 3)
        &&& hi < s.len() && s[hi] == '.' ==> s[hi - 1] != '.'
    }
}

/// `finished` takes a prefix that no longer ends unfinished, and removes only
/// ellipses, full stops, hyphens and white space, the full stops in runs of three or
/// more.
pub proof fn lemma_finished(s: Seq<char>)
    ensures
        finished(s).len() <= s.len(),
        finished(s) == s.subrange(0, finished(s).len() as int),
        !ends_unfinished(finished(s)),
        forall|i: int|
            finished(s).len() <= i < s.len() ==> CharClass::TrailingMark.holds(#[trigger] s[i])
                || s[i] == '.',
        forall|i: int|
            finished(s).len() <= i < s.len() ==> #[trigger] follows(s, finished(s).len() as int, i),
        0 < finished(s).len() < s.len() && s[finished(s).len() as int] == '.' ==> finished(
            s,
        ).last() != '.',
    decreases s.len(),
{
    let marked = text::strip_end(s, CharClass::TrailingMark);
    let stopped = text::strip_end(marked, CharClass::Period);
    text::lemma_strip_end(s, CharClass::TrailingMark);
    text::lemma_strip_end(marked, CharClass::Period);
    let n = finished(s).len() as int;
    if marked.len() - stopped.len() >= 3 {
        lemma_finished(stopped);
        assert(stopped.subrange(0, n) == s.subrange(0, n));
        assert forall|i: int| n <= i < s.len() implies CharClass::TrailingMark.holds(
            #[trigger] s[i],
        ) || s[i] == '.' by {
            if i < stopped.len() {
                assert(stopped[i] == s[i]);
            } else if i < marked.len() {
                assert(marked[i] == s[i]);
            }
        }
        assert forall|i: int| n <= i < s.len() implies #[trigger] follows(s, n, i) by {
            if i < stopped.len() {
                assert(follows(stopped, n, i));
                assert(stopped[i] == s[i]);
                if in_dots(stopped, n, i) {
                    let at = choose|at: int| n <= at <= i < at + 3 && #[trigger] dots_at(stopped, at);
                    assert(dots_at(s, at));
                }
            } else if i < marked.len() {
                let at = if i <= marked.len() - 3 {
                    i
                } else {
                    marked.len() - 3
                };
                assert(marked[at] == '.' && marked[at + 1] == '.' && marked[at + 2] == '.');
                assert(dots_at(s, at));
            } else {
                assert(CharClass::TrailingMark.holds(s[i]));
            }
        }
        if 0 < n < s.len() {
            if n < stopped.len() {
                assert(stopped[n] == s[n]);
            } else {
                assert(finished(s).last() == stopped.last());
            }
        }
    } else {
        assert forall|i: int| n <= i < s.len() implies #[trigger] follows(s, n, i) by {
            assert(CharClass::TrailingMark.holds(s[i]));
        }
        if n < s.len() {
            assert(CharClass::TrailingMark.holds(s[n]));
        }
    }
}

/// One round of cleaning takes a part of the text that begins with neither a
/// double quote nor white space and does not end unfinished.
proof fn lemma_cut(s: Seq<char>) -> (bounds: (int, int))
    ensures
        0 <= bounds.0 <= bounds.1 <= s.len(),
        finished(text::strip(s, CharClass::QuoteOrSpace)) == s.subrange(bounds.0, bounds.1),
        bounds.0 < bounds.1 ==> !CharClass::QuoteOrSpace.holds(s[bounds.0]),
        !ends_unfinished(s.subrange(bounds.0, bounds.1)),
        bounds.0 == 0 && bounds.1 == s.len() && s.len() > 0 ==> !CharClass::QuoteOrSpace.holds(
            s.last(),
        ),
        forall|i: int| 0 <= i < bounds.0 ==> CharClass::QuoteOrSpace.holds(#[trigger] s[i]),
        forall|i: int|
            bounds.1 <= i < s.len() ==> CharClass::QuoteOrSpace.holds(#[trigger] s[i])
                || CharClass::TrailingMark.holds(s[i]) || s[i] == '.',
        forall|i: int| bounds.1 <= i < s.len() ==> #[trigger] follows(s, bounds.1, i),
        bounds.0 < bounds.1 < s.len() && s[bounds.1] == '.' ==> s[bounds.1 - 1] != '.',
{
    let inner = text::strip(s, CharClass::QuoteOrSpace);
    let (lo, hi) = text::lemma_strip(s, CharClass::QuoteOrSpace);
    lemma_finished(inner);
    let n = finished(inner).len() as int;
    let end = lo + n;
    assert(inner.subrange(0, n) == s.subrange(lo, end));
    assert forall|i: int| end <= i < s.len() implies CharClass::QuoteOrSpace.holds(
        #[trigger] s[i],
    ) || CharClass::TrailingMark.holds(s[i]) || s[i] == '.' by {
        if i < hi {
            assert(inner[i - lo] == s[i]);
        }
    }
    assert forall|i: int| end <= i < s.len() implies #[trigger] follows(s, end, i) by {
        if i < hi {
            assert(follows(inner, n, i - lo));
            assert(inner[i - lo] == s[i]);
            if in_dots(inner, n, i - lo) {
                let at = choose|at: int|
                    n <= at <= i - lo < at + 3 && #[trigger] dots_at(inner, at);
                assert(dots_at(s, at + lo));
            }
        }
    }
    if lo < end && end < s.len() && s[end] == '.' {
        assert(end < hi);
        assert(inner[n] == s[end]);
        assert(finished(inner).last() == s[end - 1]);
    }
    (lo, end)
}

/// Cleaning only cuts at the ends: the result is a contiguous part of the
/// transcript, what is cut before it is double quotes and white space, what is cut
/// after it is double quotes, white space, ellipses, full stops and hyphens, and it
/// is cut rightly. Punctuation inside the transcript is never
/// touched, nor are one or two full stops at its end.
pub proof fn law_clean_cuts_only_the_ends(s: Seq<char>) -> (bounds: (int, int))
    ensures
        0 <= bounds.0 <= bounds.1 <= s.len(),
        cleaned(s) == s.subrange(bounds.0, bounds.1),
        cut_rightly(s, bounds.0, bounds.1),
        forall|i: int| 0 <= i < bounds.0 ==> CharClass::QuoteOrSpace.holds(#[trigger] s[i]),
        forall|i: int|
            bounds.1 <= i < s.len() ==> CharClass::QuoteOrSpace.holds(#[trigger] s[i])
                || CharClass::TrailingMark.holds(s[i]) || s[i] == '.',
    decreases s.len(),
{
    let (lo, hi) = lemma_cut(s);
    let cut = s.subrange(lo, hi);
    law_clean_leaves_no_artifact(s);
    if cut.len() < s.len() {
        let (start, end) = law_clean_cuts_only_the_ends(cut);
        let (first, last) = (lo + start, lo + end);
        assert(cut.subrange(start, end) == s.subrange(first, last));
        assert forall|i: int| 0 <= i < first implies CharClass::QuoteOrSpace.holds(
            #[trigger] s[i],
        ) by {
            if i >= lo {
                assert(cut[i - lo] == s[i]);
            }
        }
        assert forall|i: int| last <= i < s.len() implies #[trigger] follows(s, last, i) by {
            if i < hi {
                assert(follows(cut, end, i - lo));
                assert(cut[i - lo] == s[i]);
                if in_dots(cut, end, i - lo) {
                    let at = choose|at: int|
                        end <= at <= i - lo < at + 3 && #[trigger] dots_at(cut, at);
                    assert(dots_at(s, at + lo));
                }
            } else {
                assert(follows(s, hi, i));
                if in_dots(s, hi, i) {
                    let at = choose|at: int| hi <= at <= i < at + 3 && #[trigger] dots_at(s, at);
                    assert(last <= at <= i < at + 3 && dots_at(s, at));
                }
            }
        }
        if first < last && last < s.len() && s[last] == '.' && last < hi {
            assert(cut[end] == s[last]);
            assert(cut[end - 1] == s[last - 1]);
        }
        lemma_kept_part(s, first, last);
        (first, last)
    } else {
        lemma_kept_part(s, lo, hi);
        (lo, hi)
    }
}

proof fn lemma_kept_part(s: Seq<char>, lo: int, hi: int)
    requires
        0 <= lo <= hi <= s.len(),
        cleaned(s) == s.subrange(lo, hi),
        forall|i: int| 0 <= i < lo ==> CharClass::QuoteOrSpace.holds(#[trigger] s[i]),
        forall|i: int| hi <= i < s.len() ==> #[trigger] follows(s, hi, i),
        lo < hi < s.len() && s[hi] == '.' ==> s[hi - 1] != '.',
    ensures
        cut_rightly(s, lo, hi),
        forall|i: int|
            hi <= i < s.len() ==> CharClass::QuoteOrSpace.holds(#[trigger] s[i])
                || CharClass::TrailingMark.holds(s[i]) || s[i] == '.',
{
    let part = s.subrange(lo, hi);
    law_clean_leaves_no_artifact(s);
    if lo < hi {
        assert(part[0] == s[lo]);
        assert(part.last() == s[hi - 1]);
        if lo <= hi - 3 && dots_at(s, hi - 3) {
            lemma_ends_in_dots(part);
        }
    }
    assert forall|i: int| hi <= i < s.len() implies CharClass::QuoteOrSpace.holds(#[trigger] s[i])
        || CharClass::TrailingMark.holds(s[i]) || s[i] == '.' by {
        assert(follows(s, hi, i));
    }
}

proof fn lemma_ends_in_dots(s: Seq<char>)
    requires
        dots_at(s, s.len() - 3),
    ensures
        ends_unfinished(s),
{
    let stopped = text::strip_end(s, CharClass::Period);
    text::lemma_strip_end(s, CharClass::Period);
    if stopped.len() > s.len() - 3 {
        assert(stopped.last() == s[stopped.len() - 1]);
    }
}

proof fn lemma_never_cut_shorter(s: Seq<char>, lo: int, hi: int, other_lo: int, other_hi: int)
    requires
        cut_rightly(s, lo, hi),
        cut_rightly(s, other_lo, other_hi),
        lo < hi,
    ensures
        hi <= other_hi,
{
    if other_hi < hi {
        let i = hi - 1;
        assert(follows(s, other_hi, i));
        let at = choose|at: int| other_hi <= at <= i < at + 3 && #[trigger] dots_at(s, at);
        assert(s[at] == '.');
        assert(!surrounds('.'));
        assert(lo <= at);
        if at + 3 == hi {
            assert(dots_at(s, hi - 3));
        } else {
            assert(s[hi] == '.' && s[hi - 1] == '.');
        }
    }
}

/// There is only one right cut: whatever part of a transcript is cut rightly is
/// what cleaning leaves of it.
pub proof fn law_the_right_cut_is_made(s: Seq<char>, lo: int, hi: int)
    requires
        cut_rightly(s, lo, hi),
    ensures
        cleaned(s) == s.subrange(lo, hi),
{
    let (first, last) = law_clean_cuts_only_the_ends(s);
    if lo < hi {
        assert(first <= lo);
        lemma_never_cut_shorter(s, lo, hi, first, last);
        assert(lo == first) by {
            if first < lo {
                assert(surrounds(s[first]));
            }
        }
        lemma_never_cut_shorter(s, first, last, lo, hi);
    } else if first < last {
        assert(lo <= first) by {
            if first < lo {
                assert(surrounds(s[first]));
            }
        }
        lemma_never_cut_shorter(s, first, last, lo, hi);
    }
}

/// Cleaning takes nothing but what surrounds a clean text: with any double quotes
/// and white space before it, and any double quotes, white space, ellipses and
/// hyphens after it, the text comes out whole. Its own full stops stay, unless
/// more of them follow at once.
pub proof fn law_clean_text_comes_out_whole(before: Seq<char>, s: Seq<char>, after: Seq<char>)
    requires
        s.len() > 0,
        cleaned(s) == s,
        forall|i: int| 0 <= i < before.len() ==> surrounds(#[trigger] before[i]),
        forall|i: int| 0 <= i < after.len() ==> #[trigger] follows(after, 0, i),
        after.len() > 0 && after[0] == '.' ==> s.last() != '.',
    ensures
        cleaned(before + s + after) == s,
{
    let whole = before + s + after;
    let (first, last) = law_clean_cuts_only_the_ends(s);
    let lo = before.len() as int;
    let hi = lo + s.len();
    assert(first == 0 && last == s.len());
    assert(whole[lo] == s[0]);
    assert(whole[hi - 1] == s.last());
    assert(lo <= hi - 3 && dots_at(whole, hi - 3) ==> dots_at(s, s.len() - 3)) by {
        if lo <= hi - 3 {
            assert(whole[hi - 3] == s[s.len() - 3]);
            assert(whole[hi - 2] == s[s.len() - 2]);
        }
    }
    assert forall|i: int| 0 <= i < lo implies surrounds(#[trigger] whole[i]) by {
        assert(whole[i] == before[i]);
    }
    assert forall|i: int| hi <= i < whole.len() implies #[trigger] follows(whole, hi, i) by {
        assert(follows(after, 0, i - hi));
        assert(whole[i] == after[i - hi]);
        if in_dots(after, 0, i - hi) {
            let at = choose|at: int| 0 <= at <= i - hi < at + 3 && #[trigger] dots_at(after, at);
            assert(whole[at + hi] == after[at]);
            assert(whole[at + hi + 1] == after[at + 1]);
            assert(whole[at + hi + 2] == after[at + 2]);
            assert(dots_at(whole, at + hi));
        }
    }
    if hi < whole.len() {
        assert(whole[hi] == after[0]);
    }
    law_the_right_cut_is_made(whole, lo, hi);
    assert(whole.subrange(lo, hi) == s);
}

/// A transcript that comes back between double quotes or white space keeps its
/// punctuation: what stands between them comes out as it is.
pub proof fn law_clean_only_unwraps(before: Seq<char>, s: Seq<char>, after: Seq<char>)
    requires
        s.len() > 0,
        cleaned(s) == s,
        forall|i: int| 0 <= i < before.len() ==> surrounds(#[trigger] before[i]),
        forall|i: int| 0 <= i < after.len() ==> surrounds(#[trigger] after[i]),
    ensures
        cleaned(before + s + after) == s,
{
    assert(!surrounds('.'));
    law_clean_text_comes_out_whole(before, s, after);
}

/// A cleaned transcript neither begins nor ends with a double quote or white
/// space, and does not end in an ellipsis or a hyphen.
pub proof fn law_clean_leaves_no_artifact(s: Seq<char>)
    ensures
        cleaned(s).len() > 0 ==> !CharClass::QuoteOrSpace.holds(cleaned(s)[0]),
        cleaned(s).len() > 0 ==> !CharClass::QuoteOrSpace.holds(cleaned(s).last()),
        !ends_unfinished(cleaned(s)),
    decreases s.len(),
{
    let (lo, hi) = lemma_cut(s);
    let cut = s.subrange(lo, hi);
    if cut.len() < s.len() {
        law_clean_leaves_no_artifact(cut);
    }
}

/// Ordinary prose, with one or two full stops at its end or none, is unchanged.
pub proof fn law_clean_keeps_finished_prose(s: Seq<char>)
    requires
        s.len() > 0 ==> !CharClass::QuoteOrSpace.holds(s[0]) && !CharClass::QuoteOrSpace.holds(
            s.last(),
        ),
        !ends_unfinished(s),
    ensures
        cleaned(s) == s,
{
}

/// Cleaning a second time changes nothing.
pub proof fn law_clean_is_idempotent(s: Seq<char>)
    ensures
        cleaned(cleaned(s)) == cleaned(s),
{
    law_clean_leaves_no_artifact(s);
    law_clean_keeps_finished_prose(cleaned(s));
}

} // verus!
