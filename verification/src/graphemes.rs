//! Grapheme clusters: the user-perceived characters that one Backspace deletes.

use crate::text;
use unicode_segmentation::UnicodeSegmentation;
use vstd::prelude::*;

verus! {

/// Where the extended grapheme clusters of `text` begin, as
/// `UnicodeSegmentation::graphemes` finds them: `at` is a member when one
/// cluster ends before character `at` and another begins there.
pub uninterp spec fn grapheme_breaks(text: Seq<char>) -> Set<int>;

/// Whether `c` is a printable ASCII character.
pub open spec fn printable_ascii(c: char) -> bool {
    ' ' <= c <= '~'
}

/// Whether `breaks` puts a cluster boundary before character `at` of `text`.
///
/// Two neighbouring printable ASCII characters always stand in clusters of
/// their own.
pub open spec fn breaks_at(text: Seq<char>, breaks: Set<int>, at: int) -> bool {
    ||| printable_ascii(text[at - 1]) && printable_ascii(text[at])
    ||| breaks.contains(at)
}

/// The first `n` characters of `text`, cut at the boundaries.
pub open spec fn split_first(text: Seq<char>, breaks: Set<int>, n: nat) -> Seq<Seq<char>>
    decreases n,
{
    if n == 0 {
        Seq::empty()
    } else {
        let before = split_first(text, breaks, (n - 1) as nat);
        if n == 1 || breaks_at(text, breaks, n - 1) {
            before.push(seq![text[n - 1]])
        } else {
            before.drop_last().push(before.last().push(text[n - 1]))
        }
    }
}

/// `text` cut at the boundaries.
pub open spec fn split_at(text: Seq<char>, breaks: Set<int>) -> Seq<Seq<char>> {
    split_first(text, breaks, text.len())
}

/// The grapheme clusters of a text, in order.
pub open spec fn clusters(text: Seq<char>) -> Seq<Seq<char>> {
    split_at(text, grapheme_breaks(text))
}

/// The texts of `list` joined without a separator.
pub open spec fn joined(list: Seq<Seq<char>>) -> Seq<char>
    decreases list.len(),
{
    if list.len() == 0 {
        Seq::empty()
    } else {
        joined(list.drop_last()) + list.last()
    }
}

/// `UnicodeSegmentation::graphemes` with extended clusters: cuts the text at
/// its grapheme boundaries, leaving nothing out and adding nothing. Between two
/// printable ASCII characters there is always a boundary.
#[verifier::external_body]
pub(crate) fn graphemes(text: &str) -> (res: Vec<&str>)
    ensures
        text::str_views(res@) == split_at(text@, grapheme_breaks(text@)),
{
    text.graphemes(true).collect()
}

/// The number of grapheme clusters in a text.
pub fn grapheme_count(text: &str) -> (res: usize)
    ensures
        res == clusters(text@).len(),
{
    let parts = graphemes(text);
    assert(text::str_views(parts@).len() == parts@.len());
    parts.len()
}

proof fn lemma_split_first(text: Seq<char>, breaks: Set<int>, n: nat)
    requires
        n <= text.len(),
    ensures
        joined(split_first(text, breaks, n)) == text.take(n as int),
        split_first(text, breaks, n).len() <= n,
        n > 0 ==> split_first(text, breaks, n).len() > 0,
        forall|i: int|
            0 <= i < split_first(text, breaks, n).len() ==> (#[trigger] split_first(
                text,
                breaks,
                n,
            )[i]).len() > 0,
    decreases n,
{
    if n > 0 {
        let before = split_first(text, breaks, (n - 1) as nat);
        let now = split_first(text, breaks, n);
        lemma_split_first(text, breaks, (n - 1) as nat);
        assert(text.take(n as int) == text.take(n - 1).push(text[n - 1]));
        if n == 1 || breaks_at(text, breaks, n - 1) {
            assert(now.drop_last() == before);
        } else {
            assert(now.drop_last() == before.drop_last());
        }
        assert(joined(now) == text.take(n as int));
    }
}

/// The clusters of a text joined together are the text, and none is empty.
pub proof fn law_clusters_partition_the_text(text: Seq<char>)
    ensures
        joined(clusters(text)) == text,
        clusters(text).len() <= text.len(),
        text.len() > 0 ==> clusters(text).len() > 0,
        forall|i: int|
            0 <= i < clusters(text).len() ==> (#[trigger] clusters(text)[i]).len() > 0,
{
    lemma_split_first(text, grapheme_breaks(text), text.len());
    assert(text.take(text.len() as int) == text);
}

/// Joining a list is joining its first part and its rest.
pub proof fn lemma_joined_split(list: Seq<Seq<char>>, at: int)
    requires
        0 <= at <= list.len(),
    ensures
        joined(list) == joined(list.take(at)) + joined(list.skip(at)),
    decreases list.len(),
{
    if at == list.len() {
        assert(list.take(at) == list);
        assert(list.skip(at) == Seq::<Seq<char>>::empty());
    } else {
        lemma_joined_split(list.drop_last(), at);
        assert(list.drop_last().take(at) == list.take(at));
        assert(list.skip(at).drop_last() == list.drop_last().skip(at));
        assert(list.skip(at).last() == list.last());
    }
}

proof fn lemma_split_first_ascii(text: Seq<char>, breaks: Set<int>, n: nat)
    requires
        n <= text.len(),
        forall|i: int| 0 <= i < text.len() ==> printable_ascii(#[trigger] text[i]),
    ensures
        split_first(text, breaks, n) == Seq::new(n, |i: int| seq![text[i]]),
    decreases n,
{
    if n > 0 {
        lemma_split_first_ascii(text, breaks, (n - 1) as nat);
        assert(printable_ascii(text[n - 1]));
        if n > 1 {
            assert(printable_ascii(text[n - 2]));
        }
        assert(split_first(text, breaks, n) == Seq::new(n, |i: int| seq![text[i]]));
    }
}

/// In a printable ASCII text every character is a cluster of its own.
pub proof fn law_ascii_clusters(text: Seq<char>)
    requires
        forall|i: int| 0 <= i < text.len() ==> printable_ascii(#[trigger] text[i]),
    ensures
        clusters(text) == Seq::new(text.len(), |i: int| seq![text[i]]),
{
    lemma_split_first_ascii(text, grapheme_breaks(text), text.len());
}

} // verus!
