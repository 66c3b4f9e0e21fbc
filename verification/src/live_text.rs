//! Pure state transitions for the mutable tail of realtime transcription.
//!
//! A caller applies a returned [`LiveTextEdit`] first, then replaces its state
//! with [`LiveTextTransition::next`] only if delivery succeeded.

use crate::graphemes;
use crate::text;
use vstd::prelude::*;

verus! {

/// The keystrokes needed to replace the visible mutable tail.
#[derive(Clone, Debug, Default, Eq, PartialEq)]
pub struct LiveTextEdit {
    /// Number of complete graphemes to delete with Backspace.
    pub backspaces: usize,
    /// Text to insert after the backspaces.
    pub insert: String,
}

/// An immutable state update paired with the edit that makes it visible.
#[derive(Clone, Debug, Eq, PartialEq)]
pub struct LiveTextTransition {
    pub next: LiveText,
    pub edit: LiveTextEdit,
}

/// Tracks whether any text has been committed and the one editable visible tail.
#[derive(Clone, Debug, Default, Eq, PartialEq)]
pub struct LiveText {
    committed_any: bool,
    committed_text: String,
    tail: String,
}

/// What a [`LiveTextEdit`] says: so many graphemes go, and this text comes.
#[verifier::ext_equal]
pub struct EditView {
    pub backspaces: int,
    pub insert: Seq<char>,
}

/// What a [`LiveText`] holds.
#[verifier::ext_equal]
pub struct LiveTextView {
    pub committed_any: bool,
    pub committed_text: Seq<char>,
    pub tail: Seq<char>,
}

/// What a [`LiveTextTransition`] holds.
#[verifier::ext_equal]
pub struct TransitionView {
    pub next: LiveTextView,
    pub edit: EditView,
}

impl View for LiveTextEdit {
    type V = EditView;

    open spec fn view(&self) -> EditView {
        EditView { backspaces: self.backspaces as int, insert: self.insert@ }
    }
}

impl View for LiveText {
    type V = LiveTextView;

    closed spec fn view(&self) -> LiveTextView {
        LiveTextView {
            committed_any: self.committed_any,
            committed_text: self.committed_text@,
            tail: self.tail@,
        }
    }
}

impl View for LiveTextTransition {
    type V = TransitionView;

    open spec fn view(&self) -> TransitionView {
        TransitionView { next: self.next@, edit: self.edit@ }
    }
}

/// The number of leading items that two lists share.
pub open spec fn common_prefix(a: Seq<Seq<char>>, b: Seq<Seq<char>>) -> nat
    decreases a.len(),
{
    if a.len() > 0 && b.len() > 0 && a[0] == b[0] {
        1 + common_prefix(a.drop_first(), b.drop_first())
    } else {
        0
    }
}

/// The edit that turns the visible text `old` into `new`: delete the graphemes
/// after the ones that both begin with, then insert the rest of `new`.
pub open spec fn edit_between(old: Seq<char>, new: Seq<char>) -> EditView {
    let kept = common_prefix(graphemes::clusters(old), graphemes::clusters(new));
    EditView {
        backspaces: graphemes::clusters(old).len() - kept,
        insert: graphemes::joined(graphemes::clusters(new).skip(kept as int)),
    }
}

/// A segment as it is shown: once something was committed, a non-empty segment
/// gets one leading space.
pub open spec fn shown_segment(committed_any: bool, segment: Seq<char>) -> Seq<char> {
    if segment.len() == 0 || !committed_any {
        segment
    } else {
        seq![' '] + segment
    }
}

impl LiveTextView {
    /// Nothing committed and nothing visible.
    pub open spec fn empty() -> LiveTextView {
        LiveTextView { committed_any: false, committed_text: Seq::empty(), tail: Seq::empty() }
    }

    /// The state and the edit after the mutable tail becomes `target`.
    pub open spec fn with_tail(self, target: Seq<char>) -> TransitionView {
        TransitionView {
            next: LiveTextView { tail: target, ..self },
            edit: edit_between(self.tail, target),
        }
    }

    /// The effect of a realtime partial.
    pub open spec fn partial(self, partial: Seq<char>) -> TransitionView {
        self.with_tail(shown_segment(self.committed_any, partial))
    }

    /// The effect of removing the mutable tail.
    pub open spec fn cleanup(self) -> TransitionView {
        self.with_tail(Seq::empty())
    }

    /// The effect of a finalized segment.
    pub open spec fn commit(self, finalized: Seq<char>) -> TransitionView {
        if finalized.len() == 0 {
            self.cleanup()
        } else {
            let target = shown_segment(self.committed_any, finalized);
            TransitionView {
                next: LiveTextView {
                    committed_any: true,
                    committed_text: self.committed_text + target,
                    tail: Seq::empty(),
                },
                edit: edit_between(self.tail, target),
            }
        }
    }

    /// The effect of rewriting the committed text.
    pub open spec fn rewrite_committed(self, text: Seq<char>) -> TransitionView {
        TransitionView {
            next: LiveTextView { committed_text: text, tail: Seq::empty(), ..self },
            edit: edit_between(self.committed_text, text),
        }
    }

    /// Everything that stands on the screen: the committed text and the tail.
    pub open spec fn shown(self) -> Seq<char> {
        self.committed_text + self.tail
    }
}

impl EditView {
    /// What `visible` becomes when as many of its graphemes as the edit says are
    /// deleted from its end and the edit's text is inserted there.
    pub open spec fn applied_to(self, visible: Seq<char>) -> Seq<char> {
        let parts = graphemes::clusters(visible);
        graphemes::joined(parts.take(parts.len() - self.backspaces)) + self.insert
    }

    /// Whether the edit changes nothing.
    pub open spec fn is_noop(self) -> bool {
        self.backspaces == 0 && self.insert.len() == 0
    }
}

impl LiveText {
    /// Creates state with no committed text or visible mutable tail.
    pub fn new() -> (res: Self)
        ensures
            res@ == LiveTextView::empty(),
    {
        LiveText { committed_any: false, committed_text: String::new(), tail: String::new() }
    }

    /// Whether at least one non-empty segment has been committed.
    pub fn committed_any(&self) -> (res: bool)
        ensures
            res == self@.committed_any,
    {
        self.committed_any
    }

    /// The full immutable text already delivered to the user.
    pub fn committed_text(&self) -> (res: &str)
        ensures
            res@ == self@.committed_text,
    {
        self.committed_text.as_str()
    }

    /// The text currently considered mutable and visible to the user.
    pub fn tail(&self) -> (res: &str)
        ensures
            res@ == self@.tail,
    {
        self.tail.as_str()
    }

    /// Replaces the mutable tail with a realtime partial.
    ///
    /// Once text was committed, a non-empty subsequent segment gets one leading
    /// space. An empty partial always removes the tail without adding a space.
    pub fn partial(&self, partial: &str) -> (res: LiveTextTransition)
        ensures
            res@ == self@.partial(partial@),
    {
        self.replace_tail(segment_text(self.committed_any, partial))
    }

    /// Reconciles the mutable tail with a finalized segment and commits it.
    ///
    /// Empty final segments only clear the mutable tail; they do not establish a
    /// committed segment or a separator for a later segment.
    pub fn commit(&self, finalized: &str) -> (res: LiveTextTransition)
        ensures
            res@ == self@.commit(finalized@),
    {
        if finalized.is_empty() {
            return self.cleanup();
        }
        let target = segment_text(self.committed_any, finalized);
        let edit = tail_edit(self.tail.as_str(), target.as_str());
        let committed_text = self.committed_text.clone().concat(target.as_str());
        LiveTextTransition {
            next: LiveText { committed_any: true, committed_text, tail: String::new() },
            edit,
        }
    }

    /// Rewrites committed text using a grapheme-safe common-prefix edit.
    ///
    /// Callers must first remove the mutable tail, then apply this edit only if
    /// the visible text is known to be safe to modify.
    pub fn rewrite_committed(&self, text: &str) -> (res: LiveTextTransition)
        requires
            self@.tail.len() == 0,
        ensures
            res@ == self@.rewrite_committed(text@),
    {
        LiveTextTransition {
            next: LiveText {
                committed_any: self.committed_any,
                committed_text: text.to_owned(),
                tail: String::new(),
            },
            edit: tail_edit(self.committed_text.as_str(), text),
        }
    }

    /// Removes only the mutable visible tail, retaining already committed text.
    pub fn cleanup(&self) -> (res: LiveTextTransition)
        ensures
            res@ == self@.cleanup(),
    {
        self.replace_tail(String::new())
    }

    fn replace_tail(&self, target: String) -> (res: LiveTextTransition)
        ensures
            res@ == self@.with_tail(target@),
    {
        let edit = tail_edit(self.tail.as_str(), target.as_str());
        LiveTextTransition {
            next: LiveText {
                committed_any: self.committed_any,
                committed_text: self.committed_text.clone(),
                tail: target,
            },
            edit,
        }
    }
}

/// A segment with the leading space that it is shown with.
pub fn segment_text(committed_any: bool, text: &str) -> (res: String)
    ensures
        res@ == shown_segment(committed_any, text@),
{
    if text.is_empty() || !committed_any {
        text.to_owned()
    } else {
        let mut res = String::new();
        res.push(' ');
        res.append(text);
        assert(res@ == seq![' '] + text@);
        res
    }
}

/// The edit that turns the visible text `old` into `new`.
pub fn tail_edit(old: &str, new: &str) -> (res: LiveTextEdit)
    ensures
        res@ == edit_between(old@, new@),
{
    let old_graphemes = graphemes::graphemes(old);
    let new_graphemes = graphemes::graphemes(new);
    let ghost a = graphemes::clusters(old@);
    let ghost b = graphemes::clusters(new@);
    assert(a == text::str_views(old_graphemes@));
    assert(b == text::str_views(new_graphemes@));
    assert(a.skip(0) == a);
    assert(b.skip(0) == b);
    let mut common: usize = 0;
    while common < old_graphemes.len() && common < new_graphemes.len() && text::same_text(
        old_graphemes[common],
        new_graphemes[common],
    )
        invariant
            common <= old_graphemes@.len(),
            common <= new_graphemes@.len(),
            a == text::str_views(old_graphemes@),
            b == text::str_views(new_graphemes@),
            common_prefix(a, b) == common + common_prefix(
                a.skip(common as int),
                b.skip(common as int),
            ),
        decreases old_graphemes@.len() - common,
    {
        assert(a.skip(common as int).drop_first() == a.skip(common + 1));
        assert(b.skip(common as int).drop_first() == b.skip(common + 1));
        common = common + 1;
    }
    assert(common_prefix(a, b) == common);
    let mut insert = String::new();
    let mut i: usize = common;
    while i < new_graphemes.len()
        invariant
            common <= i <= new_graphemes@.len(),
            b == text::str_views(new_graphemes@),
            insert@ == graphemes::joined(b.subrange(common as int, i as int)),
        decreases new_graphemes@.len() - i,
    {
        insert.append(new_graphemes[i]);
        assert(b.subrange(common as int, i + 1).drop_last() == b.subrange(
            common as int,
            i as int,
        ));
        i = i + 1;
    }
    assert(b.subrange(common as int, b.len() as int) == b.skip(common as int));
    LiveTextEdit { backspaces: old_graphemes.len() - common, insert }
}

proof fn lemma_common_prefix(a: Seq<Seq<char>>, b: Seq<Seq<char>>)
    ensures
        common_prefix(a, b) <= a.len(),
        common_prefix(a, b) <= b.len(),
        a.take(common_prefix(a, b) as int) == b.take(common_prefix(a, b) as int),
        common_prefix(a, b) < a.len() && common_prefix(a, b) < b.len() ==> a[common_prefix(
            a,
            b,
        ) as int] != b[common_prefix(a, b) as int],
    decreases a.len(),
{
    if a.len() > 0 && b.len() > 0 && a[0] == b[0] {
        let n = common_prefix(a, b) as int;
        let (x, y) = (a.drop_first(), b.drop_first());
        lemma_common_prefix(x, y);
        assert forall|i: int| 0 <= i < n implies a[i] == b[i] by {
            if i > 0 {
                assert(x.take(n - 1)[i - 1] == y.take(n - 1)[i - 1]);
            }
        }
        assert(a.take(n) == b.take(n));
        if n < a.len() && n < b.len() {
            assert(x[n - 1] == a[n] && y[n - 1] == b[n]);
        }
    } else {
        assert(a.take(0) == b.take(0));
    }
}

/// Applying the edit between two texts to the first gives the second. The edit
/// never deletes more graphemes than there are.
pub proof fn law_edit_turns_old_into_new(old: Seq<char>, new: Seq<char>)
    ensures
        0 <= edit_between(old, new).backspaces <= graphemes::clusters(old).len(),
        edit_between(old, new).applied_to(old) == new,
{
    let a = graphemes::clusters(old);
    let b = graphemes::clusters(new);
    let kept = common_prefix(a, b) as int;
    lemma_common_prefix(a, b);
    graphemes::law_clusters_partition_the_text(new);
    graphemes::lemma_joined_split(b, kept);
}

/// The edit is the shortest one: it keeps every grapheme that both texts begin
/// with, so the first grapheme that it deletes differs from the first that it
/// inserts.
pub proof fn law_edit_keeps_the_common_graphemes(old: Seq<char>, new: Seq<char>)
    ensures
        ({
            let a = graphemes::clusters(old);
            let b = graphemes::clusters(new);
            let kept = a.len() - edit_between(old, new).backspaces;
            &&& 0 <= kept <= a.len()
            &&& kept <= b.len()
            &&& a.take(kept) == b.take(kept)
            &&& kept < a.len() && kept < b.len() ==> a[kept] != b[kept]
        }),
{
    lemma_common_prefix(graphemes::clusters(old), graphemes::clusters(new));
}

proof fn lemma_common_prefix_self(a: Seq<Seq<char>>)
    ensures
        common_prefix(a, a) == a.len(),
    decreases a.len(),
{
    if a.len() > 0 {
        lemma_common_prefix_self(a.drop_first());
    }
}

/// Between equal texts the edit does nothing.
pub proof fn law_edit_between_equal_texts(text: Seq<char>)
    ensures
        edit_between(text, text).is_noop(),
{
    let a = graphemes::clusters(text);
    lemma_common_prefix_self(a);
    assert(a.skip(a.len() as int) == Seq::<Seq<char>>::empty());
}

/// A partial touches only the tail: what was committed stays, and applying the
/// edit to the visible tail leaves the new tail.
pub proof fn law_partial_changes_only_the_tail(state: LiveTextView, partial: Seq<char>)
    ensures
        ({
            let step = state.partial(partial);
            &&& step.next.committed_any == state.committed_any
            &&& step.next.committed_text == state.committed_text
            &&& step.edit.applied_to(state.tail) == step.next.tail
            &&& state.committed_text + step.edit.applied_to(state.tail) == step.next.shown()
        }),
{
    law_edit_turns_old_into_new(state.tail, shown_segment(state.committed_any, partial));
}

/// A commit only appends to the committed text, leaves no tail, and its edit
/// makes the screen show exactly the new committed text.
pub proof fn law_commit_appends(state: LiveTextView, finalized: Seq<char>)
    ensures
        ({
            let step = state.commit(finalized);
            &&& state.committed_text.is_prefix_of(step.next.committed_text)
            &&& step.next.tail.len() == 0
            &&& step.next.committed_any == (state.committed_any || finalized.len() > 0)
            &&& state.committed_text + step.edit.applied_to(state.tail) == step.next.shown()
        }),
{
    let target = if finalized.len() == 0 {
        Seq::empty()
    } else {
        shown_segment(state.committed_any, finalized)
    };
    law_edit_turns_old_into_new(state.tail, target);
    let step = state.commit(finalized);
    assert(step.next.shown() == state.committed_text + target);
    assert(state.committed_text.is_prefix_of(step.next.committed_text));
}

/// Cleaning up removes the tail and inserts nothing; what was committed stays.
pub proof fn law_cleanup_removes_only_the_tail(state: LiveTextView)
    ensures
        ({
            let step = state.cleanup();
            &&& step.next == (LiveTextView { tail: Seq::<char>::empty(), ..state })
            &&& step.edit.backspaces == graphemes::clusters(state.tail).len()
            &&& step.edit.insert.len() == 0
            &&& step.edit.applied_to(state.tail).len() == 0
        }),
{
    graphemes::law_clusters_partition_the_text(Seq::<char>::empty());
    law_edit_turns_old_into_new(state.tail, Seq::empty());
}

/// Committing what the tail already shows changes nothing on the screen.
pub proof fn law_commit_of_the_shown_tail_edits_nothing(state: LiveTextView, segment: Seq<char>)
    requires
        segment.len() > 0,
        state.tail == shown_segment(state.committed_any, segment),
    ensures
        state.commit(segment).edit.is_noop(),
        state.commit(segment).next.shown() == state.shown(),
{
    law_edit_between_equal_texts(state.tail);
    assert(state.commit(segment).next.shown() == state.shown());
}

/// Rewriting the committed text turns what the screen shows into the new text.
pub proof fn law_rewrite_turns_committed_into_text(state: LiveTextView, text: Seq<char>)
    requires
        state.tail.len() == 0,
    ensures
        ({
            let step = state.rewrite_committed(text);
            &&& step.edit.applied_to(state.shown()) == step.next.shown()
            &&& step.next.committed_text == text
        }),
{
    assert(state.shown() == state.committed_text);
    assert(state.rewrite_committed(text).next.shown() == text);
    law_edit_turns_old_into_new(state.committed_text, text);
}

/// One space separates segments. Once something was committed, a segment is shown
/// after one space and committed after one space; before that, it is shown and
/// committed as it is. This holds of every segment that is not empty, whatever it
/// begins with.
pub proof fn law_one_space_separates_segments(state: LiveTextView, segment: Seq<char>)
    requires
        segment.len() > 0,
    ensures
        state.committed_any ==> {
            &&& state.partial(segment).next.tail == seq![' '] + segment
            &&& state.commit(segment).next.committed_text == state.committed_text + seq![' ']
                + segment
        },
        !state.committed_any ==> {
            &&& state.partial(segment).next.tail == segment
            &&& state.commit(segment).next.committed_text == state.committed_text + segment
        },
        state.commit(segment).next.committed_any,
        state.commit(segment).next.tail.len() == 0,
{
    assert(state.committed_text + (seq![' '] + segment) == state.committed_text + seq![' ']
        + segment);
}

/// An empty segment shows nothing and commits nothing: no space is left for it.
pub proof fn law_empty_segments_only_clear_the_tail(state: LiveTextView)
    ensures
        state.partial(Seq::empty()).next == (LiveTextView { tail: Seq::<char>::empty(), ..state }),
        state.commit(Seq::empty()).next == (LiveTextView { tail: Seq::<char>::empty(), ..state }),
{
}

/// Whether an edit turns the visible text `old` into `new`, and no shorter one
/// does: it deletes the graphemes after those that both begin with, and inserts
/// the rest of the new text.
pub open spec fn turns(edit: EditView, old: Seq<char>, new: Seq<char>) -> bool {
    let a = graphemes::clusters(old);
    let b = graphemes::clusters(new);
    let kept = a.len() - edit.backspaces;
    &&& 0 <= kept <= a.len()
    &&& kept <= b.len()
    &&& forall|i: int| 0 <= i < kept ==> a[i] == #[trigger] b[i]
    &&& kept < a.len() && kept < b.len() ==> a[kept] != b[kept]
    &&& graphemes::joined(a.take(kept)) + edit.insert == new
}

proof fn lemma_edit_turns(old: Seq<char>, new: Seq<char>)
    ensures
        turns(edit_between(old, new), old, new),
{
    let a = graphemes::clusters(old);
    let b = graphemes::clusters(new);
    let kept = a.len() - edit_between(old, new).backspaces;
    law_edit_turns_old_into_new(old, new);
    law_edit_keeps_the_common_graphemes(old, new);
    assert forall|i: int| 0 <= i < kept implies a[i] == #[trigger] b[i] by {
        assert(a.take(kept)[i] == b.take(kept)[i]);
    }
}

/// Every edit is the shortest one that makes the window show what it should: a
/// partial and a commit turn the tail into the segment, with its space where there
/// is one; cleaning up turns it into nothing; and rewriting turns what was
/// committed into the new text.
pub proof fn law_every_edit_is_the_shortest(state: LiveTextView, segment: Seq<char>)
    ensures
        turns(state.partial(segment).edit, state.tail, state.partial(segment).next.tail),
        turns(state.cleanup().edit, state.tail, Seq::empty()),
        turns(state.rewrite_committed(segment).edit, state.committed_text, segment),
        state.commit(segment).edit == state.partial(segment).edit,
{
    lemma_edit_turns(state.tail, state.partial(segment).next.tail);
    lemma_edit_turns(state.tail, Seq::empty());
    lemma_edit_turns(state.committed_text, segment);
    assert(segment.len() == 0 ==> segment == Seq::<char>::empty());
}

/// Where a state comes to when segments are committed one after the other.
pub open spec fn after_commits(state: LiveTextView, segments: Seq<Seq<char>>) -> LiveTextView
    decreases segments.len(),
{
    if segments.len() == 0 {
        state
    } else {
        after_commits(state, segments.drop_last()).commit(segments.last()).next
    }
}

/// Segments that are committed one after the other add up to one text, with one
/// space between each and the next, and none of them is lost.
pub proof fn law_committed_segments_add_up(segments: Seq<Seq<char>>)
    requires
        forall|i: int| 0 <= i < segments.len() ==> (#[trigger] segments[i]).len() > 0,
    ensures
        after_commits(LiveTextView::empty(), segments).committed_text == text::rejoined(
            segments,
            ' ',
        ),
        after_commits(LiveTextView::empty(), segments).committed_any == (segments.len() > 0),
        after_commits(LiveTextView::empty(), segments).tail.len() == 0,
    decreases segments.len(),
{
    if segments.len() > 0 {
        let before = segments.drop_last();
        let last = segments.last();
        assert(last == segments[segments.len() - 1]);
        assert forall|i: int| 0 <= i < before.len() implies (#[trigger] before[i]).len() > 0 by {
            assert(before[i] == segments[i]);
        }
        law_committed_segments_add_up(before);
        let state = after_commits(LiveTextView::empty(), before);
        law_one_space_separates_segments(state, last);
        let all = after_commits(LiveTextView::empty(), segments).committed_text;
        if segments.len() == 1 {
            assert(all == segments[0]);
        } else {
            let start = text::rejoined(before, ' ');
            assert(start + seq![' '] + last == start.push(' ') + last);
        }
    }
}

/// Rewriting changes the committed text alone: whether something was committed stays,
/// and there is no tail afterwards.
pub proof fn law_rewriting_changes_only_the_text(state: LiveTextView, text: Seq<char>)
    ensures
        state.rewrite_committed(text).next.committed_text == text,
        state.rewrite_committed(text).next.committed_any == state.committed_any,
        state.rewrite_committed(text).next.tail.len() == 0,
{
}

} // verus!
