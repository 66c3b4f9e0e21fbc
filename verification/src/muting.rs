//! Muting things for a recording and restoring them afterwards, one command at a
//! time.
//!
//! A [`Muting`] remembers what it muted. It answers with the next command, and is
//! told whether that succeeded. A snapshot that is to be restored is forgotten
//! before any command is issued, so that restoring twice does nothing more, even
//! if a command fails.

use vstd::prelude::*;

verus! {

/// Something that can be muted, with a label for the log.
#[derive(Clone, Debug, Eq, PartialEq)]
pub struct MuteTarget {
    pub index: u32,
    pub label: String,
}

/// What a [`MuteTarget`] says.
pub struct TargetView {
    pub index: u32,
    pub label: Seq<char>,
}

impl View for MuteTarget {
    type V = TargetView;

    open spec fn view(&self) -> TargetView {
        TargetView { index: self.index, label: self.label@ }
    }
}

/// What a list of targets says.
pub open spec fn target_views(list: Seq<MuteTarget>) -> Seq<TargetView> {
    Seq::new(list.len(), |i: int| list[i]@)
}

/// The next command.
#[derive(Clone, Copy, Debug, Eq, PartialEq)]
pub enum MuteAction {
    /// Mute or unmute the target with this index.
    SetMute { index: u32, mute: bool },
    /// List what can be muted.
    List,
    /// There is nothing more to do.
    Done,
}

/// Where muting or restoring stands.
#[derive(Clone, Copy, Debug, Eq, PartialEq)]
pub enum MutePhase {
    Idle,
    /// Earlier targets are being restored, possibly before new ones are muted.
    Restoring { then_mute: bool },
    Listing,
    Muting,
}

/// The targets that are muted, and those that a command is still to come for.
#[derive(Clone, Debug, Eq, PartialEq)]
pub struct Muting {
    muted: Vec<MuteTarget>,
    pending: Vec<MuteTarget>,
    phase: MutePhase,
}

/// What a [`Muting`] holds. The command for the first pending target has been
/// issued.
#[verifier::ext_equal]
pub struct MutingView {
    pub muted: Seq<TargetView>,
    pub pending: Seq<TargetView>,
    pub phase: MutePhase,
}

impl View for Muting {
    type V = MutingView;

    closed spec fn view(&self) -> MutingView {
        MutingView {
            muted: target_views(self.muted@),
            pending: target_views(self.pending@),
            phase: self.phase,
        }
    }
}

impl MutingView {
    /// Nothing is muted.
    pub open spec fn initial() -> MutingView {
        MutingView { muted: Seq::empty(), pending: Seq::empty(), phase: MutePhase::Idle }
    }

    /// Restoring the first pending target, or what follows the last.
    pub open spec fn restoring(self, then_mute: bool) -> (MutingView, MuteAction) {
        if self.pending.len() > 0 {
            (
                MutingView { phase: MutePhase::Restoring { then_mute }, ..self },
                MuteAction::SetMute { index: self.pending[0].index, mute: false },
            )
        } else if then_mute {
            (MutingView { phase: MutePhase::Listing, ..self }, MuteAction::List)
        } else {
            (MutingView { phase: MutePhase::Idle, ..self }, MuteAction::Done)
        }
    }

    /// Muting the first pending target, or the end.
    pub open spec fn muting(self) -> (MutingView, MuteAction) {
        if self.pending.len() > 0 {
            (
                MutingView { phase: MutePhase::Muting, ..self },
                MuteAction::SetMute { index: self.pending[0].index, mute: true },
            )
        } else {
            (MutingView { phase: MutePhase::Idle, ..self }, MuteAction::Done)
        }
    }

    /// Restoring what was muted, and then muting anew where that is wanted.
    pub open spec fn begin(self, then_mute: bool) -> (MutingView, MuteAction) {
        MutingView { muted: Seq::empty(), pending: self.muted, ..self }.restoring(then_mute)
    }

    /// Muting what was listed.
    pub open spec fn listed(self, targets: Seq<TargetView>) -> (MutingView, MuteAction) {
        if self.phase is Listing {
            MutingView { pending: targets, ..self }.muting()
        } else {
            (self, MuteAction::Done)
        }
    }

    /// What follows a command. A target that could not be muted is not
    /// remembered; one that could not be restored is given up.
    pub open spec fn carried_out(self, succeeded: bool) -> (MutingView, MuteAction) {
        if self.pending.len() == 0 {
            (self, MuteAction::Done)
        } else {
            let rest = MutingView { pending: self.pending.drop_first(), ..self };
            match self.phase {
                MutePhase::Restoring { then_mute } => rest.restoring(then_mute),
                MutePhase::Muting => if succeeded {
                    MutingView { muted: self.muted.push(self.pending[0]), ..rest }.muting()
                } else {
                    rest.muting()
                },
                _ => (self, MuteAction::Done),
            }
        }
    }
}

impl Muting {
    /// Nothing is muted.
    pub fn new() -> (res: Muting)
        ensures
            res@ == MutingView::initial(),
    {
        Muting { muted: Vec::new(), pending: Vec::new(), phase: MutePhase::Idle }
    }

    /// What is muted, for the log.
    pub fn muted(&self) -> (res: &Vec<MuteTarget>)
        ensures
            target_views(res@) == self@.muted,
    {
        &self.muted
    }

    fn restoring(&mut self, then_mute: bool) -> (res: MuteAction)
        ensures
            (final(self)@, res) == old(self)@.restoring(then_mute),
    {
        if self.pending.len() > 0 {
            self.phase = MutePhase::Restoring { then_mute };
            MuteAction::SetMute { index: self.pending[0].index, mute: false }
        } else if then_mute {
            self.phase = MutePhase::Listing;
            MuteAction::List
        } else {
            self.phase = MutePhase::Idle;
            MuteAction::Done
        }
    }

    fn muting(&mut self) -> (res: MuteAction)
        ensures
            (final(self)@, res) == old(self)@.muting(),
    {
        if self.pending.len() > 0 {
            self.phase = MutePhase::Muting;
            MuteAction::SetMute { index: self.pending[0].index, mute: true }
        } else {
            self.phase = MutePhase::Idle;
            MuteAction::Done
        }
    }

    /// Begins to restore what was muted, and then to mute anew where that is
    /// wanted.
    pub fn begin(&mut self, then_mute: bool) -> (res: MuteAction)
        ensures
            (final(self)@, res) == old(self)@.begin(then_mute),
    {
        let ghost before = self@;
        let mut snapshot: Vec<MuteTarget> = Vec::new();
        std::mem::swap(&mut snapshot, &mut self.muted);
        self.pending = snapshot;
        assert(self@ == (MutingView { muted: Seq::empty(), pending: before.muted, ..before }));
        self.restoring(then_mute)
    }

    /// Goes on with what was listed.
    pub fn listed(&mut self, targets: Vec<MuteTarget>) -> (res: MuteAction)
        ensures
            (final(self)@, res) == old(self)@.listed(target_views(targets@)),
    {
        if !matches!(self.phase, MutePhase::Listing) {
            return MuteAction::Done;
        }
        self.pending = targets;
        self.muting()
    }

    /// Goes on after a command.
    pub fn carried_out(&mut self, succeeded: bool) -> (res: MuteAction)
        ensures
            (final(self)@, res) == old(self)@.carried_out(succeeded),
    {
        let ghost before = self@;
        if self.pending.len() == 0 {
            return MuteAction::Done;
        }
        match self.phase {
            MutePhase::Restoring { then_mute } => {
                self.pending.remove(0);
                assert(target_views(self.pending@) == before.pending.drop_first());
                self.restoring(then_mute)
            },
            MutePhase::Muting => {
                let target = self.pending.remove(0);
                assert(target_views(self.pending@) == before.pending.drop_first());
                if succeeded {
                    self.muted.push(target);
                    assert(target_views(self.muted@) == before.muted.push(before.pending[0]));
                }
                self.muting()
            },
            MutePhase::Idle | MutePhase::Listing => MuteAction::Done,
        }
    }
}

/// What is left after commands with these outcomes, and the last answer.
pub open spec fn after_commands(state: MutingView, outcomes: Seq<bool>) -> (
    MutingView,
    MuteAction,
)
    decreases outcomes.len(),
{
    if outcomes.len() == 0 {
        (state, MuteAction::Done)
    } else {
        after_commands(state, outcomes.drop_last()).0.carried_out(outcomes.last())
    }
}

/// The targets among the first that were muted successfully.
pub open spec fn succeeded_among(targets: Seq<TargetView>, outcomes: Seq<bool>) -> Seq<TargetView>
    decreases outcomes.len(),
{
    if outcomes.len() == 0 {
        Seq::empty()
    } else {
        let before = succeeded_among(targets, outcomes.drop_last());
        if outcomes.last() {
            before.push(targets[outcomes.len() - 1])
        } else {
            before
        }
    }
}

proof fn lemma_muting(state: MutingView, targets: Seq<TargetView>, outcomes: Seq<bool>)
    requires
        state.phase is Listing,
        state.muted.len() == 0,
        outcomes.len() <= targets.len(),
    ensures
        ({
            let begun = state.listed(targets);
            let now = after_commands(begun.0, outcomes);
            &&& now.0.muted == succeeded_among(targets, outcomes)
            &&& now.0.pending == targets.skip(outcomes.len() as int)
            &&& now.0.phase == (if outcomes.len() < targets.len() {
                MutePhase::Muting
            } else {
                MutePhase::Idle
            })
            &&& outcomes.len() > 0 ==> now.1 == (if outcomes.len() < targets.len() {
                MuteAction::SetMute { index: targets[outcomes.len() as int].index, mute: true }
            } else {
                MuteAction::Done
            })
        }),
    decreases outcomes.len(),
{
    if outcomes.len() == 0 {
        assert(targets.skip(0) == targets);
        assert(state.muted == Seq::<TargetView>::empty());
    } else {
        lemma_muting(state, targets, outcomes.drop_last());
        let count = outcomes.len() as int;
        assert(targets.skip(count - 1).drop_first() == targets.skip(count));
        assert(targets.skip(count - 1)[0] == targets[count - 1]);
    }
}

/// Once a command was carried out for everything that was listed, exactly those
/// targets are remembered for which it succeeded, in their order, and there is
/// nothing more to do.
pub proof fn law_successful_mutes_are_remembered(
    state: MutingView,
    targets: Seq<TargetView>,
    outcomes: Seq<bool>,
)
    requires
        state.phase is Listing,
        state.muted.len() == 0,
        outcomes.len() == targets.len(),
        targets.len() > 0,
    ensures
        ({
            let now = after_commands(state.listed(targets).0, outcomes);
            &&& now.1 == MuteAction::Done
            &&& now.0.phase is Idle
            &&& now.0.muted == succeeded_among(targets, outcomes)
        }),
{
    lemma_muting(state, targets, outcomes);
}

proof fn lemma_restoring(state: MutingView, outcomes: Seq<bool>, then_mute: bool)
    requires
        outcomes.len() <= state.muted.len(),
    ensures
        ({
            let now = after_commands(state.begin(then_mute).0, outcomes);
            let count = outcomes.len() as int;
            &&& now.0.muted.len() == 0
            &&& now.0.pending == state.muted.skip(count)
            &&& count < state.muted.len() ==> now.0.phase == (MutePhase::Restoring { then_mute })
            &&& count == state.muted.len() ==> now.0.phase == (if then_mute {
                MutePhase::Listing
            } else {
                MutePhase::Idle
            })
            &&& count > 0 ==> now.1 == (if count < state.muted.len() {
                MuteAction::SetMute { index: state.muted[count].index, mute: false }
            } else if then_mute {
                MuteAction::List
            } else {
                MuteAction::Done
            })
        }),
    decreases outcomes.len(),
{
    if outcomes.len() == 0 {
        assert(state.muted.skip(0) == state.muted);
    } else {
        lemma_restoring(state, outcomes.drop_last(), then_mute);
        let count = outcomes.len() as int;
        assert(state.muted.skip(count - 1).drop_first() == state.muted.skip(count));
    }
}

/// Restoring issues one command for each target that was muted, in their order,
/// whatever comes of the commands, and afterwards nothing is remembered.
pub proof fn law_every_mute_is_restored(state: MutingView, outcomes: Seq<bool>, then_mute: bool)
    requires
        outcomes.len() <= state.muted.len(),
    ensures
        ({
            let now = after_commands(state.begin(then_mute).0, outcomes);
            let answer = if outcomes.len() == 0 {
                state.begin(then_mute).1
            } else {
                now.1
            };
            &&& now.0.muted.len() == 0
            &&& answer == (if outcomes.len() < state.muted.len() {
                MuteAction::SetMute {
                    index: state.muted[outcomes.len() as int].index,
                    mute: false,
                }
            } else if then_mute {
                MuteAction::List
            } else {
                MuteAction::Done
            })
        }),
{
    lemma_restoring(state, outcomes, then_mute);
}

/// Restoring twice does nothing more: nothing is remembered once the first time
/// has begun.
pub proof fn law_restoring_is_idempotent(state: MutingView, outcomes: Seq<bool>)
    requires
        outcomes.len() == state.muted.len(),
    ensures
        after_commands(state.begin(false).0, outcomes).0.begin(false).1 == MuteAction::Done,
{
    lemma_restoring(state, outcomes, false);
}

proof fn lemma_succeeded_among(targets: Seq<TargetView>, outcomes: Seq<bool>, at: int)
    requires
        outcomes.len() <= targets.len(),
        0 <= at < succeeded_among(targets, outcomes).len(),
    ensures
        targets.contains(succeeded_among(targets, outcomes)[at]),
    decreases outcomes.len(),
{
    if outcomes.len() > 0 {
        let before = succeeded_among(targets, outcomes.drop_last());
        if at < before.len() {
            lemma_succeeded_among(targets, outcomes.drop_last(), at);
        } else {
            assert(targets[outcomes.len() - 1] == succeeded_among(targets, outcomes)[at]);
        }
    }
}

/// Nothing is restored that was not listed for muting: what was already muted
/// before is never touched.
pub proof fn law_only_own_mutes_are_restored(
    targets: Seq<TargetView>,
    outcomes: Seq<bool>,
    at: int,
)
    requires
        outcomes.len() <= targets.len(),
        0 <= at < succeeded_among(targets, outcomes).len(),
    ensures
        targets.contains(succeeded_among(targets, outcomes)[at]),
{
    lemma_succeeded_among(targets, outcomes, at);
}

/// Muting issues one command for each target that was listed, in their order,
/// whatever comes of the commands, and then there is nothing more to do.
pub proof fn law_every_listed_target_is_muted(
    state: MutingView,
    targets: Seq<TargetView>,
    outcomes: Seq<bool>,
)
    requires
        state.phase is Listing,
        state.muted.len() == 0,
        outcomes.len() <= targets.len(),
    ensures
        ({
            let begun = state.listed(targets);
            let answer = if outcomes.len() == 0 {
                begun.1
            } else {
                after_commands(begun.0, outcomes).1
            };
            answer == (if outcomes.len() < targets.len() {
                MuteAction::SetMute { index: targets[outcomes.len() as int].index, mute: true }
            } else {
                MuteAction::Done
            })
        }),
{
    lemma_muting(state, targets, outcomes);
}

/// A target is remembered exactly where its command succeeded.
pub proof fn law_which_mutes_are_remembered(
    targets: Seq<TargetView>,
    outcomes: Seq<bool>,
    outcome: bool,
)
    ensures
        ({
            let before = succeeded_among(targets, outcomes);
            let now = succeeded_among(targets, outcomes.push(outcome));
            &&& succeeded_among(targets, Seq::empty()).len() == 0
            &&& outcome ==> now == before + seq![targets[outcomes.len() as int]]
            &&& !outcome ==> now == before
        }),
{
    assert(outcomes.push(outcome).drop_last() == outcomes);
}

/// At first nothing is muted and nothing is going on.
pub proof fn law_at_first_nothing_is_muted()
    ensures
        MutingView::initial().muted.len() == 0,
        MutingView::initial().pending.len() == 0,
        MutingView::initial().phase is Idle,
{
}

/// Once everything that was muted is restored, what can be muted is listed where
/// that is wanted, and nothing is remembered any more.
pub proof fn law_muting_follows_restoring(state: MutingView, outcomes: Seq<bool>)
    requires
        outcomes.len() == state.muted.len(),
    ensures
        ({
            let now = after_commands(state.begin(true).0, outcomes).0;
            now.phase is Listing && now.muted.len() == 0 && now.pending.len() == 0
        }),
        ({
            let now = after_commands(state.begin(false).0, outcomes).0;
            now.phase is Idle && now.muted.len() == 0 && now.pending.len() == 0
        }),
{
    lemma_restoring(state, outcomes, true);
    lemma_restoring(state, outcomes, false);
}

/// A list that was not asked for, and an outcome that is not waited for, change
/// nothing.
pub proof fn law_what_is_not_waited_for_changes_nothing(
    state: MutingView,
    targets: Seq<TargetView>,
    succeeded: bool,
)
    ensures
        !(state.phase is Listing) ==> state.listed(targets) == (state, MuteAction::Done),
        state.pending.len() == 0 || state.phase is Idle || state.phase is Listing
            ==> state.carried_out(succeeded) == (state, MuteAction::Done),
{
}

} // verus!
