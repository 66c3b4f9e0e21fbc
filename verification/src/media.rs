//! Output-sink muting via `pactl`.
//!
//! A recording snapshots the output sinks that were unmuted, mutes only those
//! sinks, and restores precisely that snapshot afterwards. Sinks that were
//! already muted are deliberately left untouched.

use crate::muting::{self, MuteAction, MuteTarget, Muting};
use crate::text;
use vstd::prelude::*;

verus! {

/// An output sink, as `pactl` lists it.
#[derive(Debug, Clone, PartialEq, Eq)]
pub struct Sink {
    pub index: u32,
    pub name: String,
    pub description: Option<String>,
    pub mute: bool,
}

/// Output sinks muted for the active recording and awaiting restoration.
#[derive(Debug, Clone, PartialEq, Eq)]
pub struct OutputMuteState {
    muting: Muting,
}

impl View for OutputMuteState {
    type V = muting::MutingView;

    closed spec fn view(&self) -> muting::MutingView {
        self.muting@
    }
}

impl Sink {
    /// The description, unless it is missing or blank; then the name.
    pub open spec fn text(self) -> Seq<char> {
        match self.description {
            Some(description) => if text::trim(description@).len() == 0 {
                self.name@
            } else {
                description@
            },
            None => self.name@,
        }
    }

    /// The sink as something to mute.
    pub open spec fn target(self) -> muting::TargetView {
        muting::TargetView { index: self.index, label: self.text() }
    }

    /// What to call the sink.
    pub fn label(&self) -> (res: String)
        ensures
            res@ == self.text(),
    {
        match &self.description {
            Some(description) => if text::is_blank(description.as_str()) {
                self.name.clone()
            } else {
                description.clone()
            },
            None => self.name.clone(),
        }
    }
}

/// The unmuted sinks among the first `count`.
pub open spec fn unmuted_among(sinks: Seq<Sink>, count: nat) -> Seq<muting::TargetView>
    decreases count,
{
    if count == 0 {
        Seq::empty()
    } else {
        let before = unmuted_among(sinks, (count - 1) as nat);
        if sinks[count - 1].mute {
            before
        } else {
            before.push(sinks[count - 1].target())
        }
    }
}

/// The sinks that are not muted, in the order in which they were listed.
pub fn unmuted_sinks(sinks: &Vec<Sink>) -> (res: Vec<MuteTarget>)
    ensures
        muting::target_views(res@) == unmuted_among(sinks@, sinks@.len()),
{
    let mut res: Vec<MuteTarget> = Vec::new();
    let mut i: usize = 0;
    assert(muting::target_views(res@) == Seq::<muting::TargetView>::empty());
    while i < sinks.len()
        invariant
            i <= sinks@.len(),
            muting::target_views(res@) == unmuted_among(sinks@, i as nat),
        decreases sinks@.len() - i,
    {
        let ghost before = muting::target_views(res@);
        if !sinks[i].mute {
            let target = MuteTarget { index: sinks[i].index, label: sinks[i].label() };
            res.push(target);
            assert(muting::target_views(res@) == before.push(target@));
        }
        i = i + 1;
    }
    res
}

impl OutputMuteState {
    /// Nothing is muted.
    pub fn new() -> (res: Self)
        ensures
            res@ == muting::MutingView::initial(),
    {
        OutputMuteState { muting: Muting::new() }
    }

    /// Goes on with the sinks that were listed: every one that is unmuted is
    /// muted. Missing or failing `pactl`, and a list that cannot be read, degrade
    /// safely to a no-op.
    pub fn listed(&mut self, sinks: Option<Vec<Sink>>) -> (res: MuteAction)
        ensures
            (final(self)@, res) == old(self)@.listed(
                match sinks {
                    Some(sinks) => unmuted_among(sinks@, sinks@.len()),
                    None => Seq::empty(),
                },
            ),
    {
        match sinks {
            Some(sinks) => self.muting.listed(unmuted_sinks(&sinks)),
            None => {
                let none: Vec<MuteTarget> = Vec::new();
                assert(muting::target_views(none@) == Seq::<muting::TargetView>::empty());
                self.muting.listed(none)
            },
        }
    }

    /// Goes on after a command, which succeeded or failed.
    pub fn carried_out(&mut self, succeeded: bool) -> (res: MuteAction)
        ensures
            (final(self)@, res) == old(self)@.carried_out(succeeded),
    {
        self.muting.carried_out(succeeded)
    }

    /// The sinks that are muted.
    pub fn muted(&self) -> (res: &Vec<MuteTarget>)
        ensures
            muting::target_views(res@) == self@.muted,
    {
        self.muting.muted()
    }
}

/// Begins to mute every output sink that is currently unmuted.
///
/// Any stale recording snapshot is restored before a new one is taken.
pub fn mute_unmuted_outputs(state: &mut OutputMuteState) -> (res: MuteAction)
    ensures
        (final(state)@, res) == old(state)@.begin(true),
{
    state.muting.begin(true)
}

/// Begins to restore only the output sinks that this recording successfully
/// muted.
///
/// The snapshot is consumed before any command is issued, making repeated
/// cleanup idempotent even if a restore command itself fails.
pub fn restore_muted_outputs(state: &mut OutputMuteState) -> (res: MuteAction)
    ensures
        (final(state)@, res) == old(state)@.begin(false),
{
    state.muting.begin(false)
}

/// The arguments with which `pactl` lists the output sinks.
pub fn list_arguments() -> (res: Vec<&'static str>)
    ensures
        text::str_views(res@) == seq!["--format=json"@, "list"@, "sinks"@],
{
    let res: Vec<&'static str> = vec!["--format=json", "list", "sinks"];
    assert(text::str_views(res@) == seq!["--format=json"@, "list"@, "sinks"@]);
    res
}

/// The digit with which `pactl` is told to mute or unmute.
pub open spec fn mute_value(mute: bool) -> Seq<char> {
    if mute {
        "1"@
    } else {
        "0"@
    }
}

/// The arguments with which `pactl` mutes or unmutes an output sink.
pub fn set_sink_mute_arguments(index: u32, mute: bool) -> (res: Vec<String>)
    ensures
        text::views(res@) == seq![
            "set-sink-mute"@,
            text::decimal(index as nat),
            mute_value(mute),
        ],
{
    let value = if mute {
        "1"
    } else {
        "0"
    };
    let res: Vec<String> = vec![
        "set-sink-mute".to_owned(),
        text::format_decimal(index as u64),
        value.to_owned(),
    ];
    assert(text::views(res@) == seq![
        "set-sink-mute"@,
        text::decimal(index as nat),
        mute_value(mute),
    ]);
    res
}

/// Whether a target stands for one of the listed sinks that is not muted.
pub open spec fn stands_for_unmuted_sink(sinks: Seq<Sink>, target: muting::TargetView) -> bool {
    exists|i: int|
        0 <= i < sinks.len() && !(#[trigger] sinks[i]).mute && sinks[i].target() == target
}

proof fn lemma_unmuted_among(sinks: Seq<Sink>, count: nat, at: int)
    requires
        count <= sinks.len(),
        0 <= at < unmuted_among(sinks, count).len(),
    ensures
        stands_for_unmuted_sink(sinks, unmuted_among(sinks, count)[at]),
    decreases count,
{
    let less = (count - 1) as nat;
    let before = unmuted_among(sinks, less);
    let now = unmuted_among(sinks, count);
    if at < before.len() {
        lemma_unmuted_among(sinks, less, at);
        assert(now[at] == before[at]);
    } else {
        assert(sinks[less as int].target() == now[at]);
    }
}

/// Only sinks that were unmuted are chosen: one that was already muted is never
/// touched.
pub proof fn law_muted_sinks_are_left_alone(sinks: Seq<Sink>, at: int)
    requires
        0 <= at < unmuted_among(sinks, sinks.len()).len(),
    ensures
        stands_for_unmuted_sink(sinks, unmuted_among(sinks, sinks.len())[at]),
{
    lemma_unmuted_among(sinks, sinks.len(), at);
}

proof fn lemma_every_unmuted(sinks: Seq<Sink>, count: nat, at: int)
    requires
        0 <= at < count <= sinks.len(),
        !sinks[at].mute,
    ensures
        unmuted_among(sinks, count).contains(sinks[at].target()),
    decreases count,
{
    let less = (count - 1) as nat;
    let before = unmuted_among(sinks, less);
    let now = unmuted_among(sinks, count);
    if at == less {
        assert(now.last() == sinks[at].target());
    } else {
        lemma_every_unmuted(sinks, less, at);
        let k = choose|k: int| 0 <= k < before.len() && before[k] == sinks[at].target();
        assert(now[k] == sinks[at].target());
    }
}

/// Every sink that was unmuted is chosen.
pub proof fn law_every_unmuted_sink_is_chosen(sinks: Seq<Sink>, at: int)
    requires
        0 <= at < sinks.len(),
        !sinks[at].mute,
    ensures
        unmuted_among(sinks, sinks.len()).contains(sinks[at].target()),
{
    lemma_every_unmuted(sinks, sinks.len(), at);
}

proof fn lemma_unmuted_of_prefix(sinks: Seq<Sink>, sink: Sink, count: nat)
    requires
        count <= sinks.len(),
    ensures
        unmuted_among(sinks.push(sink), count) == unmuted_among(sinks, count),
    decreases count,
{
    if count > 0 {
        lemma_unmuted_of_prefix(sinks, sink, (count - 1) as nat);
        assert(sinks.push(sink)[count - 1] == sinks[count - 1]);
    }
}

/// Each unmuted sink is chosen once, in the order of the list, under its
/// description, or under its name where it has no description or a blank one.
pub proof fn law_each_unmuted_sink_is_chosen_once(sinks: Seq<Sink>, sink: Sink)
    ensures
        ({
            let before = unmuted_among(sinks, sinks.len());
            let all = sinks.push(sink);
            let label = match sink.description {
                Some(description) => if forall|i: int|
                    0 <= i < description@.len() ==> text::is_space(#[trigger] description@[i]) {
                    sink.name@
                } else {
                    description@
                },
                None => sink.name@,
            };
            &&& unmuted_among(Seq::empty(), 0).len() == 0
            &&& sink.mute ==> unmuted_among(all, all.len()) == before
            &&& !sink.mute ==> unmuted_among(all, all.len()) == before + seq![
                muting::TargetView { index: sink.index, label },
            ]
        }),
{
    lemma_unmuted_of_prefix(sinks, sink, sinks.len());
    if let Some(description) = sink.description {
        text::lemma_blank(description@);
    }
}

/// `pactl` is told 1 to mute and 0 to unmute.
pub proof fn law_how_pactl_is_told_to_mute()
    ensures
        mute_value(true) == seq!['1'],
        mute_value(false) == seq!['0'],
{
    reveal_strlit("1");
    reveal_strlit("0");
    assert("1"@ == seq!['1']);
    assert("0"@ == seq!['0']);
}

} // verus!
