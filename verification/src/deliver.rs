//! Text and native clipboard delivery via wtype.

use crate::clipboard::{self, ClipboardKind, PasteShortcut};
use crate::placeholder::{self, TranscriptChunk};
use crate::text;
use vstd::prelude::*;

verus! {

/// One run of `wtype`: its arguments, and the text that it reads and types, if
/// there is one.
#[derive(Debug, Clone, PartialEq, Eq)]
pub struct Keystrokes {
    pub arguments: Vec<&'static str>,
    pub input: Option<String>,
}

/// What a [`Keystrokes`] says.
#[verifier::ext_equal]
pub struct KeystrokesView {
    pub arguments: Seq<Seq<char>>,
    pub input: Option<Seq<char>>,
}

impl View for Keystrokes {
    type V = KeystrokesView;

    open spec fn view(&self) -> KeystrokesView {
        KeystrokesView {
            arguments: text::str_views(self.arguments@),
            input: text::opt_view(self.input),
        }
    }
}

/// What a list of `wtype` runs says.
pub open spec fn keystrokes_views(list: Seq<Keystrokes>) -> Seq<KeystrokesView> {
    Seq::new(list.len(), |i: int| list[i]@)
}

/// The arguments for so many presses of Backspace.
pub open spec fn backspaces(count: nat) -> Seq<Seq<char>> {
    Seq::new(
        2 * count,
        |i: int|
            if i % 2 == 0 {
                "-k"@
            } else {
                "backspace"@
            },
    )
}

/// The arguments for a paste shortcut.
pub open spec fn shortcut_keys(shortcut: PasteShortcut) -> Seq<Seq<char>> {
    match shortcut {
        PasteShortcut::CtrlV => seq!["-M"@, "ctrl"@, "-k"@, "v"@, "-m"@, "ctrl"@],
        PasteShortcut::CtrlShiftV => seq![
            "-M"@,
            "ctrl"@,
            "-M"@,
            "shift"@,
            "-k"@,
            "v"@,
            "-m"@,
            "shift"@,
            "-m"@,
            "ctrl"@,
        ],
    }
}

/// Typing a text.
pub open spec fn typing(content: Seq<char>) -> KeystrokesView {
    KeystrokesView { arguments: seq!["-"@], input: Some(content) }
}

/// Pressing Backspace so many times.
pub open spec fn erasing(count: nat) -> KeystrokesView {
    KeystrokesView { arguments: backspaces(count), input: None }
}

/// Pressing a paste shortcut.
pub open spec fn pasting(shortcut: PasteShortcut) -> KeystrokesView {
    KeystrokesView { arguments: shortcut_keys(shortcut), input: None }
}

/// The run that backspaces and then types, in this order; none where there is
/// nothing to do.
pub open spec fn editing(count: nat, insert: Seq<char>) -> Option<KeystrokesView> {
    if count == 0 && insert.len() == 0 {
        None
    } else if insert.len() == 0 {
        Some(erasing(count))
    } else {
        Some(
            KeystrokesView { arguments: backspaces(count).push("-"@), input: Some(insert) },
        )
    }
}

/// The arguments for so many presses of Backspace.
pub fn backspace_args(count: usize) -> (res: Vec<&'static str>)
    ensures
        text::str_views(res@) == backspaces(count as nat),
{
    let mut res: Vec<&'static str> = Vec::new();
    let mut i: usize = 0;
    while i < count
        invariant
            i <= count,
            text::str_views(res@) == backspaces(i as nat),
        decreases count - i,
    {
        let ghost before = text::str_views(res@);
        res.push("-k");
        res.push("backspace");
        assert(text::str_views(res@) == before.push("-k"@).push("backspace"@));
        assert(before.push("-k"@).push("backspace"@) == backspaces((i + 1) as nat));
        i = i + 1;
    }
    res
}

/// The arguments for a paste shortcut.
pub fn paste_args(shortcut: PasteShortcut) -> (res: Vec<&'static str>)
    ensures
        text::str_views(res@) == shortcut_keys(shortcut),
{
    let res: Vec<&'static str> = match shortcut {
        PasteShortcut::CtrlV => vec!["-M", "ctrl", "-k", "v", "-m", "ctrl"],
        PasteShortcut::CtrlShiftV => vec![
            "-M",
            "ctrl",
            "-M",
            "shift",
            "-k",
            "v",
            "-m",
            "shift",
            "-m",
            "ctrl",
        ],
    };
    assert(text::str_views(res@) == shortcut_keys(shortcut));
    res
}

fn type_with_wtype(content: String) -> (res: Keystrokes)
    ensures
        res@ == typing(content@),
{
    let res = Keystrokes { arguments: vec!["-"], input: Some(content) };
    assert(res@ == typing(content@));
    res
}

/// Types the marker character into the active window.
pub fn type_marker(marker: &str) -> (res: Keystrokes)
    ensures
        res@ == typing(marker@),
{
    type_with_wtype(marker.to_owned())
}

/// Backspaces to remove the marker character.
pub fn backspace_marker() -> (res: Keystrokes)
    ensures
        res@ == erasing(1),
{
    Keystrokes { arguments: backspace_args(1), input: None }
}

/// Applies one realtime-tail replacement edit.
///
/// Backspaces and replacement text are sent through one `wtype` run so their
/// order is preserved. `backspaces` must count visible graphemes.
pub fn apply_realtime_edit(backspaces: usize, content: &str) -> (res: Option<Keystrokes>)
    ensures
        match res {
            Some(keystrokes) => editing(backspaces as nat, content@) == Some(keystrokes@),
            None => editing(backspaces as nat, content@) is None,
        },
{
    let empty = content.is_empty();
    if backspaces == 0 && empty {
        return None;
    }
    let mut arguments = backspace_args(backspaces);
    if empty {
        return Some(Keystrokes { arguments, input: None });
    }
    let ghost before = text::str_views(arguments@);
    arguments.push("-");
    assert(text::str_views(arguments@) == before.push("-"@));
    Some(Keystrokes { arguments, input: Some(content.to_owned()) })
}

/// Types plain transcript text into the active window; nothing for no text.
pub fn type_text(content: &str) -> (res: Option<Keystrokes>)
    ensures
        match res {
            Some(keystrokes) => content@.len() > 0 && keystrokes@ == typing(content@),
            None => content@.len() == 0,
        },
{
    if content.is_empty() {
        None
    } else {
        Some(type_with_wtype(content.to_owned()))
    }
}

/// What is typed before and after a paste: quotes around text, and a space on
/// either side of an image.
pub open spec fn delimiter(kind: ClipboardKind) -> Option<Seq<char>> {
    match kind {
        ClipboardKind::Text => Some("\""@),
        ClipboardKind::Image => Some(" "@),
        ClipboardKind::Unknown => None,
    }
}

/// The `wtype` runs that paste a kind of clipboard with a shortcut.
pub open spec fn wrapped_paste(kind: ClipboardKind, shortcut: PasteShortcut) -> Seq<
    KeystrokesView,
> {
    match delimiter(kind) {
        Some(mark) => seq![typing(mark), pasting(shortcut), typing(mark)],
        None => seq![pasting(shortcut)],
    }
}

/// Pastes the clipboard, of which no more is known than what its types and the
/// active window tell: text between double quotes, an image between spaces, and
/// an unknown clipboard as it is.
pub fn paste_clipboard(clipboard_types: Option<&str>, active_window: Option<&str>) -> (res: Vec<
    Keystrokes,
>)
    ensures
        keystrokes_views(res@) == wrapped_paste(
            clipboard::kind_of(text::opt_str_view(clipboard_types)),
            clipboard::shortcut(
                clipboard::kind_of(text::opt_str_view(clipboard_types)),
                clipboard::window_class(text::opt_str_view(active_window)),
            ),
        ),
{
    let kind = clipboard::clipboard_kind(clipboard_types);
    let shortcut = clipboard::paste_shortcut(clipboard_types, active_window);
    paste_with(kind, shortcut)
}

/// The `wtype` runs that paste a kind of clipboard with a shortcut.
pub fn paste_with(kind: ClipboardKind, shortcut: PasteShortcut) -> (res: Vec<Keystrokes>)
    ensures
        keystrokes_views(res@) == wrapped_paste(kind, shortcut),
{
    let paste = Keystrokes { arguments: paste_args(shortcut), input: None };
    let res: Vec<Keystrokes> = match kind {
        ClipboardKind::Text => vec![
            type_with_wtype("\"".to_owned()),
            paste,
            type_with_wtype("\"".to_owned()),
        ],
        ClipboardKind::Image => vec![
            type_with_wtype(" ".to_owned()),
            paste,
            type_with_wtype(" ".to_owned()),
        ],
        ClipboardKind::Unknown => vec![paste],
    };
    assert(keystrokes_views(res@) == wrapped_paste(kind, shortcut));
    res
}

/// One thing to deliver: a text to type, or the clipboard to paste.
#[derive(Debug, Clone, PartialEq, Eq)]
pub enum Delivery {
    Type(String),
    Paste,
}

/// What a [`Delivery`] says.
#[verifier::ext_equal]
pub enum DeliveryView {
    Type(Seq<char>),
    Paste,
}

impl View for Delivery {
    type V = DeliveryView;

    open spec fn view(&self) -> DeliveryView {
        match *self {
            Delivery::Type(content) => DeliveryView::Type(content@),
            Delivery::Paste => DeliveryView::Paste,
        }
    }
}

/// What a list of deliveries says.
pub open spec fn delivery_views(list: Seq<Delivery>) -> Seq<DeliveryView> {
    Seq::new(list.len(), |i: int| list[i]@)
}

/// What a chunk comes to: an empty literal to nothing.
pub open spec fn delivery_of(chunk: placeholder::ChunkView) -> Seq<DeliveryView> {
    match chunk {
        placeholder::ChunkView::Literal(content) => if content.len() == 0 {
            Seq::empty()
        } else {
            seq![DeliveryView::Type(content)]
        },
        placeholder::ChunkView::ClipboardPlaceholder => seq![DeliveryView::Paste],
    }
}

/// What chunks come to, in their order.
pub open spec fn deliveries(chunks: Seq<placeholder::ChunkView>) -> Seq<DeliveryView>
    decreases chunks.len(),
{
    if chunks.len() == 0 {
        Seq::empty()
    } else {
        delivery_of(chunks[0]) + deliveries(chunks.drop_first())
    }
}

/// Plans the delivery of transcript chunks in order, with a native clipboard
/// paste at each placeholder.
pub fn deliver_chunks(chunks: &Vec<TranscriptChunk<'_>>) -> (res: Vec<Delivery>)
    ensures
        delivery_views(res@) == deliveries(placeholder::chunk_views(chunks@)),
{
    let ghost all = placeholder::chunk_views(chunks@);
    let mut res: Vec<Delivery> = Vec::new();
    let mut i: usize = 0;
    assert(all.skip(0) == all);
    assert(delivery_views(res@) + deliveries(all) == deliveries(all));
    while i < chunks.len()
        invariant
            i <= chunks@.len(),
            all == placeholder::chunk_views(chunks@),
            delivery_views(res@) + deliveries(all.skip(i as int)) == deliveries(all),
        decreases chunks@.len() - i,
    {
        let ghost before = delivery_views(res@);
        let ghost rest = all.skip(i as int);
        assert(rest[0] == chunks@[i as int]@);
        assert(rest.drop_first() == all.skip(i as int + 1));
        match &chunks[i] {
            TranscriptChunk::Literal(content) => {
                if !content.is_empty() {
                    let next = Delivery::Type((*content).to_owned());
                    res.push(next);
                    assert(delivery_views(res@) == before + delivery_of(rest[0]));
                } else {
                    assert(delivery_views(res@) == before + delivery_of(rest[0]));
                }
            },
            TranscriptChunk::ClipboardPlaceholder => {
                res.push(Delivery::Paste);
                assert(delivery_views(res@) == before + delivery_of(rest[0]));
            },
        }
        assert(delivery_views(res@) + deliveries(all.skip(i as int + 1)) == before + deliveries(
            rest,
        ));
        i = i + 1;
    }
    assert(deliveries(all.skip(all.len() as int)) == Seq::<DeliveryView>::empty());
    assert(delivery_views(res@) == deliveries(all));
    res
}

/// What delivering a transcript comes to: its text as it is, where it has no
/// placeholder.
pub open spec fn transcript_deliveries(content: Seq<char>) -> Seq<DeliveryView> {
    deliveries(placeholder::chunks(content))
}

/// Plans the delivery of a transcript, with a native clipboard paste at each
/// placeholder.
pub fn deliver_transcript(content: &str) -> (res: Vec<Delivery>)
    ensures
        delivery_views(res@) == transcript_deliveries(content@),
{
    let chunks = placeholder::parse_banana_chunks(content);
    deliver_chunks(&chunks)
}

/// The number of pastes among the deliveries.
pub open spec fn paste_count(list: Seq<DeliveryView>) -> nat
    decreases list.len(),
{
    if list.len() == 0 {
        0
    } else {
        paste_count(list.drop_first()) + (if list[0] is Paste {
            1nat
        } else {
            0nat
        })
    }
}

proof fn lemma_paste_count(chunks: Seq<placeholder::ChunkView>)
    ensures
        paste_count(deliveries(chunks)) == placeholder::placeholder_count(chunks),
    decreases chunks.len(),
{
    if chunks.len() > 0 {
        let first = delivery_of(chunks[0]);
        let rest = deliveries(chunks.drop_first());
        lemma_paste_count(chunks.drop_first());
        if first.len() == 0 {
            assert(first + rest == rest);
        } else {
            assert((first + rest).drop_first() == rest);
        }
    }
}

/// Delivering a transcript pastes exactly once for each standalone token in it.
pub proof fn law_one_paste_for_each_token(content: Seq<char>)
    ensures
        paste_count(transcript_deliveries(content)) == placeholder::token_count(content, 0),
{
    lemma_paste_count(placeholder::chunks(content));
    placeholder::law_every_token_is_a_placeholder(content);
}

/// A transcript without a standalone token is typed as it is.
pub proof fn law_plain_transcripts_are_typed(content: Seq<char>)
    requires
        content.len() > 0,
        forall|i: int| !placeholder::token_at(content, i),
    ensures
        transcript_deliveries(content) == seq![DeliveryView::Type(content)],
{
    placeholder::law_text_without_token_is_literal(content);
    assert(content.subrange(0, content.len() as int) == content);
    let chunks = placeholder::chunks(content);
    assert(chunks == seq![placeholder::ChunkView::Literal(content)]);
    assert(deliveries(chunks.drop_first()) == Seq::<DeliveryView>::empty());
}

/// Every chunk is delivered, in its order, each in its own way: a literal is typed
/// as it is, unless it is empty, and a placeholder is pasted.
pub proof fn law_chunks_are_delivered_in_order(
    chunks: Seq<placeholder::ChunkView>,
    content: Seq<char>,
)
    ensures
        deliveries(Seq::empty()).len() == 0,
        deliveries(chunks + seq![placeholder::ChunkView::ClipboardPlaceholder]) == deliveries(
            chunks,
        ) + seq![DeliveryView::Paste],
        content.len() > 0 ==> deliveries(chunks + seq![placeholder::ChunkView::Literal(content)])
            == deliveries(chunks) + seq![DeliveryView::Type(content)],
        content.len() == 0 ==> deliveries(chunks + seq![placeholder::ChunkView::Literal(content)])
            == deliveries(chunks),
{
    lemma_last_delivery(chunks, placeholder::ChunkView::ClipboardPlaceholder);
    lemma_last_delivery(chunks, placeholder::ChunkView::Literal(content));
    assert(deliveries(chunks) + Seq::<DeliveryView>::empty() == deliveries(chunks));
}

proof fn lemma_last_delivery(
    chunks: Seq<placeholder::ChunkView>,
    chunk: placeholder::ChunkView,
)
    ensures
        deliveries(chunks + seq![chunk]) == deliveries(chunks) + delivery_of(chunk),
    decreases chunks.len(),
{
    let all = chunks + seq![chunk];
    if chunks.len() == 0 {
        assert(all[0] == chunk);
        assert(all.drop_first() == Seq::<placeholder::ChunkView>::empty());
        assert(deliveries(all.drop_first()) == Seq::<DeliveryView>::empty());
    } else {
        lemma_last_delivery(chunks.drop_first(), chunk);
        assert(all.drop_first() == chunks.drop_first() + seq![chunk]);
        assert(all[0] == chunks[0]);
    }
}

/// A transcript is delivered chunk by chunk: one delivery for each of its chunks,
/// which types the chunk's text or pastes the clipboard.
pub proof fn law_transcripts_are_delivered_chunk_by_chunk(content: Seq<char>)
    ensures
        ({
            let chunks = placeholder::chunks(content);
            let list = transcript_deliveries(content);
            &&& list.len() == chunks.len()
            &&& forall|i: int|
                0 <= i < chunks.len() ==> match #[trigger] chunks[i] {
                    placeholder::ChunkView::Literal(part) => list[i] == DeliveryView::Type(part),
                    placeholder::ChunkView::ClipboardPlaceholder => list[i] is Paste,
                }
        }),
{
    let chunks = placeholder::chunks(content);
    placeholder::law_chunks_are_what_they_stand_for(content);
    assert forall|i: int| 0 <= i < chunks.len() implies (#[trigger] chunks[i] matches
        placeholder::ChunkView::Literal(part) ==> part.len() > 0) by {
        assert(placeholder::rightly_placed(content, 0, chunks, i));
    }
    lemma_one_by_one(chunks);
}

proof fn lemma_one_by_one(chunks: Seq<placeholder::ChunkView>)
    requires
        forall|i: int|
            0 <= i < chunks.len() ==> (#[trigger] chunks[i] matches
                placeholder::ChunkView::Literal(part) ==> part.len() > 0),
    ensures
        deliveries(chunks).len() == chunks.len(),
        forall|i: int|
            0 <= i < chunks.len() ==> match #[trigger] chunks[i] {
                placeholder::ChunkView::Literal(part) => deliveries(chunks)[i]
                    == DeliveryView::Type(part),
                placeholder::ChunkView::ClipboardPlaceholder => deliveries(chunks)[i] is Paste,
            },
    decreases chunks.len(),
{
    if chunks.len() > 0 {
        let rest = chunks.drop_first();
        assert(chunks[0] == chunks[0]);
        assert forall|i: int| 0 <= i < rest.len() implies (#[trigger] rest[i] matches
            placeholder::ChunkView::Literal(part) ==> part.len() > 0) by {
            assert(rest[i] == chunks[i + 1]);
        }
        lemma_one_by_one(rest);
        let all = deliveries(chunks);
        assert(all == delivery_of(chunks[0]) + deliveries(rest));
        assert forall|i: int| 0 <= i < chunks.len() implies match #[trigger] chunks[i] {
            placeholder::ChunkView::Literal(part) => all[i] == DeliveryView::Type(part),
            placeholder::ChunkView::ClipboardPlaceholder => all[i] is Paste,
        } by {
            if i > 0 {
                assert(rest[i - 1] == chunks[i]);
                assert(all[i] == deliveries(rest)[i - 1]);
            }
        }
    }
}

/// Each Backspace is one press of its key, and no press is lost.
pub proof fn law_each_backspace_is_one_press(count: nat)
    ensures
        backspaces(0).len() == 0,
        backspaces(count + 1) == backspaces(count) + seq!["-k"@, "backspace"@],
{
    assert(backspaces(count + 1) == backspaces(count) + seq!["-k"@, "backspace"@]);
}

/// One run of `wtype` makes an edit: the presses of Backspace, then the text, read
/// from its input. An edit that changes nothing makes no run.
pub proof fn law_one_run_makes_an_edit(count: nat, insert: Seq<char>)
    ensures
        editing(count, insert) is None <==> count == 0 && insert.len() == 0,
        editing(count, insert) matches Some(run) ==> {
            &&& insert.len() == 0 ==> run.input is None && run.arguments == backspaces(count)
            &&& insert.len() > 0 ==> run.input == Some(insert) && run.arguments == backspaces(
                count,
            ) + seq!["-"@]
        },
{
    assert(backspaces(count).push("-"@) == backspaces(count) + seq!["-"@]);
}

/// Text from the clipboard is pasted between double quotes, an image between
/// spaces, and what is not known as it is.
pub proof fn law_what_surrounds_a_paste(shortcut: PasteShortcut)
    ensures
        ({
            let quote = typing(seq!['"']);
            let space = typing(seq![' ']);
            let paste = pasting(shortcut);
            &&& wrapped_paste(ClipboardKind::Text, shortcut) == seq![quote, paste, quote]
            &&& wrapped_paste(ClipboardKind::Image, shortcut) == seq![space, paste, space]
            &&& wrapped_paste(ClipboardKind::Unknown, shortcut) == seq![paste]
        }),
{
    reveal_strlit("\"");
    reveal_strlit(" ");
    assert("\""@ == seq!['"']);
    assert(" "@ == seq![' ']);
}

/// How `wtype` is run: it reads the text to type from its input, whatever that is;
/// and it presses keys, holding the modifiers of a shortcut down around V.
pub proof fn law_how_wtype_is_run(content: Seq<char>, count: nat)
    ensures
        typing(content).arguments == seq!["-"@],
        typing(content).input == Some(content),
        erasing(count).arguments == backspaces(count),
        erasing(count).input is None,
        pasting(PasteShortcut::CtrlV).arguments == seq![
            "-M"@,
            "ctrl"@,
            "-k"@,
            "v"@,
            "-m"@,
            "ctrl"@,
        ],
        pasting(PasteShortcut::CtrlShiftV).arguments == seq!["-M"@, "ctrl"@] + seq![
            "-M"@,
            "shift"@,
            "-k"@,
            "v"@,
            "-m"@,
            "shift"@,
        ] + seq!["-m"@, "ctrl"@],
        pasting(PasteShortcut::CtrlV).input is None,
        pasting(PasteShortcut::CtrlShiftV).input is None,
{
    assert(pasting(PasteShortcut::CtrlShiftV).arguments == seq!["-M"@, "ctrl"@] + seq![
        "-M"@,
        "shift"@,
        "-k"@,
        "v"@,
        "-m"@,
        "shift"@,
    ] + seq!["-m"@, "ctrl"@]);
}

} // verus!
