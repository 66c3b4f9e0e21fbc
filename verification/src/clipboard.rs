//! Native clipboard paste shortcut selection.

use crate::json;
use crate::text;
use vstd::prelude::*;

verus! {

/// The keyboard shortcut used to paste the current Wayland clipboard.
#[derive(Debug, Clone, Copy, PartialEq, Eq)]
pub enum PasteShortcut {
    CtrlV,
    CtrlShiftV,
}

/// What the clipboard holds, as far as its types tell.
#[derive(Debug, Clone, Copy, PartialEq, Eq)]
pub enum ClipboardKind {
    /// The types could not be had.
    Unknown,
    Image,
    /// Anything but an image.
    Text,
}

/// Whether one of the listed types, one a line, is that of an image. Line ends
/// are white space, so trimming a line removes them too.
pub open spec fn offers_image(types: Seq<char>) -> bool {
    exists|i: int|
        0 <= i < text::split_on(types, '\n').len() && "image/"@.is_prefix_of(
            text::trim(#[trigger] text::split_on(types, '\n')[i]),
        )
}

/// What the clipboard holds, given the types that it offers.
pub open spec fn kind_of(types: Option<Seq<char>>) -> ClipboardKind {
    match types {
        None => ClipboardKind::Unknown,
        Some(types) => if offers_image(types) {
            ClipboardKind::Image
        } else {
            ClipboardKind::Text
        },
    }
}

/// Whether the class of the active window is `kitty`, ignoring ASCII case.
pub open spec fn is_kitty(class: Option<Seq<char>>) -> bool {
    class matches Some(name) && text::same_ignoring_ascii_case(name, "kitty"@)
}

/// The class of the active window that its JSON description names.
pub open spec fn window_class(window: Option<Seq<char>>) -> Option<Seq<char>> {
    match window {
        Some(description) => json::member_string(description, "class"@),
        None => None,
    }
}

/// The shortcut for a kind of clipboard and the class of the active window.
pub open spec fn shortcut(kind: ClipboardKind, class: Option<Seq<char>>) -> PasteShortcut {
    if kind is Text && is_kitty(class) {
        PasteShortcut::CtrlShiftV
    } else {
        PasteShortcut::CtrlV
    }
}

fn lists_image(types: &str) -> (res: bool)
    ensures
        res == offers_image(types@),
{
    let chars = text::to_chars(types);
    let parts = text::split_bounds(&chars, '\n');
    let prefix = text::to_chars("image/");
    let ghost lines = text::split_on(types@, '\n');
    let mut i: usize = 0;
    while i < parts.len()
        invariant
            i <= parts@.len(),
            chars@ == types@,
            prefix@ == "image/"@,
            lines == text::split_on(types@, '\n'),
            parts@.len() == lines.len(),
            forall|j: int|
                0 <= j < parts@.len() ==> {
                    &&& (#[trigger] parts@[j]).0 <= parts@[j].1 <= chars@.len()
                    &&& chars@.subrange(parts@[j].0 as int, parts@[j].1 as int) == lines[j]
                },
            forall|j: int|
                0 <= j < i ==> !"image/"@.is_prefix_of(text::trim(#[trigger] lines[j])),
        decreases parts@.len() - i,
    {
        let (start, end) = parts[i];
        let (lo, hi) = text::strip_bounds(&chars, start, end, text::CharClass::Space);
        let ghost trimmed = text::trim(lines[i as int]);
        assert(trimmed == chars@.subrange(lo as int, hi as int));
        if hi - lo >= prefix.len() {
            assert(chars@.subrange(lo as int, lo + prefix@.len()) == trimmed.subrange(
                0,
                prefix@.len() as int,
            ));
            if text::matches_at(&chars, lo, &prefix) {
                assert("image/"@.is_prefix_of(text::trim(lines[i as int])));
                return true;
            }
        }
        i = i + 1;
    }
    false
}

/// What the clipboard holds, given the types that it offers, if they could be
/// had.
pub fn clipboard_kind(types: Option<&str>) -> (res: ClipboardKind)
    ensures
        res == kind_of(text::opt_str_view(types)),
{
    match types {
        None => ClipboardKind::Unknown,
        Some(types) => if lists_image(types) {
            ClipboardKind::Image
        } else {
            ClipboardKind::Text
        },
    }
}

/// The shortcut for a kind of clipboard and the class of the active window.
pub fn shortcut_for(kind: ClipboardKind, class: Option<&str>) -> (res: PasteShortcut)
    ensures
        res == shortcut(kind, text::opt_str_view(class)),
{
    if let (ClipboardKind::Text, Some(name)) = (kind, class) {
        if text::eq_ignoring_ascii_case(name, "kitty") {
            return PasteShortcut::CtrlShiftV;
        }
    }
    PasteShortcut::CtrlV
}

/// Chooses a paste shortcut without ever reading clipboard contents.
///
/// Image clipboard data always uses the standard paste shortcut. For non-image
/// clipboard data, Kitty's terminal paste shortcut is used only when the active
/// window class is exactly `kitty`, ignoring ASCII case. All missing or invalid
/// probe data deliberately falls back to the standard shortcut.
pub fn select_paste_shortcut(clipboard_types: &str, active_window: Option<&str>) -> (res:
    PasteShortcut)
    ensures
        res == shortcut(
            kind_of(Some(clipboard_types@)),
            window_class(text::opt_str_view(active_window)),
        ),
{
    paste_shortcut(Some(clipboard_types), active_window)
}

/// The native-paste shortcut for the current clipboard and active window, as
/// far as they could be probed. Probe failures intentionally use Ctrl+V.
pub fn paste_shortcut(clipboard_types: Option<&str>, active_window: Option<&str>) -> (res:
    PasteShortcut)
    ensures
        res == shortcut(
            kind_of(text::opt_str_view(clipboard_types)),
            window_class(text::opt_str_view(active_window)),
        ),
{
    let kind = clipboard_kind(clipboard_types);
    let class = match active_window {
        Some(window) => json::string_member(window, "class"),
        None => None,
    };
    match &class {
        Some(name) => shortcut_for(kind, Some(name.as_str())),
        None => shortcut_for(kind, None),
    }
}

/// Whether the shortcut depends on the active window, so that it is worth asking
/// for.
pub fn depends_on_window(kind: ClipboardKind) -> (res: bool)
    ensures
        res == (exists|a: Option<Seq<char>>, b: Option<Seq<char>>|
            #[trigger] shortcut(kind, a) != #[trigger] shortcut(kind, b)),
{
    let ghost terminal = Some("kitty"@);
    assert(is_kitty(terminal));
    assert(!is_kitty(None));
    assert(kind is Text ==> shortcut(kind, terminal) != shortcut(kind, None));
    matches!(kind, ClipboardKind::Text)
}

/// Images are pasted with Ctrl+V in every application.
pub proof fn law_images_use_the_standard_shortcut(types: Seq<char>, window: Option<Seq<char>>)
    requires
        offers_image(types),
    ensures
        shortcut(kind_of(Some(types)), window_class(window)) == PasteShortcut::CtrlV,
{
}

/// Only Kitty gets the terminal shortcut; every other application, and one that
/// could not be asked for, gets Ctrl+V.
pub proof fn law_only_kitty_uses_the_terminal_shortcut(
    types: Option<Seq<char>>,
    window: Option<Seq<char>>,
)
    ensures
        shortcut(kind_of(types), window_class(window)) == PasteShortcut::CtrlShiftV ==> is_kitty(
            window_class(window),
        ),
        shortcut(kind_of(types), window_class(None)) == PasteShortcut::CtrlV,
        shortcut(kind_of(None), window_class(window)) == PasteShortcut::CtrlV,
{
}

/// When which shortcut is used: Ctrl+Shift+V exactly where the clipboard is known to
/// hold no image and the class of the window is `kitty`, in any ASCII case;
/// otherwise Ctrl+V.
pub proof fn law_when_which_shortcut_is_used(
    types: Option<Seq<char>>,
    class: Option<Seq<char>>,
)
    ensures
        shortcut(kind_of(types), class) == PasteShortcut::CtrlShiftV <==> {
            &&& types matches Some(listed) && !offers_image(listed)
            &&& class matches Some(name) && text::same_ignoring_ascii_case(
                name,
                seq!['k', 'i', 't', 't', 'y'],
            )
        },
        kind_of(types) == (match types {
            None => ClipboardKind::Unknown,
            Some(listed) => if offers_image(listed) {
                ClipboardKind::Image
            } else {
                ClipboardKind::Text
            },
        }),
{
    reveal_strlit("kitty");
    assert("kitty"@ == seq!['k', 'i', 't', 't', 'y']);
}

/// A clipboard holds an image exactly where one of the lines that list its types,
/// without the white space around it, begins with `image/`.
pub proof fn law_which_clipboards_hold_an_image(lines: Seq<Seq<char>>)
    requires
        lines.len() > 0,
        forall|i: int| 0 <= i < lines.len() ==> !(#[trigger] lines[i]).contains('\n'),
    ensures
        offers_image(text::rejoined(lines, '\n')) <==> exists|i: int|
            0 <= i < lines.len() && seq!['i', 'm', 'a', 'g', 'e', '/'].is_prefix_of(
                text::trim(#[trigger] lines[i]),
            ),
{
    reveal_strlit("image/");
    assert("image/"@ == seq!['i', 'm', 'a', 'g', 'e', '/']);
    text::law_split_undoes_join(lines, '\n');
}

/// The class of a window is the member `class` of its description, as far as there
/// is a description with one.
pub proof fn law_what_names_the_class_of_a_window(description: Seq<char>)
    ensures
        window_class(None) is None,
        window_class(Some(description)) == json::member_string(
            description,
            seq!['c', 'l', 'a', 's', 's'],
        ),
{
    reveal_strlit("class");
    assert("class"@ == seq!['c', 'l', 'a', 's', 's']);
}

} // verus!
