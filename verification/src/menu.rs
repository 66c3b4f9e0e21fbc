//! The interactive keyterm list: key handling and what stands on the screen.

use crate::text;
use vstd::prelude::*;

verus! {

/// A key press that the list can react to.
#[derive(Debug, Clone, Copy, PartialEq, Eq)]
pub enum MenuKey {
    Up,
    Down,
    Esc,
    Char(char),
    Other,
}

/// What the caller does after a key press.
#[derive(Debug, Clone, Copy, PartialEq, Eq)]
pub enum MenuStep {
    /// Draw the list again.
    Redraw,
    /// Ask whether to delete the selected keyterm.
    AskDelete,
    /// Write the changed list to its file, then draw it again.
    Save,
    /// Leave the list.
    Exit,
}

/// The list that is being managed.
#[derive(Debug, Clone, PartialEq, Eq)]
pub struct Menu {
    terms: Vec<String>,
    selected: usize,
    confirming: bool,
}

/// What a [`Menu`] holds.
#[verifier::ext_equal]
pub struct MenuView {
    pub terms: Seq<Seq<char>>,
    pub selected: int,
    pub confirming: bool,
}

impl View for Menu {
    type V = MenuView;

    closed spec fn view(&self) -> MenuView {
        MenuView {
            terms: text::views(self.terms@),
            selected: self.selected as int,
            confirming: self.confirming,
        }
    }
}

/// Whether a key confirms a deletion.
pub open spec fn confirms(key: MenuKey) -> bool {
    key == MenuKey::Char('y') || key == MenuKey::Char('Y')
}

/// The selection after moving by one in a list of `len` items: it wraps around
/// at both ends, and in an empty list it stays at zero.
pub open spec fn moved(selected: int, len: int, direction: int) -> int {
    if len == 0 {
        0
    } else if direction == -1 {
        if selected > 0 {
            selected - 1
        } else {
            len - 1
        }
    } else if direction == 1 {
        (selected + 1) % len
    } else {
        selected
    }
}

impl MenuView {
    /// The selection lies inside the list; a deletion is only asked for when
    /// there is something to delete.
    pub open spec fn valid(self) -> bool {
        &&& 0 <= self.selected
        &&& self.selected < self.terms.len() || self.selected == 0 && self.terms.len() == 0
        &&& self.confirming ==> self.terms.len() > 0
    }

    /// The list after a key press, and what the caller does then.
    pub open spec fn pressed(self, key: MenuKey) -> (MenuView, MenuStep) {
        if self.confirming {
            if confirms(key) {
                let terms = self.terms.remove(self.selected);
                let selected = if self.selected < terms.len() {
                    self.selected
                } else if terms.len() > 0 {
                    terms.len() - 1
                } else {
                    0
                };
                (MenuView { terms, selected, confirming: false }, MenuStep::Save)
            } else {
                (MenuView { confirming: false, ..self }, MenuStep::Redraw)
            }
        } else {
            match key {
                MenuKey::Up | MenuKey::Char('k') => (
                    MenuView { selected: moved(self.selected, self.terms.len() as int, -1), ..self },
                    MenuStep::Redraw,
                ),
                MenuKey::Down | MenuKey::Char('j') => (
                    MenuView { selected: moved(self.selected, self.terms.len() as int, 1), ..self },
                    MenuStep::Redraw,
                ),
                MenuKey::Char('q') | MenuKey::Esc => (self, MenuStep::Exit),
                MenuKey::Char('D') => if self.terms.len() > 0 {
                    (MenuView { confirming: true, ..self }, MenuStep::AskDelete)
                } else {
                    (self, MenuStep::Redraw)
                },
                _ => (self, MenuStep::Redraw),
            }
        }
    }
}

/// Whether a key confirms a deletion: only `y` and `Y` do.
pub fn is_delete_confirmation(key: MenuKey) -> (res: bool)
    ensures
        res == confirms(key),
{
    match key {
        MenuKey::Char(c) => c == 'y' || c == 'Y',
        _ => false,
    }
}

/// Moves the selection by one, wrapping around at both ends.
pub fn move_selection(selected: usize, len: usize, direction: i8) -> (res: usize)
    requires
        direction == 1 && len > 0 ==> selected < usize::MAX,
    ensures
        res == moved(selected as int, len as int, direction as int),
{
    if len == 0 {
        0
    } else if direction == -1 {
        if selected > 0 {
            selected - 1
        } else {
            len - 1
        }
    } else if direction == 1 {
        (selected + 1) % len
    } else {
        selected
    }
}

impl Menu {
    /// The list with its first keyterm selected.
    pub fn new(terms: Vec<String>) -> (res: Menu)
        ensures
            res@ == (MenuView { terms: text::views(terms@), selected: 0, confirming: false }),
            res@.valid(),
    {
        Menu { terms, selected: 0, confirming: false }
    }

    /// The keyterms.
    pub fn terms(&self) -> (res: &Vec<String>)
        ensures
            text::views(res@) == self@.terms,
    {
        &self.terms
    }

    /// The position of the selected keyterm.
    pub fn selected(&self) -> (res: usize)
        ensures
            res == self@.selected,
    {
        self.selected
    }

    /// Handles a key press.
    pub fn press(&mut self, key: MenuKey) -> (res: MenuStep)
        requires
            old(self)@.valid(),
        ensures
            final(self)@.valid(),
            (final(self)@, res) == old(self)@.pressed(key),
    {
        let ghost before = self@;
        if self.confirming {
            self.confirming = false;
            if !is_delete_confirmation(key) {
                return MenuStep::Redraw;
            }
            self.terms.remove(self.selected);
            assert(text::views(self.terms@) == before.terms.remove(before.selected));
            if self.selected >= self.terms.len() {
                self.selected = if self.terms.len() > 0 {
                    self.terms.len() - 1
                } else {
                    0
                };
            }
            return MenuStep::Save;
        }
        let direction: i8 = match key {
            MenuKey::Up => -1,
            MenuKey::Down => 1,
            MenuKey::Esc => {
                return MenuStep::Exit;
            },
            MenuKey::Char(c) => if c == 'k' {
                -1
            } else if c == 'j' {
                1
            } else if c == 'q' {
                return MenuStep::Exit;
            } else if c == 'D' && self.terms.len() > 0 {
                self.confirming = true;
                return MenuStep::AskDelete;
            } else {
                0
            },
            MenuKey::Other => 0,
        };
        if direction != 0 {
            self.selected = move_selection(self.selected, self.terms.len(), direction);
            proof {
                if before.terms.len() > 0 {
                    vstd::arithmetic::div_mod::lemma_mod_bound(
                        before.selected + 1,
                        before.terms.len() as int,
                    );
                }
            }
        }
        MenuStep::Redraw
    }
}

/// How one character of a keyterm is shown.
pub open spec fn escaped_char(c: char) -> Seq<char> {
    if c == '\t' {
        seq!['\\', 't']
    } else if c == '\r' {
        seq!['\\', 'r']
    } else if c == '\n' {
        seq!['\\', 'n']
    } else if c == '\'' || c == '"' || c == '\\' {
        seq!['\\', c]
    } else if ' ' <= c <= '~' {
        seq![c]
    } else {
        seq!['\\', 'u', '{'] + text::digits(c as u32 as nat, 16) + seq!['}']
    }
}

/// How a keyterm is shown: what could move the cursor or is not plain ASCII is
/// escaped.
pub open spec fn escaped(term: Seq<char>) -> Seq<char>
    decreases term.len(),
{
    if term.len() == 0 {
        Seq::empty()
    } else {
        escaped(term.drop_last()) + escaped_char(term.last())
    }
}

/// How a keyterm is shown.
pub fn display_term(term: &str) -> (res: String)
    ensures
        res@ == escaped(term@),
{
    let chars = text::to_chars(term);
    let mut res = String::new();
    let mut i: usize = 0;
    assert(chars@.take(0) == Seq::<char>::empty());
    while i < chars.len()
        invariant
            i <= chars@.len(),
            res@ == escaped(chars@.take(i as int)),
        decreases chars@.len() - i,
    {
        let ghost before = res@;
        let c: char = chars[i];
        if c == '\t' {
            res.push('\\');
            res.push('t');
        } else if c == '\r' {
            res.push('\\');
            res.push('r');
        } else if c == '\n' {
            res.push('\\');
            res.push('n');
        } else if c == '\'' || c == '"' || c == '\\' {
            res.push('\\');
            res.push(c);
        } else if ' ' <= c && c <= '~' {
            res.push(c);
        } else {
            res.push('\\');
            res.push('u');
            res.push('{');
            let code = text::format_digits(c as u32 as u64, 16);
            res.append(code.as_str());
            res.push('}');
            assert(code@ == text::digits(c as u32 as nat, 16));
            assert(res@ == before + (seq!['\\', 'u', '{'] + code@ + seq!['}']));
        }
        assert(res@ == before + escaped_char(c));
        assert(chars@.take(i + 1).drop_last() == chars@.take(i as int));
        assert(chars@.take(i + 1).last() == c);
        i = i + 1;
    }
    assert(chars@.take(chars@.len() as int) == chars@);
    res
}

/// A line of the screen: its row, counted from zero, and its text.
#[derive(Debug, Clone, PartialEq, Eq)]
pub struct ScreenLine {
    pub row: u16,
    pub text: String,
}

/// What a [`ScreenLine`] says.
#[verifier::ext_equal]
pub struct LineView {
    pub row: int,
    pub text: Seq<char>,
}

impl View for ScreenLine {
    type V = LineView;

    open spec fn view(&self) -> LineView {
        LineView { row: self.row as int, text: self.text@ }
    }
}

/// What a list of lines says.
pub open spec fn line_views(lines: Seq<ScreenLine>) -> Seq<LineView> {
    Seq::new(lines.len(), |i: int| lines[i]@)
}

/// The line of the keyterm at `index`, marked when it is selected.
pub open spec fn term_line(terms: Seq<Seq<char>>, selected: int, index: int) -> LineView {
    LineView {
        row: index + 2,
        text: (if index == selected {
            "> "@
        } else {
            "  "@
        }) + escaped(terms[index]),
    }
}

/// The lines of the screen: a header with the number of keyterms, the keys, and
/// one line for every keyterm.
pub open spec fn screen(terms: Seq<Seq<char>>, selected: int) -> Seq<LineView> {
    seq![
        LineView { row: 0, text: "Keyterms ("@ + text::decimal(terms.len()) + " of 1000)"@ },
        LineView { row: 1, text: "↑/↓ or j/k: move   D: delete   q/Esc: exit"@ },
    ] + (if terms.len() == 0 {
        seq![
            LineView {
                row: 3,
                text: "(no keyterms; add one with: daapstt keyterms add <term>)"@,
            },
        ]
    } else {
        Seq::new(terms.len(), |i: int| term_line(terms, selected, i))
    })
}

/// The lines of the screen, in the order in which they are drawn.
pub fn render(terms: &Vec<String>, selected: usize) -> (res: Vec<ScreenLine>)
    requires
        terms@.len() <= 65534,
    ensures
        line_views(res@) == screen(text::views(terms@), selected as int),
{
    let ghost list = text::views(terms@);
    let mut res: Vec<ScreenLine> = Vec::new();
    res.push(
        ScreenLine {
            row: 0,
            text: "Keyterms (".to_owned().concat(
                text::format_decimal(terms.len() as u64).as_str(),
            ).concat(" of 1000)"),
        },
    );
    res.push(
        ScreenLine { row: 1, text: "↑/↓ or j/k: move   D: delete   q/Esc: exit".to_owned() },
    );
    let ghost head = line_views(res@);
    if terms.len() == 0 {
        res.push(
            ScreenLine {
                row: 3,
                text: "(no keyterms; add one with: daapstt keyterms add <term>)".to_owned(),
            },
        );
        assert(line_views(res@) == screen(list, selected as int));
        return res;
    }
    let mut i: usize = 0;
    assert(head + Seq::new(0, |j: int| term_line(list, selected as int, j)) == head);
    while i < terms.len()
        invariant
            i <= terms@.len() <= 65534,
            list == text::views(terms@),
            line_views(res@) == head + Seq::new(
                i as nat,
                |j: int| term_line(list, selected as int, j),
            ),
        decreases terms@.len() - i,
    {
        let ghost before = line_views(res@);
        let marker = if i == selected {
            "> "
        } else {
            "  "
        };
        let line = ScreenLine {
            row: i as u16 + 2,
            text: marker.to_owned().concat(display_term(terms[i].as_str()).as_str()),
        };
        assert(line@ == term_line(list, selected as int, i as int));
        res.push(line);
        assert(line_views(res@) == before.push(line@));
        assert(line_views(res@) == head + Seq::new(
            (i + 1) as nat,
            |j: int| term_line(list, selected as int, j),
        ));
        i = i + 1;
    }
    assert(line_views(res@) == screen(list, selected as int));
    res
}

/// The question before a keyterm is deleted.
pub fn delete_prompt(term: &str) -> (res: String)
    ensures
        res@ == "Delete \""@ + escaped(term@) + "\"? y to confirm: "@,
{
    "Delete \"".to_owned().concat(display_term(term).as_str()).concat("\"? y to confirm: ")
}

/// Moving down and then up again returns to the same keyterm, and so does
/// moving up and then down.
pub proof fn law_moves_undo_each_other(selected: int, len: int)
    requires
        0 <= selected < len,
    ensures
        moved(moved(selected, len, 1), len, -1) == selected,
        moved(moved(selected, len, -1), len, 1) == selected,
        0 <= moved(selected, len, 1) < len,
        0 <= moved(selected, len, -1) < len,
{
    if selected + 1 < len {
        vstd::arithmetic::div_mod::lemma_small_mod((selected + 1) as nat, len as nat);
    } else {
        vstd::arithmetic::div_mod::lemma_mod_self_0(len);
    }
    if selected > 0 {
        vstd::arithmetic::div_mod::lemma_small_mod(selected as nat, len as nat);
    } else {
        vstd::arithmetic::div_mod::lemma_mod_self_0(len);
    }
}

/// The list changes, and is written, only when a deletion was asked for and then
/// confirmed.
pub proof fn law_only_confirmed_deletions_change_the_list(menu: MenuView, key: MenuKey)
    ensures
        menu.pressed(key).1 is Save <==> menu.confirming && confirms(key),
        !(menu.pressed(key).1 is Save) ==> menu.pressed(key).0.terms == menu.terms,
        menu.pressed(key).0.confirming <==> menu.pressed(key).1 is AskDelete,
{
}

/// What the keys do in the list: the arrows, `j` and `k` move the selection by one and
/// round the ends; `D` asks for a deletion where there is something to delete; `q` and
/// Esc leave; and any other key does nothing.
pub proof fn law_what_keys_do_in_the_list(menu: MenuView, key: MenuKey)
    requires
        menu.valid(),
        !menu.confirming,
    ensures
        ({
            let (next, step) = menu.pressed(key);
            let last = menu.terms.len() - 1;
            let up = key == MenuKey::Up || key == MenuKey::Char('k');
            let down = key == MenuKey::Down || key == MenuKey::Char('j');
            let leave = key == MenuKey::Esc || key == MenuKey::Char('q');
            let delete = key == MenuKey::Char('D');
            &&& next.terms == menu.terms
            &&& menu.terms.len() == 0 ==> next.selected == 0
            &&& up && menu.terms.len() > 0 ==> next.selected == (if menu.selected == 0 {
                last
            } else {
                menu.selected - 1
            })
            &&& down && menu.terms.len() > 0 ==> next.selected == (if menu.selected == last {
                0
            } else {
                menu.selected + 1
            })
            &&& !up && !down ==> next.selected == menu.selected
            &&& next.confirming == (delete && menu.terms.len() > 0)
            &&& step is AskDelete <==> delete && menu.terms.len() > 0
            &&& step is Exit <==> leave
            &&& step is Redraw <==> !leave && !(delete && menu.terms.len() > 0)
        }),
{
    let len = menu.terms.len() as int;
    if len > 0 {
        law_moves_undo_each_other(menu.selected, len);
        if menu.selected + 1 < len {
            vstd::arithmetic::div_mod::lemma_small_mod((menu.selected + 1) as nat, len as nat);
        } else {
            vstd::arithmetic::div_mod::lemma_mod_self_0(len);
        }
    }
}

/// What keys do when a deletion was asked for: `y` and `Y` delete the selected
/// keyterm and no other, and have the list written; any other key deletes nothing.
pub proof fn law_what_keys_do_before_a_deletion(menu: MenuView, key: MenuKey)
    requires
        menu.valid(),
        menu.confirming,
    ensures
        ({
            let (next, step) = menu.pressed(key);
            let last = menu.terms.len() - 1;
            &&& !next.confirming
            &&& if key == MenuKey::Char('y') || key == MenuKey::Char('Y') {
                &&& step is Save
                &&& next.terms == menu.terms.take(menu.selected) + menu.terms.skip(
                    menu.selected + 1,
                )
                &&& menu.selected < last ==> next.selected == menu.selected
                &&& menu.selected == last && last > 0 ==> next.selected == last - 1
                &&& last == 0 ==> next.selected == 0
            } else {
                &&& step is Redraw
                &&& next.terms == menu.terms
                &&& next.selected == menu.selected
            }
        }),
{
    assert(menu.terms.remove(menu.selected) == menu.terms.take(menu.selected) + menu.terms.skip(
        menu.selected + 1,
    ));
}

/// A keyterm is shown character by character. Printable ASCII stands as it is, but
/// quotes and the backslash get a backslash before them; the tab and the line ends
/// are shown by their letters; and any other character by its code.
pub proof fn law_how_keyterms_are_shown(term: Seq<char>, c: char)
    ensures
        escaped(Seq::empty()).len() == 0,
        ({
            let shown = escaped(term + seq![c]);
            let before = escaped(term);
            let code = c as u32;
            if code == 9 {
                shown == before + seq!['\\', 't']
            } else if code == 10 {
                shown == before + seq!['\\', 'n']
            } else if code == 13 {
                shown == before + seq!['\\', 'r']
            } else if code == 34 || code == 39 || code == 92 {
                shown == before + seq!['\\', c]
            } else if 32 <= code <= 126 {
                shown == before + seq![c]
            } else {
                shown == before + (seq!['\\', 'u', '{'] + text::digits(code as nat, 16) + seq![
                    '}',
                ])
            }
        }),
{
    assert((term + seq![c]).drop_last() == term);
}

/// What stands on the screen: how many keyterms there are, the keys, and below them
/// each keyterm in a row of its own, in their order, with a mark before the selected
/// one alone.
pub proof fn law_what_stands_on_the_screen(terms: Seq<Seq<char>>, selected: int, index: int)
    requires
        0 <= index < terms.len(),
    ensures
        screen(terms, selected).len() == terms.len() + 2,
        screen(terms, selected)[0] == (LineView {
            row: 0,
            text: "Keyterms ("@ + text::decimal(terms.len()) + " of 1000)"@,
        }),
        screen(terms, selected)[index + 2].row == index + 2,
        screen(terms, selected)[index + 2].text == (if index == selected {
            seq!['>', ' ']
        } else {
            seq![' ', ' ']
        }) + escaped(terms[index]),
{
    reveal_strlit("> ");
    reveal_strlit("  ");
    assert("> "@ == seq!['>', ' ']);
    assert("  "@ == seq![' ', ' ']);
}

} // verus!
