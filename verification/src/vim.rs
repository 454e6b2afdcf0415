use vstd::prelude::*;

use crate::input::{edited, EditRequest, TextInput};
use crate::text::{chars_of, string_of};

verus! {

/// What `tui_input::Input::visual_cursor` gives for the input holding
/// `value` with the cursor at `cursor`: the display width of the text before
/// the cursor, by the Unicode width of its characters.
pub uninterp spec fn visual_cursor_of(value: Seq<char>, cursor: usize) -> usize;

/// What `tui_input::Input::visual_scroll` gives for the input holding `value`
/// with the cursor at `cursor`, in a field `width` cells wide.
pub uninterp spec fn visual_scroll_of(value: Seq<char>, cursor: usize, width: usize) -> usize;

/// `tui_input::Input::visual_cursor` on the input holding `value` with the
/// cursor at `cursor`: named by `visual_cursor_of`, and zero at the start as
/// its source returns early there.
#[verifier::external_body]
fn input_visual_cursor(value: &str, cursor: usize) -> (c: usize)
    ensures
        c == visual_cursor_of(value@, cursor),
        cursor == 0 ==> c == 0,
{
    tui_input::Input::new(value.to_string()).with_cursor(cursor).visual_cursor()
}

/// `tui_input::Input::visual_scroll` on the input holding `value` with the
/// cursor at `cursor`, for a field `width` cells wide: named by
/// `visual_scroll_of`.
#[verifier::external_body]
fn input_visual_scroll(value: &str, cursor: usize, width: usize) -> (s: usize)
    ensures
        s == visual_scroll_of(value@, cursor, width),
{
    tui_input::Input::new(value.to_string()).with_cursor(cursor).visual_scroll(width)
}

/// The modes of the vim-style input.
#[derive(PartialEq, Eq, Structural, Clone, Copy, Debug)]
pub enum VimMode {
    Normal,
    Insert,
    Visual,
}

/// A one-line input edited with vim-style modes.
pub struct VimInput {
    input: TextInput,
    mode: VimMode,
    visual_anchor: Option<usize>,
}

/// Where the cursor goes when it must rest on a character: outside insert
/// mode, a cursor past the last character moves back onto it.
pub open spec fn clamped(v: Seq<char>, c: int, mode: VimMode) -> int {
    if mode != VimMode::Insert && v.len() > 0 && c >= v.len() {
        v.len() - 1
    } else {
        c
    }
}

/// `v` without the characters at positions `start` to `end`, both included.
pub open spec fn without_range(v: Seq<char>, start: int, end: int) -> Seq<char> {
    v.take(if start < v.len() {
        start
    } else {
        v.len() as int
    }) + v.skip(if end + 1 < v.len() {
        end + 1
    } else {
        v.len() as int
    })
}

impl VimInput {
    pub closed spec fn text(&self) -> Seq<char> {
        self.input.text()
    }

    pub closed spec fn position(&self) -> int {
        self.input.position()
    }

    pub closed spec fn mode_spec(&self) -> VimMode {
        self.mode
    }

    pub closed spec fn anchor(&self) -> Option<usize> {
        self.visual_anchor
    }

    pub closed spec fn wf(&self) -> bool {
        self.input.wf()
    }

    /// The selected range, both ends included, in visual mode.
    pub open spec fn selection(&self) -> Option<(int, int)> {
        match self.anchor() {
            Some(a) => if self.text().len() == 0 {
                None
            } else {
                Some(
                    (
                        if a < self.position() {
                            a as int
                        } else {
                            self.position()
                        },
                        if a < self.position() {
                            self.position()
                        } else {
                            a as int
                        },
                    ),
                )
            },
            None => None,
        }
    }

    /// An empty input in normal mode.
    pub fn default() -> (v: VimInput)
        ensures
            v.wf(),
            v.text() == Seq::<char>::empty(),
            v.position() == 0,
            v.mode_spec() == VimMode::Normal,
            v.anchor() is None,
    {
        VimInput { input: TextInput::empty(), mode: VimMode::Normal, visual_anchor: None }
    }

    /// An input holding `value` in normal mode, the cursor on its last
    /// character.
    pub fn new(value: String) -> (v: VimInput)
        ensures
            v.wf(),
            v.text() == value@,
            v.position() == clamped(value@, value@.len() as int, VimMode::Normal),
            v.mode_spec() == VimMode::Normal,
            v.anchor() is None,
    {
        let mut this = VimInput { input: TextInput::new(value), mode: VimMode::Normal, visual_anchor: None };
        this.clamp_normal_cursor();
        this
    }

    pub fn value(&self) -> (s: &str)
        ensures
            s@ == self.text(),
    {
        self.input.value()
    }

    pub fn cursor(&self) -> (c: usize)
        ensures
            c as int == self.position(),
    {
        self.input.cursor()
    }

    /// The cursor's column on screen: the display width of the text before
    /// it.
    pub fn visual_cursor(&self) -> (c: usize)
        requires
            self.wf(),
        ensures
            c == visual_cursor_of(self.text(), self.position() as usize),
            self.position() == 0 ==> c == 0,
    {
        input_visual_cursor(self.input.value(), self.input.cursor())
    }

    /// How many columns the text is scrolled by in a field `width` cells
    /// wide so that the cursor shows.
    pub fn visual_scroll(&self, width: usize) -> (s: usize)
        requires
            self.wf(),
        ensures
            s == visual_scroll_of(self.text(), self.position() as usize, width),
    {
        input_visual_scroll(self.input.value(), self.input.cursor(), width)
    }

    pub fn mode(&self) -> (m: VimMode)
        ensures
            m == self.mode_spec(),
    {
        self.mode
    }

    pub fn selection_range(&self) -> (r: Option<(usize, usize)>)
        ensures
            match self.selection() {
                Some((s, e)) => r matches Some((a, b)) && a as int == s && b as int == e,
                None => r is None,
            },
    {
        let anchor = match self.visual_anchor {
            Some(a) => a,
            None => return None,
        };
        if self.value().is_empty() {
            return None;
        }
        let c = self.cursor();
        if anchor < c {
            Some((anchor, c))
        } else {
            Some((c, anchor))
        }
    }

    fn apply(&mut self, req: EditRequest)
        requires
            old(self).wf(),
        ensures
            final(self).wf(),
            (final(self).text(), final(self).position()) == edited(
                old(self).text(),
                old(self).position(),
                req,
            ),
            final(self).mode_spec() == old(self).mode_spec(),
            final(self).anchor() == old(self).anchor(),
    {
        self.input.handle(req);
    }

    fn clamp_normal_cursor(&mut self)
        requires
            old(self).wf(),
        ensures
            final(self).wf(),
            final(self).text() == old(self).text(),
            final(self).position() == clamped(
                old(self).text(),
                old(self).position(),
                old(self).mode_spec(),
            ),
            final(self).mode_spec() == old(self).mode_spec(),
            final(self).anchor() == old(self).anchor(),
    {
        if self.mode == VimMode::Insert {
            return;
        }
        let len = self.value().unicode_len();
        if len > 0 && self.cursor() >= len {
            self.apply(EditRequest::SetCursor(len - 1));
        }
    }

    /// Leaves insert or visual mode; leaving insert mode steps back onto the
    /// character before the cursor, as vim does.
    pub fn enter_normal(&mut self)
        requires
            old(self).wf(),
        ensures
            final(self).wf(),
            final(self).text() == old(self).text(),
            final(self).position() == clamped(
                old(self).text(),
                if old(self).mode_spec() == VimMode::Insert && old(self).position() > 0 {
                    old(self).position() - 1
                } else {
                    old(self).position()
                },
                VimMode::Normal,
            ),
            final(self).mode_spec() == VimMode::Normal,
            final(self).anchor() is None,
    {
        if self.mode == VimMode::Insert && self.cursor() > 0 {
            self.apply(EditRequest::GoToPrevChar);
        }
        self.mode = VimMode::Normal;
        self.visual_anchor = None;
        self.clamp_normal_cursor();
    }

    /// Starts inserting at the cursor.
    pub fn enter_insert_before(&mut self)
        requires
            old(self).wf(),
        ensures
            final(self).wf(),
            final(self).text() == old(self).text(),
            final(self).position() == old(self).position(),
            final(self).mode_spec() == VimMode::Insert,
            final(self).anchor() is None,
    {
        self.mode = VimMode::Insert;
        self.visual_anchor = None;
    }

    /// Starts inserting after the character under the cursor.
    pub fn enter_insert_after(&mut self)
        requires
            old(self).wf(),
        ensures
            final(self).wf(),
            final(self).text() == old(self).text(),
            final(self).position() == if old(self).text().len() > 0 {
                edited(old(self).text(), old(self).position(), EditRequest::GoToNextChar).1
            } else {
                old(self).position()
            },
            final(self).mode_spec() == VimMode::Insert,
            final(self).anchor() is None,
    {
        if !self.value().is_empty() {
            self.apply(EditRequest::GoToNextChar);
        }
        self.enter_insert_before();
    }

    /// Starts inserting at the start.
    pub fn enter_insert_start(&mut self)
        requires
            old(self).wf(),
        ensures
            final(self).wf(),
            final(self).text() == old(self).text(),
            final(self).position() == 0,
            final(self).mode_spec() == VimMode::Insert,
            final(self).anchor() is None,
    {
        self.apply(EditRequest::GoToStart);
        self.enter_insert_before();
    }

    /// Starts inserting at the end.
    pub fn enter_insert_end(&mut self)
        requires
            old(self).wf(),
        ensures
            final(self).wf(),
            final(self).text() == old(self).text(),
            final(self).position() == old(self).text().len(),
            final(self).mode_spec() == VimMode::Insert,
            final(self).anchor() is None,
    {
        self.apply(EditRequest::GoToEnd);
        self.enter_insert_before();
    }

    /// Starts a selection at the cursor, unless the input is empty.
    pub fn enter_visual(&mut self)
        requires
            old(self).wf(),
        ensures
            final(self).wf(),
            final(self).text() == old(self).text(),
            final(self).position() == old(self).position(),
            old(self).text().len() > 0 ==> final(self).mode_spec() == VimMode::Visual
                && final(self).anchor() == Some(old(self).position() as usize),
            old(self).text().len() == 0 ==> final(self).mode_spec() == old(self).mode_spec()
                && final(self).anchor() == old(self).anchor(),
    {
        if !self.value().is_empty() {
            self.visual_anchor = Some(self.cursor());
            self.mode = VimMode::Visual;
        }
    }

    /// Applies an edit typed in insert mode (none when the key asks for
    /// none); returns whether the value changed.
    pub fn handle_insert_request(&mut self, req: Option<EditRequest>) -> (changed: bool)
        requires
            old(self).wf(),
        ensures
            final(self).wf(),
            match req {
                Some(r) => (final(self).text(), final(self).position()) == edited(
                    old(self).text(),
                    old(self).position(),
                    r,
                ),
                None => final(self).text() == old(self).text() && final(self).position() == old(
                    self,
                ).position(),
            },
            final(self).mode_spec() == old(self).mode_spec(),
            final(self).anchor() == old(self).anchor(),
            changed == (final(self).text() != old(self).text()),
    {
        let before = String::from_str(self.value());
        match req {
            Some(r) => self.apply(r),
            None => {},
        }
        let after = String::from_str(self.value());
        !(after == before)
    }

    /// Moves one character left.
    pub fn move_left(&mut self)
        requires
            old(self).wf(),
        ensures
            final(self).wf(),
            final(self).text() == old(self).text(),
            final(self).position() == edited(
                old(self).text(),
                old(self).position(),
                EditRequest::GoToPrevChar,
            ).1,
            final(self).mode_spec() == old(self).mode_spec(),
            final(self).anchor() == old(self).anchor(),
    {
        self.apply(EditRequest::GoToPrevChar);
    }

    /// Moves one character right, staying on a character outside insert mode.
    pub fn move_right(&mut self)
        requires
            old(self).wf(),
        ensures
            final(self).wf(),
            final(self).text() == old(self).text(),
            final(self).position() == clamped(
                old(self).text(),
                edited(old(self).text(), old(self).position(), EditRequest::GoToNextChar).1,
                old(self).mode_spec(),
            ),
            final(self).mode_spec() == old(self).mode_spec(),
            final(self).anchor() == old(self).anchor(),
    {
        self.apply(EditRequest::GoToNextChar);
        self.clamp_normal_cursor();
    }

    /// Moves to the start of the previous word.
    pub fn move_prev_word(&mut self)
        requires
            old(self).wf(),
        ensures
            final(self).wf(),
            final(self).text() == old(self).text(),
            final(self).position() == clamped(
                old(self).text(),
                edited(old(self).text(), old(self).position(), EditRequest::GoToPrevWord).1,
                old(self).mode_spec(),
            ),
            final(self).mode_spec() == old(self).mode_spec(),
            final(self).anchor() == old(self).anchor(),
    {
        self.apply(EditRequest::GoToPrevWord);
        self.clamp_normal_cursor();
    }

    /// Moves to the start of the next word.
    pub fn move_next_word(&mut self)
        requires
            old(self).wf(),
        ensures
            final(self).wf(),
            final(self).text() == old(self).text(),
            final(self).position() == clamped(
                old(self).text(),
                edited(old(self).text(), old(self).position(), EditRequest::GoToNextWord).1,
                old(self).mode_spec(),
            ),
            final(self).mode_spec() == old(self).mode_spec(),
            final(self).anchor() == old(self).anchor(),
    {
        self.apply(EditRequest::GoToNextWord);
        self.clamp_normal_cursor();
    }

    /// Moves to the start.
    pub fn move_start(&mut self)
        requires
            old(self).wf(),
        ensures
            final(self).wf(),
            final(self).text() == old(self).text(),
            final(self).position() == 0,
            final(self).mode_spec() == old(self).mode_spec(),
            final(self).anchor() == old(self).anchor(),
    {
        self.apply(EditRequest::GoToStart);
    }

    /// Moves to the end, staying on a character outside insert mode.
    pub fn move_end(&mut self)
        requires
            old(self).wf(),
        ensures
            final(self).wf(),
            final(self).text() == old(self).text(),
            final(self).position() == clamped(
                old(self).text(),
                old(self).text().len() as int,
                old(self).mode_spec(),
            ),
            final(self).mode_spec() == old(self).mode_spec(),
            final(self).anchor() == old(self).anchor(),
    {
        self.apply(EditRequest::GoToEnd);
        self.clamp_normal_cursor();
    }

    /// Deletes the character under the cursor; returns whether the value
    /// changed.
    pub fn delete_char(&mut self) -> (changed: bool)
        requires
            old(self).wf(),
        ensures
            final(self).wf(),
            old(self).text().len() == 0 ==> final(self).text() == old(self).text()
                && final(self).position() == old(self).position(),
            old(self).text().len() > 0 ==> ({
                let e = edited(old(self).text(), old(self).position(), EditRequest::DeleteNextChar);
                final(self).text() == e.0 && final(self).position() == clamped(
                    e.0,
                    e.1,
                    old(self).mode_spec(),
                )
            }),
            final(self).mode_spec() == old(self).mode_spec(),
            final(self).anchor() == old(self).anchor(),
            changed == (final(self).text() != old(self).text()),
    {
        if self.value().is_empty() {
            return false;
        }
        let before = String::from_str(self.value());
        self.apply(EditRequest::DeleteNextChar);
        self.clamp_normal_cursor();
        let after = String::from_str(self.value());
        !(after == before)
    }

    /// Deletes from the cursor to the end; returns whether the value changed.
    pub fn delete_to_end(&mut self) -> (changed: bool)
        requires
            old(self).wf(),
        ensures
            final(self).wf(),
            old(self).text().len() == 0 ==> final(self).text() == old(self).text()
                && final(self).position() == old(self).position(),
            old(self).text().len() > 0 ==> ({
                let e = edited(old(self).text(), old(self).position(), EditRequest::DeleteTillEnd);
                final(self).text() == e.0 && final(self).position() == clamped(
                    e.0,
                    e.1,
                    old(self).mode_spec(),
                )
            }),
            final(self).mode_spec() == old(self).mode_spec(),
            final(self).anchor() == old(self).anchor(),
            changed == (final(self).text() != old(self).text()),
    {
        if self.value().is_empty() {
            return false;
        }
        let before = String::from_str(self.value());
        self.apply(EditRequest::DeleteTillEnd);
        self.clamp_normal_cursor();
        let after = String::from_str(self.value());
        !(after == before)
    }

    /// Deletes the selection, both ends included, and leaves visual mode for
    /// insert mode or normal mode; returns whether there was a selection.
    pub fn delete_selection(&mut self, enter_insert: bool) -> (deleted: bool)
        requires
            old(self).wf(),
        ensures
            final(self).wf(),
            deleted == old(self).selection() is Some,
            match old(self).selection() {
                None => *final(self) == *old(self),
                Some((s, e)) => {
                    let v = without_range(old(self).text(), s, e);
                    let c = if s < v.len() {
                        s
                    } else {
                        v.len() as int
                    };
                    &&& final(self).text() == v
                    &&& final(self).anchor() is None
                    &&& enter_insert ==> final(self).mode_spec() == VimMode::Insert
                        && final(self).position() == c
                    &&& !enter_insert ==> final(self).mode_spec() == VimMode::Normal
                        && final(self).position() == clamped(v, c, VimMode::Normal)
                },
            },
    {
        let (start, end) = match self.selection_range() {
            Some(r) => r,
            None => return false,
        };
        let chars = chars_of(self.value());
        let ghost v = chars@;
        let mut kept: Vec<char> = Vec::new();
        let mut i: usize = 0;
        let lo = if start < chars.len() {
            start
        } else {
            chars.len()
        };
        let hi = if end < chars.len() {
            end + 1
        } else {
            chars.len()
        };
        while i < lo
            invariant
                lo <= chars.len(),
                i <= lo,
                kept@ == v.take(i as int),
                chars@ == v,
            decreases lo - i,
        {
            kept.push(chars[i]);
            assert(v.take(i + 1) =~= v.take(i as int).push(v[i as int]));
            i = i + 1;
        }
        let mut j = hi;
        let ghost head = kept@;
        while j < chars.len()
            invariant
                hi <= j <= chars.len(),
                kept@ == head + v.subrange(hi as int, j as int),
                chars@ == v,
            decreases chars.len() - j,
        {
            kept.push(chars[j]);
            assert(v.subrange(hi as int, j + 1) =~= v.subrange(hi as int, j as int).push(
                v[j as int],
            ));
            j = j + 1;
        }
        assert(kept@ =~= without_range(v, start as int, end as int));
        let value = string_of(&kept);
        self.input = TextInput::with_cursor(value, start);
        self.visual_anchor = None;
        if enter_insert {
            self.mode = VimMode::Insert;
        } else {
            self.mode = VimMode::Normal;
            self.clamp_normal_cursor();
        }
        true
    }
}

/// Outside insert mode, the moves that end by settling the cursor leave it
/// on a character of a non-empty value.
pub proof fn law_normal_cursor_on_character(v: Seq<char>, c: int, mode: VimMode)
    requires
        mode != VimMode::Insert,
        0 <= c <= v.len(),
        v.len() > 0,
    ensures
        0 <= clamped(v, c, mode) < v.len(),
{
}

} // verus!
