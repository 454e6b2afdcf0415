use tui_input::InputRequest;
use vstd::prelude::*;

verus! {

/// An edit of a one-line text input, as the terminal's keys ask for it.
#[derive(PartialEq, Eq, Structural, Clone, Copy, Debug)]
pub enum EditRequest {
    SetCursor(usize),
    InsertChar(char),
    GoToPrevChar,
    GoToNextChar,
    GoToPrevWord,
    GoToNextWord,
    GoToStart,
    GoToEnd,
    DeletePrevChar,
    DeleteNextChar,
    DeletePrevWord,
    DeleteNextWord,
    DeleteLine,
    DeleteTillEnd,
}

/// What `char::is_alphanumeric` answers: whether `c` has the Unicode
/// `Alphabetic` or `Numeric` property.
pub uninterp spec fn unicode_alphanumeric(c: char) -> bool;

/// From `i`, the first position to the right whose character's
/// alphanumericness differs from `alnum`, or the end.
pub open spec fn run_end_right(v: Seq<char>, i: int, alnum: bool) -> int
    decreases v.len() - i,
{
    if i < 0 || i >= v.len() {
        i
    } else if unicode_alphanumeric(v[i]) == alnum {
        run_end_right(v, i + 1, alnum)
    } else {
        i
    }
}

/// From `i`, moving left, the first position whose preceding character's
/// alphanumericness differs from `alnum`, or the start.
pub open spec fn run_start_left(v: Seq<char>, i: int, alnum: bool) -> int
    decreases i,
{
    if i <= 0 || i > v.len() {
        i
    } else if unicode_alphanumeric(v[i - 1]) == alnum {
        run_start_left(v, i - 1, alnum)
    } else {
        i
    }
}

/// The start of the word before position `c`: skip non-alphanumerics to the
/// left, then the alphanumerics before them.
pub open spec fn prev_word_start(v: Seq<char>, c: int) -> int {
    run_start_left(v, run_start_left(v, c, false), true)
}

/// The start of the next word after position `c`: skip the alphanumerics at
/// `c`, then the non-alphanumerics after them.
pub open spec fn next_word_start(v: Seq<char>, c: int) -> int {
    run_end_right(v, run_end_right(v, c, true), false)
}

/// The value and cursor after an edit, as `tui_input::Input::handle` makes
/// them.
pub open spec fn edited(v: Seq<char>, c: int, req: EditRequest) -> (Seq<char>, int) {
    match req {
        EditRequest::SetCursor(p) => (v, if p < v.len() {
            p as int
        } else {
            v.len() as int
        }),
        EditRequest::InsertChar(ch) => (v.take(c) + seq![ch] + v.skip(c), c + 1),
        EditRequest::GoToPrevChar => (v, if c == 0 {
            0
        } else {
            c - 1
        }),
        EditRequest::GoToNextChar => (v, if c == v.len() {
            c
        } else {
            c + 1
        }),
        EditRequest::GoToPrevWord => (v, if c == 0 {
            0
        } else {
            prev_word_start(v, c)
        }),
        EditRequest::GoToNextWord => (v, if c == v.len() {
            c
        } else {
            next_word_start(v, c)
        }),
        EditRequest::GoToStart => (v, 0),
        EditRequest::GoToEnd => (v, v.len() as int),
        EditRequest::DeletePrevChar => if c == 0 {
            (v, c)
        } else {
            (v.remove(c - 1), c - 1)
        },
        EditRequest::DeleteNextChar => if c == v.len() {
            (v, c)
        } else {
            (v.remove(c), c)
        },
        EditRequest::DeletePrevWord => if c == 0 {
            (v, c)
        } else {
            (v.take(prev_word_start(v, c)) + v.skip(c), prev_word_start(v, c))
        },
        EditRequest::DeleteNextWord => if c == v.len() {
            (v, c)
        } else {
            (v.take(c) + v.skip(next_word_start(v, c)), c)
        },
        EditRequest::DeleteLine => if v.len() == 0 {
            (v, c)
        } else {
            (Seq::<char>::empty(), 0)
        },
        EditRequest::DeleteTillEnd => (v.take(c), c),
    }
}

/// `tui_input::InputRequest`, the edit requests of `tui_input`.
#[verifier::external_type_specification]
#[verifier::external_body]
pub struct ExInputRequest(InputRequest);

/// The request `tui_input` takes for an edit.
#[verifier::external_body]
fn input_request(req: EditRequest) -> InputRequest {
    match req {
        EditRequest::SetCursor(p) => InputRequest::SetCursor(p),
        EditRequest::InsertChar(c) => InputRequest::InsertChar(c),
        EditRequest::GoToPrevChar => InputRequest::GoToPrevChar,
        EditRequest::GoToNextChar => InputRequest::GoToNextChar,
        EditRequest::GoToPrevWord => InputRequest::GoToPrevWord,
        EditRequest::GoToNextWord => InputRequest::GoToNextWord,
        EditRequest::GoToStart => InputRequest::GoToStart, EditRequest::GoToEnd => InputRequest::GoToEnd,
        EditRequest::DeletePrevChar => InputRequest::DeletePrevChar,
        EditRequest::DeleteNextChar => InputRequest::DeleteNextChar,
        EditRequest::DeletePrevWord => InputRequest::DeletePrevWord,
        EditRequest::DeleteNextWord => InputRequest::DeleteNextWord,
        EditRequest::DeleteLine => InputRequest::DeleteLine,
        EditRequest::DeleteTillEnd => InputRequest::DeleteTillEnd,
    }
}

/// `tui_input::Input::handle` on the input holding `value` with the cursor at
/// `cursor`: the value and cursor it leaves, as its source computes them;
/// the word edits go by `char::is_alphanumeric`.
#[verifier::external_body]
fn input_handle(value: &str, cursor: usize, req: EditRequest) -> (r: (String, usize))
    requires
        cursor <= value@.len(),
    ensures
        r.0@ == edited(value@, cursor as int, req).0,
        r.1 as int == edited(value@, cursor as int, req).1,
        r.1 <= r.0@.len(),
        req == EditRequest::GoToNextWord && cursor < value@.len() ==> r.1 == value@.len()
            || unicode_alphanumeric(value@[r.1 as int]),
{
    let mut input = tui_input::Input::new(value.to_string()).with_cursor(cursor);
    input.handle(input_request(req));
    (input.value().to_string(), input.cursor())
}

/// A one-line text input: its value and a cursor, counted in characters.
pub struct TextInput {
    value: String,
    cursor: usize,
}

impl TextInput {
    pub closed spec fn text(&self) -> Seq<char> {
        self.value@
    }

    pub closed spec fn position(&self) -> int {
        self.cursor as int
    }

    /// The cursor stands within the value or just after it.
    pub closed spec fn wf(&self) -> bool {
        self.cursor <= self.value@.len()
    }

    /// An empty input.
    pub fn empty() -> (i: TextInput)
        ensures
            i.wf(),
            i.text() == Seq::<char>::empty(),
            i.position() == 0,
    {
        TextInput { value: String::new(), cursor: 0 }
    }

    /// An input holding `value`, with the cursor after its last character.
    pub fn new(value: String) -> (i: TextInput)
        ensures
            i.wf(),
            i.text() == value@,
            i.position() == value@.len(),
    {
        let n = value.as_str().unicode_len();
        TextInput { value, cursor: n }
    }

    /// An input holding `value`, with the cursor at `cursor` or, past the
    /// end, after the last character.
    pub fn with_cursor(value: String, cursor: usize) -> (i: TextInput)
        ensures
            i.wf(),
            i.text() == value@,
            i.position() == if cursor < value@.len() {
                cursor as int
            } else {
                value@.len() as int
            },
    {
        let n = value.as_str().unicode_len();
        let c = if cursor < n {
            cursor
        } else {
            n
        };
        TextInput { value, cursor: c }
    }

    pub fn value(&self) -> (v: &str)
        ensures
            v@ == self.text(),
    {
        self.value.as_str()
    }

    pub fn cursor(&self) -> (c: usize)
        ensures
            c as int == self.position(),
    {
        self.cursor
    }

    /// Applies an edit.
    pub fn handle(&mut self, req: EditRequest)
        requires
            old(self).wf(),
        ensures
            final(self).wf(),
            (final(self).text(), final(self).position()) == edited(
                old(self).text(),
                old(self).position(),
                req,
            ),
    {
        let (v, c) = input_handle(self.value.as_str(), self.cursor, req);
        self.value = v;
        self.cursor = c;
    }
}

} // verus!
