//! A todo and the line that stands for it in the todo store.
//!
//! One record is `description:code`, with code `1` for a completed todo and
//! `0` for one that is not started.

use vstd::prelude::*;
use crate::text::{chars_of, find_char, has_char, index_of, is_space, string_of, trim, trim_bounds};
use crate::text::{lemma_index_of_concat, lemma_trim_is_trimmed};

verus! {

/// Whether a todo is done.
#[derive(Debug, Clone, Copy, PartialEq, Eq, Structural)]
pub enum TodoState {
    Completed,
    NoStarted,
}

/// Why a line is no todo record.
#[derive(Debug, Clone, Copy, PartialEq, Eq, Structural)]
pub enum TodoError {
    /// The status code is no number that fits in eight bits.
    ParseError,
    /// The line has no separator, so the status is missing.
    MissingData,
}

/// One thing to do, with its status and the icon that shows the status.
#[derive(Debug)]
pub struct Todo {
    pub description: String,
    pub status: TodoState,
    pub icon: String,
}

/// A todo as plain values.
pub struct TodoView {
    pub description: Seq<char>,
    pub status: TodoState,
    pub icon: Seq<char>,
}

impl View for Todo {
    type V = TodoView;

    open spec fn view(&self) -> TodoView {
        TodoView { description: self.description@, status: self.status, icon: self.icon@ }
    }
}

/// The character between the description and the status code.
pub open spec fn separator() -> char {
    ':'
}

/// The status that a code stands for: `1` is completed, every other number is not started.
pub open spec fn state_of_code(n: i8) -> TodoState {
    if n == 1 {
        TodoState::Completed
    } else {
        TodoState::NoStarted
    }
}

/// The box drawn in front of a todo.
pub open spec fn icon_of(status: TodoState) -> Seq<char> {
    match status {
        TodoState::Completed => "[x]"@,
        TodoState::NoStarted => "[ ]"@,
    }
}

/// The digit that stands for a status in the store.
pub open spec fn code_char(status: TodoState) -> char {
    match status {
        TodoState::Completed => '1',
        TodoState::NoStarted => '0',
    }
}

/// Whether `c` is a decimal digit.
pub open spec fn is_digit(c: char) -> bool {
    '0' <= c <= '9'
}

/// Whether `s` holds decimal digits only.
pub open spec fn all_digits(s: Seq<char>) -> bool {
    forall|i: int| 0 <= i < s.len() ==> is_digit(#[trigger] s[i])
}

/// The number that a run of decimal digits denotes.
pub open spec fn digits_value(s: Seq<char>) -> int
    decreases s.len(),
{
    if s.len() == 0 {
        0
    } else {
        digits_value(s.drop_last()) * 10 + (s.last() as int - '0' as int)
    }
}

/// The number that `s` denotes in base ten: an optional sign, then one or
/// more digits, and a value from -128 to 127. Anything else is no number.
pub open spec fn parse_i8(s: Seq<char>) -> Option<i8> {
    let signed = s.len() > 0 && (s[0] == '-' || s[0] == '+');
    let body = if signed {
        s.drop_first()
    } else {
        s
    };
    let value = if signed && s[0] == '-' {
        -digits_value(body)
    } else {
        digits_value(body)
    };
    if body.len() == 0 || !all_digits(body) || value < -128 || value > 127 {
        None
    } else {
        Some(value as i8)
    }
}

/// What a line of the store means. The line is trimmed first. The text before
/// the first separator is the description; the text between the first
/// separator and the second, or the end, is the status code.
pub open spec fn parse_todo(line: Seq<char>) -> Result<TodoView, TodoError> {
    let t = trim(line);
    let i = index_of(t, separator());
    if i >= t.len() {
        Err(TodoError::MissingData)
    } else {
        let rest = t.skip(i + 1);
        let code = rest.take(index_of(rest, separator()));
        match parse_i8(code) {
            None => Err(TodoError::ParseError),
            Some(n) => Ok(
                TodoView {
                    description: t.take(i),
                    status: state_of_code(n),
                    icon: icon_of(state_of_code(n)),
                },
            ),
        }
    }
}

/// The line that stands for a todo in the store.
pub open spec fn line_of(t: TodoView) -> Seq<char> {
    t.description + seq![separator()] + seq![code_char(t.status)]
}

/// Whether the icon is the one that belongs to the status.
pub open spec fn consistent(t: TodoView) -> bool {
    t.icon == icon_of(t.status)
}

/// The result of parsing, as plain values.
pub open spec fn parsed_view(r: Result<Todo, TodoError>) -> Result<TodoView, TodoError> {
    match r {
        Ok(t) => Ok(t@),
        Err(e) => Err(e),
    }
}

impl vstd::std_specs::convert::FromSpecImpl<i8> for TodoState {
    open spec fn obeys_from_spec() -> bool {
        true
    }

    open spec fn from_spec(n: i8) -> TodoState {
        state_of_code(n)
    }
}

impl From<i8> for TodoState {
    fn from(n: i8) -> (s: TodoState) {
        match n {
            1 => TodoState::Completed,
            _ => TodoState::NoStarted,
        }
    }
}

impl TodoState {
    /// The status code written to the store.
    pub fn to_i8(&self) -> (n: i8)
        ensures
            n == (if *self == TodoState::Completed { 1i8 } else { 0i8 }),
            state_of_code(n) == *self,
    {
        match self {
            TodoState::Completed => 1,
            TodoState::NoStarted => 0,
        }
    }

    /// The status in words.
    pub fn to_string(&self) -> (s: String)
        ensures
            s@ == (match *self {
                TodoState::Completed => "Completed"@,
                TodoState::NoStarted => "Not started"@,
            }),
    {
        match self {
            TodoState::Completed => "Completed".to_owned(),
            TodoState::NoStarted => "Not started".to_owned(),
        }
    }

    /// The box drawn in front of a todo with this status.
    pub fn icon(&self) -> (s: String)
        ensures
            s@ == icon_of(*self),
    {
        match self {
            TodoState::Completed => "[x]".to_owned(),
            TodoState::NoStarted => "[ ]".to_owned(),
        }
    }

    /// The other status.
    pub fn toggled(&self) -> (s: TodoState)
        ensures
            s != *self,
    {
        match self {
            TodoState::Completed => TodoState::NoStarted,
            TodoState::NoStarted => TodoState::Completed,
        }
    }
}

impl TodoError {
    /// The message shown for the error.
    pub fn to_string(&self) -> (s: String)
        ensures
            s@ == (match *self {
                TodoError::ParseError => "Cannot convert Todo"@,
                TodoError::MissingData => "Missing data of Todo"@,
            }),
    {
        match self {
            TodoError::ParseError => "Cannot convert Todo".to_owned(),
            TodoError::MissingData => "Missing data of Todo".to_owned(),
        }
    }
}

impl Clone for Todo {
    fn clone(&self) -> (t: Todo)
        ensures
            t == *self,
    {
        Todo {
            description: self.description.clone(),
            status: self.status,
            icon: self.icon.clone(),
        }
    }
}

proof fn lemma_digits_grow(s: Seq<char>)
    requires
        s.len() > 0,
        all_digits(s),
    ensures
        digits_value(s) >= digits_value(s.drop_last()) >= 0,
    decreases s.len(),
{
    let t = s.drop_last();
    assert(is_digit(s[s.len() - 1]));
    if t.len() > 0 {
        assert forall|i: int| 0 <= i < t.len() implies is_digit(#[trigger] t[i]) by {
            assert(t[i] == s[i]);
        }
        lemma_digits_grow(t);
    }
}

/// The number that `v[from..to]` denotes, if it denotes one.
#[verifier::loop_isolation(false)]
fn parse_code(v: &Vec<char>, from: usize, to: usize) -> (r: Option<i8>)
    requires
        from <= to <= v.len(),
    ensures
        r == parse_i8(v@.subrange(from as int, to as int)),
{
    let ghost s = v@.subrange(from as int, to as int);
    let mut i: usize = from;
    let mut negative = false;
    if i < to && (v[i] == '-' || v[i] == '+') {
        negative = v[i] == '-';
        i += 1;
    }
    let start = i;
    let ghost body = v@.subrange(start as int, to as int);
    proof {
        assert(s.len() > 0 ==> s[0] == v@[from as int]);
        if start > from {
            assert(s.drop_first() =~= body);
        } else {
            assert(s =~= body);
        }
    }
    if i >= to {
        return None;
    }
    let mut acc: i32 = 0;
    let mut large = false;
    while i < to
        invariant
            start <= i <= to <= v.len(),
            body == v@.subrange(start as int, to as int),
            all_digits(v@.subrange(start as int, i as int)),
            !large ==> acc == digits_value(v@.subrange(start as int, i as int)) && 0 <= acc
                <= 128,
            large ==> digits_value(v@.subrange(start as int, i as int)) > 128,
        decreases to - i,
    {
        let c = v[i];
        let ghost prev = v@.subrange(start as int, i as int);
        let ghost next = v@.subrange(start as int, i + 1);
        proof {
            assert(next.drop_last() =~= prev);
            assert(next.last() == c);
        }
        if !('0' <= c && c <= '9') {
            proof {
                assert(body[i - start] == c);
            }
            return None;
        }
        proof {
            assert forall|k: int| 0 <= k < next.len() implies is_digit(#[trigger] next[k]) by {
                if k < prev.len() {
                    assert(next[k] == prev[k]);
                }
            }
            lemma_digits_grow(next);
        }
        if !large {
            let d: i32 = (c as u32 - '0' as u32) as i32;
            acc = acc * 10 + d;
            if acc > 128 {
                large = true;
            }
        }
        i += 1;
    }
    proof {
        assert(v@.subrange(start as int, i as int) =~= body);
    }
    if large {
        None
    } else if negative {
        Some((0 - acc) as i8)
    } else if acc <= 127 {
        Some(acc as i8)
    } else {
        None
    }
}

impl Todo {
    /// A todo that is not started.
    pub fn new(desc: &str) -> (t: Todo)
        ensures
            t@ == (TodoView {
                description: desc@,
                status: TodoState::NoStarted,
                icon: icon_of(TodoState::NoStarted),
            }),
    {
        Todo {
            description: desc.to_owned(),
            status: TodoState::NoStarted,
            icon: TodoState::NoStarted.icon(),
        }
    }

    /// Sets the status, and the icon that belongs to it.
    pub fn change_icon(&mut self, new_state: TodoState)
        ensures
            final(self)@ == (TodoView {
                description: old(self)@.description,
                status: new_state,
                icon: icon_of(new_state),
            }),
    {
        self.icon = new_state.icon();
        self.status = new_state;
    }

    /// Reads one line of the store.
    pub fn try_from(value: &str) -> (r: Result<Todo, TodoError>)
        ensures
            parsed_view(r) == parse_todo(value@),
    {
        let v = chars_of(value);
        let (a, b) = trim_bounds(&v, 0, v.len());
        let ghost t = v@.subrange(a as int, b as int);
        proof {
            assert(v@.subrange(0, v.len() as int) =~= v@);
        }
        let i = find_char(&v, a, b, ':');
        if i >= b {
            return Err(TodoError::MissingData);
        }
        let j = find_char(&v, i + 1, b, ':');
        proof {
            assert(t.skip(i - a + 1) =~= v@.subrange(i + 1, b as int));
            assert(v@.subrange(i + 1, b as int).take(j - (i + 1)) =~= v@.subrange(
                i + 1,
                j as int,
            ));
            assert(t.take(i - a) =~= v@.subrange(a as int, i as int));
        }
        match parse_code(&v, i + 1, j) {
            None => Err(TodoError::ParseError),
            Some(n) => {
                let status = TodoState::from(n);
                Ok(Todo { description: string_of(&v, a, i), status, icon: status.icon() })
            },
        }
    }

    /// The line that stands for this todo in the store.
    pub fn to_line(&self) -> (line: String)
        ensures
            line@ == line_of(self@),
    {
        let mut line = self.description.clone();
        line.push(':');
        match self.status {
            TodoState::Completed => line.push('1'),
            TodoState::NoStarted => line.push('0'),
        }
        proof {
            assert(line@ =~= line_of(self@));
        }
        line
    }
}

/// Reading back the line of a todo gives that todo, where its description
/// holds no separator and does not start with white space, and its icon is
/// the one of its status.
pub proof fn lemma_parse_line_round_trip(t: TodoView)
    requires
        !has_char(t.description, separator()),
        t.description.len() > 0 ==> !is_space(t.description[0]),
        consistent(t),
    ensures
        parse_todo(line_of(t)) == Ok::<TodoView, TodoError>(t),
{
    let d = t.description;
    let c = code_char(t.status);
    let line = line_of(t);
    assert(line.len() == d.len() + 2);
    assert(line[0] == (if d.len() > 0 { d[0] } else { separator() }));
    assert(line.last() == c);
    lemma_trim_is_trimmed(line);
    assert(trim(line) == line);
    assert(line =~= d + seq![separator()] + seq![c]);
    lemma_index_of_concat(d, separator(), seq![c]);
    let rest = line.skip(d.len() as int + 1);
    assert(rest =~= seq![c]);
    assert(rest.drop_first() =~= Seq::<char>::empty());
    assert(index_of(rest.drop_first(), separator()) == 0);
    assert(index_of(rest, separator()) == 1);
    let code = rest.take(1);
    assert(code =~= seq![c]);
    assert(code.drop_last() =~= Seq::<char>::empty());
    assert(digits_value(code.drop_last()) == 0);
    assert(digits_value(code) == c as int - '0' as int);
    assert(all_digits(code));
    assert(line.take(d.len() as int) =~= d);
}

} // verus!
