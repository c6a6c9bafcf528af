//! The checklist: a list of todos whose statuses the user flips before
//! confirming the whole list.

use vstd::prelude::*;
use vstd::string::StringExecFns;
use crate::style::{frame_view, line_view, paint, span, styled, Span, SpanView, Tone};
use crate::todo::todo::{icon_of, Todo, TodoState, TodoView};
use crate::widgets::{
    cursor_down, cursor_up, icon_question, line1, line2, move_down, move_up, option_view, Key,
    Label, LabelView,
};

verus! {

/// What a checklist holds.
#[derive(Debug)]
pub struct CheckListData {
    pub is_selected: bool,
    pub offset: usize,
    pub current_option: Option<String>,
    pub length: usize,
    pub todos: Vec<Todo>,
}

/// `CheckListData` as plain values.
pub struct CheckListDataView {
    pub is_selected: bool,
    pub offset: nat,
    pub current_option: Option<Seq<char>>,
    pub length: nat,
    pub todos: Seq<TodoView>,
}

/// The todos as plain values.
pub open spec fn todo_views(todos: Seq<Todo>) -> Seq<TodoView> {
    todos.map_values(|t: Todo| t@)
}

impl View for CheckListData {
    type V = CheckListDataView;

    open spec fn view(&self) -> CheckListDataView {
        CheckListDataView {
            is_selected: self.is_selected,
            offset: self.offset as nat,
            current_option: option_view(self.current_option),
            length: self.length as nat,
            todos: todo_views(self.todos@),
        }
    }
}

/// A list of todos with a cursor. Left and Right flip the status of the todo
/// under the cursor; Enter confirms the list.
#[derive(Debug)]
pub struct CheckList {
    pub label: Label,
    pub local_state: CheckListData,
}

/// `CheckList` as plain values.
pub struct CheckListView {
    pub label: LabelView,
    pub local_state: CheckListDataView,
}

impl View for CheckList {
    type V = CheckListView;

    open spec fn view(&self) -> CheckListView {
        CheckListView { label: self.label@, local_state: self.local_state@ }
    }
}

/// The status that Left and Right change a status into.
pub open spec fn flipped(status: TodoState) -> TodoState {
    match status {
        TodoState::Completed => TodoState::NoStarted,
        TodoState::NoStarted => TodoState::Completed,
    }
}

/// The todo with the other status, and the icon of that status.
pub open spec fn toggled(t: TodoView) -> TodoView {
    TodoView { description: t.description, status: flipped(t.status), icon: icon_of(flipped(t.status)) }
}

/// The description of the todo under the cursor, if the cursor is on one.
pub open spec fn description_at(todos: Seq<TodoView>, offset: int) -> Option<Seq<char>> {
    if 0 <= offset < todos.len() {
        Some(todos[offset].description)
    } else {
        None
    }
}

/// The tone in which a todo is drawn: green once completed.
pub open spec fn tone_of(status: TodoState) -> Tone {
    match status {
        TodoState::Completed => Tone::Green,
        TodoState::NoStarted => Tone::Plain,
    }
}

/// The line of one todo: a mark under the cursor, the icon, the description.
pub open spec fn todo_line(t: TodoView, at_cursor: bool) -> Seq<SpanView> {
    let mark = if at_cursor {
        "> "@
    } else {
        "  "@
    };
    seq![span(tone_of(t.status), mark + t.icon + seq![' '] + t.description)]
}

impl CheckListDataView {
    /// The cursor one todo up, and the description under it.
    pub open spec fn prev(self) -> CheckListDataView {
        let offset = cursor_up(self.offset as int, self.todos.len() as int);
        CheckListDataView {
            offset: offset as nat,
            current_option: description_at(self.todos, offset),
            ..self
        }
    }

    /// The cursor one todo down, and the description under it.
    pub open spec fn next(self) -> CheckListDataView {
        let offset = cursor_down(self.offset as int, self.todos.len() as int);
        CheckListDataView {
            offset: offset as nat,
            current_option: description_at(self.todos, offset),
            ..self
        }
    }

    /// The status of the todo under the cursor flipped.
    pub open spec fn toggle(self) -> CheckListDataView {
        if self.offset < self.todos.len() {
            CheckListDataView {
                todos: self.todos.update(self.offset as int, toggled(self.todos[self.offset as int])),
                ..self
            }
        } else {
            self
        }
    }

    /// Up and Down move the cursor and wrap around, Left and Right flip the
    /// status under the cursor, Enter confirms. A confirmed list takes no key.
    pub open spec fn after_key(self, key: Key) -> CheckListDataView {
        if self.is_selected {
            self
        } else {
            match key {
                Key::Down => self.next(),
                Key::Up => self.prev(),
                Key::Left => self.toggle(),
                Key::Right => self.toggle(),
                Key::Enter => CheckListDataView { is_selected: true, ..self },
                _ => self,
            }
        }
    }

    /// The state in which the list starts: the cursor on the first todo,
    /// not confirmed.
    pub open spec fn reset(self) -> CheckListDataView {
        CheckListDataView {
            is_selected: false,
            offset: 0,
            current_option: None,
            length: self.todos.len(),
            todos: self.todos,
        }
    }
}

impl CheckListView {
    /// The list waits for a key until it is confirmed.
    pub open spec fn needs_key(self) -> bool {
        !self.local_state.is_selected
    }

    /// The checklist after a key.
    pub open spec fn after_key(self, key: Key) -> CheckListView {
        CheckListView { local_state: self.local_state.after_key(key), ..self }
    }

    /// The widget in the local state in which it starts.
    pub open spec fn reset(self) -> CheckListView {
        CheckListView { local_state: self.local_state.reset(), ..self }
    }

    /// The label, then one line per todo. The cursor is marked until the
    /// list is confirmed.
    pub open spec fn frame(self) -> Seq<Seq<SpanView>> {
        let s = self.local_state;
        seq![seq![span(Tone::Cyan, self.label.icon), span(Tone::Plain, self.label.text)]]
            + Seq::new(
            s.todos.len(),
            |i: int| todo_line(s.todos[i], !s.is_selected && i == s.offset),
        )
    }
}

/// `text` as a todo of that status is shown: green once completed, else as it is.
pub fn color_todo(todo_status: &TodoState, text: &str) -> (out: String)
    ensures
        *todo_status == TodoState::NoStarted ==> out@ == text@,
{
    match todo_status {
        TodoState::Completed => paint(&styled(Tone::Green, text)),
        TodoState::NoStarted => paint(&styled(Tone::Plain, text)),
    }
}

impl CheckList {
    /// A checklist of `todos` with the cursor on the first.
    pub fn new(todos: Vec<Todo>) -> (w: CheckList)
        ensures
            w@.label == (LabelView { icon: "? "@, text: "Change the todos: "@ }),
            w@.local_state == (CheckListDataView {
                is_selected: false,
                offset: 0,
                current_option: None,
                length: todos.len() as nat,
                todos: todo_views(todos@),
            }),
            w@.reset() == w@,
    {
        let length = todos.len();
        CheckList {
            label: Label::new(icon_question(), "Change the todos: "),
            local_state: CheckListData {
                todos,
                is_selected: false,
                offset: 0,
                current_option: None,
                length,
            },
        }
    }

    fn describe(&self, offset: usize) -> (d: Option<String>)
        ensures
            option_view(d) == description_at(self@.local_state.todos, offset as int),
    {
        if offset < self.local_state.todos.len() {
            proof {
                assert(todo_views(self.local_state.todos@)[offset as int]
                    == self.local_state.todos@[offset as int]@);
            }
            Some(self.local_state.todos[offset].description.clone())
        } else {
            None
        }
    }

    /// Moves the cursor one todo up; from the first it goes to the last.
    pub fn prev(&mut self)
        ensures
            final(self)@ == (CheckListView { local_state: old(self)@.local_state.prev(), ..old(self)@ }),
    {
        let new_offset = move_up(self.local_state.offset, self.local_state.todos.len());
        self.local_state.current_option = self.describe(new_offset);
        self.local_state.offset = new_offset;
    }

    /// Moves the cursor one todo down; from the last it goes to the first.
    pub fn next(&mut self)
        ensures
            final(self)@ == (CheckListView { local_state: old(self)@.local_state.next(), ..old(self)@ }),
    {
        let new_offset = move_down(self.local_state.offset, self.local_state.todos.len());
        self.local_state.current_option = self.describe(new_offset);
        self.local_state.offset = new_offset;
    }

    /// The todo under the cursor, to be changed in place.
    pub fn get_todo_mut(&mut self) -> (r: Option<&mut Todo>)
        ensures
            old(self).local_state.offset >= old(self).local_state.todos.len() ==> r.is_none()
                && *final(self) == *old(self),
            old(self).local_state.offset < old(self).local_state.todos.len() ==> r.is_some()
                && *r.unwrap() == old(self).local_state.todos[old(self).local_state.offset as int]
                && final(self).local_state.todos@ == old(self).local_state.todos@.update(
                old(self).local_state.offset as int,
                *final(r.unwrap()),
            ) && final(self).label == old(self).label && final(self).local_state.offset
                == old(self).local_state.offset && final(self).local_state.is_selected
                == old(self).local_state.is_selected && final(self).local_state.length
                == old(self).local_state.length && final(self).local_state.current_option
                == old(self).local_state.current_option,
    {
        let offset = self.local_state.offset;
        if offset < self.local_state.todos.len() {
            Some(&mut self.local_state.todos[offset])
        } else {
            None
        }
    }

    /// Flips the status of the todo under the cursor.
    pub fn toggle(&mut self)
        ensures
            final(self)@ == (CheckListView {
                local_state: old(self)@.local_state.toggle(),
                ..old(self)@
            }),
    {
        let ghost before = todo_views(self.local_state.todos@);
        let ghost offset = self.local_state.offset as int;
        match self.get_todo_mut() {
            Some(todo) => {
                let new_state = todo.status.toggled();
                todo.change_icon(new_state);
            },
            None => {},
        }
        proof {
            if offset < before.len() {
                assert(before[offset] == old(self).local_state.todos@[offset]@);
                assert(todo_views(self.local_state.todos@) =~= before.update(
                    offset,
                    toggled(before[offset]),
                ));
            }
        }
    }

    /// Whether the widget waits for a key.
    pub fn needs_key(&self) -> (b: bool)
        ensures
            b == self@.needs_key(),
    {
        !self.local_state.is_selected
    }

    /// Hands one key to the widget.
    pub fn handle_key(&mut self, key: Key)
        ensures
            final(self)@ == old(self)@.after_key(key),
    {
        if self.local_state.is_selected {
            return ;
        }
        match key {
            Key::Down => self.next(),
            Key::Up => self.prev(),
            Key::Left => self.toggle(),
            Key::Right => self.toggle(),
            Key::Enter => {
                self.local_state.is_selected = true;
            },
            _ => {},
        }
    }

    /// Puts the widget back into the local state in which it starts.
    pub fn reset(&mut self)
        ensures
            final(self)@ == old(self)@.reset(),
    {
        self.local_state.is_selected = false;
        self.local_state.offset = 0;
        self.local_state.current_option = None;
        self.local_state.length = self.local_state.todos.len();
    }

    /// The lines that the widget draws.
    pub fn frame(&self) -> (out: Vec<Vec<Span>>)
        ensures
            frame_view(out@) == self@.frame(),
    {
        let mut out: Vec<Vec<Span>> = Vec::new();
        let n = self.local_state.todos.len();
        let offset = self.local_state.offset;
        let marked = !self.local_state.is_selected;
        let head = line2(
            styled(Tone::Cyan, self.label.icon.as_str()),
            styled(Tone::Plain, self.label.text.as_str()),
        );
        out.push(head);
        let mut i: usize = 0;
        while i < n
            invariant
                i <= n,
                n == self.local_state.todos.len(),
                out.len() == i + 1,
                out[0] == head,
                forall|k: int|
                    0 <= k < i ==> line_view((#[trigger] out[k + 1])@) == todo_line(
                        self.local_state.todos[k]@,
                        marked && k == offset,
                    ),
            decreases n - i,
        {
            let todo = &self.local_state.todos[i];
            let mut text = if marked && i == offset {
                "> ".to_owned()
            } else {
                "  ".to_owned()
            };
            text.append(todo.icon.as_str());
            text.push(' ');
            text.append(todo.description.as_str());
            let tone = match todo.status {
                TodoState::Completed => Tone::Green,
                TodoState::NoStarted => Tone::Plain,
            };
            let line = line1(styled(tone, text.as_str()));
            proof {
                let mark = if marked && i == offset {
                    "> "@
                } else {
                    "  "@
                };
                assert(text@ =~= mark + todo@.icon + seq![' '] + todo@.description);
                assert(line_view(line@) =~= todo_line(todo@, marked && i == offset));
            }
            out.push(line);
            i += 1;
        }
        proof {
            let want = self@.frame();
            assert(frame_view(out@).len() == want.len());
            assert forall|k: int| 0 <= k < want.len() implies frame_view(out@)[k] == want[k] by {
                if k > 0 {
                    assert(line_view(out[(k - 1) + 1]@) == todo_line(
                        self.local_state.todos[k - 1]@,
                        marked && k - 1 == offset,
                    ));
                    assert(todo_views(self.local_state.todos@)[k - 1]
                        == self.local_state.todos[k - 1]@);
                }
            }
            assert(frame_view(out@) =~= want);
        }
        out
    }
}

} // verus!
