//! The todo store and the todo wizards: listing the todos as a table,
//! creating a todo, and checking todos off. Reading and writing the store
//! is the caller's work: a step asks for it as an effect and decides on its
//! outcome.

pub mod todo;
pub mod todo_utils;

use vstd::prelude::*;
use vstd::string::StringExecFns;
use crate::custom_widgets::{todo_views, CheckList, CheckListDataView, CheckListView};
use crate::style::{line_view, paint_line, span, styled, Span, SpanView, Tone};
use crate::text::{
    contains_char, has_char, is_record, is_space, join_lines, join_records,
    lemma_records_of_join, newline, records, split_records, trim, trimmed, views,
};
use crate::widgets::{option_view, LabelView};
use crate::wizard::{
    failure_note, failure_text, message, noted, picker, prompt, retold, Action, Effect, EffectView,
    Hooks, Outcome, OutcomeView, RenderGate, Sequencer, SequencerView, Stage, Widget, WidgetView,
};
use self::todo::{
    code_char, consistent, lemma_parse_line_round_trip, line_of, parse_todo, separator, Todo,
    TodoError, TodoState, TodoView,
};
use self::todo_utils::{aligned, grid, table};

verus! {

/// The todos that the lines stand for, or the error of the first line that
/// is no todo record.
pub open spec fn parse_all(lines: Seq<Seq<char>>) -> Result<Seq<TodoView>, TodoError>
    decreases lines.len(),
{
    if lines.len() == 0 {
        Ok(Seq::empty())
    } else {
        match parse_all(lines.drop_last()) {
            Err(e) => Err(e),
            Ok(todos) => match parse_todo(lines.last()) {
                Err(e) => Err(e),
                Ok(t) => Ok(todos.push(t)),
            },
        }
    }
}

/// The todos of the store `content`.
pub open spec fn stored_todos(content: Seq<char>) -> Result<Seq<TodoView>, TodoError> {
    parse_all(records(content))
}

/// The result of reading a store, as plain values.
pub open spec fn todos_view(r: Result<Vec<Todo>, TodoError>) -> Result<Seq<TodoView>, TodoError> {
    match r {
        Ok(todos) => Ok(todo_views(todos@)),
        Err(e) => Err(e),
    }
}

/// The todos that stay in the store: all of them, or those not completed.
pub open spec fn kept(todos: Seq<TodoView>, delete_completed: bool) -> Seq<TodoView>
    decreases todos.len(),
{
    if todos.len() == 0 {
        Seq::empty()
    } else if delete_completed && todos.last().status == TodoState::Completed {
        kept(todos.drop_last(), delete_completed)
    } else {
        kept(todos.drop_last(), delete_completed).push(todos.last())
    }
}

/// The lines that stand for the todos.
pub open spec fn lines_of(todos: Seq<TodoView>) -> Seq<Seq<char>> {
    todos.map_values(|t: TodoView| line_of(t))
}

/// The text of a store that holds the todos.
pub open spec fn store_text(todos: Seq<TodoView>) -> Seq<char> {
    join_lines(lines_of(todos))
}

/// The store `content` with one more todo at its end.
pub open spec fn with_todo(content: Seq<char>, description: Seq<char>, status: TodoState) -> Seq<
    char,
> {
    trim(content + seq![newline()] + description + seq![separator(), code_char(status)])
}

/// Whether one of the todos is completed.
pub open spec fn any_completed(todos: Seq<TodoView>) -> bool {
    exists|i: int| 0 <= i < todos.len() && (#[trigger] todos[i]).status == TodoState::Completed
}

/// Reads the store `content`. One line that is no todo record fails the
/// whole store.
pub fn parse_todos(content: &str) -> (r: Result<Vec<Todo>, TodoError>)
    ensures
        todos_view(r) == stored_todos(content@),
{
    let lines = split_records(content);
    let mut todos: Vec<Todo> = Vec::new();
    let mut i: usize = 0;
    proof {
        assert(views(lines@).take(0) =~= Seq::<Seq<char>>::empty());
        assert(todo_views(todos@) =~= Seq::<TodoView>::empty());
    }
    while i < lines.len()
        invariant
            i <= lines.len(),
            views(lines@) == records(content@),
            parse_all(views(lines@).take(i as int)) == Ok::<Seq<TodoView>, TodoError>(
                todo_views(todos@),
            ),
        decreases lines.len() - i,
    {
        let ghost next = views(lines@).take(i + 1);
        let ghost before = todo_views(todos@);
        proof {
            assert(next.drop_last() =~= views(lines@).take(i as int));
            assert(next.last() == lines@[i as int]@);
        }
        match Todo::try_from(lines[i].as_str()) {
            Err(e) => {
                proof {
                    assert(parse_todo(lines@[i as int]@) == Err::<TodoView, TodoError>(e));
                    assert(parse_all(next) == Err::<Seq<TodoView>, TodoError>(e));
                    lemma_parse_all_fails(views(lines@), i + 1);
                    assert(views(lines@).take(lines.len() as int) =~= views(lines@));
                }
                return Err(e);
            },
            Ok(todo) => {
                todos.push(todo);
                proof {
                    assert(todo_views(todos@) =~= before.push(todo@));
                }
            },
        }
        i += 1;
    }
    proof {
        assert(views(lines@).take(lines.len() as int) =~= views(lines@));
    }
    Ok(todos)
}

/// Lines whose first `n` fail to parse fail as a whole, with the same error.
proof fn lemma_parse_all_fails(lines: Seq<Seq<char>>, n: int)
    requires
        0 <= n <= lines.len(),
        parse_all(lines.take(n)) is Err,
    ensures
        parse_all(lines) == parse_all(lines.take(n)),
    decreases lines.len() - n,
{
    if n < lines.len() {
        assert(lines.take(n + 1).drop_last() =~= lines.take(n));
        lemma_parse_all_fails(lines, n + 1);
    } else {
        assert(lines.take(n) =~= lines);
    }
}

/// Whether a todo can be read back from a store: its description is one
/// line without the separator and without white space at its start, and
/// its icon is that of its status.
pub open spec fn storable(t: TodoView) -> bool {
    &&& !has_char(t.description, separator())
    &&& !has_char(t.description, newline())
    &&& t.description.len() > 0 ==> !is_space(t.description[0])
    &&& consistent(t)
}

/// Reading back the store that was written for todos gives those todos,
/// where each of them is storable.
pub proof fn lemma_store_round_trip(todos: Seq<TodoView>)
    requires
        forall|i: int| 0 <= i < todos.len() ==> storable(#[trigger] todos[i]),
    ensures
        stored_todos(store_text(todos)) == Ok::<Seq<TodoView>, TodoError>(todos),
{
    let lines = lines_of(todos);
    assert forall|i: int| 0 <= i < lines.len() implies is_record(#[trigger] lines[i]) by {
        let t = todos[i];
        let line = line_of(t);
        assert(storable(t));
        assert(line.len() == t.description.len() + 2);
        assert(line[0] == (if t.description.len() > 0 {
            t.description[0]
        } else {
            separator()
        }));
        assert(line.last() == code_char(t.status));
        if has_char(line, newline()) {
            let k = choose|k: int| 0 <= k < line.len() && line[k] == newline();
            if k < t.description.len() {
                assert(t.description[k] == newline());
            }
        }
    }
    lemma_records_of_join(lines);
    lemma_lines_parse_back(todos);
}

proof fn lemma_lines_parse_back(todos: Seq<TodoView>)
    requires
        forall|i: int| 0 <= i < todos.len() ==> storable(#[trigger] todos[i]),
    ensures
        parse_all(lines_of(todos)) == Ok::<Seq<TodoView>, TodoError>(todos),
    decreases todos.len(),
{
    if todos.len() == 0 {
        assert(todos =~= Seq::<TodoView>::empty());
    } else {
        let front = todos.drop_last();
        assert forall|i: int| 0 <= i < front.len() implies storable(#[trigger] front[i]) by {
            assert(front[i] == todos[i]);
        }
        lemma_lines_parse_back(front);
        assert(lines_of(todos).drop_last() =~= lines_of(front));
        assert(lines_of(todos).last() == line_of(todos.last()));
        assert(storable(todos[todos.len() - 1]));
        lemma_parse_line_round_trip(todos.last());
        assert(front.push(todos.last()) =~= todos);
    }
}

/// The text of a store that holds `todos`, without the completed ones
/// where `delete_completed` is set.
pub fn serialize(todos: &Vec<Todo>, delete_completed: bool) -> (content: String)
    ensures
        content@ == store_text(kept(todo_views(todos@), delete_completed)),
{
    let mut lines: Vec<String> = Vec::new();
    let mut i: usize = 0;
    proof {
        assert(todo_views(todos@).take(0) =~= Seq::<TodoView>::empty());
        assert(views(lines@) =~= lines_of(kept(todo_views(todos@).take(0), delete_completed)));
    }
    while i < todos.len()
        invariant
            i <= todos.len(),
            views(lines@) == lines_of(kept(todo_views(todos@).take(i as int), delete_completed)),
        decreases todos.len() - i,
    {
        let ghost next = todo_views(todos@).take(i + 1);
        let ghost before = kept(todo_views(todos@).take(i as int), delete_completed);
        proof {
            assert(next.drop_last() =~= todo_views(todos@).take(i as int));
            assert(next.last() == todos@[i as int]@);
        }
        let todo = &todos[i];
        if !(delete_completed && todo.status == TodoState::Completed) {
            let line = todo.to_line();
            lines.push(line);
            proof {
                assert(views(lines@) =~= lines_of(before).push(line@));
                assert(lines_of(before.push(todo@)) =~= lines_of(before).push(line_of(todo@)));
            }
        }
        i += 1;
    }
    proof {
        assert(todo_views(todos@).take(todos.len() as int) =~= todo_views(todos@));
    }
    join_records(&lines)
}

/// The store `content` with one more todo at its end.
pub fn append_todo(content: &str, description: &str, status: TodoState) -> (out: String)
    ensures
        out@ == with_todo(content@, description@, status),
{
    let mut text = content.to_owned();
    text.push('\n');
    text.append(description);
    text.push(':');
    match status {
        TodoState::Completed => text.push('1'),
        TodoState::NoStarted => text.push('0'),
    }
    proof {
        assert(text@ =~= content@ + seq![newline()] + description@ + seq![
            separator(),
            code_char(status),
        ]);
    }
    trimmed(text.as_str())
}

/// The status in words.
pub open spec fn status_text(status: TodoState) -> Seq<char> {
    match status {
        TodoState::Completed => "Completed"@,
        TodoState::NoStarted => "Not started"@,
    }
}

/// The cells of the listing: a row of headers, then one row per todo with
/// its icon, its description and its status.
pub open spec fn listing_rows(todos: Seq<TodoView>) -> Seq<Seq<Seq<char>>> {
    seq![seq!["Icon"@, "Todo"@, "Status"@]] + todos.map_values(
        |t: TodoView| seq![t.icon, t.description, status_text(t.status)],
    )
}

/// The cells of a row, each followed by one space.
pub open spec fn cells_text(cells: Seq<Seq<char>>) -> Seq<char>
    decreases cells.len(),
{
    if cells.len() == 0 {
        Seq::empty()
    } else {
        cells_text(cells.drop_last()) + cells.last() + seq![' ']
    }
}

/// The lines of the listing: nothing for no todos, and else the aligned
/// rows, each cell followed by a space and each row by one more.
pub open spec fn listing(todos: Seq<TodoView>) -> Seq<Seq<char>> {
    if todos.len() == 0 {
        Seq::empty()
    } else {
        aligned(listing_rows(todos)).map_values(|row: Seq<Seq<char>>| cells_text(row) + seq![' '])
    }
}

/// The result of listing, as plain values.
pub open spec fn listing_view(r: Result<Vec<String>, TodoError>) -> Result<
    Seq<Seq<char>>,
    TodoError,
> {
    match r {
        Ok(lines) => Ok(views(lines@)),
        Err(e) => Err(e),
    }
}

/// What listing the store gives: the lines of the table, or the error of
/// the first line that is no todo record.
pub open spec fn listed(content: Seq<char>) -> Result<Seq<Seq<char>>, TodoError> {
    match stored_todos(content) {
        Ok(todos) => Ok(listing(todos)),
        Err(e) => Err(e),
    }
}

fn row_text(cells: &Vec<String>) -> (line: String)
    ensures
        line@ == cells_text(views(cells@)) + seq![' '],
{
    let mut line = String::new();
    let mut j: usize = 0;
    proof {
        assert(views(cells@).take(0) =~= Seq::<Seq<char>>::empty());
    }
    while j < cells.len()
        invariant
            j <= cells.len(),
            line@ == cells_text(views(cells@).take(j as int)),
        decreases cells.len() - j,
    {
        proof {
            let next = views(cells@).take(j + 1);
            assert(next.drop_last() =~= views(cells@).take(j as int));
            assert(next.last() == cells@[j as int]@);
        }
        line.append(cells[j].as_str());
        line.push(' ');
        j += 1;
    }
    proof {
        assert(views(cells@).take(cells.len() as int) =~= views(cells@));
    }
    line.push(' ');
    line
}

/// The lines that list the todos of the store `content` as a table.
pub fn list_todo(content: &str) -> (r: Result<Vec<String>, TodoError>)
    ensures
        listing_view(r) == listed(content@),
{
    let todos = match parse_todos(content) {
        Ok(todos) => todos,
        Err(e) => {
            return Err(e);
        },
    };
    let mut lines: Vec<String> = Vec::new();
    if todos.len() == 0 {
        proof {
            assert(views(lines@) =~= listing(todo_views(todos@)));
        }
        return Ok(lines);
    }
    let mut body: Vec<Vec<String>> = Vec::new();
    let mut i: usize = 0;
    let ghost rows = todo_views(todos@).map_values(
        |t: TodoView| seq![t.icon, t.description, status_text(t.status)],
    );
    while i < todos.len()
        invariant
            i <= todos.len(),
            body.len() == i,
            rows == todo_views(todos@).map_values(
                |t: TodoView| seq![t.icon, t.description, status_text(t.status)],
            ),
            forall|k: int| 0 <= k < i ==> #[trigger] grid(body@)[k] == rows[k],
        decreases todos.len() - i,
    {
        let todo = &todos[i];
        let mut row: Vec<String> = Vec::new();
        row.push(todo.icon.clone());
        row.push(todo.description.clone());
        row.push(todo.status.to_string());
        let ghost before = grid(body@);
        body.push(row);
        proof {
            assert(views(row@) =~= seq![todo@.icon, todo@.description, status_text(todo@.status)]);
            assert(grid(body@) =~= before.push(views(row@)));
            assert(todo_views(todos@)[i as int] == todo@);
        }
        i += 1;
    }
    let mut headers: Vec<String> = Vec::new();
    headers.push("Icon".to_owned());
    headers.push("Todo".to_owned());
    headers.push("Status".to_owned());
    proof {
        assert(views(headers@) =~= seq!["Icon"@, "Todo"@, "Status"@]);
        assert(grid(body@) =~= rows);
    }
    let content_table = table(body, headers);
    let ghost cells = aligned(listing_rows(todo_views(todos@)));
    let mut k: usize = 0;
    while k < content_table.len()
        invariant
            k <= content_table.len(),
            lines.len() == k,
            grid(content_table@) == cells,
            forall|c: int|
                0 <= c < k ==> (#[trigger] lines[c])@ == cells_text(cells[c]) + seq![' '],
        decreases content_table.len() - k,
    {
        proof {
            assert(grid(content_table@)[k as int] == views(content_table@[k as int]@));
        }
        lines.push(row_text(&content_table[k]));
        k += 1;
    }
    proof {
        assert(views(lines@) =~= listing(todo_views(todos@)));
    }
    Ok(lines)
}

/// What the wizard that creates a todo knows.
#[derive(Debug)]
pub struct Draft {
    /// The description that the user typed.
    pub description: String,
    /// Why the description cannot be stored, if it cannot.
    pub error: Option<String>,
    /// The text of the todo store.
    pub store: String,
}

/// `Draft` as plain values.
pub struct DraftView {
    pub description: Seq<char>,
    pub error: Option<Seq<char>>,
    pub store: Seq<char>,
}

impl View for Draft {
    type V = DraftView;

    open spec fn view(&self) -> DraftView {
        DraftView {
            description: self.description@,
            error: option_view(self.error),
            store: self.store@,
        }
    }
}

/// What is said of a description that holds the separator.
pub open spec fn rejection() -> Seq<char> {
    "Could not create 'todo', maybe you wrote ':' in the input"@
}

/// Whether a description can be stored: it holds no separator.
pub fn description_is_valid(description: &str) -> (ok: bool)
    ensures
        ok == !has_char(description@, separator()),
{
    !contains_char(description, ':')
}

/// The first step of creating: once the input is complete and not empty
/// its text goes to the context, and with it the rejection where the text
/// holds the separator. An input completed while empty is opened again.
pub open spec fn described(widget: WidgetView, context: DraftView) -> (
    Action,
    WidgetView,
    DraftView,
) {
    match widget {
        WidgetView::Input(w) => if w.local_state.complete_input && w.local_state.input.len() > 0 {
            let input = w.local_state.input;
            (
                Action::Advance,
                widget,
                DraftView {
                    description: input,
                    error: if has_char(input, separator()) {
                        Some(rejection())
                    } else {
                        context.error
                    },
                    store: context.store,
                },
            )
        } else {
            (Action::Retry, WidgetView::Input(w.reopened()), context)
        },
        _ => (Action::Advance, widget, context),
    }
}

/// The last step of creating: once the store is written the step says so;
/// where it was not, the run is cancelled with the reason added to the
/// message.
pub open spec fn stored(widget: WidgetView, context: DraftView, outcome: OutcomeView) -> (
    Action,
    WidgetView,
    DraftView,
) {
    if outcome is Done {
        (
            Action::Advance,
            noted(widget, "\nTodo added correctly!"@),
            DraftView {
                store: with_todo(context.store, context.description, TodoState::NoStarted),
                ..context
            },
        )
    } else {
        (Action::Cancel, noted(widget, failure_note(outcome)), context)
    }
}

/// The hooks of the wizard that creates a todo: an input for the
/// description, and the message of what was done. A rejected description
/// takes the place of the message, and the step that writes is passed over.
pub struct CreateTodo;

impl Hooks<Draft> for CreateTodo {
    open spec fn gate(&self, index: int, widget: WidgetView, context: DraftView) -> (
        RenderGate,
        WidgetView,
    ) {
        if index == 1 {
            match context.error {
                Some(reason) => (RenderGate::Skip, retold(widget, reason)),
                None => (RenderGate::Show, widget),
            }
        } else {
            (RenderGate::Show, widget)
        }
    }

    open spec fn work(&self, index: int, widget: WidgetView, context: DraftView) -> Option<
        EffectView,
    > {
        if index == 1 && context.error.is_none() {
            Some(
                EffectView::WriteTodos {
                    content: with_todo(context.store, context.description, TodoState::NoStarted),
                },
            )
        } else {
            None
        }
    }

    open spec fn verdict(
        &self,
        index: int,
        widget: WidgetView,
        context: DraftView,
        outcome: OutcomeView,
    ) -> (Action, WidgetView, DraftView) {
        if index == 0 {
            described(widget, context)
        } else if index == 1 {
            stored(widget, context, outcome)
        } else {
            (Action::Advance, widget, context)
        }
    }

    fn before(&self, index: usize, widget: &mut Widget, context: &Draft) -> (g: RenderGate) {
        if index == 1 {
            match &context.error {
                Some(reason) => {
                    widget.tell(reason.as_str());
                    RenderGate::Skip
                },
                None => RenderGate::Show,
            }
        } else {
            RenderGate::Show
        }
    }

    fn effect(&self, index: usize, widget: &Widget, context: &Draft) -> (e: Option<Effect>) {
        if index == 1 && context.error.is_none() {
            Some(
                Effect::WriteTodos {
                    content: append_todo(
                        context.store.as_str(),
                        context.description.as_str(),
                        TodoState::NoStarted,
                    ),
                },
            )
        } else {
            None
        }
    }

    fn after(&self, index: usize, widget: &mut Widget, context: &mut Draft, outcome: &Outcome) -> (a:
        Action) {
        if index == 0 {
            match widget {
                Widget::Input(w) => {
                    if w.local_state.complete_input && w.local_state.input.as_str().unicode_len()
                        > 0 {
                        if !description_is_valid(w.local_state.input.as_str()) {
                            context.error = Some(
                                "Could not create 'todo', maybe you wrote ':' in the input".to_owned(),
                            );
                        }
                        context.description = w.local_state.input.clone();
                        Action::Advance
                    } else {
                        w.reopen();
                        Action::Retry
                    }
                },
                _ => Action::Advance,
            }
        } else if index == 1 {
            match outcome {
                Outcome::Done => {
                    widget.note("\nTodo added correctly!");
                    context.store = append_todo(
                        context.store.as_str(),
                        context.description.as_str(),
                        TodoState::NoStarted,
                    );
                    Action::Advance
                },
                _ => {
                    widget.note(failure_text(outcome).as_str());
                    Action::Cancel
                },
            }
        } else {
            Action::Advance
        }
    }
}

/// The wizard that adds a todo to the store `content`.
pub open spec fn create_todo_wizard(content: Seq<char>) -> SequencerView<DraftView> {
    SequencerView {
        widgets: seq![prompt("Type the todo: "@), message("Adding todo..."@)],
        index: 0,
        stage: Stage::Ready,
        context: DraftView { description: Seq::empty(), error: None, store: content },
    }
}

/// Starts the wizard that adds a todo to the store `content`.
pub fn create_todo(content: &str) -> (s: Sequencer<Draft, CreateTodo>)
    ensures
        s@ == create_todo_wizard(content@),
{
    let draft = Draft { description: String::new(), error: None, store: content.to_owned() };
    let mut s = Sequencer::new(draft, CreateTodo);
    s.child(Widget::prompt("Type the todo: "));
    s.child(Widget::message("Adding todo..."));
    proof {
        assert(s@.widgets =~= create_todo_wizard(content@).widgets);
    }
    s
}

/// What the wizard that checks todos off knows: the todos as the user
/// confirmed them.
#[derive(Debug)]
pub struct Checked {
    pub todos: Vec<Todo>,
}

/// `Checked` as plain values.
pub struct CheckedView {
    pub todos: Seq<TodoView>,
}

impl View for Checked {
    type V = CheckedView;

    open spec fn view(&self) -> CheckedView {
        CheckedView { todos: todo_views(self.todos@) }
    }
}

/// The checklist step: once the list is confirmed its todos go to the
/// context; the run goes on to the question only if a todo is completed.
pub open spec fn confirmed(widget: WidgetView, context: CheckedView) -> (
    Action,
    WidgetView,
    CheckedView,
) {
    match widget {
        WidgetView::Check(c) => if c.local_state.is_selected {
            (
                if any_completed(c.local_state.todos) {
                    Action::Advance
                } else {
                    Action::Cancel
                },
                widget,
                CheckedView { todos: c.local_state.todos },
            )
        } else {
            (Action::Retry, widget, context)
        },
        _ => (Action::Advance, widget, context),
    }
}

/// The store that the answer to the question asks for: the completed
/// todos leave it unless the cursor is on the last option, "No".
pub open spec fn answered(widget: WidgetView, context: CheckedView) -> Option<EffectView> {
    match widget {
        WidgetView::List(l) => {
            let s = l.local_state;
            if s.is_selected {
                Some(
                    EffectView::WriteTodos {
                        content: store_text(
                            kept(context.todos, !(s.length > 0 && s.offset == s.length - 1)),
                        ),
                    },
                )
            } else {
                None
            }
        },
        _ => None,
    }
}

/// The question step: it stays until an option is selected, goes on once
/// the store is written, and cancels the run where it was not.
pub open spec fn settled(widget: WidgetView, outcome: OutcomeView) -> Action {
    match widget {
        WidgetView::List(l) => if !l.local_state.is_selected {
            Action::Retry
        } else if outcome is Done {
            Action::Advance
        } else {
            Action::Cancel
        },
        _ => Action::Advance,
    }
}

/// The hooks of the wizard that checks todos off: the legend, the
/// checklist, and the question whether the completed todos are deleted.
pub struct ChangeTodo;

fn copy_todos(todos: &Vec<Todo>) -> (out: Vec<Todo>)
    ensures
        todo_views(out@) == todo_views(todos@),
{
    let mut out: Vec<Todo> = Vec::new();
    let mut i: usize = 0;
    while i < todos.len()
        invariant
            i <= todos.len(),
            out.len() == i,
            forall|k: int| 0 <= k < i ==> #[trigger] out[k] == todos[k],
        decreases todos.len() - i,
    {
        out.push(todos[i].clone());
        i += 1;
    }
    proof {
        assert(todo_views(out@) =~= todo_views(todos@));
    }
    out
}

fn has_completed(todos: &Vec<Todo>) -> (b: bool)
    ensures
        b == any_completed(todo_views(todos@)),
{
    let mut i: usize = 0;
    while i < todos.len()
        invariant
            i <= todos.len(),
            forall|k: int| 0 <= k < i ==> todos[k].status != TodoState::Completed,
        decreases todos.len() - i,
    {
        if todos[i].status == TodoState::Completed {
            proof {
                assert(todo_views(todos@)[i as int].status == TodoState::Completed);
            }
            return true;
        }
        i += 1;
    }
    proof {
        assert forall|k: int| 0 <= k < todos.len() implies (#[trigger] todo_views(
            todos@,
        )[k]).status != TodoState::Completed by {
            assert(todo_views(todos@)[k] == todos[k]@);
        }
    }
    false
}

impl Hooks<Checked> for ChangeTodo {
    open spec fn gate(&self, index: int, widget: WidgetView, context: CheckedView) -> (
        RenderGate,
        WidgetView,
    ) {
        (RenderGate::Show, widget)
    }

    open spec fn work(&self, index: int, widget: WidgetView, context: CheckedView) -> Option<
        EffectView,
    > {
        if index == 2 {
            answered(widget, context)
        } else {
            None
        }
    }

    open spec fn verdict(
        &self,
        index: int,
        widget: WidgetView,
        context: CheckedView,
        outcome: OutcomeView,
    ) -> (Action, WidgetView, CheckedView) {
        if index == 1 {
            confirmed(widget, context)
        } else if index == 2 {
            (settled(widget, outcome), widget, context)
        } else {
            (Action::Advance, widget, context)
        }
    }

    fn before(&self, index: usize, widget: &mut Widget, context: &Checked) -> (g: RenderGate) {
        RenderGate::Show
    }

    fn effect(&self, index: usize, widget: &Widget, context: &Checked) -> (e: Option<Effect>) {
        if index != 2 {
            return None;
        }
        match widget {
            Widget::List(l) => {
                let s = &l.local_state;
                if s.is_selected {
                    let delete_todo = !(s.length > 0 && s.offset == s.length - 1);
                    Some(Effect::WriteTodos { content: serialize(&context.todos, delete_todo) })
                } else {
                    None
                }
            },
            _ => None,
        }
    }

    fn after(&self, index: usize, widget: &mut Widget, context: &mut Checked, outcome: &Outcome) -> (a:
        Action) {
        if index == 1 {
            match widget {
                Widget::Check(c) => {
                    if c.local_state.is_selected {
                        context.todos = copy_todos(&c.local_state.todos);
                        if has_completed(&context.todos) {
                            Action::Advance
                        } else {
                            Action::Cancel
                        }
                    } else {
                        Action::Retry
                    }
                },
                _ => Action::Advance,
            }
        } else if index == 2 {
            match widget {
                Widget::List(l) => {
                    if !l.local_state.is_selected {
                        Action::Retry
                    } else {
                        match outcome {
                            Outcome::Done => Action::Advance,
                            _ => Action::Cancel,
                        }
                    }
                },
                _ => Action::Advance,
            }
        } else {
            Action::Advance
        }
    }
}

/// The legend of the checklist: what the icons mean and which keys change them.
pub open spec fn legend_line() -> Seq<SpanView> {
    seq![
        span(Tone::CyanBold, "[x]"@),
        span(Tone::Plain, ": Completed - "@),
        span(Tone::CyanBold, "[ ]"@),
        span(Tone::Plain, ": Not started, "@),
        span(Tone::CyanBold, "←/→"@),
        span(Tone::Plain, ": Change the icon"@),
    ]
}

/// The legend of the checklist.
pub fn legend() -> (line: Vec<Span>)
    ensures
        line_view(line@) == legend_line(),
{
    let mut line: Vec<Span> = Vec::new();
    line.push(styled(Tone::CyanBold, "[x]"));
    line.push(styled(Tone::Plain, ": Completed - "));
    line.push(styled(Tone::CyanBold, "[ ]"));
    line.push(styled(Tone::Plain, ": Not started, "));
    line.push(styled(Tone::CyanBold, "←/→"));
    line.push(styled(Tone::Plain, ": Change the icon"));
    proof {
        assert(line_view(line@) =~= legend_line());
    }
    line
}

/// The wizard that checks off `todos`, under the legend `legend`.
pub open spec fn change_todo_wizard(todos: Seq<TodoView>, legend: Seq<char>) -> SequencerView<
    CheckedView,
> {
    SequencerView {
        widgets: seq![
            message(legend),
            WidgetView::Check(
                CheckListView {
                    label: LabelView { icon: "? "@, text: "Change the todos: "@ },
                    local_state: CheckListDataView {
                        is_selected: false,
                        offset: 0,
                        current_option: None,
                        length: todos.len(),
                        todos,
                    },
                },
            ),
            picker(seq!["Yes"@, "No"@], "Delete the completed todos?: "@, "Option selected: "@),
        ],
        index: 0,
        stage: Stage::Ready,
        context: CheckedView { todos: Seq::empty() },
    }
}

/// Starts the wizard that checks off `todos`, under the legend `legend`.
pub fn checklist_wizard(todos: Vec<Todo>, legend: &str) -> (s: Sequencer<Checked, ChangeTodo>)
    ensures
        s@ == change_todo_wizard(todo_views(todos@), legend@),
{
    let mut options: Vec<String> = Vec::new();
    options.push("Yes".to_owned());
    options.push("No".to_owned());
    proof {
        assert(views(options@) =~= seq!["Yes"@, "No"@]);
    }
    let mut s = Sequencer::new(Checked { todos: Vec::new() }, ChangeTodo);
    proof {
        assert(s@.context.todos =~= Seq::<TodoView>::empty());
    }
    s.child(Widget::message(legend));
    s.child(Widget::Check(CheckList::new(todos)));
    s.child(Widget::picker(options, "Delete the completed todos?: ", "Option selected: "));
    proof {
        assert(s@.widgets =~= change_todo_wizard(todo_views(todos@), legend@).widgets);
    }
    s
}

/// Starts the wizard that checks off the todos of the store `content`
/// under the painted legend. A store without todos needs no wizard; a
/// store with a line that is no todo record gives the error of that line.
pub fn change_todo(content: &str) -> (r: Result<Option<Sequencer<Checked, ChangeTodo>>, TodoError>)
    ensures
        match r {
            Err(e) => stored_todos(content@) == Err::<Seq<TodoView>, TodoError>(e),
            Ok(None) => stored_todos(content@) == Ok::<Seq<TodoView>, TodoError>(Seq::empty()),
            Ok(Some(s)) => stored_todos(content@).is_ok() && stored_todos(content@).unwrap().len()
                > 0 && s@ == change_todo_wizard(
                stored_todos(content@).unwrap(),
                s@.widgets[0]->Text_0.text,
            ),
        },
{
    let todos = match parse_todos(content) {
        Ok(todos) => todos,
        Err(e) => {
            return Err(e);
        },
    };
    if todos.len() == 0 {
        proof {
            assert(todo_views(todos@) =~= Seq::<TodoView>::empty());
        }
        return Ok(None);
    }
    let text = paint_line(&legend());
    let ghost stored = todo_views(todos@);
    let s = checklist_wizard(todos, text.as_str());
    proof {
        assert(s@.widgets[0] == message(text@));
    }
    Ok(Some(s))
}

} // verus!
