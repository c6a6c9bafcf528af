//! The project wizards: what each step of adding, creating, opening and
//! removing a project decides. Reading and writing the store, starting the
//! editor and deleting a directory are the caller's work: a step asks for
//! it as an effect and decides on its outcome.

pub mod projects_db;

use vstd::prelude::*;
use vstd::string::StringExecFns;
use crate::style::{line_view, span, styled, Span, SpanView, Tone};
use crate::text::{chars_of, lines, split_lines, string_of, views};
use crate::widgets::{icon_check, option_view};
use crate::wizard::{
    failure_note, failure_text, message, noted, picker, prompt, Action, Effect, EffectView, Hooks,
    Outcome, OutcomeView, RenderGate, Sequencer, SequencerView, Stage, Widget, WidgetView,
};
use self::projects_db::{append_to_first_project, delete_project, moved_to_front, removed};

verus! {

/// The prefix that Windows puts in front of a resolved path.
pub open spec fn verbatim_prefix() -> Seq<char> {
    seq!['\\', '\\', '?', '\\']
}

/// The path without the verbatim prefix, if it has one.
pub open spec fn plain_path(resolved: Seq<char>) -> Seq<char> {
    if resolved.len() >= 4 && resolved.take(4) == verbatim_prefix() {
        resolved.skip(4)
    } else {
        resolved
    }
}

/// The path as the store keeps it: the resolved path without the verbatim
/// prefix that Windows puts in front of it.
pub fn canonicalize_path(resolved: &str) -> (path: String)
    ensures
        path@ == plain_path(resolved@),
{
    let v = chars_of(resolved);
    let n = v.len();
    if n >= 4 && v[0] == '\\' && v[1] == '\\' && v[2] == '?' && v[3] == '\\' {
        proof {
            assert(v@.take(4) =~= verbatim_prefix());
            assert(v@.subrange(4, n as int) =~= v@.skip(4));
        }
        string_of(&v, 4, n)
    } else {
        proof {
            if n >= 4 && v@.take(4) == verbatim_prefix() {
                assert(v@.take(4)[0] == v@[0]);
                assert(v@.take(4)[1] == v@[1]);
                assert(v@.take(4)[2] == v@[2]);
                assert(v@.take(4)[3] == v@[3]);
            }
            assert(v@.subrange(0, n as int) =~= v@);
        }
        string_of(&v, 0, n)
    }
}

/// What adding a path says: that the path was added, or that it is no folder.
pub open spec fn added_line(path: Seq<char>, is_dir: bool) -> Seq<SpanView> {
    if is_dir {
        seq![
            span(Tone::Green, "√ "@),
            span(Tone::Plain, "Added "@),
            span(Tone::Green, path),
            span(Tone::Plain, " successfully"@),
        ]
    } else {
        seq![span(Tone::Plain, "The path is not the path of a folder"@)]
    }
}

/// Adds the folder `path` to the store `content`. Returns the new text of
/// the store, or `None` where the path is no folder and the store stays as
/// it is, and the line to show.
pub fn add_project(content: &str, path: &str, is_dir: bool) -> (r: (Option<String>, Vec<Span>))
    ensures
        option_view(r.0) == (if is_dir {
            Some(moved_to_front(content@, path@))
        } else {
            None
        }),
        line_view(r.1@) == added_line(path@, is_dir),
{
    let mut line: Vec<Span> = Vec::new();
    if !is_dir {
        line.push(styled(Tone::Plain, "The path is not the path of a folder"));
        proof {
            assert(line_view(line@) =~= added_line(path@, is_dir));
        }
        return (None, line);
    }
    line.push(styled(Tone::Green, icon_check()));
    line.push(styled(Tone::Plain, "Added "));
    line.push(styled(Tone::Green, path));
    line.push(styled(Tone::Plain, " successfully"));
    proof {
        assert(line_view(line@) =~= added_line(path@, is_dir));
    }
    (Some(append_to_first_project(content, path)), line)
}

/// The options of a project list: the lines of the store as they stand,
/// then "None".
pub open spec fn project_options(content: Seq<char>) -> Seq<Seq<char>> {
    lines(content).push("None"@)
}

fn options_of(content: &str) -> (options: Vec<String>)
    ensures
        views(options@) == project_options(content@),
{
    let mut options = split_lines(content);
    let ghost before = views(options@);
    options.push("None".to_owned());
    proof {
        assert(views(options@) =~= before.push("None"@));
    }
    options
}

/// What a list says once the user is done with it: stay while nothing is
/// selected, cancel where the last option is selected, and else go on with
/// the option under the cursor.
pub open spec fn choice(widget: WidgetView) -> (Action, Option<Seq<char>>) {
    match widget {
        WidgetView::List(l) => {
            let s = l.local_state;
            if !s.is_selected {
                (Action::Retry, None)
            } else if s.length > 0 && s.offset == s.length - 1 {
                (Action::Cancel, None)
            } else {
                (Action::Advance, s.current_option)
            }
        },
        _ => (Action::Advance, None),
    }
}

fn clone_option(o: &Option<String>) -> (r: Option<String>)
    ensures
        option_view(r) == option_view(*o),
{
    match o {
        Some(s) => Some(s.clone()),
        None => None,
    }
}

fn picked(widget: &Widget) -> (r: (Action, Option<String>))
    ensures
        (r.0, option_view(r.1)) == choice(widget@),
{
    match widget {
        Widget::List(l) => {
            let s = &l.local_state;
            if !s.is_selected {
                (Action::Retry, None)
            } else if s.length > 0 && s.offset == s.length - 1 {
                (Action::Cancel, None)
            } else {
                (Action::Advance, clone_option(&s.current_option))
            }
        },
        _ => (Action::Advance, None),
    }
}

/// The hooks of the wizard that asks for the name of a new project. Its
/// context is the name.
pub struct NewProject;

/// The input goes on once it is complete and not empty, and hands its text
/// to the context. An input completed while empty is opened again.
pub open spec fn named(widget: WidgetView, context: Seq<char>) -> (Action, WidgetView, Seq<char>) {
    match widget {
        WidgetView::Input(w) => if w.local_state.complete_input && w.local_state.input.len() > 0 {
            (Action::Advance, widget, w.local_state.input)
        } else {
            (Action::Retry, WidgetView::Input(w.reopened()), context)
        },
        _ => (Action::Advance, widget, context),
    }
}

impl Hooks<String> for NewProject {
    open spec fn gate(&self, index: int, widget: WidgetView, context: Seq<char>) -> (
        RenderGate,
        WidgetView,
    ) {
        (RenderGate::Show, widget)
    }

    open spec fn work(&self, index: int, widget: WidgetView, context: Seq<char>) -> Option<
        EffectView,
    > {
        None
    }

    open spec fn verdict(
        &self,
        index: int,
        widget: WidgetView,
        context: Seq<char>,
        outcome: OutcomeView,
    ) -> (Action, WidgetView, Seq<char>) {
        named(widget, context)
    }

    fn before(&self, index: usize, widget: &mut Widget, context: &String) -> (g: RenderGate) {
        RenderGate::Show
    }

    fn effect(&self, index: usize, widget: &Widget, context: &String) -> (e: Option<Effect>) {
        None
    }

    fn after(&self, index: usize, widget: &mut Widget, context: &mut String, outcome: &Outcome) -> (a:
        Action) {
        match widget {
            Widget::Input(w) => {
                if w.local_state.complete_input && w.local_state.input.as_str().unicode_len() > 0 {
                    *context = w.local_state.input.clone();
                    Action::Advance
                } else {
                    w.reopen();
                    Action::Retry
                }
            },
            _ => Action::Advance,
        }
    }
}

/// The wizard that asks for the name of a new project.
pub open spec fn new_project_wizard() -> SequencerView<Seq<char>> {
    SequencerView {
        widgets: seq![prompt("Name of the new project: "@)],
        index: 0,
        stage: Stage::Ready,
        context: Seq::empty(),
    }
}

/// Starts the wizard that asks for the name of a new project.
pub fn new_project() -> (s: Sequencer<String, NewProject>)
    ensures
        s@ == new_project_wizard(),
{
    let mut s = Sequencer::new(String::new(), NewProject);
    s.child(Widget::prompt("Name of the new project: "));
    proof {
        assert(s@.widgets =~= new_project_wizard().widgets);
    }
    s
}

/// What the wizard that removes a project knows.
#[derive(Debug)]
pub struct GlobalState {
    /// The project that the user selected.
    pub project_selected: Option<String>,
    /// Whether the folder of the project is deleted too.
    pub remove_folder_project: bool,
    /// Whether the project has left the store.
    pub project_removed: bool,
    /// The text of the project store.
    pub store: String,
}

/// `GlobalState` as plain values.
pub struct GlobalStateView {
    pub project_selected: Option<Seq<char>>,
    pub remove_folder_project: bool,
    pub project_removed: bool,
    pub store: Seq<char>,
}

impl View for GlobalState {
    type V = GlobalStateView;

    open spec fn view(&self) -> GlobalStateView {
        GlobalStateView {
            project_selected: option_view(self.project_selected),
            remove_folder_project: self.remove_folder_project,
            project_removed: self.project_removed,
            store: self.store@,
        }
    }
}

/// The first step of removing: the selected project goes to the context.
pub open spec fn project_chosen(widget: WidgetView, context: GlobalStateView) -> (
    Action,
    WidgetView,
    GlobalStateView,
) {
    let (action, project) = choice(widget);
    (
        action,
        widget,
        if action == Action::Advance {
            GlobalStateView { project_selected: project, ..context }
        } else {
            context
        },
    )
}

/// The second step of removing: the folder goes too where the cursor is on
/// the first option, "Yes".
pub open spec fn folder_chosen(widget: WidgetView, context: GlobalStateView) -> (
    Action,
    WidgetView,
    GlobalStateView,
) {
    match widget {
        WidgetView::List(l) => (
            if l.local_state.is_selected {
                Action::Advance
            } else {
                Action::Retry
            },
            widget,
            GlobalStateView { remove_folder_project: l.local_state.offset == 0, ..context },
        ),
        _ => (Action::Advance, widget, context),
    }
}

/// The outside work of the last step of removing: first the store is
/// written without the project, then the folder is deleted if that was
/// asked for.
pub open spec fn removal_work(context: GlobalStateView) -> Option<EffectView> {
    match context.project_selected {
        None => None,
        Some(project) => if !context.project_removed {
            Some(EffectView::WriteProjects { content: removed(context.store, project) })
        } else if context.remove_folder_project {
            Some(EffectView::RemoveFolder { path: project })
        } else {
            None
        },
    }
}

/// The last step of removing. Without a selected project the run is
/// cancelled. Once the store is written the step says so, and stays for
/// the folder if the folder goes too. Work that did not succeed cancels the
/// run, with the reason added to the message.
pub open spec fn removal_verdict(
    widget: WidgetView,
    context: GlobalStateView,
    outcome: OutcomeView,
) -> (Action, WidgetView, GlobalStateView) {
    match context.project_selected {
        None => (Action::Cancel, noted(widget, "\nNot exist the project!"@), context),
        Some(project) => if !(outcome is Done) {
            (Action::Cancel, noted(widget, failure_note(outcome)), context)
        } else if !context.project_removed {
            (
                if context.remove_folder_project {
                    Action::Retry
                } else {
                    Action::Advance
                },
                noted(widget, "\nProject removed!"@),
                GlobalStateView {
                    project_removed: true,
                    store: removed(context.store, project),
                    ..context
                },
            )
        } else {
            (Action::Advance, noted(widget, "\nFolder removed!!"@), context)
        },
    }
}

/// The hooks of the wizard that removes a project: a list of the projects,
/// a list that asks whether the folder goes too, and the message of what
/// was done.
pub struct RemoveProject;

impl Hooks<GlobalState> for RemoveProject {
    open spec fn gate(&self, index: int, widget: WidgetView, context: GlobalStateView) -> (
        RenderGate,
        WidgetView,
    ) {
        (RenderGate::Show, widget)
    }

    open spec fn work(&self, index: int, widget: WidgetView, context: GlobalStateView) -> Option<
        EffectView,
    > {
        if index == 2 {
            removal_work(context)
        } else {
            None
        }
    }

    open spec fn verdict(
        &self,
        index: int,
        widget: WidgetView,
        context: GlobalStateView,
        outcome: OutcomeView,
    ) -> (Action, WidgetView, GlobalStateView) {
        if index == 0 {
            project_chosen(widget, context)
        } else if index == 1 {
            folder_chosen(widget, context)
        } else if index == 2 {
            removal_verdict(widget, context, outcome)
        } else {
            (Action::Advance, widget, context)
        }
    }

    fn before(&self, index: usize, widget: &mut Widget, context: &GlobalState) -> (g: RenderGate) {
        RenderGate::Show
    }

    fn effect(&self, index: usize, widget: &Widget, context: &GlobalState) -> (e: Option<Effect>) {
        if index != 2 {
            return None;
        }
        match &context.project_selected {
            None => None,
            Some(project) => {
                if !context.project_removed {
                    Some(
                        Effect::WriteProjects {
                            content: delete_project(context.store.as_str(), project.as_str()),
                        },
                    )
                } else if context.remove_folder_project {
                    Some(Effect::RemoveFolder { path: project.clone() })
                } else {
                    None
                }
            },
        }
    }

    fn after(
        &self,
        index: usize,
        widget: &mut Widget,
        context: &mut GlobalState,
        outcome: &Outcome,
    ) -> (a: Action) {
        if index == 0 {
            let (action, project) = picked(widget);
            if action == Action::Advance {
                context.project_selected = project;
            }
            action
        } else if index == 1 {
            match widget {
                Widget::List(l) => {
                    context.remove_folder_project = l.local_state.offset == 0;
                    if l.local_state.is_selected {
                        Action::Advance
                    } else {
                        Action::Retry
                    }
                },
                _ => Action::Advance,
            }
        } else if index == 2 {
            let project = match &context.project_selected {
                None => {
                    widget.note("\nNot exist the project!");
                    return Action::Cancel;
                },
                Some(project) => project.clone(),
            };
            match outcome {
                Outcome::Done => {},
                _ => {
                    widget.note(failure_text(outcome).as_str());
                    return Action::Cancel;
                },
            }
            if !context.project_removed {
                widget.note("\nProject removed!");
                context.store = delete_project(context.store.as_str(), project.as_str());
                context.project_removed = true;
                if context.remove_folder_project {
                    Action::Retry
                } else {
                    Action::Advance
                }
            } else {
                widget.note("\nFolder removed!!");
                Action::Advance
            }
        } else {
            Action::Advance
        }
    }
}

/// The wizard that removes a project from the store `content`.
pub open spec fn remove_project_wizard(content: Seq<char>) -> SequencerView<GlobalStateView> {
    SequencerView {
        widgets: seq![
            picker(
                project_options(content),
                "Select the project to delete: "@,
                "Selected option: "@,
            ),
            picker(
                seq!["Yes"@, "No"@],
                "Also delete the folder: "@,
                "Also delete the folder: "@,
            ),
            message("Removing..."@),
        ],
        index: 0,
        stage: Stage::Ready,
        context: GlobalStateView {
            project_selected: None,
            remove_folder_project: false,
            project_removed: false,
            store: content,
        },
    }
}

fn yes_no() -> (options: Vec<String>)
    ensures
        views(options@) == seq!["Yes"@, "No"@],
{
    let mut options: Vec<String> = Vec::new();
    options.push("Yes".to_owned());
    options.push("No".to_owned());
    proof {
        assert(views(options@) =~= seq!["Yes"@, "No"@]);
    }
    options
}

/// Starts the wizard that removes a project from the store `content`.
pub fn remove_project(content: &str) -> (s: Sequencer<GlobalState, RemoveProject>)
    ensures
        s@ == remove_project_wizard(content@),
{
    let state = GlobalState {
        project_selected: None,
        remove_folder_project: false,
        project_removed: false,
        store: content.to_owned(),
    };
    let mut s = Sequencer::new(state, RemoveProject);
    s.child(
        Widget::picker(options_of(content), "Select the project to delete: ", "Selected option: "),
    );
    s.child(Widget::picker(yes_no(), "Also delete the folder: ", "Also delete the folder: "));
    s.child(Widget::message("Removing..."));
    proof {
        assert(s@.widgets =~= remove_project_wizard(content@).widgets);
    }
    s
}

/// What the wizard that opens a project knows: the project that the user
/// selected.
#[derive(Debug)]
pub struct OpenState {
    pub project_selected: Option<String>,
}

/// `OpenState` as plain values.
pub struct OpenStateView {
    pub project_selected: Option<Seq<char>>,
}

impl View for OpenState {
    type V = OpenStateView;

    open spec fn view(&self) -> OpenStateView {
        OpenStateView { project_selected: option_view(self.project_selected) }
    }
}

/// The last step of opening. Without a selected project the run is
/// cancelled. Once the editor has started the step says so; where it did
/// not start, the run is cancelled with the reason added to the message.
pub open spec fn opening_verdict(
    widget: WidgetView,
    context: OpenStateView,
    outcome: OutcomeView,
) -> (Action, WidgetView, OpenStateView) {
    match context.project_selected {
        None => (Action::Cancel, widget, context),
        Some(_) => if outcome is Done {
            (Action::Advance, noted(widget, "\nOpened!!"@), context)
        } else {
            (Action::Cancel, noted(widget, failure_note(outcome)), context)
        },
    }
}

/// The hooks of the wizard that opens a project: a list of the projects,
/// and the message of what was done.
pub struct OpenProject;

impl Hooks<OpenState> for OpenProject {
    open spec fn gate(&self, index: int, widget: WidgetView, context: OpenStateView) -> (
        RenderGate,
        WidgetView,
    ) {
        (RenderGate::Show, widget)
    }

    open spec fn work(&self, index: int, widget: WidgetView, context: OpenStateView) -> Option<
        EffectView,
    > {
        if index == 1 {
            match context.project_selected {
                Some(project) => Some(EffectView::OpenEditor { path: project }),
                None => None,
            }
        } else {
            None
        }
    }

    open spec fn verdict(
        &self,
        index: int,
        widget: WidgetView,
        context: OpenStateView,
        outcome: OutcomeView,
    ) -> (Action, WidgetView, OpenStateView) {
        if index == 0 {
            let (action, project) = choice(widget);
            (
                action,
                widget,
                if action == Action::Advance {
                    OpenStateView { project_selected: project }
                } else {
                    context
                },
            )
        } else if index == 1 {
            opening_verdict(widget, context, outcome)
        } else {
            (Action::Advance, widget, context)
        }
    }

    fn before(&self, index: usize, widget: &mut Widget, context: &OpenState) -> (g: RenderGate) {
        RenderGate::Show
    }

    fn effect(&self, index: usize, widget: &Widget, context: &OpenState) -> (e: Option<Effect>) {
        if index != 1 {
            return None;
        }
        match &context.project_selected {
            Some(project) => Some(Effect::OpenEditor { path: project.clone() }),
            None => None,
        }
    }

    fn after(&self, index: usize, widget: &mut Widget, context: &mut OpenState, outcome: &Outcome) -> (a:
        Action) {
        if index == 0 {
            let (action, project) = picked(widget);
            if action == Action::Advance {
                context.project_selected = project;
            }
            action
        } else if index == 1 {
            if context.project_selected.is_none() {
                return Action::Cancel;
            }
            match outcome {
                Outcome::Done => {
                    widget.note("\nOpened!!");
                    Action::Advance
                },
                _ => {
                    widget.note(failure_text(outcome).as_str());
                    Action::Cancel
                },
            }
        } else {
            Action::Advance
        }
    }
}

/// The wizard that opens a project of the store `content`.
pub open spec fn open_project_wizard(content: Seq<char>) -> SequencerView<OpenStateView> {
    SequencerView {
        widgets: seq![
            picker(
                project_options(content),
                "Select the project to delete: "@,
                "Selected option: "@,
            ),
            message("Open..."@),
        ],
        index: 0,
        stage: Stage::Ready,
        context: OpenStateView { project_selected: None },
    }
}

/// What is said where the store holds no project.
pub open spec fn no_project_note() -> Seq<char> {
    "You don't have a saved project yet."@
}

/// Starts the wizard that opens a project of the store `content`, or
/// returns what to say where the store holds no project.
pub fn open_project(content: &str) -> (r: Result<Sequencer<OpenState, OpenProject>, String>)
    ensures
        match r {
            Ok(s) => lines(content@).len() > 0 && s@ == open_project_wizard(content@),
            Err(note) => lines(content@).len() == 0 && note@ == no_project_note(),
        },
{
    let options = options_of(content);
    if options.len() <= 1 {
        return Err("You don't have a saved project yet.".to_owned());
    }
    let mut s = Sequencer::new(OpenState { project_selected: None }, OpenProject);
    s.child(Widget::picker(options, "Select the project to delete: ", "Selected option: "));
    s.child(Widget::message("Open..."));
    proof {
        assert(s@.widgets =~= open_project_wizard(content@).widgets);
    }
    Ok(s)
}

} // verus!
