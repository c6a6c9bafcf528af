use flow::style::{paint_frame, paint_line};
use flow::tidy::{
    new_project, open_project, remove_project, GlobalState, NewProject, OpenProject, OpenState,
    RemoveProject,
};
use flow::todo::todo::TodoState;
use flow::todo::{
    change_todo, checklist_wizard, create_todo, legend, parse_todos, ChangeTodo, Checked,
    CreateTodo, Draft,
};
use flow::widgets::Key;
use flow::wizard::{
    failure_text, Action, Effect, Ending, Fixed, Outcome, RenderGate, Request, Sequencer, Stage,
    Widget,
};

fn three_widgets(hooks: Fixed) -> Sequencer<String, Fixed> {
    let mut s = Sequencer::new(String::from("start"), hooks);
    s.child(Widget::prompt("Name: "));
    s.child(Widget::picker(
        vec!["a".to_string(), "None".to_string()],
        "Pick: ",
        "Picked: ",
    ));
    s.child(Widget::message("Done"));
    s
}

fn message_of(widget: &Widget) -> String {
    match widget {
        Widget::Text(t) => t.local_state.text.clone(),
        _ => panic!("the widget is no message"),
    }
}

fn written(effect: Option<Effect>) -> String {
    match effect {
        Some(Effect::WriteTodos { content }) => content,
        Some(Effect::WriteProjects { content }) => content,
        other => panic!("no store is written: {:?}", other),
    }
}

#[test]
fn all_skipped_reaches_all_advanced_without_drawing() {
    let mut s = three_widgets(Fixed { gate: RenderGate::Skip, action: Action::Cancel });
    assert_eq!(s.ending(), None);
    for _ in 0..3 {
        assert_eq!(s.prepare(), Request::Skipped);
    }
    assert_eq!(s.ending(), Some(Ending::AllAdvanced));
    assert_eq!(s.prepare(), Request::Finished);
    assert_eq!(s.context().as_str(), "start");
    assert_eq!(s.index, 3);
    assert_eq!(s.stage, Stage::Ready);
    assert!(s.input(Some(Key::Enter)).is_none());
    assert_eq!(s.conclude(&Outcome::Idle), None);
    assert_eq!(s.context().as_str(), "start");
}

#[test]
fn a_run_without_widgets_is_over() {
    let mut s: Sequencer<String, Fixed> =
        Sequencer::new(String::new(), Fixed { gate: RenderGate::Show, action: Action::Advance });
    assert_eq!(s.ending(), Some(Ending::AllAdvanced));
    assert_eq!(s.prepare(), Request::Finished);
    assert!(s.screen().is_empty());
}

#[test]
fn cancel_ends_the_run_for_good() {
    let mut s = three_widgets(Fixed { gate: RenderGate::Show, action: Action::Cancel });
    assert_eq!(s.prepare(), Request::Draw { needs_key: true });
    assert!(s.input(Some(Key::Char('x'))).is_none());
    assert_eq!(s.conclude(&Outcome::Idle), Some(Action::Cancel));
    assert_eq!(s.ending(), Some(Ending::Cancelled));
    assert_eq!(s.index, 0);
    for _ in 0..4 {
        assert_eq!(s.prepare(), Request::Finished);
        assert!(s.input(Some(Key::Enter)).is_none());
        assert_eq!(s.conclude(&Outcome::Done), None);
    }
    assert_eq!(s.index, 0);
    assert_eq!(s.stage, Stage::Cancelled);
    assert_eq!(s.context().as_str(), "start");
    match &s.widgets[0] {
        Widget::Input(w) => assert_eq!(w.local_state.input, "x"),
        _ => panic!("the first widget is the input"),
    }
    match &s.widgets[1] {
        Widget::List(l) => {
            assert!(!l.local_state.is_selected);
            assert_eq!(l.local_state.offset, 0);
        }
        _ => panic!("the second widget is the list"),
    }
}

#[test]
fn calls_out_of_turn_change_nothing() {
    let mut s = three_widgets(Fixed { gate: RenderGate::Show, action: Action::Advance });
    assert!(s.input(Some(Key::Char('x'))).is_none());
    assert_eq!(s.conclude(&Outcome::Done), None);
    assert_eq!(s.stage, Stage::Ready);
    assert_eq!(s.prepare(), Request::Draw { needs_key: true });
    assert_eq!(s.prepare(), Request::Draw { needs_key: true });
    assert_eq!(s.conclude(&Outcome::Done), None);
    assert_eq!(s.stage, Stage::Drawn);
    assert!(s.input(None).is_none());
    assert_eq!(s.stage, Stage::Working);
    assert_eq!(s.prepare(), Request::Busy);
    assert!(s.input(Some(Key::Char('x'))).is_none());
    assert_eq!(s.conclude(&Outcome::Idle), Some(Action::Advance));
    assert_eq!(s.index, 1);
    assert_eq!(s.stage, Stage::Ready);
}

#[test]
fn retry_keeps_the_widget_and_its_state() {
    let mut s = three_widgets(Fixed { gate: RenderGate::Show, action: Action::Retry });
    for c in ['a', 'b'] {
        assert_eq!(s.prepare(), Request::Draw { needs_key: true });
        assert!(s.input(Some(Key::Char(c))).is_none());
        assert_eq!(s.conclude(&Outcome::Idle), Some(Action::Retry));
    }
    assert_eq!(s.index, 0);
    assert_eq!(s.ending(), None);
    match &s.widgets[0] {
        Widget::Input(w) => assert_eq!(w.local_state.input, "ab"),
        _ => panic!("the first widget is the input"),
    }
}

#[test]
fn advancing_resets_the_widget_that_becomes_active() {
    let mut s = three_widgets(Fixed { gate: RenderGate::Show, action: Action::Advance });
    match &mut s.widgets[1] {
        Widget::List(l) => {
            l.local_state.offset = 1;
            l.local_state.is_selected = true;
        }
        _ => panic!("the second widget is the list"),
    }
    assert_eq!(s.prepare(), Request::Draw { needs_key: true });
    assert!(s.input(None).is_none());
    assert_eq!(s.conclude(&Outcome::Idle), Some(Action::Advance));
    match &s.widgets[1] {
        Widget::List(l) => {
            assert_eq!(l.local_state.offset, 0);
            assert!(!l.local_state.is_selected);
            assert_eq!(l.local_state.length, 2);
        }
        _ => panic!("the second widget is the list"),
    }
    assert_eq!(s.prepare(), Request::Draw { needs_key: true });
}

#[test]
fn the_screen_shows_the_widgets_up_to_the_active_one() {
    let mut s = three_widgets(Fixed { gate: RenderGate::Show, action: Action::Advance });
    assert_eq!(s.screen().len(), 1);
    assert_eq!(s.prepare(), Request::Draw { needs_key: true });
    s.input(Some(Key::Char('x')));
    s.conclude(&Outcome::Idle);
    let screen = s.screen();
    assert_eq!(screen.len(), 4);
    let texts: Vec<Vec<String>> =
        screen.iter().map(|l| l.iter().map(|s| s.text.clone()).collect()).collect();
    assert_eq!(
        texts,
        vec![
            vec!["? ".to_string(), "Name: ".to_string(), "x".to_string()],
            vec!["? ".to_string(), "Pick: ".to_string()],
            vec!["> ".to_string(), "a".to_string()],
            vec!["  ".to_string(), "None".to_string()],
        ]
    );
    assert_eq!(paint_frame(&screen).len(), 4);
    assert_eq!(paint_frame(&screen)[3], "  None");
}

#[test]
fn failures_are_told_in_words() {
    assert_eq!(failure_text(&Outcome::Failed("disk full".to_string())), "\ndisk full");
    assert_eq!(failure_text(&Outcome::NotAFolder), "\nThe path is not a folder");
    assert_eq!(failure_text(&Outcome::Idle), "\nUnexpected error ocurred");
}

fn check_frame(
    s: &mut Sequencer<Checked, ChangeTodo>,
    key: Option<Key>,
) -> (Request, Option<Effect>) {
    let request = s.prepare();
    let effect = s.input(key);
    (request, effect)
}

#[test]
fn checking_off_and_keeping_the_completed() {
    let mut s = change_todo("Buy milk:0").expect("a good store").expect("a todo");
    assert!(check_frame(&mut s, None).1.is_none());
    assert_eq!(s.conclude(&Outcome::Idle), Some(Action::Advance));

    let (request, effect) = check_frame(&mut s, Some(Key::Right));
    assert_eq!(request, Request::Draw { needs_key: true });
    assert!(effect.is_none());
    assert_eq!(s.conclude(&Outcome::Idle), Some(Action::Retry));
    assert!(s.context().todos.is_empty());
    assert!(check_frame(&mut s, Some(Key::Enter)).1.is_none());
    assert_eq!(s.conclude(&Outcome::Idle), Some(Action::Advance));
    assert_eq!(s.context().todos.len(), 1);
    assert_eq!(s.context().todos[0].status, TodoState::Completed);

    assert!(check_frame(&mut s, Some(Key::Down)).1.is_none());
    assert_eq!(s.conclude(&Outcome::Idle), Some(Action::Retry));
    let (_, effect) = check_frame(&mut s, Some(Key::Enter));
    assert_eq!(written(effect), "Buy milk:1");
    assert_eq!(s.conclude(&Outcome::Done), Some(Action::Advance));
    assert_eq!(s.ending(), Some(Ending::AllAdvanced));
}

#[test]
fn checking_off_and_deleting_the_completed() {
    let mut s = change_todo("Buy milk:1").expect("a good store").expect("a todo");
    check_frame(&mut s, None);
    assert_eq!(s.conclude(&Outcome::Idle), Some(Action::Advance));
    assert!(check_frame(&mut s, Some(Key::Enter)).1.is_none());
    assert_eq!(s.conclude(&Outcome::Idle), Some(Action::Advance));
    let (_, effect) = check_frame(&mut s, Some(Key::Enter));
    assert_eq!(written(effect), "");
    assert_eq!(s.conclude(&Outcome::Done), Some(Action::Advance));
    assert_eq!(s.ending(), Some(Ending::AllAdvanced));
}

#[test]
fn deleting_the_completed_keeps_the_others() {
    let mut s = change_todo("Buy milk:0\nRun:1\nRead:0").expect("a good store").expect("todos");
    check_frame(&mut s, None);
    s.conclude(&Outcome::Idle);
    for key in [Key::Down, Key::Down, Key::Left] {
        check_frame(&mut s, Some(key));
        assert_eq!(s.conclude(&Outcome::Idle), Some(Action::Retry));
    }
    check_frame(&mut s, Some(Key::Enter));
    assert_eq!(s.conclude(&Outcome::Idle), Some(Action::Advance));
    let (_, effect) = check_frame(&mut s, Some(Key::Enter));
    assert_eq!(written(effect), "Buy milk:0");
}

#[test]
fn without_a_completed_todo_the_run_is_cancelled_and_nothing_is_written() {
    let mut s = change_todo("Buy milk:1").expect("a good store").expect("a todo");
    check_frame(&mut s, None);
    s.conclude(&Outcome::Idle);
    assert!(check_frame(&mut s, Some(Key::Left)).1.is_none());
    s.conclude(&Outcome::Idle);
    assert!(check_frame(&mut s, Some(Key::Enter)).1.is_none());
    assert_eq!(s.conclude(&Outcome::Idle), Some(Action::Cancel));
    assert_eq!(s.ending(), Some(Ending::Cancelled));
    assert_eq!(s.index, 1);
    assert_eq!(s.context().todos[0].status, TodoState::NoStarted);
    assert_eq!(check_frame(&mut s, Some(Key::Enter)), (Request::Finished, None));
    match &s.widgets[2] {
        Widget::List(l) => assert!(!l.local_state.is_selected),
        _ => panic!("the last widget is the question"),
    }
}

#[test]
fn a_write_that_fails_cancels_the_run() {
    let mut s = change_todo("Buy milk:1").expect("a good store").expect("a todo");
    check_frame(&mut s, None);
    s.conclude(&Outcome::Idle);
    check_frame(&mut s, Some(Key::Enter));
    s.conclude(&Outcome::Idle);
    check_frame(&mut s, Some(Key::Enter));
    assert_eq!(s.conclude(&Outcome::Failed("read only".to_string())), Some(Action::Cancel));
    assert_eq!(s.ending(), Some(Ending::Cancelled));
}

#[test]
fn a_store_without_todos_needs_no_wizard() {
    assert!(change_todo("").expect("empty").is_none());
    assert!(change_todo(" \n\n").expect("blank").is_none());
}

#[test]
fn a_bad_store_gives_no_wizard() {
    assert!(change_todo("Buy milk").is_err());
    assert!(change_todo("Buy milk:0\nRun:x").is_err());
}

#[test]
fn the_checklist_wizard_has_legend_checklist_and_question() {
    let todos = parse_todos("Buy milk:0").expect("a good store");
    let s = checklist_wizard(todos, "legend");
    assert_eq!(s.widgets.len(), 3);
    assert_eq!(message_of(&s.widgets[0]), "legend");
    match &s.widgets[1] {
        Widget::Check(c) => {
            assert_eq!(c.label.icon, "? ");
            assert_eq!(c.label.text, "Change the todos: ");
            assert_eq!(c.local_state.length, 1);
        }
        _ => panic!("the second widget is the checklist"),
    }
    match &s.widgets[2] {
        Widget::List(l) => {
            assert_eq!(l.options, vec!["Yes".to_string(), "No".to_string()]);
            assert_eq!(l.text_init.text, "Delete the completed todos?: ");
            assert_eq!(l.text_final.text, "Option selected: ");
        }
        _ => panic!("the last widget is the question"),
    }
    let spans: Vec<String> = legend().iter().map(|s| s.text.clone()).collect();
    assert_eq!(
        spans.concat(),
        "[x]: Completed - [ ]: Not started, ←/→: Change the icon"
    );
    assert!(paint_line(&legend()).contains(": Completed - "));
}

fn create_frame(s: &mut Sequencer<Draft, CreateTodo>, key: Option<Key>) -> (Request, Option<Effect>) {
    let request = s.prepare();
    let effect = s.input(key);
    (request, effect)
}

fn type_text(s: &mut Sequencer<Draft, CreateTodo>, text: &str) {
    for c in text.chars() {
        assert!(create_frame(s, Some(Key::Char(c))).1.is_none());
        assert_eq!(s.conclude(&Outcome::Idle), Some(Action::Retry));
    }
}

#[test]
fn creating_a_todo_appends_it_to_the_store() {
    let mut s = create_todo("Walk dog:1");
    type_text(&mut s, "Buy milj");
    create_frame(&mut s, Some(Key::Backspace));
    s.conclude(&Outcome::Idle);
    type_text(&mut s, "k");
    assert!(create_frame(&mut s, Some(Key::Enter)).1.is_none());
    assert_eq!(s.conclude(&Outcome::Idle), Some(Action::Advance));
    assert_eq!(s.context().description, "Buy milk");
    assert_eq!(s.context().error, None);
    let (request, effect) = create_frame(&mut s, None);
    assert_eq!(request, Request::Draw { needs_key: false });
    assert_eq!(written(effect), "Walk dog:1\nBuy milk:0");
    assert_eq!(s.conclude(&Outcome::Done), Some(Action::Advance));
    assert_eq!(s.ending(), Some(Ending::AllAdvanced));
    assert_eq!(message_of(&s.widgets[1]), "Adding todo...\nTodo added correctly!");
    assert_eq!(s.context().store, "Walk dog:1\nBuy milk:0");
}

#[test]
fn a_description_with_the_separator_is_rejected_and_nothing_is_written() {
    let mut s = create_todo("Walk dog:1");
    type_text(&mut s, "a:1");
    create_frame(&mut s, Some(Key::Enter));
    assert_eq!(s.conclude(&Outcome::Idle), Some(Action::Advance));
    assert_eq!(
        s.context().error,
        Some("Could not create 'todo', maybe you wrote ':' in the input".to_string())
    );
    assert_eq!(s.prepare(), Request::Skipped);
    assert_eq!(s.ending(), Some(Ending::AllAdvanced));
    assert_eq!(
        message_of(&s.widgets[1]),
        "Could not create 'todo', maybe you wrote ':' in the input"
    );
    assert_eq!(s.context().store, "Walk dog:1");
    assert!(s.input(None).is_none());
}

#[test]
fn an_input_completed_while_empty_is_opened_again() {
    let mut s = create_todo("");
    assert!(create_frame(&mut s, Some(Key::Enter)).1.is_none());
    assert_eq!(s.stage, Stage::Working);
    match &s.widgets[0] {
        Widget::Input(w) => assert!(w.local_state.complete_input),
        _ => panic!("the first widget is the input"),
    }
    assert_eq!(s.conclude(&Outcome::Idle), Some(Action::Retry));
    assert_eq!(s.index, 0);
    assert_eq!(s.prepare(), Request::Draw { needs_key: true });
    match &s.widgets[0] {
        Widget::Input(w) => assert!(!w.local_state.complete_input),
        _ => panic!("the first widget is the input"),
    }
}

#[test]
fn a_todo_that_cannot_be_written_cancels_the_run() {
    let mut s = create_todo("");
    type_text(&mut s, "x");
    create_frame(&mut s, Some(Key::Enter));
    s.conclude(&Outcome::Idle);
    assert_eq!(written(create_frame(&mut s, None).1), "x:0");
    assert_eq!(s.conclude(&Outcome::Failed("denied".to_string())), Some(Action::Cancel));
    assert_eq!(message_of(&s.widgets[1]), "Adding todo...\ndenied");
    assert_eq!(s.context().store, "");
    assert_eq!(s.ending(), Some(Ending::Cancelled));
}

fn remove_frame(
    s: &mut Sequencer<GlobalState, RemoveProject>,
    key: Option<Key>,
) -> (Request, Option<Effect>) {
    let request = s.prepare();
    let effect = s.input(key);
    (request, effect)
}

#[test]
fn removing_a_project_and_its_folder() {
    let mut s = remove_project("/a\n/b\n");
    match &s.widgets[0] {
        Widget::List(l) => {
            assert_eq!(l.options, vec!["/a".to_string(), "/b".to_string(), "None".to_string()]);
            assert_eq!(l.text_init.text, "Select the project to delete: ");
            assert_eq!(l.text_final.text, "Selected option: ");
        }
        _ => panic!("the first widget is the list"),
    }
    remove_frame(&mut s, Some(Key::Down));
    assert_eq!(s.conclude(&Outcome::Idle), Some(Action::Retry));
    remove_frame(&mut s, Some(Key::Enter));
    assert_eq!(s.conclude(&Outcome::Idle), Some(Action::Advance));
    assert_eq!(s.context().project_selected, Some("/b".to_string()));

    remove_frame(&mut s, Some(Key::Enter));
    assert_eq!(s.conclude(&Outcome::Idle), Some(Action::Advance));
    assert!(s.context().remove_folder_project);

    let (request, effect) = remove_frame(&mut s, None);
    assert_eq!(request, Request::Draw { needs_key: false });
    assert_eq!(written(effect), "/a");
    assert_eq!(s.conclude(&Outcome::Done), Some(Action::Retry));
    assert_eq!(message_of(&s.widgets[2]), "Removing...\nProject removed!");
    assert_eq!(s.context().store, "/a");
    let (_, effect) = remove_frame(&mut s, None);
    match effect {
        Some(Effect::RemoveFolder { path }) => assert_eq!(path, "/b"),
        other => panic!("the folder is deleted next: {:?}", other),
    }
    assert_eq!(s.conclude(&Outcome::Done), Some(Action::Advance));
    assert_eq!(
        message_of(&s.widgets[2]),
        "Removing...\nProject removed!\nFolder removed!!"
    );
    assert_eq!(s.ending(), Some(Ending::AllAdvanced));
}

#[test]
fn removing_a_project_and_keeping_its_folder() {
    let mut s = remove_project("/a\n/b");
    remove_frame(&mut s, Some(Key::Enter));
    s.conclude(&Outcome::Idle);
    remove_frame(&mut s, Some(Key::Down));
    assert_eq!(s.conclude(&Outcome::Idle), Some(Action::Retry));
    remove_frame(&mut s, Some(Key::Enter));
    assert_eq!(s.conclude(&Outcome::Idle), Some(Action::Advance));
    assert!(!s.context().remove_folder_project);
    assert_eq!(written(remove_frame(&mut s, None).1), "/b");
    assert_eq!(s.conclude(&Outcome::Done), Some(Action::Advance));
    assert_eq!(message_of(&s.widgets[2]), "Removing...\nProject removed!");
    assert_eq!(s.ending(), Some(Ending::AllAdvanced));
}

#[test]
fn choosing_none_cancels_and_no_later_step_runs() {
    let mut s = remove_project("/a");
    remove_frame(&mut s, Some(Key::Up));
    s.conclude(&Outcome::Idle);
    remove_frame(&mut s, Some(Key::Enter));
    assert_eq!(s.conclude(&Outcome::Idle), Some(Action::Cancel));
    assert_eq!(s.ending(), Some(Ending::Cancelled));
    assert_eq!(s.context().project_selected, None);
    assert_eq!(remove_frame(&mut s, Some(Key::Enter)), (Request::Finished, None));
    assert_eq!(s.conclude(&Outcome::Done), None);
    assert_eq!(message_of(&s.widgets[2]), "Removing...");
    assert_eq!(s.context().store, "/a");
    assert!(!s.context().project_removed);
}

#[test]
fn a_folder_that_is_none_cancels_after_the_store_is_written() {
    let mut s = remove_project("/a");
    remove_frame(&mut s, Some(Key::Enter));
    s.conclude(&Outcome::Idle);
    remove_frame(&mut s, Some(Key::Enter));
    s.conclude(&Outcome::Idle);
    remove_frame(&mut s, None);
    assert_eq!(s.conclude(&Outcome::Done), Some(Action::Retry));
    remove_frame(&mut s, None);
    assert_eq!(s.conclude(&Outcome::NotAFolder), Some(Action::Cancel));
    assert_eq!(
        message_of(&s.widgets[2]),
        "Removing...\nProject removed!\nThe path is not a folder"
    );
    assert!(s.context().project_removed);
}

#[test]
fn a_store_that_cannot_be_written_cancels_the_removal() {
    let mut s = remove_project("/a");
    remove_frame(&mut s, Some(Key::Enter));
    s.conclude(&Outcome::Idle);
    remove_frame(&mut s, Some(Key::Enter));
    s.conclude(&Outcome::Idle);
    remove_frame(&mut s, None);
    assert_eq!(s.conclude(&Outcome::Failed("denied".to_string())), Some(Action::Cancel));
    assert_eq!(message_of(&s.widgets[2]), "Removing...\ndenied");
    assert!(!s.context().project_removed);
    assert_eq!(s.context().store, "/a");
}

fn open_frame(
    s: &mut Sequencer<OpenState, OpenProject>,
    key: Option<Key>,
) -> (Request, Option<Effect>) {
    let request = s.prepare();
    let effect = s.input(key);
    (request, effect)
}

#[test]
fn opening_a_project() {
    let mut s = open_project("/a\n/b").expect("projects");
    open_frame(&mut s, Some(Key::Down));
    s.conclude(&Outcome::Idle);
    open_frame(&mut s, Some(Key::Enter));
    assert_eq!(s.conclude(&Outcome::Idle), Some(Action::Advance));
    match open_frame(&mut s, None).1 {
        Some(Effect::OpenEditor { path }) => assert_eq!(path, "/b"),
        other => panic!("the editor is started: {:?}", other),
    }
    assert_eq!(s.conclude(&Outcome::Done), Some(Action::Advance));
    assert_eq!(message_of(&s.widgets[1]), "Open...\nOpened!!");
    assert_eq!(s.ending(), Some(Ending::AllAdvanced));
}

#[test]
fn an_editor_that_does_not_start_cancels_the_run() {
    let mut s = open_project("/a").expect("projects");
    open_frame(&mut s, Some(Key::Enter));
    s.conclude(&Outcome::Idle);
    open_frame(&mut s, None);
    assert_eq!(s.conclude(&Outcome::Failed("no editor".to_string())), Some(Action::Cancel));
    assert_eq!(message_of(&s.widgets[1]), "Open...\nno editor");
}

#[test]
fn opening_without_projects_says_so() {
    assert_eq!(open_project("").err(), Some("You don't have a saved project yet.".to_string()));
    assert_eq!(
        open_project("\n\r\n").err(),
        Some("You don't have a saved project yet.".to_string())
    );
}

fn name_frame(s: &mut Sequencer<String, NewProject>, key: Option<Key>) -> Option<Action> {
    s.prepare();
    s.input(key);
    s.conclude(&Outcome::Idle)
}

#[test]
fn naming_a_new_project() {
    let mut s = new_project();
    assert_eq!(name_frame(&mut s, Some(Key::Enter)), Some(Action::Retry));
    assert_eq!(name_frame(&mut s, Some(Key::Char('p'))), Some(Action::Retry));
    assert_eq!(name_frame(&mut s, Some(Key::Other)), Some(Action::Retry));
    assert_eq!(name_frame(&mut s, Some(Key::Char('o'))), Some(Action::Retry));
    assert_eq!(s.context().as_str(), "");
    assert_eq!(name_frame(&mut s, Some(Key::Enter)), Some(Action::Advance));
    assert_eq!(s.context().as_str(), "po");
    assert_eq!(s.ending(), Some(Ending::AllAdvanced));
    let screen = s.screen();
    assert_eq!(screen.len(), 1);
    let texts: Vec<String> = screen[0].iter().map(|s| s.text.clone()).collect();
    assert_eq!(
        texts,
        vec!["√ ".to_string(), "Name of the new project: ".to_string(), "po".to_string()]
    );
}

#[test]
fn removing_leaves_the_other_records_as_they_stand() {
    let mut s = remove_project("/a \n/b");
    match &s.widgets[0] {
        Widget::List(l) => {
            assert_eq!(l.options, vec!["/a ".to_string(), "/b".to_string(), "None".to_string()]);
        }
        _ => panic!("the first widget is the list"),
    }
    remove_frame(&mut s, Some(Key::Down));
    s.conclude(&Outcome::Idle);
    remove_frame(&mut s, Some(Key::Enter));
    assert_eq!(s.conclude(&Outcome::Idle), Some(Action::Advance));
    remove_frame(&mut s, Some(Key::Down));
    s.conclude(&Outcome::Idle);
    remove_frame(&mut s, Some(Key::Enter));
    assert_eq!(s.conclude(&Outcome::Idle), Some(Action::Advance));
    assert_eq!(written(remove_frame(&mut s, None).1), "/a ");
    assert_eq!(s.conclude(&Outcome::Done), Some(Action::Advance));
    assert_eq!(s.context().store, "/a ");
}

#[test]
fn the_folder_that_is_deleted_is_the_path_as_it_stands() {
    let mut s = remove_project("/tmp/x \n/tmp/x");
    remove_frame(&mut s, Some(Key::Enter));
    s.conclude(&Outcome::Idle);
    assert_eq!(s.context().project_selected, Some("/tmp/x ".to_string()));
    remove_frame(&mut s, Some(Key::Enter));
    s.conclude(&Outcome::Idle);
    assert_eq!(written(remove_frame(&mut s, None).1), "/tmp/x");
    assert_eq!(s.conclude(&Outcome::Done), Some(Action::Retry));
    match remove_frame(&mut s, None).1 {
        Some(Effect::RemoveFolder { path }) => assert_eq!(path, "/tmp/x "),
        other => panic!("the folder is deleted next: {:?}", other),
    }
}

#[test]
fn the_project_that_is_opened_is_the_path_as_it_stands() {
    let mut s = open_project(" /tmp/x \r\n").expect("projects");
    open_frame(&mut s, Some(Key::Enter));
    assert_eq!(s.conclude(&Outcome::Idle), Some(Action::Advance));
    match open_frame(&mut s, None).1 {
        Some(Effect::OpenEditor { path }) => assert_eq!(path, " /tmp/x "),
        other => panic!("the editor is started: {:?}", other),
    }
}
