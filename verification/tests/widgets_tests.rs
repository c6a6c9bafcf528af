use crossterm::style::Stylize;
use flow::custom_widgets::{color_todo, CheckList};
use flow::style::{paint, paint_line, styled, Span, Tone};
use flow::todo::todo::{Todo, TodoState};
use flow::widgets::{move_down, move_up, Key, Label, SingleSelectList, StaticText, TextInput};

fn options(names: &[&str]) -> Vec<String> {
    names.iter().map(|n| n.to_string()).collect()
}

fn shown(frame: &[Vec<Span>]) -> Vec<Vec<(Tone, String)>> {
    frame
        .iter()
        .map(|line| line.iter().map(|s| (s.tone, s.text.clone())).collect())
        .collect()
}

fn cell(tone: Tone, text: &str) -> (Tone, String) {
    (tone, text.to_string())
}

#[test]
fn icons_are_those_of_the_printer() {
    let list = SingleSelectList::new(Vec::new());
    assert_eq!(list.text_init.icon, cli_printer::styles::ICON_QUESTION);
    assert_eq!(list.text_final.icon, cli_printer::styles::ICON_CHECK);
    assert_eq!(CheckList::new(Vec::new()).label.icon, cli_printer::styles::ICON_QUESTION);
}

#[test]
fn the_cursor_wraps_around() {
    assert_eq!(move_down(0, 3), 1);
    assert_eq!(move_down(1, 3), 2);
    assert_eq!(move_down(2, 3), 0);
    assert_eq!(move_up(0, 3), 2);
    assert_eq!(move_up(2, 3), 1);
    assert_eq!(move_up(1, 3), 0);
    assert_eq!(move_down(0, 1), 0);
    assert_eq!(move_up(0, 1), 0);
}

#[test]
fn the_cursor_follows_the_formula_from_anywhere() {
    assert_eq!(move_down(7, 3), 2);
    assert_eq!(move_up(7, 3), 0);
    assert_eq!(move_down(usize::MAX, 4), 0);
    assert_eq!(move_up(usize::MAX, 4), 2);
    assert_eq!(move_down(5, 0), 0);
    assert_eq!(move_up(5, 0), 0);
}

#[test]
fn n_times_down_or_up_comes_back() {
    for n in 1..6 {
        for start in 0..n {
            let mut list = SingleSelectList::new((0..n).map(|i| i.to_string()).collect());
            list.local_state.offset = start;
            for _ in 0..n {
                list.handle_key(Key::Down);
            }
            assert_eq!(list.local_state.offset, start);
            for _ in 0..n {
                list.handle_key(Key::Up);
            }
            assert_eq!(list.local_state.offset, start);
            assert!(!list.local_state.is_selected);
        }
    }
}

#[test]
fn a_list_starts_on_its_first_option() {
    let list = SingleSelectList::new(options(&["a", "b", "None"]));
    assert_eq!(list.local_state.offset, 0);
    assert_eq!(list.local_state.length, 3);
    assert!(!list.local_state.is_selected);
    assert_eq!(list.local_state.current_option, None);
    assert_eq!(list.text_init.icon, "? ");
    assert_eq!(list.text_init.text, "Choose an option: ");
    assert_eq!(list.text_final.icon, "√ ");
    assert_eq!(list.text_final.text, "Option selected: ");
    assert!(list.needs_key());
}

#[test]
fn enter_selects_the_option_under_the_cursor() {
    let mut list = SingleSelectList::new(options(&["a", "b", "None"]));
    list.handle_key(Key::Down);
    assert_eq!(list.local_state.current_option, Some("b".to_string()));
    assert!(!list.local_state.is_selected);
    list.handle_key(Key::Enter);
    assert!(list.local_state.is_selected);
    assert_eq!(list.local_state.offset, 1);
    assert_eq!(list.local_state.current_option, Some("b".to_string()));
    assert!(!list.needs_key());
    list.handle_key(Key::Down);
    assert_eq!(list.local_state.offset, 1);
}

#[test]
fn other_keys_leave_the_cursor() {
    let mut list = SingleSelectList::new(options(&["a", "b"]));
    for key in [Key::Left, Key::Right, Key::Backspace, Key::Char('x'), Key::Other] {
        list.handle_key(key);
        assert_eq!(list.local_state.offset, 0);
        assert!(!list.local_state.is_selected);
        assert_eq!(list.local_state.current_option, Some("a".to_string()));
    }
}

#[test]
fn a_list_without_options_keeps_still() {
    let mut list = SingleSelectList::new(Vec::new());
    list.handle_key(Key::Down);
    list.handle_key(Key::Up);
    assert_eq!(list.local_state.offset, 0);
    assert_eq!(list.local_state.current_option, None);
    list.handle_key(Key::Enter);
    assert!(list.local_state.is_selected);
    assert!(list.frame().is_empty());
}

#[test]
fn a_list_draws_its_options_and_then_its_answer() {
    let mut list = SingleSelectList::new(options(&["a", "None"]));
    list.add_text_init("? ", "Pick: ");
    list.add_text_final("√ ", "Picked: ");
    list.handle_key(Key::Down);
    assert_eq!(
        shown(&list.frame()),
        vec![
            vec![cell(Tone::Cyan, "? "), cell(Tone::Plain, "Pick: ")],
            vec![cell(Tone::Plain, "  "), cell(Tone::Plain, "a")],
            vec![cell(Tone::Cyan, "> "), cell(Tone::Cyan, "None")],
        ]
    );
    list.handle_key(Key::Enter);
    assert_eq!(
        shown(&list.frame()),
        vec![vec![
            cell(Tone::Green, "√ "),
            cell(Tone::Plain, "Picked: "),
            cell(Tone::DarkGrey, "None"),
        ]]
    );
    list.reset();
    assert_eq!(list.local_state.offset, 0);
    assert!(!list.local_state.is_selected);
    assert_eq!(list.local_state.current_option, None);
}

#[test]
fn a_text_input_takes_characters_backspace_and_enter() {
    let mut input = TextInput::new(Label::new("? ", "Name: "), Label::new("√ ", "Name: "));
    assert!(input.needs_key());
    input.handle_key(Key::Backspace);
    assert_eq!(input.local_state.input, "");
    input.handle_key(Key::Enter);
    assert!(input.local_state.complete_input);
    assert!(!input.needs_key());
    input.handle_key(Key::Char('z'));
    assert_eq!(input.local_state.input, "");
    input.reopen();
    assert!(input.needs_key());
    for key in [Key::Char('a'), Key::Char('é'), Key::Char('c'), Key::Backspace, Key::Up, Key::Other] {
        input.handle_key(key);
    }
    assert_eq!(input.local_state.input, "aé");
    assert!(!input.local_state.complete_input);
    input.handle_key(Key::Enter);
    assert!(input.local_state.complete_input);
    assert!(!input.needs_key());
    input.handle_key(Key::Char('x'));
    input.handle_key(Key::Backspace);
    assert_eq!(input.local_state.input, "aé");
    input.reset();
    assert_eq!(input.local_state.input, "");
    assert!(!input.local_state.complete_input);
}

#[test]
fn a_text_input_draws_what_is_typed_unless_hidden() {
    let mut input = TextInput::new(Label::new("? ", "Name: "), Label::new("√ ", "Done: "));
    input.handle_key(Key::Char('a'));
    assert_eq!(
        shown(&input.frame()),
        vec![vec![cell(Tone::Cyan, "? "), cell(Tone::Plain, "Name: "), cell(Tone::DarkGrey, "a")]]
    );
    input.hidden(true);
    assert!(input.local_state.is_hidden);
    assert_eq!(
        shown(&input.frame()),
        vec![vec![cell(Tone::Cyan, "? "), cell(Tone::Plain, "Name: ")]]
    );
    input.handle_key(Key::Enter);
    assert_eq!(
        shown(&input.frame()),
        vec![vec![cell(Tone::Green, "√ "), cell(Tone::Plain, "Done: "), cell(Tone::DarkGrey, "a")]]
    );
}

#[test]
fn a_message_draws_its_text() {
    let mut text = StaticText::new("Removing...");
    text.push_str("\nProject removed!");
    assert_eq!(
        shown(&text.frame()),
        vec![vec![cell(Tone::Plain, "Removing...\nProject removed!")]]
    );
    text.set_text("again");
    assert_eq!(text.local_state.text, "again");
}

fn checklist() -> CheckList {
    let mut done = Todo::new("Run");
    done.change_icon(TodoState::Completed);
    CheckList::new(vec![Todo::new("Buy milk"), done, Todo::new("Read")])
}

#[test]
fn a_checklist_starts_on_its_first_todo() {
    let list = checklist();
    assert_eq!(list.label.icon, "? ");
    assert_eq!(list.label.text, "Change the todos: ");
    assert_eq!(list.local_state.offset, 0);
    assert_eq!(list.local_state.length, 3);
    assert_eq!(list.local_state.current_option, None);
    assert!(!list.local_state.is_selected);
    assert!(list.needs_key());
}

#[test]
fn next_and_prev_wrap_and_record_the_description() {
    let mut list = checklist();
    list.prev();
    assert_eq!(list.local_state.offset, 2);
    assert_eq!(list.local_state.current_option, Some("Read".to_string()));
    list.next();
    assert_eq!(list.local_state.offset, 0);
    assert_eq!(list.local_state.current_option, Some("Buy milk".to_string()));
    list.next();
    assert_eq!(list.local_state.offset, 1);
    assert_eq!(list.local_state.current_option, Some("Run".to_string()));
    let mut empty = CheckList::new(Vec::new());
    empty.next();
    empty.prev();
    assert_eq!(empty.local_state.offset, 0);
    assert_eq!(empty.local_state.current_option, None);
    assert!(empty.get_todo_mut().is_none());
    empty.toggle();
}

#[test]
fn left_and_right_flip_the_status_under_the_cursor() {
    let mut list = checklist();
    list.handle_key(Key::Right);
    assert_eq!(list.local_state.todos[0].status, TodoState::Completed);
    assert_eq!(list.local_state.todos[0].icon, "[x]");
    list.handle_key(Key::Left);
    assert_eq!(list.local_state.todos[0].status, TodoState::NoStarted);
    assert_eq!(list.local_state.todos[0].icon, "[ ]");
    list.handle_key(Key::Down);
    list.handle_key(Key::Left);
    assert_eq!(list.local_state.todos[1].status, TodoState::NoStarted);
    assert_eq!(list.local_state.todos[0].status, TodoState::NoStarted);
    assert_eq!(list.local_state.todos[2].status, TodoState::NoStarted);
}

#[test]
fn the_todo_under_the_cursor_can_be_changed_in_place() {
    let mut list = checklist();
    list.next();
    match list.get_todo_mut() {
        Some(todo) => {
            assert_eq!(todo.description, "Run");
            todo.change_icon(TodoState::NoStarted);
        }
        None => panic!("the cursor is on a todo"),
    }
    assert_eq!(list.local_state.todos[1].status, TodoState::NoStarted);
    list.local_state.offset = 9;
    assert!(list.get_todo_mut().is_none());
}

#[test]
fn a_confirmed_checklist_takes_no_key() {
    let mut list = checklist();
    list.handle_key(Key::Enter);
    assert!(list.local_state.is_selected);
    assert!(!list.needs_key());
    list.handle_key(Key::Down);
    list.handle_key(Key::Right);
    assert_eq!(list.local_state.offset, 0);
    assert_eq!(list.local_state.todos[0].status, TodoState::NoStarted);
}

#[test]
fn a_checklist_draws_its_todos_and_marks_the_cursor() {
    let mut list = checklist();
    list.handle_key(Key::Down);
    assert_eq!(
        shown(&list.frame()),
        vec![
            vec![cell(Tone::Cyan, "? "), cell(Tone::Plain, "Change the todos: ")],
            vec![cell(Tone::Plain, "  [ ] Buy milk")],
            vec![cell(Tone::Green, "> [x] Run")],
            vec![cell(Tone::Plain, "  [ ] Read")],
        ]
    );
    list.handle_key(Key::Enter);
    assert_eq!(
        shown(&list.frame()),
        vec![
            vec![cell(Tone::Cyan, "? "), cell(Tone::Plain, "Change the todos: ")],
            vec![cell(Tone::Plain, "  [ ] Buy milk")],
            vec![cell(Tone::Green, "  [x] Run")],
            vec![cell(Tone::Plain, "  [ ] Read")],
        ]
    );
    list.reset();
    assert!(!list.local_state.is_selected);
    assert_eq!(list.local_state.offset, 0);
    assert_eq!(list.local_state.todos[1].status, TodoState::Completed);
}

#[test]
fn plain_text_is_painted_as_it_is() {
    assert_eq!(paint(&styled(Tone::Plain, "abc")), "abc");
    assert_eq!(color_todo(&TodoState::NoStarted, "> [ ] Buy milk"), "> [ ] Buy milk");
    assert_eq!(
        paint_line(&vec![styled(Tone::Plain, "a"), styled(Tone::Plain, ""), styled(Tone::Plain, "bc")]),
        "abc"
    );
    assert_eq!(paint_line(&Vec::new()), "");
}

#[test]
fn tones_are_painted_by_the_terminal_library() {
    assert_eq!(paint(&styled(Tone::Green, "abc")), format!("{}", "abc".green()));
    assert_eq!(paint(&styled(Tone::Cyan, "abc")), format!("{}", "abc".cyan()));
    assert_eq!(paint(&styled(Tone::DarkGrey, "abc")), format!("{}", "abc".dark_grey()));
    assert_eq!(paint(&styled(Tone::CyanBold, "abc")), format!("{}", "abc".cyan().bold()));
    assert_eq!(color_todo(&TodoState::Completed, "abc"), format!("{}", "abc".green()));
    assert_ne!(color_todo(&TodoState::Completed, "abc"), "abc");
    for tone in [Tone::Green, Tone::Cyan, Tone::DarkGrey, Tone::CyanBold] {
        assert_ne!(paint(&styled(tone, "abc")), "abc");
        assert!(paint(&styled(tone, "abc")).contains("abc"));
    }
    assert!(color_todo(&TodoState::Completed, "abc").contains("abc"));
}
