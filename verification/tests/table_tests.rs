use flow::todo::todo_utils::{count_chars, fill_text, table};

fn row(cells: &[&str]) -> Vec<String> {
    cells.iter().map(|c| c.to_string()).collect()
}

#[test]
fn counts_characters_not_bytes() {
    assert_eq!(count_chars(""), 0);
    assert_eq!(count_chars("abc"), 3);
    assert_eq!(count_chars("héllo"), 5);
    assert_eq!(count_chars("←/→"), 3);
}

#[test]
fn fills_with_spaces() {
    assert_eq!(fill_text("ab", 3), "ab   ");
    assert_eq!(fill_text("", 2), "  ");
    assert_eq!(fill_text("ab", 1), "ab ");
}

#[test]
fn does_not_fill_for_zero_or_less() {
    assert_eq!(fill_text("ab", 0), "ab");
    assert_eq!(fill_text("ab", -2), "ab");
    assert_eq!(fill_text("ab", i32::MIN), "ab");
}

#[test]
fn pads_every_column_to_its_widest_cell() {
    let out = table(
        vec![row(&["[ ]", "Buy milk", "Not started"]), row(&["[x]", "Run", "Completed"])],
        row(&["Icon", "Todo", "Status"]),
    );
    assert_eq!(
        out,
        vec![
            row(&["Icon", "Todo    ", "Status     "]),
            row(&["[ ] ", "Buy milk", "Not started"]),
            row(&["[x] ", "Run     ", "Completed  "]),
        ]
    );
}

#[test]
fn headers_come_first_even_without_a_body() {
    assert_eq!(table(Vec::new(), row(&["a", "bcd"])), vec![row(&["a", "bcd"])]);
    assert_eq!(table(Vec::new(), Vec::new()), vec![Vec::<String>::new()]);
}

#[test]
fn rows_may_differ_in_length() {
    let out = table(vec![row(&["1"]), row(&["22", "333", "4"])], row(&["a", "b"]));
    assert_eq!(
        out,
        vec![row(&["a ", "b  "]), row(&["1 "]), row(&["22", "333", "4"])]
    );
}

#[test]
fn widths_count_characters() {
    let out = table(vec![row(&["é"]), row(&["abc"])], row(&["←→"]));
    assert_eq!(out, vec![row(&["←→ "]), row(&["é  "]), row(&["abc"])]);
}
