//! The widgets of a wizard that take text or a choice, or show a message.
//!
//! A widget owns its local state. It says what it draws as a frame of styled
//! lines, whether it waits for a key, and how a key changes its state.

use vstd::prelude::*;
use vstd::arithmetic::div_mod::{
    lemma_add_mod_noop_right, lemma_mod_add_multiples_vanish, lemma_mod_bound, lemma_mod_self_0,
    lemma_small_mod,
};
use crate::style::{frame_view, line_view, span, styled, Span, SpanView, Tone};
use crate::text::views;

verus! {

/// `String::pop` removes the last character and returns it, or returns
/// `None` and leaves the string alone where the string is empty.
pub assume_specification[ String::pop ](s: &mut String) -> (c: Option<char>)
    ensures
        old(s)@.len() == 0 ==> c.is_none() && final(s)@ == old(s)@,
        old(s)@.len() > 0 ==> c == Some(old(s)@.last()) && final(s)@ == old(s)@.drop_last(),
;

/// The mark in front of a question: cli_printer's `ICON_QUESTION`.
#[verifier::external_body]
pub(crate) fn icon_question() -> (icon: &'static str)
    ensures
        icon@ == "? "@,
{
    cli_printer::styles::ICON_QUESTION
}

/// The mark in front of an answer: cli_printer's `ICON_CHECK`.
#[verifier::external_body]
pub(crate) fn icon_check() -> (icon: &'static str)
    ensures
        icon@ == "√ "@,
{
    cli_printer::styles::ICON_CHECK
}

/// One key press.
#[derive(Debug, Clone, Copy, PartialEq, Eq, Structural)]
pub enum Key {
    Up,
    Down,
    Left,
    Right,
    Enter,
    Backspace,
    Char(char),
    /// Any other key: no widget reacts to it.
    Other,
}

/// An icon and the label behind it.
#[derive(Debug)]
pub struct Label {
    pub icon: String,
    pub text: String,
}

/// `Label` as plain values.
pub struct LabelView {
    pub icon: Seq<char>,
    pub text: Seq<char>,
}

impl View for Label {
    type V = LabelView;

    open spec fn view(&self) -> LabelView {
        LabelView { icon: self.icon@, text: self.text@ }
    }
}

impl Label {
    /// A label of `icon` and `text`.
    pub fn new(icon: &str, text: &str) -> (l: Label)
        ensures
            l@ == (LabelView { icon: icon@, text: text@ }),
    {
        Label { icon: icon.to_owned(), text: text.to_owned() }
    }
}

/// The cursor after one step down a list of `n` items: one further, and
/// from the last item back to the first.
pub open spec fn cursor_down(offset: int, n: int) -> int {
    if n > 0 {
        (offset + 1) % n
    } else {
        0
    }
}

/// The cursor after one step up a list of `n` items: one back, and from the
/// first item on to the last.
pub open spec fn cursor_up(offset: int, n: int) -> int {
    if n > 0 {
        (offset - 1 + n) % n
    } else {
        0
    }
}

/// The cursor after `times` steps down.
pub open spec fn down_times(offset: int, n: int, times: nat) -> int
    decreases times,
{
    if times == 0 {
        offset
    } else {
        cursor_down(down_times(offset, n, (times - 1) as nat), n)
    }
}

/// The cursor after `times` steps up.
pub open spec fn up_times(offset: int, n: int, times: nat) -> int
    decreases times,
{
    if times == 0 {
        offset
    } else {
        cursor_up(up_times(offset, n, (times - 1) as nat), n)
    }
}

proof fn lemma_down_times(offset: int, n: int, times: nat)
    requires
        n > 0,
        times > 0,
    ensures
        down_times(offset, n, times) == (offset + times) % n,
    decreases times,
{
    let before = down_times(offset, n, (times - 1) as nat);
    assert(down_times(offset, n, times) == (before + 1) % n);
    if times > 1 {
        lemma_down_times(offset, n, (times - 1) as nat);
        let x = offset + times - 1;
        assert(before == x % n);
        lemma_add_mod_noop_right(1, x, n);
        assert((1 + (x % n)) % n == (1 + x) % n);
    } else {
        assert(before == offset);
    }
}

proof fn lemma_up_times(offset: int, n: int, times: nat)
    requires
        n > 0,
        times > 0,
    ensures
        up_times(offset, n, times) == (offset - times) % n,
    decreases times,
{
    let before = up_times(offset, n, (times - 1) as nat);
    assert(up_times(offset, n, times) == (before - 1 + n) % n);
    let x = offset - times + 1;
    if times > 1 {
        lemma_up_times(offset, n, (times - 1) as nat);
        assert(before == x % n);
    } else {
        assert(before == offset);
        assert(x == offset);
    }
    lemma_add_mod_noop_right(n - 1, x, n);
    assert(((n - 1) + (x % n)) % n == ((n - 1) + x) % n);
    lemma_mod_add_multiples_vanish(offset - times, n);
    assert((n + (offset - times)) % n == (offset - times) % n);
    if times == 1 {
        lemma_mod_add_multiples_vanish(offset - 1, n);
    }
}

/// In a list of `n` items, `n` steps down bring the cursor back to where it
/// was, and so do `n` steps up.
pub proof fn lemma_cursor_full_turn(offset: int, n: int)
    requires
        0 <= offset < n,
    ensures
        down_times(offset, n, n as nat) == offset,
        up_times(offset, n, n as nat) == offset,
{
    lemma_down_times(offset, n, n as nat);
    lemma_up_times(offset, n, n as nat);
    lemma_mod_add_multiples_vanish(offset, n);
    lemma_mod_add_multiples_vanish(offset - n, n);
    lemma_small_mod(offset as nat, n as nat);
}

/// One step down a list of `n` items.
pub fn move_down(offset: usize, n: usize) -> (r: usize)
    ensures
        r == cursor_down(offset as int, n as int),
        n > 0 ==> r < n,
{
    if n == 0 {
        return 0;
    }
    let at = offset % n;
    proof {
        lemma_add_mod_noop_right(1, offset as int, n as int);
        lemma_mod_bound(offset as int, n as int);
    }
    if at + 1 >= n {
        proof {
            lemma_mod_self_0(n as int);
        }
        0
    } else {
        proof {
            lemma_small_mod((at + 1) as nat, n as nat);
        }
        at + 1
    }
}

/// One step up a list of `n` items.
pub fn move_up(offset: usize, n: usize) -> (r: usize)
    ensures
        r == cursor_up(offset as int, n as int),
        n > 0 ==> r < n,
{
    if n == 0 {
        return 0;
    }
    let at = offset % n;
    proof {
        lemma_add_mod_noop_right(n - 1, offset as int, n as int);
        lemma_mod_bound(offset as int, n as int);
    }
    if at == 0 {
        proof {
            lemma_small_mod((n - 1) as nat, n as nat);
        }
        n - 1
    } else {
        proof {
            lemma_mod_add_multiples_vanish(at - 1, n as int);
            lemma_small_mod((at - 1) as nat, n as nat);
        }
        at - 1
    }
}

/// A line of one span.
pub(crate) fn line1(a: Span) -> (line: Vec<Span>)
    ensures
        line_view(line@) == seq![a@],
{
    let mut line: Vec<Span> = Vec::new();
    line.push(a);
    proof {
        assert(line_view(line@) =~= seq![a@]);
    }
    line
}

/// A line of two spans.
pub(crate) fn line2(a: Span, b: Span) -> (line: Vec<Span>)
    ensures
        line_view(line@) == seq![a@, b@],
{
    let mut line: Vec<Span> = Vec::new();
    line.push(a);
    line.push(b);
    proof {
        assert(line_view(line@) =~= seq![a@, b@]);
    }
    line
}

/// A line of three spans.
pub(crate) fn line3(a: Span, b: Span, c: Span) -> (line: Vec<Span>)
    ensures
        line_view(line@) == seq![a@, b@, c@],
{
    let mut line: Vec<Span> = Vec::new();
    line.push(a);
    line.push(b);
    line.push(c);
    proof {
        assert(line_view(line@) =~= seq![a@, b@, c@]);
    }
    line
}

/// What a text input holds.
#[derive(Debug)]
pub struct InputData {
    pub input: String,
    pub is_hidden: bool,
    pub complete_input: bool,
}

/// `InputData` as plain values.
pub struct InputDataView {
    pub input: Seq<char>,
    pub is_hidden: bool,
    pub complete_input: bool,
}

impl View for InputData {
    type V = InputDataView;

    open spec fn view(&self) -> InputDataView {
        InputDataView {
            input: self.input@,
            is_hidden: self.is_hidden,
            complete_input: self.complete_input,
        }
    }
}

/// A line of text that the user types and ends with Enter.
#[derive(Debug)]
pub struct TextInput {
    pub text_init: Label,
    pub text_final: Label,
    pub local_state: InputData,
}

/// `TextInput` as plain values.
pub struct TextInputView {
    pub text_init: LabelView,
    pub text_final: LabelView,
    pub local_state: InputDataView,
}

impl View for TextInput {
    type V = TextInputView;

    open spec fn view(&self) -> TextInputView {
        TextInputView {
            text_init: self.text_init@,
            text_final: self.text_final@,
            local_state: self.local_state@,
        }
    }
}

impl TextInputView {
    /// The input waits for a key until it is complete.
    pub open spec fn needs_key(self) -> bool {
        !self.local_state.complete_input
    }

    /// A character is added at the end, Backspace takes the last one away,
    /// and Enter completes the input. A complete input takes no key.
    pub open spec fn after_key(self, key: Key) -> TextInputView {
        let s = self.local_state;
        if s.complete_input {
            self
        } else {
            let next = match key {
                Key::Char(c) => InputDataView { input: s.input.push(c), ..s },
                Key::Backspace => InputDataView {
                    input: if s.input.len() > 0 {
                        s.input.drop_last()
                    } else {
                        s.input
                    },
                    ..s
                },
                Key::Enter => InputDataView { complete_input: true, ..s },
                _ => s,
            };
            TextInputView { local_state: next, ..self }
        }
    }

    /// The input open for keys again, with the text it has.
    pub open spec fn reopened(self) -> TextInputView {
        TextInputView {
            local_state: InputDataView { complete_input: false, ..self.local_state },
            ..self
        }
    }

    /// The state in which the input starts: empty and not complete.
    pub open spec fn reset(self) -> TextInputView {
        TextInputView {
            local_state: InputDataView {
                input: Seq::empty(),
                is_hidden: self.local_state.is_hidden,
                complete_input: false,
            },
            ..self
        }
    }

    /// One line: the label, and the text typed so far unless it is hidden;
    /// once complete, the final label and the text.
    pub open spec fn frame(self) -> Seq<Seq<SpanView>> {
        let s = self.local_state;
        if !s.complete_input {
            let head = seq![
                span(Tone::Cyan, self.text_init.icon),
                span(Tone::Plain, self.text_init.text),
            ];
            if s.is_hidden {
                seq![head]
            } else {
                seq![head.push(span(Tone::DarkGrey, s.input))]
            }
        } else {
            seq![
                seq![
                    span(Tone::Green, self.text_final.icon),
                    span(Tone::Plain, self.text_final.text),
                    span(Tone::DarkGrey, s.input),
                ],
            ]
        }
    }
}

impl TextInput {
    /// An empty input with the label `text_init` while the user types and
    /// `text_final` once the input is complete.
    pub fn new(text_init: Label, text_final: Label) -> (w: TextInput)
        ensures
            w@ == (TextInputView {
                text_init: text_init@,
                text_final: text_final@,
                local_state: InputDataView {
                    input: Seq::empty(),
                    is_hidden: false,
                    complete_input: false,
                },
            }),
            w@.reset() == w@,
    {
        TextInput {
            text_init,
            text_final,
            local_state: InputData {
                input: String::new(),
                is_hidden: false,
                complete_input: false,
            },
        }
    }

    /// Whether the text typed so far is kept off the screen.
    pub fn hidden(&mut self, hidden: bool)
        ensures
            final(self)@ == (TextInputView {
                local_state: InputDataView { is_hidden: hidden, ..old(self)@.local_state },
                ..old(self)@
            }),
    {
        self.local_state.is_hidden = hidden;
    }

    /// Whether the widget waits for a key.
    pub fn needs_key(&self) -> (b: bool)
        ensures
            b == self@.needs_key(),
    {
        !self.local_state.complete_input
    }

    /// Hands one key to the widget.
    pub fn handle_key(&mut self, key: Key)
        ensures
            final(self)@ == old(self)@.after_key(key),
    {
        if self.local_state.complete_input {
            return ;
        }
        match key {
            Key::Char(c) => {
                self.local_state.input.push(c);
            },
            Key::Backspace => {
                let _ = self.local_state.input.pop();
            },
            Key::Enter => {
                self.local_state.complete_input = true;
            },
            _ => {},
        }
    }

    /// Opens the input for keys again, with the text it has.
    pub fn reopen(&mut self)
        ensures
            final(self)@ == old(self)@.reopened(),
    {
        self.local_state.complete_input = false;
    }

    /// Puts the widget back into the local state in which it starts.
    pub fn reset(&mut self)
        ensures
            final(self)@ == old(self)@.reset(),
    {
        self.local_state.input = String::new();
        self.local_state.complete_input = false;
    }

    /// The lines that the widget draws.
    pub fn frame(&self) -> (out: Vec<Vec<Span>>)
        ensures
            frame_view(out@) == self@.frame(),
    {
        let mut out: Vec<Vec<Span>> = Vec::new();
        let line = if !self.local_state.complete_input {
            let mut head = line2(
                styled(Tone::Cyan, self.text_init.icon.as_str()),
                styled(Tone::Plain, self.text_init.text.as_str()),
            );
            if !self.local_state.is_hidden {
                let ghost before = line_view(head@);
                let typed = styled(Tone::DarkGrey, self.local_state.input.as_str());
                head.push(typed);
                proof {
                    assert(line_view(head@) =~= before.push(typed@));
                }
            }
            head
        } else {
            line3(
                styled(Tone::Green, self.text_final.icon.as_str()),
                styled(Tone::Plain, self.text_final.text.as_str()),
                styled(Tone::DarkGrey, self.local_state.input.as_str()),
            )
        };
        out.push(line);
        proof {
            assert(frame_view(out@) =~= seq![line_view(line@)]);
        }
        out
    }
}

/// What a list holds of the user's choice.
#[derive(Debug)]
pub struct ListSelectedData {
    pub is_selected: bool,
    pub offset: usize,
    pub current_option: Option<String>,
    pub length: usize,
}

/// `ListSelectedData` as plain values.
pub struct ListSelectedDataView {
    pub is_selected: bool,
    pub offset: nat,
    pub current_option: Option<Seq<char>>,
    pub length: nat,
}

/// An optional string as plain values.
pub open spec fn option_view(o: Option<String>) -> Option<Seq<char>> {
    match o {
        Some(s) => Some(s@),
        None => None,
    }
}

impl View for ListSelectedData {
    type V = ListSelectedDataView;

    open spec fn view(&self) -> ListSelectedDataView {
        ListSelectedDataView {
            is_selected: self.is_selected,
            offset: self.offset as nat,
            current_option: option_view(self.current_option),
            length: self.length as nat,
        }
    }
}

/// A list of options of which the user picks one. By convention the last
/// option stands for "none of these".
#[derive(Debug)]
pub struct SingleSelectList {
    pub options: Vec<String>,
    pub text_init: Label,
    pub text_final: Label,
    pub local_state: ListSelectedData,
}

/// `SingleSelectList` as plain values.
pub struct SingleSelectListView {
    pub options: Seq<Seq<char>>,
    pub text_init: LabelView,
    pub text_final: LabelView,
    pub local_state: ListSelectedDataView,
}

impl View for SingleSelectList {
    type V = SingleSelectListView;

    open spec fn view(&self) -> SingleSelectListView {
        SingleSelectListView {
            options: views(self.options@),
            text_init: self.text_init@,
            text_final: self.text_final@,
            local_state: self.local_state@,
        }
    }
}

/// The item under the cursor, if the cursor is on one.
pub open spec fn item_at(items: Seq<Seq<char>>, offset: int) -> Option<Seq<char>> {
    if 0 <= offset < items.len() {
        Some(items[offset])
    } else {
        None
    }
}

/// The line of one option: marked and coloured under the cursor.
pub open spec fn option_line(option: Seq<char>, at_cursor: bool) -> Seq<SpanView> {
    if at_cursor {
        seq![span(Tone::Cyan, "> "@), span(Tone::Cyan, option)]
    } else {
        seq![span(Tone::Plain, "  "@), span(Tone::Plain, option)]
    }
}

impl SingleSelectListView {
    /// The list waits for a key until an option is selected.
    pub open spec fn needs_key(self) -> bool {
        !self.local_state.is_selected
    }

    /// Whether the cursor is on an option and the length is that of the list.
    pub open spec fn wf(self) -> bool {
        &&& self.local_state.length == self.options.len()
        &&& self.local_state.offset < self.options.len()
    }

    /// Up and Down move the cursor and wrap around; Enter selects the
    /// option under the cursor. Every key records the option under the
    /// cursor. A list with a selection takes no key.
    pub open spec fn after_key(self, key: Key) -> SingleSelectListView {
        let s = self.local_state;
        let n = self.options.len() as int;
        if s.is_selected {
            self
        } else {
            let offset = match key {
                Key::Down => cursor_down(s.offset as int, n),
                Key::Up => cursor_up(s.offset as int, n),
                _ => s.offset as int,
            };
            SingleSelectListView {
                local_state: ListSelectedDataView {
                    is_selected: key == Key::Enter,
                    offset: offset as nat,
                    current_option: item_at(self.options, offset),
                    length: s.length,
                },
                ..self
            }
        }
    }

    /// The list after `times` presses of `key`.
    pub open spec fn after_keys(self, key: Key, times: nat) -> SingleSelectListView
        decreases times,
    {
        if times == 0 {
            self
        } else {
            self.after_keys(key, (times - 1) as nat).after_key(key)
        }
    }

    /// The state in which the list starts: the cursor on the first option,
    /// nothing selected.
    pub open spec fn reset(self) -> SingleSelectListView {
        SingleSelectListView {
            local_state: ListSelectedDataView {
                is_selected: false,
                offset: 0,
                current_option: None,
                length: self.options.len(),
            },
            ..self
        }
    }

    /// While nothing is selected: the label, then one line per option.
    /// After that: one line with the final label and the selected option.
    pub open spec fn frame(self) -> Seq<Seq<SpanView>> {
        let s = self.local_state;
        if !s.is_selected {
            seq![seq![span(Tone::Cyan, self.text_init.icon), span(Tone::Plain, self.text_init.text)]]
                + Seq::new(
                self.options.len(),
                |i: int| option_line(self.options[i], i == s.offset),
            )
        } else if s.offset < self.options.len() {
            seq![
                seq![
                    span(Tone::Green, self.text_final.icon),
                    span(Tone::Plain, self.text_final.text),
                    span(Tone::DarkGrey, self.options[s.offset as int]),
                ],
            ]
        } else {
            Seq::empty()
        }
    }
}

proof fn lemma_list_after_keys(v: SingleSelectListView, key: Key, times: nat)
    requires
        !v.local_state.is_selected,
        key == Key::Down || key == Key::Up,
        v.options.len() > 0,
    ensures
        !v.after_keys(key, times).local_state.is_selected,
        v.after_keys(key, times).options == v.options,
        v.after_keys(key, times).local_state.offset as int == (if key == Key::Down {
            down_times(v.local_state.offset as int, v.options.len() as int, times)
        } else {
            up_times(v.local_state.offset as int, v.options.len() as int, times)
        }),
    decreases times,
{
    if times > 0 {
        lemma_list_after_keys(v, key, (times - 1) as nat);
        let n = v.options.len() as int;
        let before = v.after_keys(key, (times - 1) as nat).local_state.offset as int;
        lemma_mod_bound(before + 1, n);
        lemma_mod_bound(before - 1 + n, n);
    }
}

/// In a list of `n` options with the cursor on one of them, `n` presses of
/// Down bring the cursor back to where it was, and so do `n` presses of Up.
pub proof fn lemma_list_full_turn(v: SingleSelectListView)
    requires
        !v.local_state.is_selected,
        v.local_state.offset < v.options.len(),
    ensures
        v.after_keys(Key::Down, v.options.len()).local_state.offset == v.local_state.offset,
        v.after_keys(Key::Up, v.options.len()).local_state.offset == v.local_state.offset,
{
    lemma_list_after_keys(v, Key::Down, v.options.len());
    lemma_list_after_keys(v, Key::Up, v.options.len());
    lemma_cursor_full_turn(v.local_state.offset as int, v.options.len() as int);
}

impl SingleSelectList {
    /// A list of `options` with the cursor on the first and the standard labels.
    pub fn new(options: Vec<String>) -> (w: SingleSelectList)
        ensures
            w@.options == views(options@),
            w@.text_init == (LabelView { icon: "? "@, text: "Choose an option: "@ }),
            w@.text_final == (LabelView { icon: "√ "@, text: "Option selected: "@ }),
            w@.reset() == w@,
    {
        let length = options.len();
        SingleSelectList {
            options,
            text_init: Label::new(icon_question(), "Choose an option: "),
            text_final: Label::new(icon_check(), "Option selected: "),
            local_state: ListSelectedData {
                is_selected: false,
                offset: 0,
                current_option: None,
                length,
            },
        }
    }

    /// Sets the label shown while the user chooses.
    pub fn add_text_init(&mut self, icon: &str, label: &str)
        ensures
            final(self)@ == (SingleSelectListView {
                text_init: LabelView { icon: icon@, text: label@ },
                ..old(self)@
            }),
    {
        self.text_init = Label::new(icon, label);
    }

    /// Sets the label shown in front of the selected option.
    pub fn add_text_final(&mut self, icon: &str, label: &str)
        ensures
            final(self)@ == (SingleSelectListView {
                text_final: LabelView { icon: icon@, text: label@ },
                ..old(self)@
            }),
    {
        self.text_final = Label::new(icon, label);
    }

    /// Whether the widget waits for a key.
    pub fn needs_key(&self) -> (b: bool)
        ensures
            b == self@.needs_key(),
    {
        !self.local_state.is_selected
    }

    /// Hands one key to the widget.
    pub fn handle_key(&mut self, key: Key)
        ensures
            final(self)@ == old(self)@.after_key(key),
    {
        if self.local_state.is_selected {
            return ;
        }
        let n = self.options.len();
        let offset = match key {
            Key::Down => move_down(self.local_state.offset, n),
            Key::Up => move_up(self.local_state.offset, n),
            _ => self.local_state.offset,
        };
        self.local_state.offset = offset;
        self.local_state.is_selected = key == Key::Enter;
        self.local_state.current_option = if offset < n {
            proof {
                assert(views(self.options@)[offset as int] == self.options@[offset as int]@);
            }
            Some(self.options[offset].clone())
        } else {
            None
        };
    }

    /// Puts the widget back into the local state in which it starts.
    pub fn reset(&mut self)
        ensures
            final(self)@ == old(self)@.reset(),
    {
        self.local_state = ListSelectedData {
            is_selected: false,
            offset: 0,
            current_option: None,
            length: self.options.len(),
        };
    }

    /// The lines that the widget draws.
    pub fn frame(&self) -> (out: Vec<Vec<Span>>)
        ensures
            frame_view(out@) == self@.frame(),
    {
        let mut out: Vec<Vec<Span>> = Vec::new();
        let n = self.options.len();
        let offset = self.local_state.offset;
        if !self.local_state.is_selected {
            let head = line2(
                styled(Tone::Cyan, self.text_init.icon.as_str()),
                styled(Tone::Plain, self.text_init.text.as_str()),
            );
            out.push(head);
            let mut i: usize = 0;
            while i < n
                invariant
                    i <= n,
                    n == self.options.len(),
                    offset == self.local_state.offset,
                    out.len() == i + 1,
                    out[0] == head,
                    forall|k: int|
                        0 <= k < i ==> line_view((#[trigger] out[k + 1])@) == option_line(
                            self.options[k]@,
                            k == offset,
                        ),
                decreases n - i,
            {
                let option = self.options[i].as_str();
                let line = if i == offset {
                    line2(styled(Tone::Cyan, "> "), styled(Tone::Cyan, option))
                } else {
                    line2(styled(Tone::Plain, "  "), styled(Tone::Plain, option))
                };
                out.push(line);
                i += 1;
            }
            proof {
                let want = self@.frame();
                assert(frame_view(out@).len() == want.len());
                assert forall|k: int| 0 <= k < want.len() implies frame_view(out@)[k] == want[k] by {
                    if k > 0 {
                        assert(line_view(out[(k - 1) + 1]@) == option_line(
                            self.options[k - 1]@,
                            k - 1 == offset,
                        ));
                        assert(views(self.options@)[k - 1] == self.options[k - 1]@);
                    }
                }
                assert(frame_view(out@) =~= want);
            }
        } else if offset < n {
            let line = line3(
                styled(Tone::Green, self.text_final.icon.as_str()),
                styled(Tone::Plain, self.text_final.text.as_str()),
                styled(Tone::DarkGrey, self.options[offset].as_str()),
            );
            out.push(line);
            proof {
                assert(views(self.options@)[offset as int] == self.options@[offset as int]@);
                assert(frame_view(out@) =~= seq![line_view(line@)]);
            }
        } else {
            proof {
                assert(frame_view(out@) =~= Seq::<Seq<SpanView>>::empty());
            }
        }
        out
    }
}

/// What a message holds.
#[derive(Debug)]
pub struct TextBlockData {
    pub text: String,
}

/// A message. It takes no key.
#[derive(Debug)]
pub struct StaticText {
    pub local_state: TextBlockData,
}

/// `StaticText` as plain values.
pub struct StaticTextView {
    pub text: Seq<char>,
}

impl View for StaticText {
    type V = StaticTextView;

    open spec fn view(&self) -> StaticTextView {
        StaticTextView { text: self.local_state.text@ }
    }
}

impl StaticTextView {
    /// One line with the text as it is.
    pub open spec fn frame(self) -> Seq<Seq<SpanView>> {
        seq![seq![span(Tone::Plain, self.text)]]
    }
}

impl StaticText {
    /// A message of `text`.
    pub fn new(text: &str) -> (w: StaticText)
        ensures
            w@.text == text@,
    {
        StaticText { local_state: TextBlockData { text: text.to_owned() } }
    }

    /// Adds `more` at the end of the message.
    pub fn push_str(&mut self, more: &str)
        ensures
            final(self)@.text == old(self)@.text + more@,
    {
        self.local_state.text.append(more);
    }

    /// Replaces the message.
    pub fn set_text(&mut self, text: &str)
        ensures
            final(self)@.text == text@,
    {
        self.local_state.text = text.to_owned();
    }

    /// The lines that the widget draws.
    pub fn frame(&self) -> (out: Vec<Vec<Span>>)
        ensures
            frame_view(out@) == self@.frame(),
    {
        let mut out: Vec<Vec<Span>> = Vec::new();
        let line = line1(styled(Tone::Plain, self.local_state.text.as_str()));
        out.push(line);
        proof {
            assert(frame_view(out@) =~= seq![line_view(line@)]);
        }
        out
    }
}

} // verus!
