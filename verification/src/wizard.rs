//! The sequencer of a wizard: an ordered list of widgets, one of them active,
//! and one context that the hooks of all of them share.
//!
//! The sequencer draws nothing and reads nothing. Its caller runs the loop:
//! `prepare` asks the hook that stands before the active widget whether the
//! widget is shown; the caller draws the screen and reads a key; `input`
//! hands the key to the widget and says what outside work the step asks
//! for; `conclude` hands the outcome of that work to the hook that stands
//! after the widget, and applies the action that the hook decides on.

use vstd::prelude::*;
use vstd::string::StringExecFns;
use crate::custom_widgets::{CheckList, CheckListView};
use crate::style::{frame_view, Span, SpanView};
use crate::text::views;
use crate::widgets::{
    icon_check, icon_question, InputDataView, Key, Label, LabelView, ListSelectedDataView,
    SingleSelectList, SingleSelectListView, StaticText, StaticTextView, TextInput, TextInputView,
};

verus! {

/// What the hook after a widget decides.
#[derive(Debug, Clone, Copy, PartialEq, Eq, Structural)]
pub enum Action {
    /// Go on with the next widget.
    Advance,
    /// Stay with this widget and keep its state.
    Retry,
    /// End the whole run here.
    Cancel,
}

/// What the hook before a widget decides.
#[derive(Debug, Clone, Copy, PartialEq, Eq, Structural)]
pub enum RenderGate {
    /// Draw the widget and let it take a key.
    Show,
    /// Pass over the widget as if it had completed.
    Skip,
}

/// Where the sequencer stands with its active widget.
#[derive(Debug, Clone, Copy, PartialEq, Eq, Structural)]
pub enum Stage {
    /// The hook before the widget has not run for this frame.
    Ready,
    /// The widget is to be drawn; a key is awaited.
    Drawn,
    /// The key is in; the outcome of the outside work is awaited.
    Working,
    /// A hook has cancelled the run.
    Cancelled,
}

/// What `prepare` tells the caller to do next.
#[derive(Debug, Clone, Copy, PartialEq, Eq, Structural)]
pub enum Request {
    /// Draw the screen, read a key if one is needed, and call `input`.
    Draw { needs_key: bool },
    /// The widget was passed over: nothing to draw, nothing to read.
    Skipped,
    /// An outcome is awaited: call `conclude`.
    Busy,
    /// The run is over.
    Finished,
}

/// How a run ended.
#[derive(Debug, Clone, Copy, PartialEq, Eq, Structural)]
pub enum Ending {
    AllAdvanced,
    Cancelled,
}

/// Work outside the library that a step asks its caller to do.
#[derive(Debug, PartialEq, Eq)]
pub enum Effect {
    /// Replace the text of the project store.
    WriteProjects { content: String },
    /// Delete a directory and all that is in it.
    RemoveFolder { path: String },
    /// Open a directory in the editor.
    OpenEditor { path: String },
    /// Replace the text of the todo store.
    WriteTodos { content: String },
}

/// `Effect` as plain values.
pub enum EffectView {
    WriteProjects { content: Seq<char> },
    RemoveFolder { path: Seq<char> },
    OpenEditor { path: Seq<char> },
    WriteTodos { content: Seq<char> },
}

impl View for Effect {
    type V = EffectView;

    open spec fn view(&self) -> EffectView {
        match *self {
            Effect::WriteProjects { content } => EffectView::WriteProjects { content: content@ },
            Effect::RemoveFolder { path } => EffectView::RemoveFolder { path: path@ },
            Effect::OpenEditor { path } => EffectView::OpenEditor { path: path@ },
            Effect::WriteTodos { content } => EffectView::WriteTodos { content: content@ },
        }
    }
}

/// How the outside work of a step went.
#[derive(Debug, PartialEq, Eq)]
pub enum Outcome {
    /// The step asked for no work.
    Idle,
    /// The work was done.
    Done,
    /// The path to delete is no directory.
    NotAFolder,
    /// The work failed, with the message of the failure.
    Failed(String),
}

/// `Outcome` as plain values.
pub enum OutcomeView {
    Idle,
    Done,
    NotAFolder,
    Failed(Seq<char>),
}

impl View for Outcome {
    type V = OutcomeView;

    open spec fn view(&self) -> OutcomeView {
        match *self {
            Outcome::Idle => OutcomeView::Idle,
            Outcome::Done => OutcomeView::Done,
            Outcome::NotAFolder => OutcomeView::NotAFolder,
            Outcome::Failed(message) => OutcomeView::Failed(message@),
        }
    }
}

/// An optional effect as plain values.
pub open spec fn effect_view(e: Option<Effect>) -> Option<EffectView> {
    match e {
        Some(e) => Some(e@),
        None => None,
    }
}

/// One step of a wizard.
#[derive(Debug)]
pub enum Widget {
    Input(TextInput),
    List(SingleSelectList),
    Check(CheckList),
    Text(StaticText),
}

/// `Widget` as plain values.
pub enum WidgetView {
    Input(TextInputView),
    List(SingleSelectListView),
    Check(CheckListView),
    Text(StaticTextView),
}

impl View for Widget {
    type V = WidgetView;

    open spec fn view(&self) -> WidgetView {
        match *self {
            Widget::Input(w) => WidgetView::Input(w@),
            Widget::List(w) => WidgetView::List(w@),
            Widget::Check(w) => WidgetView::Check(w@),
            Widget::Text(w) => WidgetView::Text(w@),
        }
    }
}

impl WidgetView {
    /// Whether the widget waits for a key. A message never does.
    pub open spec fn needs_key(self) -> bool {
        match self {
            WidgetView::Input(w) => w.needs_key(),
            WidgetView::List(w) => w.needs_key(),
            WidgetView::Check(w) => w.needs_key(),
            WidgetView::Text(_) => false,
        }
    }

    /// The widget after a key.
    pub open spec fn after_key(self, key: Key) -> WidgetView {
        match self {
            WidgetView::Input(w) => WidgetView::Input(w.after_key(key)),
            WidgetView::List(w) => WidgetView::List(w.after_key(key)),
            WidgetView::Check(w) => WidgetView::Check(w.after_key(key)),
            WidgetView::Text(w) => WidgetView::Text(w),
        }
    }

    /// The widget in the local state in which it starts.
    pub open spec fn reset(self) -> WidgetView {
        match self {
            WidgetView::Input(w) => WidgetView::Input(w.reset()),
            WidgetView::List(w) => WidgetView::List(w.reset()),
            WidgetView::Check(w) => WidgetView::Check(w.reset()),
            WidgetView::Text(w) => WidgetView::Text(w),
        }
    }

    /// What the widget draws.
    pub open spec fn frame(self) -> Seq<Seq<SpanView>> {
        match self {
            WidgetView::Input(w) => w.frame(),
            WidgetView::List(w) => w.frame(),
            WidgetView::Check(w) => w.frame(),
            WidgetView::Text(w) => w.frame(),
        }
    }
}

impl Widget {
    /// Whether the widget waits for a key.
    pub fn needs_key(&self) -> (b: bool)
        ensures
            b == self@.needs_key(),
    {
        match self {
            Widget::Input(w) => w.needs_key(),
            Widget::List(w) => w.needs_key(),
            Widget::Check(w) => w.needs_key(),
            Widget::Text(_) => false,
        }
    }

    /// Hands one key to the widget.
    pub fn handle_key(&mut self, key: Key)
        ensures
            final(self)@ == old(self)@.after_key(key),
    {
        match self {
            Widget::Input(w) => w.handle_key(key),
            Widget::List(w) => w.handle_key(key),
            Widget::Check(w) => w.handle_key(key),
            Widget::Text(_) => {},
        }
    }

    /// Puts the widget back into the local state in which it starts.
    pub fn reset(&mut self)
        ensures
            final(self)@ == old(self)@.reset(),
    {
        match self {
            Widget::Input(w) => w.reset(),
            Widget::List(w) => w.reset(),
            Widget::Check(w) => w.reset(),
            Widget::Text(_) => {},
        }
    }

    /// The lines that the widget draws.
    pub fn frame(&self) -> (out: Vec<Vec<Span>>)
        ensures
            frame_view(out@) == self@.frame(),
    {
        match self {
            Widget::Input(w) => w.frame(),
            Widget::List(w) => w.frame(),
            Widget::Check(w) => w.frame(),
            Widget::Text(w) => w.frame(),
        }
    }
}

/// The widget with `more` added to its message, if it is a message.
pub open spec fn noted(widget: WidgetView, more: Seq<char>) -> WidgetView {
    match widget {
        WidgetView::Text(t) => WidgetView::Text(StaticTextView { text: t.text + more }),
        _ => widget,
    }
}

/// The widget with `text` as its message, if it is a message.
pub open spec fn retold(widget: WidgetView, text: Seq<char>) -> WidgetView {
    match widget {
        WidgetView::Text(_) => WidgetView::Text(StaticTextView { text }),
        _ => widget,
    }
}

/// The line that a step adds to its message where its outside work did not
/// succeed: the message of the failure, or what went wrong in words.
pub open spec fn failure_note(outcome: OutcomeView) -> Seq<char> {
    match outcome {
        OutcomeView::Failed(message) => "\n"@ + message,
        OutcomeView::NotAFolder => "\nThe path is not a folder"@,
        _ => "\nUnexpected error ocurred"@,
    }
}

/// A list of `options` that asks with `ask` and answers with `answer`, both
/// behind the usual icons.
pub open spec fn picker(options: Seq<Seq<char>>, ask: Seq<char>, answer: Seq<char>) -> WidgetView {
    WidgetView::List(
        SingleSelectListView {
            options,
            text_init: LabelView { icon: "? "@, text: ask },
            text_final: LabelView { icon: "√ "@, text: answer },
            local_state: ListSelectedDataView {
                is_selected: false,
                offset: 0,
                current_option: None,
                length: options.len(),
            },
        },
    )
}

/// An empty text input that asks with `ask`, behind the usual icons.
pub open spec fn prompt(ask: Seq<char>) -> WidgetView {
    WidgetView::Input(
        TextInputView {
            text_init: LabelView { icon: "? "@, text: ask },
            text_final: LabelView { icon: "√ "@, text: ask },
            local_state: InputDataView {
                input: Seq::empty(),
                is_hidden: false,
                complete_input: false,
            },
        },
    )
}

/// A message.
pub open spec fn message(text: Seq<char>) -> WidgetView {
    WidgetView::Text(StaticTextView { text })
}

impl Widget {
    /// Adds `more` to the message, if the widget is a message.
    pub fn note(&mut self, more: &str)
        ensures
            final(self)@ == noted(old(self)@, more@),
    {
        match self {
            Widget::Text(t) => t.push_str(more),
            _ => {},
        }
    }

    /// Replaces the message, if the widget is a message.
    pub fn tell(&mut self, text: &str)
        ensures
            final(self)@ == retold(old(self)@, text@),
    {
        match self {
            Widget::Text(t) => t.set_text(text),
            _ => {},
        }
    }

    /// A list of `options` that asks with `ask` and answers with `answer`.
    pub fn picker(options: Vec<String>, ask: &str, answer: &str) -> (w: Widget)
        ensures
            w@ == picker(views(options@), ask@, answer@),
    {
        let mut list = SingleSelectList::new(options);
        list.add_text_init(icon_question(), ask);
        list.add_text_final(icon_check(), answer);
        proof {
            assert(list@.local_state == list@.reset().local_state);
        }
        Widget::List(list)
    }

    /// An empty text input that asks with `ask`.
    pub fn prompt(ask: &str) -> (w: Widget)
        ensures
            w@ == prompt(ask@),
    {
        Widget::Input(
            TextInput::new(Label::new(icon_question(), ask), Label::new(icon_check(), ask)),
        )
    }

    /// A message.
    pub fn message(text: &str) -> (w: Widget)
        ensures
            w@ == message(text@),
    {
        Widget::Text(StaticText::new(text))
    }
}

/// The line that a step adds to its message where its outside work did not
/// succeed.
pub fn failure_text(outcome: &Outcome) -> (note: String)
    ensures
        note@ == failure_note(outcome@),
{
    match outcome {
        Outcome::Failed(message) => {
            let mut note = "\n".to_owned();
            note.append(message.as_str());
            note
        },
        Outcome::NotAFolder => "\nThe path is not a folder".to_owned(),
        _ => "\nUnexpected error ocurred".to_owned(),
    }
}

/// The hooks of one wizard: for the widget at each index, what stands before
/// it and what stands after it. What a hook decides is a function of the
/// widget's local state, the shared context and, after the widget, the
/// outcome of the outside work. Only the hook after a widget changes the
/// context.
pub trait Hooks<C: View> {
    /// What the hook before the widget decides, and the widget as it leaves it.
    spec fn gate(&self, index: int, widget: WidgetView, context: C::V) -> (RenderGate, WidgetView);

    /// The outside work that the step asks for once the key is in.
    spec fn work(&self, index: int, widget: WidgetView, context: C::V) -> Option<EffectView>;

    /// What the hook after the widget decides, and the widget and the
    /// context as it leaves them.
    spec fn verdict(
        &self,
        index: int,
        widget: WidgetView,
        context: C::V,
        outcome: OutcomeView,
    ) -> (Action, WidgetView, C::V);

    fn before(&self, index: usize, widget: &mut Widget, context: &C) -> (g: RenderGate)
        ensures
            (g, final(widget)@) == self.gate(index as int, old(widget)@, context@),
    ;

    fn effect(&self, index: usize, widget: &Widget, context: &C) -> (e: Option<Effect>)
        ensures
            effect_view(e) == self.work(index as int, widget@, context@),
    ;

    fn after(&self, index: usize, widget: &mut Widget, context: &mut C, outcome: &Outcome) -> (a:
        Action)
        ensures
            (a, final(widget)@, final(context)@) == self.verdict(
                index as int,
                old(widget)@,
                old(context)@,
                outcome@,
            ),
    ;
}

/// Hooks that decide the same for every widget, ask for no outside work and
/// leave the widgets and the context as they are.
#[derive(Debug, Clone, Copy)]
pub struct Fixed {
    pub gate: RenderGate,
    pub action: Action,
}

impl<C: View> Hooks<C> for Fixed {
    open spec fn gate(&self, index: int, widget: WidgetView, context: C::V) -> (
        RenderGate,
        WidgetView,
    ) {
        (self.gate, widget)
    }

    open spec fn work(&self, index: int, widget: WidgetView, context: C::V) -> Option<EffectView> {
        None
    }

    open spec fn verdict(
        &self,
        index: int,
        widget: WidgetView,
        context: C::V,
        outcome: OutcomeView,
    ) -> (Action, WidgetView, C::V) {
        (self.action, widget, context)
    }

    fn before(&self, index: usize, widget: &mut Widget, context: &C) -> (g: RenderGate) {
        self.gate
    }

    fn effect(&self, index: usize, widget: &Widget, context: &C) -> (e: Option<Effect>) {
        None
    }

    fn after(&self, index: usize, widget: &mut Widget, context: &mut C, outcome: &Outcome) -> (a:
        Action) {
        self.action
    }
}

/// The widgets as plain values.
pub open spec fn widget_views(widgets: Seq<Widget>) -> Seq<WidgetView> {
    widgets.map_values(|w: Widget| w@)
}

/// The state of a run as plain values.
pub struct SequencerView<CV> {
    pub widgets: Seq<WidgetView>,
    pub index: nat,
    pub stage: Stage,
    pub context: CV,
}

impl<CV> SequencerView<CV> {
    /// Whether the run is over, and how.
    pub open spec fn ending(self) -> Option<Ending> {
        if self.stage == Stage::Cancelled {
            Some(Ending::Cancelled)
        } else if self.index >= self.widgets.len() {
            Some(Ending::AllAdvanced)
        } else {
            None
        }
    }

    /// The state with the next widget active, in the local state in which
    /// that widget starts.
    pub open spec fn advanced(self) -> SequencerView<CV> {
        let next = self.index + 1;
        SequencerView {
            widgets: if next < self.widgets.len() {
                self.widgets.update(next as int, self.widgets[next as int].reset())
            } else {
                self.widgets
            },
            index: next,
            stage: Stage::Ready,
            context: self.context,
        }
    }

    /// The widget at `i` as it is when it becomes active.
    pub open spec fn entering(self, i: int) -> WidgetView {
        if i == self.index {
            self.widgets[i]
        } else {
            self.widgets[i].reset()
        }
    }

    /// The lines of the widgets before `upto`, one widget after the other.
    pub open spec fn lines(self, upto: nat) -> Seq<Seq<SpanView>>
        decreases upto,
    {
        if upto == 0 || upto > self.widgets.len() {
            Seq::empty()
        } else {
            self.lines((upto - 1) as nat) + self.widgets[upto - 1].frame()
        }
    }

    /// What is on the screen: every widget up to the active one.
    pub open spec fn screen(self) -> Seq<Seq<SpanView>> {
        if self.index < self.widgets.len() {
            self.lines(self.index + 1)
        } else {
            self.lines(self.widgets.len())
        }
    }
}

/// The state after `prepare`, and what `prepare` returns.
pub open spec fn prepared<C: View, H: Hooks<C>>(hooks: &H, s: SequencerView<C::V>) -> (
    SequencerView<C::V>,
    Request,
) {
    if s.ending().is_some() {
        (s, Request::Finished)
    } else {
        let at = s.index as int;
        match s.stage {
            Stage::Ready => {
                let (gate, widget) = hooks.gate(at, s.widgets[at], s.context);
                let t = SequencerView { widgets: s.widgets.update(at, widget), ..s };
                match gate {
                    RenderGate::Skip => (t.advanced(), Request::Skipped),
                    RenderGate::Show => (
                        SequencerView { stage: Stage::Drawn, ..t },
                        Request::Draw { needs_key: widget.needs_key() },
                    ),
                }
            },
            Stage::Drawn => (s, Request::Draw { needs_key: s.widgets[at].needs_key() }),
            _ => (s, Request::Busy),
        }
    }
}

/// The state after `input`, and what `input` returns.
pub open spec fn fed<C: View, H: Hooks<C>>(
    hooks: &H,
    s: SequencerView<C::V>,
    key: Option<Key>,
) -> (SequencerView<C::V>, Option<EffectView>) {
    if s.ending().is_some() || s.stage != Stage::Drawn {
        (s, None)
    } else {
        let at = s.index as int;
        let widget = match key {
            Some(k) if s.widgets[at].needs_key() => s.widgets[at].after_key(k),
            _ => s.widgets[at],
        };
        (
            SequencerView { widgets: s.widgets.update(at, widget), stage: Stage::Working, ..s },
            hooks.work(at, widget, s.context),
        )
    }
}

/// The state after `conclude`, and what `conclude` returns.
pub open spec fn concluded<C: View, H: Hooks<C>>(
    hooks: &H,
    s: SequencerView<C::V>,
    outcome: OutcomeView,
) -> (SequencerView<C::V>, Option<Action>) {
    if s.ending().is_some() || s.stage != Stage::Working {
        (s, None)
    } else {
        let at = s.index as int;
        let (action, widget, context) = hooks.verdict(at, s.widgets[at], s.context, outcome);
        let t = SequencerView { widgets: s.widgets.update(at, widget), context, ..s };
        (
            match action {
                Action::Advance => t.advanced(),
                Action::Retry => SequencerView { stage: Stage::Ready, ..t },
                Action::Cancel => SequencerView { stage: Stage::Cancelled, ..t },
            },
            Some(action),
        )
    }
}

/// One call of the sequencer.
pub enum Call {
    Prepare,
    Input(Option<Key>),
    Conclude(OutcomeView),
}

/// The state after one call.
pub open spec fn called<C: View, H: Hooks<C>>(
    hooks: &H,
    s: SequencerView<C::V>,
    call: Call,
) -> SequencerView<C::V> {
    match call {
        Call::Prepare => prepared::<C, H>(hooks, s).0,
        Call::Input(key) => fed::<C, H>(hooks, s, key).0,
        Call::Conclude(outcome) => concluded::<C, H>(hooks, s, outcome).0,
    }
}

/// The state after the calls `calls`, in their order.
pub open spec fn run<C: View, H: Hooks<C>>(
    hooks: &H,
    s: SequencerView<C::V>,
    calls: Seq<Call>,
) -> SequencerView<C::V>
    decreases calls.len(),
{
    if calls.len() == 0 {
        s
    } else {
        called::<C, H>(hooks, run::<C, H>(hooks, s, calls.drop_last()), calls.last())
    }
}

/// The state after `n` calls of `prepare`.
pub open spec fn prepared_times<C: View, H: Hooks<C>>(
    hooks: &H,
    s: SequencerView<C::V>,
    n: nat,
) -> SequencerView<C::V>
    decreases n,
{
    if n == 0 {
        s
    } else {
        prepared::<C, H>(hooks, prepared_times::<C, H>(hooks, s, (n - 1) as nat)).0
    }
}

/// Whether the hook before every widget from the active one on says Skip,
/// for the widget as it is when it becomes active and the context as it is.
pub open spec fn all_skip<C: View, H: Hooks<C>>(hooks: &H, s: SequencerView<C::V>) -> bool {
    forall|i: int|
        s.index <= i < s.widgets.len() ==> (#[trigger] hooks.gate(i, s.entering(i), s.context)).0
            == RenderGate::Skip
}

proof fn lemma_skipped_prefix<C: View, H: Hooks<C>>(hooks: &H, s: SequencerView<C::V>, n: nat)
    requires
        s.stage == Stage::Ready,
        s.index + n <= s.widgets.len(),
        all_skip::<C, H>(hooks, s),
    ensures
        prepared_times::<C, H>(hooks, s, n).index == s.index + n,
        prepared_times::<C, H>(hooks, s, n).stage == Stage::Ready,
        prepared_times::<C, H>(hooks, s, n).context == s.context,
        prepared_times::<C, H>(hooks, s, n).widgets.len() == s.widgets.len(),
        forall|i: int|
            s.index + n < i < s.widgets.len() ==> prepared_times::<C, H>(hooks, s, n).widgets[i]
                == s.widgets[i],
        s.index + n < s.widgets.len() ==> prepared_times::<C, H>(hooks, s, n).widgets[(s.index
            + n) as int] == s.entering((s.index + n) as int),
        n > 0 ==> prepared::<C, H>(hooks, prepared_times::<C, H>(hooks, s, (n - 1) as nat)).1
            == Request::Skipped,
    decreases n,
{
    if n > 0 {
        lemma_skipped_prefix::<C, H>(hooks, s, (n - 1) as nat);
        let t = prepared_times::<C, H>(hooks, s, (n - 1) as nat);
        let at = t.index as int;
        assert(t.widgets[at] == s.entering(at));
        assert(hooks.gate(at, s.entering(at), s.context).0 == RenderGate::Skip);
    }
}

/// Where every hook before a widget says Skip, the run passes over all the
/// widgets. Each call of `prepare` answers Skipped, so nothing is drawn and
/// no key is read; after one call for each widget that is left, every
/// widget is advanced, and the context is what it was at the start.
pub proof fn lemma_all_skipped<C: View, H: Hooks<C>>(hooks: &H, s: SequencerView<C::V>)
    requires
        s.stage == Stage::Ready,
        s.index <= s.widgets.len(),
        all_skip::<C, H>(hooks, s),
    ensures
        prepared_times::<C, H>(hooks, s, (s.widgets.len() - s.index) as nat).ending() == Some(
            Ending::AllAdvanced,
        ),
        prepared_times::<C, H>(hooks, s, (s.widgets.len() - s.index) as nat).context == s.context,
        forall|k: nat|
            k < s.widgets.len() - s.index ==> (#[trigger] prepared::<C, H>(
                hooks,
                prepared_times::<C, H>(hooks, s, k),
            )).1 == Request::Skipped,
{
    let left = (s.widgets.len() - s.index) as nat;
    lemma_skipped_prefix::<C, H>(hooks, s, left);
    assert forall|k: nat| k < left implies (#[trigger] prepared::<C, H>(
        hooks,
        prepared_times::<C, H>(hooks, s, k),
    )).1 == Request::Skipped by {
        lemma_skipped_prefix::<C, H>(hooks, s, k + 1);
        assert(prepared_times::<C, H>(hooks, s, ((k + 1) - 1) as nat) == prepared_times::<C, H>(
            hooks,
            s,
            k,
        ));
    }
}

/// A widget becomes active in the local state in which it starts: where the
/// hook after the active widget says Advance and a widget follows, that
/// widget is reset, every other widget but the one the hook worked on is
/// as it was, and the run stands before the next frame.
pub proof fn lemma_advance_enters_fresh<C: View, H: Hooks<C>>(
    hooks: &H,
    s: SequencerView<C::V>,
    outcome: OutcomeView,
)
    requires
        s.ending().is_none(),
        s.stage == Stage::Working,
        hooks.verdict(s.index as int, s.widgets[s.index as int], s.context, outcome).0
            == Action::Advance,
    ensures
        concluded::<C, H>(hooks, s, outcome).0.index == s.index + 1,
        concluded::<C, H>(hooks, s, outcome).0.stage == Stage::Ready,
        concluded::<C, H>(hooks, s, outcome).0.widgets.len() == s.widgets.len(),
        s.index + 1 < s.widgets.len() ==> concluded::<C, H>(hooks, s, outcome).0.widgets[s.index
            as int + 1] == s.widgets[s.index as int + 1].reset(),
        forall|i: int|
            0 <= i < s.widgets.len() && i != s.index && i != s.index + 1 ==> concluded::<C, H>(
                hooks,
                s,
                outcome,
            ).0.widgets[i] == s.widgets[i],
{
}

/// The context changes only where the hook after a widget runs: `prepare`
/// and `input` leave it as it is.
pub proof fn lemma_context_changes_only_after<C: View, H: Hooks<C>>(
    hooks: &H,
    s: SequencerView<C::V>,
    key: Option<Key>,
)
    ensures
        prepared::<C, H>(hooks, s).0.context == s.context,
        fed::<C, H>(hooks, s, key).0.context == s.context,
{
}

/// Once a hook has cancelled the run, no call changes anything: no hook
/// runs, no widget changes, and the context stays as that hook left it.
pub proof fn lemma_cancelled_stays<C: View, H: Hooks<C>>(
    hooks: &H,
    s: SequencerView<C::V>,
    calls: Seq<Call>,
)
    requires
        s.stage == Stage::Cancelled,
    ensures
        run::<C, H>(hooks, s, calls) == s,
    decreases calls.len(),
{
    if calls.len() > 0 {
        lemma_cancelled_stays::<C, H>(hooks, s, calls.drop_last());
    }
}

/// Where the hook after the active widget says Cancel, the run is cancelled
/// at that widget with the context as that hook left it, and whatever is
/// called afterwards changes nothing.
pub proof fn lemma_cancel_ends_run<C: View, H: Hooks<C>>(
    hooks: &H,
    s: SequencerView<C::V>,
    outcome: OutcomeView,
    calls: Seq<Call>,
)
    requires
        s.ending().is_none(),
        s.stage == Stage::Working,
        hooks.verdict(s.index as int, s.widgets[s.index as int], s.context, outcome).0
            == Action::Cancel,
    ensures
        concluded::<C, H>(hooks, s, outcome).0.ending() == Some(Ending::Cancelled),
        concluded::<C, H>(hooks, s, outcome).0.index == s.index,
        concluded::<C, H>(hooks, s, outcome).0.context == hooks.verdict(
            s.index as int,
            s.widgets[s.index as int],
            s.context,
            outcome,
        ).2,
        run::<C, H>(hooks, concluded::<C, H>(hooks, s, outcome).0, calls) == concluded::<C, H>(
            hooks,
            s,
            outcome,
        ).0,
{
    lemma_cancelled_stays::<C, H>(hooks, concluded::<C, H>(hooks, s, outcome).0, calls);
}

/// The driver of a wizard.
pub struct Sequencer<C, H> {
    pub widgets: Vec<Widget>,
    pub index: usize,
    pub stage: Stage,
    pub global_state: C,
    pub hooks: H,
}

impl<C: View, H: Hooks<C>> View for Sequencer<C, H> {
    type V = SequencerView<C::V>;

    open spec fn view(&self) -> SequencerView<C::V> {
        SequencerView {
            widgets: widget_views(self.widgets@),
            index: self.index as nat,
            stage: self.stage,
            context: self.global_state@,
        }
    }
}

impl<C: View, H: Hooks<C>> Sequencer<C, H> {
    /// A run without widgets yet, with the context as the caller made it.
    pub fn new(global_state: C, hooks: H) -> (s: Self)
        ensures
            s@ == (SequencerView {
                widgets: Seq::<WidgetView>::empty(),
                index: 0,
                stage: Stage::Ready,
                context: global_state@,
            }),
            s.hooks == hooks,
    {
        let s = Sequencer { widgets: Vec::new(), index: 0, stage: Stage::Ready, global_state, hooks };
        proof {
            assert(widget_views(s.widgets@) =~= Seq::<WidgetView>::empty());
        }
        s
    }

    /// Adds a widget behind those that are there.
    pub fn child(&mut self, child: Widget)
        ensures
            final(self)@ == (SequencerView {
                widgets: old(self)@.widgets.push(child@),
                ..old(self)@
            }),
            final(self).hooks == old(self).hooks,
    {
        self.widgets.push(child);
        proof {
            assert(widget_views(self.widgets@) =~= widget_views(old(self).widgets@).push(child@));
        }
    }

    /// Whether the run is over, and how.
    pub fn ending(&self) -> (e: Option<Ending>)
        ensures
            e == self@.ending(),
    {
        if self.stage == Stage::Cancelled {
            Some(Ending::Cancelled)
        } else if self.index >= self.widgets.len() {
            Some(Ending::AllAdvanced)
        } else {
            None
        }
    }

    /// The shared context.
    pub fn context(&self) -> (c: &C)
        ensures
            c@ == self@.context,
    {
        &self.global_state
    }

    fn advance(&mut self)
        requires
            old(self).index < old(self).widgets.len(),
        ensures
            final(self)@ == old(self)@.advanced(),
            final(self).hooks == old(self).hooks,
    {
        self.index = self.index + 1;
        self.stage = Stage::Ready;
        if self.index < self.widgets.len() {
            let ghost before = widget_views(self.widgets@);
            self.widgets[self.index].reset();
            proof {
                assert(widget_views(self.widgets@) =~= before.update(
                    self.index as int,
                    before[self.index as int].reset(),
                ));
            }
        }
    }

    /// Starts a frame: asks the hook before the active widget whether the
    /// widget is shown. A widget that is not shown is passed over at once.
    /// In any other stage nothing changes, and the answer says what the
    /// sequencer waits for.
    pub fn prepare(&mut self) -> (r: Request)
        ensures
            (final(self)@, r) == prepared::<C, H>(&old(self).hooks, old(self)@),
            final(self).hooks == old(self).hooks,
    {
        if self.ending().is_some() {
            return Request::Finished;
        }
        let ghost before = widget_views(self.widgets@);
        match self.stage {
            Stage::Ready => {
                let gate = self.hooks.before(
                    self.index,
                    &mut self.widgets[self.index],
                    &self.global_state,
                );
                proof {
                    assert(widget_views(self.widgets@) =~= before.update(
                        self.index as int,
                        self.widgets@[self.index as int]@,
                    ));
                }
                match gate {
                    RenderGate::Skip => {
                        self.advance();
                        Request::Skipped
                    },
                    RenderGate::Show => {
                        self.stage = Stage::Drawn;
                        Request::Draw { needs_key: self.widgets[self.index].needs_key() }
                    },
                }
            },
            Stage::Drawn => Request::Draw { needs_key: self.widgets[self.index].needs_key() },
            _ => Request::Busy,
        }
    }

    /// Hands the key that was read to the active widget, and says what
    /// outside work the step asks for. A key that the widget does not wait
    /// for is dropped. Outside the stage Drawn nothing changes.
    pub fn input(&mut self, key: Option<Key>) -> (e: Option<Effect>)
        ensures
            (final(self)@, effect_view(e)) == fed::<C, H>(&old(self).hooks, old(self)@, key),
            final(self).hooks == old(self).hooks,
    {
        if self.ending().is_some() || self.stage != Stage::Drawn {
            return None;
        }
        let ghost before = widget_views(self.widgets@);
        match key {
            Some(k) => {
                if self.widgets[self.index].needs_key() {
                    self.widgets[self.index].handle_key(k);
                }
            },
            None => {},
        }
        proof {
            assert(widget_views(self.widgets@) =~= before.update(
                self.index as int,
                self.widgets@[self.index as int]@,
            ));
        }
        self.stage = Stage::Working;
        self.hooks.effect(self.index, &self.widgets[self.index], &self.global_state)
    }

    /// Ends a frame: hands the outcome of the outside work to the hook
    /// after the active widget and applies what the hook decides. Outside
    /// the stage Working nothing changes and no hook runs.
    pub fn conclude(&mut self, outcome: &Outcome) -> (a: Option<Action>)
        ensures
            (final(self)@, a) == concluded::<C, H>(&old(self).hooks, old(self)@, outcome@),
            final(self).hooks == old(self).hooks,
    {
        if self.ending().is_some() || self.stage != Stage::Working {
            return None;
        }
        let ghost before = widget_views(self.widgets@);
        let action = self.hooks.after(
            self.index,
            &mut self.widgets[self.index],
            &mut self.global_state,
            outcome,
        );
        proof {
            assert(widget_views(self.widgets@) =~= before.update(
                self.index as int,
                self.widgets@[self.index as int]@,
            ));
        }
        match action {
            Action::Advance => self.advance(),
            Action::Retry => {
                self.stage = Stage::Ready;
            },
            Action::Cancel => {
                self.stage = Stage::Cancelled;
            },
        }
        Some(action)
    }

    /// What is on the screen: the lines of every widget up to the active one.
    pub fn screen(&self) -> (out: Vec<Vec<Span>>)
        ensures
            frame_view(out@) == self@.screen(),
    {
        let upto = if self.index < self.widgets.len() {
            self.index + 1
        } else {
            self.widgets.len()
        };
        let mut out: Vec<Vec<Span>> = Vec::new();
        let mut i: usize = 0;
        proof {
            assert(frame_view(out@) =~= self@.lines(0));
        }
        while i < upto
            invariant
                i <= upto <= self.widgets.len(),
                frame_view(out@) == self@.lines(i as nat),
            decreases upto - i,
        {
            let mut lines = self.widgets[i].frame();
            let ghost before = frame_view(out@);
            let ghost added = frame_view(lines@);
            proof {
                assert(widget_views(self.widgets@)[i as int] == self.widgets@[i as int]@);
            }
            out.append(&mut lines);
            proof {
                assert(frame_view(out@) =~= before + added);
            }
            i += 1;
        }
        out
    }
}

} // verus!
