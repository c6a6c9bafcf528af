//! Styled text: what a widget draws, as plain values, and how it is painted
//! for the terminal.

use vstd::prelude::*;
use vstd::string::StringExecFns;
use crossterm::style::Stylize;

verus! {

/// How a piece of text is shown.
#[derive(Debug, Clone, Copy, PartialEq, Eq, Structural)]
pub enum Tone {
    Plain,
    Cyan,
    Green,
    DarkGrey,
    CyanBold,
}

/// A piece of text in one tone.
#[derive(Debug)]
pub struct Span {
    pub tone: Tone,
    pub text: String,
}

/// A span as plain values.
pub struct SpanView {
    pub tone: Tone,
    pub text: Seq<char>,
}

impl View for Span {
    type V = SpanView;

    open spec fn view(&self) -> SpanView {
        SpanView { tone: self.tone, text: self.text@ }
    }
}

impl Clone for Span {
    fn clone(&self) -> (s: Span)
        ensures
            s == *self,
    {
        Span { tone: self.tone, text: self.text.clone() }
    }
}

/// A span of `text` in `tone`.
pub open spec fn span(tone: Tone, text: Seq<char>) -> SpanView {
    SpanView { tone, text }
}

/// One line on the screen, as plain values.
pub open spec fn line_view(line: Seq<Span>) -> Seq<SpanView> {
    line.map_values(|s: Span| s@)
}

/// Lines on the screen, as plain values.
pub open spec fn frame_view(frame: Seq<Vec<Span>>) -> Seq<Seq<SpanView>> {
    frame.map_values(|l: Vec<Span>| line_view(l@))
}

/// Whether no span of the line has a tone.
pub open spec fn all_plain(line: Seq<SpanView>) -> bool {
    forall|i: int| 0 <= i < line.len() ==> (#[trigger] line[i]).tone == Tone::Plain
}

/// The text of the line without regard to tones.
pub open spec fn plain_text(line: Seq<SpanView>) -> Seq<char>
    decreases line.len(),
{
    if line.len() == 0 {
        Seq::empty()
    } else {
        plain_text(line.drop_last()) + line.last().text
    }
}

/// `text` as crossterm's `Stylize::cyan` shows it. The escape codes around
/// the text depend on the terminal, so nothing is claimed of the result.
#[verifier::external_body]
fn cyan(text: &str) -> String {
    format!("{}", text.cyan())
}

/// `text` as crossterm's `Stylize::green` shows it. The escape codes around
/// the text depend on the terminal, so nothing is claimed of the result.
#[verifier::external_body]
fn green(text: &str) -> String {
    format!("{}", text.green())
}

/// `text` as crossterm's `Stylize::dark_grey` shows it. The escape codes
/// around the text depend on the terminal, so nothing is claimed of the
/// result.
#[verifier::external_body]
fn dark_grey(text: &str) -> String {
    format!("{}", text.dark_grey())
}

/// `text` as crossterm's `Stylize::bold` shows it on top of `Stylize::cyan`.
/// The escape codes around the text depend on the terminal, so nothing is
/// claimed of the result.
#[verifier::external_body]
fn cyan_bold(text: &str) -> String {
    format!("{}", text.cyan().bold())
}

/// A span of `text` in `tone`.
pub fn styled(tone: Tone, text: &str) -> (s: Span)
    ensures
        s@ == span(tone, text@),
{
    Span { tone, text: text.to_owned() }
}

/// The text of the span as the terminal gets it. Plain text stays as it is.
pub fn paint(span: &Span) -> (out: String)
    ensures
        span.tone == Tone::Plain ==> out@ == span.text@,
{
    match span.tone {
        Tone::Plain => span.text.clone(),
        Tone::Cyan => cyan(span.text.as_str()),
        Tone::Green => green(span.text.as_str()),
        Tone::DarkGrey => dark_grey(span.text.as_str()),
        Tone::CyanBold => cyan_bold(span.text.as_str()),
    }
}

/// The line as the terminal gets it: its spans painted, one after the other.
pub fn paint_line(line: &Vec<Span>) -> (out: String)
    ensures
        all_plain(line_view(line@)) ==> out@ == plain_text(line_view(line@)),
{
    let mut out = String::new();
    let mut i: usize = 0;
    proof {
        assert(line_view(line@).take(0) =~= Seq::<SpanView>::empty());
    }
    while i < line.len()
        invariant
            i <= line.len(),
            all_plain(line_view(line@)) ==> out@ == plain_text(line_view(line@).take(i as int)),
        decreases line.len() - i,
    {
        let piece = paint(&line[i]);
        proof {
            let next = line_view(line@).take(i + 1);
            assert(next.drop_last() =~= line_view(line@).take(i as int));
            assert(next.last() == line@[i as int]@);
            if all_plain(line_view(line@)) {
                assert(line_view(line@)[i as int].tone == Tone::Plain);
            }
        }
        out.append(piece.as_str());
        i += 1;
    }
    proof {
        assert(line_view(line@).take(line.len() as int) =~= line_view(line@));
    }
    out
}

/// The lines as the terminal gets them.
pub fn paint_frame(frame: &Vec<Vec<Span>>) -> (out: Vec<String>)
    ensures
        out.len() == frame.len(),
        forall|i: int|
            0 <= i < frame.len() && all_plain(#[trigger] frame_view(frame@)[i]) ==> out[i]@
                == plain_text(frame_view(frame@)[i]),
{
    let mut out: Vec<String> = Vec::new();
    let mut i: usize = 0;
    while i < frame.len()
        invariant
            i <= frame.len(),
            out.len() == i,
            forall|k: int|
                0 <= k < i && all_plain(#[trigger] frame_view(frame@)[k]) ==> out[k]@
                    == plain_text(frame_view(frame@)[k]),
        decreases frame.len() - i,
    {
        out.push(paint_line(&frame[i]));
        i += 1;
    }
    out
}

} // verus!
