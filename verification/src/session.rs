//! One client's session, from the greeting to the end of the stream.
//!
//! The session decides; its caller does the reading and the writing. The
//! caller hands each thing that happened on the stream to [`step`] and
//! carries out the action that comes back.
use crate::command::{parse_command, parse_line, Command};
use crate::reply::{greeting, greeting_text};
use vstd::prelude::*;

verus! {

/// Whether `c` is white space: a blank, a tab, a line terminator or one of
/// the other characters that Unicode gives the property `White_Space`.
pub open spec fn is_whitespace(c: char) -> bool {
    let u = c as u32;
    ||| 0x09 <= u <= 0x0D
    ||| u == 0x20
    ||| u == 0x85
    ||| u == 0xA0
    ||| u == 0x1680
    ||| 0x2000 <= u <= 0x200A
    ||| u == 0x2028
    ||| u == 0x2029
    ||| u == 0x202F
    ||| u == 0x205F
    ||| u == 0x3000
}

/// `s` without the white space at its end.
pub open spec fn trim_end(s: Seq<char>) -> Seq<char>
    decreases s.len(),
{
    if s.len() > 0 && is_whitespace(s.last()) {
        trim_end(s.drop_last())
    } else {
        s
    }
}

/// What [`trim_end`] keeps is the start of the sequence up to its last
/// character that is no white space: nothing before that character is
/// touched, and all that is dropped is white space.
pub proof fn lemma_trim_end(s: Seq<char>)
    ensures
        trim_end(s).len() <= s.len(),
        trim_end(s) == s.subrange(0, trim_end(s).len() as int),
        trim_end(s).len() > 0 ==> !is_whitespace(trim_end(s).last()),
        forall|j: int| trim_end(s).len() <= j < s.len() ==> is_whitespace(s[j]),
    decreases s.len(),
{
    if s.len() > 0 && is_whitespace(s.last()) {
        let shorter = s.drop_last();
        lemma_trim_end(shorter);
        assert(trim_end(s) =~= s.subrange(0, trim_end(s).len() as int));
        assert forall|j: int| trim_end(s).len() <= j < s.len() implies is_whitespace(s[j]) by {
            if j < shorter.len() {
                assert(s[j] == shorter[j]);
            }
        }
    } else {
        assert(s =~= s.subrange(0, s.len() as int));
    }
}

/// Trimming takes a run of white space off the end of a text that does not
/// itself end in white space, and nothing more: a line comes back as it was
/// before its terminator was added.
pub proof fn lemma_trim_end_of_padded(text: Seq<char>, padding: Seq<char>)
    requires
        text.len() > 0 ==> !is_whitespace(text.last()),
        forall|j: int| 0 <= j < padding.len() ==> is_whitespace(padding[j]),
    ensures
        trim_end(text + padding) == text,
    decreases padding.len(),
{
    let padded = text + padding;
    if padding.len() == 0 {
        assert(padded =~= text);
    } else {
        assert(padded.last() == padding.last());
        assert(padded.drop_last() =~= text + padding.drop_last());
        lemma_trim_end_of_padded(text, padding.drop_last());
    }
}

/// Tells whether `c` is white space.
fn is_space(c: char) -> (r: bool)
    ensures
        r == is_whitespace(c),
{
    let u = c as u32;
    (0x09 <= u && u <= 0x0D) || u == 0x20 || u == 0x85 || u == 0xA0 || u == 0x1680 || (0x2000 <= u
        && u <= 0x200A) || u == 0x2028 || u == 0x2029 || u == 0x202F || u == 0x205F || u
        == 0x3000
}

/// The line without the white space at its end: its line terminator, a
/// carriage return before it, and blanks.
pub fn trim_line(line: &str) -> (trimmed: &str)
    ensures
        trimmed@ == trim_end(line@),
{
    let len = line.unicode_len();
    let mut keep: usize = 0;
    let mut at: usize = 0;
    for c in it: line.chars()
        invariant
            at == it.index(),
            it.seq() == line@,
            len == line@.len(),
            keep <= at,
            line@.subrange(0, keep as int) == trim_end(line@.subrange(0, at as int)),
    {
        let ghost before = line@.subrange(0, at as int);
        let ghost after = line@.subrange(0, at + 1);
        assert(after.drop_last() =~= before);
        if !is_space(c) {
            keep = at + 1;
        }
        at = at + 1;
    }
    assert(line@.subrange(0, at as int) == line@);
    line.substring_char(0, keep)
}

/// Where a session stands.
#[derive(Debug, Clone, Copy, PartialEq, Eq)]
pub enum Session {
    /// The connection stands and nothing was sent yet.
    Start,
    /// The session waits for the client's next line.
    AwaitingLine,
    /// A command was handed out and its reply is not yet on the stream.
    Dispatch,
    /// The session is over.
    Closed,
}

/// What happened on the stream.
#[derive(Debug, PartialEq, Eq)]
pub enum Event {
    /// The connection was made.
    Connected,
    /// A line was read; it may still end in its line terminator.
    Line(String),
    /// The stream ended before a new line began.
    EndOfStream,
    /// The reply to the command was written and flushed.
    Replied,
    /// Reading or writing failed.
    Failed,
}

/// What the caller is to do next.
#[derive(Debug, PartialEq, Eq)]
pub enum Action {
    /// Send this text, then read a line.
    Send(String),
    /// Carry this command out, send the reply and flush it.
    Dispatch(Command),
    /// Read a line.
    Read,
    /// Release the stream.
    Close,
}

/// The session's next state and the action to take, for what happened on
/// the stream.
///
/// A new connection is greeted. A line is trimmed and parsed, and the
/// command is handed out to be carried out; when its reply is on the stream
/// the session waits for the next line. A line that is no command does not
/// end the session: it is handed out like the others, to be answered with the
/// error reply. The end of the stream ends the session, and so does a
/// failure, and so does an event that the state does not wait for. A closed
/// session stays closed.
pub fn step(state: Session, event: Event) -> (next: (Session, Action))
    ensures
        match (state, event) {
            (Session::Start, Event::Connected) => {
                &&& next.0 == Session::AwaitingLine
                &&& next.1 matches Action::Send(text)
                &&& text@ == greeting_text()
            },
            (Session::AwaitingLine, Event::Line(raw)) => {
                &&& next.0 == Session::Dispatch
                &&& next.1 matches Action::Dispatch(command)
                &&& command@ == parse_line(trim_end(raw@))
            },
            (Session::Dispatch, Event::Replied) => {
                &&& next.0 == Session::AwaitingLine
                &&& next.1 is Read
            },
            _ => next.0 == Session::Closed && next.1 is Close,
        },
{
    match (state, event) {
        (Session::Start, Event::Connected) => (Session::AwaitingLine, Action::Send(greeting())),
        (Session::AwaitingLine, Event::Line(raw)) => {
            let command = parse_command(trim_line(raw.as_str()));
            (Session::Dispatch, Action::Dispatch(command))
        },
        (Session::Dispatch, Event::Replied) => (Session::AwaitingLine, Action::Read),
        _ => (Session::Closed, Action::Close),
    }
}

} // verus!
