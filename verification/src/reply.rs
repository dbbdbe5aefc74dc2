//! Replies and their wire text.
//!
//! Every reply is one line that ends in a carriage return and a line feed. A
//! value that was found is sent as its length in bytes on a line of its own,
//! followed by the value and a second line end.
use vstd::prelude::*;
use vstd::string::StringSliceAdditionalSpecFns;
use vstd::utf8::encode_utf8;

verus! {

/// The outcome of one command.
#[derive(Debug, PartialEq, Eq)]
pub enum Reply {
    /// The value was stored.
    Stored,
    /// The value that was found.
    Bulk(String),
    /// The key has no value.
    Absent,
    /// The key was removed.
    Removed,
    /// There was no such key to remove.
    NotFound,
    /// The line was no command.
    UnknownCommand,
}

/// The mathematical value of a [`Reply`].
pub enum ReplyView {
    Stored,
    Bulk(Seq<char>),
    Absent,
    Removed,
    NotFound,
    UnknownCommand,
}

impl View for Reply {
    type V = ReplyView;

    open spec fn view(&self) -> ReplyView {
        match self {
            Reply::Stored => ReplyView::Stored,
            Reply::Bulk(value) => ReplyView::Bulk(value@),
            Reply::Absent => ReplyView::Absent,
            Reply::Removed => ReplyView::Removed,
            Reply::NotFound => ReplyView::NotFound,
            Reply::UnknownCommand => ReplyView::UnknownCommand,
        }
    }
}

/// The character for a digit below ten.
pub open spec fn digit_char(d: nat) -> char {
    if d == 0 {
        '0'
    } else if d == 1 {
        '1'
    } else if d == 2 {
        '2'
    } else if d == 3 {
        '3'
    } else if d == 4 {
        '4'
    } else if d == 5 {
        '5'
    } else if d == 6 {
        '6'
    } else if d == 7 {
        '7'
    } else if d == 8 {
        '8'
    } else {
        '9'
    }
}

/// A number in decimal digits, without leading zeros.
pub open spec fn decimal(n: nat) -> Seq<char>
    decreases n,
{
    if n < 10 {
        seq![digit_char(n)]
    } else {
        decimal(n / 10).push(digit_char(n % 10))
    }
}

/// The number of bytes that a text takes in UTF-8.
pub open spec fn byte_len(text: Seq<char>) -> nat {
    encode_utf8(text).len()
}

/// The end of every line on the wire.
pub open spec fn line_end() -> Seq<char> {
    seq!['\r', '\n']
}

/// The text that goes over the wire for a reply.
pub open spec fn wire(reply: ReplyView) -> Seq<char> {
    match reply {
        ReplyView::Stored => "+OK"@ + line_end(),
        ReplyView::Bulk(value) => seq!['$'] + decimal(byte_len(value)) + line_end() + value
            + line_end(),
        ReplyView::Absent => "$-1"@ + line_end(),
        ReplyView::Removed => ":1"@ + line_end(),
        ReplyView::NotFound => ":0"@ + line_end(),
        ReplyView::UnknownCommand => "-ERR unknown command"@ + line_end(),
    }
}

/// The text that greets a client.
pub open spec fn greeting_text() -> Seq<char> {
    "+TinyKV ready"@ + line_end()
}

/// Every reply, and the greeting, ends in the end of a line.
pub proof fn lemma_wire_ends_line(reply: ReplyView)
    ensures
        wire(reply).len() >= 2,
        wire(reply).subrange(wire(reply).len() - 2, wire(reply).len() as int) == line_end(),
        greeting_text().subrange(greeting_text().len() - 2, greeting_text().len() as int)
            == line_end(),
{
    let w = wire(reply);
    assert(w.subrange(w.len() - 2, w.len() as int) =~= line_end());
    let g = greeting_text();
    assert(g.subrange(g.len() - 2, g.len() as int) =~= line_end());
}

/// One decimal digit as text.
fn digit_text(d: usize) -> (text: &'static str)
    requires
        d < 10,
    ensures
        text@ == seq![digit_char(d as nat)],
{
    proof {
        reveal_strlit("0");
        reveal_strlit("1");
        reveal_strlit("2");
        reveal_strlit("3");
        reveal_strlit("4");
        reveal_strlit("5");
        reveal_strlit("6");
        reveal_strlit("7");
        reveal_strlit("8");
        reveal_strlit("9");
    }
    if d == 0 {
        "0"
    } else if d == 1 {
        "1"
    } else if d == 2 {
        "2"
    } else if d == 3 {
        "3"
    } else if d == 4 {
        "4"
    } else if d == 5 {
        "5"
    } else if d == 6 {
        "6"
    } else if d == 7 {
        "7"
    } else if d == 8 {
        "8"
    } else {
        "9"
    }
}

/// Writes `n` in decimal digits at the end of `out`.
fn append_decimal(out: &mut String, n: usize)
    ensures
        final(out)@ == old(out)@ + decimal(n as nat),
    decreases n,
{
    if n >= 10 {
        append_decimal(out, n / 10);
    }
    out.append(digit_text(n % 10));
}

/// Writes the end of a line at the end of `out`.
fn append_line_end(out: &mut String)
    ensures
        final(out)@ == old(out)@ + line_end(),
{
    proof {
        reveal_strlit("\r\n");
    }
    out.append("\r\n");
}

/// The length of `text` in bytes.
fn count_bytes(text: &str) -> (n: usize)
    ensures
        n == byte_len(text@),
{
    text.as_bytes().len()
}

impl Reply {
    /// The text that goes over the wire for this reply.
    pub fn encode(&self) -> (text: String)
        ensures
            text@ == wire(self@),
    {
        let mut text = String::new();
        match self {
            Reply::Stored => {
                text.append("+OK");
            },
            Reply::Bulk(value) => {
                proof {
                    reveal_strlit("$");
                }
                text.append("$");
                append_decimal(&mut text, count_bytes(value.as_str()));
                append_line_end(&mut text);
                text.append(value.as_str());
            },
            Reply::Absent => {
                text.append("$-1");
            },
            Reply::Removed => {
                text.append(":1");
            },
            Reply::NotFound => {
                text.append(":0");
            },
            Reply::UnknownCommand => {
                text.append("-ERR unknown command");
            },
        }
        append_line_end(&mut text);
        text
    }
}

/// The line that greets a client when its session begins.
pub fn greeting() -> (text: String)
    ensures
        text@ == greeting_text(),
{
    let mut text = String::new();
    text.append("+TinyKV ready");
    append_line_end(&mut text);
    text
}

} // verus!
