//! The command grammar: one line of text becomes one [`Command`].
//!
//! A line is cut at its first two separators into at most three fields; the
//! third field keeps every later separator. The number of fields and the first
//! field decide the command.
use vstd::prelude::*;

verus! {

/// A parsed command.
#[derive(Debug, PartialEq, Eq)]
pub enum Command {
    /// Store `value` under `key`.
    Put { key: String, value: String },
    /// Look `key` up.
    Get { key: String },
    /// Remove `key`.
    Delete { key: String },
    /// A line that matches none of the three forms.
    Unrecognized,
}

/// The mathematical value of a [`Command`].
pub enum CommandView {
    Put { key: Seq<char>, value: Seq<char> },
    Get { key: Seq<char> },
    Delete { key: Seq<char> },
    Unrecognized,
}

impl View for Command {
    type V = CommandView;

    open spec fn view(&self) -> CommandView {
        match self {
            Command::Put { key, value } => CommandView::Put { key: key@, value: value@ },
            Command::Get { key } => CommandView::Get { key: key@ },
            Command::Delete { key } => CommandView::Delete { key: key@ },
            Command::Unrecognized => CommandView::Unrecognized,
        }
    }
}

impl CommandView {
    /// Whether carrying the command out may change the store.
    pub open spec fn mutates(self) -> bool {
        self is Put || self is Delete
    }
}

impl Command {
    /// Whether carrying the command out may change the store, so that the
    /// caller needs exclusive access to it.
    pub fn mutates(&self) -> (r: bool)
        ensures
            r == self@.mutates(),
    {
        match self {
            Command::Put { .. } => true,
            Command::Delete { .. } => true,
            _ => false,
        }
    }
}

/// The field separator of the grammar.
pub open spec fn separator() -> char {
    ' '
}

/// The first field of a `SET` line.
pub open spec fn set_word() -> Seq<char> {
    seq!['S', 'E', 'T']
}

/// The first field of a `GET` line.
pub open spec fn get_word() -> Seq<char> {
    seq!['G', 'E', 'T']
}

/// The first field of a `DEL` line.
pub open spec fn del_word() -> Seq<char> {
    seq!['D', 'E', 'L']
}

/// `i` is the position of the first separator in `s`.
pub open spec fn is_first_separator(s: Seq<char>, i: int) -> bool {
    &&& 0 <= i < s.len()
    &&& s[i] == separator()
    &&& forall|j: int| 0 <= j < i ==> s[j] != separator()
}

/// `s` cut at its first separator: what stands before it and what stands
/// after it. `None` where `s` holds no separator.
pub open spec fn split_once(s: Seq<char>) -> Option<(Seq<char>, Seq<char>)> {
    if exists|i: int| is_first_separator(s, i) {
        let i = choose|i: int| is_first_separator(s, i);
        Some((s.subrange(0, i), s.subrange(i + 1, s.len() as int)))
    } else {
        None
    }
}

/// The fields of a line: one, two or three of them. Only the first two
/// separators cut; the last field is the rest of the line as it stands.
pub open spec fn fields(line: Seq<char>) -> Seq<Seq<char>> {
    match split_once(line) {
        None => seq![line],
        Some((head, rest)) => match split_once(rest) {
            None => seq![head, rest],
            Some((middle, tail)) => seq![head, middle, tail],
        },
    }
}

/// The command that a line stands for.
pub open spec fn parse_line(line: Seq<char>) -> CommandView {
    let f = fields(line);
    if f.len() == 3 && f[0] == set_word() {
        CommandView::Put { key: f[1], value: f[2] }
    } else if f.len() == 2 && f[0] == get_word() {
        CommandView::Get { key: f[1] }
    } else if f.len() == 2 && f[0] == del_word() {
        CommandView::Delete { key: f[1] }
    } else {
        CommandView::Unrecognized
    }
}

/// A position that satisfies [`is_first_separator`] is the one that
/// [`split_once`] cuts at.
pub proof fn lemma_split_once_at(s: Seq<char>, i: int)
    requires
        is_first_separator(s, i),
    ensures
        split_once(s) == Some((s.subrange(0, i), s.subrange(i + 1, s.len() as int))),
{
    let k = choose|k: int| is_first_separator(s, k);
    assert(is_first_separator(s, k));
    assert(k == i) by {
        if k < i {
            assert(s[k] != separator());
        }
        if i < k {
            assert(s[i] != separator());
        }
    }
}

/// A sequence without a separator is not cut.
pub proof fn lemma_split_once_none(s: Seq<char>)
    requires
        forall|j: int| 0 <= j < s.len() ==> s[j] != separator(),
    ensures
        split_once(s) is None,
{
    assert forall|i: int| !is_first_separator(s, i) by {
        if 0 <= i < s.len() {
            assert(s[i] != separator());
        }
    }
}

/// Where the first two separators of a line stand, in characters from its
/// start.
struct Cuts {
    /// The length of the line.
    len: usize,
    /// The first separator, if there is one.
    first: Option<usize>,
    /// The first separator after `first`, if there is one.
    second: Option<usize>,
}

impl Cuts {
    /// The cuts are those of `line`.
    spec fn describes(self, line: Seq<char>) -> bool {
        &&& self.len == line.len()
        &&& match self.first {
            None => self.second is None && forall|j: int|
                0 <= j < line.len() ==> line[j] != separator(),
            Some(a) => {
                &&& is_first_separator(line, a as int)
                &&& match self.second {
                    None => forall|j: int| a < j < line.len() ==> line[j] != separator(),
                    Some(b) => {
                        &&& a < b < line.len()
                        &&& line[b as int] == separator()
                        &&& forall|j: int| a < j < b ==> line[j] != separator()
                    },
                }
            },
        }
    }
}

/// Reads `line` once and finds its first two separators.
fn locate_separators(line: &str) -> (cuts: Cuts)
    ensures
        cuts.describes(line@),
{
    let len = line.unicode_len();
    let mut first: Option<usize> = None;
    let mut second: Option<usize> = None;
    let mut at: usize = 0;
    for c in it: line.chars()
        invariant
            at == it.index(),
            it.seq() == line@,
            len == line@.len(),
            (Cuts { len: at, first, second }).describes(line@.subrange(0, at as int)),
    {
        if c == ' ' {
            if first.is_none() {
                first = Some(at);
            } else if second.is_none() {
                second = Some(at);
            }
        }
        at = at + 1;
    }
    assert(line@.subrange(0, at as int) == line@);
    Cuts { len, first, second }
}

/// The three words that begin a command.
enum Verb {
    Put,
    Get,
    Del,
}

/// Tells which command word, if any, the first `end` characters of `line`
/// spell.
fn read_verb(line: &str, end: usize) -> (verb: Option<Verb>)
    requires
        end <= line@.len(),
    ensures
        verb == Some(Verb::Put) <==> line@.subrange(0, end as int) == set_word(),
        verb == Some(Verb::Get) <==> line@.subrange(0, end as int) == get_word(),
        verb == Some(Verb::Del) <==> line@.subrange(0, end as int) == del_word(),
{
    let ghost head = line@.subrange(0, end as int);
    if end != 3 {
        assert(head.len() != 3);
        return None;
    }
    let a = line.get_char(0);
    let b = line.get_char(1);
    let c = line.get_char(2);
    if a == 'S' && b == 'E' && c == 'T' {
        assert(head =~= set_word());
        Some(Verb::Put)
    } else if a == 'G' && b == 'E' && c == 'T' {
        assert(head =~= get_word());
        Some(Verb::Get)
    } else if a == 'D' && b == 'E' && c == 'L' {
        assert(head =~= del_word());
        Some(Verb::Del)
    } else {
        None
    }
}

/// Copies the characters of `line` from `from` up to `to` into a new string.
fn field(line: &str, from: usize, to: usize) -> (text: String)
    requires
        from <= to <= line@.len(),
    ensures
        text@ == line@.subrange(from as int, to as int),
{
    line.substring_char(from, to).to_owned()
}

/// Parses one line, already freed of its line terminator, into a command.
///
/// `SET`, a key and a value give [`Command::Put`]; `GET` and a key give
/// [`Command::Get`]; `DEL` and a key give [`Command::Delete`]. A key or a
/// value may be empty, and a value may hold separators. Every other line,
/// the empty one and one with a field too many or too few among them, gives
/// [`Command::Unrecognized`].
pub fn parse_command(line: &str) -> (cmd: Command)
    ensures
        cmd@ == parse_line(line@),
{
    let cuts = locate_separators(line);
    let len = cuts.len;
    match cuts.first {
        None => {
            proof {
                lemma_split_once_none(line@);
            }
            Command::Unrecognized
        },
        Some(a) => {
            let ghost rest = line@.subrange(a + 1, len as int);
            proof {
                lemma_split_once_at(line@, a as int);
            }
            let verb = read_verb(line, a);
            match cuts.second {
                None => {
                    proof {
                        lemma_split_once_none(rest);
                    }
                    let key = field(line, a + 1, len);
                    match verb {
                        Some(Verb::Get) => Command::Get { key },
                        Some(Verb::Del) => Command::Delete { key },
                        _ => Command::Unrecognized,
                    }
                },
                Some(b) => {
                    proof {
                        assert(is_first_separator(rest, b - a - 1));
                        lemma_split_once_at(rest, b - a - 1);
                        assert(rest.subrange(0, b - a - 1) == line@.subrange(a + 1, b as int));
                        assert(rest.subrange(b - a, rest.len() as int) == line@.subrange(
                            b + 1,
                            len as int,
                        ));
                    }
                    match verb {
                        Some(Verb::Put) => {
                            let key = field(line, a + 1, b);
                            let value = field(line, b + 1, len);
                            Command::Put { key, value }
                        },
                        _ => Command::Unrecognized,
                    }
                },
            }
        },
    }
}

} // verus!
