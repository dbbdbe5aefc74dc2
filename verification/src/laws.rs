//! What holds of the grammar and of the store, whatever the keys, the values
//! and the store's contents are.
use crate::command::{
    del_word, fields, get_word, is_first_separator, lemma_split_once_at, lemma_split_once_none,
    parse_line, separator, set_word, split_once, CommandView,
};
use crate::dispatch::{answer, apply};
use crate::reply::ReplyView;
use vstd::prelude::*;

verus! {

/// `s` holds no separator.
pub open spec fn separator_free(s: Seq<char>) -> bool {
    forall|j: int| 0 <= j < s.len() ==> s[j] != separator()
}

/// The line that asks to store `value` under `key`.
pub open spec fn set_line(key: Seq<char>, value: Seq<char>) -> Seq<char> {
    set_word() + seq![separator()] + key + seq![separator()] + value
}

/// The line that asks for the value under `key`.
pub open spec fn get_line(key: Seq<char>) -> Seq<char> {
    get_word() + seq![separator()] + key
}

/// The line that asks to remove `key`.
pub open spec fn del_line(key: Seq<char>) -> Seq<char> {
    del_word() + seq![separator()] + key
}

/// A line made of a word of three letters, a separator and `rest` is cut
/// after the word.
proof fn lemma_cut_after_word(word: Seq<char>, rest: Seq<char>)
    requires
        word.len() == 3,
        separator_free(word),
    ensures
        split_once(word + seq![separator()] + rest) == Some((word, rest)),
{
    let line = word + seq![separator()] + rest;
    assert(is_first_separator(line, 3)) by {
        assert(forall|j: int| 0 <= j < 3 ==> line[j] == word[j]);
    }
    lemma_split_once_at(line, 3);
    assert(line.subrange(0, 3) =~= word);
    assert(line.subrange(4, line.len() as int) =~= rest);
}

/// The three command words hold no separator.
proof fn lemma_words_separator_free()
    ensures
        separator_free(set_word()),
        separator_free(get_word()),
        separator_free(del_word()),
{
}

/// No two of the three command words are equal.
proof fn lemma_words_differ()
    ensures
        set_word() != get_word(),
        set_word() != del_word(),
        get_word() != del_word(),
{
    assert(set_word()[0] != get_word()[0]);
    assert(set_word()[0] != del_word()[0]);
    assert(get_word()[0] != del_word()[0]);
}

/// A `SET` line whose key holds no separator is read as the command to store
/// its value under its key, whatever the value holds.
pub proof fn lemma_parse_set_line(key: Seq<char>, value: Seq<char>)
    requires
        separator_free(key),
    ensures
        parse_line(set_line(key, value)) == (CommandView::Put { key, value }),
{
    let rest = key + seq![separator()] + value;
    lemma_words_separator_free();
    lemma_cut_after_word(set_word(), rest);
    assert(set_line(key, value) =~= set_word() + seq![separator()] + rest);
    assert(is_first_separator(rest, key.len() as int)) by {
        assert(forall|j: int| 0 <= j < key.len() ==> rest[j] == key[j]);
    }
    lemma_split_once_at(rest, key.len() as int);
    assert(rest.subrange(0, key.len() as int) =~= key);
    assert(rest.subrange(key.len() as int + 1, rest.len() as int) =~= value);
}

/// A `GET` line whose key holds no separator is read as the lookup of that
/// key.
pub proof fn lemma_parse_get_line(key: Seq<char>)
    requires
        separator_free(key),
    ensures
        parse_line(get_line(key)) == (CommandView::Get { key }),
{
    lemma_words_separator_free();
    lemma_words_differ();
    lemma_cut_after_word(get_word(), key);
    lemma_split_once_none(key);
}

/// A `DEL` line whose key holds no separator is read as the removal of that
/// key.
pub proof fn lemma_parse_del_line(key: Seq<char>)
    requires
        separator_free(key),
    ensures
        parse_line(del_line(key)) == (CommandView::Delete { key }),
{
    lemma_words_separator_free();
    lemma_words_differ();
    lemma_cut_after_word(del_word(), key);
    lemma_split_once_none(key);
}

/// Every line that is read as a command is the line written for that
/// command, with a key that holds no separator. So a line is rejected exactly
/// when it has none of the three forms.
pub proof fn lemma_parse_inverse(line: Seq<char>)
    ensures
        match parse_line(line) {
            CommandView::Put { key, value } => separator_free(key) && line == set_line(
                key,
                value,
            ),
            CommandView::Get { key } => separator_free(key) && line == get_line(key),
            CommandView::Delete { key } => separator_free(key) && line == del_line(key),
            CommandView::Unrecognized => true,
        },
{
    if split_once(line) is Some {
        let i = choose|i: int| is_first_separator(line, i);
        let head = line.subrange(0, i);
        let rest = line.subrange(i + 1, line.len() as int);
        assert(line =~= head + seq![separator()] + rest);
        if split_once(rest) is Some {
            let j = choose|j: int| is_first_separator(rest, j);
            let middle = rest.subrange(0, j);
            let tail = rest.subrange(j + 1, rest.len() as int);
            assert(rest =~= middle + seq![separator()] + tail);
            assert(separator_free(middle));
            assert(fields(line) == seq![head, middle, tail]);
            if head == set_word() {
                assert(line =~= set_line(middle, tail));
            }
        } else {
            assert(fields(line) == seq![head, rest]);
            assert(separator_free(rest)) by {
                if !separator_free(rest) {
                    lemma_has_first_separator(rest);
                }
            }
        }
    } else {
        assert(fields(line) == seq![line]);
    }
}

/// A sequence that holds a separator has a first one.
proof fn lemma_has_first_separator(s: Seq<char>)
    requires
        !separator_free(s),
    ensures
        exists|i: int| is_first_separator(s, i),
    decreases s.len(),
{
    let j = choose|j: int| 0 <= j < s.len() && s[j] == separator();
    let before = s.subrange(0, j);
    if separator_free(before) {
        assert(is_first_separator(s, j)) by {
            assert(forall|k: int| 0 <= k < j ==> s[k] == before[k]);
        }
    } else {
        lemma_has_first_separator(before);
        let i = choose|i: int| is_first_separator(before, i);
        assert(is_first_separator(s, i)) by {
            assert(forall|k: int| 0 <= k <= i ==> s[k] == before[k]);
        }
    }
}

/// A value that was stored under a key is the one that a lookup of the key
/// finds next, as it was stored.
pub proof fn lemma_round_trip(store: Map<Seq<char>, Seq<char>>, key: Seq<char>, value: Seq<char>)
    ensures
        answer(apply(store, CommandView::Put { key, value }), CommandView::Get { key })
            == ReplyView::Bulk(value),
{
}

/// The same, of the lines as a client sends them: after a `SET` line a `GET`
/// line for the same key is answered with the value, whatever it holds, the
/// empty value too. The key holds no separator.
pub proof fn lemma_round_trip_lines(
    store: Map<Seq<char>, Seq<char>>,
    key: Seq<char>,
    value: Seq<char>,
)
    requires
        separator_free(key),
    ensures
        answer(apply(store, parse_line(set_line(key, value))), parse_line(get_line(key)))
            == ReplyView::Bulk(value),
{
    lemma_parse_set_line(key, value);
    lemma_parse_get_line(key);
}

/// A lookup of a key that the store does not hold is answered with the
/// absent reply, and so is a lookup that follows the key's removal. The
/// lookup changes nothing. The same holds of the lines, for a key without a
/// separator.
pub proof fn lemma_absence(store: Map<Seq<char>, Seq<char>>, key: Seq<char>)
    ensures
        !store.contains_key(key) ==> answer(store, CommandView::Get { key })
            == ReplyView::Absent,
        answer(Map::<Seq<char>, Seq<char>>::empty(), CommandView::Get { key })
            == ReplyView::Absent,
        answer(apply(store, CommandView::Delete { key }), CommandView::Get { key })
            == ReplyView::Absent,
        apply(store, CommandView::Get { key }) == store,
        separator_free(key) ==> {
            &&& !store.contains_key(key) ==> answer(store, parse_line(get_line(key)))
                == ReplyView::Absent
            &&& answer(apply(store, parse_line(del_line(key))), parse_line(get_line(key)))
                == ReplyView::Absent
            &&& apply(store, parse_line(get_line(key))) == store
        },
{
    if separator_free(key) {
        lemma_parse_get_line(key);
        lemma_parse_del_line(key);
    }
}

/// The first removal of a key that was just stored reports that it removed
/// the key; a second removal right after it reports that there was nothing to
/// remove, and changes nothing. The same holds of the lines, for a key
/// without a separator.
pub proof fn lemma_delete_twice(store: Map<Seq<char>, Seq<char>>, key: Seq<char>, value: Seq<char>)
    ensures
        ({
            let stored = apply(store, CommandView::Put { key, value });
            let removed = apply(stored, CommandView::Delete { key });
            &&& answer(stored, CommandView::Delete { key }) == ReplyView::Removed
            &&& answer(removed, CommandView::Delete { key }) == ReplyView::NotFound
            &&& apply(removed, CommandView::Delete { key }) == removed
        }),
        separator_free(key) ==> ({
            let stored = apply(store, parse_line(set_line(key, value)));
            let removed = apply(stored, parse_line(del_line(key)));
            &&& answer(stored, parse_line(del_line(key))) == ReplyView::Removed
            &&& answer(removed, parse_line(del_line(key))) == ReplyView::NotFound
            &&& apply(removed, parse_line(del_line(key))) == removed
        }),
{
    let stored = apply(store, CommandView::Put { key, value });
    let removed = apply(stored, CommandView::Delete { key });
    assert(removed.remove(key) =~= removed);
    if separator_free(key) {
        lemma_parse_set_line(key, value);
        lemma_parse_del_line(key);
    }
}

/// Of two values stored under one key, a lookup finds the second. The same
/// holds of the lines, for a key without a separator.
pub proof fn lemma_overwrite(
    store: Map<Seq<char>, Seq<char>>,
    key: Seq<char>,
    first: Seq<char>,
    second: Seq<char>,
)
    ensures
        ({
            let once = apply(store, CommandView::Put { key, value: first });
            let twice = apply(once, CommandView::Put { key, value: second });
            answer(twice, CommandView::Get { key }) == ReplyView::Bulk(second)
        }),
        separator_free(key) ==> ({
            let once = apply(store, parse_line(set_line(key, first)));
            let twice = apply(once, parse_line(set_line(key, second)));
            answer(twice, parse_line(get_line(key))) == ReplyView::Bulk(second)
        }),
{
    if separator_free(key) {
        lemma_parse_set_line(key, first);
        lemma_parse_set_line(key, second);
        lemma_parse_get_line(key);
    }
}

/// `line` has one of the three forms: a command word, a separator and a key
/// without a separator, and for `SET` a second separator and a value.
pub open spec fn well_formed(line: Seq<char>) -> bool {
    ||| exists|key: Seq<char>, value: Seq<char>|
        separator_free(key) && line == #[trigger] set_line(key, value)
    ||| exists|key: Seq<char>| separator_free(key) && line == #[trigger] get_line(key)
    ||| exists|key: Seq<char>| separator_free(key) && line == #[trigger] del_line(key)
}

/// The lines that are rejected are exactly those that have none of the three
/// forms. Such a line is answered with the error reply and leaves the store
/// as it is.
pub proof fn lemma_unknown_line(store: Map<Seq<char>, Seq<char>>, line: Seq<char>)
    ensures
        !well_formed(line) <==> parse_line(line) == CommandView::Unrecognized,
        !well_formed(line) ==> answer(store, parse_line(line)) == ReplyView::UnknownCommand,
        !well_formed(line) ==> apply(store, parse_line(line)) == store,
{
    lemma_parse_inverse(line);
    match parse_line(line) {
        CommandView::Put { key, value } => {
            assert(line == set_line(key, value));
        },
        CommandView::Get { key } => {
            assert(line == get_line(key));
        },
        CommandView::Delete { key } => {
            assert(line == del_line(key));
        },
        CommandView::Unrecognized => {
            if well_formed(line) {
                if exists|key: Seq<char>, value: Seq<char>|
                    separator_free(key) && line == #[trigger] set_line(key, value) {
                    let (key, value) = choose|key: Seq<char>, value: Seq<char>|
                        separator_free(key) && line == #[trigger] set_line(key, value);
                    lemma_parse_set_line(key, value);
                } else if exists|key: Seq<char>|
                    separator_free(key) && line == #[trigger] get_line(key) {
                    let key = choose|key: Seq<char>|
                        separator_free(key) && line == #[trigger] get_line(key);
                    lemma_parse_get_line(key);
                } else {
                    let key = choose|key: Seq<char>|
                        separator_free(key) && line == #[trigger] del_line(key);
                    lemma_parse_del_line(key);
                }
            }
        },
    }
}

/// A command touches no key but its own: a lookup of any other key is
/// answered after the command as it was before.
pub proof fn lemma_other_keys_untouched(
    store: Map<Seq<char>, Seq<char>>,
    command: CommandView,
    other: Seq<char>,
)
    requires
        match command {
            CommandView::Put { key, value } => key != other,
            CommandView::Get { key } => true,
            CommandView::Delete { key } => key != other,
            CommandView::Unrecognized => true,
        },
    ensures
        answer(apply(store, command), CommandView::Get { key: other }) == answer(
            store,
            CommandView::Get { key: other },
        ),
{
}

/// The store after a history of commands, carried out one after the other.
pub open spec fn apply_all(store: Map<Seq<char>, Seq<char>>, history: Seq<CommandView>) -> Map<
    Seq<char>,
    Seq<char>,
>
    decreases history.len(),
{
    if history.len() == 0 {
        store
    } else {
        apply(apply_all(store, history.drop_last()), history.last())
    }
}

/// When several writers each store a value under one key, in whatever order
/// their writes come to the store, a lookup afterwards finds the value of one
/// of them, whole: that of the writer that came last.
pub proof fn lemma_last_writer_wins(
    store: Map<Seq<char>, Seq<char>>,
    key: Seq<char>,
    values: Seq<Seq<char>>,
)
    requires
        values.len() > 0,
    ensures
        ({
            let history = Seq::new(
                values.len(),
                |i: int| CommandView::Put { key, value: values[i] },
            );
            &&& answer(apply_all(store, history), CommandView::Get { key }) == ReplyView::Bulk(
                values.last(),
            )
            &&& values.contains(values.last())
        }),
{
}

} // verus!
