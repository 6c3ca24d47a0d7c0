//! The text in which a snapshot is kept in a file.
//!
//! An opaque text is kept as it is. A stroke map is kept as its entries, each
//! written `key:value`, with one blank between two entries. Reading splits
//! the text at white space and each token at its first colon.

use crate::key::{
    decimal, key_of, lemma_decimal_chars, lemma_key_of_decimal, push_key, read_key,
};
use crate::snapshot::{
    distinct_keys, has_key, inserted, Entry, Snapshot, SnapshotView, StrokeMap, Strokes,
};
use crate::text::{
    chars_of, first_where, is_space, is_space_free, is_whitespace, lemma_first_where,
    lemma_first_where_is, lemma_tokens_after_space, lemma_tokens_after_token,
    lemma_tokens_of_joined, lemma_tokens_of_token, push_range, space, space_free, tokens,
};
use vstd::prelude::*;
use vstd::string::StringExecFns;

verus! {

/// The two forms in which a snapshot is kept.
#[derive(Clone, Copy, Debug, PartialEq, Eq, Structural)]
pub enum Format {
    /// The text itself.
    Raw,
    /// `key:value` entries with white space between them.
    KeyValue,
}

/// Why a text is not a stroke map.
#[derive(Clone, Copy, Debug, PartialEq, Eq, Structural)]
pub enum ParseError {
    /// A token holds no colon.
    MissingDelimiter,
    /// What stands before the first colon of a token is not a key.
    InvalidKey,
}

/// The test for a colon, as a predicate.
pub open spec fn colon() -> spec_fn(char) -> bool {
    |c: char| c == ':'
}

/// One entry as text.
pub open spec fn entry_text(e: (int, Seq<char>)) -> Seq<char> {
    decimal(e.0) + seq![':'] + e.1
}

/// The entries as text, in their order, with one blank between two of them.
pub open spec fn strokes_text(es: Strokes) -> Seq<char>
    decreases es.len(),
{
    if es.len() == 0 {
        Seq::empty()
    } else if es.len() == 1 {
        entry_text(es[0])
    } else {
        strokes_text(es.drop_last()) + seq![' '] + entry_text(es.last())
    }
}

/// The entry that a token stands for: the key before its first colon, and as
/// the text all that follows that colon.
pub open spec fn entry_of(token: Seq<char>) -> Result<(int, Seq<char>), ParseError> {
    let at = first_where(token, colon());
    if at >= token.len() {
        Err(ParseError::MissingDelimiter)
    } else {
        match key_of(token.take(at)) {
            Some(key) => Ok((key, token.skip(at + 1))),
            None => Err(ParseError::InvalidKey),
        }
    }
}

/// The entries that the tokens stand for, each put under its key in turn, or
/// the error of the first token that stands for none.
pub open spec fn entries_of(toks: Seq<Seq<char>>) -> Result<Strokes, ParseError>
    decreases toks.len(),
{
    if toks.len() == 0 {
        Ok(Seq::empty())
    } else {
        match entries_of(toks.drop_last()) {
            Err(e) => Err(e),
            Ok(es) => match entry_of(toks.last()) {
                Err(e) => Err(e),
                Ok(entry) => Ok(inserted(es, entry.0, entry.1)),
            },
        }
    }
}

/// The stroke map that a text stands for.
pub open spec fn strokes_of(text: Seq<char>) -> Result<Strokes, ParseError> {
    entries_of(tokens(text))
}

/// The form in which a snapshot is kept.
pub open spec fn format_of(snapshot: SnapshotView) -> Format {
    match snapshot {
        SnapshotView::Text(_) => Format::Raw,
        SnapshotView::Strokes(_) => Format::KeyValue,
    }
}

/// The text that is written for a snapshot.
pub open spec fn encoded(snapshot: SnapshotView) -> Seq<char> {
    match snapshot {
        SnapshotView::Text(text) => text,
        SnapshotView::Strokes(es) => strokes_text(es),
    }
}

/// The snapshot that a text stands for, read in the given form.
pub open spec fn decoded(format: Format, text: Seq<char>) -> Result<SnapshotView, ParseError> {
    match format {
        Format::Raw => Ok(SnapshotView::Text(text)),
        Format::KeyValue => match strokes_of(text) {
            Ok(es) => Ok(SnapshotView::Strokes(es)),
            Err(e) => Err(e),
        },
    }
}

/// Whether a snapshot comes back from its text as it was. Every opaque text
/// does. A stroke map does if its keys are distinct keys and no text of a
/// stroke holds white space. A colon in the text of a stroke does no harm,
/// since an entry is split at its first colon.
pub open spec fn expressible(snapshot: SnapshotView) -> bool {
    match snapshot {
        SnapshotView::Text(_) => true,
        SnapshotView::Strokes(es) => {
            &&& distinct_keys(es)
            &&& forall|i: int|
                0 <= i < es.len() ==> {
                    let e = #[trigger] es[i];
                    i32::MIN <= e.0 <= i32::MAX && space_free(e.1)
                }
        },
    }
}

/// The texts of the entries, each for itself.
pub open spec fn entry_texts(es: Strokes) -> Seq<Seq<char>> {
    Seq::new(es.len(), |i: int| entry_text(es[i]))
}

/// An entry whose text holds no white space is written as one token.
pub proof fn lemma_entry_text_is_token(e: (int, Seq<char>))
    requires
        space_free(e.1),
    ensures
        entry_text(e).len() > 0,
        space_free(entry_text(e)),
{
    lemma_decimal_chars(e.0);
}

/// An entry is read back from its text.
pub proof fn lemma_entry_of_text(e: (int, Seq<char>))
    requires
        i32::MIN <= e.0 <= i32::MAX,
    ensures
        entry_of(entry_text(e)) == Ok::<(int, Seq<char>), ParseError>(e),
{
    lemma_decimal_chars(e.0);
    lemma_key_of_decimal(e.0);
    let key = decimal(e.0);
    let t = entry_text(e);
    lemma_first_where_is(t, colon(), key.len() as int);
    assert(t.take(key.len() as int) == key);
    assert(t.skip(key.len() as int + 1) == e.1);
}

/// The tokens of the text of a stroke map are the texts of its entries.
pub proof fn lemma_tokens_of_strokes_text(es: Strokes)
    requires
        forall|i: int| 0 <= i < es.len() ==> space_free((#[trigger] es[i]).1),
    ensures
        tokens(strokes_text(es)) == entry_texts(es),
    decreases es.len(),
{
    if es.len() > 0 {
        let init = es.drop_last();
        let last = es.last();
        lemma_entry_text_is_token(last);
        lemma_tokens_of_token(entry_text(last));
        if es.len() > 1 {
            lemma_tokens_of_strokes_text(init);
            lemma_tokens_of_joined(strokes_text(init), entry_text(last));
        }
    }
}

/// The texts of the entries of a stroke map are read back as that map.
pub proof fn lemma_entries_of_texts(es: Strokes)
    requires
        distinct_keys(es),
        forall|i: int| 0 <= i < es.len() ==> i32::MIN <= (#[trigger] es[i]).0 <= i32::MAX,
    ensures
        entries_of(entry_texts(es)) == Ok::<Strokes, ParseError>(es),
    decreases es.len(),
{
    if es.len() == 0 {
        assert(es == Seq::<(int, Seq<char>)>::empty());
    } else {
        let init = es.drop_last();
        let last = es.last();
        assert(entry_texts(es).drop_last() == entry_texts(init));
        lemma_entries_of_texts(init);
        lemma_entry_of_text(last);
        lemma_first_where_is(init, has_key(last.0), init.len() as int);
        assert(inserted(init, last.0, last.1) == es);
    }
}

/// A snapshot that is written and read again comes back as it was.
pub proof fn lemma_round_trip(snapshot: SnapshotView)
    requires
        expressible(snapshot),
    ensures
        decoded(format_of(snapshot), encoded(snapshot)) == Ok::<SnapshotView, ParseError>(snapshot),
{
    match snapshot {
        SnapshotView::Text(_) => {},
        SnapshotView::Strokes(es) => {
            lemma_tokens_of_strokes_text(es);
            lemma_entries_of_texts(es);
        },
    }
}

/// No token is empty, and none holds white space.
pub proof fn lemma_tokens_are_tokens(s: Seq<char>)
    ensures
        forall|i: int|
            0 <= i < tokens(s).len() ==> (#[trigger] tokens(s)[i]).len() > 0 && space_free(
                tokens(s)[i],
            ),
    decreases s.len(),
{
    if s.len() > 0 {
        if is_space(s[0]) {
            lemma_tokens_are_tokens(s.skip(1));
            assert(tokens(s) == tokens(s.skip(1)));
        } else {
            let n = first_where(s, space());
            lemma_first_where(s, space());
            lemma_tokens_are_tokens(s.skip(n));
            assert(tokens(s) == seq![s.take(n)] + tokens(s.skip(n)));
            assert(n > 0 && space_free(s.take(n)));
        }
    }
}

/// What is read from tokens is expressible.
pub proof fn lemma_entries_of_expressible(toks: Seq<Seq<char>>)
    requires
        forall|i: int| 0 <= i < toks.len() ==> space_free(#[trigger] toks[i]),
    ensures
        entries_of(toks) matches Ok(es) ==> expressible(SnapshotView::Strokes(es)),
    decreases toks.len(),
{
    if toks.len() > 0 {
        let init = toks.drop_last();
        let last = toks.last();
        lemma_entries_of_expressible(init);
        if let Ok(before) = entries_of(init) {
            if let Ok(entry) = entry_of(last) {
                lemma_first_where(last, colon());
                lemma_first_where(before, has_key(entry.0));
            }
        }
    }
}

/// What is read from a text is expressible, and of the form that was asked
/// for.
pub proof fn lemma_read_is_expressible(format: Format, text: Seq<char>)
    ensures
        decoded(format, text) matches Ok(snapshot) ==> expressible(snapshot) && format_of(snapshot)
            == format,
{
    lemma_tokens_are_tokens(text);
    lemma_entries_of_expressible(tokens(text));
}

/// A snapshot that was read from a text comes back as it is when it is
/// written and read again.
pub proof fn lemma_read_is_stable(format: Format, text: Seq<char>)
    ensures
        decoded(format, text) matches Ok(snapshot) ==> decoded(format, encoded(snapshot)) == Ok::<
            SnapshotView,
            ParseError,
        >(snapshot),
{
    lemma_read_is_expressible(format, text);
    if let Ok(snapshot) = decoded(format, text) {
        lemma_round_trip(snapshot);
    }
}

/// Once a token stands for no entry, the tokens stand for no stroke map,
/// whatever follows.
pub proof fn lemma_entries_of_fails(done: Seq<Seq<char>>, rest: Seq<Seq<char>>)
    requires
        entries_of(done) is Err,
    ensures
        entries_of(done + rest) == entries_of(done),
    decreases rest.len(),
{
    if rest.len() > 0 {
        assert((done + rest).drop_last() == done + rest.drop_last());
        lemma_entries_of_fails(done, rest.drop_last());
    }
}

/// The text that is written for a stroke map.
fn encode_strokes(map: &StrokeMap) -> (text: String)
    ensures
        text@ == strokes_text(map@),
{
    let mut text = String::new();
    let mut i: usize = 0;
    while i < map.entries.len()
        invariant
            i <= map.entries.len(),
            text@ == strokes_text(map@.take(i as int)),
        decreases map.entries.len() - i,
    {
        if i > 0 {
            text.push(' ');
        }
        push_key(&mut text, map.entries[i].key);
        text.push(':');
        text.append(map.entries[i].value.as_str());
        assert(map@.take(i + 1).drop_last() == map@.take(i as int));
        i += 1;
    }
    assert(map@.take(i as int) == map@);
    text
}

/// Whether `snapshot` comes back from its text as it is.
pub fn is_expressible(snapshot: &Snapshot) -> (ok: bool)
    ensures
        ok == expressible(snapshot@),
{
    match snapshot {
        Snapshot::Text(_) => true,
        Snapshot::Strokes(map) => {
            if !map.has_distinct_keys() {
                return false;
            }
            let mut i: usize = 0;
            while i < map.entries.len()
                invariant
                    i <= map.entries.len(),
                    snapshot@ == SnapshotView::Strokes(map@),
                    forall|k: int| 0 <= k < i ==> space_free((#[trigger] map@[k]).1),
                decreases map.entries.len() - i,
            {
                if !is_space_free(map.entries[i].value.as_str()) {
                    assert(!space_free(map@[i as int].1));
                    return false;
                }
                i += 1;
            }
            true
        },
    }
}

/// The text that is written for `snapshot`.
pub fn encode(snapshot: &Snapshot) -> (text: String)
    ensures
        text@ == encoded(snapshot@),
{
    match snapshot {
        Snapshot::Text(text) => text.clone(),
        Snapshot::Strokes(map) => encode_strokes(map),
    }
}

/// Reads the token `chars[from..to]` as an entry.
fn read_entry(chars: &Vec<char>, from: usize, to: usize) -> (entry: Result<Entry, ParseError>)
    requires
        from <= to <= chars.len(),
    ensures
        entry_of(chars@.subrange(from as int, to as int)) == match entry {
            Ok(e) => Ok::<(int, Seq<char>), ParseError>(e@),
            Err(e) => Err(e),
        },
{
    let ghost token = chars@.subrange(from as int, to as int);
    let mut at: usize = from;
    while at < to && chars[at] != ':'
        invariant
            from <= at <= to <= chars.len(),
            token == chars@.subrange(from as int, to as int),
            forall|k: int| 0 <= k < at - from ==> !colon()(#[trigger] token[k]),
        decreases to - at,
    {
        at += 1;
    }
    proof {
        lemma_first_where_is(token, colon(), at - from);
    }
    if at == to {
        return Err(ParseError::MissingDelimiter);
    }
    assert(token.take(at - from) == chars@.subrange(from as int, at as int));
    assert(token.skip(at - from + 1) == chars@.subrange(at + 1, to as int));
    match read_key(chars, from, at) {
        None => Err(ParseError::InvalidKey),
        Some(key) => {
            let mut value = String::new();
            push_range(&mut value, chars, at + 1, to);
            Ok(Entry { key, value })
        },
    }
}

/// Reads `chars` as a stroke map, token by token.
fn decode_strokes(chars: &Vec<char>) -> (map: Result<StrokeMap, ParseError>)
    ensures
        strokes_of(chars@) == match map {
            Ok(m) => Ok::<Strokes, ParseError>(m@),
            Err(e) => Err(e),
        },
        map matches Ok(m) ==> m.wf(),
{
    let mut map = StrokeMap::new();
    let ghost mut done: Seq<Seq<char>> = Seq::empty();
    let n = chars.len();
    let mut i: usize = 0;
    assert(chars@.skip(0) == chars@);
    while i < n
        invariant
            i <= n == chars.len(),
            tokens(chars@) == done + tokens(chars@.skip(i as int)),
            entries_of(done) == Ok::<Strokes, ParseError>(map@),
            map.wf(),
        decreases n - i,
    {
        if is_whitespace(chars[i]) {
            proof {
                lemma_tokens_after_space(chars@, i as int);
            }
            i += 1;
        } else {
            let mut j: usize = i + 1;
            while j < n && !is_whitespace(chars[j])
                invariant
                    i < j <= n == chars.len(),
                    forall|k: int| i <= k < j ==> !is_space(#[trigger] chars@[k]),
                decreases n - j,
            {
                j += 1;
            }
            let ghost token = chars@.subrange(i as int, j as int);
            proof {
                lemma_tokens_after_token(chars@, i as int, j as int);
                assert(done + (seq![token] + tokens(chars@.skip(j as int))) == done.push(token)
                    + tokens(chars@.skip(j as int)));
                assert(done.push(token).drop_last() == done);
            }
            match read_entry(chars, i, j) {
                Err(e) => {
                    proof {
                        lemma_entries_of_fails(done.push(token), tokens(chars@.skip(j as int)));
                    }
                    return Err(e);
                },
                Ok(entry) => {
                    map.insert(entry.key, entry.value);
                },
            }
            proof {
                done = done.push(token);
            }
            i = j;
        }
    }
    Ok(map)
}

/// Reads `text` as a snapshot in the given form. A stroke map that is read
/// has no key twice: of two entries with one key the later text is kept, at
/// the place of the earlier.
pub fn decode(format: Format, text: &str) -> (snapshot: Result<Snapshot, ParseError>)
    ensures
        decoded(format, text@) == match snapshot {
            Ok(s) => Ok::<SnapshotView, ParseError>(s@),
            Err(e) => Err(e),
        },
        snapshot matches Ok(s) ==> expressible(s@) && format_of(s@) == format,
{
    proof {
        lemma_read_is_expressible(format, text@);
    }
    match format {
        Format::Raw => Ok(Snapshot::Text(text.to_owned())),
        Format::KeyValue => {
            let chars = chars_of(text);
            match decode_strokes(&chars) {
                Ok(map) => Ok(Snapshot::Strokes(map)),
                Err(e) => Err(e),
            }
        },
    }
}

} // verus!
