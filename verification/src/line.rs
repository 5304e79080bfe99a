//! The line parser: what one line of an env file is.

use vstd::prelude::*;
use vstd::string::StrSliceExecFns;
use vstd::string::StringExecFns;
use crate::pair::EnvPair;
use crate::pair::PairView;
use crate::text::first_where;
use crate::text::is_char;
use crate::text::lemma_first_unique;
use crate::text::lemma_first_where;
use crate::text::split_once;

verus! {

/// One line of an env file, classified.
#[derive(Debug, PartialEq, Eq)]
pub enum RawLine {
    /// The line holds `=`: what stands before the first one is the key, the rest the value.
    Pair(EnvPair),
    /// The line holds no `=` and begins with `#`.
    Comment,
    /// Any other line, with its text.
    Unrecognized(String),
}

/// The mathematical content of a `RawLine`.
pub enum LineView {
    Pair(PairView),
    Comment,
    Unrecognized(Seq<char>),
}

impl View for RawLine {
    type V = LineView;

    open spec fn view(&self) -> LineView {
        match self {
            RawLine::Pair(pair) => LineView::Pair(pair@),
            RawLine::Comment => LineView::Comment,
            RawLine::Unrecognized(text) => LineView::Unrecognized(text@),
        }
    }
}

/// What a line of text is: split at its first `=` where it has one, else a comment where it
/// begins with `#`, else unrecognized.
pub open spec fn parse(line: Seq<char>) -> LineView {
    match first_where(line, is_char('=')) {
        Some(i) => LineView::Pair(PairView { key: line.take(i), value: line.skip(i + 1) }),
        None => if line.len() > 0 && line[0] == '#' {
            LineView::Comment
        } else {
            LineView::Unrecognized(line)
        },
    }
}

/// The pair that `line` holds, where it holds one.
pub open spec fn as_pair(line: Seq<char>) -> Option<PairView> {
    match parse(line) {
        LineView::Pair(pair) => Some(pair),
        _ => None,
    }
}

/// Whether `line` is a pair stored under `key`.
pub open spec fn keyed(line: Seq<char>, key: Seq<char>) -> bool {
    parse(line) matches LineView::Pair(pair) && pair.key == key
}

/// The predicate that holds of the lines that are a pair stored under `key`.
pub open spec fn keyed_by(key: Seq<char>) -> spec_fn(Seq<char>) -> bool {
    |line: Seq<char>| keyed(line, key)
}

/// The predicate that holds of every other line.
pub open spec fn not_keyed_by(key: Seq<char>) -> spec_fn(Seq<char>) -> bool {
    |line: Seq<char>| !keyed(line, key)
}

/// Classifies one line of an env file.
pub fn line_to_env_pair(line: &str) -> (parsed: RawLine)
    ensures
        parsed@ == parse(line@),
        parsed matches RawLine::Pair(pair) ==> pair@.wf() && pair@.line() == line@,
{
    proof {
        if parse(line@) is Pair {
            lemma_pair_line(line@);
        }
    }
    match split_once(line, '=') {
        Some((key, value)) => RawLine::Pair(
            EnvPair { key: String::from_str(key), value: String::from_str(value) },
        ),
        None => {
            if !line.is_empty() && line.get_char(0) == '#' {
                RawLine::Comment
            } else {
                RawLine::Unrecognized(String::from_str(line))
            }
        },
    }
}

/// A line that is a pair is its key, `=` and its value, and its key holds no `=`.
pub proof fn lemma_pair_line(line: Seq<char>)
    requires
        parse(line) is Pair,
    ensures
        parse(line) matches LineView::Pair(pair) && pair.wf() && pair.line() == line,
{
    lemma_first_where(line, is_char('='));
    let i = first_where(line, is_char('=')).unwrap();
    let pair = PairView { key: line.take(i), value: line.skip(i + 1) };
    assert(pair.line() =~= line);
    assert forall|j: int| 0 <= j < pair.key.len() implies pair.key[j] != '=' by {
        assert(!is_char('=')(line[j]));
    }
}

/// The line that stores a pair whose key holds no `=` is read back as that pair.
pub proof fn lemma_stored_pair(pair: PairView)
    requires
        pair.wf(),
    ensures
        parse(pair.line()) == LineView::Pair(pair),
{
    let line = pair.line();
    let i = pair.key.len() as int;
    assert(line[i] == '=');
    assert forall|j: int| 0 <= j < i implies !is_char('=')(#[trigger] line[j]) by {
        assert(line[j] == pair.key[j]);
    }
    lemma_first_unique(line, is_char('='), i);
    assert(line.take(i) =~= pair.key);
    assert(line.skip(i + 1) =~= pair.value);
}

/// A line is a pair exactly where it holds `=`.
pub proof fn lemma_pair_iff_delimited(line: Seq<char>)
    ensures
        parse(line) is Pair <==> line.contains('='),
{
    lemma_first_where(line, is_char('='));
    if line.contains('=') {
        let i = choose|i: int| 0 <= i < line.len() && line[i] == '=';
        assert(is_char('=')(line[i]));
    }
}

} // verus!
