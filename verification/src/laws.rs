//! What holds of the four operations together.

use vstd::prelude::*;
use crate::error::ErrorView;
use crate::file::ContentView;
use crate::file::FileView;
use crate::line::keyed;
use crate::line::keyed_by;
use crate::line::lemma_pair_line;
use crate::line::lemma_stored_pair;
use crate::line::not_keyed_by;
use crate::line::parse;
use crate::line::LineView;
use crate::pair::PairView;
use crate::store::answers;
use crate::store::delete_lines;
use crate::store::delete_spec;
use crate::store::get_spec;
use crate::store::lookup;
use crate::store::matching;
use crate::store::put_lines;
use crate::store::put_spec;
use crate::text::first_where;
use crate::text::is_char;
use crate::text::lemma_first_unique;
use crate::text::lemma_first_where;

verus! {

/// How many of `lines` are a pair stored under `key`.
pub open spec fn occurrences(lines: Seq<Seq<char>>, key: Seq<char>) -> nat {
    lines.filter(keyed_by(key)).len()
}

/// The file at `path` with `lines` as its whole content.
pub open spec fn whole(path: Seq<char>, lines: Seq<Seq<char>>) -> FileView {
    FileView { path, content: ContentView::Complete(lines) }
}

/// A key under which some line is stored holds no `=`.
pub proof fn lemma_stored_key(line: Seq<char>, key: Seq<char>)
    requires
        keyed(line, key),
    ensures
        !key.contains('='),
{
    lemma_pair_line(line);
}

/// For a key without `=`, the lines that `get` takes for it are the pairs stored under it.
pub proof fn lemma_answers_keyed(line: Seq<char>, key: Seq<char>)
    requires
        !key.contains('='),
    ensures
        answers(key)(line) == keyed(line, key),
{
    let prefix = key + seq!['='];
    let n = key.len() as int;
    if answers(key)(line) {
        assert(line[n] == prefix[n]);
        assert forall|j: int| 0 <= j < n implies !is_char('=')(#[trigger] line[j]) by {
            assert(line[j] == prefix[j]);
        }
        lemma_first_unique(line, is_char('='), n);
        assert(line.take(n) =~= key);
    }
}

/// No line is stored under `key` exactly where `key` occurs zero times.
pub proof fn lemma_absent(lines: Seq<Seq<char>>, key: Seq<char>)
    ensures
        occurrences(lines, key) == 0 <==> forall|i: int|
            0 <= i < lines.len() ==> !keyed(#[trigger] lines[i], key),
{
    let p = keyed_by(key);
    if occurrences(lines, key) == 0 {
        assert forall|i: int| 0 <= i < lines.len() implies !keyed(#[trigger] lines[i], key) by {
            if keyed(lines[i], key) {
                lines.lemma_filter_contains(p, i);
            }
        }
    } else {
        lines.lemma_filter_contains_rev(p, lines.filter(p)[0]);
    }
}

/// A filter that every element passes keeps the sequence as it is.
pub proof fn lemma_filter_keeps_all<A>(s: Seq<A>, p: spec_fn(A) -> bool)
    requires
        forall|i: int| 0 <= i < s.len() ==> p(#[trigger] s[i]),
    ensures
        s.filter(p) == s,
    decreases s.len(),
{
    reveal(Seq::filter);
    if s.len() > 0 {
        lemma_filter_keeps_all(s.drop_last(), p);
    }
}

/// After `value` was put under a key without `=`, a lookup of the key gives the key and `value`,
/// however often the key occurred before.
pub proof fn lemma_put_then_lookup(lines: Seq<Seq<char>>, key: Seq<char>, value: Seq<char>)
    requires
        !key.contains('='),
    ensures
        lookup(put_lines(lines, key, value), key) == Some(PairView { key, value }),
{
    let pair = PairView { key, value };
    let stored = pair.line();
    let after = put_lines(lines, key, value);
    lemma_stored_pair(pair);
    lemma_first_where(lines, keyed_by(key));
    let at = match first_where(lines, keyed_by(key)) {
        Some(i) => i,
        None => lines.len() as int,
    };
    assert forall|j: int| 0 <= j < at implies !answers(key)(#[trigger] after[j]) by {
        lemma_answers_keyed(lines[j], key);
    }
    lemma_first_unique(after, answers(key), at);
}

/// Round trip: where `key` is stored on exactly one line of a file, `put` of `value` under it
/// succeeds, and `get` of the key on the lines that `put` returned gives `value`.
pub proof fn law_round_trip(
    path: Seq<char>,
    lines: Seq<Seq<char>>,
    key: Seq<char>,
    value: Seq<char>,
)
    requires
        occurrences(lines, key) == 1,
    ensures
        put_spec(whole(path, lines), key, value) == Ok::<Seq<Seq<char>>, ErrorView>(
            put_lines(lines, key, value),
        ),
        get_spec(whole(path, put_lines(lines, key, value)), key) == Ok::<PairView, ErrorView>(
            PairView { key, value },
        ),
{
    lemma_absent(lines, key);
    let i = choose|i: int| 0 <= i < lines.len() && keyed(#[trigger] lines[i], key);
    lemma_stored_key(lines[i], key);
    lemma_put_then_lookup(lines, key, value);
}

/// Idempotent delete: `delete` of a key that no line of a file is stored under succeeds and
/// returns the lines of the file as they are.
pub proof fn law_delete_absent(path: Seq<char>, lines: Seq<Seq<char>>, key: Seq<char>)
    requires
        occurrences(lines, key) == 0,
    ensures
        delete_spec(whole(path, lines), key) == Ok::<Seq<Seq<char>>, ErrorView>(lines),
{
    lemma_absent(lines, key);
    lemma_filter_keeps_all(lines, not_keyed_by(key));
}

/// After `delete` of a key without `=`, `get` of the key finds nothing.
pub proof fn law_delete_then_get(path: Seq<char>, lines: Seq<Seq<char>>, key: Seq<char>)
    requires
        !key.contains('='),
    ensures
        get_spec(whole(path, delete_lines(lines, key)), key) == Err::<PairView, ErrorView>(
            ErrorView::KeyNotFound { path },
        ),
{
    let left = delete_lines(lines, key);
    assert forall|i: int| 0 <= i < left.len() implies !answers(key)(#[trigger] left[i]) by {
        lines.lemma_filter_pred(not_keyed_by(key), i);
        lemma_answers_keyed(left[i], key);
    }
}

/// Order preservation: `put` leaves every line that is no pair under `key` where it was and as it
/// was, and adds at most one line behind them; `delete` leaves exactly those lines, in their
/// order.
pub proof fn law_other_lines_kept(lines: Seq<Seq<char>>, key: Seq<char>, value: Seq<char>)
    ensures
        lines.len() <= put_lines(lines, key, value).len() <= lines.len() + 1,
        forall|i: int|
            0 <= i < lines.len() && !keyed(#[trigger] lines[i], key) ==> put_lines(
                lines,
                key,
                value,
            )[i] == lines[i],
        delete_lines(lines, key) == lines.filter(not_keyed_by(key)),
        forall|i: int|
            0 <= i < delete_lines(lines, key).len() ==> !keyed(
                #[trigger] delete_lines(lines, key)[i],
                key,
            ),
{
    assert forall|i: int| 0 <= i < delete_lines(lines, key).len() implies !keyed(
        #[trigger] delete_lines(lines, key)[i],
        key,
    ) by {
        lines.lemma_filter_pred(not_keyed_by(key), i);
    }
}

/// First match wins: where `key` is stored on line `i` and on a later line `j`, and on no line
/// before `i`, `get` gives the pair of line `i`.
pub proof fn law_first_match_wins(
    path: Seq<char>,
    lines: Seq<Seq<char>>,
    key: Seq<char>,
    i: int,
    j: int,
)
    requires
        0 <= i < j < lines.len(),
        keyed(lines[i], key),
        keyed(lines[j], key),
        forall|k: int| 0 <= k < i ==> !keyed(#[trigger] lines[k], key),
    ensures
        parse(lines[i]) matches LineView::Pair(pair) && get_spec(whole(path, lines), key) == Ok::<
            PairView,
            ErrorView,
        >(pair),
{
    lemma_stored_key(lines[i], key);
    lemma_answers_keyed(lines[i], key);
    assert forall|k: int| 0 <= k < i implies !answers(key)(#[trigger] lines[k]) by {
        lemma_answers_keyed(lines[k], key);
    }
    lemma_first_unique(lines, answers(key), i);
}

/// Append on miss: `put` under a key that no line of a file is stored under returns the lines of
/// the file followed by the one line `key=value`.
pub proof fn law_append_on_miss(
    path: Seq<char>,
    lines: Seq<Seq<char>>,
    key: Seq<char>,
    value: Seq<char>,
)
    requires
        occurrences(lines, key) == 0,
    ensures
        put_spec(whole(path, lines), key, value) == Ok::<Seq<Seq<char>>, ErrorView>(
            lines.push(key + seq!['='] + value),
        ),
{
    lemma_absent(lines, key);
}

/// Prefix semantics: `scan` lists the lines of a file one by one, in file order. A line adds its
/// pair to the list where it begins with `prefix` and is a pair; a comment, a line that is not
/// recognized, and a line that does not begin with `prefix` add nothing.
pub proof fn law_prefix_semantics(lines: Seq<Seq<char>>, line: Seq<char>, prefix: Seq<char>)
    ensures
        matching(Seq::empty(), prefix) == Seq::<PairView>::empty(),
        matching(lines.push(line), prefix) == match parse(line) {
            LineView::Pair(pair) if prefix.is_prefix_of(line) => matching(lines, prefix).push(pair),
            _ => matching(lines, prefix),
        },
{
    assert(lines.push(line).drop_last() =~= lines);
}

} // verus!
