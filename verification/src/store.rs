//! The four operations on the lines of an env file: `get`, `scan`, `put` and `delete`.

use vstd::prelude::*;
use vstd::string::StringExecFns;
use crate::error::EnvError;
use crate::error::ErrorView;
use crate::file::Content;
use crate::file::ContentView;
use crate::file::EnvFile;
use crate::file::FileView;
use crate::line::as_pair;
use crate::line::lemma_pair_iff_delimited;
use crate::line::line_to_env_pair;
use crate::line::keyed_by;
use crate::line::not_keyed_by;
use crate::line::parse;
use crate::line::RawLine;
use crate::pair::EnvPair;
use crate::pair::PairView;
use crate::text::begins_with;
use crate::text::first_where;
use crate::text::is_first;
use crate::text::lemma_first_unique;
use crate::text::starts_with;

verus! {

/// The predicate that holds of the lines that `get` takes for `key`: those that begin with the
/// key and `=`. Such a line holds `=`, so it is a pair.
pub open spec fn answers(key: Seq<char>) -> spec_fn(Seq<char>) -> bool {
    begins_with(key + seq!['='])
}

/// A line that answers for a key is a pair, so that `get` has no line to skip or to report.
pub proof fn lemma_answer_is_pair(line: Seq<char>, key: Seq<char>)
    requires
        answers(key)(line),
    ensures
        as_pair(line) is Some,
{
    let at = key.len() as int;
    assert(line[at] == (key + seq!['='])[at]);
    lemma_pair_iff_delimited(line);
}

/// The pair of the first of `lines` that answers for `key`.
pub open spec fn lookup(lines: Seq<Seq<char>>, key: Seq<char>) -> Option<PairView> {
    match first_where(lines, answers(key)) {
        Some(i) => as_pair(lines[i]),
        None => None,
    }
}

/// What `get` returns. The lines are searched as far as they were read, so a match before an
/// unreadable line is still found.
pub open spec fn get_spec(file: FileView, key: Seq<char>) -> Result<PairView, ErrorView> {
    match file.content {
        ContentView::Unopened => Err(ErrorView::FileOpen { path: file.path }),
        ContentView::Truncated(lines) => match lookup(lines, key) {
            Some(pair) => Ok(pair),
            None => Err(ErrorView::LineRead { path: file.path }),
        },
        ContentView::Complete(lines) => match lookup(lines, key) {
            Some(pair) => Ok(pair),
            None => Err(ErrorView::KeyNotFound { path: file.path }),
        },
    }
}

/// The pair of the first of `lines` that answers for `key`.
fn find_pair(lines: &Vec<String>, key: &str) -> (found: Option<EnvPair>)
    ensures
        match found {
            Some(pair) => lookup(lines.deep_view(), key@) == Some(pair@) && pair@.wf(),
            None => lookup(lines.deep_view(), key@) is None,
        },
{
    proof {
        reveal_strlit("=");
    }
    let key_with_equal = String::from_str(key).concat("=");
    let ghost texts = lines.deep_view();
    let mut i: usize = 0;
    while i < lines.len()
        invariant
            0 <= i <= lines.len(),
            texts == lines.deep_view(),
            key_with_equal@ == key@ + seq!['='],
            forall|j: int| 0 <= j < i ==> !answers(key@)(#[trigger] texts[j]),
        decreases lines.len() - i,
    {
        let line = lines[i].as_str();
        if starts_with(line, key_with_equal.as_str()) {
            proof {
                lemma_answer_is_pair(line@, key@);
            }
            match line_to_env_pair(line) {
                RawLine::Pair(pair) => {
                    proof {
                        lemma_first_unique(texts, answers(key@), i as int);
                    }
                    return Some(pair);
                },
                _ => {},
            }
        }
        i = i + 1;
    }
    None
}

/// Looks `key` up in `file`: the pair of the first line that begins with the key and `=`.
pub fn get(file: &EnvFile, key: &str) -> (r: Result<EnvPair, EnvError>)
    ensures
        match r {
            Ok(pair) => get_spec(file@, key@) == Ok::<PairView, ErrorView>(pair@) && pair@.wf(),
            Err(e) => get_spec(file@, key@) == Err::<PairView, ErrorView>(e@),
        },
{
    match &file.content {
        Content::Unopened => Err(EnvError::FileOpen { path: file.path.clone() }),
        Content::Truncated(lines) => match find_pair(lines, key) {
            Some(pair) => Ok(pair),
            None => Err(EnvError::LineRead { path: file.path.clone() }),
        },
        Content::Complete(lines) => match find_pair(lines, key) {
            Some(pair) => Ok(pair),
            None => Err(EnvError::KeyNotFound { path: file.path.clone() }),
        },
    }
}

/// The text that reports a line that was not recognized.
pub open spec fn notice(line: Seq<char>) -> Seq<char> {
    "Skip parse line: "@ + line
}

/// The function that gives the notice for a line that begins with `prefix` and is not recognized,
/// and nothing for any other line.
pub open spec fn noticed(prefix: Seq<char>) -> spec_fn(Seq<char>) -> Option<Seq<char>> {
    |line: Seq<char>|
        if prefix.is_prefix_of(line) && parse(line) is Unrecognized {
            Some(notice(line))
        } else {
            None
        }
}

/// The notices for those of `lines` that begin with `prefix` and are not recognized, in the
/// order of the lines.
pub open spec fn notices(lines: Seq<Seq<char>>, prefix: Seq<char>) -> Seq<Seq<char>> {
    lines.filter_map(noticed(prefix))
}

/// The function that gives the pair of a line that begins with `prefix` and holds one, and
/// nothing for any other line.
pub open spec fn picked(prefix: Seq<char>) -> spec_fn(Seq<char>) -> Option<PairView> {
    |line: Seq<char>|
        if prefix.is_prefix_of(line) {
            as_pair(line)
        } else {
            None
        }
}

/// The pairs of those of `lines` that begin with `prefix`, in the order of the lines.
pub open spec fn matching(lines: Seq<Seq<char>>, prefix: Seq<char>) -> Seq<PairView> {
    lines.filter_map(picked(prefix))
}

/// What `scan` returns.
pub open spec fn scan_spec(file: FileView, prefix: Seq<char>) -> Result<Seq<PairView>, ErrorView> {
    match file.content {
        ContentView::Unopened => Err(ErrorView::FileOpen { path: file.path }),
        ContentView::Truncated(_) => Err(ErrorView::LineRead { path: file.path }),
        ContentView::Complete(lines) => Ok(matching(lines, prefix)),
    }
}

/// The notice for `line`, which was not recognized.
fn skip_notice(line: &str) -> (text: String)
    ensures
        text@ == notice(line@),
{
    String::from_str("Skip parse line: ").concat(line)
}

/// The pairs of those of `lines` that begin with `prefix`; a notice goes to `log` for each that
/// begins with it and is not recognized.
fn collect(lines: &Vec<String>, prefix: &str, log: &mut Vec<String>) -> (pairs: Vec<EnvPair>)
    ensures
        pairs.deep_view() == matching(lines.deep_view(), prefix@),
        forall|i: int| 0 <= i < pairs.len() ==> (#[trigger] pairs[i])@.wf(),
        final(log).deep_view() == old(log).deep_view() + notices(lines.deep_view(), prefix@),
{
    let ghost texts = lines.deep_view();
    let mut pairs: Vec<EnvPair> = Vec::new();
    let mut i: usize = 0;
    while i < lines.len()
        invariant
            0 <= i <= lines.len(),
            texts == lines.deep_view(),
            pairs.deep_view() == matching(texts.take(i as int), prefix@),
            forall|j: int| 0 <= j < pairs.len() ==> (#[trigger] pairs[j])@.wf(),
            log.deep_view() == old(log).deep_view() + notices(texts.take(i as int), prefix@),
        decreases lines.len() - i,
    {
        let line = lines[i].as_str();
        let ghost logged = log.deep_view();
        proof {
            texts.lemma_filter_map_take_succ(picked(prefix@), i as int);
            texts.lemma_filter_map_take_succ(noticed(prefix@), i as int);
        }
        if starts_with(line, prefix) {
            match line_to_env_pair(line) {
                RawLine::Pair(pair) => {
                    pairs.push(pair);
                },
                RawLine::Comment => {},
                RawLine::Unrecognized(_) => {
                    let text = skip_notice(line);
                    log.push(text);
                    assert(log.deep_view() =~= logged.push(text@));
                },
            }
        }
        i = i + 1;
    }
    assert(texts.take(i as int) =~= texts);
    pairs
}

/// Lists the pairs of the lines of `file` that begin with `key_prefix`, in file order. A line that
/// begins with it and is not recognized is left out, and a notice of it goes to `log`.
pub fn scan(file: &EnvFile, key_prefix: &str, log: &mut Vec<String>) -> (r: Result<
    Vec<EnvPair>,
    EnvError,
>)
    ensures
        match r {
            Ok(pairs) => scan_spec(file@, key_prefix@) == Ok::<Seq<PairView>, ErrorView>(
                pairs.deep_view(),
            ) && forall|i: int| 0 <= i < pairs.len() ==> (#[trigger] pairs[i])@.wf(),
            Err(e) => scan_spec(file@, key_prefix@) == Err::<Seq<PairView>, ErrorView>(e@),
        },
        final(log).deep_view() == old(log).deep_view() + notices(
            file@.content.lines(),
            key_prefix@,
        ),
{
    match &file.content {
        Content::Unopened => Err(EnvError::FileOpen { path: file.path.clone() }),
        Content::Truncated(lines) => {
            let _ = collect(lines, key_prefix, log);
            Err(EnvError::LineRead { path: file.path.clone() })
        },
        Content::Complete(lines) => Ok(collect(lines, key_prefix, log)),
    }
}

/// The lines after `value` was put under `key`: the first line that is a pair under `key` now
/// stores the new pair, or, where there is none, a line that stores it is added at the end.
pub open spec fn put_lines(lines: Seq<Seq<char>>, key: Seq<char>, value: Seq<char>) -> Seq<
    Seq<char>,
> {
    let stored = PairView { key, value }.line();
    match first_where(lines, keyed_by(key)) {
        Some(i) => lines.update(i, stored),
        None => lines.push(stored),
    }
}

/// What `put` returns.
pub open spec fn put_spec(file: FileView, key: Seq<char>, value: Seq<char>) -> Result<
    Seq<Seq<char>>,
    ErrorView,
> {
    match file.content {
        ContentView::Unopened => Err(ErrorView::FileOpen { path: file.path }),
        ContentView::Truncated(_) => Err(ErrorView::LineRead { path: file.path }),
        ContentView::Complete(lines) => Ok(put_lines(lines, key, value)),
    }
}

/// The lines after `key` was deleted: those that are no pair under `key`, in their order.
pub open spec fn delete_lines(lines: Seq<Seq<char>>, key: Seq<char>) -> Seq<Seq<char>> {
    lines.filter(not_keyed_by(key))
}

/// What `delete` returns.
pub open spec fn delete_spec(file: FileView, key: Seq<char>) -> Result<Seq<Seq<char>>, ErrorView> {
    match file.content {
        ContentView::Unopened => Err(ErrorView::FileOpen { path: file.path }),
        ContentView::Truncated(_) => Err(ErrorView::LineRead { path: file.path }),
        ContentView::Complete(lines) => Ok(delete_lines(lines, key)),
    }
}

/// The lines with `value` put under `key`; a notice goes to `log` for each line that is not
/// recognized.
fn replace(lines: &Vec<String>, key: &str, value: &str, log: &mut Vec<String>) -> (out: Vec<String>)
    ensures
        out.deep_view() == put_lines(lines.deep_view(), key@, value@),
        final(log).deep_view() == old(log).deep_view() + notices(lines.deep_view(), Seq::empty()),
{
    let ghost texts = lines.deep_view();
    let ghost stored = PairView { key: key@, value: value@ }.line();
    let wanted = String::from_str(key);
    let mut out: Vec<String> = Vec::new();
    let mut replaced = false;
    let ghost mut at: int = 0;
    let mut i: usize = 0;
    while i < lines.len()
        invariant
            0 <= i <= lines.len(),
            texts == lines.deep_view(),
            stored == (PairView { key: key@, value: value@ }).line(),
            wanted@ == key@,
            replaced ==> is_first(texts, keyed_by(key@), at) && at < i && out.deep_view()
                == texts.take(i as int).update(at, stored),
            !replaced ==> out.deep_view() == texts.take(i as int) && forall|j: int|
                0 <= j < i ==> !keyed_by(key@)(#[trigger] texts[j]),
            log.deep_view() == old(log).deep_view() + notices(
                texts.take(i as int),
                Seq::empty(),
            ),
        decreases lines.len() - i,
    {
        let line = lines[i].as_str();
        let ghost before = out.deep_view();
        let ghost logged = log.deep_view();
        proof {
            texts.lemma_filter_map_take_succ(noticed(Seq::empty()), i as int);
        }
        match line_to_env_pair(line) {
            RawLine::Pair(pair) => {
                if !replaced && pair.key == wanted {
                    let fresh = EnvPair { key: pair.key, value: String::from_str(value) };
                    out.push(fresh.to_line());
                    replaced = true;
                    proof {
                        at = i as int;
                    }
                } else {
                    out.push(lines[i].clone());
                }
            },
            RawLine::Comment => {
                out.push(lines[i].clone());
            },
            RawLine::Unrecognized(_) => {
                let text = skip_notice(line);
                log.push(text);
                out.push(lines[i].clone());
                assert(log.deep_view() =~= logged.push(text@));
            },
        }
        assert(out.deep_view() =~= before.push(
            if replaced && at == i {
                stored
            } else {
                line@
            },
        ));
        i = i + 1;
    }
    assert(texts.take(i as int) =~= texts);
    if !replaced {
        let fresh = EnvPair { key: wanted, value: String::from_str(value) };
        out.push(fresh.to_line());
    }
    out
}

/// Puts `new_value` under `key` and returns the lines to write: the first line that is a pair
/// under `key` stores the new value, or a new line is added at the end; every other line is as it
/// was. A notice of each line that is not recognized goes to `log`.
pub fn put(file: &EnvFile, key: &str, new_value: &str, log: &mut Vec<String>) -> (r: Result<
    Vec<String>,
    EnvError,
>)
    ensures
        match r {
            Ok(lines) => put_spec(file@, key@, new_value@) == Ok::<Seq<Seq<char>>, ErrorView>(
                lines.deep_view(),
            ),
            Err(e) => put_spec(file@, key@, new_value@) == Err::<Seq<Seq<char>>, ErrorView>(e@),
        },
        final(log).deep_view() == old(log).deep_view() + notices(
            file@.content.lines(),
            Seq::empty(),
        ),
{
    match &file.content {
        Content::Unopened => Err(EnvError::FileOpen { path: file.path.clone() }),
        Content::Truncated(lines) => {
            let _ = replace(lines, key, new_value, log);
            Err(EnvError::LineRead { path: file.path.clone() })
        },
        Content::Complete(lines) => Ok(replace(lines, key, new_value, log)),
    }
}

/// The lines that are no pair under `key`; a notice goes to `log` for each line that is not
/// recognized.
fn remove(lines: &Vec<String>, key: &str, log: &mut Vec<String>) -> (out: Vec<String>)
    ensures
        out.deep_view() == delete_lines(lines.deep_view(), key@),
        final(log).deep_view() == old(log).deep_view() + notices(lines.deep_view(), Seq::empty()),
{
    let ghost texts = lines.deep_view();
    let wanted = String::from_str(key);
    let mut out: Vec<String> = Vec::new();
    let mut i: usize = 0;
    while i < lines.len()
        invariant
            0 <= i <= lines.len(),
            texts == lines.deep_view(),
            wanted@ == key@,
            out.deep_view() == delete_lines(texts.take(i as int), key@),
            log.deep_view() == old(log).deep_view() + notices(
                texts.take(i as int),
                Seq::empty(),
            ),
        decreases lines.len() - i,
    {
        let line = lines[i].as_str();
        let ghost logged = log.deep_view();
        proof {
            assert(texts.take(i + 1) =~= texts.take(i as int).push(line@));
            texts.take(i as int).lemma_filter_push(line@, not_keyed_by(key@));
            texts.lemma_filter_map_take_succ(noticed(Seq::empty()), i as int);
        }
        match line_to_env_pair(line) {
            RawLine::Pair(pair) => {
                if pair.key != wanted {
                    out.push(lines[i].clone());
                }
            },
            RawLine::Comment => {
                out.push(lines[i].clone());
            },
            RawLine::Unrecognized(_) => {
                let text = skip_notice(line);
                log.push(text);
                out.push(lines[i].clone());
                assert(log.deep_view() =~= logged.push(text@));
            },
        }
        i = i + 1;
    }
    assert(texts.take(i as int) =~= texts);
    out
}

/// Deletes `key` and returns the lines to write: every line that is a pair under `key` is left
/// out, every other line is as it was. A notice of each line that is not recognized goes to
/// `log`.
pub fn delete(file: &EnvFile, key: &str, log: &mut Vec<String>) -> (r: Result<Vec<String>, EnvError>)
    ensures
        match r {
            Ok(lines) => delete_spec(file@, key@) == Ok::<Seq<Seq<char>>, ErrorView>(
                lines.deep_view(),
            ),
            Err(e) => delete_spec(file@, key@) == Err::<Seq<Seq<char>>, ErrorView>(e@),
        },
        final(log).deep_view() == old(log).deep_view() + notices(
            file@.content.lines(),
            Seq::empty(),
        ),
{
    match &file.content {
        Content::Unopened => Err(EnvError::FileOpen { path: file.path.clone() }),
        Content::Truncated(lines) => {
            let _ = remove(lines, key, log);
            Err(EnvError::LineRead { path: file.path.clone() })
        },
        Content::Complete(lines) => Ok(remove(lines, key, log)),
    }
}

} // verus!
