//! Record files: the pull requests of one session, one URL to a line.
//!
//! A line holds a URL, which may be followed by a tab and a title; the title is
//! ignored. Blank lines record nothing.
use vstd::prelude::*;
use vstd::string::StringExecFns;

use crate::text;
use crate::text::{ends_its_line, split_lines, text_before, trimmed};

verus! {

/// The URL that a line records: its first tab-separated field, trimmed.
pub open spec fn line_url(line: Seq<char>) -> Seq<char> {
    text::trim(text::before(line, '\t'))
}

/// The URL that each of the lines records, blank ones included.
pub open spec fn line_urls(ls: Seq<Seq<char>>) -> Seq<Seq<char>> {
    ls.map_values(|line: Seq<char>| line_url(line))
}

/// The URLs that lines record, in order and without the blank ones.
pub open spec fn urls_of(ls: Seq<Seq<char>>) -> Seq<Seq<char>> {
    line_urls(ls).filter(|url: Seq<char>| url.len() > 0)
}

/// The URLs that a record file with these contents holds, in recorded order.
pub open spec fn recorded_urls(contents: Seq<char>) -> Seq<Seq<char>> {
    urls_of(text::lines(contents))
}

/// Whether some line of the contents records exactly `url`.
pub open spec fn records(contents: Seq<char>, url: Seq<char>) -> bool {
    line_urls(text::lines(contents)).contains(url)
}

/// The lines that record something other than `url`.
pub open spec fn other_lines(ls: Seq<Seq<char>>, url: Seq<char>) -> Seq<Seq<char>> {
    ls.filter(|line: Seq<char>| line_url(line) != url)
}

/// What is to happen to a record file, as a mathematical value.
#[verifier::ext_equal]
pub enum Change {
    Unchanged,
    Append(Seq<char>),
    Replace(Seq<char>),
    Delete,
}

/// What is to happen to a record file.
#[derive(Debug, PartialEq, Eq)]
pub enum RecordChange {
    /// The file stays as it is.
    Unchanged,
    /// The text goes to the end of the file, which is created if need be.
    Append(String),
    /// The text takes the place of the file's contents.
    Replace(String),
    /// The file is deleted.
    Delete,
}

impl View for RecordChange {
    type V = Change;

    open spec fn view(&self) -> Change {
        match self {
            RecordChange::Unchanged => Change::Unchanged,
            RecordChange::Append(text) => Change::Append(text@),
            RecordChange::Replace(text) => Change::Replace(text@),
            RecordChange::Delete => Change::Delete,
        }
    }
}

/// A record file after a change; `None` is a file that does not exist.
pub open spec fn changed(file: Option<Seq<char>>, change: Change) -> Option<Seq<char>> {
    match change {
        Change::Unchanged => file,
        Change::Append(text) => match file {
            Some(contents) => Some(contents + text),
            None => Some(text),
        },
        Change::Replace(text) => Some(text),
        Change::Delete => None,
    }
}

/// URLs without one of them: the others, in their order.
pub open spec fn without(urls: Seq<Seq<char>>, url: Seq<char>) -> Seq<Seq<char>> {
    urls.filter(|u: Seq<char>| u != url)
}

/// The change that records `url` in a file: none if the file records it already,
/// else a line of its own at the end. Where the file's last line lacks its line
/// feed, that is put in first.
pub open spec fn addition(file: Option<Seq<char>>, url: Seq<char>) -> Change {
    if file is Some && records(file->0, url) {
        Change::Unchanged
    } else if file is Some && !text::is_terminated(file->0) {
        Change::Append(seq!['\n'] + url.push('\n'))
    } else {
        Change::Append(url.push('\n'))
    }
}

/// The change that takes `url` out of a file: every line that records it goes,
/// and a file that is left without lines is deleted.
pub open spec fn removal(file: Option<Seq<char>>, url: Seq<char>) -> Change {
    match file {
        None => Change::Unchanged,
        Some(contents) => {
            let rest = other_lines(text::lines(contents), url);
            if rest.len() == 0 {
                Change::Delete
            } else {
                Change::Replace(text::unlines(rest))
            }
        },
    }
}

/// The URL that the line records; empty if it records none.
pub fn record_url(line: &str) -> (url: String)
    ensures
        url@ == line_url(line@),
{
    let field = text_before(line, '\t');
    trimmed(field.as_str())
}

/// Reads the contents of a record file: the URLs that it holds, in recorded order.
pub fn parse_record(contents: &str) -> (urls: Vec<String>)
    ensures
        text::texts(urls@) == recorded_urls(contents@),
{
    let lines = split_lines(contents);
    let ghost ls = text::texts(lines@);
    let mut urls: Vec<String> = Vec::new();
    for i in 0..lines.len()
        invariant
            ls == text::texts(lines@),
            text::texts(urls@) == urls_of(ls.take(i as int)),
    {
        let url = record_url(lines[i].as_str());
        proof {
            lemma_urls_of_take(ls, i as int);
        }
        if !url.as_str().is_empty() {
            let ghost before = urls@;
            urls.push(url);
            assert(text::texts(urls@) == text::texts(before).push(url@));
        }
    }
    assert(ls.take(ls.len() as int) == ls);
    urls
}

/// One line more adds the URL that it records, unless it is blank.
proof fn lemma_urls_of_take(ls: Seq<Seq<char>>, i: int)
    requires
        0 <= i < ls.len(),
    ensures
        urls_of(ls.take(i + 1)) == if line_url(ls[i]).len() > 0 {
            urls_of(ls.take(i)).push(line_url(ls[i]))
        } else {
            urls_of(ls.take(i))
        },
{
    reveal(Seq::filter);
    let more = line_urls(ls.take(i + 1));
    assert(more.drop_last() == line_urls(ls.take(i)));
    assert(more.last() == line_url(ls[i]));
}

/// Decides what recording `url` does to a session's record file, given the text
/// of the file (`None` if there is none that can be read). A URL that the file
/// records already, with or without a title, is not recorded again. Any other gets a
/// line of its own.
pub fn add_recorded_pr(file: Option<&str>, url: &str) -> (change: RecordChange)
    ensures
        change@ == addition(text::text_of(file), url@),
{
    let wanted: String = url.to_owned();
    let mut line: String = String::new();
    if let Some(contents) = file {
        let lines = split_lines(contents);
        let ghost ls = text::texts(lines@);
        for i in 0..lines.len()
            invariant
                file is Some,
                contents@ == file->0@,
                wanted@ == url@,
                ls == text::texts(lines@),
                ls == text::lines(contents@),
                forall|j: int| 0 <= j < i ==> line_url(#[trigger] ls[j]) != url@,
        {
            if record_url(lines[i].as_str()) == wanted {
                assert(line_urls(ls)[i as int] == url@);
                return RecordChange::Unchanged;
            }
        }
        assert(!records(contents@, url@)) by {
            if line_urls(ls).contains(url@) {
                let j = choose|j: int| 0 <= j < ls.len() && line_urls(ls)[j] == url@;
                assert(line_url(ls[j]) == url@);
            }
        }
        if !ends_its_line(contents) {
            line.push('\n');
        }
    }
    line.append(wanted.as_str());
    line.push('\n');
    assert(RecordChange::Append(line)@ == addition(text::text_of(file), url@));
    RecordChange::Append(line)
}

/// Decides what taking `url` out does to a session's record file, given the text
/// of the file (`None` if there is none that can be read, and then nothing
/// happens).
pub fn remove_recorded_pr(file: Option<&str>, url: &str) -> (change: RecordChange)
    ensures
        change@ == removal(text::text_of(file), url@),
{
    let contents = match file {
        Some(contents) => contents,
        None => {
            return RecordChange::Unchanged;
        },
    };
    let unwanted: String = url.to_owned();
    let lines = split_lines(contents);
    let ghost ls = text::texts(lines@);
    let mut out: String = String::new();
    let mut is_empty: bool = true;
    for i in 0..lines.len()
        invariant
            unwanted@ == url@,
            ls == text::texts(lines@),
            is_empty == (other_lines(ls.take(i as int), url@).len() == 0),
            out@ == text::unlines(other_lines(ls.take(i as int), url@)),
    {
        proof {
            reveal(Seq::filter);
            assert(ls.take(i + 1).drop_last() == ls.take(i as int));
        }
        if record_url(lines[i].as_str()) != unwanted {
            proof {
                lemma_unlines_push(other_lines(ls.take(i as int), url@), ls[i as int]);
            }
            out.append(lines[i].as_str());
            out.push('\n');
            is_empty = false;
        }
    }
    assert(ls.take(ls.len() as int) == ls);
    if is_empty {
        RecordChange::Delete
    } else {
        RecordChange::Replace(out)
    }
}

/// One line more puts that line and its line feed at the end of the text.
pub proof fn lemma_unlines_push(ls: Seq<Seq<char>>, line: Seq<char>)
    ensures
        text::unlines(ls.push(line)) == (text::unlines(ls) + line).push('\n'),
    decreases ls.len(),
{
    reveal_with_fuel(text::unlines, 2);
    if ls.len() == 0 {
        assert(ls.push(line).drop_first() == Seq::<Seq<char>>::empty());
    } else {
        lemma_unlines_push(ls.drop_first(), line);
        assert(ls.push(line).drop_first() == ls.drop_first().push(line));
    }
}

} // verus!
