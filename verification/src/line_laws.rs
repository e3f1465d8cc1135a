//! Laws of record files, line by line: what a line records, and what one line more
//! does to reading, adding and removing.
use vstd::prelude::*;

use crate::record;
use crate::record_laws;
use crate::text;
use crate::text_laws;

verus! {

/// White space around the URL of a line is ignored, and so is a title behind a tab.
pub proof fn white_space_around_a_url_is_ignored(
    front: Seq<char>,
    url: Seq<char>,
    back: Seq<char>,
    title: Seq<char>,
)
    requires
        text_laws::is_core(front + url + back, front, url, back),
        !front.contains('\t'),
        !url.contains('\t'),
        !back.contains('\t'),
    ensures
        record::line_url(front + url + back) == url,
        record::line_url(front + url + back + seq!['\t'] + title) == url,
{
    let field = front + url + back;
    assert forall|i: int| 0 <= i < field.len() implies field[i] != '\t' by {
        if i < front.len() {
            assert(front.contains(front[i]));
        } else if i < front.len() + url.len() {
            assert(url.contains(url[i - front.len()]));
        } else {
            assert(back.contains(back[i - front.len() - url.len()]));
        }
    }
    text_laws::before_stops_at_the_first(field, '\t', title);
    text_laws::trimming_gives_the_core(front, url, back);
}

/// Every line is the URL that it records with white space around it, and perhaps a tab
/// and a title behind that.
pub proof fn every_line_is_a_url_and_a_title(line: Seq<char>) -> (parts: (
    Seq<char>,
    Seq<char>,
    Option<Seq<char>>,
))
    ensures
        ({
            let url = record::line_url(line);
            let field = parts.0 + url + parts.1;
            &&& text_laws::is_core(field, parts.0, url, parts.1)
            &&& !field.contains('\t')
            &&& line == match parts.2 {
                Some(title) => field + seq!['\t'] + title,
                None => field,
            }
        }),
{
    text::lemma_position(line, '\t');
    let end = text::position(line, '\t') as int;
    let ends = text_laws::every_text_has_a_core(line.take(end));
    if end < line.len() {
        let title = line.skip(end + 1);
        assert(line =~= line.take(end) + seq!['\t'] + title);
        (ends.0, ends.1, Some(title))
    } else {
        assert(line =~= line.take(end));
        (ends.0, ends.1, None)
    }
}

/// The URLs of lines are one for one and in order.
pub proof fn line_urls_are_one_for_one(ls: Seq<Seq<char>>, i: int)
    ensures
        record::line_urls(ls).len() == ls.len(),
        0 <= i < ls.len() ==> record::line_urls(ls)[i] == record::line_url(ls[i]),
{
}

/// One line more gives the URL that it records behind the others, if it records one.
pub proof fn one_line_more(ls: Seq<Seq<char>>, line: Seq<char>)
    ensures
        record::urls_of(seq![]) == Seq::<Seq<char>>::empty(),
        record::line_url(line).len() > 0 ==> record::urls_of(ls.push(line)) == record::urls_of(
            ls,
        ).push(record::line_url(line)),
        record::line_url(line).len() == 0 ==> record::urls_of(ls.push(line)) == record::urls_of(ls),
{
    reveal(Seq::filter);
    assert(record::line_urls(Seq::<Seq<char>>::empty()) =~= seq![]);
    let more = record::line_urls(ls.push(line));
    assert(more.drop_last() =~= record::line_urls(ls));
    assert(more.last() == record::line_url(line));
}

/// One line more stays if it records something other than the URL.
pub proof fn one_line_more_stays(ls: Seq<Seq<char>>, line: Seq<char>, url: Seq<char>)
    ensures
        record::other_lines(seq![], url) == Seq::<Seq<char>>::empty(),
        record::line_url(line) != url ==> record::other_lines(ls.push(line), url)
            == record::other_lines(ls, url).push(line),
        record::line_url(line) == url ==> record::other_lines(ls.push(line), url)
            == record::other_lines(ls, url),
{
    reveal(Seq::filter);
    assert(ls.push(line).drop_last() =~= ls);
}

/// One URL more stays if it is not the one that is left out.
pub proof fn one_url_more_stays(urls: Seq<Seq<char>>, more: Seq<char>, url: Seq<char>)
    ensures
        record::without(seq![], url) == Seq::<Seq<char>>::empty(),
        more != url ==> record::without(urls.push(more), url) == record::without(urls, url).push(
            more,
        ),
        more == url ==> record::without(urls.push(more), url) == record::without(urls, url),
{
    reveal(Seq::filter);
    assert(urls.push(more).drop_last() =~= urls);
}

/// The lines of a text with one line more, ended by a line feed or not.
proof fn lemma_lines_with_one_more(contents: Seq<char>, line: Seq<char>)
    requires
        contents.len() > 0 ==> contents[contents.len() - 1] == '\n',
        !line.contains('\n'),
    ensures
        text::lines(contents + line.push('\n')) == text::lines(contents).push(
            text::strip_carriage_return(line),
        ),
        line.len() > 0 ==> text::lines(contents + line) == text::lines(contents).push(line),
        record::line_url(text::strip_carriage_return(line)) == record::line_url(line),
{
    text::lemma_lines_concat(contents, line.push('\n'));
    text::lemma_lines_of_line(line);
    text::lemma_lines_concat(contents, line);
    text_laws::lines_from_the_front(line, seq![]);
    record_laws::carriage_return_is_ignored(line);
    let ls = text::lines(contents);
    assert(ls + seq![text::strip_carriage_return(line)] =~= ls.push(
        text::strip_carriage_return(line),
    ));
    assert(ls + seq![line] =~= ls.push(line));
}

/// Reading a file goes line by line: a line gives the URL that it records behind
/// those before it, or nothing if it is blank. An empty file gives none.
pub proof fn reading_goes_line_by_line(contents: Seq<char>, line: Seq<char>)
    requires
        contents.len() > 0 ==> contents[contents.len() - 1] == '\n',
        !line.contains('\n'),
    ensures
        record::recorded_urls(seq![]) == Seq::<Seq<char>>::empty(),
        record::recorded_urls(contents + line) == record::recorded_urls(contents) + if (
        record::line_url(line).len() > 0) {
            seq![record::line_url(line)]
        } else {
            seq![]
        },
        record::recorded_urls(contents + line + seq!['\n']) == record::recorded_urls(
            contents + line,
        ),
{
    let ls = text::lines(contents);
    let url = record::line_url(line);
    lemma_lines_with_one_more(contents, line);
    one_line_more(ls, line);
    one_line_more(ls, text::strip_carriage_return(line));
    record_laws::last_line_feed_is_ignored(contents + line);
    assert((contents + line).push('\n') =~= contents + line + seq!['\n']);
    if line.len() == 0 {
        assert(contents + line =~= contents);
        record_laws::entry_is_its_own_url(line);
    }
    assert(record::recorded_urls(contents) + seq![url] =~= record::recorded_urls(contents).push(
        url,
    ));
    assert(record::recorded_urls(contents) + seq![] =~= record::recorded_urls(contents));
}

/// What a file records grows line by line: a URL is recorded if some line records
/// exactly it. An empty file records nothing.
pub proof fn recording_goes_line_by_line(contents: Seq<char>, line: Seq<char>, url: Seq<char>)
    requires
        contents.len() > 0 ==> contents[contents.len() - 1] == '\n',
        !line.contains('\n'),
    ensures
        !record::records(seq![], url),
        record::records(contents + line + seq!['\n'], url) <==> record::records(contents, url)
            || record::line_url(line) == url,
        line.len() > 0 ==> (record::records(contents + line, url) <==> record::records(
            contents,
            url,
        ) || record::line_url(line) == url),
{
    let ls = text::lines(contents);
    lemma_lines_with_one_more(contents, line);
    assert(contents + line.push('\n') =~= contents + line + seq!['\n']);
    lemma_line_urls_push(ls, line, url);
    lemma_line_urls_push(ls, text::strip_carriage_return(line), url);
}

proof fn lemma_line_urls_push(ls: Seq<Seq<char>>, line: Seq<char>, url: Seq<char>)
    ensures
        record::line_urls(ls.push(line)).contains(url) <==> record::line_urls(ls).contains(url)
            || record::line_url(line) == url,
{
    let before = record::line_urls(ls);
    let after = record::line_urls(ls.push(line));
    assert(after =~= before.push(record::line_url(line)));
    if before.contains(url) {
        let i = choose|i: int| 0 <= i < before.len() && before[i] == url;
        assert(after[i] == url);
    }
    if record::line_url(line) == url {
        assert(after[before.len() as int] == url);
    }
    if after.contains(url) {
        let i = choose|i: int| 0 <= i < after.len() && after[i] == url;
        if i < before.len() {
            assert(before[i] == url);
        }
    }
}

/// Adding writes the URL and a line feed at the end, behind a line feed for a last
/// line that lacks it, and nothing where the URL is recorded.
pub proof fn addition_writes_one_line(contents: Seq<char>, url: Seq<char>)
    ensures
        record::addition(None, url) == record::Change::Append(url + seq!['\n']),
        record::records(contents, url) ==> record::addition(Some(contents), url)
            == record::Change::Unchanged,
        !record::records(contents, url) && (contents.len() == 0 || contents[contents.len() - 1]
            == '\n') ==> record::addition(Some(contents), url) == record::Change::Append(
            url + seq!['\n'],
        ),
        !record::records(contents, url) && contents.len() > 0 && contents[contents.len() - 1]
            != '\n' ==> record::addition(Some(contents), url) == record::Change::Append(
            seq!['\n'] + url + seq!['\n'],
        ),
{
    assert(url.push('\n') =~= url + seq!['\n']);
    assert(seq!['\n'] + url.push('\n') =~= seq!['\n'] + url + seq!['\n']);
}

/// The text that a removal leaves of a file.
pub open spec fn left_over(contents: Seq<char>, url: Seq<char>) -> Seq<char> {
    match record::removal(Some(contents), url) {
        record::Change::Replace(text) => text,
        _ => seq![],
    }
}

/// A removal goes line by line: a line that records the URL goes, and any other stays
/// as it is, ended by a line feed. A file of which nothing is left is deleted, and
/// where there is no file nothing happens.
pub proof fn removal_goes_line_by_line(contents: Seq<char>, line: Seq<char>, url: Seq<char>)
    requires
        contents.len() > 0 ==> contents[contents.len() - 1] == '\n',
        !line.contains('\n'),
    ensures
        record::removal(None, url) == record::Change::Unchanged,
        record::removal(Some(contents), url) == if left_over(contents, url).len() == 0 {
            record::Change::Delete
        } else {
            record::Change::Replace(left_over(contents, url))
        },
        record::removal(Some(contents + line), url) == if left_over(contents + line, url).len()
            == 0 {
            record::Change::Delete
        } else {
            record::Change::Replace(left_over(contents + line, url))
        },
        left_over(seq![], url) == Seq::<char>::empty(),
        record::line_url(line) == url ==> left_over(contents + line + seq!['\n'], url)
            == left_over(contents, url),
        record::line_url(line) != url ==> left_over(contents + line + seq!['\n'], url)
            == left_over(contents, url) + text::strip_carriage_return(line) + seq!['\n'],
        record::line_url(line) == url ==> left_over(contents + line, url) == left_over(
            contents,
            url,
        ),
        record::line_url(line) != url && line.len() > 0 ==> left_over(contents + line, url)
            == left_over(contents, url) + line + seq!['\n'],
{
    let ls = text::lines(contents);
    let stripped = text::strip_carriage_return(line);
    let rest = record::other_lines(ls, url);
    lemma_lines_with_one_more(contents, line);
    assert(contents + line.push('\n') =~= contents + line + seq!['\n']);
    one_line_more_stays(ls, line, url);
    one_line_more_stays(ls, stripped, url);
    record::lemma_unlines_push(rest, line);
    record::lemma_unlines_push(rest, stripped);
    lemma_left_over(seq![], url);
    lemma_left_over(contents, url);
    lemma_left_over(contents + line, url);
    lemma_left_over(contents + line + seq!['\n'], url);
    let before = text::unlines(rest);
    assert((before + line).push('\n') =~= before + line + seq!['\n']);
    assert((before + stripped).push('\n') =~= before + stripped + seq!['\n']);
    if line.len() == 0 {
        assert(contents + line =~= contents);
    }
}

/// The lines that are left make up the text that is left.
proof fn lemma_left_over(contents: Seq<char>, url: Seq<char>)
    ensures
        left_over(contents, url) == text::unlines(
            record::other_lines(text::lines(contents), url),
        ),
        record::removal(Some(contents), url) == if left_over(contents, url).len() == 0 {
            record::Change::Delete
        } else {
            record::Change::Replace(left_over(contents, url))
        },
{
    let rest = record::other_lines(text::lines(contents), url);
    if rest.len() > 0 {
        assert(text::unlines(rest).len() >= rest[0].push('\n').len());
    } else {
        assert(text::unlines(rest) =~= seq![]);
    }
}

/// What a change does to a file.
pub proof fn changes_do_what_they_say(
    file: Option<Seq<char>>,
    contents: Seq<char>,
    text: Seq<char>,
)
    ensures
        record::changed(file, record::Change::Unchanged) == file,
        record::changed(Some(contents), record::Change::Append(text)) == Some(contents + text),
        record::changed(None, record::Change::Append(text)) == Some(text),
        record::changed(file, record::Change::Replace(text)) == Some(text),
        record::changed(file, record::Change::Delete) == None::<Seq<char>>,
{
}

/// A change that the library returns is the one that it stands for.
pub proof fn changes_are_what_they_stand_for(text: String)
    ensures
        record::RecordChange::Unchanged@ == record::Change::Unchanged,
        record::RecordChange::Append(text)@ == record::Change::Append(text@),
        record::RecordChange::Replace(text)@ == record::Change::Replace(text@),
        record::RecordChange::Delete@ == record::Change::Delete,
{
}

} // verus!
