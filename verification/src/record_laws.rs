//! Laws of record files: how adding and removing change what a file records.
use vstd::prelude::*;

use crate::record;
use crate::text;

verus! {

/// The URLs that a record file holds; a file that does not exist holds none.
pub open spec fn urls_in(file: Option<Seq<char>>) -> Seq<Seq<char>> {
    match file {
        Some(contents) => record::recorded_urls(contents),
        None => seq![],
    }
}

/// Whether a record file, if it exists, is empty or ends with a line feed.
pub open spec fn file_is_terminated(file: Option<Seq<char>>) -> bool {
    file is Some ==> text::is_terminated(file->0)
}

/// Whether a text is what a line can record: it has no white space at its ends, and
/// holds neither a tab nor a line feed. It may be blank.
pub open spec fn is_entry(url: Seq<char>) -> bool {
    &&& text::is_trimmed(url)
    &&& !url.contains('\t')
    &&& !url.contains('\n')
}

/// Whether a URL fills a field of a record file: it is what a line can record, and is
/// not blank.
pub open spec fn is_field(url: Seq<char>) -> bool {
    url.len() > 0 && is_entry(url)
}

/// What stands behind a tab is ignored.
pub proof fn title_is_ignored(line: Seq<char>, title: Seq<char>)
    ensures
        record::line_url(line.push('\t') + title) == record::line_url(line),
{
    let whole = line.push('\t') + title;
    text::lemma_position(line, '\t');
    let end = text::position(line, '\t') as int;
    assert forall|i: int| 0 <= i < end implies whole[i] != '\t' by {
        assert(whole[i] == line[i]);
    }
    text::lemma_position_is(whole, '\t', end);
    assert(whole.take(end) =~= line.take(end));
}

/// A carriage return at the end of a line is ignored.
pub proof fn carriage_return_is_ignored(line: Seq<char>)
    ensures
        record::line_url(text::strip_carriage_return(line)) == record::line_url(line),
{
    if line.len() > 0 && line.last() == '\r' {
        let rest = line.drop_last();
        text::lemma_position(rest, '\t');
        let end = text::position(rest, '\t') as int;
        assert forall|i: int| 0 <= i < end implies line[i] != '\t' by {
            assert(line[i] == rest[i]);
        }
        if end < rest.len() {
            assert(line[end] == rest[end]);
            text::lemma_position_is(line, '\t', end);
            assert(line.take(end) =~= rest.take(end));
        } else {
            text::lemma_position_is(line, '\t', line.len() as int);
            assert(text::before(line, '\t') =~= rest.push('\r'));
            assert(text::before(rest, '\t') =~= rest);
            text::lemma_trim_push_white(rest, '\r');
        }
    }
}

/// A trimmed text without a tab is what a line that holds it alone records.
pub proof fn entry_is_its_own_url(url: Seq<char>)
    requires
        text::is_trimmed(url),
        !url.contains('\t'),
    ensures
        record::line_url(url) == url,
{
    assert forall|i: int| 0 <= i < url.len() implies url[i] != '\t' by {
        assert(url.contains(url[i]));
    }
    text::lemma_position_is(url, '\t', url.len() as int);
    assert(text::before(url, '\t') =~= url);
    text::lemma_trim_of_trimmed(url);
}

/// The URLs of some lines and then others are those of the first and then those of
/// the others.
pub proof fn urls_of_concatenation(a: Seq<Seq<char>>, b: Seq<Seq<char>>)
    ensures
        record::urls_of(a + b) == record::urls_of(a) + record::urls_of(b),
{
    let nonblank = |url: Seq<char>| url.len() > 0;
    assert(record::line_urls(a + b) =~= record::line_urls(a) + record::line_urls(b));
    Seq::filter_distributes_over_add(record::line_urls(a), record::line_urls(b), nonblank);
}

/// Whether a file records a URL that is not blank is told by the URLs that it
/// holds.
pub proof fn recorded_urls_are_recorded(contents: Seq<char>, url: Seq<char>)
    requires
        url.len() > 0,
    ensures
        record::records(contents, url) <==> record::recorded_urls(contents).contains(url),
{
    let nonblank = |u: Seq<char>| u.len() > 0;
    let all = record::line_urls(text::lines(contents));
    if all.contains(url) {
        let i = choose|i: int| 0 <= i < all.len() && all[i] == url;
        all.lemma_filter_contains(nonblank, i);
    }
    if all.filter(nonblank).contains(url) {
        all.lemma_filter_contains_rev(nonblank, url);
    }
}

/// A line feed at the end changes nothing of what is recorded.
pub proof fn last_line_feed_is_ignored(contents: Seq<char>)
    ensures
        record::recorded_urls(contents.push('\n')) == record::recorded_urls(contents),
    decreases contents.len(),
{
    let whole = contents.push('\n');
    text::lemma_position(contents, '\n');
    let end = text::position(contents, '\n') as int;
    if text::is_terminated(contents) {
        let blank = Seq::<char>::empty();
        assert(whole =~= contents + blank.push('\n'));
        text::lemma_lines_concat(contents, blank.push('\n'));
        text::lemma_lines_of_line(blank);
        entry_is_its_own_url(blank);
        urls_of_concatenation(text::lines(contents), seq![blank]);
        lemma_urls_of_line(blank);
        assert(record::recorded_urls(contents) + seq![] =~= record::recorded_urls(contents));
    } else if end < contents.len() {
        let rest = contents.skip(end + 1);
        let line = seq![text::strip_carriage_return(contents.take(end))];
        text::lemma_position_is(whole, '\n', end);
        assert(whole.take(end) =~= contents.take(end));
        assert(whole.skip(end + 1) =~= rest.push('\n'));
        last_line_feed_is_ignored(rest);
        urls_of_concatenation(line, text::lines(rest));
        urls_of_concatenation(line, text::lines(rest.push('\n')));
    } else {
        text::lemma_lines_of_line(contents);
        carriage_return_is_ignored(contents);
        lemma_urls_of_line(contents);
        lemma_urls_of_line(text::strip_carriage_return(contents));
    }
}

/// A line that is added to a file which does not record it yet adds what it records.
proof fn lemma_added_line(file: Option<Seq<char>>, line: Seq<char>)
    requires
        !line.contains('\n'),
        file is Some ==> !record::records(file->0, line),
    ensures
        urls_in(record::changed(file, record::addition(file, line))) == urls_in(file)
            + record::urls_of(seq![line]),
{
    let added = line.push('\n');
    text::lemma_lines_of_line(line);
    carriage_return_is_ignored(line);
    lemma_urls_of_line(line);
    lemma_urls_of_line(text::strip_carriage_return(line));
    match file {
        Some(contents) => {
            let ended = if text::is_terminated(contents) {
                contents
            } else {
                last_line_feed_is_ignored(contents);
                assert(contents + (seq!['\n'] + added) =~= contents.push('\n') + added);
                contents.push('\n')
            };
            text::lemma_lines_concat(ended, added);
            urls_of_concatenation(text::lines(ended), text::lines(added));
        },
        None => {
            assert(urls_in(file) + record::urls_of(seq![line]) =~= record::urls_of(seq![line]));
        },
    }
}

/// Adding a URL puts it behind those that the file holds, unless it holds it
/// already. The others stay as they are.
pub proof fn addition_appends(file: Option<Seq<char>>, url: Seq<char>)
    requires
        is_field(url),
    ensures
        urls_in(record::changed(file, record::addition(file, url))) == if urls_in(file).contains(
            url,
        ) {
            urls_in(file)
        } else {
            urls_in(file).push(url)
        },
{
    if let Some(contents) = file {
        recorded_urls_are_recorded(contents, url);
    }
    if !urls_in(file).contains(url) {
        lemma_added_line(file, url);
        entry_is_its_own_url(url);
        lemma_urls_of_line(url);
        assert(urls_in(file) + seq![url] =~= urls_in(file).push(url));
    }
}

/// A line with a title records its URL as one without does: in a file that ends with
/// such a line, adding the URL changes nothing, and the file holds it behind the
/// others, unless it is blank.
pub proof fn titled_line_is_recorded(contents: Seq<char>, url: Seq<char>, title: Seq<char>)
    requires
        text::is_terminated(contents),
        is_entry(url),
        !title.contains('\n'),
    ensures
        ({
            let after = contents + (url.push('\t') + title).push('\n');
            &&& record::addition(Some(after), url) is Unchanged
            &&& url.len() > 0 ==> record::recorded_urls(after) == record::recorded_urls(
                contents,
            ).push(url)
        }),
{
    let line = url.push('\t') + title;
    let after = contents + line.push('\n');
    assert forall|i: int| 0 <= i < line.len() implies line[i] != '\n' by {
        if i < url.len() {
            assert(url.contains(url[i]));
        } else if i > url.len() {
            assert(title.contains(title[i - url.len() - 1]));
        }
    }
    text::lemma_lines_of_line(line);
    text::lemma_lines_concat(contents, line.push('\n'));
    urls_of_concatenation(text::lines(contents), text::lines(line.push('\n')));
    carriage_return_is_ignored(line);
    title_is_ignored(url, title);
    entry_is_its_own_url(url);
    lemma_urls_of_line(text::strip_carriage_return(line));
    let recorded = record::line_urls(text::lines(after));
    assert(recorded[recorded.len() - 1] == url);
    if url.len() > 0 {
        assert(record::recorded_urls(after) =~= record::recorded_urls(contents).push(url));
    }
}

/// What was added is recorded, and adding it once more changes nothing. It is among
/// the URLs that the file holds, unless it is blank.
pub proof fn addition_happens_once(file: Option<Seq<char>>, url: Seq<char>)
    requires
        is_entry(url),
    ensures
        ({
            let after = record::changed(file, record::addition(file, url));
            &&& record::addition(after, url) is Unchanged
            &&& url.len() > 0 ==> urls_in(after).contains(url)
        }),
{
    let after = record::changed(file, record::addition(file, url));
    if record::addition(file, url) !is Unchanged {
        let added = url.push('\n');
        let ended = match file {
            Some(contents) => if text::is_terminated(contents) {
                contents
            } else {
                contents.push('\n')
            },
            None => seq![],
        };
        assert(after->0 =~= ended + added);
        text::lemma_lines_concat(ended, added);
        text::lemma_lines_of_line(url);
        carriage_return_is_ignored(url);
        entry_is_its_own_url(url);
        let recorded = record::line_urls(text::lines(after->0));
        assert(recorded[recorded.len() - 1] == url);
    }
    if url.len() > 0 {
        recorded_urls_are_recorded(after->0, url);
    }
}

/// Leaving out the lines that record a URL leaves that URL out and no other.
proof fn lemma_urls_of_other_lines(ls: Seq<Seq<char>>, url: Seq<char>)
    ensures
        record::urls_of(record::other_lines(ls, url)) == record::without(record::urls_of(ls), url),
    decreases ls.len(),
{
    reveal(Seq::filter);
    if ls.len() == 0 {
        assert(record::line_urls(ls) =~= seq![]);
        assert(record::other_lines(ls, url) =~= ls);
    } else {
        let front = ls.drop_last();
        let last = seq![ls.last()];
        lemma_urls_of_other_lines(front, url);
        assert(ls =~= front + last);
        urls_of_concatenation(front, last);
        urls_of_concatenation(record::other_lines(front, url), last);
        lemma_without_concatenation(record::urls_of(front), record::urls_of(last), url);
        lemma_urls_of_line(ls.last());
        lemma_without_one(record::line_url(ls.last()), url);
        lemma_without_none(url);
        assert(record::other_lines(ls, url) =~= if record::line_url(ls.last()) != url {
            record::other_lines(front, url) + last
        } else {
            record::other_lines(front, url)
        });
        assert(record::without(record::urls_of(front), url) + seq![] =~= record::without(
            record::urls_of(front),
            url,
        ));
    }
}

proof fn lemma_without_none(url: Seq<char>)
    ensures
        record::without(seq![], url) == Seq::<Seq<char>>::empty(),
{
    reveal(Seq::filter);
}

proof fn lemma_without_one(u: Seq<char>, url: Seq<char>)
    ensures
        record::without(seq![u], url) == if u != url {
            seq![u]
        } else {
            seq![]
        },
{
    reveal_with_fuel(Seq::filter, 2);
    assert(seq![u].drop_last() =~= seq![]);
}

proof fn lemma_urls_of_line(line: Seq<char>)
    ensures
        record::urls_of(seq![line]) == if record::line_url(line).len() > 0 {
            seq![record::line_url(line)]
        } else {
            seq![]
        },
{
    reveal_with_fuel(Seq::filter, 2);
    let one = record::line_urls(seq![line]);
    assert(one =~= seq![record::line_url(line)]);
    assert(one.drop_last() =~= seq![]);
}

/// What the lines left over by a removal record, once they are written out.
proof fn lemma_rest_is_read_back(contents: Seq<char>, url: Seq<char>)
    ensures
        ({
            let rest = record::other_lines(text::lines(contents), url);
            let written = text::unlines(rest);
            &&& text::lines(written) == text::without_carriage_returns(rest)
            &&& record::line_urls(text::lines(written)) == record::line_urls(rest)
            &&& text::is_terminated(written)
            &&& rest.len() > 0 ==> written.len() > 0
        }),
{
    let ls = text::lines(contents);
    let rest = record::other_lines(ls, url);
    let written = text::unlines(rest);
    text::lemma_lines_hold_no_line_feed(contents);
    assert forall|i: int| 0 <= i < rest.len() implies !(#[trigger] rest[i]).contains('\n') by {
        let other = |line: Seq<char>| record::line_url(line) != url;
        assert(ls.filter(other).contains(rest[i]));
        ls.lemma_filter_contains_rev(other, rest[i]);
        let j = choose|j: int| 0 <= j < ls.len() && ls[j] == rest[i];
        assert(!ls[j].contains('\n'));
    }
    text::lemma_lines_of_unlines(rest);
    let read = text::lines(written);
    assert forall|i: int| 0 <= i < rest.len() implies record::line_urls(read)[i]
        == record::line_urls(rest)[i] by {
        carriage_return_is_ignored(rest[i]);
    }
    assert(record::line_urls(read) =~= record::line_urls(rest));
    if rest.len() > 0 {
        assert(written.len() >= rest[0].push('\n').len());
    }
}

/// Removing a URL takes every record of it out of the file. The others stay, in
/// their order.
pub proof fn removal_filters(file: Option<Seq<char>>, url: Seq<char>)
    ensures
        urls_in(record::changed(file, record::removal(file, url))) == record::without(urls_in(file), url),
{
    match file {
        Some(contents) => {
            lemma_urls_of_other_lines(text::lines(contents), url);
            lemma_rest_is_read_back(contents, url);
            let rest = record::other_lines(text::lines(contents), url);
            if rest.len() == 0 {
                reveal(Seq::filter);
                assert(record::line_urls(rest) =~= seq![]);
                assert(record::urls_of(rest) =~= seq![]);
            }
        },
        None => {
            reveal(Seq::filter);
            assert(record::without(urls_in(file), url) =~= seq![]);
        },
    }
}

/// A URL that was removed is no longer recorded.
pub proof fn removed_url_is_gone(file: Option<Seq<char>>, url: Seq<char>)
    ensures
        ({
            let after = record::changed(file, record::removal(file, url));
            after is Some ==> !record::records(after->0, url)
        }),
{
    if let Some(contents) = file {
        let ls = text::lines(contents);
        let rest = record::other_lines(ls, url);
        lemma_rest_is_read_back(contents, url);
        let other = |line: Seq<char>| record::line_url(line) != url;
        assert forall|i: int| 0 <= i < rest.len() implies record::line_urls(rest)[i] != url by {
            ls.lemma_filter_pred(other, i);
            assert(other(ls.filter(other)[i]));
        }
    }
}

/// Removing a URL that was not recorded before it was added brings back what the
/// file held. What is added must be one line, and record itself or nothing.
pub proof fn removal_undoes_addition(file: Option<Seq<char>>, url: Seq<char>)
    requires
        !url.contains('\n'),
        record::line_url(url) == url || record::line_url(url).len() == 0,
        !urls_in(file).contains(url),
    ensures
        ({
            let added = record::changed(file, record::addition(file, url));
            urls_in(record::changed(added, record::removal(added, url))) == urls_in(file)
        }),
{
    let added = record::changed(file, record::addition(file, url));
    if record::addition(file, url) !is Unchanged {
        lemma_added_line(file, url);
    }
    if url.len() > 0 && file is Some {
        recorded_urls_are_recorded(file->0, url);
    }
    lemma_urls_of_line(url);
    removal_filters(added, url);
    lemma_without_absent(urls_in(file), url);
    lemma_without_concatenation(urls_in(file), record::urls_of(seq![url]), url);
    lemma_without_none(url);
    lemma_without_one(url, url);
    assert(urls_in(file) + seq![] =~= urls_in(file));
}

/// Whether a text holds a carriage return right before a line feed.
pub open spec fn has_carriage_return_line_feed(contents: Seq<char>) -> bool {
    exists|i: int, j: int|
        0 <= i < j < contents.len() && j == i + 1 && #[trigger] contents[i] == '\r'
            && #[trigger] contents[j] == '\n'
}

/// The lines of a text that ends with a line feed, and in which no carriage return
/// precedes one, make up the text.
proof fn lemma_unlines_of_lines(contents: Seq<char>)
    requires
        text::is_terminated(contents),
        !has_carriage_return_line_feed(contents),
    ensures
        text::unlines(text::lines(contents)) == contents,
        contents.len() > 0 ==> text::lines(contents).len() > 0,
    decreases contents.len(),
{
    if contents.len() > 0 {
        text::lemma_position(contents, '\n');
        let end = text::position(contents, '\n') as int;
        assert(end < contents.len()) by {
            if end == contents.len() {
                assert(contents[contents.len() - 1] != '\n');
            }
        }
        let line = contents.take(end);
        let rest = contents.skip(end + 1);
        assert(text::strip_carriage_return(line) == line) by {
            if end > 0 {
                assert(contents[end] == '\n');
                assert(contents[end - 1] != '\r');
            }
        }
        assert forall|i: int, j: int|
            0 <= i < j < rest.len() && j == i + 1 && #[trigger] rest[i]
                == '\r' implies #[trigger] rest[j] != '\n' by {
            assert(rest[i] == contents[end + 1 + i]);
            assert(rest[j] == contents[end + 1 + j]);
        }
        lemma_unlines_of_lines(rest);
        assert(text::lines(contents).drop_first() =~= text::lines(rest));
        assert(text::lines(contents)[0] == line);
        assert(line.push('\n') + rest =~= contents);
    } else {
        assert(contents =~= seq![]);
    }
}

/// Adding a URL and removing it again restores the file to the letter: a file that
/// did not exist, or one that is not empty, ends with a line feed, has no carriage
/// return before one, and did not record the URL.
pub proof fn removal_restores_the_file(file: Option<Seq<char>>, url: Seq<char>)
    requires
        is_entry(url),
        file is Some ==> {
            &&& file->0.len() > 0
            &&& text::is_terminated(file->0)
            &&& !has_carriage_return_line_feed(file->0)
            &&& !record::records(file->0, url)
        },
    ensures
        ({
            let added = record::changed(file, record::addition(file, url));
            record::changed(added, record::removal(added, url)) == file
        }),
{
    match file {
        Some(contents) => {
            lemma_lines_after_added(contents, url);
            lemma_unlines_of_lines(contents);
        },
        None => {
            lemma_lines_after_added(seq![], url);
            assert(Seq::<char>::empty() + url.push('\n') =~= url.push('\n'));
            assert(text::lines(Seq::<char>::empty()).len() == 0);
        },
    }
}

/// Without the line that was added, the lines of a text are those that there were.
proof fn lemma_lines_after_added(contents: Seq<char>, url: Seq<char>)
    requires
        is_entry(url),
        text::is_terminated(contents),
        !record::records(contents, url),
    ensures
        record::other_lines(text::lines(contents + url.push('\n')), url) == text::lines(contents),
{
    let line = url.push('\n');
    text::lemma_lines_of_line(url);
    entry_is_its_own_url(url);
    assert(text::strip_carriage_return(url) == url);
    text::lemma_lines_concat(contents, line);
    lemma_lines_before_added(text::lines(contents), url);
}

/// The lines other than the last, which alone records the URL.
proof fn lemma_lines_before_added(ls: Seq<Seq<char>>, url: Seq<char>)
    requires
        record::line_url(url) == url,
        !record::line_urls(ls).contains(url),
    ensures
        record::other_lines(ls + seq![url], url) == ls,
{
    assert forall|i: int| 0 <= i < ls.len() implies record::line_url(#[trigger] ls[i]) != url by {
        assert(record::line_urls(ls)[i] == record::line_url(ls[i]));
    }
    lemma_other_lines_all(ls, url);
    reveal(Seq::filter);
    assert((ls + seq![url]).drop_last() =~= ls);
}

/// Lines none of which records the URL.
proof fn lemma_other_lines_all(ls: Seq<Seq<char>>, url: Seq<char>)
    requires
        forall|i: int| 0 <= i < ls.len() ==> record::line_url(#[trigger] ls[i]) != url,
    ensures
        record::other_lines(ls, url) == ls,
    decreases ls.len(),
{
    reveal(Seq::filter);
    if ls.len() == 0 {
        assert(record::other_lines(ls, url) =~= ls);
    } else {
        let front = ls.drop_last();
        assert forall|i: int| 0 <= i < front.len() implies record::line_url(#[trigger] front[i])
            != url by {
            assert(front[i] == ls[i]);
        }
        lemma_other_lines_all(front, url);
        assert(front.push(ls.last()) =~= ls);
    }
}

/// URLs without one that is not among them.
pub proof fn lemma_without_absent(urls: Seq<Seq<char>>, url: Seq<char>)
    requires
        !urls.contains(url),
    ensures
        record::without(urls, url) == urls,
    decreases urls.len(),
{
    reveal(Seq::filter);
    if urls.len() == 0 {
        assert(record::without(urls, url) =~= urls);
    } else {
        let front = urls.drop_last();
        assert(urls.contains(urls.last()));
        assert forall|i: int| 0 <= i < front.len() implies front[i] != url by {
            assert(urls.contains(urls[i]));
        }
        lemma_without_absent(front, url);
        assert(front.push(urls.last()) =~= urls);
    }
}

/// Leaving a URL out of some URLs and then others.
proof fn lemma_without_concatenation(a: Seq<Seq<char>>, b: Seq<Seq<char>>, url: Seq<char>)
    ensures
        record::without(a + b, url) == record::without(a, url) + record::without(b, url),
{
    Seq::filter_distributes_over_add(a, b, |u: Seq<char>| u != url);
}

/// Leaving out a URL that occurs once is removing it where it stands.
pub proof fn lemma_without_is_remove(urls: Seq<Seq<char>>, index: int)
    requires
        0 <= index < urls.len(),
        forall|i: int| 0 <= i < urls.len() && i != index ==> #[trigger] urls[i] != urls[index],
    ensures
        record::without(urls, urls[index]) == urls.remove(index),
{
    let url = urls[index];
    let front = urls.take(index);
    let back = urls.skip(index + 1);
    assert(urls =~= (front + seq![url]) + back);
    assert forall|i: int| 0 <= i < front.len() implies front[i] != url by {
        assert(front[i] == urls[i]);
    }
    assert forall|i: int| 0 <= i < back.len() implies back[i] != url by {
        assert(back[i] == urls[index + 1 + i]);
    }
    lemma_without_absent(front, url);
    lemma_without_absent(back, url);
    lemma_without_one(url, url);
    lemma_without_concatenation(front, seq![url], url);
    lemma_without_concatenation(front + seq![url], back, url);
    assert(urls.remove(index) =~= front + seq![] + back);
}

/// URLs without one of them do not hold it.
pub proof fn lemma_without_lacks(urls: Seq<Seq<char>>, url: Seq<char>)
    ensures
        !record::without(urls, url).contains(url),
    decreases urls.len(),
{
    reveal(Seq::filter);
    if urls.len() > 0 {
        let front = record::without(urls.drop_last(), url);
        lemma_without_lacks(urls.drop_last(), url);
        assert forall|i: int| 0 <= i < record::without(urls, url).len() implies record::without(
            urls,
            url,
        )[i] != url by {
            if i < front.len() {
                assert(front.contains(front[i]));
            }
        }
    }
}

/// What is left of URLs was among them.
proof fn lemma_without_is_part(urls: Seq<Seq<char>>, url: Seq<char>, left: Seq<char>)
    requires
        record::without(urls, url).contains(left),
    ensures
        urls.contains(left),
    decreases urls.len(),
{
    reveal(Seq::filter);
    if urls.len() > 0 {
        let rest = urls.drop_last();
        if urls.last() == left {
            assert(urls.contains(urls[urls.len() - 1]));
        } else {
            let i = choose|i: int|
                0 <= i < record::without(urls, url).len() && record::without(urls, url)[i] == left;
            assert(record::without(rest, url)[i] == left);
            lemma_without_is_part(rest, url, left);
            let j = choose|j: int| 0 <= j < rest.len() && rest[j] == left;
            assert(urls[j] == left);
        }
    }
}

/// URLs of which each occurs once still do without one of them.
pub proof fn lemma_without_keeps_distinct(urls: Seq<Seq<char>>, url: Seq<char>)
    requires
        urls.no_duplicates(),
    ensures
        record::without(urls, url).no_duplicates(),
    decreases urls.len(),
{
    reveal(Seq::filter);
    if urls.len() > 0 {
        let rest = urls.drop_last();
        let front = record::without(rest, url);
        let last = urls.last();
        lemma_without_keeps_distinct(rest, url);
        if front.contains(last) {
            lemma_without_is_part(rest, url, last);
            let j = choose|j: int| 0 <= j < rest.len() && rest[j] == last;
            assert(urls[j] == urls[urls.len() - 1]);
        }
        assert forall|i: int, j: int|
            0 <= i < j < front.push(last).len() implies front.push(last)[i] != front.push(
            last,
        )[j] by {
            if j == front.len() {
                assert(front.contains(front[i]));
            }
        }
    }
}

/// Whether no line ends with a carriage return.
pub open spec fn are_free_of_carriage_returns(ls: Seq<Seq<char>>) -> bool {
    forall|i: int| 0 <= i < ls.len() ==> text::strip_carriage_return(#[trigger] ls[i]) == ls[i]
}

/// Removing a URL once more takes nothing more out. The file itself stays as it is,
/// unless a line that stays ends with a carriage return besides the one that belongs
/// to its line feed.
pub proof fn removal_happens_once(file: Option<Seq<char>>, url: Seq<char>)
    ensures
        ({
            let once = record::changed(file, record::removal(file, url));
            let twice = record::changed(once, record::removal(once, url));
            &&& urls_in(twice) == urls_in(once)
            &&& (file is Some ==> are_free_of_carriage_returns(
                record::other_lines(text::lines(file->0), url),
            )) ==> twice == once
        }),
{
    let once = record::changed(file, record::removal(file, url));
    removal_filters(file, url);
    removal_filters(once, url);
    lemma_without_lacks(urls_in(file), url);
    lemma_without_absent(urls_in(once), url);
    if let Some(contents) = file {
        let ls = text::lines(contents);
        let rest = record::other_lines(ls, url);
        lemma_rest_is_read_back(contents, url);
        lemma_other_lines_record_others(ls, url);
        lemma_other_lines_all(rest, url);
        if are_free_of_carriage_returns(rest) && rest.len() > 0 {
            assert(text::without_carriage_returns(rest) =~= rest);
            assert(text::lines(text::unlines(rest)) == rest);
        }
    }
}

/// Removing two URLs leaves the same file in either order.
pub proof fn removals_commute(file: Option<Seq<char>>, a: Seq<char>, b: Seq<char>)
    ensures
        ({
            let without_a = record::changed(file, record::removal(file, a));
            let without_b = record::changed(file, record::removal(file, b));
            record::changed(without_a, record::removal(without_a, b)) == record::changed(
                without_b,
                record::removal(without_b, a),
            )
        }),
{
    if let Some(contents) = file {
        let ls = text::lines(contents);
        lemma_removals_in_a_row(contents, a, b);
        lemma_removals_in_a_row(contents, b, a);
        lemma_other_lines_commute(ls, a, b);
    }
}

/// What is left by the removal of one URL and then another.
proof fn lemma_removals_in_a_row(contents: Seq<char>, a: Seq<char>, b: Seq<char>)
    ensures
        ({
            let once = record::changed(
                Some(contents),
                record::removal(Some(contents), a),
            );
            let rest = record::other_lines(record::other_lines(text::lines(contents), a), b);
            record::changed(once, record::removal(once, b)) == if rest.len() == 0 {
                None
            } else {
                Some(text::unlines(text::without_carriage_returns(rest)))
            }
        }),
{
    let first = record::other_lines(text::lines(contents), a);
    lemma_rest_is_read_back(contents, a);
    lemma_other_lines_of_stripped(first, b);
    if first.len() == 0 {
        reveal(Seq::filter);
        assert(record::other_lines(first, b).len() == 0);
    }
}

/// Leaving lines out and stripping their carriage returns go in either order.
proof fn lemma_other_lines_of_stripped(ls: Seq<Seq<char>>, url: Seq<char>)
    ensures
        record::other_lines(text::without_carriage_returns(ls), url)
            == text::without_carriage_returns(record::other_lines(ls, url)),
    decreases ls.len(),
{
    reveal(Seq::filter);
    let stripped = text::without_carriage_returns(ls);
    if ls.len() == 0 {
        assert(record::other_lines(stripped, url) =~= text::without_carriage_returns(
            record::other_lines(ls, url),
        ));
    } else {
        let front = ls.drop_last();
        lemma_other_lines_of_stripped(front, url);
        carriage_return_is_ignored(ls.last());
        assert(stripped.drop_last() =~= text::without_carriage_returns(front));
        assert(record::other_lines(stripped, url) =~= text::without_carriage_returns(
            record::other_lines(ls, url),
        ));
    }
}

/// The lines of two URLs can be left out in either order.
proof fn lemma_other_lines_commute(ls: Seq<Seq<char>>, a: Seq<char>, b: Seq<char>)
    ensures
        record::other_lines(record::other_lines(ls, a), b) == record::other_lines(
            record::other_lines(ls, b),
            a,
        ),
    decreases ls.len(),
{
    if ls.len() == 0 {
        reveal(Seq::filter);
        assert(record::other_lines(ls, a) =~= ls);
        assert(record::other_lines(ls, b) =~= ls);
    } else {
        let front = ls.drop_last();
        let last = ls.last();
        lemma_other_lines_commute(front, a, b);
        assert(front.push(last) =~= ls);
        lemma_other_lines_push(front, last, a);
        lemma_other_lines_push(front, last, b);
        lemma_other_lines_push(record::other_lines(front, a), last, b);
        lemma_other_lines_push(record::other_lines(front, b), last, a);
    }
}

proof fn lemma_other_lines_push(ls: Seq<Seq<char>>, line: Seq<char>, url: Seq<char>)
    ensures
        record::other_lines(ls.push(line), url) == if record::line_url(line) != url {
            record::other_lines(ls, url).push(line)
        } else {
            record::other_lines(ls, url)
        },
{
    reveal(Seq::filter);
    assert(ls.push(line).drop_last() =~= ls);
}

/// The lines that are left record something else.
proof fn lemma_other_lines_record_others(ls: Seq<Seq<char>>, url: Seq<char>)
    ensures
        forall|i: int|
            0 <= i < record::other_lines(ls, url).len() ==> record::line_url(
                #[trigger] record::other_lines(ls, url)[i],
            ) != url,
    decreases ls.len(),
{
    reveal(Seq::filter);
    if ls.len() > 0 {
        lemma_other_lines_record_others(ls.drop_last(), url);
        assert(ls.drop_last().push(ls.last()) =~= ls);
        lemma_other_lines_push(ls.drop_last(), ls.last(), url);
    }
}

/// Every URL that a file holds fills a field: it is not blank, has no white space at
/// its ends, and holds neither a tab nor a line feed.
pub proof fn recorded_urls_are_fields(contents: Seq<char>, i: int)
    requires
        0 <= i < record::recorded_urls(contents).len(),
    ensures
        is_field(record::recorded_urls(contents)[i]),
{
    let ls = text::lines(contents);
    let url = record::recorded_urls(contents)[i];
    let nonblank = |u: Seq<char>| u.len() > 0;
    let all = record::line_urls(ls);
    all.lemma_filter_pred(nonblank, i);
    assert(all.filter(nonblank).contains(url));
    all.lemma_filter_contains_rev(nonblank, url);
    let j = choose|j: int| 0 <= j < all.len() && all[j] == url;
    let line = ls[j];
    text::lemma_lines_hold_no_line_feed(contents);
    assert(!line.contains('\n'));
    assert(record::line_url(line) == url);
    let field = text::before(line, '\t');
    text::lemma_position(line, '\t');
    text::lemma_trim_is_trimmed(field);
    text::lemma_trim_is_part(field);
    assert forall|k: int| 0 <= k < url.len() implies url[k] != '\t' && url[k] != '\n' by {
        assert(field.contains(url[k]));
        let m = choose|m: int| 0 <= m < field.len() && field[m] == url[k];
        assert(line[m] == url[k]);
        assert(line.contains(line[m]));
    }
}

/// What a removal writes is empty or ends with a line feed, and so is what an addition
/// writes. Where an addition changes nothing, a file that was so stays so.
pub proof fn changes_keep_termination(file: Option<Seq<char>>, url: Seq<char>)
    ensures
        file_is_terminated(record::changed(file, record::removal(file, url))),
        file_is_terminated(file) || record::addition(file, url) !is Unchanged
            ==> file_is_terminated(record::changed(file, record::addition(file, url))),
{
    if let Some(contents) = file {
        assert((contents + url.push('\n')).last() == '\n');
        assert((contents + (seq!['\n'] + url.push('\n'))).last() == '\n');
        lemma_rest_is_read_back(contents, url);
    }
}

/// A removal leaves no empty file behind.
pub proof fn removal_leaves_no_empty_file(file: Option<Seq<char>>, url: Seq<char>)
    ensures
        record::changed(file, record::removal(file, url)) != Some(Seq::<char>::empty()),
{
    if let Some(contents) = file {
        lemma_rest_is_read_back(contents, url);
    }
}

} // verus!
