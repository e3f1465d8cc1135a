//! Laws of calls: what the results of calls of the library satisfy, and how the
//! results of several calls relate.
//!
//! `call_ensures(f, arguments, result)` says that a call of `f` with the arguments may
//! give the result; a parameter that a call changes stands for its value before, and
//! inside `final(..)` for its value after.
use vstd::prelude::*;

use crate::attribution::{ClaudePrAttributionModel, DirectoryEntry};
use crate::attribution_laws;
use crate::line_laws;
use crate::modal::{
    AssignPrsModal, AssignPrsModalAction, AssignPrsModalEvent, BodyItem, InputEvent, ModalEffect,
};
use crate::modal;
use crate::modal_laws;
use crate::record::{
    add_recorded_pr, parse_record, record_url, remove_recorded_pr, RecordChange,
};
use crate::record;
use crate::record_laws;
use crate::session_key;
use crate::text::{ends_its_line, split_lines, text_before, trimmed};
use crate::text;
use crate::text_laws;

verus! {

/// `trimmed` takes off the white space at either end, and nothing else.
pub proof fn trimmed_gives_the_core(
    given: &str,
    result: String,
    front: Seq<char>,
    core: Seq<char>,
    back: Seq<char>,
)
    requires
        call_ensures(trimmed, (given,), result),
        text_laws::is_core(given@, front, core, back),
    ensures
        result@ == core,
{
    text_laws::trimming_gives_the_core(front, core, back);
}

/// `text_before` stops at the first of the character, or at the end.
pub proof fn text_before_stops_at_the_first(
    given: &str,
    c: char,
    result: String,
    start: Seq<char>,
    rest: Seq<char>,
)
    requires
        call_ensures(text_before, (given, c), result),
        !start.contains(c),
        given@ == start || given@ == start + seq![c] + rest,
    ensures
        result@ == start,
{
    text_laws::before_stops_at_the_first(start, c, rest);
}

/// `ends_its_line` tells whether a text is empty or has a line feed at its end.
pub proof fn ends_its_line_tells_the_end(given: &str, result: bool)
    requires
        call_ensures(ends_its_line, (given,), result),
    ensures
        result <==> given@.len() == 0 || given@[given@.len() - 1] == '\n',
{
}

/// `split_lines` gives the first line, without what ends it, and then the lines of the
/// rest. A text without a line feed is one line, and an empty one none.
pub proof fn split_lines_goes_from_the_front(
    given: &str,
    result: Vec<String>,
    rest: &str,
    rest_result: Vec<String>,
    line: Seq<char>,
)
    requires
        call_ensures(split_lines, (given,), result),
        call_ensures(split_lines, (rest,), rest_result),
        !line.contains('\n'),
    ensures
        given@.len() == 0 ==> result@.len() == 0,
        given@ == line && line.len() > 0 ==> result@.len() == 1 && result@[0]@ == line,
        given@ == line + seq!['\n'] + rest@ && (line.len() == 0 || line[line.len() - 1] != '\r')
            ==> text::texts(result@) == seq![line] + text::texts(rest_result@),
        given@ == line + seq!['\r', '\n'] + rest@ ==> text::texts(result@) == seq![line]
            + text::texts(rest_result@),
{
    text_laws::lines_from_the_front(line, rest@);
    assert(text::texts(result@).len() == result@.len());
    if given@.len() == 0 {
        assert(given@ =~= seq![]);
    }
    if given@ == line && line.len() > 0 {
        assert(text::texts(result@)[0] == result@[0]@);
    }
}

/// `record_url` ignores white space around the URL of a line, and a title behind a tab.
pub proof fn record_url_ignores_what_is_around(
    line: &str,
    result: String,
    front: Seq<char>,
    url: Seq<char>,
    back: Seq<char>,
    title: Seq<char>,
)
    requires
        call_ensures(record_url, (line,), result),
        text_laws::is_core(front + url + back, front, url, back),
        !(front + url + back).contains('\t'),
        line@ == front + url + back || line@ == front + url + back + seq!['\t'] + title,
    ensures
        result@ == url,
{
    lemma_parts_lack(front, url, back, '\t');
    line_laws::white_space_around_a_url_is_ignored(front, url, back, title);
}

proof fn lemma_parts_lack(front: Seq<char>, url: Seq<char>, back: Seq<char>, c: char)
    requires
        !(front + url + back).contains(c),
    ensures
        !front.contains(c),
        !url.contains(c),
        !back.contains(c),
{
    let whole = front + url + back;
    assert forall|i: int| 0 <= i < front.len() implies front[i] != c by {
        assert(whole[i] == front[i]);
        assert(whole.contains(whole[i]));
    }
    assert forall|i: int| 0 <= i < url.len() implies url[i] != c by {
        assert(whole[front.len() + i] == url[i]);
        assert(whole.contains(whole[front.len() + i]));
    }
    assert forall|i: int| 0 <= i < back.len() implies back[i] != c by {
        assert(whole[front.len() + url.len() + i] == back[i]);
        assert(whole.contains(whole[front.len() + url.len() + i]));
    }
}

/// `parse_record` gives the URL of one line more behind the others, whatever white
/// space and title are around it and whether or not a line feed ends it. A blank line
/// gives nothing, and an empty file nothing at all.
pub proof fn parse_record_goes_line_by_line(
    contents: &str,
    before: Vec<String>,
    longer: &str,
    after: Vec<String>,
    front: Seq<char>,
    url: Seq<char>,
    back: Seq<char>,
    line: Seq<char>,
    title: Seq<char>,
)
    requires
        call_ensures(parse_record, (contents,), before),
        call_ensures(parse_record, (longer,), after),
        contents@.len() > 0 ==> contents@[contents@.len() - 1] == '\n',
        text_laws::is_core(front + url + back, front, url, back),
        !(front + url + back).contains('\t'),
        line == front + url + back || line == front + url + back + seq!['\t'] + title,
        !line.contains('\n'),
        longer@ == contents@ + line || longer@ == contents@ + line + seq!['\n'],
    ensures
        contents@.len() == 0 ==> before@.len() == 0,
        url.len() > 0 ==> text::texts(after@) == text::texts(before@) + seq![url],
        url.len() == 0 ==> text::texts(after@) == text::texts(before@),
{
    lemma_parts_lack(front, url, back, '\t');
    line_laws::white_space_around_a_url_is_ignored(front, url, back, title);
    line_laws::reading_goes_line_by_line(contents@, line);
    assert(text::texts(before@).len() == before@.len());
    if contents@.len() == 0 {
        assert(contents@ =~= seq![]);
    }
    assert(text::texts(before@) + seq![] =~= text::texts(before@));
}

/// `add_recorded_pr` leaves a file that holds the URL as it is. Else it appends the URL
/// and a line feed, behind a line feed for a last line that lacks it.
pub proof fn add_recorded_pr_appends_what_is_new(
    contents: &str,
    urls: Vec<String>,
    url: &str,
    change: RecordChange,
    first: RecordChange,
)
    requires
        call_ensures(parse_record, (contents,), urls),
        call_ensures(add_recorded_pr, (Some(contents), url), change),
        call_ensures(add_recorded_pr, (None, url), first),
        url@.len() > 0,
    ensures
        text::texts(urls@).contains(url@) ==> change is Unchanged,
        !text::texts(urls@).contains(url@) ==> change is Append && change->Append_0@ == if (
        contents@.len() == 0 || contents@[contents@.len() - 1] == '\n') {
            url@ + seq!['\n']
        } else {
            seq!['\n'] + url@ + seq!['\n']
        },
        first is Append,
        first->Append_0@ == url@ + seq!['\n'],
{
    record_laws::recorded_urls_are_recorded(contents@, url@);
    line_laws::addition_writes_one_line(contents@, url@);
}

/// `add_recorded_pr` looks at the lines of the file: it leaves the file as it is if and
/// only if a line records exactly the URL, be it blank.
pub proof fn add_recorded_pr_looks_at_the_lines(
    contents: &str,
    change: RecordChange,
    url: &str,
)
    requires
        call_ensures(add_recorded_pr, (Some(contents), url), change),
    ensures
        change is Unchanged <==> exists|i: int|
            0 <= i < text::lines(contents@).len() && record::line_url(
                #[trigger] text::lines(contents@)[i],
            ) == url@,
{
    let ls = text::lines(contents@);
    line_laws::addition_writes_one_line(contents@, url@);
    if record::records(contents@, url@) {
        let i = choose|i: int| 0 <= i < ls.len() && record::line_urls(ls)[i] == url@;
        assert(record::line_url(ls[i]) == url@);
    }
    if exists|i: int| 0 <= i < ls.len() && record::line_url(#[trigger] ls[i]) == url@ {
        let i = choose|i: int| 0 <= i < ls.len() && record::line_url(#[trigger] ls[i]) == url@;
        assert(record::line_urls(ls)[i] == url@);
    }
}

/// `remove_recorded_pr` leaves of a file the text of its other lines, line by line, and
/// has it deleted if there are none. Without a file nothing happens.
pub proof fn remove_recorded_pr_leaves_the_other_lines(
    contents: &str,
    before: RecordChange,
    longer: &str,
    after: RecordChange,
    url: &str,
    line: Seq<char>,
    absent: RecordChange,
)
    requires
        call_ensures(remove_recorded_pr, (Some(contents), url), before),
        call_ensures(remove_recorded_pr, (Some(longer), url), after),
        call_ensures(remove_recorded_pr, (None, url), absent),
        contents@.len() > 0 ==> contents@[contents@.len() - 1] == '\n',
        !line.contains('\n'),
    ensures
        absent is Unchanged,
        contents@.len() == 0 ==> before is Delete,
        before is Delete || before is Replace && before->Replace_0@.len() > 0,
        longer@ == contents@ + line + seq!['\n'] && record::line_url(line) == url@ ==> after@
            == before@,
        longer@ == contents@ + line + seq!['\n'] && record::line_url(line) != url@ ==> after
            is Replace && after->Replace_0@ == kept(before) + text::strip_carriage_return(line)
            + seq!['\n'],
        longer@ == contents@ + line && record::line_url(line) == url@ ==> after@ == before@,
        longer@ == contents@ + line && line.len() > 0 && record::line_url(line) != url@ ==> after
            is Replace && after->Replace_0@ == kept(before) + line + seq!['\n'],
{
    line_laws::removal_goes_line_by_line(contents@, line, url@);
    if contents@.len() == 0 {
        assert(contents@ =~= seq![]);
    }
    assert(kept(before) == line_laws::left_over(contents@, url@));
    if longer@ == contents@ + line + seq!['\n'] {
        line_laws::removal_goes_line_by_line(longer@, seq![], url@);
        assert(longer@ + Seq::<char>::empty() =~= longer@);
    }
}

/// The text that a change leaves in the place of a file.
pub open spec fn kept(change: RecordChange) -> Seq<char> {
    match change {
        RecordChange::Replace(text) => text@,
        _ => seq![],
    }
}

/// What a file holds after `remove_recorded_pr` is what it held without the URL.
pub proof fn removed_url_is_not_read_back(
    contents: &str,
    before: Vec<String>,
    url: &str,
    change: RecordChange,
    rest: &str,
    after: Vec<String>,
)
    requires
        call_ensures(parse_record, (contents,), before),
        call_ensures(remove_recorded_pr, (Some(contents), url), change),
        call_ensures(parse_record, (rest,), after),
        change is Replace ==> change->Replace_0@ == rest@,
        change is Delete ==> rest@.len() == 0,
    ensures
        text::texts(after@) == record::without(text::texts(before@), url@),
{
    record_laws::removal_filters(Some(contents@), url@);
    line_laws::removal_goes_line_by_line(seq![], seq![], url@);
    line_laws::reading_goes_line_by_line(seq![], seq![]);
    if rest@.len() == 0 {
        assert(rest@ =~= seq![]);
    }
}

/// A model is empty when it is made, and after a reload without a listing.
pub proof fn models_start_empty(
    model: ClaudePrAttributionModel,
    other: &mut ClaudePrAttributionModel,
)
    requires
        call_ensures(ClaudePrAttributionModel::new, (), model),
        call_ensures(ClaudePrAttributionModel::reload, (other, None), ()),
    ensures
        model@ == Map::<Seq<char>, Seq<Seq<char>>>::empty(),
        final(other)@ == Map::<Seq<char>, Seq<Seq<char>>>::empty(),
{
}

/// After a reload, a session has the URLs that its file records, in order, if no other
/// entry has the name of the file, whatever the model held before.
pub proof fn reload_gives_sessions_their_urls(
    model: &mut ClaudePrAttributionModel,
    entries: &Vec<DirectoryEntry>,
    index: int,
    key: &str,
    contents: &str,
    urls: Vec<String>,
    found: Vec<String>,
)
    requires
        call_ensures(ClaudePrAttributionModel::reload, (model, Some(entries)), ()),
        call_ensures(ClaudePrAttributionModel::prs_for_hex, (&*final(model), key), found),
        call_ensures(parse_record, (contents,), urls),
        0 <= index < entries@.len(),
        entries@[index].is_file,
        entries@[index].name is Some,
        entries@[index].name->0@ == key@,
        entries@[index].contents is Some,
        entries@[index].contents->0@ == contents@,
        forall|i: int|
            0 <= i < entries@.len() && i != index ==> (#[trigger] entries@[i]).name is None
                || entries@[i].name->0@ != key@,
    ensures
        text::texts(found@) == text::texts(urls@),
{
    attribution_laws::session_gets_what_its_file_records(
        entries@,
        index,
        entries@[index].name->0,
        entries@[index].contents->0,
    );
}

/// After a reload, a session has no URLs if no entry with its name is a file that can
/// be read, whatever the model held before.
pub proof fn reload_gives_no_file_no_urls(
    model: &mut ClaudePrAttributionModel,
    entries: &Vec<DirectoryEntry>,
    key: &str,
    found: Vec<String>,
)
    requires
        call_ensures(ClaudePrAttributionModel::reload, (model, Some(entries)), ()),
        call_ensures(ClaudePrAttributionModel::prs_for_hex, (&*final(model), key), found),
        forall|i: int|
            0 <= i < entries@.len() ==> (#[trigger] entries@[i]).name is None
                || entries@[i].name->0@ != key@ || !entries@[i].is_file
                || entries@[i].contents is None,
    ensures
        found@.len() == 0,
{
    attribution_laws::session_without_a_file_gets_nothing(entries@, key@);
    assert(text::texts(found@).len() == found@.len());
}

/// A reload of one entry more sets what its name is attributed, if it is a file that
/// can be read and holds a URL, and changes nothing else.
pub proof fn reload_counts_entry_by_entry(
    model: &mut ClaudePrAttributionModel,
    entries: &Vec<DirectoryEntry>,
    other: &mut ClaudePrAttributionModel,
    more: &Vec<DirectoryEntry>,
    entry: DirectoryEntry,
)
    requires
        call_ensures(ClaudePrAttributionModel::reload, (model, Some(entries)), ()),
        call_ensures(ClaudePrAttributionModel::reload, (other, Some(more)), ()),
        more@ == entries@.push(entry),
    ensures
        entries@.len() == 0 ==> final(model)@ == Map::<Seq<char>, Seq<Seq<char>>>::empty(),
        final(other)@ == if entry.is_file && entry.name is Some && entry.contents is Some
            && record::recorded_urls(entry.contents->0@).len() > 0 {
            final(model)@.insert(
                entry.name->0@,
                record::recorded_urls(entry.contents->0@),
            )
        } else {
            final(model)@
        },
{
    attribution_laws::listing_counts_entry_by_entry(
        entries@,
        entry,
        entry.name->0,
        entry.contents->0,
    );
    if entries@.len() == 0 {
        assert(entries@ =~= seq![]);
    }
}

/// A lookup by uuid is the lookup by its key, and gives what the model holds.
pub proof fn lookups_agree(
    model: &ClaudePrAttributionModel,
    uuid: &[u8],
    by_uuid: Vec<String>,
    key: &str,
    by_key: Vec<String>,
)
    requires
        call_ensures(ClaudePrAttributionModel::prs_for, (model, uuid), by_uuid),
        call_ensures(ClaudePrAttributionModel::prs_for_hex, (model, key), by_key),
    ensures
        key@ == session_key::hex_text(uuid@) ==> text::texts(by_uuid@) == text::texts(by_key@),
        model@.contains_key(key@) ==> text::texts(by_key@) == model@[key@],
        !model@.contains_key(key@) ==> by_key@.len() == 0,
{
    assert(text::texts(by_key@).len() == by_key@.len());
}

/// URLs that are set are found again, and those of other sessions stay.
pub proof fn set_urls_are_found(
    model: &mut ClaudePrAttributionModel,
    key: &str,
    urls: Vec<String>,
    other: &str,
    before: Vec<String>,
    after: Vec<String>,
)
    requires
        call_ensures(ClaudePrAttributionModel::prs_for_hex, (&*model, other), before),
        call_ensures(ClaudePrAttributionModel::set_prs_for_hex, (model, key, urls), ()),
        call_ensures(ClaudePrAttributionModel::prs_for_hex, (&*final(model), other), after),
    ensures
        other@ == key@ ==> text::texts(after@) == text::texts(urls@),
        other@ != key@ ==> text::texts(after@) == text::texts(before@),
{
    attribution_laws::setting_replaces_one_session(model@, key@, text::texts(urls@));
    if urls@.len() == 0 {
        assert(text::texts(urls@) =~= seq![]);
    }
}

/// A modal starts empty. Opened, it lists what it is given, on the session that it is
/// given; closed, it is empty again.
pub proof fn modals_open_and_close<H: Default>(
    fresh: AssignPrsModal<H>,
    opened: &mut AssignPrsModal<H>,
    key: String,
    urls: Vec<String>,
    open_effects: Vec<ModalEffect>,
    closed: &mut AssignPrsModal<H>,
    close_effects: Vec<ModalEffect>,
)
    requires
        call_ensures(AssignPrsModal::<H>::new, (), fresh),
        call_ensures(AssignPrsModal::<H>::on_open, (opened, key, urls), open_effects),
        call_ensures(AssignPrsModal::<H>::on_close, (closed,), close_effects),
    ensures
        fresh@.pr_urls.len() == 0,
        fresh@.session_uuid_hex.len() == 0,
        fresh@.error is None,
        fresh.buttons().len() == 0,
        final(opened)@.pr_urls == text::texts(urls@),
        final(opened)@.session_uuid_hex == key@,
        final(opened)@.error is None,
        final(opened).buttons().len() == urls@.len(),
        forall|i: int|
            0 <= i < urls@.len() ==> call_ensures(
                H::default,
                (),
                #[trigger] final(opened).buttons()[i],
            ),
        open_effects@.len() == 3,
        open_effects@[0] is ClearInput,
        open_effects@[1] is FocusInput,
        open_effects@[2] is Notify,
        final(closed)@ == fresh@,
        final(closed).buttons().len() == 0,
        close_effects@.len() == 1,
        close_effects@[0] is Notify,
{
    let opening = modal::effects_of(open_effects@);
    let closing = modal::effects_of(close_effects@);
    assert(opening.len() == open_effects@.len());
    assert(closing.len() == close_effects@.len());
    assert(opening[0] == open_effects@[0]@);
    assert(opening[1] == open_effects@[1]@);
    assert(opening[2] == open_effects@[2]@);
    assert(closing[0] == close_effects@[0]@);
}

/// What is read off a modal is what it lists, the session that it is on, the error
/// that it shows, and what is kept for each row.
pub proof fn modals_tell_what_they_hold<H: Default>(
    modal: &AssignPrsModal<H>,
    urls: &Vec<String>,
    key: &str,
    error: Option<&str>,
    index: usize,
    button: Option<&H>,
)
    requires
        call_ensures(AssignPrsModal::<H>::pr_urls, (modal,), urls),
        call_ensures(AssignPrsModal::<H>::session_uuid_hex, (modal,), key),
        call_ensures(AssignPrsModal::<H>::error, (modal,), error),
        call_ensures(AssignPrsModal::<H>::remove_button_state, (modal, index), button),
    ensures
        text::texts(urls@) == modal@.pr_urls,
        key@ == modal@.session_uuid_hex,
        error is Some <==> modal@.error is Some,
        error is Some ==> error->0@ == modal@.error->0,
        index < modal.buttons().len() ==> button == Some(&modal.buttons()[index as int]),
        index >= modal.buttons().len() ==> button is None,
{
}

/// A call that adds, with the input blank, refused, listed or new: what becomes of the
/// list, the session, the error and the effects. The add button and the enter key do
/// the same.
pub proof fn adding_lists_and_records_the_url<H: Default>(
    modal: &mut AssignPrsModal<H>,
    input: &str,
    is_pr_url: bool,
    effects: Vec<ModalEffect>,
    front: Seq<char>,
    url: Seq<char>,
    back: Seq<char>,
)
    requires
        call_ensures(AssignPrsModal::<H>::try_add_pr, (modal, input, is_pr_url), effects)
            || call_ensures(
            AssignPrsModal::<H>::handle_action,
            (modal, &AssignPrsModalAction::AddPr, input, is_pr_url),
            effects,
        ) || call_ensures(
            AssignPrsModal::<H>::handle_input,
            (modal, &InputEvent::Enter, input, is_pr_url),
            effects,
        ),
        text_laws::is_core(input@, front, url, back),
    ensures
        final(modal)@.session_uuid_hex == old(modal)@.session_uuid_hex,
        final(modal)@.pr_urls == if url.len() > 0 && is_pr_url && !old(modal)@.pr_urls.contains(
            url,
        ) {
            old(modal)@.pr_urls + seq![url]
        } else {
            old(modal)@.pr_urls
        },
        url.len() == 0 ==> final(modal)@.error == old(modal)@.error,
        url.len() > 0 && is_pr_url ==> final(modal)@.error is None,
        url.len() > 0 && !is_pr_url ==> final(modal)@.error == Some(
            "Enter a valid GitHub pull request URL (…/pull/<number>)"@,
        ),
        modal::effects_of(effects@) == if url.len() == 0 {
            seq![]
        } else if !is_pr_url {
            seq![modal::Effect::Notify]
        } else if old(modal)@.pr_urls.contains(url) {
            seq![modal::Effect::ClearInput, modal::Effect::Notify]
        } else {
            seq![
                modal::Effect::AddRecordedPr { uuid_hex: old(modal)@.session_uuid_hex, url },
                modal::Effect::SyncModel,
                modal::Effect::ClearInput,
                modal::Effect::Notify,
            ]
        },
        AssignPrsModal::buttons_follow_add(*old(modal), *final(modal)),
{
    text_laws::trimming_gives_the_core(front, url, back);
    modal_laws::button_and_enter_add(modal@, input@, is_pr_url);
    assert(modal@.pr_urls.push(url) =~= modal@.pr_urls + seq![url]);
}

/// A call that removes, by position or by the button of a row: every row with the URL
/// goes, with its button, and the URL leaves the session's file. Without such a row
/// nothing happens.
pub proof fn removing_takes_the_url_out<H: Default>(
    modal: &mut AssignPrsModal<H>,
    index: usize,
    input: &str,
    is_pr_url: bool,
    effects: Vec<ModalEffect>,
)
    requires
        call_ensures(AssignPrsModal::<H>::remove_pr, (modal, index), effects) || call_ensures(
            AssignPrsModal::<H>::handle_action,
            (modal, &AssignPrsModalAction::RemovePr(index), input, is_pr_url),
            effects,
        ),
    ensures
        final(modal)@.session_uuid_hex == old(modal)@.session_uuid_hex,
        final(modal)@.error == old(modal)@.error,
        index >= old(modal)@.pr_urls.len() ==> final(modal)@.pr_urls == old(modal)@.pr_urls
            && final(modal).buttons() == old(modal).buttons() && effects@.len() == 0,
        index < old(modal)@.pr_urls.len() ==> final(modal)@.pr_urls == record::without(
            old(modal)@.pr_urls,
            old(modal)@.pr_urls[index as int],
        ) && final(modal).buttons() == modal::buttons_without(
            old(modal)@.pr_urls,
            old(modal).buttons(),
            old(modal)@.pr_urls[index as int],
        ) && modal::effects_of(effects@) == seq![
            modal::Effect::RemoveRecordedPr {
                uuid_hex: old(modal)@.session_uuid_hex,
                url: old(modal)@.pr_urls[index as int],
            },
            modal::Effect::SyncModel,
            modal::Effect::Notify,
        ],
{
    modal_laws::removal_takes_the_url_of_its_row(modal@, index, input@, is_pr_url);
    assert(modal::effects_of(effects@).len() == effects@.len());
}

/// A call that closes tells the owner and changes nothing.
pub proof fn closing_tells_the_owner<H: Default>(
    modal: &mut AssignPrsModal<H>,
    input: &str,
    is_pr_url: bool,
    effects: Vec<ModalEffect>,
)
    requires
        call_ensures(
            AssignPrsModal::<H>::handle_action,
            (modal, &AssignPrsModalAction::Close, input, is_pr_url),
            effects,
        ) || call_ensures(
            AssignPrsModal::<H>::handle_input,
            (modal, &InputEvent::Escape, input, is_pr_url),
            effects,
        ),
    ensures
        effects@.len() == 1,
        effects@[0] == ModalEffect::Emit(AssignPrsModalEvent::Close),
        final(modal)@ == old(modal)@,
        final(modal).buttons() == old(modal).buttons(),
{
    let done = modal::effects_of(effects@);
    assert(done.len() == effects@.len());
    assert(done[0] == effects@[0]@);
}

/// An edit of the input clears the error and draws the modal again; any other event but
/// enter and escape does nothing.
pub proof fn editing_clears_the_error<H: Default>(
    modal: &mut AssignPrsModal<H>,
    event: &InputEvent,
    input: &str,
    is_pr_url: bool,
    effects: Vec<ModalEffect>,
)
    requires
        call_ensures(
            AssignPrsModal::<H>::handle_input,
            (modal, event, input, is_pr_url),
            effects,
        ),
        event is Edited || event is Other,
    ensures
        final(modal)@.pr_urls == old(modal)@.pr_urls,
        final(modal)@.session_uuid_hex == old(modal)@.session_uuid_hex,
        final(modal).buttons() == old(modal).buttons(),
        event is Edited ==> final(modal)@.error is None && effects@.len() == 1 && effects@[0]
            is Notify,
        event is Other ==> final(modal)@.error == old(modal)@.error && effects@.len() == 0,
{
    let done = modal::effects_of(effects@);
    assert(done.len() == effects@.len());
    if event is Edited {
        assert(done[0] == effects@[0]@);
    }
}

/// The body that is drawn has a row for each URL, in order, whose button removes that
/// row, or a note if there is none; behind them the input, whose button adds; and
/// behind that the error, if there is one. It has nothing else.
pub proof fn drawn_body_has_rows_input_and_error<H: Default>(
    modal: &AssignPrsModal<H>,
    items: Vec<BodyItem>,
    i: int,
)
    requires
        call_ensures(AssignPrsModal::<H>::body_items, (modal,), items),
    ensures
        ({
            let n = modal@.pr_urls.len() as int;
            let rows = if n == 0 {
                1
            } else {
                n
            };
            &&& items@.len() == rows + 1 + if modal@.error is Some {
                1int
            } else {
                0int
            }
            &&& n == 0 ==> items@[0] is EmptyNote
            &&& 0 <= i < n ==> items@[i] is PrRow && items@[i]->PrRow_url@ == modal@.pr_urls[i]
                && items@[i]->remove == AssignPrsModalAction::RemovePr(i as usize)
            &&& items@[rows] == (BodyItem::AddRow { add: AssignPrsModalAction::AddPr })
            &&& modal@.error is Some ==> items@[rows + 1] is ErrorLine
                && items@[rows + 1]->ErrorLine_0@ == modal@.error->0
        }),
{
    let n = modal@.pr_urls.len() as int;
    let rows = if n == 0 {
        1
    } else {
        n
    };
    let body = modal::items_of(items@);
    modal_laws::body_shows_rows_input_and_error(modal@, i);
    assert(body.len() == items@.len());
    assert(body[0] == items@[0]@);
    assert(body[rows] == items@[rows]@);
    if 0 <= i < n {
        assert(body[i] == items@[i]@);
    }
    if modal@.error is Some {
        assert(body[rows + 1] == items@[rows + 1]@);
    }
}

/// After a modal updates the model, the model gives its session the listed URLs, and
/// any other session what it had.
pub proof fn updated_model_gives_the_listed_urls<H: Default>(
    modal: &AssignPrsModal<H>,
    model: &mut ClaudePrAttributionModel,
    key: &str,
    before: Vec<String>,
    after: Vec<String>,
)
    requires
        call_ensures(ClaudePrAttributionModel::prs_for_hex, (&*model, key), before),
        call_ensures(AssignPrsModal::<H>::sync_model, (modal, model), ()),
        call_ensures(ClaudePrAttributionModel::prs_for_hex, (&*final(model), key), after),
    ensures
        key@ == modal@.session_uuid_hex ==> text::texts(after@) == modal@.pr_urls,
        key@ != modal@.session_uuid_hex ==> text::texts(after@) == text::texts(before@),
{
    attribution_laws::setting_replaces_one_session(
        model@,
        modal@.session_uuid_hex,
        modal@.pr_urls,
    );
    if modal@.pr_urls.len() == 0 {
        assert(modal@.pr_urls =~= seq![]);
    }
}

} // verus!
