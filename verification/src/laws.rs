//! Laws that relate the record files, the attribution model and the modal.
use vstd::prelude::*;

use crate::attribution;
use crate::modal;
use crate::record;
use crate::record_laws;
use crate::session_key;
use crate::text;

verus! {

/// The directory of record files: session key to the text of the session's file.
pub type Directory = Map<Seq<char>, Seq<char>>;

/// The record file of a session; `None` if it has none.
pub open spec fn file_of(directory: Directory, key: Seq<char>) -> Option<Seq<char>> {
    if directory.contains_key(key) {
        Some(directory[key])
    } else {
        None
    }
}

/// The directory with a session's record file put in, replaced or deleted.
pub open spec fn with_file(
    directory: Directory,
    key: Seq<char>,
    file: Option<Seq<char>>,
) -> Directory {
    match file {
        Some(contents) => directory.insert(key, contents),
        None => directory.remove(key),
    }
}

/// What the files of a directory record.
pub open spec fn attribution_in(directory: Directory) -> attribution::Attribution {
    Map::new(
        |key: Seq<char>|
            directory.contains_key(key) && record::recorded_urls(directory[key]).len() > 0,
        |key: Seq<char>| record::recorded_urls(directory[key]),
    )
}

/// Whether an entry is a file with a name and a text that can be read.
pub open spec fn is_readable(entry: attribution::DirectoryEntry) -> bool {
    entry.is_file && entry.name is Some && entry.contents is Some
}

/// Whether the entries are a listing of the directory, in any order.
pub open spec fn lists(entries: Seq<attribution::DirectoryEntry>, directory: Directory) -> bool {
    &&& forall|i: int|
        0 <= i < entries.len() && is_readable(#[trigger] entries[i]) ==> directory.contains_pair(
            entries[i].name->0@,
            entries[i].contents->0@,
        )
    &&& forall|key: Seq<char>| #[trigger]
        directory.contains_key(key) ==> exists|i: int|
            0 <= i < entries.len() && is_readable(#[trigger] entries[i]) && entries[i].name->0@
                == key
}

/// The sessions that a listing attributes URLs to are those with a record in it,
/// and the URLs are those of such a record.
proof fn lemma_attribution_of(entries: Seq<attribution::DirectoryEntry>, key: Seq<char>)
    ensures
        attribution::attribution_of(entries).contains_key(key) <==> exists|i: int|
            0 <= i < entries.len() && (#[trigger] entries[i]).is_record() && entries[i].key()
                == key,
        attribution::attribution_of(entries).contains_key(key) ==> exists|i: int|
            0 <= i < entries.len() && (#[trigger] entries[i]).is_record() && entries[i].key() == key
                && entries[i].urls() == attribution::attribution_of(entries)[key],
    decreases entries.len(),
{
    if entries.len() > 0 {
        let front = entries.drop_last();
        let last = entries.last();
        lemma_attribution_of(front, key);
        assert(last == entries[entries.len() - 1]);
        assert forall|i: int| 0 <= i < front.len() implies front[i] == entries[i] by {}
        if attribution::attribution_of(front).contains_key(key) {
            let i = choose|i: int|
                0 <= i < front.len() && (#[trigger] front[i]).is_record() && front[i].key() == key
                    && front[i].urls() == attribution::attribution_of(front)[key];
            assert(entries[i] == front[i]);
        }
        if exists|i: int|
            0 <= i < entries.len() && (#[trigger] entries[i]).is_record() && entries[i].key()
                == key {
            let i = choose|i: int|
                0 <= i < entries.len() && (#[trigger] entries[i]).is_record() && entries[i].key()
                    == key;
            if i < front.len() {
                assert(front[i] == entries[i]);
            }
        }
    }
}

/// A reload from any listing of a directory holds, for each session, the URLs that
/// its file records, in order, and nothing else. The order of the listing does not
/// matter.
pub proof fn reload_reads_the_directory(
    entries: Seq<attribution::DirectoryEntry>,
    directory: Directory,
)
    requires
        lists(entries, directory),
    ensures
        attribution::attribution_of(entries) == attribution_in(directory),
{
    let read = attribution::attribution_of(entries);
    let wanted = attribution_in(directory);
    assert forall|key: Seq<char>|
        #![trigger read.dom().contains(key)]
        #![trigger wanted.dom().contains(key)]
        read.dom().contains(key) == wanted.dom().contains(key) && (read.dom().contains(key)
            ==> read[key] == wanted[key]) by {
        lemma_attribution_of(entries, key);
        if read.contains_key(key) {
            let i = choose|i: int|
                0 <= i < entries.len() && (#[trigger] entries[i]).is_record() && entries[i].key()
                    == key && entries[i].urls() == read[key];
            assert(is_readable(entries[i]));
            assert(directory.contains_pair(entries[i].key(), entries[i].contents->0@));
        }
        if wanted.contains_key(key) {
            assert(directory.contains_key(key));
            let i = choose|i: int|
                0 <= i < entries.len() && is_readable(#[trigger] entries[i])
                    && entries[i].name->0@ == key;
            assert(directory.contains_pair(entries[i].key(), entries[i].contents->0@));
            assert(entries[i].is_record());
        }
    }
    assert(read.dom() =~= wanted.dom());
    assert(read =~= wanted);
}

/// Every URL that a reload gives is not blank, has no white space at its ends, and
/// holds neither a tab nor a line feed.
pub proof fn reload_gives_fields(
    entries: Seq<attribution::DirectoryEntry>,
    key: Seq<char>,
    i: int,
)
    requires
        attribution::attribution_of(entries).contains_key(key),
        0 <= i < attribution::attribution_of(entries)[key].len(),
    ensures
        record_laws::is_field(attribution::attribution_of(entries)[key][i]),
{
    lemma_attribution_of(entries, key);
    let j = choose|j: int|
        0 <= j < entries.len() && (#[trigger] entries[j]).is_record() && entries[j].key() == key
            && entries[j].urls() == attribution::attribution_of(entries)[key];
    record_laws::recorded_urls_are_fields(entries[j].contents->0@, i);
}

/// A session without a record file has no pull requests, and one with a file has
/// those that the file records.
pub proof fn session_has_what_its_file_records(directory: Directory, key: Seq<char>)
    ensures
        attribution::urls_for(attribution_in(directory), key) == record_laws::urls_in(
            file_of(directory, key),
        ),
{
    if directory.contains_key(key) && record::recorded_urls(directory[key]).len() == 0 {
        assert(record::recorded_urls(directory[key]) =~= seq![]);
    }
}

/// Setting the URLs of a session makes those its URLs, and leaves every other
/// session as it was.
pub proof fn set_urls_are_read_back(
    attribution: attribution::Attribution,
    key: Seq<char>,
    urls: Seq<Seq<char>>,
    other: Seq<char>,
)
    ensures
        attribution::urls_for(attribution::with_urls(attribution, key, urls), other) == if other
            == key {
            urls
        } else {
            attribution::urls_for(attribution, other)
        },
{
    if urls.len() == 0 {
        assert(urls =~= seq![]);
    }
}

/// What is set for one session does not reach a session with another uuid.
pub proof fn sessions_are_independent(
    attribution: attribution::Attribution,
    uuid: Seq<u8>,
    other: Seq<u8>,
    urls: Seq<Seq<char>>,
)
    requires
        uuid != other,
    ensures
        attribution::urls_for(
            attribution::with_urls(attribution, session_key::hex_text(uuid), urls),
            session_key::hex_text(other),
        ) == attribution::urls_for(attribution, session_key::hex_text(other)),
{
    if session_key::hex_text(uuid) == session_key::hex_text(other) {
        session_key::hex_text_is_injective(uuid, other);
    }
}

/// The directory after an effect of the modal.
pub open spec fn after_effect(directory: Directory, effect: modal::Effect) -> Directory {
    match effect {
        modal::Effect::AddRecordedPr { uuid_hex, url } => {
            let file = file_of(directory, uuid_hex);
            with_file(directory, uuid_hex, record::changed(file, record::addition(file, url)))
        },
        modal::Effect::RemoveRecordedPr { uuid_hex, url } => {
            let file = file_of(directory, uuid_hex);
            with_file(directory, uuid_hex, record::changed(file, record::removal(file, url)))
        },
        _ => directory,
    }
}

/// The directory after effects of the modal, one after the other.
pub open spec fn after_effects(directory: Directory, effects: Seq<modal::Effect>) -> Directory
    decreases effects.len(),
{
    if effects.len() == 0 {
        directory
    } else {
        after_effects(after_effect(directory, effects[0]), effects.drop_first())
    }
}

/// The shared model after effects of a modal that is left in `state`.
pub open spec fn model_after_effects(
    model: attribution::Attribution,
    state: modal::ModalState,
    effects: Seq<modal::Effect>,
) -> attribution::Attribution {
    if effects.contains(modal::Effect::SyncModel) {
        attribution::with_urls(model, state.session_uuid_hex, state.pr_urls)
    } else {
        model
    }
}

/// Whether the modal, the shared model and the directory agree: the model holds
/// what the directory records, and the modal lists the URLs of its session.
pub open spec fn in_step(
    state: modal::ModalState,
    model: attribution::Attribution,
    directory: Directory,
) -> bool {
    &&& model == attribution_in(directory)
    &&& state.pr_urls == attribution::urls_for(model, state.session_uuid_hex)
}

/// Whether an attempt to add records a URL: the input is taken for the URL of a
/// pull request that is not listed yet.
pub open spec fn adds_url(state: modal::ModalState, input: Seq<char>, is_pr_url: bool) -> bool {
    let url = text::trim(input);
    url.len() > 0 && is_pr_url && !state.pr_urls.contains(url)
}

/// Whether the URL in the input can be a field of a record file: it holds neither a
/// tab nor a line feed.
pub open spec fn fits_as_field(input: Seq<char>) -> bool {
    !text::trim(input).contains('\t') && !text::trim(input).contains('\n')
}

/// Writing a session's file and setting the session's URLs in the model to what
/// the file then records keeps the two in step.
proof fn lemma_file_and_model_change_together(
    directory: Directory,
    key: Seq<char>,
    file: Option<Seq<char>>,
)
    ensures
        attribution_in(with_file(directory, key, file)) == attribution::with_urls(
            attribution_in(directory),
            key,
            record_laws::urls_in(file),
        ),
{
    let left = attribution_in(with_file(directory, key, file));
    let right = attribution::with_urls(
        attribution_in(directory),
        key,
        record_laws::urls_in(file),
    );
    assert(left =~= right);
}

/// Opening the modal on a session with what the model holds of it puts the three in
/// step, if the model holds what the directory records.
pub proof fn opening_is_in_step(
    key: Seq<char>,
    model: attribution::Attribution,
    directory: Directory,
)
    requires
        model == attribution_in(directory),
    ensures
        in_step(
            modal::ModalState::opened(key, attribution::urls_for(model, key)),
            model,
            directory,
        ),
{
}

/// An attempt to add a URL keeps the modal, the model and the directory in step:
/// reading the directory again gives the model that the modal left. A URL that is
/// recorded must fit as a field.
pub proof fn adding_keeps_in_step(
    state: modal::ModalState,
    model: attribution::Attribution,
    directory: Directory,
    input: Seq<char>,
    is_pr_url: bool,
)
    requires
        in_step(state, model, directory),
        adds_url(state, input, is_pr_url) ==> fits_as_field(input),
    ensures
        ({
            let after = state.after_add(input, is_pr_url);
            let effects = state.add_effects(input, is_pr_url);
            in_step(
                after,
                model_after_effects(model, after, effects),
                after_effects(directory, effects),
            )
        }),
{
    let url = text::trim(input);
    let after = state.after_add(input, is_pr_url);
    let effects = state.add_effects(input, is_pr_url);
    let key = state.session_uuid_hex;
    let file = file_of(directory, key);
    reveal_with_fuel(after_effects, 5);
    if adds_url(state, input, is_pr_url) {
        text::lemma_trim_is_trimmed(input);
        session_has_what_its_file_records(directory, key);
        record_laws::addition_appends(file, url);
        let written = record::changed(file, record::addition(file, url));
        lemma_file_and_model_change_together(directory, key, written);
        assert(effects[1] == modal::Effect::SyncModel);
        assert(after_effects(directory, effects) == with_file(directory, key, written));
    } else {
        assert(after_effects(directory, effects) == directory);
        assert(!effects.contains(modal::Effect::SyncModel));
    }
}

proof fn lemma_push_has_no_duplicates(urls: Seq<Seq<char>>, url: Seq<char>)
    requires
        urls.no_duplicates(),
        !urls.contains(url),
    ensures
        urls.push(url).no_duplicates(),
{
    let all = urls.push(url);
    assert forall|i: int, j: int| 0 <= i < all.len() && 0 <= j < all.len() && i != j implies all[i]
        != all[j] by {
        if i == urls.len() {
            assert(urls.contains(urls[j]));
        } else if j == urls.len() {
            assert(urls.contains(urls[i]));
        }
    }
}

/// Removing a row keeps the modal, the model and the directory in step: reading the
/// directory again gives the model that the modal left.
pub proof fn removing_keeps_in_step(
    state: modal::ModalState,
    model: attribution::Attribution,
    directory: Directory,
    index: int,
)
    requires
        in_step(state, model, directory),
        0 <= index,
    ensures
        ({
            let after = state.after_remove(index);
            let effects = state.remove_effects(index);
            in_step(
                after,
                model_after_effects(model, after, effects),
                after_effects(directory, effects),
            )
        }),
{
    let after = state.after_remove(index);
    let effects = state.remove_effects(index);
    let key = state.session_uuid_hex;
    let file = file_of(directory, key);
    reveal_with_fuel(after_effects, 4);
    if index < state.pr_urls.len() {
        let url = state.pr_urls[index];
        session_has_what_its_file_records(directory, key);
        record_laws::removal_filters(file, url);
        set_urls_are_read_back(model, key, after.pr_urls, key);
        let written = record::changed(file, record::removal(file, url));
        lemma_file_and_model_change_together(directory, key, written);
        assert(effects[1] == modal::Effect::SyncModel);
        assert(after_effects(directory, effects) == with_file(directory, key, written));
    }
}

/// Every action keeps the modal, the model and the directory in step, where adding
/// does.
pub proof fn actions_keep_in_step(
    state: modal::ModalState,
    model: attribution::Attribution,
    directory: Directory,
    action: modal::AssignPrsModalAction,
    input: Seq<char>,
    is_pr_url: bool,
)
    requires
        in_step(state, model, directory),
        action is AddPr && adds_url(state, input, is_pr_url) ==> fits_as_field(input),
    ensures
        ({
            let after = state.after_action(action, input, is_pr_url);
            let effects = state.action_effects(action, input, is_pr_url);
            in_step(
                after,
                model_after_effects(model, after, effects),
                after_effects(directory, effects),
            )
        }),
{
    match action {
        modal::AssignPrsModalAction::AddPr => {
            adding_keeps_in_step(state, model, directory, input, is_pr_url);
        },
        modal::AssignPrsModalAction::RemovePr(index) => {
            removing_keeps_in_step(state, model, directory, index as int);
        },
        modal::AssignPrsModalAction::Close => {
            reveal_with_fuel(after_effects, 2);
        },
    }
}

/// Every event of the input keeps the modal, the model and the directory in step,
/// where adding does.
pub proof fn inputs_keep_in_step(
    state: modal::ModalState,
    model: attribution::Attribution,
    directory: Directory,
    event: modal::InputEvent,
    input: Seq<char>,
    is_pr_url: bool,
)
    requires
        in_step(state, model, directory),
        event is Enter && adds_url(state, input, is_pr_url) ==> fits_as_field(input),
    ensures
        ({
            let after = state.after_input(event, input, is_pr_url);
            let effects = state.input_effects(event, input, is_pr_url);
            in_step(
                after,
                model_after_effects(model, after, effects),
                after_effects(directory, effects),
            )
        }),
{
    reveal_with_fuel(after_effects, 2);
    if event is Enter {
        adding_keeps_in_step(state, model, directory, input, is_pr_url);
    }
}

/// No action lists a URL twice.
pub proof fn actions_keep_urls_distinct(
    state: modal::ModalState,
    action: modal::AssignPrsModalAction,
    input: Seq<char>,
    is_pr_url: bool,
)
    requires
        state.pr_urls.no_duplicates(),
    ensures
        state.after_action(action, input, is_pr_url).pr_urls.no_duplicates(),
{
    if action is AddPr && adds_url(state, input, is_pr_url) {
        lemma_push_has_no_duplicates(state.pr_urls, text::trim(input));
    }
    if let modal::AssignPrsModalAction::RemovePr(index) = action {
        record_laws::lemma_without_keeps_distinct(state.pr_urls, state.pr_urls[index as int]);
    }
}

/// No action leaves a record file without a line feed at its end that had one, or
/// was empty.
pub proof fn actions_keep_files_terminated(
    state: modal::ModalState,
    directory: Directory,
    action: modal::AssignPrsModalAction,
    input: Seq<char>,
    is_pr_url: bool,
    key: Seq<char>,
)
    requires
        record_laws::file_is_terminated(file_of(directory, key)),
    ensures
        record_laws::file_is_terminated(
            file_of(after_effects(directory, state.action_effects(action, input, is_pr_url)), key),
        ),
{
    reveal_with_fuel(after_effects, 5);
    let file = file_of(directory, key);
    record_laws::changes_keep_termination(file, text::trim(input));
    if let modal::AssignPrsModalAction::RemovePr(index) = action {
        record_laws::changes_keep_termination(file, state.pr_urls[index as int]);
    }
}

/// No action touches the record file of another session.
pub proof fn actions_touch_one_file(
    state: modal::ModalState,
    directory: Directory,
    action: modal::AssignPrsModalAction,
    input: Seq<char>,
    is_pr_url: bool,
    other: Seq<char>,
)
    requires
        other != state.session_uuid_hex,
    ensures
        file_of(
            after_effects(directory, state.action_effects(action, input, is_pr_url)),
            other,
        ) == file_of(directory, other),
{
    reveal_with_fuel(after_effects, 5);
}

/// Input that is not the URL of a pull request is answered with the error message
/// and changes neither the list nor any record file nor the model.
pub proof fn refused_input_changes_nothing(
    state: modal::ModalState,
    model: attribution::Attribution,
    directory: Directory,
    input: Seq<char>,
)
    requires
        text::trim(input).len() > 0,
    ensures
        ({
            let after = state.after_add(input, false);
            let effects = state.add_effects(input, false);
            &&& after.error == Some(modal::INVALID_PR_URL_ERROR@)
            &&& after.pr_urls == state.pr_urls
            &&& after.session_uuid_hex == state.session_uuid_hex
            &&& after_effects(directory, effects) == directory
            &&& model_after_effects(model, after, effects) == model
            &&& !effects.contains(modal::Effect::ClearInput)
        }),
{
    reveal_with_fuel(after_effects, 2);
}

/// Whether only the row at `index` shows its URL.
pub open spec fn shown_once(urls: Seq<Seq<char>>, index: int) -> bool {
    forall|i: int| 0 <= i < urls.len() && i != index ==> #[trigger] urls[i] != urls[index]
}

/// The button of a row asks for the removal of the URL that the row shows: it is
/// taken out of the session's record file, no row shows it any more, and the other
/// rows stay, in their order. Where no other row shows it, only that row goes.
pub proof fn row_removes_what_it_shows(
    state: modal::ModalState,
    i: int,
    input: Seq<char>,
    is_pr_url: bool,
)
    requires
        0 <= i < state.pr_urls.len() <= usize::MAX,
    ensures
        state.body()[i] is PrRow,
        ({
            let url = state.body()[i]->PrRow_url;
            let action = state.body()[i]->remove;
            let after = state.after_action(action, input, is_pr_url);
            let effects = state.action_effects(action, input, is_pr_url);
            &&& url == state.pr_urls[i]
            &&& effects[0] == modal::Effect::RemoveRecordedPr {
                uuid_hex: state.session_uuid_hex,
                url,
            }
            &&& after.pr_urls == record::without(state.pr_urls, url)
            &&& !after.pr_urls.contains(url)
            &&& shown_once(state.pr_urls, i) ==> after.pr_urls == state.pr_urls.take(i)
                + state.pr_urls.skip(i + 1)
        }),
{
    let url = state.pr_urls[i];
    record_laws::lemma_without_lacks(state.pr_urls, url);
    if shown_once(state.pr_urls, i) {
        record_laws::lemma_without_is_remove(state.pr_urls, i);
        assert(state.pr_urls.remove(i) =~= state.pr_urls.take(i) + state.pr_urls.skip(i + 1));
    }
}

/// Where no other row shows the URL of a row, only the button of that row goes with
/// it, and the others keep theirs.
pub proof fn row_takes_its_button_along<H>(urls: Seq<Seq<char>>, buttons: Seq<H>, index: int)
    requires
        shown_once(urls, index),
        urls.len() == buttons.len(),
        0 <= index < urls.len(),
    ensures
        modal::buttons_without(urls, buttons, urls[index]) == buttons.remove(index),
    decreases urls.len(),
{
    let url = urls[index];
    let front = urls.drop_last();
    if index == urls.len() - 1 {
        assert forall|i: int| 0 <= i < front.len() implies front[i] != url by {
            assert(front[i] == urls[i]);
        }
        lemma_buttons_stay(front, buttons.drop_last(), url);
        assert(buttons.drop_last() =~= buttons.remove(index));
    } else {
        assert(front[index] == url);
        assert(urls[urls.len() - 1] != url);
        assert forall|i: int| 0 <= i < front.len() && i != index implies #[trigger] front[i]
            != url by {
            assert(front[i] == urls[i]);
        }
        row_takes_its_button_along(front, buttons.drop_last(), index);
        assert(buttons.drop_last().remove(index).push(buttons.last()) =~= buttons.remove(index));
    }
}

proof fn lemma_buttons_stay<H>(urls: Seq<Seq<char>>, buttons: Seq<H>, url: Seq<char>)
    requires
        !urls.contains(url),
        urls.len() == buttons.len(),
    ensures
        modal::buttons_without(urls, buttons, url) == buttons,
    decreases urls.len(),
{
    if urls.len() == 0 {
        assert(buttons =~= seq![]);
    } else {
        let front = urls.drop_last();
        assert(urls.contains(urls.last()));
        assert forall|i: int| 0 <= i < front.len() implies front[i] != url by {
            assert(urls.contains(urls[i]));
        }
        lemma_buttons_stay(front, buttons.drop_last(), url);
        assert(buttons.drop_last().push(buttons.last()) =~= buttons);
    }
}

} // verus!
