//! Laws of the modal: what each operation does to the list, the error message and the
//! buttons, what it has the application do, and what the modal shows.
use vstd::prelude::*;

use crate::attribution;
use crate::modal;
use crate::record;
use crate::text;
use crate::text_laws;

verus! {

/// What is put in when nothing is open yet, and what is shown right after opening.
pub proof fn opening_shows_what_it_is_given(key: Seq<char>, urls: Seq<Seq<char>>)
    ensures
        modal::ModalState::idle().pr_urls.len() == 0,
        modal::ModalState::idle().session_uuid_hex.len() == 0,
        modal::ModalState::idle().error is None,
        modal::ModalState::opened(key, urls).pr_urls == urls,
        modal::ModalState::opened(key, urls).session_uuid_hex == key,
        modal::ModalState::opened(key, urls).error is None,
{
}

/// Adding the URL of a pull request that is not listed, with whatever white space
/// around it, puts exactly that URL behind the others, clears the error, records it in
/// the session's file, updates the model and clears the input.
pub proof fn new_url_is_listed_and_recorded(
    state: modal::ModalState,
    front: Seq<char>,
    url: Seq<char>,
    back: Seq<char>,
)
    requires
        text_laws::is_core(front + url + back, front, url, back),
        url.len() > 0,
        !state.pr_urls.contains(url),
    ensures
        ({
            let input = front + url + back;
            let after = state.after_add(input, true);
            &&& after.pr_urls == state.pr_urls + seq![url]
            &&& after.session_uuid_hex == state.session_uuid_hex
            &&& after.error is None
            &&& state.add_effects(input, true) == seq![
                modal::Effect::AddRecordedPr { uuid_hex: state.session_uuid_hex, url },
                modal::Effect::SyncModel,
                modal::Effect::ClearInput,
                modal::Effect::Notify,
            ]
        }),
{
    text_laws::trimming_gives_the_core(front, url, back);
    assert(state.pr_urls.push(url) =~= state.pr_urls + seq![url]);
}

/// Adding a URL that is listed leaves the list as it is and records nothing, but
/// clears the error and the input.
pub proof fn listed_url_is_not_added_again(
    state: modal::ModalState,
    front: Seq<char>,
    url: Seq<char>,
    back: Seq<char>,
)
    requires
        text_laws::is_core(front + url + back, front, url, back),
        url.len() > 0,
        state.pr_urls.contains(url),
    ensures
        ({
            let input = front + url + back;
            let after = state.after_add(input, true);
            &&& after.pr_urls == state.pr_urls
            &&& after.session_uuid_hex == state.session_uuid_hex
            &&& after.error is None
            &&& state.add_effects(input, true) == seq![
                modal::Effect::ClearInput,
                modal::Effect::Notify,
            ]
        }),
{
    text_laws::trimming_gives_the_core(front, url, back);
}

/// Input that is not blank and not the URL of a pull request is answered with the
/// error message. The list and the input stay, and nothing is recorded.
pub proof fn other_input_is_refused(state: modal::ModalState, input: Seq<char>)
    requires
        !text_laws::is_blank(input),
    ensures
        ({
            let after = state.after_add(input, false);
            &&& after.pr_urls == state.pr_urls
            &&& after.session_uuid_hex == state.session_uuid_hex
            &&& after.error == Some(
                "Enter a valid GitHub pull request URL (…/pull/<number>)"@,
            )
            &&& state.add_effects(input, false) == seq![modal::Effect::Notify]
        }),
{
    let ends = text_laws::every_text_has_a_core(input);
    if text::trim(input).len() == 0 {
        assert forall|i: int| 0 <= i < input.len() implies text::is_white_space(
            #[trigger] input[i],
        ) by {
            if i < ends.0.len() {
                assert(input[i] == ends.0[i]);
            } else {
                assert(input[i] == ends.1[i - ends.0.len()]);
            }
        }
    }
}

/// Blank input does nothing at all, whatever it is taken for.
pub proof fn blank_input_does_nothing(state: modal::ModalState, input: Seq<char>, is_pr_url: bool)
    requires
        text_laws::is_blank(input),
    ensures
        state.after_add(input, is_pr_url) == state,
        state.add_effects(input, is_pr_url) == Seq::<modal::Effect>::empty(),
{
    let none = Seq::<char>::empty();
    assert(input =~= input + none + none);
    text_laws::trimming_gives_the_core(input, none, none);
}

/// The add button and the enter key do the same, and that is to add.
pub proof fn button_and_enter_add(state: modal::ModalState, input: Seq<char>, is_pr_url: bool)
    ensures
        state.after_action(modal::AssignPrsModalAction::AddPr, input, is_pr_url)
            == state.after_add(input, is_pr_url),
        state.action_effects(modal::AssignPrsModalAction::AddPr, input, is_pr_url)
            == state.add_effects(input, is_pr_url),
        state.after_input(modal::InputEvent::Enter, input, is_pr_url) == state.after_add(
            input,
            is_pr_url,
        ),
        state.input_effects(modal::InputEvent::Enter, input, is_pr_url) == state.add_effects(
            input,
            is_pr_url,
        ),
{
}

/// Pressing the button of a row takes the URL of that row, and no other, out of the
/// list and out of the session's file, and updates the model. Without such a row
/// nothing happens. The error message stays, and what is in the input does not matter.
pub proof fn removal_takes_the_url_of_its_row(
    state: modal::ModalState,
    index: usize,
    input: Seq<char>,
    is_pr_url: bool,
)
    ensures
        ({
            let action = modal::AssignPrsModalAction::RemovePr(index);
            let after = state.after_action(action, input, is_pr_url);
            let effects = state.action_effects(action, input, is_pr_url);
            let url = state.pr_urls[index as int];
            &&& after == state.after_remove(index as int)
            &&& effects == state.remove_effects(index as int)
            &&& after.session_uuid_hex == state.session_uuid_hex
            &&& after.error == state.error
            &&& index < state.pr_urls.len() ==> after.pr_urls == record::without(
                state.pr_urls,
                url,
            ) && effects == seq![
                modal::Effect::RemoveRecordedPr { uuid_hex: state.session_uuid_hex, url },
                modal::Effect::SyncModel,
                modal::Effect::Notify,
            ]
            &&& index >= state.pr_urls.len() ==> after.pr_urls == state.pr_urls && effects == Seq::<
                modal::Effect,
            >::empty()
        }),
{
}

/// Closing tells the owner and changes nothing, from the button, the key binding or
/// the input, and nothing else tells the owner to close.
pub proof fn only_closing_closes(
    state: modal::ModalState,
    action: modal::AssignPrsModalAction,
    event: modal::InputEvent,
    input: Seq<char>,
    is_pr_url: bool,
)
    ensures
        ({
            let close = modal::Effect::Emit(modal::AssignPrsModalEvent::Close);
            let effects = state.action_effects(action, input, is_pr_url);
            let input_effects = state.input_effects(event, input, is_pr_url);
            &&& action is Close ==> effects == seq![close] && state.after_action(
                action,
                input,
                is_pr_url,
            ) == state
            &&& event is Escape ==> input_effects == seq![close] && state.after_input(
                event,
                input,
                is_pr_url,
            ) == state
            &&& effects.contains(close) <==> action is Close
            &&& input_effects.contains(close) <==> event is Escape
        }),
{
    let close = modal::Effect::Emit(modal::AssignPrsModalEvent::Close);
    assert(seq![close].contains(close)) by {
        assert(seq![close][0] == close);
    }
}

/// An edit clears the error and draws the modal again, and any other event of the
/// input but enter and escape does nothing.
pub proof fn edits_clear_the_error(state: modal::ModalState, input: Seq<char>, is_pr_url: bool)
    ensures
        ({
            let after = state.after_input(modal::InputEvent::Edited, input, is_pr_url);
            &&& after.error is None
            &&& after.pr_urls == state.pr_urls
            &&& after.session_uuid_hex == state.session_uuid_hex
        }),
        state.input_effects(modal::InputEvent::Edited, input, is_pr_url) == seq![
            modal::Effect::Notify,
        ],
        state.after_input(modal::InputEvent::Other, input, is_pr_url) == state,
        state.input_effects(modal::InputEvent::Other, input, is_pr_url) == Seq::<
            modal::Effect,
        >::empty(),
{
}

/// The body shows a row for each URL, in order, whose button removes that row, or a
/// note if there is none; behind them the input, whose button adds; and behind that
/// the error message, if there is one. It shows nothing else.
pub proof fn body_shows_rows_input_and_error(state: modal::ModalState, i: int)
    ensures
        ({
            let n = state.pr_urls.len() as int;
            let rows = if n == 0 {
                1
            } else {
                n
            };
            let body = state.body();
            &&& body.len() == rows + 1 + if state.error is Some {
                1int
            } else {
                0int
            }
            &&& n == 0 ==> body[0] == modal::Item::EmptyNote
            &&& 0 <= i < n ==> body[i] == (modal::Item::PrRow {
                url: state.pr_urls[i],
                remove: modal::AssignPrsModalAction::RemovePr(i as usize),
            })
            &&& body[rows] == (modal::Item::AddRow { add: modal::AssignPrsModalAction::AddPr })
            &&& state.error is Some ==> body[rows + 1] == modal::Item::ErrorLine(state.error->0)
        }),
{
}

/// The buttons that stay when a URL goes: one row more keeps its button, unless it
/// shows the URL.
pub proof fn one_row_more_keeps_its_button<H>(
    urls: Seq<Seq<char>>,
    buttons: Seq<H>,
    more: Seq<char>,
    button: H,
    url: Seq<char>,
)
    ensures
        modal::buttons_without(seq![], Seq::<H>::empty(), url) == Seq::<H>::empty(),
        more != url ==> modal::buttons_without(urls.push(more), buttons.push(button), url)
            == modal::buttons_without(urls, buttons, url).push(button),
        more == url ==> modal::buttons_without(urls.push(more), buttons.push(button), url)
            == modal::buttons_without(urls, buttons, url),
{
    assert(urls.push(more).drop_last() =~= urls);
    assert(buttons.push(button).drop_last() =~= buttons);
}

/// An attempt to add leaves the buttons that there are to their rows; a new row gets
/// a fresh one.
pub proof fn buttons_stay_when_adding<H: Default>(
    before: modal::AssignPrsModal<H>,
    after: modal::AssignPrsModal<H>,
)
    requires
        before.wf(),
        after.wf(),
        modal::AssignPrsModal::buttons_follow_add(before, after),
    ensures
        before.buttons().len() == before@.pr_urls.len(),
        after.buttons().len() == after@.pr_urls.len(),
        after.buttons().len() == before.buttons().len() ==> after.buttons() == before.buttons(),
        after.buttons().len() != before.buttons().len() ==> after.buttons().len()
            == before.buttons().len() + 1 && after.buttons().drop_last() == before.buttons()
            && call_ensures(H::default, (), after.buttons().last()),
{
    if after.buttons().len() != before.buttons().len() {
        assert(after.buttons().drop_last() =~= before.buttons());
    }
}

/// A removal takes the buttons of the rows that go, and an action those of what it
/// does.
pub proof fn buttons_go_with_their_rows<H: Default>(
    before: modal::AssignPrsModal<H>,
    after: modal::AssignPrsModal<H>,
    action: modal::AssignPrsModalAction,
    index: int,
)
    ensures
        modal::AssignPrsModal::buttons_follow_remove(before, after, index) <==> after.buttons()
            == if index < before@.pr_urls.len() {
            modal::buttons_without(before@.pr_urls, before.buttons(), before@.pr_urls[index])
        } else {
            before.buttons()
        },
        action is AddPr ==> (modal::AssignPrsModal::buttons_follow_action(before, after, action)
            <==> modal::AssignPrsModal::buttons_follow_add(before, after)),
        action matches modal::AssignPrsModalAction::RemovePr(i) ==> (
        modal::AssignPrsModal::buttons_follow_action(before, after, action)
            <==> modal::AssignPrsModal::buttons_follow_remove(before, after, i as int)),
        action is Close ==> (modal::AssignPrsModal::buttons_follow_action(before, after, action)
            <==> after.buttons() == before.buttons()),
{
}

/// The effects and the body items that the library returns are those that they stand
/// for, one for one and in order.
pub proof fn effects_and_items_are_what_they_stand_for(
    effects: Seq<modal::ModalEffect>,
    items: Seq<modal::BodyItem>,
    i: int,
    key: String,
    text: String,
    event: modal::AssignPrsModalEvent,
    action: modal::AssignPrsModalAction,
)
    ensures
        modal::effects_of(effects).len() == effects.len(),
        0 <= i < effects.len() ==> modal::effects_of(effects)[i] == effects[i]@,
        (modal::ModalEffect::AddRecordedPr { uuid_hex: key, url: text })@ == (
        modal::Effect::AddRecordedPr { uuid_hex: key@, url: text@ }),
        (modal::ModalEffect::RemoveRecordedPr { uuid_hex: key, url: text })@ == (
        modal::Effect::RemoveRecordedPr { uuid_hex: key@, url: text@ }),
        modal::ModalEffect::SyncModel@ == modal::Effect::SyncModel,
        modal::ModalEffect::ClearInput@ == modal::Effect::ClearInput,
        modal::ModalEffect::FocusInput@ == modal::Effect::FocusInput,
        modal::ModalEffect::Notify@ == modal::Effect::Notify,
        modal::ModalEffect::Emit(event)@ == modal::Effect::Emit(event),
        modal::items_of(items).len() == items.len(),
        0 <= i < items.len() ==> modal::items_of(items)[i] == items[i]@,
        modal::BodyItem::EmptyNote@ == modal::Item::EmptyNote,
        (modal::BodyItem::PrRow { url: text, remove: action })@ == (modal::Item::PrRow {
            url: text@,
            remove: action,
        }),
        (modal::BodyItem::AddRow { add: action })@ == (modal::Item::AddRow { add: action }),
        modal::BodyItem::ErrorLine(text)@ == modal::Item::ErrorLine(text@),
{
}

/// After the model is updated, it gives the session the listed URLs, and any other
/// session what it had.
pub proof fn updated_model_gives_the_list(
    state: modal::ModalState,
    model: Map<Seq<char>, Seq<Seq<char>>>,
    other: Seq<char>,
)
    ensures
        ({
            let after = attribution::with_urls(model, state.session_uuid_hex, state.pr_urls);
            &&& state.pr_urls.len() > 0 ==> after.contains_key(state.session_uuid_hex)
                && after[state.session_uuid_hex] == state.pr_urls
            &&& state.pr_urls.len() == 0 ==> !after.contains_key(state.session_uuid_hex)
            &&& other != state.session_uuid_hex ==> after.contains_key(other)
                == model.contains_key(other) && (model.contains_key(other) ==> after[other]
                == model[other])
        }),
{
}

/// What the labels, the notes and the title say.
pub proof fn labels_say_what_they_should()
    ensures
        modal::MODAL_TITLE@ == "Assign PRs"@,
        modal::INPUT_PLACEHOLDER@ == "Paste a GitHub PR URL"@,
        modal::EMPTY_NOTE@ == "No PRs assigned to this tab yet."@,
        modal::ADD_LABEL@ == "Add"@,
        modal::REMOVE_LABEL@ == "Remove"@,
        modal::DONE_LABEL@ == "Done"@,
        modal::INVALID_PR_URL_ERROR@
            == "Enter a valid GitHub pull request URL (…/pull/<number>)"@,
{
}

} // verus!
