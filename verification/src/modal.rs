//! The "Assign PRs" modal: adds and removes the pull requests attributed to one
//! session.
//!
//! The modal decides; the application acts. Each operation updates the modal and
//! returns, in order, the effects that the application has to carry out.
use vstd::prelude::*;

use crate::attribution;
use crate::attribution::ClaudePrAttributionModel;
use crate::record;
use crate::text;
use crate::text::trimmed;

verus! {

/// The modal's title.
pub const MODAL_TITLE: &'static str = "Assign PRs";

/// Shown in the input while it is empty.
pub const INPUT_PLACEHOLDER: &'static str = "Paste a GitHub PR URL";

/// Shown in place of the rows while there are none.
pub const EMPTY_NOTE: &'static str = "No PRs assigned to this tab yet.";

/// The label of the button that adds the URL in the input.
pub const ADD_LABEL: &'static str = "Add";

/// The label of the button that removes the URL of a row.
pub const REMOVE_LABEL: &'static str = "Remove";

/// The label of the button that closes the modal.
pub const DONE_LABEL: &'static str = "Done";

/// Shown after an attempt to add what is not the URL of a pull request.
pub const INVALID_PR_URL_ERROR: &'static str =
    "Enter a valid GitHub pull request URL (…/pull/<number>)";

/// What the modal tells its owner.
#[derive(Clone, Copy, Debug, PartialEq, Eq)]
pub enum AssignPrsModalEvent {
    Close,
}

/// What the modal's buttons and key bindings ask for.
#[derive(Clone, Copy, Debug, PartialEq, Eq)]
pub enum AssignPrsModalAction {
    AddPr,
    RemovePr(usize),
    Close,
}

/// What happens in the input.
#[derive(Clone, Copy, Debug, PartialEq, Eq)]
pub enum InputEvent {
    Enter,
    Escape,
    Edited,
    Other,
}

/// What the application has to do for the modal.
#[derive(Debug, PartialEq, Eq)]
pub enum ModalEffect {
    /// Record the URL in the session's record file.
    AddRecordedPr { uuid_hex: String, url: String },
    /// Take the URL out of the session's record file.
    RemoveRecordedPr { uuid_hex: String, url: String },
    /// Call [`AssignPrsModal::sync_model`] on the shared model.
    SyncModel,
    /// Empty the input and forget its undo history.
    ClearInput,
    /// Give the input the focus.
    FocusInput,
    /// Draw the modal again.
    Notify,
    /// Tell the modal's owner.
    Emit(AssignPrsModalEvent),
}

/// An effect as a mathematical value.
#[verifier::ext_equal]
pub enum Effect {
    AddRecordedPr { uuid_hex: Seq<char>, url: Seq<char> },
    RemoveRecordedPr { uuid_hex: Seq<char>, url: Seq<char> },
    SyncModel,
    ClearInput,
    FocusInput,
    Notify,
    Emit(AssignPrsModalEvent),
}

impl View for ModalEffect {
    type V = Effect;

    open spec fn view(&self) -> Effect {
        match self {
            ModalEffect::AddRecordedPr { uuid_hex, url } => Effect::AddRecordedPr {
                uuid_hex: uuid_hex@,
                url: url@,
            },
            ModalEffect::RemoveRecordedPr { uuid_hex, url } => Effect::RemoveRecordedPr {
                uuid_hex: uuid_hex@,
                url: url@,
            },
            ModalEffect::SyncModel => Effect::SyncModel,
            ModalEffect::ClearInput => Effect::ClearInput,
            ModalEffect::FocusInput => Effect::FocusInput,
            ModalEffect::Notify => Effect::Notify,
            ModalEffect::Emit(event) => Effect::Emit(*event),
        }
    }
}

/// The mathematical values of a list of effects.
pub open spec fn effects_of(effects: Seq<ModalEffect>) -> Seq<Effect> {
    effects.map_values(|effect: ModalEffect| effect@)
}

/// One item of the modal's body.
#[derive(Debug, PartialEq, Eq)]
pub enum BodyItem {
    /// The note that there are no pull requests.
    EmptyNote,
    /// A pull request, with what its button asks for.
    PrRow { url: String, remove: AssignPrsModalAction },
    /// The input, with what its button asks for.
    AddRow { add: AssignPrsModalAction },
    /// An error message.
    ErrorLine(String),
}

/// A body item as a mathematical value.
#[verifier::ext_equal]
pub enum Item {
    EmptyNote,
    PrRow { url: Seq<char>, remove: AssignPrsModalAction },
    AddRow { add: AssignPrsModalAction },
    ErrorLine(Seq<char>),
}

impl View for BodyItem {
    type V = Item;

    open spec fn view(&self) -> Item {
        match self {
            BodyItem::EmptyNote => Item::EmptyNote,
            BodyItem::PrRow { url, remove } => Item::PrRow { url: url@, remove: *remove },
            BodyItem::AddRow { add } => Item::AddRow { add: *add },
            BodyItem::ErrorLine(error) => Item::ErrorLine(error@),
        }
    }
}

/// The mathematical values of a list of body items.
pub open spec fn items_of(items: Seq<BodyItem>) -> Seq<Item> {
    items.map_values(|item: BodyItem| item@)
}

/// What the modal shows and works on.
#[verifier::ext_equal]
pub struct ModalState {
    /// The working copy of the session's URLs.
    pub pr_urls: Seq<Seq<char>>,
    /// The session's key.
    pub session_uuid_hex: Seq<char>,
    /// The error message that is shown.
    pub error: Option<Seq<char>>,
}

impl ModalState {
    /// The state of a modal that is not open.
    pub open spec fn idle() -> ModalState {
        ModalState { pr_urls: seq![], session_uuid_hex: seq![], error: None }
    }

    /// The state right after opening.
    pub open spec fn opened(
        session_uuid_hex: Seq<char>,
        current_pr_urls: Seq<Seq<char>>,
    ) -> ModalState {
        ModalState { pr_urls: current_pr_urls, session_uuid_hex, error: None }
    }

    /// The state after an attempt to add the URL in the input. `is_pr_url` tells
    /// whether the trimmed text is the URL of a pull request.
    pub open spec fn after_add(self, text: Seq<char>, is_pr_url: bool) -> ModalState {
        let url = text::trim(text);
        if url.len() == 0 {
            self
        } else if !is_pr_url {
            ModalState { error: Some(INVALID_PR_URL_ERROR@), ..self }
        } else if self.pr_urls.contains(url) {
            ModalState { error: None, ..self }
        } else {
            ModalState { pr_urls: self.pr_urls.push(url), error: None, ..self }
        }
    }

    /// The effects of that attempt. A blank input has none. What is not the URL of
    /// a pull request stays in the input; a URL that is listed already is not
    /// recorded again.
    pub open spec fn add_effects(self, text: Seq<char>, is_pr_url: bool) -> Seq<Effect> {
        let url = text::trim(text);
        if url.len() == 0 {
            seq![]
        } else if !is_pr_url {
            seq![Effect::Notify]
        } else if self.pr_urls.contains(url) {
            seq![Effect::ClearInput, Effect::Notify]
        } else {
            seq![
                Effect::AddRecordedPr { uuid_hex: self.session_uuid_hex, url },
                Effect::SyncModel,
                Effect::ClearInput,
                Effect::Notify,
            ]
        }
    }

    /// The state after the removal of the URL in the row at `index`: every row that
    /// shows it goes, as every record of it leaves the file.
    pub open spec fn after_remove(self, index: int) -> ModalState {
        if index < self.pr_urls.len() {
            ModalState { pr_urls: record::without(self.pr_urls, self.pr_urls[index]), ..self }
        } else {
            self
        }
    }

    /// The effects of that removal; there are none without such a row.
    pub open spec fn remove_effects(self, index: int) -> Seq<Effect> {
        if index < self.pr_urls.len() {
            seq![
                Effect::RemoveRecordedPr {
                    uuid_hex: self.session_uuid_hex,
                    url: self.pr_urls[index],
                },
                Effect::SyncModel,
                Effect::Notify,
            ]
        } else {
            seq![]
        }
    }

    /// The state after an action.
    pub open spec fn after_action(
        self,
        action: AssignPrsModalAction,
        text: Seq<char>,
        is_pr_url: bool,
    ) -> ModalState {
        match action {
            AssignPrsModalAction::AddPr => self.after_add(text, is_pr_url),
            AssignPrsModalAction::RemovePr(index) => self.after_remove(index as int),
            AssignPrsModalAction::Close => self,
        }
    }

    /// The effects of an action.
    pub open spec fn action_effects(
        self,
        action: AssignPrsModalAction,
        text: Seq<char>,
        is_pr_url: bool,
    ) -> Seq<Effect> {
        match action {
            AssignPrsModalAction::AddPr => self.add_effects(text, is_pr_url),
            AssignPrsModalAction::RemovePr(index) => self.remove_effects(index as int),
            AssignPrsModalAction::Close => seq![Effect::Emit(AssignPrsModalEvent::Close)],
        }
    }

    /// The state after an event of the input.
    pub open spec fn after_input(
        self,
        event: InputEvent,
        text: Seq<char>,
        is_pr_url: bool,
    ) -> ModalState {
        match event {
            InputEvent::Enter => self.after_add(text, is_pr_url),
            InputEvent::Edited => ModalState { error: None, ..self },
            InputEvent::Escape | InputEvent::Other => self,
        }
    }

    /// The effects of an event of the input.
    pub open spec fn input_effects(
        self,
        event: InputEvent,
        text: Seq<char>,
        is_pr_url: bool,
    ) -> Seq<Effect> {
        match event {
            InputEvent::Enter => self.add_effects(text, is_pr_url),
            InputEvent::Escape => seq![Effect::Emit(AssignPrsModalEvent::Close)],
            InputEvent::Edited => seq![Effect::Notify],
            InputEvent::Other => seq![],
        }
    }

    /// The rows of the body: one for each URL, or the note that there is none.
    pub open spec fn rows(self) -> Seq<Item> {
        if self.pr_urls.len() == 0 {
            seq![Item::EmptyNote]
        } else {
            Seq::new(
                self.pr_urls.len(),
                |i: int|
                    Item::PrRow {
                        url: self.pr_urls[i],
                        remove: AssignPrsModalAction::RemovePr(i as usize),
                    },
            )
        }
    }

    /// The items of the body, from top to bottom.
    pub open spec fn body(self) -> Seq<Item> {
        let upper = self.rows().push(Item::AddRow { add: AssignPrsModalAction::AddPr });
        match self.error {
            Some(error) => upper.push(Item::ErrorLine(error)),
            None => upper,
        }
    }
}

/// What is kept for the rows that show something other than `url`, in their order.
/// `urls` are what the rows show, and `buttons` what is kept for them.
pub open spec fn buttons_without<H>(
    urls: Seq<Seq<char>>,
    buttons: Seq<H>,
    url: Seq<char>,
) -> Seq<H>
    decreases urls.len(),
{
    if urls.len() == 0 {
        seq![]
    } else {
        let front = buttons_without(urls.drop_last(), buttons.drop_last(), url);
        if urls.last() == url {
            front
        } else {
            front.push(buttons.last())
        }
    }
}

/// Every row that stays has a button.
proof fn lemma_buttons_without<H>(urls: Seq<Seq<char>>, buttons: Seq<H>, url: Seq<char>)
    ensures
        buttons_without(urls, buttons, url).len() == record::without(urls, url).len(),
    decreases urls.len(),
{
    reveal(Seq::filter);
    if urls.len() > 0 {
        lemma_buttons_without(urls.drop_last(), buttons.drop_last(), url);
    }
}

/// The modal. `H` is what the application keeps for the remove button of a row.
pub struct AssignPrsModal<H> {
    pr_urls: Vec<String>,
    session_uuid_hex: String,
    error: Option<String>,
    remove_button_states: Vec<H>,
}

impl<H> View for AssignPrsModal<H> {
    type V = ModalState;

    closed spec fn view(&self) -> ModalState {
        ModalState {
            pr_urls: text::texts(self.pr_urls@),
            session_uuid_hex: self.session_uuid_hex@,
            error: match self.error {
                Some(error) => Some(error@),
                None => None,
            },
        }
    }
}

impl<H> AssignPrsModal<H> {
    /// What is kept for the remove buttons, from the first row to the last.
    pub closed spec fn buttons(self) -> Seq<H> {
        self.remove_button_states@
    }

    /// Every row has a remove button of its own.
    pub open spec fn wf(self) -> bool {
        self.buttons().len() == self@.pr_urls.len()
    }
}

impl<H: Default> AssignPrsModal<H> {
    /// How the buttons change on an attempt to add a URL: a new row gets a fresh
    /// one, and the others keep theirs.
    pub open spec fn buttons_follow_add(before: Self, after: Self) -> bool {
        if after@.pr_urls.len() == before@.pr_urls.len() {
            after.buttons() == before.buttons()
        } else {
            &&& after.buttons() == before.buttons().push(after.buttons().last())
            &&& call_ensures(H::default, (), after.buttons().last())
        }
    }

    /// How the buttons change on the removal of the URL in the row at `index`: the
    /// buttons of the rows that show it go, and the others stay in their order.
    pub open spec fn buttons_follow_remove(before: Self, after: Self, index: int) -> bool {
        after.buttons() == if index < before@.pr_urls.len() {
            buttons_without(before@.pr_urls, before.buttons(), before@.pr_urls[index])
        } else {
            before.buttons()
        }
    }

    /// How the buttons change on an action.
    pub open spec fn buttons_follow_action(
        before: Self,
        after: Self,
        action: AssignPrsModalAction,
    ) -> bool {
        match action {
            AssignPrsModalAction::AddPr => Self::buttons_follow_add(before, after),
            AssignPrsModalAction::RemovePr(index) => Self::buttons_follow_remove(
                before,
                after,
                index as int,
            ),
            AssignPrsModalAction::Close => after.buttons() == before.buttons(),
        }
    }

    /// A modal that is not open.
    pub fn new() -> (modal: Self)
        ensures
            modal.wf(),
            modal@ == ModalState::idle(),
    {
        let modal = AssignPrsModal {
            pr_urls: Vec::new(),
            session_uuid_hex: String::new(),
            error: None,
            remove_button_states: Vec::new(),
        };
        assert(modal@.pr_urls =~= seq![]);
        modal
    }

    /// Opens the modal on a session.
    pub fn on_open(&mut self, session_uuid_hex: String, current_pr_urls: Vec<String>) -> (effects:
        Vec<ModalEffect>)
        ensures
            final(self).wf(),
            final(self)@ == ModalState::opened(
                session_uuid_hex@,
                text::texts(current_pr_urls@),
            ),
            forall|i: int|
                0 <= i < final(self).buttons().len() ==> call_ensures(
                    H::default,
                    (),
                    #[trigger] final(self).buttons()[i],
                ),
            effects_of(effects@) == seq![Effect::ClearInput, Effect::FocusInput, Effect::Notify],
    {
        let mut states: Vec<H> = Vec::new();
        for i in 0..current_pr_urls.len()
            invariant
                states@.len() == i,
                forall|j: int| 0 <= j < i ==> call_ensures(H::default, (), #[trigger] states@[j]),
        {
            states.push(H::default());
        }
        self.session_uuid_hex = session_uuid_hex;
        self.remove_button_states = states;
        self.pr_urls = current_pr_urls;
        self.error = None;
        let effects = vec![ModalEffect::ClearInput, ModalEffect::FocusInput, ModalEffect::Notify];
        assert(effects_of(effects@) =~= seq![
            Effect::ClearInput,
            Effect::FocusInput,
            Effect::Notify,
        ]);
        effects
    }

    /// Closes the modal.
    pub fn on_close(&mut self) -> (effects: Vec<ModalEffect>)
        ensures
            final(self).wf(),
            final(self)@ == ModalState::idle(),
            effects_of(effects@) == seq![Effect::Notify],
    {
        self.pr_urls.clear();
        self.remove_button_states.clear();
        self.session_uuid_hex = String::new();
        self.error = None;
        assert(self@.pr_urls =~= seq![]);
        let effects = vec![ModalEffect::Notify];
        assert(effects_of(effects@) =~= seq![Effect::Notify]);
        effects
    }

    /// Tries to add the URL in the input. `is_pr_url` tells whether [`trimmed`] of
    /// the input's text is the URL of a pull request; it does not matter while the
    /// input is blank.
    pub fn try_add_pr(&mut self, text: &str, is_pr_url: bool) -> (effects: Vec<ModalEffect>)
        requires
            old(self).wf(),
        ensures
            final(self).wf(),
            final(self)@ == old(self)@.after_add(text@, is_pr_url),
            Self::buttons_follow_add(*old(self), *final(self)),
            effects_of(effects@) == old(self)@.add_effects(text@, is_pr_url),
    {
        let url = trimmed(text);
        let mut effects: Vec<ModalEffect> = Vec::new();
        if url.as_str().is_empty() {
            assert(effects_of(effects@) =~= seq![]);
            return effects;
        }
        if !is_pr_url {
            self.error = Some(INVALID_PR_URL_ERROR.to_owned());
            effects.push(ModalEffect::Notify);
            assert(effects_of(effects@) =~= seq![Effect::Notify]);
            return effects;
        }
        self.error = None;
        if !self.lists(&url) {
            effects.push(
                ModalEffect::AddRecordedPr {
                    uuid_hex: self.session_uuid_hex.clone(),
                    url: url.clone(),
                },
            );
            self.pr_urls.push(url);
            self.remove_button_states.push(H::default());
            effects.push(ModalEffect::SyncModel);
            assert(self@.pr_urls =~= old(self)@.pr_urls.push(url@));
        }
        effects.push(ModalEffect::ClearInput);
        effects.push(ModalEffect::Notify);
        assert(effects_of(effects@) =~= old(self)@.add_effects(text@, is_pr_url));
        effects
    }

    /// Whether the URL is listed.
    fn lists(&self, url: &String) -> (listed: bool)
        ensures
            listed == self@.pr_urls.contains(url@),
    {
        for i in 0..self.pr_urls.len()
            invariant
                forall|j: int| 0 <= j < i ==> #[trigger] self@.pr_urls[j] != url@,
        {
            if self.pr_urls[i] == *url {
                assert(self@.pr_urls[i as int] == url@);
                return true;
            }
        }
        false
    }

    /// Removes the URL in the row at `index`, if there is such a row, and with it every
    /// row that shows it.
    pub fn remove_pr(&mut self, index: usize) -> (effects: Vec<ModalEffect>)
        requires
            old(self).wf(),
        ensures
            final(self).wf(),
            final(self)@ == old(self)@.after_remove(index as int),
            Self::buttons_follow_remove(*old(self), *final(self), index as int),
            effects_of(effects@) == old(self)@.remove_effects(index as int),
    {
        let mut effects: Vec<ModalEffect> = Vec::new();
        if index >= self.pr_urls.len() {
            assert(effects_of(effects@) =~= seq![]);
            return effects;
        }
        let url = self.pr_urls[index].clone();
        self.remove_rows(&url);
        effects.push(
            ModalEffect::RemoveRecordedPr { uuid_hex: self.session_uuid_hex.clone(), url },
        );
        effects.push(ModalEffect::SyncModel);
        effects.push(ModalEffect::Notify);
        assert(effects_of(effects@) =~= old(self)@.remove_effects(index as int));
        effects
    }

    /// Takes out every row that shows `url`, with its button.
    fn remove_rows(&mut self, url: &String)
        requires
            old(self).wf(),
        ensures
            final(self).wf(),
            final(self)@ == (ModalState {
                pr_urls: record::without(old(self)@.pr_urls, url@),
                ..old(self)@
            }),
            final(self).buttons() == buttons_without(
                old(self)@.pr_urls,
                old(self).buttons(),
                url@,
            ),
    {
        let ghost urls = self@.pr_urls;
        let ghost buttons = self.buttons();
        let mut rest: usize = self.pr_urls.len();
        proof {
            assert(urls.take(rest as int) =~= urls);
            assert(buttons.take(rest as int) =~= buttons);
            assert(urls.skip(rest as int) =~= seq![]);
            assert(buttons.skip(rest as int) =~= seq![]);
        }
        while rest > 0
            invariant
                urls == old(self)@.pr_urls,
                buttons == old(self).buttons(),
                urls.len() == buttons.len(),
                rest <= urls.len(),
                rest <= self@.pr_urls.len(),
                self.wf(),
                self@.session_uuid_hex == old(self)@.session_uuid_hex,
                self@.error == old(self)@.error,
                self@.pr_urls.take(rest as int) == urls.take(rest as int),
                self.buttons().take(rest as int) == buttons.take(rest as int),
                record::without(urls, url@) == record::without(urls.take(rest as int), url@)
                    + self@.pr_urls.skip(rest as int),
                buttons_without(urls, buttons, url@) == buttons_without(
                    urls.take(rest as int),
                    buttons.take(rest as int),
                    url@,
                ) + self.buttons().skip(rest as int),
            decreases rest,
        {
            let ghost before_urls = self@.pr_urls;
            let ghost before_buttons = self.buttons();
            let ghost kept_urls = record::without(urls.take(rest - 1), url@);
            let ghost kept_buttons = buttons_without(
                urls.take(rest - 1),
                buttons.take(rest - 1),
                url@,
            );
            proof {
                reveal(Seq::filter);
                assert(urls.take(rest as int).drop_last() =~= urls.take(rest - 1));
                assert(buttons.take(rest as int).drop_last() =~= buttons.take(rest - 1));
                assert(before_urls.take(rest as int)[rest - 1] == urls.take(rest as int)[rest
                    - 1]);
                assert(before_buttons.take(rest as int)[rest - 1] == buttons.take(
                    rest as int,
                )[rest - 1]);
                assert(before_urls.take(rest - 1) =~= before_urls.take(rest as int).take(rest - 1));
                assert(before_buttons.take(rest - 1) =~= before_buttons.take(rest as int).take(
                    rest - 1,
                ));
                assert(urls.take(rest - 1) =~= urls.take(rest as int).take(rest - 1));
                assert(buttons.take(rest - 1) =~= buttons.take(rest as int).take(rest - 1));
            }
            rest -= 1;
            if self.pr_urls[rest] == *url {
                self.pr_urls.remove(rest);
                self.remove_button_states.remove(rest);
                proof {
                    assert(self@.pr_urls =~= before_urls.remove(rest as int));
                    assert(self@.pr_urls.take(rest as int) =~= before_urls.take(rest as int));
                    assert(self.buttons().take(rest as int) =~= before_buttons.take(rest as int));
                    assert(self@.pr_urls.skip(rest as int) =~= before_urls.skip(rest + 1));
                    assert(self.buttons().skip(rest as int) =~= before_buttons.skip(rest + 1));
                }
            } else {
                proof {
                    assert(kept_urls.push(before_urls[rest as int]) + before_urls.skip(rest + 1)
                        =~= kept_urls + before_urls.skip(rest as int));
                    assert(kept_buttons.push(before_buttons[rest as int]) + before_buttons.skip(
                        rest + 1,
                    ) =~= kept_buttons + before_buttons.skip(rest as int));
                }
            }
        }
        proof {
            reveal(Seq::filter);
            assert(record::without(urls.take(0), url@) + self@.pr_urls.skip(0) =~= self@.pr_urls);
            assert(buttons_without(urls.take(0), buttons.take(0), url@) + self.buttons().skip(0)
                =~= self.buttons());
            lemma_buttons_without(urls, buttons, url@);
        }
    }

    /// Puts the listed URLs straight into the shared model, so that the session's
    /// pull requests are up to date there before the record file is read again.
    pub fn sync_model(&self, model: &mut ClaudePrAttributionModel)
        ensures
            old(model).wf() ==> final(model).wf(),
            final(model)@ == attribution::with_urls(
                old(model)@,
                self@.session_uuid_hex,
                self@.pr_urls,
            ),
    {
        let urls = self.pr_urls.clone();
        assert(urls@ =~= self.pr_urls@);
        model.set_prs_for_hex(self.session_uuid_hex.as_str(), urls);
    }

    /// Carries out an action. `text` and `is_pr_url` are as for
    /// [`Self::try_add_pr`].
    pub fn handle_action(
        &mut self,
        action: &AssignPrsModalAction,
        text: &str,
        is_pr_url: bool,
    ) -> (effects: Vec<ModalEffect>)
        requires
            old(self).wf(),
        ensures
            final(self).wf(),
            final(self)@ == old(self)@.after_action(*action, text@, is_pr_url),
            Self::buttons_follow_action(*old(self), *final(self), *action),
            effects_of(effects@) == old(self)@.action_effects(*action, text@, is_pr_url),
    {
        match action {
            AssignPrsModalAction::AddPr => self.try_add_pr(text, is_pr_url),
            AssignPrsModalAction::RemovePr(index) => self.remove_pr(*index),
            AssignPrsModalAction::Close => self.close_effects(),
        }
    }

    /// Reacts to an event of the input. `text` and `is_pr_url` are as for
    /// [`Self::try_add_pr`].
    pub fn handle_input(&mut self, event: &InputEvent, text: &str, is_pr_url: bool) -> (effects:
        Vec<ModalEffect>)
        requires
            old(self).wf(),
        ensures
            final(self).wf(),
            final(self)@ == old(self)@.after_input(*event, text@, is_pr_url),
            Self::buttons_follow_add(*old(self), *final(self)),
            effects_of(effects@) == old(self)@.input_effects(*event, text@, is_pr_url),
    {
        match event {
            InputEvent::Enter => self.try_add_pr(text, is_pr_url),
            InputEvent::Escape => self.close_effects(),
            InputEvent::Edited => {
                self.error = None;
                let effects = vec![ModalEffect::Notify];
                assert(effects_of(effects@) =~= seq![Effect::Notify]);
                effects
            },
            InputEvent::Other => {
                let effects: Vec<ModalEffect> = Vec::new();
                assert(effects_of(effects@) =~= seq![]);
                effects
            },
        }
    }

    fn close_effects(&self) -> (effects: Vec<ModalEffect>)
        ensures
            effects_of(effects@) == seq![Effect::Emit(AssignPrsModalEvent::Close)],
    {
        let effects = vec![ModalEffect::Emit(AssignPrsModalEvent::Close)];
        assert(effects_of(effects@) =~= seq![Effect::Emit(AssignPrsModalEvent::Close)]);
        effects
    }

    /// The items of the modal's body, from top to bottom.
    pub fn body_items(&self) -> (items: Vec<BodyItem>)
        ensures
            items_of(items@) == self@.body(),
    {
        let mut items: Vec<BodyItem> = Vec::new();
        if self.pr_urls.len() == 0 {
            items.push(BodyItem::EmptyNote);
        } else {
            for i in 0..self.pr_urls.len()
                invariant
                    self.pr_urls@.len() > 0,
                    items_of(items@) == self@.rows().take(i as int),
            {
                let ghost before = items@;
                items.push(
                    BodyItem::PrRow {
                        url: self.pr_urls[i].clone(),
                        remove: AssignPrsModalAction::RemovePr(i),
                    },
                );
                assert(items_of(items@) =~= items_of(before).push(self@.rows()[i as int]));
                assert(self@.rows().take(i + 1) =~= self@.rows().take(i as int).push(
                    self@.rows()[i as int],
                ));
            }
        }
        assert(items_of(items@) =~= self@.rows());
        items.push(BodyItem::AddRow { add: AssignPrsModalAction::AddPr });
        if let Some(error) = &self.error {
            items.push(BodyItem::ErrorLine(error.clone()));
        }
        assert(items_of(items@) =~= self@.body());
        items
    }

    /// What is kept for the remove button of the row at `index`.
    pub fn remove_button_state(&self, index: usize) -> (state: Option<&H>)
        ensures
            state == if index < self.buttons().len() {
                Some(&self.buttons()[index as int])
            } else {
                None
            },
    {
        if index < self.remove_button_states.len() {
            Some(&self.remove_button_states[index])
        } else {
            None
        }
    }

    /// The listed URLs.
    pub fn pr_urls(&self) -> (urls: &Vec<String>)
        ensures
            text::texts(urls@) == self@.pr_urls,
    {
        &self.pr_urls
    }

    /// The key of the session that the modal is open on; empty while it is not open.
    pub fn session_uuid_hex(&self) -> (key: &str)
        ensures
            key@ == self@.session_uuid_hex,
    {
        self.session_uuid_hex.as_str()
    }

    /// The error message that is shown.
    pub fn error(&self) -> (error: Option<&str>)
        ensures
            text::text_of(error) == self@.error,
    {
        match &self.error {
            Some(error) => Some(error.as_str()),
            None => None,
        }
    }
}

} // verus!
