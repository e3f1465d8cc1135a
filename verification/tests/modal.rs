use std::collections::BTreeMap;
use std::sync::atomic::{AtomicU32, Ordering};

use pr_attribution::modal::INVALID_PR_URL_ERROR;
use pr_attribution::text::trimmed;
use pr_attribution::{
    add_recorded_pr, remove_recorded_pr, AssignPrsModal, AssignPrsModalAction,
    AssignPrsModalEvent, BodyItem, ClaudePrAttributionModel, DirectoryEntry, InputEvent,
    ModalEffect, RecordChange,
};

const A: &str = "https://github.com/acme/widgets/pull/1";
const B: &str = "https://github.com/acme/gears/pull/22";
const C: &str = "https://github.com/acme/cogs/pull/333";

fn urls(list: &[&str]) -> Vec<String> {
    list.iter().map(|url| url.to_string()).collect()
}

fn opened(list: &[&str]) -> AssignPrsModal<Button> {
    let mut modal = AssignPrsModal::new();
    modal.on_open("ab01".to_string(), urls(list));
    modal
}

static NEXT_BUTTON: AtomicU32 = AtomicU32::new(0);

/// A button unlike any other.
#[derive(Clone, Debug, PartialEq)]
struct Button {
    id: u32,
}

impl Default for Button {
    fn default() -> Button {
        Button { id: NEXT_BUTTON.fetch_add(1, Ordering::Relaxed) }
    }
}

fn buttons(modal: &AssignPrsModal<Button>) -> Vec<Button> {
    let mut found = Vec::new();
    while let Some(button) = modal.remove_button_state(found.len()) {
        found.push(button.clone());
    }
    found
}

fn added(url: &str) -> ModalEffect {
    ModalEffect::AddRecordedPr {
        uuid_hex: "ab01".to_string(),
        url: url.to_string(),
    }
}

fn removed(url: &str) -> ModalEffect {
    ModalEffect::RemoveRecordedPr {
        uuid_hex: "ab01".to_string(),
        url: url.to_string(),
    }
}

#[test]
fn a_new_modal_is_idle() {
    let modal: AssignPrsModal<Button> = AssignPrsModal::new();
    assert!(modal.pr_urls().is_empty());
    assert_eq!(modal.session_uuid_hex(), "");
    assert_eq!(modal.error(), None);
    assert_eq!(modal.remove_button_state(0), None);
}

#[test]
fn opening_shows_the_session() {
    let mut modal = opened(&[C]);
    modal.try_add_pr("nonsense", false);
    let effects = modal.on_open("ab02".to_string(), urls(&[A, B]));
    assert_eq!(
        effects,
        vec![ModalEffect::ClearInput, ModalEffect::FocusInput, ModalEffect::Notify]
    );
    assert_eq!(modal.pr_urls(), &urls(&[A, B]));
    assert_eq!(modal.session_uuid_hex(), "ab02");
    assert_eq!(modal.error(), None);
    assert_eq!(buttons(&modal).len(), 2);
}

#[test]
fn closing_brings_back_the_idle_state() {
    let mut modal = opened(&[A]);
    modal.try_add_pr("nonsense", false);
    assert_eq!(modal.on_close(), vec![ModalEffect::Notify]);
    assert!(modal.pr_urls().is_empty());
    assert_eq!(modal.session_uuid_hex(), "");
    assert_eq!(modal.error(), None);
    assert_eq!(modal.remove_button_state(0), None);
}

#[test]
fn a_pr_url_is_added_trimmed() {
    let mut modal = opened(&[A]);
    let before = buttons(&modal);
    let effects = modal.try_add_pr(&format!("  {B}\t\n"), true);
    assert_eq!(
        effects,
        vec![added(B), ModalEffect::SyncModel, ModalEffect::ClearInput, ModalEffect::Notify]
    );
    assert_eq!(modal.pr_urls(), &urls(&[A, B]));
    assert_eq!(buttons(&modal).len(), 2);
    assert_eq!(buttons(&modal)[0], before[0]);
    assert_ne!(buttons(&modal)[1], before[0]);
}

#[test]
fn a_listed_url_is_not_added_again() {
    let mut modal = opened(&[A, B]);
    let effects = modal.try_add_pr(A, true);
    assert_eq!(effects, vec![ModalEffect::ClearInput, ModalEffect::Notify]);
    assert_eq!(modal.pr_urls(), &urls(&[A, B]));
    assert_eq!(modal.remove_button_state(2), None);
}

#[test]
fn blank_input_does_nothing() {
    let mut modal = opened(&[A]);
    modal.try_add_pr("nonsense", false);
    assert_eq!(modal.try_add_pr(" \u{3000}\t", true), vec![]);
    assert_eq!(modal.try_add_pr("", false), vec![]);
    assert_eq!(modal.error(), Some(INVALID_PR_URL_ERROR));
    assert_eq!(modal.pr_urls(), &urls(&[A]));
}

#[test]
fn other_input_is_refused_with_an_error() {
    let mut modal = opened(&[A]);
    assert_eq!(modal.try_add_pr("nonsense", false), vec![ModalEffect::Notify]);
    assert_eq!(
        modal.error(),
        Some("Enter a valid GitHub pull request URL (…/pull/<number>)")
    );
    assert_eq!(modal.pr_urls(), &urls(&[A]));
    assert_eq!(modal.session_uuid_hex(), "ab01");
}

#[test]
fn the_error_goes_on_an_edit_and_on_success() {
    let mut modal = opened(&[]);
    modal.try_add_pr("nonsense", false);
    assert_eq!(
        modal.handle_input(&InputEvent::Edited, "nonsens", false),
        vec![ModalEffect::Notify]
    );
    assert_eq!(modal.error(), None);
    modal.try_add_pr("nonsense", false);
    modal.try_add_pr(A, true);
    assert_eq!(modal.error(), None);
    modal.try_add_pr("nonsense", false);
    modal.try_add_pr(A, true);
    assert_eq!(modal.error(), None);
}

#[test]
fn a_row_is_removed_with_its_button() {
    let mut modal = opened(&[A, B, C]);
    let before = buttons(&modal);
    assert_eq!(
        modal.remove_pr(1),
        vec![removed(B), ModalEffect::SyncModel, ModalEffect::Notify]
    );
    assert_eq!(modal.pr_urls(), &urls(&[A, C]));
    assert_eq!(buttons(&modal), vec![before[0].clone(), before[2].clone()]);
}

#[test]
fn every_row_that_shows_the_url_is_removed() {
    for index in [0, 2, 3] {
        let mut modal = opened(&[A, B, A, A, C]);
        let before = buttons(&modal);
        assert_eq!(
            modal.remove_pr(index),
            vec![removed(A), ModalEffect::SyncModel, ModalEffect::Notify]
        );
        assert_eq!(modal.pr_urls(), &urls(&[B, C]));
        assert_eq!(buttons(&modal), vec![before[1].clone(), before[4].clone()]);
    }
}

#[test]
fn there_is_no_row_behind_the_last() {
    let mut modal = opened(&[A]);
    assert_eq!(modal.remove_pr(1), vec![]);
    assert_eq!(modal.remove_pr(usize::MAX), vec![]);
    assert_eq!(modal.pr_urls(), &urls(&[A]));
}

#[test]
fn actions_do_what_they_say() {
    let mut modal = opened(&[A]);
    assert_eq!(
        modal.handle_action(&AssignPrsModalAction::AddPr, B, true),
        vec![added(B), ModalEffect::SyncModel, ModalEffect::ClearInput, ModalEffect::Notify]
    );
    assert_eq!(
        modal.handle_action(&AssignPrsModalAction::RemovePr(0), "", false),
        vec![removed(A), ModalEffect::SyncModel, ModalEffect::Notify]
    );
    assert_eq!(
        modal.handle_action(&AssignPrsModalAction::Close, C, true),
        vec![ModalEffect::Emit(AssignPrsModalEvent::Close)]
    );
    assert_eq!(modal.pr_urls(), &urls(&[B]));
}

#[test]
fn input_events_do_what_they_say() {
    let mut modal = opened(&[]);
    assert_eq!(
        modal.handle_input(&InputEvent::Enter, A, true),
        vec![added(A), ModalEffect::SyncModel, ModalEffect::ClearInput, ModalEffect::Notify]
    );
    assert_eq!(
        modal.handle_input(&InputEvent::Escape, B, true),
        vec![ModalEffect::Emit(AssignPrsModalEvent::Close)]
    );
    assert_eq!(modal.handle_input(&InputEvent::Other, B, true), vec![]);
    assert_eq!(modal.pr_urls(), &urls(&[A]));
}

#[test]
fn the_body_without_rows_has_a_note() {
    let modal = opened(&[]);
    assert_eq!(
        modal.body_items(),
        vec![
            BodyItem::EmptyNote,
            BodyItem::AddRow { add: AssignPrsModalAction::AddPr },
        ]
    );
}

#[test]
fn the_body_shows_rows_input_and_error() {
    let mut modal = opened(&[A, B]);
    modal.try_add_pr("nonsense", false);
    assert_eq!(
        modal.body_items(),
        vec![
            BodyItem::PrRow {
                url: A.to_string(),
                remove: AssignPrsModalAction::RemovePr(0),
            },
            BodyItem::PrRow {
                url: B.to_string(),
                remove: AssignPrsModalAction::RemovePr(1),
            },
            BodyItem::AddRow { add: AssignPrsModalAction::AddPr },
            BodyItem::ErrorLine(INVALID_PR_URL_ERROR.to_string()),
        ]
    );
}

#[test]
fn a_row_removes_what_it_shows() {
    for i in 0..3 {
        let mut modal = opened(&[A, B, C]);
        let (url, remove) = match &modal.body_items()[i] {
            BodyItem::PrRow { url, remove } => (url.clone(), *remove),
            other => panic!("{other:?}"),
        };
        let effects = modal.handle_action(&remove, "", false);
        assert_eq!(effects[0], removed(&url));
        assert_eq!(modal.pr_urls().len(), 2);
        assert!(!modal.pr_urls().contains(&url));
    }
}

#[test]
fn the_model_gets_the_listed_urls() {
    let mut model = ClaudePrAttributionModel::new();
    model.set_prs_for_hex("cd", urls(&[C]));
    let mut modal = opened(&[A]);
    modal.sync_model(&mut model);
    assert_eq!(model.prs_for_hex("ab01"), urls(&[A]));
    modal.remove_pr(0);
    modal.sync_model(&mut model);
    assert!(model.prs_for_hex("ab01").is_empty());
    assert_eq!(model.prs_for_hex("cd"), urls(&[C]));
}

/// A directory in memory, and the shared model.
struct World {
    files: BTreeMap<String, String>,
    model: ClaudePrAttributionModel,
}

impl World {
    fn new(files: &[(&str, &str)]) -> World {
        let mut world = World {
            files: files.iter().map(|(k, v)| (k.to_string(), v.to_string())).collect(),
            model: ClaudePrAttributionModel::new(),
        };
        world.model = world.reloaded();
        world
    }

    fn reloaded(&self) -> ClaudePrAttributionModel {
        let entries: Vec<DirectoryEntry> = self
            .files
            .iter()
            .map(|(name, contents)| DirectoryEntry {
                is_file: true,
                name: Some(name.clone()),
                contents: Some(contents.clone()),
            })
            .collect();
        let mut model = ClaudePrAttributionModel::new();
        model.reload(Some(&entries));
        model
    }

    fn change(&mut self, key: String, change: RecordChange) {
        match change {
            RecordChange::Unchanged => {}
            RecordChange::Append(text) => self.files.entry(key).or_default().push_str(&text),
            RecordChange::Replace(text) => {
                self.files.insert(key, text);
            }
            RecordChange::Delete => {
                self.files.remove(&key);
            }
        }
    }

    fn run(&mut self, modal: &AssignPrsModal<Button>, effects: Vec<ModalEffect>) {
        for effect in effects {
            match effect {
                ModalEffect::AddRecordedPr { uuid_hex, url } => {
                    let change =
                        add_recorded_pr(self.files.get(&uuid_hex).map(|s| s.as_str()), &url);
                    self.change(uuid_hex, change);
                }
                ModalEffect::RemoveRecordedPr { uuid_hex, url } => {
                    let change =
                        remove_recorded_pr(self.files.get(&uuid_hex).map(|s| s.as_str()), &url);
                    self.change(uuid_hex, change);
                }
                ModalEffect::SyncModel => modal.sync_model(&mut self.model),
                _ => {}
            }
        }
    }
}

#[test]
fn modal_model_and_files_stay_in_step() {
    let mut world = World::new(&[("ab01", "u\tTitle\r\nv\n"), ("cd", "w\n")]);
    let mut modal = AssignPrsModal::new();
    let effects = modal.on_open("ab01".to_string(), world.model.prs_for_hex("ab01"));
    world.run(&modal, effects);
    assert_eq!(modal.pr_urls(), &urls(&["u", "v"]));
    let steps = [
        (AssignPrsModalAction::AddPr, " x ", true),
        (AssignPrsModalAction::AddPr, "x", true),
        (AssignPrsModalAction::AddPr, "bad", false),
        (AssignPrsModalAction::RemovePr(0), "", false),
        (AssignPrsModalAction::AddPr, "u", true),
        (AssignPrsModalAction::RemovePr(1), "", false),
        (AssignPrsModalAction::Close, "", false),
        (AssignPrsModalAction::RemovePr(0), "", false),
        (AssignPrsModalAction::RemovePr(0), "", false),
        (AssignPrsModalAction::AddPr, "y", true),
    ];
    for (action, text, is_pr_url) in steps {
        let effects = modal.handle_action(&action, text, is_pr_url);
        world.run(&modal, effects);
        let reloaded = world.reloaded();
        assert_eq!(&world.model.prs_for_hex("ab01"), modal.pr_urls());
        assert_eq!(&reloaded.prs_for_hex("ab01"), modal.pr_urls());
        assert_eq!(reloaded.prs_for_hex("cd"), urls(&["w"]));
    }
    assert_eq!(modal.pr_urls(), &urls(&["y"]));
    assert_eq!(world.files["ab01"], "y\n");
    assert_eq!(world.files["cd"], "w\n");
}

#[test]
fn the_last_removal_deletes_the_file() {
    let mut world = World::new(&[("ab01", "u\n")]);
    let mut modal = opened(&["u"]);
    let effects = modal.remove_pr(0);
    world.run(&modal, effects);
    assert!(!world.files.contains_key("ab01"));
    assert!(world.model.prs_for_hex("ab01").is_empty());
}

#[test]
fn a_url_recorded_twice_leaves_list_model_and_file_at_once() {
    let mut world = World::new(&[("ab01", "u\nv\nu\n")]);
    let mut modal = opened(&["u", "v", "u"]);
    let effects = modal.remove_pr(0);
    world.run(&modal, effects);
    assert_eq!(modal.pr_urls(), &urls(&["v"]));
    assert_eq!(world.model.prs_for_hex("ab01"), urls(&["v"]));
    assert_eq!(world.reloaded().prs_for_hex("ab01"), urls(&["v"]));

    let mut world = World::new(&[("ab01", "u\nu\n")]);
    let mut modal = opened(&["u", "u"]);
    let effects = modal.remove_pr(0);
    world.run(&modal, effects);
    assert!(modal.pr_urls().is_empty());
    assert!(world.model.prs_for_hex("ab01").is_empty());
    assert!(!world.files.contains_key("ab01"));
}

#[test]
fn a_file_without_a_last_line_feed_stays_in_step() {
    let mut world = World::new(&[("ab01", "u")]);
    let mut modal = opened(&["u"]);
    let effects = modal.try_add_pr("v", true);
    world.run(&modal, effects);
    assert_eq!(world.files["ab01"], "u\nv\n");
    assert_eq!(modal.pr_urls(), &urls(&["u", "v"]));
    assert_eq!(world.model.prs_for_hex("ab01"), urls(&["u", "v"]));
    assert_eq!(world.reloaded().prs_for_hex("ab01"), urls(&["u", "v"]));
}

#[test]
fn trimming_decides_what_is_asked_about() {
    assert_eq!(trimmed(&format!("\u{a0}{A}\r\n")), A);
    assert_eq!(trimmed(" \t"), "");
}

#[test]
fn a_url_shown_once_leaves_doubled_rows_alone() {
    let mut modal = opened(&[A, B, A]);
    let before = buttons(&modal);
    modal.remove_pr(1);
    assert_eq!(modal.pr_urls(), &urls(&[A, A]));
    assert_eq!(buttons(&modal), vec![before[0].clone(), before[2].clone()]);
}
