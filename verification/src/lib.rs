//! Attribution of GitHub pull requests to terminal sessions.
//!
//! Every session has a record file, named by its uuid in hexadecimal, with the URL
//! of one pull request to a line. [`attribution`] holds what the files of a
//! directory record, [`record`] reads them and decides how they change, and
//! [`modal`] is the dialog in which the URLs of a session are added and removed.
//!
//! [`record_laws`] and [`laws`] state what holds of these together: above all that
//! the dialog, the model and the files stay in step. [`text_laws`], [`line_laws`],
//! [`attribution_laws`] and [`modal_laws`] state what each operation does to what it is
//! given, and [`call_laws`] what the results of calls satisfy.
pub mod attribution;
pub mod attribution_laws;
pub mod call_laws;
pub mod laws;
pub mod line_laws;
pub mod modal;
pub mod modal_laws;
pub mod record;
pub mod record_laws;
pub mod session_key;
pub mod text;
pub mod text_laws;

pub use attribution::{ClaudePrAttributionModel, DirectoryEntry};
pub use modal::{
    AssignPrsModal, AssignPrsModalAction, AssignPrsModalEvent, BodyItem, InputEvent, ModalEffect,
};
pub use record::{add_recorded_pr, parse_record, remove_recorded_pr, RecordChange};
