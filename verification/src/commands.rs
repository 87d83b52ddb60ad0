//! The decisions behind the commands: create, remove and toggle.
//!
//! A command begins with what is known of the store and of the paths. It ends at
//! once with a report, or it asks the driver for one file system operation and
//! ends when the driver has passed the outcome to `complete`.

use crate::database::{
    first_at_target, lemma_put_then_get, lookup, readable, record_file, stored, FileView,
    LinkStorage, StoreError, StoreFailure,
};
use crate::key::storage_key;
use crate::link::{
    creating_action, validate, CreationFailure, IoFailure, LinkAction, LinkRecord, LinkType,
    PathProbe, QuickLink, QuickLinkCreationError,
};
use vstd::prelude::*;

verus! {

/// The command that an operation is performed for.
#[derive(Clone, Copy, Debug, PartialEq, Eq, Structural)]
pub enum Purpose {
    Create,
    Remove,
    Toggle,
}

/// A record as it now stands in the store, with the name of the file that the
/// driver writes it to.
#[derive(Clone, Debug, PartialEq, Eq)]
pub struct Saved {
    pub link: QuickLink,
    pub file_name: String,
}

/// The view of a `Saved`.
pub struct SavedView {
    pub link: LinkRecord,
    pub file_name: Seq<char>,
}

impl View for Saved {
    type V = SavedView;

    open spec fn view(&self) -> SavedView {
        SavedView { link: self.link@, file_name: self.file_name@ }
    }
}

/// A transition that waits for its file system operation: the driver performs
/// `action` on the source and target of `link`.
#[derive(Clone, Debug, PartialEq, Eq)]
pub struct Pending {
    pub link: QuickLink,
    pub action: LinkAction,
    pub purpose: Purpose,
}

/// The view of a `Pending`.
pub struct PendingView {
    pub link: LinkRecord,
    pub action: LinkAction,
    pub purpose: Purpose,
}

impl View for Pending {
    type V = PendingView;

    open spec fn view(&self) -> PendingView {
        PendingView { link: self.link@, action: self.action, purpose: self.purpose }
    }
}

/// How a command ended.
#[derive(Clone, Debug, PartialEq, Eq)]
pub enum Report {
    /// Create: the store already holds a record for this source and target.
    /// Nothing was changed.
    AlreadyTracked { source: String, target: String },
    /// Create: the request did not pass validation.
    Refused(QuickLinkCreationError),
    /// Create: the record file for this source and target cannot be read.
    Unreadable(StoreError),
    /// Remove, toggle: the store holds no record with this target.
    NotTracked { target: String },
    /// Remove: the link is tracked, and not present in the file system.
    NotPresent(QuickLink),
    /// Create: the link is present and its record is in the store.
    Created(Saved),
    /// Remove: the link is gone from the file system; its record stays in the store.
    Removed(Saved),
    /// Toggle: the link is in its other state.
    Toggled(Saved),
    /// The file system operation failed. Nothing was changed in the store.
    Failed(IoFailure),
}

/// The view of a `Report`.
pub enum ReportView {
    AlreadyTracked { source: Seq<char>, target: Seq<char> },
    Refused(CreationFailure),
    Unreadable(StoreFailure),
    NotTracked { target: Seq<char> },
    NotPresent(LinkRecord),
    Created(SavedView),
    Removed(SavedView),
    Toggled(SavedView),
    Failed(Seq<char>),
}

impl View for Report {
    type V = ReportView;

    open spec fn view(&self) -> ReportView {
        match self {
            Report::AlreadyTracked { source, target } => ReportView::AlreadyTracked {
                source: source@,
                target: target@,
            },
            Report::Refused(error) => ReportView::Refused(error@),
            Report::Unreadable(error) => ReportView::Unreadable(error@),
            Report::NotTracked { target } => ReportView::NotTracked { target: target@ },
            Report::NotPresent(link) => ReportView::NotPresent(link@),
            Report::Created(saved) => ReportView::Created(saved@),
            Report::Removed(saved) => ReportView::Removed(saved@),
            Report::Toggled(saved) => ReportView::Toggled(saved@),
            Report::Failed(failure) => ReportView::Failed(failure@),
        }
    }
}

/// What a command does next.
#[derive(Clone, Debug, PartialEq, Eq)]
pub enum Step {
    /// The command is over.
    Done(Report),
    /// The driver performs the operation and passes its outcome to `complete`.
    Perform(Pending),
}

/// The view of a `Step`.
pub enum StepView {
    Done(ReportView),
    Perform(PendingView),
}

impl View for Step {
    type V = StepView;

    open spec fn view(&self) -> StepView {
        match self {
            Step::Done(report) => StepView::Done(report@),
            Step::Perform(pending) => StepView::Perform(pending@),
        }
    }
}

/// What create does, and the files of the store after it.
///
/// A pair that the store holds a record for is refused before anything else is
/// looked at. Then validation decides. A link that validation found present
/// already is put into the store at once. A fresh link waits for its creating
/// operation, and the store stays as it was.
pub open spec fn create_outcome(
    files: Seq<FileView>,
    source: Seq<char>,
    target: Seq<char>,
    linktype: LinkType,
    probe: PathProbe,
) -> (StepView, Seq<FileView>) {
    let key = storage_key(source, target);
    match lookup(files, key) {
        Some(file) => match file.record {
            Some(_) => (StepView::Done(ReportView::AlreadyTracked { source, target }), files),
            None => (
                StepView::Done(ReportView::Unreadable(StoreFailure::CorruptRecord(key))),
                files,
            ),
        },
        None => match validate(source, target, linktype, probe) {
            Err(failure) => (StepView::Done(ReportView::Refused(failure)), files),
            Ok(record) => if record.exists {
                (
                    StepView::Done(ReportView::Created(SavedView { link: record, file_name: key })),
                    stored(files, record_file(key, record)),
                )
            } else {
                (
                    StepView::Perform(
                        PendingView {
                            link: record,
                            action: creating_action(linktype),
                            purpose: Purpose::Create,
                        },
                    ),
                    files,
                )
            },
        },
    }
}

/// What remove does: it asks for the removal of a link that is tracked and
/// present, and only reports on any other.
pub open spec fn remove_outcome(files: Seq<FileView>, target: Seq<char>) -> StepView {
    match first_at_target(readable(files), target) {
        None => StepView::Done(ReportView::NotTracked { target }),
        Some(record) => if record.exists {
            StepView::Perform(
                PendingView { link: record, action: LinkAction::Remove, purpose: Purpose::Remove },
            )
        } else {
            StepView::Done(ReportView::NotPresent(record))
        },
    }
}

/// What toggle does: it asks for the operation that takes a tracked link to its
/// other state.
pub open spec fn toggle_outcome(files: Seq<FileView>, target: Seq<char>) -> StepView {
    match first_at_target(readable(files), target) {
        None => StepView::Done(ReportView::NotTracked { target }),
        Some(record) => StepView::Perform(
            PendingView { link: record, action: record.toggle_action(), purpose: Purpose::Toggle },
        ),
    }
}

/// The record of a link after an operation on it succeeded: absent after a
/// removal, present after a creation.
pub open spec fn after_action(record: LinkRecord, action: LinkAction) -> LinkRecord {
    LinkRecord { exists: action != LinkAction::Remove, ..record }
}

/// How a pending transition ends, and the files of the store after it. After a
/// failure the store is as it was. After a success the link is in its new state
/// and its record is in the store, under its key.
pub open spec fn complete_outcome(
    files: Seq<FileView>,
    pending: PendingView,
    outcome: Result<(), IoFailure>,
) -> (ReportView, Seq<FileView>) {
    match outcome {
        Err(failure) => (ReportView::Failed(failure@), files),
        Ok(_) => {
            let record = after_action(pending.link, pending.action);
            let key = storage_key(record.source, record.target);
            let saved = SavedView { link: record, file_name: key };
            (
                match pending.purpose {
                    Purpose::Create => ReportView::Created(saved),
                    Purpose::Remove => ReportView::Removed(saved),
                    Purpose::Toggle => ReportView::Toggled(saved),
                },
                stored(files, record_file(key, record)),
            )
        },
    }
}

/// Begins the creation of a link from `source` to `target`, given what the driver
/// observed of the two paths.
pub fn create(
    db: &mut LinkStorage,
    source: &str,
    target: &str,
    linktype: LinkType,
    probe: &PathProbe,
) -> (step: Step)
    ensures
        (step@, final(db)@.files) == create_outcome(
            old(db)@.files,
            source@,
            target@,
            linktype,
            *probe,
        ),
        final(db)@.folder_path == old(db)@.folder_path,
        final(db)@.link_folder == old(db)@.link_folder,
{
    match db.get_quicklink(source, target) {
        Err(error) => Step::Done(Report::Unreadable(error)),
        Ok(Some(_)) => Step::Done(
            Report::AlreadyTracked { source: source.to_owned(), target: target.to_owned() },
        ),
        Ok(None) => match QuickLink::new(source, target, linktype, probe) {
            Err(error) => Step::Done(Report::Refused(error)),
            Ok(link) => {
                if link.exists {
                    let file_name = db.save_quicklink(&link);
                    Step::Done(Report::Created(Saved { link, file_name }))
                } else {
                    let action = link.link_action();
                    Step::Perform(Pending { link, action, purpose: Purpose::Create })
                }
            },
        },
    }
}

/// Begins the removal of the link that stands at `target`.
pub fn remove(db: &LinkStorage, target: &str) -> (step: Step)
    ensures
        step@ == remove_outcome(db@.files, target@),
{
    match db.find_by_target(target) {
        None => Step::Done(Report::NotTracked { target: target.to_owned() }),
        Some(link) => {
            if link.exists {
                Step::Perform(
                    Pending { link, action: LinkAction::Remove, purpose: Purpose::Remove },
                )
            } else {
                Step::Done(Report::NotPresent(link))
            }
        },
    }
}

/// Begins the toggling of the link that stands at `target`.
pub fn toggle(db: &LinkStorage, target: &str) -> (step: Step)
    ensures
        step@ == toggle_outcome(db@.files, target@),
{
    match db.find_by_target(target) {
        None => Step::Done(Report::NotTracked { target: target.to_owned() }),
        Some(link) => {
            let action = link.toggle_action();
            Step::Perform(Pending { link, action, purpose: Purpose::Toggle })
        },
    }
}

/// Ends a pending transition with the outcome of its operation.
pub fn complete(db: &mut LinkStorage, pending: Pending, outcome: Result<(), IoFailure>) -> (report:
    Report)
    ensures
        (report@, final(db)@.files) == complete_outcome(old(db)@.files, pending@, outcome),
        final(db)@.folder_path == old(db)@.folder_path,
        final(db)@.link_folder == old(db)@.link_folder,
{
    let mut link = pending.link;
    let applied = match pending.action {
        LinkAction::Remove => link.unlink(outcome),
        _ => link.link(outcome),
    };
    match applied {
        Err(failure) => Report::Failed(failure),
        Ok(_) => {
            let file_name = db.save_quicklink(&link);
            let saved = Saved { link, file_name };
            match pending.purpose {
                Purpose::Create => Report::Created(saved),
                Purpose::Remove => Report::Removed(saved),
                Purpose::Toggle => Report::Toggled(saved),
            }
        },
    }
}

/// Where the source exists, nothing stands at the target and the store holds no
/// file for the pair, create asks for the creating operation; and once that has
/// succeeded, a lookup of the pair gives a record that is present and of the kind
/// that was asked for.
pub proof fn lemma_create_then_get(
    files: Seq<FileView>,
    source: Seq<char>,
    target: Seq<char>,
    linktype: LinkType,
    probe: PathProbe,
    outcome: Result<(), IoFailure>,
)
    requires
        probe.source_exists,
        probe.target_absent(),
        lookup(files, storage_key(source, target)) is None,
        outcome is Ok,
    ensures
        ({
            let asked = PendingView {
                link: LinkRecord { source, target, exists: false, linktype },
                action: creating_action(linktype),
                purpose: Purpose::Create,
            };
            let created = LinkRecord { source, target, exists: true, linktype };
            let key = storage_key(source, target);
            &&& create_outcome(files, source, target, linktype, probe) == (
                StepView::Perform(asked),
                files,
            )
            &&& complete_outcome(files, asked, outcome).0 == ReportView::Created(
                SavedView { link: created, file_name: key },
            )
            &&& lookup(complete_outcome(files, asked, outcome).1, key) == Some(
                record_file(key, created),
            )
        }),
{
    let created = LinkRecord { source, target, exists: true, linktype };
    lemma_put_then_get(files, created);
}

/// Whatever create, remove or toggle reports as saved is what a lookup by its
/// file name gives back: the store holds what the report says.
pub proof fn lemma_completed_is_stored(
    files: Seq<FileView>,
    pending: PendingView,
    outcome: Result<(), IoFailure>,
)
    requires
        outcome is Ok,
    ensures
        ({
            let record = after_action(pending.link, pending.action);
            lookup(
                complete_outcome(files, pending, outcome).1,
                storage_key(record.source, record.target),
            ) == Some(record_file(storage_key(record.source, record.target), record))
        }),
{
    lemma_put_then_get(files, after_action(pending.link, pending.action));
}

} // verus!
