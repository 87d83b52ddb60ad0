//! One tracked link: what it is, how a request for it is validated, and how
//! linking and unlinking change it.

use crate::text::same_text;
use vstd::prelude::*;

verus! {

/// The kind of a link.
#[derive(Clone, Copy, Debug, PartialEq, Eq, Structural)]
pub enum LinkType {
    /// A symbolic link.
    Softlink,
    /// A hard link.
    Hardlink,
}

impl Default for LinkType {
    fn default() -> (kind: Self)
        ensures
            kind == LinkType::Softlink,
    {
        LinkType::Softlink
    }
}

/// What kind of entry a path denotes.
#[derive(Clone, Copy, Debug, PartialEq, Eq, Structural)]
pub enum FileType {
    File,
    Directory,
}

/// A failed file system operation, as the driver reports it.
#[derive(Clone, Debug, PartialEq, Eq)]
pub struct IoFailure {
    /// The description that the operating system gave.
    pub message: String,
}

impl View for IoFailure {
    type V = Seq<char>;

    open spec fn view(&self) -> Seq<char> {
        self.message@
    }
}

/// What the driver observed of the two paths of a request, before anything is
/// changed. Each field is one observation, taken as the file system gave it.
#[derive(Clone, Debug, PartialEq, Eq)]
pub struct PathProbe {
    /// Whether the source exists.
    pub source_exists: bool,
    /// Whether something can be reached through the target: symbolic links are
    /// followed, so a link that leads nowhere does not count.
    pub target_exists: bool,
    /// Whether the entry at the target is itself a symbolic link.
    pub target_is_symlink: bool,
    /// Whether the target denotes a directory, directly or through a symbolic link.
    pub target_is_dir: bool,
    /// Where the symbolic link at the target points, if there is one and it could
    /// be read.
    pub link_destination: Option<String>,
}

impl PathProbe {
    /// Whether nothing at all stands at the target: no entry, and no symbolic link
    /// either, not even one that leads nowhere.
    pub open spec fn target_absent(self) -> bool {
        !self.target_exists && !self.target_is_symlink && !self.target_is_dir
    }
}

/// The operation that the driver performs in the file system for one transition,
/// on the source and the target of the link that it belongs to.
#[derive(Clone, Copy, Debug, PartialEq, Eq, Structural)]
pub enum LinkAction {
    /// Create a symbolic link at the target that points to the source.
    Symlink,
    /// Create a hard link at the target to the source.
    HardLink,
    /// Remove the entry at the target.
    Remove,
}

/// The operation that creates a link of the given kind.
pub open spec fn creating_action(linktype: LinkType) -> LinkAction {
    match linktype {
        LinkType::Softlink => LinkAction::Symlink,
        LinkType::Hardlink => LinkAction::HardLink,
    }
}

/// A link as a mathematical value: the view of a `QuickLink`.
pub struct LinkRecord {
    pub source: Seq<char>,
    pub target: Seq<char>,
    pub exists: bool,
    pub linktype: LinkType,
}

impl LinkRecord {
    /// The record with the link present.
    pub open spec fn linked(self) -> LinkRecord {
        LinkRecord { exists: true, ..self }
    }

    /// The record with the link absent.
    pub open spec fn unlinked(self) -> LinkRecord {
        LinkRecord { exists: false, ..self }
    }

    /// The record in the other state.
    pub open spec fn toggled(self) -> LinkRecord {
        LinkRecord { exists: !self.exists, ..self }
    }

    /// The operation that takes the link to its other state.
    pub open spec fn toggle_action(self) -> LinkAction {
        if self.exists {
            LinkAction::Remove
        } else {
            creating_action(self.linktype)
        }
    }
}

/// Why a link could not be created: the view of a `QuickLinkCreationError`.
pub enum CreationFailure {
    SourceDoesNotExist(Seq<char>),
    TargetExists(Seq<char>, Seq<char>),
    TargetLinkHasDifferentSource(Seq<char>, Seq<char>, Seq<char>),
    UnavailableLinkType(Seq<char>, LinkType, FileType),
    LinkIOError(Seq<char>),
}

/// Why a link could not be created.
#[derive(Clone, Debug, PartialEq, Eq)]
pub enum QuickLinkCreationError {
    /// The source does not exist. Holds the source.
    SourceDoesNotExist(String),
    /// The target is taken by an entry that cannot be adopted. Holds source and target.
    TargetExists(String, String),
    /// The target is a symbolic link to something else. Holds source, target and
    /// the place that the link points to.
    TargetLinkHasDifferentSource(String, String, String),
    /// The kind of link cannot be made at a target of this kind. Holds the source,
    /// the kind of link and the kind of the target.
    UnavailableLinkType(String, LinkType, FileType),
    /// The file system operation failed.
    LinkIOError(IoFailure),
}

impl View for QuickLinkCreationError {
    type V = CreationFailure;

    open spec fn view(&self) -> CreationFailure {
        match self {
            QuickLinkCreationError::SourceDoesNotExist(source) => CreationFailure::SourceDoesNotExist(
                source@,
            ),
            QuickLinkCreationError::TargetExists(source, target) => CreationFailure::TargetExists(
                source@,
                target@,
            ),
            QuickLinkCreationError::TargetLinkHasDifferentSource(source, target, other) =>
                CreationFailure::TargetLinkHasDifferentSource(source@, target@, other@),
            QuickLinkCreationError::UnavailableLinkType(source, linktype, filetype) =>
                CreationFailure::UnavailableLinkType(source@, *linktype, *filetype),
            QuickLinkCreationError::LinkIOError(failure) => CreationFailure::LinkIOError(failure@),
        }
    }
}

impl From<IoFailure> for QuickLinkCreationError {
    fn from(failure: IoFailure) -> (error: Self) {
        QuickLinkCreationError::LinkIOError(failure)
    }
}

impl vstd::std_specs::convert::FromSpecImpl<IoFailure> for QuickLinkCreationError {
    open spec fn obeys_from_spec() -> bool {
        true
    }

    open spec fn from_spec(failure: IoFailure) -> Self {
        QuickLinkCreationError::LinkIOError(failure)
    }
}

/// A link that the library keeps track of. It remembers its kind and whether it
/// was present in the file system when it was last acted on.
#[derive(Debug, PartialEq, Eq)]
pub struct QuickLink {
    /// The path that the link leads to: absolute, and resolved by the caller.
    pub source: String,
    /// The path at which the link stands: absolute.
    pub target: String,
    /// Whether the link was present when it was last acted on.
    pub exists: bool,
    /// The kind of the link.
    pub linktype: LinkType,
}

impl View for QuickLink {
    type V = LinkRecord;

    open spec fn view(&self) -> LinkRecord {
        LinkRecord {
            source: self.source@,
            target: self.target@,
            exists: self.exists,
            linktype: self.linktype,
        }
    }
}

impl Clone for QuickLink {
    fn clone(&self) -> (copy: Self)
        ensures
            copy == *self,
    {
        QuickLink {
            source: self.source.clone(),
            target: self.target.clone(),
            exists: self.exists,
            linktype: self.linktype,
        }
    }
}

/// What validation makes of a request, given what was observed of its paths.
///
/// A missing source is refused. A hard link is refused at a directory, and at any
/// other target that exists. A symbolic link is accepted at a target that already
/// is a symbolic link to the source, and the link then counts as present; it is
/// refused at a symbolic link that points elsewhere, and at a target that is no
/// symbolic link or whose destination could not be read. At a target that does
/// not exist the link is accepted and counts as absent.
pub open spec fn validate(
    source: Seq<char>,
    target: Seq<char>,
    linktype: LinkType,
    probe: PathProbe,
) -> Result<LinkRecord, CreationFailure> {
    let fresh = LinkRecord { source, target, exists: false, linktype };
    if !probe.source_exists {
        Err(CreationFailure::SourceDoesNotExist(source))
    } else if linktype == LinkType::Hardlink {
        if probe.target_is_dir {
            Err(
                CreationFailure::UnavailableLinkType(
                    source,
                    LinkType::Hardlink,
                    FileType::Directory,
                ),
            )
        } else if probe.target_exists {
            Err(CreationFailure::TargetExists(source, target))
        } else {
            Ok(fresh)
        }
    } else if !probe.target_exists {
        Ok(fresh)
    } else if probe.target_is_symlink && probe.link_destination is Some {
        let destination = probe.link_destination->0@;
        if destination == source {
            Ok(fresh.linked())
        } else {
            Err(CreationFailure::TargetLinkHasDifferentSource(source, target, destination))
        }
    } else {
        Err(CreationFailure::TargetExists(source, target))
    }
}

/// The view of what a constructor returns.
pub open spec fn creation_view(result: Result<QuickLink, QuickLinkCreationError>) -> Result<
    LinkRecord,
    CreationFailure,
> {
    match result {
        Ok(link) => Ok(link@),
        Err(error) => Err(error@),
    }
}

impl QuickLink {
    /// Validates a request for a link from `source` to `target` against what the
    /// driver observed, and makes the link without creating it in the file system.
    /// A symbolic link that already stands at the target and points to the source is
    /// adopted as present.
    pub fn new(source: &str, target: &str, linktype: LinkType, probe: &PathProbe) -> (result: Result<
        QuickLink,
        QuickLinkCreationError,
    >)
        ensures
            creation_view(result) == validate(source@, target@, linktype, *probe),
    {
        if !probe.source_exists {
            return Err(QuickLinkCreationError::SourceDoesNotExist(source.to_owned()));
        }
        let mut exists = false;
        match linktype {
            LinkType::Hardlink => {
                if probe.target_is_dir {
                    return Err(
                        QuickLinkCreationError::UnavailableLinkType(
                            source.to_owned(),
                            linktype,
                            FileType::Directory,
                        ),
                    );
                }
                if probe.target_exists {
                    return Err(
                        QuickLinkCreationError::TargetExists(source.to_owned(), target.to_owned()),
                    );
                }
            },
            LinkType::Softlink => {
                if probe.target_exists {
                    match &probe.link_destination {
                        Some(destination) if probe.target_is_symlink => {
                            if same_text(destination.as_str(), source) {
                                exists = true;
                            } else {
                                return Err(
                                    QuickLinkCreationError::TargetLinkHasDifferentSource(
                                        source.to_owned(),
                                        target.to_owned(),
                                        destination.clone(),
                                    ),
                                );
                            }
                        },
                        _ => {
                            return Err(
                                QuickLinkCreationError::TargetExists(
                                    source.to_owned(),
                                    target.to_owned(),
                                ),
                            );
                        },
                    }
                }
            },
        }
        Ok(QuickLink { source: source.to_owned(), target: target.to_owned(), exists, linktype })
    }

    /// Validates like `new`, and says what is left to do so that the link is present:
    /// nothing for a link that was adopted, the creating operation for a fresh one.
    /// The driver performs that operation and passes its outcome to `link`.
    pub fn new_autolink(source: &str, target: &str, linktype: LinkType, probe: &PathProbe) -> (result:
        Result<(QuickLink, Option<LinkAction>), QuickLinkCreationError>)
        ensures
            match result {
                Ok((link, action)) => {
                    &&& validate(source@, target@, linktype, *probe) == Ok::<
                        LinkRecord,
                        CreationFailure,
                    >(link@)
                    &&& action == if link.exists {
                        None
                    } else {
                        Some(creating_action(linktype))
                    }
                },
                Err(error) => validate(source@, target@, linktype, *probe) == Err::<
                    LinkRecord,
                    CreationFailure,
                >(error@),
            },
    {
        match QuickLink::new(source, target, linktype, probe) {
            Ok(link) => {
                let action = if link.exists {
                    None
                } else {
                    Some(link.link_action())
                };
                Ok((link, action))
            },
            Err(error) => Err(error),
        }
    }

    /// The operation that creates this link in the file system.
    pub fn link_action(&self) -> (action: LinkAction)
        ensures
            action == creating_action(self.linktype),
    {
        match self.linktype {
            LinkType::Softlink => LinkAction::Symlink,
            LinkType::Hardlink => LinkAction::HardLink,
        }
    }

    /// The operation that takes this link to its other state: removal for a link
    /// that is present, creation for one that is absent.
    pub fn toggle_action(&self) -> (action: LinkAction)
        ensures
            action == self@.toggle_action(),
    {
        if self.exists {
            LinkAction::Remove
        } else {
            self.link_action()
        }
    }

    /// Records the outcome of the creating operation. After a success the link is
    /// present. After a failure nothing has changed. The outcome is handed back as
    /// it came.
    pub fn link(&mut self, outcome: Result<(), IoFailure>) -> (result: Result<(), IoFailure>)
        ensures
            result == outcome,
            outcome is Ok ==> *final(self) == (QuickLink { exists: true, ..*old(self) }),
            outcome is Ok ==> final(self)@ == old(self)@.linked(),
            outcome is Err ==> *final(self) == *old(self),
    {
        if outcome.is_ok() {
            self.exists = true;
        }
        outcome
    }

    /// Records the outcome of the removal at the target. After a success the link is
    /// absent. After a failure nothing has changed. The outcome is handed back as it
    /// came.
    pub fn unlink(&mut self, outcome: Result<(), IoFailure>) -> (result: Result<(), IoFailure>)
        ensures
            result == outcome,
            outcome is Ok ==> *final(self) == (QuickLink { exists: false, ..*old(self) }),
            outcome is Ok ==> final(self)@ == old(self)@.unlinked(),
            outcome is Err ==> *final(self) == *old(self),
    {
        if outcome.is_ok() {
            self.exists = false;
        }
        outcome
    }

    /// Records the outcome of the operation that `toggle_action` asked for. After a
    /// success the link is in its other state. After a failure nothing has changed.
    /// The outcome is handed back as it came.
    pub fn toggle_link(&mut self, outcome: Result<(), IoFailure>) -> (result: Result<(), IoFailure>)
        ensures
            result == outcome,
            outcome is Ok ==> *final(self) == (QuickLink { exists: !old(self).exists, ..*old(self) }),
            outcome is Ok ==> final(self)@ == old(self)@.toggled(),
            outcome is Err ==> *final(self) == *old(self),
    {
        if self.exists {
            self.unlink(outcome)
        } else {
            self.link(outcome)
        }
    }
}

/// The name of a kind of link.
pub open spec fn link_type_text(linktype: LinkType) -> Seq<char> {
    match linktype {
        LinkType::Softlink => "Softlink"@,
        LinkType::Hardlink => "Hardlink"@,
    }
}

/// The name of a kind of entry.
pub open spec fn file_type_text(filetype: FileType) -> Seq<char> {
    match filetype {
        FileType::File => "File"@,
        FileType::Directory => "Directory"@,
    }
}

/// The word for a truth value.
pub open spec fn bool_text(value: bool) -> Seq<char> {
    if value {
        "true"@
    } else {
        "false"@
    }
}

/// The line that shows a link: source, target, whether it is present, and its kind.
pub open spec fn link_text(record: LinkRecord) -> Seq<char> {
    record.source + " -> "@ + record.target + " , e: "@ + bool_text(record.exists) + ", t: "@
        + link_type_text(record.linktype)
}

/// The message that explains why a link could not be created.
pub open spec fn failure_text(failure: CreationFailure) -> Seq<char> {
    match failure {
        CreationFailure::SourceDoesNotExist(source) => "Link for "@ + source
            + " cannot be created - source does not exist"@,
        CreationFailure::TargetExists(source, target) => "Link for "@ + source
            + " cannot be created - target ("@ + target + ") exists"@,
        CreationFailure::TargetLinkHasDifferentSource(source, target, other) => "Link for "@
            + source + " cannot be created - target ("@ + target + ") is already a link from "@
            + other,
        CreationFailure::UnavailableLinkType(source, linktype, filetype) => "Link for "@ + source
            + " cannot be created - link type "@ + link_type_text(linktype)
            + " is incompatible with source type: "@ + file_type_text(filetype),
        CreationFailure::LinkIOError(message) => "Encountered an io error while linking: "@
            + message,
    }
}

impl LinkType {
    /// The name of this kind of link.
    pub fn to_text(&self) -> (text: String)
        ensures
            text@ == link_type_text(*self),
    {
        match self {
            LinkType::Softlink => String::from_str("Softlink"),
            LinkType::Hardlink => String::from_str("Hardlink"),
        }
    }
}

impl FileType {
    /// The name of this kind of entry.
    pub fn to_text(&self) -> (text: String)
        ensures
            text@ == file_type_text(*self),
    {
        match self {
            FileType::File => String::from_str("File"),
            FileType::Directory => String::from_str("Directory"),
        }
    }
}

impl QuickLink {
    /// The line that shows this link.
    pub fn to_text(&self) -> (text: String)
        ensures
            text@ == link_text(self@),
    {
        let mut text = self.source.clone();
        text.append(" -> ");
        text.append(self.target.as_str());
        text.append(" , e: ");
        if self.exists {
            text.append("true");
        } else {
            text.append("false");
        }
        text.append(", t: ");
        text.append(self.linktype.to_text().as_str());
        text
    }
}

impl QuickLinkCreationError {
    /// The message that explains this error.
    pub fn to_text(&self) -> (text: String)
        ensures
            text@ == failure_text(self@),
    {
        match self {
            QuickLinkCreationError::SourceDoesNotExist(source) => {
                let mut text = String::from_str("Link for ");
                text.append(source.as_str());
                text.append(" cannot be created - source does not exist");
                text
            },
            QuickLinkCreationError::TargetExists(source, target) => {
                let mut text = String::from_str("Link for ");
                text.append(source.as_str());
                text.append(" cannot be created - target (");
                text.append(target.as_str());
                text.append(") exists");
                text
            },
            QuickLinkCreationError::TargetLinkHasDifferentSource(source, target, other) => {
                let mut text = String::from_str("Link for ");
                text.append(source.as_str());
                text.append(" cannot be created - target (");
                text.append(target.as_str());
                text.append(") is already a link from ");
                text.append(other.as_str());
                text
            },
            QuickLinkCreationError::UnavailableLinkType(source, linktype, filetype) => {
                let mut text = String::from_str("Link for ");
                text.append(source.as_str());
                text.append(" cannot be created - link type ");
                text.append(linktype.to_text().as_str());
                text.append(" is incompatible with source type: ");
                text.append(filetype.to_text().as_str());
                text
            },
            QuickLinkCreationError::LinkIOError(failure) => {
                let mut text = String::from_str("Encountered an io error while linking: ");
                text.append(failure.message.as_str());
                text
            },
        }
    }
}

/// Toggling twice, with both operations successful, gives the link back as it was;
/// and of the two operations asked for, one creates the link and one removes it.
pub proof fn lemma_toggle_twice(record: LinkRecord)
    ensures
        record.toggled().toggled() == record,
        record.toggle_action() != record.toggled().toggle_action(),
        record.toggle_action() == LinkAction::Remove || record.toggled().toggle_action()
            == LinkAction::Remove,
{
}

} // verus!
