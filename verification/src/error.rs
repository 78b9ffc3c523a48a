//! The closed set of failures that the operations on volumes and collections
//! report, each with the identifier, path or name that it is about.

use vstd::prelude::*;
use vstd::string::*;

verus! {

/// The kind of a failure, as a transport layer maps it to a status.
#[derive(Clone, Copy, Debug, PartialEq, Eq, Structural)]
pub enum ErrorKind {
    /// A malformed identifier, name or path.
    Validation,
    /// A volume or collection that is absent.
    NotFound,
    /// A duplicate, an ambiguous match, a root that is owned or locked.
    Conflict,
    /// A device path without a live mount point.
    DeviceUnmounted,
    /// A failure of the filesystem or of an external process.
    Io,
}

/// Why an operation was refused.
#[derive(Clone, Copy, Debug, PartialEq, Eq, Structural)]
pub enum Reason {
    /// The collection name is empty or holds a character outside `[a-z0-9_]`.
    InvalidName,
    /// The collection identifier does not match the identifier pattern.
    InvalidId,
    /// The volume identifier does not match the identifier pattern.
    InvalidVolumeId,
    /// The ownership marker under this root holds no well-formed identifier.
    InvalidMarker,
    /// The delete request names neither `id` nor `name` as its selector.
    InvalidSelector,
    /// The document is not a table of text entries where one is expected.
    InvalidDocument,
    /// There is no ownership marker under this root.
    MarkerMissing,
    /// No volume is registered under this identifier.
    VolumeNotFound,
    /// No volume is registered at this path.
    PathNotFound,
    /// No collection of the volume has this identifier or name.
    CollectionNotFound,
    /// The path is registered already.
    PathRegistered,
    /// The volume identifier is registered already.
    IdRegistered,
    /// More than one volume is registered at this path.
    AmbiguousPath,
    /// The root is not empty and carries an ownership marker, whose content is the failure's `owner`.
    AlreadyOwned,
    /// The root is not empty and carries no ownership marker.
    NotEmpty,
    /// The root carries a lock marker: it is in use or was not released.
    Locked,
    /// A collection of the volume has this name already.
    NameTaken,
    /// A collection of the volume has this identifier already.
    IdTaken,
    /// The device has no live mount point.
    DeviceUnmounted,
    /// Every identifier that was drawn is in use.
    Exhausted,
    /// The metadata of the volume could not be collected; the volume stays registered.
    Metadata,
    /// The filesystem or an external process failed.
    Io,
}

impl Reason {
    /// The kind under which the reason falls.
    pub open spec fn kind_spec(self) -> ErrorKind {
        match self {
            Reason::InvalidName => ErrorKind::Validation,
            Reason::InvalidId => ErrorKind::Validation,
            Reason::InvalidVolumeId => ErrorKind::Validation,
            Reason::InvalidMarker => ErrorKind::Validation,
            Reason::InvalidSelector => ErrorKind::Validation,
            Reason::InvalidDocument => ErrorKind::Validation,
            Reason::MarkerMissing => ErrorKind::NotFound,
            Reason::VolumeNotFound => ErrorKind::NotFound,
            Reason::PathNotFound => ErrorKind::NotFound,
            Reason::CollectionNotFound => ErrorKind::NotFound,
            Reason::PathRegistered => ErrorKind::Conflict,
            Reason::IdRegistered => ErrorKind::Conflict,
            Reason::AmbiguousPath => ErrorKind::Conflict,
            Reason::AlreadyOwned => ErrorKind::Conflict,
            Reason::NotEmpty => ErrorKind::Conflict,
            Reason::Locked => ErrorKind::Conflict,
            Reason::NameTaken => ErrorKind::Conflict,
            Reason::IdTaken => ErrorKind::Conflict,
            Reason::DeviceUnmounted => ErrorKind::DeviceUnmounted,
            Reason::Exhausted => ErrorKind::Io,
            Reason::Metadata => ErrorKind::Io,
            Reason::Io => ErrorKind::Io,
        }
    }

    /// The kind under which the reason falls.
    #[verifier::when_used_as_spec(kind_spec)]
    pub fn kind(self) -> (kind: ErrorKind)
        ensures
            kind == self.kind_spec(),
    {
        match self {
            Reason::InvalidName => ErrorKind::Validation,
            Reason::InvalidId => ErrorKind::Validation,
            Reason::InvalidVolumeId => ErrorKind::Validation,
            Reason::InvalidMarker => ErrorKind::Validation,
            Reason::InvalidSelector => ErrorKind::Validation,
            Reason::InvalidDocument => ErrorKind::Validation,
            Reason::MarkerMissing => ErrorKind::NotFound,
            Reason::VolumeNotFound => ErrorKind::NotFound,
            Reason::PathNotFound => ErrorKind::NotFound,
            Reason::CollectionNotFound => ErrorKind::NotFound,
            Reason::PathRegistered => ErrorKind::Conflict,
            Reason::IdRegistered => ErrorKind::Conflict,
            Reason::AmbiguousPath => ErrorKind::Conflict,
            Reason::AlreadyOwned => ErrorKind::Conflict,
            Reason::NotEmpty => ErrorKind::Conflict,
            Reason::Locked => ErrorKind::Conflict,
            Reason::NameTaken => ErrorKind::Conflict,
            Reason::IdTaken => ErrorKind::Conflict,
            Reason::DeviceUnmounted => ErrorKind::DeviceUnmounted,
            Reason::Exhausted => ErrorKind::Io,
            Reason::Metadata => ErrorKind::Io,
            Reason::Io => ErrorKind::Io,
        }
    }

    /// The fixed phrase that names the reason.
    pub open spec fn phrase_spec(self) -> Seq<char> {
        match self {
            Reason::InvalidName => "invalid collection name"@,
            Reason::InvalidId => "invalid collection id"@,
            Reason::InvalidVolumeId => "invalid volume id"@,
            Reason::InvalidMarker => "invalid volume ID format in .ipelfs"@,
            Reason::InvalidSelector => "invalid 'by' value, must be 'id' or 'name'"@,
            Reason::InvalidDocument => "invalid toml"@,
            Reason::MarkerMissing => "'.ipelfs' not found in volume root"@,
            Reason::VolumeNotFound => "volume id not found"@,
            Reason::PathNotFound => "no volume found with given path"@,
            Reason::CollectionNotFound => "collection not found"@,
            Reason::PathRegistered => "volume path already registered"@,
            Reason::IdRegistered => "volume ID already registered"@,
            Reason::AmbiguousPath => "multiple volumes match this path"@,
            Reason::AlreadyOwned => "directory is owned by another volume"@,
            Reason::NotEmpty => "directory is not empty"@,
            Reason::Locked => "volume appears locked ('.vlock' exists)"@,
            Reason::NameTaken => "collection name already exists"@,
            Reason::IdTaken => "collection id already exists"@,
            Reason::DeviceUnmounted => "device is not mounted"@,
            Reason::Exhausted => "no unused identifier was drawn"@,
            Reason::Metadata => "metadata could not be collected"@,
            Reason::Io => "i/o failure"@,
        }
    }

    /// The fixed phrase that names the reason.
    pub fn phrase(self) -> (text: &'static str)
        ensures
            text@ == self.phrase_spec(),
    {
        match self {
            Reason::InvalidName => "invalid collection name",
            Reason::InvalidId => "invalid collection id",
            Reason::InvalidVolumeId => "invalid volume id",
            Reason::InvalidMarker => "invalid volume ID format in .ipelfs",
            Reason::InvalidSelector => "invalid 'by' value, must be 'id' or 'name'",
            Reason::InvalidDocument => "invalid toml",
            Reason::MarkerMissing => "'.ipelfs' not found in volume root",
            Reason::VolumeNotFound => "volume id not found",
            Reason::PathNotFound => "no volume found with given path",
            Reason::CollectionNotFound => "collection not found",
            Reason::PathRegistered => "volume path already registered",
            Reason::IdRegistered => "volume ID already registered",
            Reason::AmbiguousPath => "multiple volumes match this path",
            Reason::AlreadyOwned => "directory is owned by another volume",
            Reason::NotEmpty => "directory is not empty",
            Reason::Locked => "volume appears locked ('.vlock' exists)",
            Reason::NameTaken => "collection name already exists",
            Reason::IdTaken => "collection id already exists",
            Reason::DeviceUnmounted => "device is not mounted",
            Reason::Exhausted => "no unused identifier was drawn",
            Reason::Metadata => "metadata could not be collected",
            Reason::Io => "i/o failure",
        }
    }
}

/// A failure: its reason, the identifier, path or name that it is about, and
/// for a root that is owned already the identifier of its owner.
#[derive(Clone, Debug)]
pub struct Error {
    pub reason: Reason,
    pub subject: String,
    pub owner: Option<String>,
}

/// The mathematical model of a failure.
pub ghost struct ErrorView {
    pub reason: Reason,
    pub subject: Seq<char>,
    pub owner: Option<Seq<char>>,
}

impl View for Error {
    type V = ErrorView;

    open spec fn view(&self) -> ErrorView {
        ErrorView {
            reason: self.reason,
            subject: self.subject@,
            owner: match self.owner {
                Some(o) => Some(o@),
                None => None,
            },
        }
    }
}

/// The model of a failure without an owner.
pub open spec fn refusal(reason: Reason, subject: Seq<char>) -> ErrorView {
    ErrorView { reason, subject, owner: None }
}

/// The text of a failure: the reason's phrase, a colon and the subject, and
/// for a failure with an owner the owner in brackets.
pub open spec fn message_of(e: ErrorView) -> Seq<char> {
    let head = e.reason.phrase_spec() + ": "@ + e.subject;
    match e.owner {
        Some(o) => head + " ["@ + o + "]"@,
        None => head,
    }
}

impl Error {
    /// A failure about `subject`.
    pub fn new(reason: Reason, subject: &str) -> (e: Error)
        ensures
            e@ == refusal(reason, subject@),
    {
        Error { reason, subject: subject.to_owned(), owner: None }
    }

    /// The failure of a root at `path` that `owner` owns already.
    pub fn owned(path: &str, owner: &str) -> (e: Error)
        ensures
            e@ == (ErrorView {
                reason: Reason::AlreadyOwned,
                subject: path@,
                owner: Some(owner@),
            }),
    {
        Error { reason: Reason::AlreadyOwned, subject: path.to_owned(), owner: Some(owner.to_owned()) }
    }

    /// The kind of the failure.
    pub fn kind(&self) -> (kind: ErrorKind)
        ensures
            kind == self@.reason.kind_spec(),
    {
        self.reason.kind()
    }

    /// The text of the failure.
    pub fn message(&self) -> (text: String)
        ensures
            text@ == message_of(self@),
    {
        let head = self.reason.phrase().to_owned().concat(": ").concat(self.subject.as_str());
        match &self.owner {
            Some(o) => head.concat(" [").concat(o.as_str()).concat("]"),
            None => head,
        }
    }
}

} // verus!
