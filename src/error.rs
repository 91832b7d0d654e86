use vstd::prelude::*;

verus! {

/// Errors that the core reports to its callers.
#[derive(Debug, Clone, Copy, PartialEq, Eq, Structural)]
pub enum Error {
    /// The requested or source format is outside the allow-list.
    MimeNotSupported,
    /// Unknown job id or missing source file.
    NotFound,
    /// The request carries no parseable file identifier.
    MissingFileId,
    /// The media-type text could not be parsed at all.
    InvalidMediaType,
    /// The job is not held by the worker that tried to advance it.
    NotClaimed,
    /// The reported step does not follow from the job's current state.
    InvalidTransition,
    /// Reading a stored artifact failed.
    StorageReadError,
    /// Writing an artifact to storage failed.
    StorageWriteError,
}

/// The text reported for each error.
pub open spec fn message_of(e: Error) -> Seq<char> {
    match e {
        Error::MimeNotSupported => "Mime type is not supported"@,
        Error::NotFound => "Not found"@,
        Error::MissingFileId => "Missing file id"@,
        Error::InvalidMediaType => "Invalid media type"@,
        Error::NotClaimed => "Job is not claimed by this worker"@,
        Error::InvalidTransition => "Step does not fit the job state"@,
        Error::StorageReadError => "Storage read failed"@,
        Error::StorageWriteError => "Storage write failed"@,
    }
}

impl Error {
    /// Human-readable text of the error.
    pub fn message(&self) -> (r: &'static str)
        ensures
            r@ == message_of(*self),
    {
        match self {
            Error::MimeNotSupported => "Mime type is not supported",
            Error::NotFound => "Not found",
            Error::MissingFileId => "Missing file id",
            Error::InvalidMediaType => "Invalid media type",
            Error::NotClaimed => "Job is not claimed by this worker",
            Error::InvalidTransition => "Step does not fit the job state",
            Error::StorageReadError => "Storage read failed",
            Error::StorageWriteError => "Storage write failed",
        }
    }
}

} // verus!
