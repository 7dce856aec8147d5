use vstd::prelude::*;

verus! {

/// A record of the entry index: a file known to the service.
#[derive(Debug)]
pub struct FileEntry {
    pub id: u64,
    pub entry_path: String,
}

impl View for FileEntry {
    type V = (u64, Seq<char>);

    open spec fn view(&self) -> (u64, Seq<char>) {
        (self.id, self.entry_path@)
    }
}

impl FileEntry {
    pub fn new(id: u64, entry_path: String) -> (r: FileEntry)
        ensures
            r@ == (id, entry_path@),
    {
        FileEntry { id, entry_path }
    }

    /// An equal, independently owned record.
    pub fn duplicate(&self) -> (r: FileEntry)
        ensures
            r@ == self@,
    {
        FileEntry { id: self.id, entry_path: self.entry_path.clone() }
    }
}

/// A file named by a client: its logical name and its path under the container.
#[derive(Debug)]
pub struct LocalFile {
    pub name: String,
    pub path: String,
}

/// What a failed storage operation reports to a client.
#[derive(Debug)]
pub struct IoError {
    pub message: String,
    pub cause: String,
    pub code: usize,
}

/// The ways a storage operation can fail.
#[derive(Debug, Clone, Copy, PartialEq, Eq, Structural)]
pub enum StoreError {
    /// The logical name is unknown to the index, or its blob is absent.
    NotFound,
    /// The write would take the container past its configured limit.
    QuotaExceeded,
    /// The index already holds a record with this path.
    DuplicatePath,
    /// The index already holds a record with this identifier.
    DuplicateId,
}

/// HTTP-style status code under which an error is reported.
pub open spec fn status_of(e: StoreError) -> usize {
    match e {
        StoreError::QuotaExceeded => 400,
        _ => 500,
    }
}

/// The short message a client sees for an error.
pub open spec fn message_of(e: StoreError) -> Seq<char> {
    match e {
        StoreError::NotFound => "not found"@,
        StoreError::QuotaExceeded => "exceeded container limit"@,
        _ => "internal server error"@,
    }
}

impl StoreError {
    /// The short, client-visible report of this error.
    pub fn to_io_error(&self) -> (r: IoError)
        ensures
            r.code == status_of(*self),
            r.message@ == message_of(*self),
    {
        match self {
            StoreError::NotFound => IoError {
                message: String::from_str("not found"),
                cause: String::from_str("no entry for this name"),
                code: 500,
            },
            StoreError::QuotaExceeded => IoError {
                message: String::from_str("exceeded container limit"),
                cause: String::from_str("quota rejected the write"),
                code: 400,
            },
            StoreError::DuplicatePath => IoError {
                message: String::from_str("internal server error"),
                cause: String::from_str("an entry with this path exists"),
                code: 500,
            },
            StoreError::DuplicateId => IoError {
                message: String::from_str("internal server error"),
                cause: String::from_str("an entry with this identifier exists"),
                code: 500,
            },
        }
    }
}

} // verus!
