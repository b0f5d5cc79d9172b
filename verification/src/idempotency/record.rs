//! The records of the durable idempotency protocol and what a reader can find
//! in their files.
use vstd::prelude::*;

verus! {

/// The committed mapping of a key to its run.
#[derive(Debug)]
pub struct DurableIdempotencyRecord {
    pub key: String,
    pub digest: String,
    pub run_id: String,
    pub created_at_unix: u64,
    /// The claim generation that committed this record.
    pub generation: u64,
}

/// A claim on a key: its owner may execute and then commit.
#[derive(Debug)]
pub struct DurablePendingRecord {
    pub key: String,
    pub digest: String,
    /// The run id reserved before execution; a retry that adopts an expired
    /// claim reuses it.
    pub run_id: Option<String>,
    pub owner: String,
    pub created_at_unix: u64,
    /// Grows with every claim on the key.
    pub generation: u64,
}

/// The reverse mapping of a run to its key, kept inside the run directory.
#[derive(Debug)]
pub struct OrphanIdempotencyRecord {
    pub key: String,
    pub digest: String,
    pub run_id: String,
    pub created_at_unix: u64,
}

/// A committed mapping as text values.
pub struct ReadyModel {
    pub key: Seq<char>,
    pub digest: Seq<char>,
    pub run_id: Seq<char>,
    pub created: u64,
    pub generation: u64,
}

/// A claim as text values.
pub struct PendingModel {
    pub key: Seq<char>,
    pub digest: Seq<char>,
    pub run_id: Option<Seq<char>>,
    pub owner: Seq<char>,
    pub created: u64,
    pub generation: u64,
}

/// A run-side mapping as text values.
pub struct OrphanModel {
    pub key: Seq<char>,
    pub digest: Seq<char>,
    pub run_id: Seq<char>,
    pub created: u64,
}

impl View for DurableIdempotencyRecord {
    type V = ReadyModel;

    open spec fn view(&self) -> ReadyModel {
        ReadyModel {
            key: self.key@,
            digest: self.digest@,
            run_id: self.run_id@,
            created: self.created_at_unix,
            generation: self.generation,
        }
    }
}

impl View for DurablePendingRecord {
    type V = PendingModel;

    open spec fn view(&self) -> PendingModel {
        PendingModel {
            key: self.key@,
            digest: self.digest@,
            run_id: self.run_id.deep_view(),
            owner: self.owner@,
            created: self.created_at_unix,
            generation: self.generation,
        }
    }
}

impl View for OrphanIdempotencyRecord {
    type V = OrphanModel;

    open spec fn view(&self) -> OrphanModel {
        OrphanModel {
            key: self.key@,
            digest: self.digest@,
            run_id: self.run_id@,
            created: self.created_at_unix,
        }
    }
}

/// What a bounded read of a record file found.
#[derive(Debug)]
pub enum BoundedRead {
    Present(Vec<u8>),
    Absent,
    Unreadable(String),
}

/// What the file of a committed mapping holds.
#[derive(Debug)]
pub enum ReadyFile {
    Absent,
    Unreadable(String),
    Empty,
    Corrupt(String),
    Present(DurableIdempotencyRecord),
}

/// What the file of a claim holds.
#[derive(Debug)]
pub enum PendingFile {
    Absent,
    Unreadable(String),
    Corrupt(String),
    Present(DurablePendingRecord),
}

/// What a record file holds, as values.
pub enum FileModel<T> {
    Absent,
    Unreadable(Seq<char>),
    Empty,
    Corrupt(Seq<char>),
    Present(T),
}

impl View for ReadyFile {
    type V = FileModel<ReadyModel>;

    open spec fn view(&self) -> FileModel<ReadyModel> {
        match self {
            ReadyFile::Absent => FileModel::Absent,
            ReadyFile::Unreadable(error) => FileModel::Unreadable(error@),
            ReadyFile::Empty => FileModel::Empty,
            ReadyFile::Corrupt(error) => FileModel::Corrupt(error@),
            ReadyFile::Present(record) => FileModel::Present(record@),
        }
    }
}

impl View for PendingFile {
    type V = FileModel<PendingModel>;

    open spec fn view(&self) -> FileModel<PendingModel> {
        match self {
            PendingFile::Absent => FileModel::Absent,
            PendingFile::Unreadable(error) => FileModel::Unreadable(error@),
            PendingFile::Corrupt(error) => FileModel::Corrupt(error@),
            PendingFile::Present(record) => FileModel::Present(record@),
        }
    }
}

/// The files of one key.
pub struct KeyFiles {
    pub ready: FileModel<ReadyModel>,
    pub pending: FileModel<PendingModel>,
}

} // verus!
