//! The files of the durable protocol: their names, how they are opened without
//! following links, how a new one is staged, and how stale temporaries are
//! swept.
use vstd::prelude::*;
use vstd::string::*;
use crate::digest;
use crate::table::TextTable;
use crate::text;
use super::durable::{MAX_IDEMPOTENCY_FILE_BYTES, PENDING_TTL_SECS};
use super::record::{BoundedRead, DurableIdempotencyRecord, DurablePendingRecord, PendingFile,
    ReadyFile};

verus! {

/// The stem of a key's file names: the hexadecimal digest of the key.
pub open spec fn key_stem(key: Seq<u8>) -> Seq<char> {
    digest::hex_text(digest::sha256(key))
}

/// The name of the file that holds a key's committed mapping.
pub open spec fn ready_name(key: Seq<u8>) -> Seq<char> {
    key_stem(key) + ".json"@
}

/// The name of the file that holds the claim on a key.
pub open spec fn pending_name(key: Seq<u8>) -> Seq<char> {
    key_stem(key) + ".pending.json"@
}

/// The name of the file that holds a key's committed mapping.
pub fn ready_file_name(key: &str) -> (r: String)
    ensures
        r@ == ready_name(key.spec_bytes()),
{
    let mut name = digest::digest_hex(key.as_bytes());
    name.append(".json");
    name
}

/// The name of the file that holds the claim on a key.
pub fn pending_file_name(key: &str) -> (r: String)
    ensures
        r@ == pending_name(key.spec_bytes()),
{
    let mut name = digest::digest_hex(key.as_bytes());
    name.append(".pending.json");
    name
}

/// What is said of a file larger than any record.
pub open spec fn oversize(path: Seq<char>) -> Seq<char> {
    "idempotency file `"@ + path + "` exceeds "@ + text::decimal(
        MAX_IDEMPOTENCY_FILE_BYTES as nat,
    ) + " bytes"@
}

/// Judges the bytes that a bounded read returned: at most one byte more than
/// the limit was read, and reaching past the limit makes the file unreadable.
pub fn bounded_read(path: &str, bytes: Vec<u8>) -> (r: BoundedRead)
    ensures
        bytes@.len() <= MAX_IDEMPOTENCY_FILE_BYTES ==> r == BoundedRead::Present(bytes),
        bytes@.len() > MAX_IDEMPOTENCY_FILE_BYTES ==> (r matches BoundedRead::Unreadable(detail)
            && detail@ == oversize(path@)),
{
    if bytes.len() as u64 > MAX_IDEMPOTENCY_FILE_BYTES {
        let mut detail = "idempotency file `".to_owned();
        detail.append(path);
        detail.append("` exceeds ");
        text::push_decimal(&mut detail, MAX_IDEMPOTENCY_FILE_BYTES);
        detail.append(" bytes");
        return BoundedRead::Unreadable(detail);
    }
    BoundedRead::Present(bytes)
}

/// What the mapping file holds.
pub open spec fn mapping_held(
    read: BoundedRead,
    parsed: Result<DurableIdempotencyRecord, String>,
) -> ReadyFile {
    match read {
        BoundedRead::Absent => ReadyFile::Absent,
        BoundedRead::Unreadable(error) => ReadyFile::Unreadable(error),
        BoundedRead::Present(bytes) => if bytes@.len() == 0 {
            ReadyFile::Empty
        } else {
            match parsed {
                Ok(record) => ReadyFile::Present(record),
                Err(error) => ReadyFile::Corrupt(error),
            }
        },
    }
}

/// What the claim file holds.
pub open spec fn claim_held(
    read: BoundedRead,
    parsed: Result<DurablePendingRecord, String>,
) -> PendingFile {
    match read {
        BoundedRead::Absent => PendingFile::Absent,
        BoundedRead::Unreadable(error) => PendingFile::Unreadable(error),
        BoundedRead::Present(_) => match parsed {
            Ok(record) => PendingFile::Present(record),
            Err(error) => PendingFile::Corrupt(error),
        },
    }
}

/// What the mapping file holds, from its bytes and from what they parse to.
/// No bytes at all are a write in progress, not a record.
pub fn ready_file(
    read: BoundedRead,
    parsed: Result<DurableIdempotencyRecord, String>,
) -> (r: ReadyFile)
    ensures
        r == mapping_held(read, parsed),
{
    match read {
        BoundedRead::Absent => ReadyFile::Absent,
        BoundedRead::Unreadable(error) => ReadyFile::Unreadable(error),
        BoundedRead::Present(bytes) => {
            if bytes.len() == 0 {
                return ReadyFile::Empty;
            }
            match parsed {
                Ok(record) => ReadyFile::Present(record),
                Err(error) => ReadyFile::Corrupt(error),
            }
        },
    }
}

/// What the claim file holds, from its bytes and from what they parse to.
pub fn pending_file(
    read: BoundedRead,
    parsed: Result<DurablePendingRecord, String>,
) -> (r: PendingFile)
    ensures
        r == claim_held(read, parsed),
{
    match read {
        BoundedRead::Absent => PendingFile::Absent,
        BoundedRead::Unreadable(error) => PendingFile::Unreadable(error),
        BoundedRead::Present(_) => match parsed {
            Ok(record) => PendingFile::Present(record),
            Err(error) => PendingFile::Corrupt(error),
        },
    }
}

/// The path is that of `name` in the directory `dir`, and every platform reads
/// it so: the directory is the root or ends in a component of its own, and
/// nothing in the path is a drive, a share or a separator of some platforms
/// only.
pub open spec fn names_file_in(path: Seq<char>, dir: Seq<char>, name: Seq<char>) -> bool {
    &&& !path.contains('\\') && !path.contains(':')
    &&& is_plain_name(name)
    &&& if dir == seq!['/'] {
        path == dir + name
    } else {
        &&& path == dir + seq!['/'] + name
        &&& dir.len() > 0 && dir.last() != '/'
        &&& !(seq!['/', '.'].is_suffix_of(dir))
        &&& !(seq!['/', '/'].is_prefix_of(dir))
    }
}

/// A component of a path that stands for neither a directory itself nor its
/// parent.
pub open spec fn is_plain_name(name: Seq<char>) -> bool {
    name.len() > 0 && !name.contains('/') && name != "."@ && name != ".."@
}

/// The path is a name without a directory, on every platform.
pub open spec fn is_bare_name(path: Seq<char>) -> bool {
    is_plain_name(path) && !path.contains('\\') && !path.contains(':')
}

/// The path ends in the component that stands for a parent.
pub open spec fn ends_in_parent(path: Seq<char>) -> bool {
    path == ".."@ || (seq!['/', '.', '.'].is_suffix_of(path) && !path.contains('\\'))
}

/// `camino::Utf8Path::parent`: the path without its final component, so that
/// what is returned begins the path, for a file in a directory is the
/// directory, and for a name alone is empty. What it is on paths that platforms read differently is left
/// unsaid.
#[verifier::external_body]
fn parent_of(path: &str) -> (r: Option<String>)
    ensures
        r matches Some(parent) ==> parent@.is_prefix_of(path@),
        forall|dir: Seq<char>, name: Seq<char>| #[trigger]
            names_file_in(path@, dir, name) ==> r.deep_view() == Some(dir),
        is_bare_name(path@) ==> r.deep_view() == Some(Seq::<char>::empty()),
{
    match camino::Utf8Path::new(path).parent() {
        Some(parent) => Some(parent.as_str().to_owned()),
        None => None,
    }
}

/// `camino::Utf8Path::file_name`: the final component, which stands in the
/// path, for a file in a directory is the file's name, and for a name alone is
/// that name; there is none where the path ends in `..`. What it is on paths
/// that platforms read differently is left unsaid.
#[verifier::external_body]
fn file_name_of(path: &str) -> (r: Option<String>)
    ensures
        r matches Some(name) ==> name@.len() > 0 && text::occurs(path@, name@),
        forall|dir: Seq<char>, name: Seq<char>| #[trigger]
            names_file_in(path@, dir, name) ==> r.deep_view() == Some(name),
        is_bare_name(path@) ==> r.deep_view() == Some(path@),
        ends_in_parent(path@) ==> r is None,
{
    match camino::Utf8Path::new(path).file_name() {
        Some(name) => Some(name.to_owned()),
        None => None,
    }
}

/// How an opened file may be used.
#[derive(Debug, Clone, Copy, PartialEq, Eq, Structural)]
pub enum Access {
    Read,
    Write,
    ReadWrite,
}

/// Whether opening may create the file.
#[derive(Debug, Clone, Copy, PartialEq, Eq, Structural)]
pub enum Creation {
    /// The file must be there.
    Existing,
    /// The file is created when it is missing.
    IfMissing,
    /// The file must not be there.
    Exclusive,
}

/// How a file is opened: relative to its pinned parent directory, never
/// through a link, and without waiting for whoever holds the other end of it.
#[derive(Debug)]
pub struct OpenPlan {
    pub parent: String,
    pub file_name: String,
    pub access: Access,
    pub creation: Creation,
    /// A link in place of the directory or of the file is followed.
    pub follow_links: bool,
    /// Opening may wait, as it does on a pipe that has no other end yet.
    pub may_wait: bool,
}

/// Why a path cannot be opened.
pub open spec fn path_refusal(path: Seq<char>, reason: Seq<char>) -> Seq<char> {
    "idempotency file `"@ + path + "` "@ + reason
}

fn refuse_path(path: &str, reason: &str) -> (r: String)
    ensures
        r@ == path_refusal(path@, reason@),
{
    let mut detail = "idempotency file `".to_owned();
    detail.append(path);
    detail.append("` ");
    detail.append(reason);
    detail
}

/// Why a path with this parent and this final component cannot be opened, if
/// it cannot.
pub open spec fn open_refusal(
    path: Seq<char>,
    parent: Option<Seq<char>>,
    file_name: Option<Seq<char>>,
    read: bool,
    write: bool,
) -> Option<Seq<char>> {
    if !read && !write {
        Some(path_refusal(path, "requires read and/or write"@))
    } else if parent is None {
        Some(path_refusal(path, "has no parent"@))
    } else if file_name is None {
        Some(path_refusal(path, "has no file name"@))
    } else if file_name->0.len() == 0 || file_name->0 == "."@ || file_name->0 == ".."@ {
        Some(path_refusal(path, "has an unsafe file name"@))
    } else if parent->0.contains('\0') || file_name->0.contains('\0') {
        Some(path_refusal(path, "contains a NUL byte"@))
    } else {
        None
    }
}

pub open spec fn open_access(read: bool, write: bool) -> Access {
    if read && write {
        Access::ReadWrite
    } else if read {
        Access::Read
    } else {
        Access::Write
    }
}

pub open spec fn open_creation(create: bool, create_new: bool) -> Creation {
    if create_new {
        Creation::Exclusive
    } else if create {
        Creation::IfMissing
    } else {
        Creation::Existing
    }
}

/// Opening a path with this parent and this final component comes to `r`.
pub open spec fn open_planned(
    path: Seq<char>,
    parent: Option<String>,
    file_name: Option<String>,
    access: (bool, bool),
    creation: (bool, bool),
    r: Result<OpenPlan, String>,
) -> bool {
    let refusal = open_refusal(
        path,
        parent.deep_view(),
        file_name.deep_view(),
        access.0,
        access.1,
    );
    match r {
        Ok(plan) => refusal is None && parent == Some(plan.parent) && file_name == Some(
            plan.file_name,
        ) && plan.access == open_access(access.0, access.1) && plan.creation == open_creation(
            creation.0,
            creation.1,
        ) && !plan.follow_links && !plan.may_wait,
        Err(detail) => refusal == Some(detail@),
    }
}

/// Plans the opening of a path whose parent and final component are known.
pub fn plan_open(
    path: &str,
    parent: Option<String>,
    file_name: Option<String>,
    read: bool,
    write: bool,
    create: bool,
    create_new: bool,
) -> (r: Result<OpenPlan, String>)
    ensures
        open_planned(path@, parent, file_name, (read, write), (create, create_new), r),
{
    if !read && !write {
        return Err(refuse_path(path, "requires read and/or write"));
    }
    let parent = match parent {
        Some(parent) => parent,
        None => {
            return Err(refuse_path(path, "has no parent"));
        },
    };
    let file_name = match file_name {
        Some(name) => name,
        None => {
            return Err(refuse_path(path, "has no file name"));
        },
    };
    if file_name.as_str().is_empty() || text::same_text(file_name.as_str(), ".")
        || text::same_text(file_name.as_str(), "..") {
        return Err(refuse_path(path, "has an unsafe file name"));
    }
    if text::has_char(parent.as_str(), '\0') || text::has_char(file_name.as_str(), '\0') {
        return Err(refuse_path(path, "contains a NUL byte"));
    }
    let access = if read && write {
        Access::ReadWrite
    } else if read {
        Access::Read
    } else {
        Access::Write
    };
    let creation = if create_new {
        Creation::Exclusive
    } else if create {
        Creation::IfMissing
    } else {
        Creation::Existing
    };
    Ok(OpenPlan { parent, file_name, access, creation, follow_links: false, may_wait: false })
}

/// Plans one opening of a path by what the platform takes its parent and its
/// final component to be. A file in a directory is opened by its name in that
/// directory, and a name alone in the empty one, without following a link and without waiting; a path that ends
/// in `..` is refused.
pub fn open_no_follow_once(
    path: &str,
    read: bool,
    write: bool,
    create: bool,
    create_new: bool,
) -> (r: Result<OpenPlan, String>)
    ensures
        exists|parent: Option<String>, file_name: Option<String>| #[trigger]
            open_planned(path@, parent, file_name, (read, write), (create, create_new), r),
        !read && !write ==> (r matches Err(detail) && detail@ == path_refusal(
            path@,
            "requires read and/or write"@,
        )),
        forall|dir: Seq<char>, name: Seq<char>| #[trigger]
            names_file_in(path@, dir, name) && (read || write) && !path@.contains('\0') ==> (
            r matches Ok(plan) && plan.parent@ == dir && plan.file_name@ == name),
        forall|dir: Seq<char>, name: Seq<char>| #[trigger]
            names_file_in(path@, dir, name) && (read || write) && path@.contains('\0') ==> (
            r matches Err(detail) && detail@ == path_refusal(path@, "contains a NUL byte"@)),
        is_bare_name(path@) && (read || write) && !path@.contains('\0') ==> (r matches Ok(plan)
            && plan.parent@ == Seq::<char>::empty() && plan.file_name@ == path@),
        is_bare_name(path@) && (read || write) && path@.contains('\0') ==> (r matches Err(detail)
            && detail@ == path_refusal(path@, "contains a NUL byte"@)),
        ends_in_parent(path@) ==> r is Err,
        r matches Ok(plan) ==> plan.parent@.is_prefix_of(path@) && text::occurs(
            path@,
            plan.file_name@,
        ) && plan.access == open_access(read, write) && plan.creation == open_creation(
            create,
            create_new,
        ) && !plan.follow_links && !plan.may_wait,
{
    let parent = parent_of(path);
    let file_name = file_name_of(path);
    let ghost (dir_seen, name_seen) = (parent.deep_view(), file_name.deep_view());
    let r = plan_open(path, parent, file_name, read, write, create, create_new);
    proof {
        let refusal = open_refusal(path@, dir_seen, name_seen, read, write);
        assert forall|dir: Seq<char>, name: Seq<char>| #[trigger]
            names_file_in(path@, dir, name) && (read || write) implies refusal == nul_refusal(
            path@,
        ) && dir_seen == Some(dir) && name_seen == Some(name) by {
            a_nul_is_in_a_part(path@, dir, name);
        }
        if is_bare_name(path@) && (read || write) {
            assert(!Seq::<char>::empty().contains('\0'));
            assert(refusal == nul_refusal(path@));
        }
    }
    r
}

/// The one thing that can be wrong with a path of known parts.
spec fn nul_refusal(path: Seq<char>) -> Option<Seq<char>> {
    if path.contains('\0') {
        Some(path_refusal(path, "contains a NUL byte"@))
    } else {
        None
    }
}

proof fn a_nul_is_in_a_part(path: Seq<char>, dir: Seq<char>, name: Seq<char>)
    requires
        names_file_in(path, dir, name),
    ensures
        path.contains('\0') == (dir.contains('\0') || name.contains('\0')),
{
    nul_is_in_a_part(dir, name);
    nul_is_in_the_name(name);
    if dir == seq!['/'] {
        assert(!dir.contains('\0'));
    }
}

proof fn nul_is_in_the_name(name: Seq<char>)
    ensures
        (seq!['/'] + name).contains('\0') == name.contains('\0'),
{
    let path = seq!['/'] + name;
    if path.contains('\0') {
        let i = choose|i: int| 0 <= i < path.len() && path[i] == '\0';
        assert(name[i - 1] == '\0');
    }
    if name.contains('\0') {
        let i = choose|i: int| 0 <= i < name.len() && name[i] == '\0';
        assert(path[1 + i] == '\0');
    }
}

proof fn nul_is_in_a_part(dir: Seq<char>, name: Seq<char>)
    ensures
        (dir + seq!['/'] + name).contains('\0') == (dir.contains('\0') || name.contains('\0')),
{
    let path = dir + seq!['/'] + name;
    if path.contains('\0') {
        let i = choose|i: int| 0 <= i < path.len() && path[i] == '\0';
        if i < dir.len() {
            assert(dir[i] == '\0');
        } else {
            assert(i > dir.len());
            assert(name[i - dir.len() - 1] == '\0');
        }
    }
    if dir.contains('\0') {
        let i = choose|i: int| 0 <= i < dir.len() && dir[i] == '\0';
        assert(path[i] == '\0');
    }
    if name.contains('\0') {
        let i = choose|i: int| 0 <= i < name.len() && name[i] == '\0';
        assert(path[dir.len() + 1 + i] == '\0');
    }
}

/// Only a regular file is a record; everything else that opens is refused.
pub fn check_opened(path: &str, is_regular: bool) -> (r: Result<(), String>)
    ensures
        r is Ok == is_regular,
        r matches Err(detail) ==> detail@ == path_refusal(path@, "is not a regular file"@),
{
    if is_regular {
        Ok(())
    } else {
        Err(refuse_path(path, "is not a regular file"))
    }
}

/// The rounds that opening a file which may have to be created can take.
pub const OPEN_ROUNDS: u32 = 8;

/// One way of opening a file that may have to be created.
#[derive(Debug, Clone, Copy, PartialEq, Eq, Structural)]
pub enum OpenAttempt {
    CreateExclusively,
    OpenExisting,
}

/// What an attempt came to.
#[derive(Debug, Clone, Copy, PartialEq, Eq, Structural)]
pub enum OpenResult {
    Opened,
    AlreadyExists,
    NotFound,
    Failed,
}

/// What follows an attempt.
#[derive(Debug, Clone, Copy, PartialEq, Eq, Structural)]
pub enum OpenStep {
    Try { attempt: OpenAttempt, round: u32 },
    Done,
    /// The attempt's error is reported; after the last round it is the error
    /// of a file that kept vanishing.
    Fail,
}

/// A file that may have to be created is created exclusively, and opened when
/// it is there already; one that vanishes in between is tried again, for a
/// bounded number of rounds.
pub open spec fn open_step(attempt: OpenAttempt, round: u32, result: OpenResult) -> OpenStep {
    match result {
        OpenResult::Opened => OpenStep::Done,
        OpenResult::Failed => OpenStep::Fail,
        OpenResult::AlreadyExists => match attempt {
            OpenAttempt::CreateExclusively => OpenStep::Try {
                attempt: OpenAttempt::OpenExisting,
                round,
            },
            OpenAttempt::OpenExisting => OpenStep::Fail,
        },
        OpenResult::NotFound => if round + 1 < OPEN_ROUNDS {
            OpenStep::Try {
                attempt: OpenAttempt::CreateExclusively,
                round: (round + 1) as u32,
            }
        } else {
            OpenStep::Fail
        },
    }
}

/// The attempts that are left, at most.
pub open spec fn attempts_left(attempt: OpenAttempt, round: u32) -> int {
    2 * (OPEN_ROUNDS - round) - (if attempt == OpenAttempt::OpenExisting {
        1int
    } else {
        0
    })
}

/// Decides what follows an attempt; every further attempt leaves fewer.
pub fn open_no_follow_or_create(attempt: OpenAttempt, round: u32, result: OpenResult) -> (r:
    OpenStep)
    ensures
        r == open_step(attempt, round, result),
        r matches OpenStep::Try { attempt: next, round: next_round } ==> attempts_left(
            next,
            next_round,
        ) < attempts_left(attempt, round),
{
    match result {
        OpenResult::Opened => OpenStep::Done,
        OpenResult::Failed => OpenStep::Fail,
        OpenResult::AlreadyExists => match attempt {
            OpenAttempt::CreateExclusively => OpenStep::Try {
                attempt: OpenAttempt::OpenExisting,
                round,
            },
            OpenAttempt::OpenExisting => OpenStep::Fail,
        },
        OpenResult::NotFound => {
            if round < OPEN_ROUNDS - 1 {
                OpenStep::Try { attempt: OpenAttempt::CreateExclusively, round: round + 1 }
            } else {
                OpenStep::Fail
            }
        },
    }
}

/// How often a temporary may collide before publication is refused.
pub const STAGING_ATTEMPTS: u32 = 3;

/// What staging a temporary came to.
#[derive(Debug, Clone, Copy, PartialEq, Eq, Structural)]
pub enum StageResult {
    Staged,
    Collided,
    Failed,
}

/// What follows a staging attempt.
#[derive(Debug, Clone, Copy, PartialEq, Eq, Structural)]
pub enum StageStep {
    Publish,
    /// Try again under a fresh name.
    Retry { attempts: u32 },
    /// Every name was taken: the collisions are planted files.
    Refuse,
    Fail,
}

/// What follows the staging attempt number `attempts`, counted from one.
pub open spec fn staging_step(attempts: u32, result: StageResult) -> StageStep {
    match result {
        StageResult::Staged => StageStep::Publish,
        StageResult::Failed => StageStep::Fail,
        StageResult::Collided => if attempts < STAGING_ATTEMPTS {
            StageStep::Retry { attempts: (attempts + 1) as u32 }
        } else {
            StageStep::Refuse
        },
    }
}

/// Decides what follows the staging attempt number `attempts`, counted from
/// one.
pub fn after_staging(attempts: u32, result: StageResult) -> (r: StageStep)
    ensures
        r == staging_step(attempts, result),
{
    match result {
        StageResult::Staged => StageStep::Publish,
        StageResult::Failed => StageStep::Fail,
        StageResult::Collided => {
            if attempts < STAGING_ATTEMPTS {
                StageStep::Retry { attempts: attempts + 1 }
            } else {
                StageStep::Refuse
            }
        },
    }
}

/// A file name without its extension: what stands before its last dot. A dot
/// at the start begins no extension.
pub open spec fn name_stem(name: Seq<char>) -> Seq<char> {
    let dot = name.len() - text::after_last(name, '.').len() - 1;
    if dot <= 0 {
        name
    } else {
        name.take(dot)
    }
}

/// The name of a temporary for `name`.
pub open spec fn staging_text(name: Seq<char>, id: Seq<char>) -> Seq<char> {
    name_stem(name) + ".tmp-"@ + id
}

/// The name under which a file called `file_name` is staged. `id` is fresh for
/// every attempt.
pub fn staging_name(file_name: &str, id: &str) -> (r: String)
    ensures
        r@ == staging_text(file_name@, id@),
        text::occurs(r@, ".tmp-"@),
{
    let chars = text::chars_of(file_name);
    let from: usize = text::position_after_last(&chars, '.');
    let end: usize = if from <= 1 { chars.len() } else { from - 1 };
    let mut name = text::text_between(&chars, 0, end);
    assert(name@ == name_stem(file_name@));
    name.append(".tmp-");
    name.append(id);
    proof {
        let stem = name_stem(file_name@).len() as int;
        assert(name@.subrange(stem, stem + ".tmp-"@.len()) =~= ".tmp-"@);
        assert(text::occurs_at(name@, ".tmp-"@, stem));
    }
    name
}

/// When each store's temporaries were last swept, in Unix seconds.
pub type SweepClock = TextTable<u64>;

/// A sweep is due when the store was never swept or its last sweep is a claim
/// lifetime ago.
pub open spec fn sweep_due(clock: Map<Seq<char>, u64>, dir: Seq<char>, now: u64) -> bool {
    !clock.contains_key(dir) || clock[dir] == 0 || now - clock[dir] >= PENDING_TTL_SECS
}

/// Whether the store at `dir` is to be swept now; if so, the time is noted.
/// Stores do not hold each other's sweeps back.
pub fn begin_sweep(clock: &mut SweepClock, dir: &String, now: u64) -> (r: bool)
    requires
        old(clock).wf(),
    ensures
        final(clock).wf(),
        r == sweep_due(old(clock)@, dir@, now),
        final(clock)@ == (if r {
            old(clock)@.insert(dir@, now)
        } else {
            old(clock)@
        }),
{
    let previous: u64 = match clock.get(dir.as_str()) {
        Some(at) => *at,
        None => 0,
    };
    if previous != 0 && now.saturating_sub(previous) < PENDING_TTL_SECS {
        return false;
    }
    clock.insert(dir, now);
    true
}

/// Forgets every sweep, so that the next one of each store is due.
pub fn reset_temp_sweep_for_tests(clock: &mut SweepClock)
    ensures
        final(clock).wf(),
        final(clock)@ == Map::<Seq<char>, u64>::empty(),
{
    clock.clear();
}

/// What a sweep found of one directory entry.
#[derive(Debug)]
pub enum SweepEntry {
    /// The entry itself, or its metadata, could not be read.
    Unreadable(String),
    /// A link, whatever it points to.
    Link,
    /// Anything else, with the time of its last change in Unix seconds.
    Other { modified: Option<u64> },
}

/// What a sweep does with one directory entry.
#[derive(Debug, Clone, Copy, PartialEq, Eq, Structural)]
pub enum SweepAction {
    Keep,
    Remove,
    /// The sweep goes on, but is not clean.
    Report,
}

/// Only temporaries are touched: links among them at once and without
/// following them, files once they are a claim lifetime old, so that a
/// publisher at work keeps its own.
pub open spec fn sweep_action(name: Seq<char>, entry: SweepEntry, now: u64) -> SweepAction {
    if !text::occurs(name, ".tmp-"@) {
        SweepAction::Keep
    } else {
        match entry {
            SweepEntry::Unreadable(_) => SweepAction::Report,
            SweepEntry::Link => SweepAction::Remove,
            SweepEntry::Other { modified } => if modified is Some && now - modified->0
                >= PENDING_TTL_SECS {
                SweepAction::Remove
            } else {
                SweepAction::Keep
            },
        }
    }
}

/// Decides what a sweep does with the entry called `name`.
pub fn reap_stale_claim_tmps(name: &str, entry: &SweepEntry, now: u64) -> (r: SweepAction)
    ensures
        r == sweep_action(name@, *entry, now),
{
    if !text::has_text(name, ".tmp-") {
        return SweepAction::Keep;
    }
    match entry {
        SweepEntry::Unreadable(_) => SweepAction::Report,
        SweepEntry::Link => SweepAction::Remove,
        SweepEntry::Other { modified } => {
            let stale = match modified {
                Some(at) => now.saturating_sub(*at) >= PENDING_TTL_SECS,
                None => false,
            };
            if stale {
                SweepAction::Remove
            } else {
                SweepAction::Keep
            }
        },
    }
}

/// The outcome of a sweep that goes on past failures: it is clean where
/// nothing failed, and else the first failure.
#[derive(Debug)]
pub struct SweepReport {
    pub first_failure: Option<String>,
}

impl SweepReport {
    pub fn new() -> (r: Self)
        ensures
            r.first_failure is None,
    {
        SweepReport { first_failure: None }
    }

    /// Notes a failure; only the first one counts.
    pub fn note(&mut self, failure: String)
        ensures
            final(self).first_failure == (if old(self).first_failure is Some {
                old(self).first_failure
            } else {
                Some(failure)
            }),
    {
        if self.first_failure.is_none() {
            self.first_failure = Some(failure);
        }
    }

    pub fn finish(self) -> (r: Result<(), String>)
        ensures
            match r {
                Ok(()) => self.first_failure is None,
                Err(failure) => self.first_failure == Some(failure),
            },
    {
        match self.first_failure {
            None => Ok(()),
            Some(failure) => Err(failure),
        }
    }
}

/// What a crashed publisher staged is swept: as a link at once, and as a file
/// once it is a claim lifetime old, not before.
pub proof fn staged_files_are_swept(file_name: Seq<char>, id: Seq<char>, modified: u64, now: u64)
    ensures
        ({
            let name = staging_text(file_name, id);
            let found = SweepEntry::Other { modified: Some(modified) };
            &&& sweep_action(name, SweepEntry::Link, now) == SweepAction::Remove
            &&& sweep_action(name, found, now) == (if now - modified >= PENDING_TTL_SECS {
                SweepAction::Remove
            } else {
                SweepAction::Keep
            })
        }),
{
    let name = staging_text(file_name, id);
    let stem = name_stem(file_name).len() as int;
    assert(name.subrange(stem, stem + ".tmp-"@.len()) =~= ".tmp-"@);
    assert(text::occurs_at(name, ".tmp-"@, stem));
}

/// No sweep touches a record, whatever its key and however old it is.
pub proof fn records_are_not_swept(key: Seq<u8>, entry: SweepEntry, now: u64)
    ensures
        sweep_action(key_stem(key) + ".json"@, entry, now) == SweepAction::Keep,
        sweep_action(key_stem(key) + ".pending.json"@, entry, now) == SweepAction::Keep,
{
    reveal_strlit(".tmp-");
    reveal_strlit(".json");
    reveal_strlit(".pending.json");
    let stem = key_stem(key);
    let (ready, pending) = (stem + ".json"@, stem + ".pending.json"@);
    let n = stem.len() as int;
    assert forall|i: int| 0 <= i < n implies stem[i] != '.' by {
        let bytes = digest::sha256(key);
        assert(stem[i] == digest::nibble_char(
            if i % 2 == 0 {
                (bytes[i / 2] / 16) as nat
            } else {
                (bytes[i / 2] % 16) as nat
            },
        ));
    }
    assert forall|at: int| !text::occurs_at(ready, ".tmp-"@, at) by {
        if text::occurs_at(ready, ".tmp-"@, at) {
            let found = ready.subrange(at, at + 5);
            assert(found[0] == '.' && found[1] == 't');
            assert(ready[at] == '.' && ready[at + 1] == 't');
            assert(at < n ==> ready[at] == stem[at]);
        }
    }
    assert forall|at: int| !text::occurs_at(pending, ".tmp-"@, at) by {
        if text::occurs_at(pending, ".tmp-"@, at) {
            let found = pending.subrange(at, at + 5);
            assert(found[0] == '.' && found[1] == 't');
            assert(pending[at] == '.' && pending[at + 1] == 't');
            assert(at < n ==> pending[at] == stem[at]);
        }
    }
}

} // verus!
