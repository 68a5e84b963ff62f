//! The managed store: names, quota, listing, and bounded reads.
//!
//! All persistence goes through one directory whose contents count against a fixed allowance.
//! Objects are written to a staging file, measured, and renamed into place.
use crate::error::{seen, Error, ErrorView};
use crate::text::{
    begins, chars_of, digit, ends, hex, is_digit, is_letter, letter, lower_hex, starts_with, views,
};
use sha2::Digest;
use vstd::prelude::*;

verus! {

// ---------------------------------------------------------------------------
// Digests

/// The SHA-256 digest of a byte string.
pub uninterp spec fn sha256(bytes: Seq<u8>) -> Seq<u8>;

/// `sha2::Sha256::digest`: 32 bytes, a function of the input, named `sha256`.
#[verifier::external_body]
fn sha256_bytes(bytes: &[u8]) -> (res: Vec<u8>)
    ensures
        res@ == sha256(bytes@),
        res@.len() == 32,
{
    sha2::Sha256::digest(bytes).to_vec()
}

/// The name of a byte string: its digest in hexadecimal.
pub open spec fn digested(bytes: Seq<u8>) -> Seq<char> {
    hex(sha256(bytes))
}

/// The SHA-256 digest of `bytes` in lower-case hexadecimal.
pub fn digest(bytes: &[u8]) -> (res: String)
    ensures
        res@ == digested(bytes@),
{
    lower_hex(&sha256_bytes(bytes))
}

/// The digest of a text's bytes.
pub fn digest_text(text: &str) -> (res: String)
    ensures
        res@ == digested(vstd::utf8::encode_utf8(text@)),
{
    digest(text.as_bytes())
}

// ---------------------------------------------------------------------------
// Bounded reads

/// How many bytes to ask a reader for, so that an input over `limit` shows.
pub fn read_ahead(limit: u64) -> (res: u64)
    ensures
        res == if limit < u64::MAX { limit + 1 } else { u64::MAX as int },
{
    limit.saturating_add(1)
}

/// What was read, unless it is longer than `limit`.
pub fn read_bounded(data: Vec<u8>, limit: u64) -> (res: Result<Vec<u8>, Error>)
    ensures
        seen(res) == if data@.len() <= limit {
            Ok(data)
        } else {
            Err(ErrorView::InputExceeds(limit))
        },
{
    if data.len() as u64 <= limit {
        Ok(data)
    } else {
        Err(Error::InputExceeds(limit))
    }
}

/// What was read of a file, which must be a regular one and not longer than `limit`.
pub fn read_file(regular: bool, data: Vec<u8>, limit: u64) -> (res: Result<Vec<u8>, Error>)
    ensures
        seen(res) == if !regular {
            Err(ErrorView::NotRegular)
        } else if data@.len() <= limit {
            Ok(data)
        } else {
            Err(ErrorView::InputExceeds(limit))
        },
{
    if !regular {
        return Err(Error::NotRegular);
    }
    read_bounded(data, limit)
}

// ---------------------------------------------------------------------------
// Usage

/// What a directory entry is.
#[derive(Debug, Clone, Copy, PartialEq, Eq, Structural)]
pub enum Kind {
    File,
    Directory,
    Symlink,
    Special,
}

/// A directory entry with what is below it.
#[derive(Debug)]
pub struct Entry {
    pub kind: Kind,
    /// Length in bytes.
    pub len: u64,
    /// Allocated blocks of 512 bytes.
    pub blocks: u64,
    pub children: Vec<Entry>,
}

/// The larger of the length and the allocation, which stops at the largest number.
pub open spec fn own_size(entry: Entry) -> nat {
    let allocated = if entry.blocks * 512 <= u64::MAX { (entry.blocks * 512) as nat } else {
        u64::MAX as nat
    };
    if entry.len >= allocated { entry.len as nat } else { allocated }
}

/// What an entry and all below it take; symlinks and special files are refused.
pub open spec fn taken(entry: Entry) -> Result<nat, ErrorView>
    decreases entry, 1int, 0int,
{
    match entry.kind {
        Kind::Symlink => Err(ErrorView::SymlinkForbidden),
        Kind::Special => Err(ErrorView::SpecialForbidden),
        Kind::File => Ok(own_size(entry)),
        Kind::Directory => taken_children(entry, entry.children@.len()),
    }
}

/// What a directory and its first `n` children take.
pub open spec fn taken_children(entry: Entry, n: nat) -> Result<nat, ErrorView>
    decreases entry, 0int, n,
{
    if n == 0 || n > entry.children@.len() {
        Ok(own_size(entry))
    } else {
        match taken_children(entry, (n - 1) as nat) {
            Err(error) => Err(error),
            Ok(before) => match taken(entry.children@[n - 1]) {
                Err(error) => Err(error),
                Ok(more) => if before + more <= u64::MAX {
                    Ok(before + more)
                } else {
                    Err(ErrorView::SizeOverflow)
                },
            },
        }
    }
}

/// The bytes that `entry` and all below it take.
pub fn usage(entry: &Entry) -> (res: Result<u64, Error>)
    ensures
        match res {
            Ok(n) => taken(*entry) == Ok::<nat, ErrorView>(n as nat),
            Err(error) => taken(*entry) == Err::<nat, ErrorView>(error@),
        },
    decreases entry,
{
    match entry.kind {
        Kind::Symlink => {
            return Err(Error::SymlinkForbidden);
        },
        Kind::Special => {
            return Err(Error::SpecialForbidden);
        },
        _ => {},
    }
    let allocated: u64 = if entry.blocks <= u64::MAX / 512 {
        entry.blocks * 512
    } else {
        u64::MAX
    };
    let mut total: u64 = if entry.len >= allocated {
        entry.len
    } else {
        allocated
    };
    if entry.kind == Kind::File {
        return Ok(total);
    }
    let mut i: usize = 0;
    while i < entry.children.len()
        invariant
            entry.kind == Kind::Directory,
            i <= entry.children.len(),
            taken_children(*entry, i as nat) == Ok::<nat, ErrorView>(total as nat),
        decreases entry.children.len() - i,
    {
        match usage(&entry.children[i]) {
            Err(error) => {
                proof {
                    lemma_refused(*entry, (i + 1) as nat, entry.children@.len());
                }
                return Err(error);
            },
            Ok(more) => {
                if more > u64::MAX - total {
                    proof {
                        lemma_refused(*entry, (i + 1) as nat, entry.children@.len());
                    }
                    return Err(Error::SizeOverflow);
                }
                total = total + more;
            },
        }
        i = i + 1;
    }
    Ok(total)
}

/// The first refusal below a directory stands.
proof fn lemma_refused(entry: Entry, n: nat, m: nat)
    requires
        n <= m <= entry.children@.len(),
        taken_children(entry, n) is Err,
    ensures
        taken_children(entry, m) == taken_children(entry, n),
    decreases m - n,
{
    if n < m {
        lemma_refused(entry, n, (m - 1) as nat);
    }
}

// ---------------------------------------------------------------------------
// The store

/// The largest allowance: fifty decimal gigabytes.
pub const MAX_DISK: u64 = 50_000_000_000;

/// So much may be taken, with so much of it left free.
pub open spec fn affordable(total: u64, reserve: u64) -> bool {
    total <= MAX_DISK && reserve < total
}

/// A store takes 50 GB at most, and some of it is left to be used.
pub proof fn law_affordable(total: u64, reserve: u64)
    ensures
        affordable(total, reserve) <==> total <= 50_000_000_000 && total - reserve > 0,
{
}

/// A managed directory, as far as its rules need it: how much may be stored there.
#[derive(Debug)]
pub struct Store {
    budget: u64,
}

/// A character that an object name may hold.
pub open spec fn name_char(c: char) -> bool {
    letter(c) || digit(c) || c == '-' || c == '_' || c == '.'
}

/// An object name: not empty, not hidden, and without a separator.
pub open spec fn object_name(name: Seq<char>) -> bool {
    &&& name.len() > 0
    &&& name[0] != '.'
    &&& forall|i: int| 0 <= i < name.len() ==> name_char(#[trigger] name[i])
}

/// The room that an object of `len` bytes needs: whole pages, and two more for the directory.
pub open spec fn reservation(len: nat) -> nat {
    ((len + 4095) / 4096) * 4096 + 8192
}

impl Store {
    /// How many bytes the directory may take.
    pub closed spec fn allowance(&self) -> nat {
        self.budget as nat
    }

    /// A store of `total` bytes of which `reserve` stay free for other use.
    pub fn open(total: u64, reserve: u64) -> (res: Result<Store, Error>)
        ensures
            match res {
                Ok(store) => {
                    &&& affordable(total, reserve)
                    &&& store.allowance() == total - reserve
                },
                Err(error) => !affordable(total, reserve) && error@ == ErrorView::StorageBudget,
            },
    {
        if total <= MAX_DISK && reserve < total {
            Ok(Store { budget: total - reserve })
        } else {
            Err(Error::StorageBudget)
        }
    }

    /// Whether what is already there fits.
    pub fn check(&self, used: u64) -> (res: Result<(), Error>)
        ensures
            seen(res) == if used <= self.allowance() {
                Ok(())
            } else {
                Err(ErrorView::ExistingData)
            },
    {
        if used <= self.budget {
            Ok(())
        } else {
            Err(Error::ExistingData)
        }
    }

    /// How many bytes the directory may take.
    pub fn budget(&self) -> (res: u64)
        ensures
            res == self.allowance(),
    {
        self.budget
    }

    /// Whether `name` may be joined to the directory.
    pub fn path(&self, name: &str) -> (res: Result<(), Error>)
        ensures
            seen(res) == if object_name(name@) { Ok(()) } else { Err(ErrorView::ObjectName) },
    {
        let v = chars_of(name);
        if v.len() == 0 || v[0] == '.' {
            return Err(Error::ObjectName);
        }
        let mut i: usize = 0;
        while i < v.len()
            invariant
                v@ == name@,
                v.len() > 0,
                v[0] != '.',
                i <= v.len(),
                forall|j: int| 0 <= j < i ==> name_char(#[trigger] v@[j]),
            decreases v.len() - i,
        {
            let c = v[i];
            if !(is_letter(c) || is_digit(c) || c == '-' || c == '_' || c == '.') {
                assert(!name_char(name@[i as int]));
                return Err(Error::ObjectName);
            }
            i = i + 1;
        }
        Ok(())
    }

    /// The bytes that the directory takes, with all below it.
    pub fn used(&self, root: &Entry) -> (res: Result<u64, Error>)
        ensures
            match res {
                Ok(n) => taken(*root) == Ok::<nat, ErrorView>(n as nat),
                Err(error) => taken(*root) == Err::<nat, ErrorView>(error@),
            },
    {
        usage(root)
    }

    /// Whether an object is there, of a name that an object may have.
    pub fn contains(&self, name: &str, exists: bool) -> (res: Result<bool, Error>)
        ensures
            seen(res) == if object_name(name@) {
                Ok(exists)
            } else {
                Err(ErrorView::ObjectName)
            },
    {
        match self.path(name) {
            Err(error) => Err(error),
            Ok(()) => Ok(exists),
        }
    }

    /// Begins to write `len` bytes under a new name. Immutable objects make retries idempotent and
    /// avoid an unbounded mutable index.
    pub fn put(&self, name: &str, len: u64) -> (res: (Write, WriteAction))
        ensures
            (res.0.stage(), res.1@) == write_begins(name@, false),
            res.0.len() == len,
    {
        Write::begin(self, name, len, false)
    }

    /// Begins to write `len` bytes in the place of an object, which stays until the new one is
    /// whole.
    pub fn replace(&self, name: &str, len: u64) -> (res: (Write, WriteAction))
        ensures
            (res.0.stage(), res.1@) == write_begins(name@, true),
            res.0.len() == len,
    {
        Write::begin(self, name, len, true)
    }

    /// Whether an object of `len` bytes may be added to `used` bytes.
    pub fn admits(&self, used: u64, len: u64) -> (res: bool)
        ensures
            res == (used + reservation(len as nat) <= self.allowance()),
    {
        let pages: u128 = (len as u128 + 4095) / 4096;
        let needed: u128 = pages * 4096 + 8192;
        used as u128 + needed <= self.budget as u128
    }
}

// ---------------------------------------------------------------------------
// Writing

/// Where a write stands.
#[derive(Debug)]
pub enum Stage {
    Looking,
    Measuring,
    Staging,
    Filling,
    Remeasuring,
    Renaming,
    Syncing,
    Discarding(Error),
    Finished,
}

pub enum StageView {
    Looking,
    Measuring,
    Staging,
    Filling,
    Remeasuring,
    Renaming,
    Syncing,
    Discarding(ErrorView),
    Finished,
}

impl View for Stage {
    type V = StageView;

    open spec fn view(&self) -> StageView {
        match self {
            Stage::Looking => StageView::Looking,
            Stage::Measuring => StageView::Measuring,
            Stage::Staging => StageView::Staging,
            Stage::Filling => StageView::Filling,
            Stage::Remeasuring => StageView::Remeasuring,
            Stage::Renaming => StageView::Renaming,
            Stage::Syncing => StageView::Syncing,
            Stage::Discarding(error) => StageView::Discarding(error@),
            Stage::Finished => StageView::Finished,
        }
    }
}

/// What is to be done on disk next.
#[derive(Debug)]
pub enum WriteAction {
    /// Report whether the object exists.
    LookUp,
    /// Report the bytes that the directory takes.
    Measure,
    /// Create the staging file, which must not exist.
    Stage,
    /// Write the bytes to the staging file and sync it.
    Fill,
    /// Rename the staging file to the object's name.
    Rename,
    /// Sync the directory.
    Sync,
    /// Remove the staging file.
    Discard,
    /// Nothing more: whether the object was written, or why not.
    Finish(Result<bool, Error>),
}

pub enum WriteActionView {
    LookUp,
    Measure,
    Stage,
    Fill,
    Rename,
    Sync,
    Discard,
    Finish(Result<bool, ErrorView>),
}

impl View for WriteAction {
    type V = WriteActionView;

    open spec fn view(&self) -> WriteActionView {
        match self {
            WriteAction::LookUp => WriteActionView::LookUp,
            WriteAction::Measure => WriteActionView::Measure,
            WriteAction::Stage => WriteActionView::Stage,
            WriteAction::Fill => WriteActionView::Fill,
            WriteAction::Rename => WriteActionView::Rename,
            WriteAction::Sync => WriteActionView::Sync,
            WriteAction::Discard => WriteActionView::Discard,
            WriteAction::Finish(res) => WriteActionView::Finish(seen(*res)),
        }
    }
}

/// What came of the action before.
#[derive(Debug)]
pub enum WriteEvent {
    Exists(bool),
    Used(u64),
    Done,
    Failed(Error),
}

pub enum WriteEventView {
    Exists(bool),
    Used(u64),
    Done,
    Failed(ErrorView),
}

impl View for WriteEvent {
    type V = WriteEventView;

    open spec fn view(&self) -> WriteEventView {
        match self {
            WriteEvent::Exists(b) => WriteEventView::Exists(*b),
            WriteEvent::Used(n) => WriteEventView::Used(*n),
            WriteEvent::Done => WriteEventView::Done,
            WriteEvent::Failed(error) => WriteEventView::Failed(error@),
        }
    }
}

/// How a write begins: with the object's name checked, a new object is looked up first.
pub open spec fn write_begins(name: Seq<char>, replacing: bool) -> (StageView, WriteActionView) {
    if !object_name(name) {
        (StageView::Finished, WriteActionView::Finish(Err(ErrorView::ObjectName)))
    } else if replacing {
        (StageView::Measuring, WriteActionView::Measure)
    } else {
        (StageView::Looking, WriteActionView::LookUp)
    }
}

/// The end of a write that was refused before anything was staged.
pub open spec fn write_refused(error: ErrorView) -> (StageView, WriteActionView) {
    (StageView::Finished, WriteActionView::Finish(Err(error)))
}

/// The staging file goes before the refusal is reported.
pub open spec fn write_undone(error: ErrorView) -> (StageView, WriteActionView) {
    (StageView::Discarding(error), WriteActionView::Discard)
}

/// How a write of `len` bytes goes on after `event`, in a store of `allowance` bytes.
pub open spec fn write_step(
    stage: StageView,
    len: nat,
    allowance: nat,
    event: WriteEventView,
) -> (StageView, WriteActionView) {
    match (stage, event) {
        (StageView::Looking, WriteEventView::Exists(true)) => (
            StageView::Finished,
            WriteActionView::Finish(Ok(false)),
        ),
        (StageView::Looking, WriteEventView::Exists(false)) => (
            StageView::Measuring,
            WriteActionView::Measure,
        ),
        (StageView::Measuring, WriteEventView::Used(used)) => if used + reservation(len)
            <= allowance {
            (StageView::Staging, WriteActionView::Stage)
        } else {
            write_refused(ErrorView::QuotaExhausted)
        },
        (StageView::Staging, WriteEventView::Done) => (StageView::Filling, WriteActionView::Fill),
        (StageView::Filling, WriteEventView::Done) => (
            StageView::Remeasuring,
            WriteActionView::Measure,
        ),
        (StageView::Remeasuring, WriteEventView::Used(used)) => if used <= allowance {
            (StageView::Renaming, WriteActionView::Rename)
        } else {
            write_undone(ErrorView::AllocationExceeded)
        },
        (StageView::Renaming, WriteEventView::Done) => (StageView::Syncing, WriteActionView::Sync),
        (StageView::Syncing, WriteEventView::Done) => (
            StageView::Finished,
            WriteActionView::Finish(Ok(true)),
        ),
        (StageView::Discarding(error), _) => write_refused(error),
        (StageView::Filling, WriteEventView::Failed(error)) => write_undone(error),
        (StageView::Remeasuring, WriteEventView::Failed(error)) => write_undone(error),
        (StageView::Renaming, WriteEventView::Failed(error)) => write_undone(error),
        (StageView::Syncing, WriteEventView::Failed(error)) => write_undone(error),
        (StageView::Filling, _) => write_undone(ErrorView::Unexpected),
        (StageView::Remeasuring, _) => write_undone(ErrorView::Unexpected),
        (StageView::Renaming, _) => write_undone(ErrorView::Unexpected),
        (StageView::Syncing, _) => write_undone(ErrorView::Unexpected),
        (_, WriteEventView::Failed(error)) => write_refused(error),
        _ => write_refused(ErrorView::Unexpected),
    }
}

/// A write under way.
#[derive(Debug)]
pub struct Write {
    stage: Stage,
    len: u64,
}

impl Write {
    pub closed spec fn stage(&self) -> StageView {
        self.stage@
    }

    /// How many bytes are to be written.
    pub closed spec fn len(&self) -> nat {
        self.len as nat
    }

    /// Begins to write `len` bytes under `name`.
    ///
    /// A new object (`replacing` is false) leaves an object of that name as it is.
    fn begin(store: &Store, name: &str, len: u64, replacing: bool) -> (res: (
        Write,
        WriteAction,
    ))
        ensures
            (res.0.stage(), res.1@) == write_begins(name@, replacing),
            res.0.len() == len,
    {
        match store.path(name) {
            Err(error) => (Write { stage: Stage::Finished, len }, WriteAction::Finish(Err(error))),
            Ok(()) => if replacing {
                (Write { stage: Stage::Measuring, len }, WriteAction::Measure)
            } else {
                (Write { stage: Stage::Looking, len }, WriteAction::LookUp)
            },
        }
    }

    /// Goes on after `event`.
    pub fn next(self, store: &Store, event: WriteEvent) -> (res: (Write, WriteAction))
        ensures
            (res.0.stage(), res.1@) == write_step(
                self.stage(),
                self.len(),
                store.allowance(),
                event@,
            ),
            res.0.len() == self.len(),
    {
        let len = self.len;
        let (stage, action) = match (self.stage, event) {
            (Stage::Looking, WriteEvent::Exists(exists)) => if exists {
                (Stage::Finished, WriteAction::Finish(Ok(false)))
            } else {
                (Stage::Measuring, WriteAction::Measure)
            },
            (Stage::Measuring, WriteEvent::Used(used)) => if store.admits(used, len) {
                (Stage::Staging, WriteAction::Stage)
            } else {
                (Stage::Finished, WriteAction::Finish(Err(Error::QuotaExhausted)))
            },
            (Stage::Staging, WriteEvent::Done) => (Stage::Filling, WriteAction::Fill),
            (Stage::Filling, WriteEvent::Done) => (Stage::Remeasuring, WriteAction::Measure),
            (Stage::Remeasuring, WriteEvent::Used(used)) => if used <= store.budget() {
                (Stage::Renaming, WriteAction::Rename)
            } else {
                (Stage::Discarding(Error::AllocationExceeded), WriteAction::Discard)
            },
            (Stage::Renaming, WriteEvent::Done) => (Stage::Syncing, WriteAction::Sync),
            (Stage::Syncing, WriteEvent::Done) => (Stage::Finished, WriteAction::Finish(Ok(true))),
            (Stage::Discarding(error), _) => (Stage::Finished, WriteAction::Finish(Err(error))),
            (Stage::Filling | Stage::Remeasuring | Stage::Renaming | Stage::Syncing, event) => {
                let error = match event {
                    WriteEvent::Failed(error) => error,
                    _ => Error::Unexpected,
                };
                (Stage::Discarding(error), WriteAction::Discard)
            },
            (_, event) => {
                let error = match event {
                    WriteEvent::Failed(error) => error,
                    _ => Error::Unexpected,
                };
                (Stage::Finished, WriteAction::Finish(Err(error)))
            },
        };
        (Write { stage, len }, action)
    }
}

// ---------------------------------------------------------------------------
// What a write does to the directory

/// The directory during a write: the objects, and the staging file where there is one.
pub struct Disk {
    pub objects: Map<Seq<char>, Seq<u8>>,
    pub staged: Option<Seq<u8>>,
}

/// What `action` may make of the directory when `event` comes of it.
///
/// A write that fails may leave anything in the staging file; a rename is all or nothing.
pub open spec fn acted(
    before: Disk,
    after: Disk,
    action: WriteActionView,
    event: WriteEventView,
    name: Seq<char>,
    bytes: Seq<u8>,
) -> bool {
    match action {
        WriteActionView::LookUp => after == before && (event matches WriteEventView::Exists(b)
            ==> b == before.objects.dom().contains(name)),
        WriteActionView::Stage => after.objects == before.objects && (event is Done ==> after.staged
            is Some),
        WriteActionView::Fill => {
            &&& after.objects == before.objects
            &&& event is Done ==> after.staged == Some(bytes)
        },
        WriteActionView::Rename => if event is Done {
            &&& before.staged is Some
            &&& after.objects == before.objects.insert(name, before.staged->0)
            &&& after.staged is None
        } else {
            after == before
        },
        WriteActionView::Discard => after.objects == before.objects && (event is Done ==> after.staged
            is None),
        _ => after == before,
    }
}

/// What holds of the directory while a write is under way that began with the objects `first`.
pub open spec fn write_holds(
    stage: StageView,
    disk: Disk,
    first: Map<Seq<char>, Seq<u8>>,
    name: Seq<char>,
    bytes: Seq<u8>,
    replacing: bool,
) -> bool {
    match stage {
        StageView::Looking => disk.objects == first && !replacing,
        StageView::Measuring | StageView::Staging | StageView::Filling => {
            &&& disk.objects == first
            &&& !replacing ==> !first.dom().contains(name)
        },
        StageView::Remeasuring | StageView::Renaming => {
            &&& disk.objects == first
            &&& disk.staged == Some(bytes)
            &&& !replacing ==> !first.dom().contains(name)
        },
        StageView::Syncing => disk.objects == first.insert(name, bytes) && (!replacing
            ==> !first.dom().contains(name)),
        StageView::Discarding(_) | StageView::Finished => {
            ||| disk.objects == first
            ||| disk.objects == first.insert(name, bytes) && (!replacing ==> !first.dom().contains(
                name,
            ))
        },
    }
}

/// What a finished write reports is so.
pub open spec fn write_reports(
    action: WriteActionView,
    disk: Disk,
    first: Map<Seq<char>, Seq<u8>>,
    name: Seq<char>,
    bytes: Seq<u8>,
) -> bool {
    match action {
        WriteActionView::Finish(Ok(true)) => disk.objects == first.insert(name, bytes),
        WriteActionView::Finish(Ok(false)) => disk.objects == first && first.dom().contains(name),
        _ => true,
    }
}

/// A write begins with the directory as it is.
pub proof fn law_write_begins(disk: Disk, name: Seq<char>, bytes: Seq<u8>, replacing: bool)
    ensures
        ({
            let (stage, action) = write_begins(name, replacing);
            &&& write_holds(stage, disk, disk.objects, name, bytes, replacing)
            &&& write_reports(action, disk, disk.objects, name, bytes)
        }),
{
}

/// The action that a stage waits for.
pub open spec fn awaited(stage: StageView) -> WriteActionView {
    match stage {
        StageView::Looking => WriteActionView::LookUp,
        StageView::Measuring => WriteActionView::Measure,
        StageView::Staging => WriteActionView::Stage,
        StageView::Filling => WriteActionView::Fill,
        StageView::Remeasuring => WriteActionView::Measure,
        StageView::Renaming => WriteActionView::Rename,
        StageView::Syncing => WriteActionView::Sync,
        StageView::Discarding(_) => WriteActionView::Discard,
        StageView::Finished => WriteActionView::Measure,
    }
}

/// Objects change whole or not at all: at every point of a write, whatever fails, the directory
/// holds the objects that it began with, or those with the whole new object; a new object never
/// takes the place of another; and what the write reports in the end is what the directory holds.
pub proof fn law_write_is_atomic(
    stage: StageView,
    len: nat,
    allowance: nat,
    before: Disk,
    after: Disk,
    event: WriteEventView,
    first: Map<Seq<char>, Seq<u8>>,
    name: Seq<char>,
    bytes: Seq<u8>,
    replacing: bool,
)
    requires
        write_holds(stage, before, first, name, bytes, replacing),
        acted(before, after, awaited(stage), event, name, bytes),
        stage !is Finished,
    ensures
        ({
            let (next, action) = write_step(stage, len, allowance, event);
            &&& write_holds(next, after, first, name, bytes, replacing)
            &&& write_reports(action, after, first, name, bytes)
            &&& next is Finished || action == awaited(next)
        }),
{
}

/// Nothing is staged without room for it, and nothing is renamed into place while the directory
/// takes more than its allowance.
pub proof fn law_write_keeps_quota(stage: StageView, len: nat, allowance: nat, event: WriteEventView)
    ensures
        ({
            let (next, action) = write_step(stage, len, allowance, event);
            &&& action is Stage ==> event is Used && event->Used_0 + reservation(len) <= allowance
            &&& action is Rename ==> event is Used && event->Used_0 <= allowance
        }),
{
}

/// How many steps a write still has at most.
pub open spec fn steps_left(stage: StageView) -> nat {
    match stage {
        StageView::Looking => 9,
        StageView::Measuring => 8,
        StageView::Staging => 7,
        StageView::Filling => 6,
        StageView::Remeasuring => 5,
        StageView::Renaming => 4,
        StageView::Syncing => 3,
        StageView::Discarding(_) => 2,
        StageView::Finished => 0,
    }
}

/// A write comes to its end, whatever comes of its steps.
pub proof fn law_write_ends(stage: StageView, len: nat, allowance: nat, event: WriteEventView)
    requires
        stage !is Finished,
    ensures
        steps_left(write_step(stage, len, allowance, event).0) < steps_left(stage),
        write_step(stage, len, allowance, event).0 is Finished <==> write_step(
            stage,
            len,
            allowance,
            event,
        ).1 is Finish,
{
}

/// An object name stays inside the directory: it holds no separator and names neither the
/// directory itself nor its parent, nor a staging file nor the lock.
pub proof fn law_names_stay_inside(name: Seq<char>)
    requires
        object_name(name),
    ensures
        !name.contains('/'),
        !name.contains('\\'),
        name != "."@,
        name != ".."@,
        name != ".lock"@,
        forall|other: Seq<char>| name != #[trigger] staging_name(other),
{
    reveal_strlit(".");
    reveal_strlit("..");
    reveal_strlit(".lock");
    assert forall|other: Seq<char>| name != #[trigger] staging_name(other) by {
        assert(staging_name(other)[0] == '.');
    }
}

/// The staging file of an object.
pub open spec fn staging_name(name: Seq<char>) -> Seq<char> {
    "."@ + name + ".part"@
}

/// The staging file of an object.
pub fn staging(name: &str) -> (res: String)
    ensures
        res@ == staging_name(name@),
{
    let mut out = ".".to_owned();
    out.append(name);
    out.append(".part");
    out
}

// ---------------------------------------------------------------------------
// Listing

/// `a` comes before `b` in the order of code points, or is the same.
pub open spec fn ordered(a: Seq<char>, b: Seq<char>) -> bool
    decreases a.len(),
{
    if a.len() == 0 {
        true
    } else if b.len() == 0 {
        false
    } else if a[0] != b[0] {
        a[0] < b[0]
    } else {
        ordered(a.drop_first(), b.drop_first())
    }
}

proof fn lemma_ordered_total(a: Seq<char>, b: Seq<char>)
    ensures
        ordered(a, b) || ordered(b, a),
    decreases a.len(),
{
    if a.len() > 0 && b.len() > 0 && a[0] == b[0] {
        lemma_ordered_total(a.drop_first(), b.drop_first());
    }
}

proof fn lemma_ordered_transitive(a: Seq<char>, b: Seq<char>, c: Seq<char>)
    requires
        ordered(a, b),
        ordered(b, c),
    ensures
        ordered(a, c),
    decreases a.len(),
{
    if a.len() > 0 && b.len() > 0 && c.len() > 0 && a[0] == b[0] && b[0] == c[0] {
        lemma_ordered_transitive(a.drop_first(), b.drop_first(), c.drop_first());
    }
}

fn in_order(a: &str, b: &str) -> (res: bool)
    ensures
        res == ordered(a@, b@),
{
    let x = chars_of(a);
    let y = chars_of(b);
    let mut i: usize = 0;
    assert(x@.skip(0) =~= x@);
    assert(y@.skip(0) =~= y@);
    while i < x.len()
        invariant
            x@ == a@,
            y@ == b@,
            i <= x.len(),
            i <= y.len(),
            ordered(a@, b@) == ordered(x@.skip(i as int), y@.skip(i as int)),
        decreases x.len() - i,
    {
        if i == y.len() {
            return false;
        }
        if x[i] != y[i] {
            return x[i] < y[i];
        }
        assert(x@.skip(i as int).drop_first() =~= x@.skip(i + 1));
        assert(y@.skip(i as int).drop_first() =~= y@.skip(i + 1));
        i = i + 1;
    }
    true
}

/// The names that begin with `prefix`, in the order given, after those in `got`; the search stops
/// once `max` are found.
pub open spec fn found(names: Seq<Seq<char>>, prefix: Seq<char>, max: nat, got: Seq<Seq<char>>) -> Seq<
    Seq<char>,
>
    decreases names.len(),
{
    if names.len() == 0 {
        got
    } else {
        let more = if begins(names[0], prefix) { got.push(names[0]) } else { got };
        if more.len() >= max {
            more
        } else {
            found(names.drop_first(), prefix, max, more)
        }
    }
}

/// In the order of code points.
pub open spec fn sorted(names: Seq<Seq<char>>) -> bool {
    forall|i: int, j: int| 0 <= i <= j < names.len() ==> ordered(#[trigger] names[i], #[trigger] names[j])
}

/// Puts `name` in its place.
fn insert_sorted(names: &mut Vec<String>, name: String)
    requires
        sorted(views(old(names)@)),
    ensures
        sorted(views(final(names)@)),
        views(final(names)@).to_multiset() == views(old(names)@).to_multiset().insert(name@),
{
    let ghost before = views(names@);
    let mut i: usize = names.len();
    while i > 0 && !in_order(names[i - 1].as_str(), name.as_str())
        invariant
            i <= names.len(),
            before == views(names@),
            sorted(before),
            forall|j: int| i <= j < before.len() ==> !ordered(#[trigger] before[j], name@),
        decreases i,
    {
        assert(before[i - 1] == names@[i - 1]@);
        i = i - 1;
    }
    let ghost word = name@;
    if i > 0 {
        assert(before[i - 1] == names@[i - 1]@);
    }
    names.insert(i, name);
    proof {
        let now = views(names@);
        assert(now =~= before.insert(i as int, word));
        before.to_multiset_ensures();
        vstd::seq_lib::to_multiset_insert(before, i as int, word);
        assert forall|a: int, b: int| 0 <= a <= b < now.len() implies ordered(
            #[trigger] now[a],
            #[trigger] now[b],
        ) by {
            lemma_ordered_total(word, word);
            if a < i && b == i {
                assert(ordered(before[a], before[i - 1]));
                assert(ordered(before[i - 1], word));
                lemma_ordered_transitive(before[a], before[i - 1], word);
            } else if a == i && b > i {
                assert(now[b] == before[b - 1]);
                lemma_ordered_total(word, before[b - 1]);
            } else if a < i && b < i {
            } else if a < i {
                assert(now[b] == before[b - 1]);
                assert(ordered(before[a], before[b - 1]));
            } else if a > i {
                assert(now[a] == before[a - 1]);
                assert(now[b] == before[b - 1]);
                assert(ordered(before[a - 1], before[b - 1]));
            }
        }
    }
}

impl Store {
    /// Up to `max` of the directory's `names` that begin with `prefix`, in order.
    pub fn list(&self, names: &Vec<String>, prefix: &str, max: usize) -> (res: Vec<String>)
        ensures
            sorted(views(res@)),
            views(res@).to_multiset() == found(
                views(names@),
                prefix@,
                max as nat,
                Seq::empty(),
            ).to_multiset(),
    {
        let mut out: Vec<String> = Vec::new();
        let mut i: usize = 0;
        let ghost all = views(names@);
        let ghost mut got: Seq<Seq<char>> = Seq::empty();
        assert(all.skip(0) =~= all);
        proof {
            assert(views(out@) =~= Seq::<Seq<char>>::empty());
        }
        while i < names.len()
            invariant
                i <= names.len(),
                all == views(names@),
                sorted(views(out@)),
                views(out@).to_multiset() == got.to_multiset(),
                out@.len() == got.len(),
                found(all, prefix@, max as nat, Seq::empty()) == found(
                    all.skip(i as int),
                    prefix@,
                    max as nat,
                    got,
                ),
            decreases names.len() - i,
        {
            assert(all.skip(i as int).drop_first() =~= all.skip(i + 1));
            assert(all.skip(i as int)[0] == names@[i as int]@);
            if starts_with(names[i].as_str(), prefix) {
                let ghost n = out@.len();
                insert_sorted(&mut out, names[i].clone());
                proof {
                    got.to_multiset_ensures();
                    views(out@).to_multiset_ensures();
                    got = got.push(names@[i as int]@);
                    got.to_multiset_ensures();
                }
            }
            if out.len() >= max {
                return out;
            }
            i = i + 1;
        }
        out
    }
}

// ---------------------------------------------------------------------------
// Whole writes

/// How a directory with room answers: it has these objects and takes that many bytes.
pub open spec fn directory_answers(
    disk: Disk,
    name: Seq<char>,
    bytes: Seq<u8>,
    used: u64,
    action: WriteActionView,
) -> (Disk, WriteEventView) {
    match action {
        WriteActionView::LookUp => (disk, WriteEventView::Exists(disk.objects.contains_key(name))),
        WriteActionView::Measure => (disk, WriteEventView::Used(used)),
        WriteActionView::Stage => (
            Disk { staged: Some(Seq::empty()), ..disk },
            WriteEventView::Done,
        ),
        WriteActionView::Fill => (Disk { staged: Some(bytes), ..disk }, WriteEventView::Done),
        WriteActionView::Rename => (
            Disk { objects: disk.objects.insert(name, disk.staged->0), staged: None },
            WriteEventView::Done,
        ),
        WriteActionView::Discard => (Disk { staged: None, ..disk }, WriteEventView::Done),
        _ => (disk, WriteEventView::Done),
    }
}

/// What comes of a write within `steps` answers.
pub open spec fn write_run(
    disk: Disk,
    name: Seq<char>,
    bytes: Seq<u8>,
    used: u64,
    allowance: nat,
    turn: (StageView, WriteActionView),
    steps: nat,
) -> (Disk, Option<Result<bool, ErrorView>>)
    decreases steps,
{
    match turn.1 {
        WriteActionView::Finish(res) => (disk, Some(res)),
        action => if steps == 0 {
            (disk, None)
        } else {
            let answer = directory_answers(disk, name, bytes, used, action);
            write_run(
                answer.0,
                name,
                bytes,
                used,
                allowance,
                write_step(turn.0, bytes.len(), allowance, answer.1),
                (steps - 1) as nat,
            )
        },
    }
}

/// A write puts the bytes under the name and says so, if the name is one and there is room; an
/// object that is there already is left as it is unless it is to be replaced; and without room, or
/// with another name, nothing is written.
pub proof fn law_write_outcome(
    objects: Map<Seq<char>, Seq<u8>>,
    name: Seq<char>,
    bytes: Seq<u8>,
    used: u64,
    allowance: nat,
    replacing: bool,
)
    ensures
        ({
            let disk = Disk { objects, staged: None };
            let (after, res) = write_run(
                disk,
                name,
                bytes,
                used,
                allowance,
                write_begins(name, replacing),
                8,
            );
            let room = used + reservation(bytes.len()) <= allowance;
            let kept = !replacing && objects.contains_key(name);
            &&& !object_name(name) ==> after == disk && res == Some(
                Err::<bool, ErrorView>(ErrorView::ObjectName),
            )
            &&& object_name(name) && kept ==> after == disk && res == Some(
                Ok::<bool, ErrorView>(false),
            )
            &&& object_name(name) && !kept && !room ==> after == disk && res == Some(
                Err::<bool, ErrorView>(ErrorView::QuotaExhausted),
            )
            &&& object_name(name) && !kept && room ==> after.objects == objects.insert(name, bytes)
                && after.staged is None && res == Some(Ok::<bool, ErrorView>(true))
        }),
{
    reveal_with_fuel(write_run, 9);
}

/// What a write reserves is its length in whole blocks of 4096 bytes, and two blocks more.
pub proof fn law_reservation(len: nat)
    ensures
        reservation(len) % 4096 == 0,
        len + 8192 <= reservation(len) < len + 8192 + 4096,
{
}

/// A name of an object is letters, digits, hyphens, underscores and dots, and begins with no dot.
pub proof fn law_object_name(name: Seq<char>)
    ensures
        object_name(name) <==> name.len() > 0 && name[0] != '.' && forall|i: int|
            0 <= i < name.len() ==> {
                let c = #[trigger] name[i];
                ||| 'a' <= c <= 'z'
                ||| 'A' <= c <= 'Z'
                ||| '0' <= c <= '9'
                ||| c == '-'
                ||| c == '_'
                ||| c == '.'
            },
{
    if object_name(name) {
        assert forall|i: int| 0 <= i < name.len() implies {
            let c = #[trigger] name[i];
            ||| 'a' <= c <= 'z'
            ||| 'A' <= c <= 'Z'
            ||| '0' <= c <= '9'
            ||| c == '-'
            ||| c == '_'
            ||| c == '.'
        } by {
            assert(name_char(name[i]));
        }
    }
}

/// A list of objects holds those whose names begin with the prefix and no other, and all of them
/// unless there are more than were asked for.
pub proof fn law_objects_found(names: Seq<Seq<char>>, prefix: Seq<char>, max: nat)
    requires
        max > 0,
    ensures
        ({
            let list = found(names, prefix, max, Seq::empty());
            &&& list.len() <= max
            &&& forall|i: int|
                0 <= i < list.len() ==> begins(#[trigger] list[i], prefix) && names.contains(list[i])
            &&& list.len() < max ==> forall|name: Seq<char>| #[trigger]
                names.contains(name) && begins(name, prefix) ==> list.contains(name)
        }),
{
    lemma_found(names, prefix, max, Seq::empty());
}

proof fn lemma_found(names: Seq<Seq<char>>, prefix: Seq<char>, max: nat, got: Seq<Seq<char>>)
    requires
        got.len() < max,
    ensures
        ({
            let list = found(names, prefix, max, got);
            &&& list.len() <= max
            &&& forall|i: int|
                0 <= i < list.len() ==> got.contains(#[trigger] list[i]) || (begins(list[i], prefix)
                    && names.contains(list[i]))
            &&& forall|i: int| 0 <= i < got.len() ==> list.contains(#[trigger] got[i])
            &&& list.len() < max ==> forall|name: Seq<char>| #[trigger]
                names.contains(name) && begins(name, prefix) ==> list.contains(name)
        }),
    decreases names.len(),
{
    let list = found(names, prefix, max, got);
    if names.len() == 0 {
        assert forall|i: int| 0 <= i < got.len() implies list.contains(#[trigger] got[i]) by {
            assert(list[i] == got[i]);
        }
    } else {
        let rest = names.drop_first();
        let more = if begins(names[0], prefix) {
            got.push(names[0])
        } else {
            got
        };
        if more.len() < max {
            lemma_found(rest, prefix, max, more);
        }
        assert forall|i: int| 0 <= i < more.len() implies list.contains(#[trigger] more[i]) by {
            if more.len() >= max {
                assert(list[i] == more[i]);
            }
        }
        assert forall|i: int| 0 <= i < list.len() implies got.contains(#[trigger] list[i]) || (
        begins(list[i], prefix) && names.contains(list[i])) by {
            assert(names[0] == names[0]);
            if more.contains(list[i]) {
                let k = choose|k: int| 0 <= k < more.len() && more[k] == list[i];
                if k < got.len() {
                    assert(got[k] == list[i]);
                } else {
                    assert(names.contains(names[0]));
                }
            } else {
                let k = choose|k: int| 0 <= k < rest.len() && rest[k] == list[i];
                assert(names[k + 1] == list[i]);
            }
        }
        assert forall|i: int| 0 <= i < got.len() implies list.contains(#[trigger] got[i]) by {
            assert(more[i] == got[i]);
        }
        if list.len() < max {
            assert forall|name: Seq<char>| #[trigger]
                names.contains(name) && begins(name, prefix) implies list.contains(name) by {
                let k = choose|k: int| 0 <= k < names.len() && names[k] == name;
                if k == 0 {
                    assert(more[more.len() - 1] == name);
                } else {
                    assert(rest[k - 1] == name);
                    assert(rest.contains(name));
                }
            }
        }
    }
}

/// What a directory takes is what it takes itself and what all in it take; a file takes its length
/// or its blocks, whichever is more; and a link or a device in it is refused.
pub proof fn law_size_of_a_directory(entry: Entry, n: nat)
    requires
        n < entry.children@.len(),
    ensures
        entry.kind == Kind::Directory ==> taken(entry) == taken_children(
            entry,
            entry.children@.len(),
        ),
        taken_children(entry, 0) == Ok::<nat, ErrorView>(own_size(entry)),
        taken_children(entry, n) is Ok && taken(entry.children@[n as int]) is Ok
            && taken_children(entry, n)->Ok_0 + taken(entry.children@[n as int])->Ok_0 <= u64::MAX
            ==> taken_children(entry, n + 1) == Ok::<nat, ErrorView>(
            taken_children(entry, n)->Ok_0 + taken(entry.children@[n as int])->Ok_0,
        ),
        entry.kind == Kind::Directory && (entry.children@[n as int].kind == Kind::Symlink
            || entry.children@[n as int].kind == Kind::Special) ==> taken(entry) is Err,
        entry.len <= own_size(entry),
        entry.blocks * 512 <= u64::MAX ==> entry.blocks * 512 <= own_size(entry),
        entry.blocks * 512 <= u64::MAX ==> own_size(entry) == entry.len || own_size(entry)
            == entry.blocks * 512,
{
    let child = entry.children@[n as int];
    if entry.kind == Kind::Directory && (child.kind == Kind::Symlink || child.kind == Kind::Special) {
        assert(taken_children(entry, n + 1) is Err);
        lemma_refused(entry, n + 1, entry.children@.len());
    }
}

/// The objects of a prefix are found in the order given, each as often as it was given, and the
/// first of them if there are more than were asked for.
pub proof fn law_first_objects(names: Seq<Seq<char>>, prefix: Seq<char>, max: nat)
    requires
        max > 0,
    ensures
        ({
            let all = names.filter(|name: Seq<char>| begins(name, prefix));
            found(names, prefix, max, Seq::empty()) == if all.len() <= max {
                all
            } else {
                all.take(max as int)
            }
        }),
{
    lemma_found_first(names, prefix, max, Seq::empty());
    let all = names.filter(|name: Seq<char>| begins(name, prefix));
    assert(Seq::<Seq<char>>::empty() + all =~= all);
}

proof fn lemma_found_first(
    names: Seq<Seq<char>>,
    prefix: Seq<char>,
    max: nat,
    got: Seq<Seq<char>>,
)
    requires
        got.len() < max,
    ensures
        ({
            let all = got + names.filter(|name: Seq<char>| begins(name, prefix));
            found(names, prefix, max, got) == if all.len() <= max {
                all
            } else {
                all.take(max as int)
            }
        }),
    decreases names.len(),
{
    let fits = |name: Seq<char>| begins(name, prefix);
    let all = got + names.filter(fits);
    if names.len() == 0 {
        reveal(Seq::filter);
        assert(all =~= got);
    } else {
        let first = seq![names[0]];
        let rest = names.drop_first();
        assert(names =~= first + rest);
        Seq::filter_distributes_over_add(first, rest, fits);
        assert(first.filter(fits) == if begins(names[0], prefix) {
            first
        } else {
            Seq::empty()
        }) by {
            reveal(Seq::filter);
            reveal_with_fuel(Seq::filter, 2);
            assert(first.drop_last() =~= Seq::<Seq<char>>::empty());
            assert(Seq::<Seq<char>>::empty().push(names[0]) =~= first);
        }
        let more = if begins(names[0], prefix) {
            got.push(names[0])
        } else {
            got
        };
        assert(all =~= more + rest.filter(fits));
        if more.len() >= max {
            assert(all.take(max as int) =~= more);
            if all.len() <= max {
                assert(all =~= more);
            }
        } else {
            lemma_found_first(rest, prefix, max, more);
        }
    }
}

/// What fails before anything is staged ends a write at once; what fails later, or takes more than
/// the allowance after all, ends it after the staged file was discarded, whatever comes of that.
pub proof fn law_failed_write(
    len: nat,
    allowance: nat,
    used: u64,
    error: ErrorView,
    event: WriteEventView,
)
    ensures
        ({
            let failed = WriteEventView::Failed(error);
            let ends = (StageView::Finished, WriteActionView::Finish(Err(error)));
            let undoes = (StageView::Discarding(error), WriteActionView::Discard);
            &&& write_step(StageView::Looking, len, allowance, failed) == ends
            &&& write_step(StageView::Measuring, len, allowance, failed) == ends
            &&& write_step(StageView::Staging, len, allowance, failed) == ends
            &&& write_step(StageView::Filling, len, allowance, failed) == undoes
            &&& write_step(StageView::Remeasuring, len, allowance, failed) == undoes
            &&& write_step(StageView::Renaming, len, allowance, failed) == undoes
            &&& write_step(StageView::Syncing, len, allowance, failed) == undoes
            &&& write_step(StageView::Discarding(error), len, allowance, event) == ends
            &&& used > allowance ==> write_step(
                StageView::Remeasuring,
                len,
                allowance,
                WriteEventView::Used(used),
            ) == (StageView::Discarding(ErrorView::AllocationExceeded), WriteActionView::Discard)
        }),
{
}

/// A link and a device are refused for what they are, a file takes its own size, and what cannot be
/// measured in a directory is what the directory is refused for; so is a sum of more than 64 bits.
pub proof fn law_unmeasured(entry: Entry, n: nat)
    requires
        n < entry.children@.len(),
    ensures
        entry.kind == Kind::Symlink ==> taken(entry) == Err::<nat, ErrorView>(
            ErrorView::SymlinkForbidden,
        ),
        entry.kind == Kind::Special ==> taken(entry) == Err::<nat, ErrorView>(
            ErrorView::SpecialForbidden,
        ),
        entry.kind == Kind::File ==> taken(entry) == Ok::<nat, ErrorView>(own_size(entry)),
        taken_children(entry, n) is Err ==> taken_children(entry, n + 1) == taken_children(entry, n),
        taken_children(entry, n) is Ok && taken(entry.children@[n as int]) is Err
            ==> taken_children(entry, n + 1) == taken(entry.children@[n as int]),
        taken_children(entry, n) is Ok && taken(entry.children@[n as int]) is Ok && taken_children(
            entry,
            n,
        )->Ok_0 + taken(entry.children@[n as int])->Ok_0 > u64::MAX ==> taken_children(entry, n + 1)
            == Err::<nat, ErrorView>(ErrorView::SizeOverflow),
        entry.blocks * 512 > u64::MAX ==> own_size(entry) == u64::MAX,
{
}

/// Each name has a staging file of its own, which no object has as its name.
pub proof fn law_staging_names(one: Seq<char>, other: Seq<char>)
    ensures
        staging_name(one) == staging_name(other) ==> one == other,
        !object_name(staging_name(one)),
        ends(staging_name(one), ".part"@),
{
    reveal_strlit(".");
    reveal_strlit(".part");
    let a = staging_name(one);
    let b = staging_name(other);
    assert(a[0] == '.');
    assert(a.subrange(a.len() - 5, a.len() as int) =~= ".part"@);
    if a == b {
        assert(a.subrange(1, a.len() - 5) =~= one);
        assert(b.subrange(1, b.len() - 5) =~= other);
    }
}

} // verus!
