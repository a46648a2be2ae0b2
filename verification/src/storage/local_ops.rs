//! Deleting, renaming and reading files of the local disk.

use vstd::prelude::*;
use vstd::string::*;

use crate::error::{
    as_conflict, as_missing, conflict_or, missing_or, IoError, IoFailure, StorageError, Step,
};
use crate::storage::capability::option_view;
use crate::storage::local::{
    etag_of, local_name, path_for, FileStat, LocalBackend, StoreView,
};
use crate::storage::names::{extension_of, is_component, join_name, stored_name, valid_component};
use crate::storage::{FileData, FileMetadata};

verus! {

/// Bytes that are read from a file at once.
pub const READ_CHUNK: u64 = 65536;

/// What a deletion has to do.
#[derive(Debug, PartialEq, Eq)]
pub enum DeletePlan {
    /// There is no such file.
    Absent,
    /// The capability is not that of the file.
    Forbidden,
    /// The file of this name is to be removed.
    Remove(String),
}

/// What came of opening a file for reading.
#[derive(Debug, PartialEq, Eq)]
pub enum OpenOutcome {
    Failed(IoError),
    /// The file was opened, and its metadata could not be read.
    MetadataFailed(String),
    /// The file was opened; the flag tells whether it is a regular file.
    Opened(bool),
}

/// Whether an opened file can be read.
pub open spec fn open_result(outcome: OpenOutcome) -> Result<(), StorageError> {
    match outcome {
        OpenOutcome::Failed(e) => Err(missing_or(Step::OpenRegular, e)),
        OpenOutcome::MetadataFailed(e) => Err(
            StorageError::Io(IoFailure::Failed(Step::FileMetadata, e)),
        ),
        OpenOutcome::Opened(regular) => if regular {
            Ok(())
        } else {
            Err(StorageError::Io(IoFailure::NotRegular))
        },
    }
}

/// Tells whether an opened file can be read: only regular files can.
pub fn open_regular(outcome: OpenOutcome) -> (r: Result<(), StorageError>)
    ensures
        r == open_result(outcome),
{
    match outcome {
        OpenOutcome::Failed(e) => Err(as_missing(Step::OpenRegular, e)),
        OpenOutcome::MetadataFailed(e) => Err(
            StorageError::Io(IoFailure::Failed(Step::FileMetadata, e)),
        ),
        OpenOutcome::Opened(regular) => if regular {
            Ok(())
        } else {
            Err(StorageError::Io(IoFailure::NotRegular))
        },
    }
}

/// What a deletion tells.
pub open spec fn delete_result(outcome: Result<(), IoError>) -> Result<bool, StorageError> {
    match outcome {
        Ok(_) => Ok(true),
        Err(IoError::NotFound(_)) => Ok(false),
        Err(e) => Err(StorageError::Io(IoFailure::Failed(Step::Delete, e.text()))),
    }
}

impl LocalBackend {
    /// What is to be done to delete `id`. A capability must be that of the file.
    pub fn delete(&self, id: &str, capability: Option<&str>) -> (r: DeletePlan)
        ensures
            match r {
                DeletePlan::Absent => !self@.extensions.dom().contains(id@),
                DeletePlan::Forbidden => self@.extensions.dom().contains(id@) && !self@.allows(
                    id@,
                    option_view(capability),
                ),
                DeletePlan::Remove(name) => self@.extensions.dom().contains(id@) && self@.allows(
                    id@,
                    option_view(capability),
                ) && name@ == stored_name(id@, self@.extensions[id@]),
            },
    {
        let ext = match self.extension(id) {
            Some(ext) => ext,
            None => return DeletePlan::Absent,
        };
        if !self.allows(id, capability) {
            return DeletePlan::Forbidden;
        }
        DeletePlan::Remove(join_name(id, ext.as_str()))
    }

    /// Takes note of what came of removing the file of `id`. Returns `Ok(true)` if it was deleted
    /// and `Ok(false)` if it was not there.
    pub fn delete_done(&mut self, id: &str, outcome: Result<(), IoError>) -> (r: Result<
        bool,
        StorageError,
    >)
        ensures
            r == delete_result(outcome),
            final(self)@ == (if outcome is Ok {
                old(self)@.deleted(id@)
            } else {
                old(self)@
            }),
    {
        match outcome {
            Ok(_) => {
                self.forget(id);
                Ok(true)
            },
            Err(IoError::NotFound(_)) => Ok(false),
            Err(IoError::AlreadyExists(e)) => Err(
                StorageError::Io(IoFailure::Failed(Step::Delete, e)),
            ),
            Err(IoError::Other(e)) => Err(StorageError::Io(IoFailure::Failed(Step::Delete, e))),
        }
    }

    /// Takes note of a file that was opened and read: `stat` is its metadata, `data` its contents.
    pub fn get_done(
        &mut self,
        id: &str,
        name: &str,
        stat: Result<FileStat, String>,
        data: Result<Vec<u8>, String>,
    ) -> (r: Result<FileData, StorageError>)
        ensures
            match (stat, data) {
                (Err(e), _) => r == Err::<FileData, StorageError>(
                    StorageError::Io(IoFailure::Failed(Step::Metadata, e)),
                ) && final(self)@ == old(self)@,
                (Ok(_), Err(e)) => r == Err::<FileData, StorageError>(
                    StorageError::Io(IoFailure::Failed(Step::Read, e)),
                ) && final(self)@ == old(self)@,
                (Ok(stat), Ok(data)) => {
                    &&& r matches Ok(file)
                    &&& file.data == data
                    &&& file.meta@ == (stat.len, etag_of(stat), extension_of(name@))
                    &&& final(self)@ == (StoreView {
                        metadata: old(self)@.metadata.insert(id@, file.meta@),
                        ..old(self)@
                    })
                },
            },
    {
        let stat = match stat {
            Ok(stat) => stat,
            Err(e) => return Err(StorageError::Io(IoFailure::Failed(Step::Metadata, e))),
        };
        let data = match data {
            Ok(data) => data,
            Err(e) => return Err(StorageError::Io(IoFailure::Failed(Step::Read, e))),
        };
        let meta = self.note_metadata(id, name, &stat);
        Ok(FileData { data, meta })
    }

    /// The name of the file whose bytes from `start` to `end`, both included, are to be read.
    /// `size` is the size of the file.
    pub fn get_range_stream(&self, id: &str, size: u64, start: u64, end: u64) -> (r: Result<
        String,
        StorageError,
    >)
        ensures
            match r {
                Ok(name) => self@.resolved(id@) == Some(name@) && start <= size && end < size,
                Err(e) => if self@.resolved(id@) is None {
                    e == StorageError::NotFound
                } else {
                    (start > size || end >= size) && e == StorageError::Io(
                        IoFailure::OutOfBounds(start, end, size),
                    )
                },
            },
    {
        let name = match self.resolve_path(id) {
            Some(name) => name,
            None => return Err(StorageError::NotFound),
        };
        if start > size || end >= size {
            return Err(StorageError::Io(IoFailure::OutOfBounds(start, end, size)));
        }
        Ok(name)
    }
}

/// What a stream of a stored file gives next.
#[derive(Debug, PartialEq, Eq)]
pub enum StreamItem {
    /// The bytes that were read.
    Chunk,
    /// An error.
    Failed(StorageError),
    /// Nothing more.
    End,
}

/// What a read of a whole file gives.
pub open spec fn stream_result(read: Result<usize, String>) -> StreamItem {
    match read {
        Ok(n) => if n == 0 {
            StreamItem::End
        } else {
            StreamItem::Chunk
        },
        Err(e) => StreamItem::Failed(StorageError::Io(IoFailure::Failed(Step::Read, e))),
    }
}

/// What a read of a whole file gives: nothing read is the end of the file.
pub fn stream_item(read: Result<usize, String>) -> (r: StreamItem)
    ensures
        r == stream_result(read),
{
    match read {
        Ok(n) => if n == 0 {
            StreamItem::End
        } else {
            StreamItem::Chunk
        },
        Err(e) => StreamItem::Failed(StorageError::Io(IoFailure::Failed(Step::Read, e))),
    }
}

/// A byte range that is being read.
#[derive(Debug, Clone, Copy, PartialEq, Eq, Structural)]
pub struct RangeRead {
    /// Bytes that are still to be read.
    pub remaining: u64,
}

/// How many bytes are to be read next.
pub open spec fn next_read(remaining: u64) -> u64 {
    if remaining < READ_CHUNK {
        remaining
    } else {
        READ_CHUNK
    }
}

/// What a read of a range gives.
pub open spec fn range_item(read: Result<usize, String>) -> StreamItem {
    match read {
        Ok(n) => if n == 0 {
            StreamItem::Failed(StorageError::Io(IoFailure::UnexpectedEof))
        } else {
            StreamItem::Chunk
        },
        Err(e) => StreamItem::Failed(StorageError::Io(IoFailure::Failed(Step::Read, e))),
    }
}

/// Bytes that are still to be read after a read. Nothing is read after an error.
pub open spec fn range_rest(remaining: u64, read: Result<usize, String>) -> u64 {
    match read {
        Ok(n) => if n <= remaining && n > 0 {
            (remaining - n) as u64
        } else {
            0
        },
        Err(_) => 0,
    }
}

impl RangeRead {
    /// A read of the bytes from `start` to `end`, both included.
    pub fn new(start: u64, end: u64) -> (r: RangeRead)
        requires
            start <= end,
            end - start < u64::MAX,
        ensures
            r.remaining == end - start + 1,
    {
        RangeRead { remaining: end - start + 1 }
    }

    /// How many bytes are to be read next; none where the range is complete.
    pub fn next_len(&self) -> (r: u64)
        ensures
            r == next_read(self.remaining),
    {
        if self.remaining < READ_CHUNK {
            self.remaining
        } else {
            READ_CHUNK
        }
    }

    /// Goes on after a read of at most as many bytes as were asked for.
    pub fn step(self, read: Result<usize, String>) -> (r: (RangeRead, StreamItem))
        requires
            read matches Ok(n) ==> n <= next_read(self.remaining),
        ensures
            r.0.remaining == range_rest(self.remaining, read),
            r.1 == range_item(read),
    {
        match read {
            Ok(n) => if n == 0 {
                (
                    RangeRead { remaining: 0 },
                    StreamItem::Failed(StorageError::Io(IoFailure::UnexpectedEof)),
                )
            } else {
                (RangeRead { remaining: self.remaining - n as u64 }, StreamItem::Chunk)
            },
            Err(e) => (
                RangeRead { remaining: 0 },
                StreamItem::Failed(StorageError::Io(IoFailure::Failed(Step::Read, e))),
            ),
        }
    }
}

/// Bytes that are still to be read after successful reads of the given sizes.
pub open spec fn rest_after(remaining: u64, reads: Seq<usize>) -> u64
    decreases reads.len(),
{
    if reads.len() == 0 {
        remaining
    } else {
        range_rest(rest_after(remaining, reads.drop_last()), Ok(reads.last()))
    }
}

/// The sum of the sizes of reads.
pub open spec fn read_total(reads: Seq<usize>) -> nat
    decreases reads.len(),
{
    if reads.len() == 0 {
        0
    } else {
        read_total(reads.drop_last()) + reads.last() as nat
    }
}

/// Whether every read gave something, and no more than was asked for.
pub open spec fn reads_allowed(remaining: u64, reads: Seq<usize>) -> bool
    decreases reads.len(),
{
    reads.len() > 0 ==> reads_allowed(remaining, reads.drop_last()) && 0 < reads.last()
        <= next_read(rest_after(remaining, reads.drop_last()))
}

/// A range that is read to its end without an error gives exactly its bytes: what was read and
/// what is left always make up the range.
pub proof fn range_gives_exactly_its_bytes(remaining: u64, reads: Seq<usize>)
    requires
        reads_allowed(remaining, reads),
    ensures
        read_total(reads) + rest_after(remaining, reads) == remaining,
        rest_after(remaining, reads) == 0 ==> read_total(reads) == remaining,
    decreases reads.len(),
{
    if reads.len() > 0 {
        range_gives_exactly_its_bytes(remaining, reads.drop_last());
    }
}

/// What a rename has to do next.
#[derive(Debug, PartialEq, Eq)]
pub enum RenameStep {
    /// Create the reservation file of the new ID, which must not exist.
    Reserve,
    /// Look at the file of the old ID, without following links.
    StatSource,
    /// Link the file of the old ID to the name of the new one, which must not exist.
    Link,
    /// Remove the file of the old ID.
    RemoveSource,
    /// Remove the file of the new ID.
    RemoveTarget { error: StorageError },
    /// Remove the reservation file.
    Release { result: Result<(), StorageError> },
    /// Nothing: the work is over.
    Finished { result: Result<(), StorageError> },
}

/// What came of a step.
#[derive(Debug, PartialEq, Eq)]
pub enum RenameEvent {
    Done,
    Failed(IoError),
    /// The file is there; the flag tells whether it is a regular file.
    Found(bool),
}

/// A file whose ID is being changed.
#[derive(Debug, PartialEq, Eq)]
pub struct LocalRename {
    pub old_id: String,
    pub new_id: String,
    /// The extension of the file, once the new ID is reserved.
    pub ext: String,
    pub step: RenameStep,
}

/// A rename as it stands.
#[verifier::ext_equal]
pub struct RenameView {
    pub old_id: Seq<char>,
    pub new_id: Seq<char>,
    pub ext: Seq<char>,
    pub step: RenameStep,
}

impl View for LocalRename {
    type V = RenameView;

    open spec fn view(&self) -> RenameView {
        RenameView {
            old_id: self.old_id@,
            new_id: self.new_id@,
            ext: self.ext@,
            step: self.step,
        }
    }
}

/// The index after the event: once the old file is gone, the new ID takes its place.
pub open spec fn rename_store_after(rename: RenameView, store: StoreView, event: RenameEvent) -> StoreView {
    match (rename.step, event) {
        (RenameStep::RemoveSource, RenameEvent::Done) => store.renamed(
            rename.old_id,
            rename.new_id,
            rename.ext,
        ),
        _ => store,
    }
}

/// The extension after the event.
pub open spec fn rename_ext_after(rename: RenameView, store: StoreView, event: RenameEvent) -> Seq<char> {
    match (rename.step, event) {
        (RenameStep::Reserve, RenameEvent::Done) => if !store.extensions.dom().contains(
            rename.new_id,
        ) && store.extensions.dom().contains(rename.old_id) {
            store.extensions[rename.old_id]
        } else {
            rename.ext
        },
        _ => rename.ext,
    }
}

/// What is to be done after the event. An event that does not answer the step changes nothing.
pub open spec fn rename_step_after(rename: RenameView, store: StoreView, event: RenameEvent) -> RenameStep {
    match (rename.step, event) {
        (RenameStep::Reserve, RenameEvent::Done) => if store.extensions.dom().contains(
            rename.new_id,
        ) {
            RenameStep::Release { result: Err(StorageError::Conflict) }
        } else if !store.extensions.dom().contains(rename.old_id) {
            RenameStep::Release { result: Err(StorageError::NotFound) }
        } else {
            RenameStep::StatSource
        },
        (RenameStep::Reserve, RenameEvent::Failed(e)) => RenameStep::Finished {
            result: Err(conflict_or(Step::ReserveId, e)),
        },
        (RenameStep::StatSource, RenameEvent::Found(regular)) => if !regular {
            RenameStep::Release {
                result: Err(StorageError::Io(IoFailure::RenameSourceNotRegular)),
            }
        } else if local_name(rename.new_id, rename.ext) is None {
            RenameStep::Release {
                result: Err(StorageError::Io(IoFailure::InvalidStoragePath)),
            }
        } else {
            RenameStep::Link
        },
        (RenameStep::StatSource, RenameEvent::Failed(_)) => RenameStep::Release {
            result: Err(StorageError::NotFound),
        },
        (RenameStep::Link, RenameEvent::Done) => RenameStep::RemoveSource,
        (RenameStep::Link, RenameEvent::Failed(e)) => RenameStep::Release {
            result: Err(conflict_or(Step::RenameLink, e)),
        },
        (RenameStep::RemoveSource, RenameEvent::Done) => RenameStep::Release {
            result: Ok(()),
        },
        (RenameStep::RemoveSource, RenameEvent::Failed(e)) => RenameStep::RemoveTarget {
            error: StorageError::Io(IoFailure::Failed(Step::RenameCleanup, e.text())),
        },
        (RenameStep::RemoveTarget { error }, _) => RenameStep::Release { result: Err(error) },
        (RenameStep::Release { result }, _) => RenameStep::Finished { result },
        (step, _) => step,
    }
}

/// The rename after the event.
pub open spec fn rename_after(
    rename: RenameView,
    store: StoreView,
    event: RenameEvent,
) -> RenameView {
    RenameView {
        ext: rename_ext_after(rename, store, event),
        step: rename_step_after(rename, store, event),
        ..rename
    }
}

impl LocalRename {
    /// Starts a rename. A capability must be that of the file.
    pub fn rename(
        backend: &LocalBackend,
        old_id: &str,
        new_id: &str,
        capability: Option<&str>,
    ) -> (w: LocalRename)
        ensures
            w.old_id@ == old_id@,
            w.new_id@ == new_id@,
            w.step == (if backend@.extensions.dom().contains(old_id@) && !backend@.allows(
                old_id@,
                option_view(capability),
            ) {
                RenameStep::Finished { result: Err(StorageError::Forbidden) }
            } else if !is_component(new_id@) {
                RenameStep::Finished { result: Err(StorageError::Io(IoFailure::InvalidLogicalId)) }
            } else {
                RenameStep::Reserve
            }),
    {
        let step = if backend.contains(old_id) && !backend.allows(old_id, capability) {
            RenameStep::Finished { result: Err(StorageError::Forbidden) }
        } else if !valid_component(new_id) {
            RenameStep::Finished { result: Err(StorageError::Io(IoFailure::InvalidLogicalId)) }
        } else {
            RenameStep::Reserve
        };
        LocalRename {
            old_id: old_id.to_owned(),
            new_id: new_id.to_owned(),
            ext: "".to_owned(),
            step,
        }
    }

    /// The name of the file of the old ID.
    pub fn source_name(&self) -> (r: String)
        ensures
            r@ == stored_name(self.old_id@, self.ext@),
    {
        join_name(self.old_id.as_str(), self.ext.as_str())
    }

    /// The name of the file of the new ID.
    pub fn target_name(&self) -> (r: String)
        ensures
            r@ == stored_name(self.new_id@, self.ext@),
    {
        join_name(self.new_id.as_str(), self.ext.as_str())
    }

    /// Goes on with what came of the step.
    pub fn step(self, backend: &mut LocalBackend, event: RenameEvent) -> (w: LocalRename)
        ensures
            w@ == rename_after(self@, old(backend)@, event),
            final(backend)@ == rename_store_after(self@, old(backend)@, event),
    {
        let LocalRename { old_id, new_id, ext, step } = self;
        match (step, event) {
            (RenameStep::Reserve, RenameEvent::Done) => {
                if backend.contains(new_id.as_str()) {
                    let step = RenameStep::Release { result: Err(StorageError::Conflict) };
                    return LocalRename { old_id, new_id, ext, step };
                }
                match backend.extension(old_id.as_str()) {
                    None => {
                        let step = RenameStep::Release { result: Err(StorageError::NotFound) };
                        LocalRename { old_id, new_id, ext, step }
                    },
                    Some(found) => LocalRename {
                        old_id,
                        new_id,
                        ext: found,
                        step: RenameStep::StatSource,
                    },
                }
            },
            (RenameStep::Reserve, RenameEvent::Failed(e)) => {
                let step = RenameStep::Finished { result: Err(as_conflict(Step::ReserveId, e)) };
                LocalRename { old_id, new_id, ext, step }
            },
            (RenameStep::StatSource, RenameEvent::Found(regular)) => {
                let step = if !regular {
                    RenameStep::Release {
                        result: Err(StorageError::Io(IoFailure::RenameSourceNotRegular)),
                    }
                } else {
                    match path_for(new_id.as_str(), ext.as_str()) {
                        None => RenameStep::Release {
                            result: Err(StorageError::Io(IoFailure::InvalidStoragePath)),
                        },
                        Some(_) => RenameStep::Link,
                    }
                };
                LocalRename { old_id, new_id, ext, step }
            },
            (RenameStep::StatSource, RenameEvent::Failed(_)) => {
                let step = RenameStep::Release { result: Err(StorageError::NotFound) };
                LocalRename { old_id, new_id, ext, step }
            },
            (RenameStep::Link, RenameEvent::Done) => LocalRename {
                old_id,
                new_id,
                ext,
                step: RenameStep::RemoveSource,
            },
            (RenameStep::Link, RenameEvent::Failed(e)) => {
                let step = RenameStep::Release { result: Err(as_conflict(Step::RenameLink, e)) };
                LocalRename { old_id, new_id, ext, step }
            },
            (RenameStep::RemoveSource, RenameEvent::Done) => {
                backend.reassign(old_id.as_str(), new_id.as_str(), ext.as_str());
                LocalRename { old_id, new_id, ext, step: RenameStep::Release { result: Ok(()) } }
            },
            (RenameStep::RemoveSource, RenameEvent::Failed(e)) => {
                let error = StorageError::Io(
                    IoFailure::Failed(Step::RenameCleanup, e.into_text()),
                );
                LocalRename { old_id, new_id, ext, step: RenameStep::RemoveTarget { error } }
            },
            (RenameStep::RemoveTarget { error }, _) => LocalRename {
                old_id,
                new_id,
                ext,
                step: RenameStep::Release { result: Err(error) },
            },
            (RenameStep::Release { result }, _) => LocalRename {
                old_id,
                new_id,
                ext,
                step: RenameStep::Finished { result },
            },
            (step, _) => LocalRename { old_id, new_id, ext, step },
        }
    }
}

/// A rename together with the index and the disk: whether the reservation, the old file and the
/// new one are there, where the reservation and the new file count as gone once their removal was
/// asked for.
#[verifier::ext_equal]
pub struct RenameRun {
    pub rename: RenameView,
    pub store: StoreView,
    pub reservation: bool,
    pub source: bool,
    pub target: bool,
}

/// The run after one more event.
pub open spec fn rename_advance(run: RenameRun, event: RenameEvent) -> RenameRun {
    RenameRun {
        rename: rename_after(run.rename, run.store, event),
        store: rename_store_after(run.rename, run.store, event),
        reservation: match run.rename.step {
            RenameStep::Reserve => event is Done,
            RenameStep::Release { .. } => false,
            _ => run.reservation,
        },
        source: run.source && !(run.rename.step is RemoveSource && event is Done),
        target: match run.rename.step {
            RenameStep::Link => event is Done,
            RenameStep::RemoveTarget { .. } => false,
            _ => run.target,
        },
    }
}

/// The run after a sequence of events.
pub open spec fn rename_run(run: RenameRun, events: Seq<RenameEvent>) -> RenameRun
    decreases events.len(),
{
    if events.len() == 0 {
        run
    } else {
        rename_advance(rename_run(run, events.drop_last()), events.last())
    }
}

/// A rename that has done nothing yet.
pub open spec fn rename_start(rename: RenameView, store: StoreView) -> RenameRun {
    RenameRun { rename, store, reservation: false, source: true, target: false }
}

/// What holds of a rename that ends with `result`.
pub open spec fn rename_outcome(
    run: RenameRun,
    rename: RenameView,
    before: StoreView,
    result: Result<(), StorageError>,
) -> bool {
    &&& run.target == (result is Ok)
    &&& run.source == (result is Err)
    &&& result is Err ==> run.store == before
    &&& result is Ok ==> before.extensions.dom().contains(rename.old_id)
        && !before.extensions.dom().contains(rename.new_id) && run.store == before.renamed(
        rename.old_id,
        rename.new_id,
        before.extensions[rename.old_id],
    )
}

spec fn rename_holds(run: RenameRun, rename: RenameView, before: StoreView) -> bool {
    let ready = before.extensions.dom().contains(rename.old_id)
        && !before.extensions.dom().contains(rename.new_id) && run.rename.ext
        == before.extensions[rename.old_id];
    &&& run.rename.old_id == rename.old_id
    &&& run.rename.new_id == rename.new_id
    &&& match run.rename.step {
        RenameStep::Reserve => !run.reservation && run.source && !run.target && run.store
            == before,
        RenameStep::StatSource | RenameStep::Link => ready && run.reservation && run.source
            && !run.target && run.store == before,
        RenameStep::RemoveSource => ready && run.reservation && run.source && run.target
            && run.store == before,
        RenameStep::RemoveTarget { .. } => run.reservation && run.source && run.target && run.store
            == before,
        RenameStep::Release { result } => run.reservation && rename_outcome(
            run,
            rename,
            before,
            result,
        ),
        RenameStep::Finished { result } => !run.reservation && rename_outcome(
            run,
            rename,
            before,
            result,
        ),
    }
}

proof fn lemma_rename_run(rename: RenameView, before: StoreView, events: Seq<RenameEvent>)
    requires
        rename.step is Reserve,
    ensures
        rename_holds(rename_run(rename_start(rename, before), events), rename, before),
    decreases events.len(),
{
    if events.len() > 0 {
        lemma_rename_run(rename, before, events.drop_last());
    }
}

/// Whatever happens on the way, a rename that has finished holds no reservation, and exactly one
/// of the two files is there: the new one where it succeeded, the old one where it failed. The
/// index follows the disk, and a stored ID is never taken over.
pub proof fn finished_rename_is_all_or_nothing(
    rename: RenameView,
    before: StoreView,
    events: Seq<RenameEvent>,
)
    requires
        rename.step is Reserve,
    ensures
        ({
            let run = rename_run(rename_start(rename, before), events);
            run.rename.step matches RenameStep::Finished { result } ==> !run.reservation
                && rename_outcome(run, rename, before, result)
        }),
{
    lemma_rename_run(rename, before, events);
}

/// A bearer may change a file exactly where the file was stored with the capability of the bearer.
pub proof fn stored_capability_is_required(
    store: StoreView,
    id: Seq<char>,
    ext: Seq<char>,
    stored_with: Option<Seq<char>>,
    presented: Seq<char>,
)
    ensures
        store.stored(id, ext, stored_with).allows(id, Some(presented)) == (stored_with == Some(
            presented,
        )),
{
}

/// What happens to other files does not change who may change a file.
pub proof fn capabilities_are_per_file(
    store: StoreView,
    id: Seq<char>,
    other: Seq<char>,
    new_id: Seq<char>,
    ext: Seq<char>,
    stored_with: Option<Seq<char>>,
    presented: Seq<char>,
)
    requires
        other != id,
        new_id != id,
    ensures
        store.stored(other, ext, stored_with).allows(id, Some(presented)) == store.allows(
            id,
            Some(presented),
        ),
        store.deleted(other).allows(id, Some(presented)) == store.allows(id, Some(presented)),
        store.renamed(other, new_id, ext).allows(id, Some(presented)) == store.allows(
            id,
            Some(presented),
        ),
{
}

/// The capability of a file survives its rename.
pub proof fn capability_survives_rename(
    store: StoreView,
    old_id: Seq<char>,
    new_id: Seq<char>,
    ext: Seq<char>,
    capability: Seq<char>,
)
    ensures
        store.renamed(old_id, new_id, ext).allows(new_id, Some(capability)) == store.allows(
            old_id,
            Some(capability),
        ),
        old_id != new_id ==> !store.renamed(old_id, new_id, ext).allows(old_id, Some(capability))
            && store.renamed(old_id, new_id, ext).resolved(old_id) is None,
{
}

/// A deleted file is gone: its ID names no file and grants nothing.
pub proof fn deleted_file_is_gone(store: StoreView, id: Seq<char>, capability: Seq<char>)
    ensures
        store.deleted(id).resolved(id) is None,
        !store.deleted(id).extensions.dom().contains(id),
        !store.deleted(id).metadata.dom().contains(id),
        !store.deleted(id).allows(id, Some(capability)),
{
}

/// Deletions and renames keep the index valid.
pub proof fn changes_keep_store_valid(
    store: StoreView,
    old_id: Seq<char>,
    new_id: Seq<char>,
)
    requires
        store.valid(),
        store.extensions.dom().contains(old_id),
        is_component(new_id),
    ensures
        store.deleted(old_id).valid(),
        store.renamed(old_id, new_id, store.extensions[old_id]).valid(),
{
}

/// A file can be read exactly where it was opened and is a regular one, and a file that is not there is
/// told as missing.
pub proof fn only_regular_files_are_read(outcome: OpenOutcome)
    ensures
        open_result(outcome) is Ok <==> outcome == OpenOutcome::Opened(true),
        open_result(outcome) == Err::<(), StorageError>(StorageError::NotFound) <==> (outcome
            matches OpenOutcome::Failed(e) && e is NotFound),
        outcome == OpenOutcome::Opened(false) ==> open_result(outcome) == Err::<(), StorageError>(
            StorageError::Io(IoFailure::NotRegular),
        ),
{
}

/// A deletion tells that it was done exactly where the file was removed, and that there was nothing to do
/// exactly where the file was not there.
pub proof fn deletion_tells_what_it_did(outcome: Result<(), IoError>)
    ensures
        delete_result(outcome) == Ok::<bool, StorageError>(true) <==> outcome is Ok,
        delete_result(outcome) == Ok::<bool, StorageError>(false) <==> (outcome matches Err(e) && e
            is NotFound),
        delete_result(outcome) is Err ==> (outcome matches Err(e) && delete_result(outcome) == Err::<
            bool,
            StorageError,
        >(StorageError::Io(IoFailure::Failed(Step::Delete, e.text())))),
{
}

/// A stream of a file ends where nothing more is read, and not before.
pub proof fn stream_ends_with_its_file(read: Result<usize, String>)
    ensures
        stream_result(read) is End <==> read == Ok::<usize, String>(0),
        stream_result(read) is Chunk <==> (read matches Ok(n) && n > 0),
        read matches Err(e) ==> stream_result(read) == StreamItem::Failed(
            StorageError::Io(IoFailure::Failed(Step::Read, e)),
        ),
{
}

/// A range is read in pieces of at most 65536 bytes and never beyond its end; reading goes on as long as
/// anything is left. A file that ends too early is an error, and after an error nothing is read.
pub proof fn range_is_read_in_pieces(remaining: u64, read: Result<usize, String>)
    ensures
        next_read(remaining) <= 65536,
        remaining <= 65536 ==> next_read(remaining) == remaining,
        remaining >= 65536 ==> next_read(remaining) == 65536,
        range_item(read) is Chunk <==> (read matches Ok(n) && n > 0),
        !(range_item(read) is End),
        read == Ok::<usize, String>(0) ==> range_item(read) == StreamItem::Failed(
            StorageError::Io(IoFailure::UnexpectedEof),
        ),
        read matches Err(e) ==> range_item(read) == StreamItem::Failed(
            StorageError::Io(IoFailure::Failed(Step::Read, e)),
        ),
        range_item(read) is Failed ==> range_rest(remaining, read) == 0,
        (read matches Ok(n) && 0 < n <= remaining) ==> range_rest(remaining, read) + read->Ok_0
            == remaining,
{
}

/// A rename whose new ID is taken ends in a conflict, one whose old ID is not stored tells that it is
/// missing, whatever comes once the new ID is reserved; a reservation that is there is a conflict too.
pub proof fn rename_tells_what_is_taken_or_missing(
    rename: RenameView,
    store: StoreView,
    next: RenameEvent,
    e: IoError,
)
    requires
        rename.step is Reserve,
    ensures
        ({
            let reserved = rename_after(rename, store, RenameEvent::Done);
            let end = rename_after(reserved, store, next).step;
            let taken = store.extensions.dom().contains(rename.new_id);
            let there = store.extensions.dom().contains(rename.old_id);
            &&& taken ==> end == (RenameStep::Finished { result: Err(StorageError::Conflict) })
            &&& !taken && !there ==> end == (RenameStep::Finished {
                result: Err(StorageError::NotFound),
            })
            &&& !taken && there ==> reserved.step is StatSource && reserved.ext
                == store.extensions[rename.old_id]
        }),
        ({
            let refused = rename_after(rename, store, RenameEvent::Failed(e)).step;
            &&& e is AlreadyExists ==> refused == (RenameStep::Finished {
                result: Err(StorageError::Conflict),
            })
            &&& !(e is AlreadyExists) ==> refused == (RenameStep::Finished {
                result: Err(StorageError::Io(IoFailure::Failed(Step::ReserveId, e.text()))),
            })
        }),
{
}

/// What goes wrong in a rename is told when it ends, whatever comes in between.
pub proof fn failed_rename_tells_why(
    rename: RenameView,
    store: StoreView,
    event: RenameEvent,
    a: RenameEvent,
    b: RenameEvent,
)
    ensures
        ({
            let first = rename_after(rename, store, event);
            let end = rename_after(rename_after(first, store, a), store, b).step;
            &&& rename.step is StatSource && event is Failed ==> end == (RenameStep::Finished {
                result: Err(StorageError::NotFound),
            })
            &&& rename.step is StatSource && event == RenameEvent::Found(false) ==> end == (
            RenameStep::Finished {
                result: Err(StorageError::Io(IoFailure::RenameSourceNotRegular)),
            })
            &&& rename.step is StatSource && event == RenameEvent::Found(true) ==> (first.step is Link
                <==> is_component(rename.new_id) && is_component(rename.ext))
            &&& rename.step is Link && (event matches RenameEvent::Failed(e) && e is AlreadyExists)
                ==> end == (RenameStep::Finished { result: Err(StorageError::Conflict) })
            &&& rename.step is Link && (event matches RenameEvent::Failed(e) && !(e
                is AlreadyExists)) ==> end == (RenameStep::Finished {
                result: Err(
                    StorageError::Io(IoFailure::Failed(Step::RenameLink, event->Failed_0.text())),
                ),
            })
            &&& rename.step is RemoveSource && event is Failed ==> end == (RenameStep::Finished {
                result: Err(
                    StorageError::Io(
                        IoFailure::Failed(Step::RenameCleanup, event->Failed_0.text()),
                    ),
                ),
            })
        }),
{
}

/// A rename goes on only with an answer to its step: what does not answer it changes nothing.
pub proof fn rename_waits_for_its_answer(rename: RenameView, store: StoreView, event: RenameEvent)
    requires
        match rename.step {
            RenameStep::Reserve => event is Found,
            RenameStep::StatSource => event is Done,
            RenameStep::Link => event is Found,
            RenameStep::RemoveSource => event is Found,
            RenameStep::Finished { .. } => true,
            _ => false,
        },
    ensures
        rename_after(rename, store, event) == rename,
        rename_store_after(rename, store, event) == store,
{
}

} // verus!
