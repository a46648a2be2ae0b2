//! Writing a new file to the local disk: an upload or a concatenation of stored files.
//!
//! The writer is a state machine. Its step says what is to be done next; the outcome is handed
//! back as an event.

use vstd::prelude::*;
use vstd::string::*;

use crate::error::{
    as_conflict, as_missing, conflict_or, missing_or, IoError, IoFailure, StorageError, Step,
};
use crate::storage::local::{path_for, LocalBackend, StoreView};
use crate::storage::names::{is_component, safe_extension, stored_extension};
use crate::text::text_view;

verus! {

/// What the writer has to do next.
#[derive(Debug, PartialEq, Eq)]
pub enum WriteStep {
    /// Create the reservation file, which must not exist.
    Reserve,
    /// Look up the free space of the disk.
    CheckSpace,
    /// Create the temporary file, which must not exist.
    CreateTemp,
    /// Wait for the next chunk of the upload.
    NextChunk { total: u64 },
    /// Append the chunk that just came to the temporary file.
    WriteChunk { total: u64 },
    /// Open a part of the concatenation, and tell whether it is a regular file.
    OpenPart { index: usize },
    /// Look at the opened part once more.
    StatPart { index: usize },
    /// Append the opened part to the temporary file.
    CopyPart { index: usize },
    /// Flush and close the temporary file.
    Flush { total: u64 },
    /// Link the temporary file to its final name, which must not exist, and remove it.
    Publish { total: u64 },
    /// Remove the file of a part that the new file now holds.
    DeletePart { index: usize },
    /// Remove the temporary file.
    Discard { error: StorageError },
    /// Remove the reservation file.
    Release { result: Result<u64, StorageError> },
    /// Nothing: the work is over.
    Finished { result: Result<u64, StorageError> },
}

/// What came of a step.
#[derive(Debug, PartialEq, Eq)]
pub enum WriteEvent {
    Done,
    Failed(IoError),
    /// The file was opened, and its metadata could not be read.
    MetadataFailed(String),
    /// The file was opened; the flag tells whether it is a regular file.
    Opened(bool),
    /// The free space in bytes.
    Space(u64),
    /// A chunk of that many bytes came.
    Chunk(u64),
    /// The upload is complete.
    End,
    /// The upload broke off.
    Broken(StorageError),
}

/// A file that is being written.
#[derive(Debug, PartialEq, Eq)]
pub struct LocalWrite {
    pub id: String,
    pub ext: String,
    /// Whether the content comes from stored parts.
    pub concat: bool,
    pub parts: Vec<String>,
    pub capability: Option<String>,
    pub step: WriteStep,
}

pub open spec fn saturating_sum(a: u64, b: u64) -> u64 {
    if a + b > u64::MAX {
        u64::MAX
    } else {
        (a + b) as u64
    }
}

/// What follows once the parts before `index` were copied.
pub open spec fn part_step(store: StoreView, parts: Seq<String>, index: int) -> WriteStep {
    if index >= parts.len() {
        WriteStep::Flush { total: 0 }
    } else if store.resolved(parts[index]@) is Some {
        WriteStep::OpenPart { index: index as usize }
    } else {
        WriteStep::Discard { error: StorageError::NotFound }
    }
}

/// What follows once the parts before `index` were dealt with: the next part that is stored is
/// deleted.
pub open spec fn cleanup_step(store: StoreView, parts: Seq<String>, index: int) -> WriteStep
    decreases parts.len() - index,
{
    if index >= parts.len() {
        WriteStep::Release { result: Ok(0) }
    } else if store.extensions.dom().contains(parts[index]@) {
        WriteStep::DeletePart { index: index as usize }
    } else {
        cleanup_step(store, parts, index + 1)
    }
}

/// The failure of creating the temporary file.
pub open spec fn create_failure(concat: bool, error: IoError) -> StorageError {
    if concat {
        StorageError::Io(IoFailure::Failed(Step::CreateTarget, error.text()))
    } else {
        conflict_or(Step::CreateTemp, error)
    }
}

impl LocalWrite {
    /// The part that the step is about is one of the parts.
    pub open spec fn valid(self) -> bool {
        match self.step {
            WriteStep::OpenPart { index } => index < self.parts@.len(),
            WriteStep::StatPart { index } => index < self.parts@.len(),
            WriteStep::CopyPart { index } => index < self.parts@.len(),
            WriteStep::DeletePart { index } => index < self.parts@.len(),
            _ => true,
        }
    }

    /// The store after the event: a published file enters the index, a deleted part leaves it.
    pub open spec fn store_after(self, store: StoreView, event: WriteEvent) -> StoreView {
        match (self.step, event) {
            (WriteStep::Publish { .. }, WriteEvent::Done) => {
                let stored = store.stored(self.id@, self.ext@, text_view(self.capability));
                if self.concat {
                    stored
                } else {
                    stored.refreshed(self.id@)
                }
            },
            (WriteStep::DeletePart { index }, WriteEvent::Done) => store.deleted(
                self.parts@[index as int]@,
            ),
            _ => store,
        }
    }

    /// What is to be done after the event. An event that does not answer the step changes nothing.
    pub open spec fn step_after(self, store: StoreView, event: WriteEvent) -> WriteStep {
        let after = self.store_after(store, event);
        match (self.step, event) {
            (WriteStep::Reserve, WriteEvent::Done) => if store.extensions.dom().contains(self.id@) {
                WriteStep::Release { result: Err(StorageError::Conflict) }
            } else {
                WriteStep::CheckSpace
            },
            (WriteStep::Reserve, WriteEvent::Failed(e)) => WriteStep::Finished {
                result: Err(conflict_or(Step::ReserveId, e)),
            },
            (WriteStep::CheckSpace, WriteEvent::Space(free)) => if free < store.min_free {
                WriteStep::Release { result: Err(StorageError::InsufficientStorage) }
            } else {
                WriteStep::CreateTemp
            },
            (WriteStep::CheckSpace, WriteEvent::Failed(e)) => WriteStep::Release {
                result: Err(StorageError::Io(IoFailure::Failed(Step::DiskCheck, e.text()))),
            },
            (WriteStep::CreateTemp, WriteEvent::Done) => if self.concat {
                part_step(store, self.parts@, 0)
            } else {
                WriteStep::NextChunk { total: 0 }
            },
            (WriteStep::CreateTemp, WriteEvent::Failed(e)) => WriteStep::Discard {
                error: create_failure(self.concat, e),
            },
            (WriteStep::NextChunk { total }, WriteEvent::Chunk(n)) => WriteStep::WriteChunk {
                total: saturating_sum(total, n),
            },
            (WriteStep::NextChunk { total }, WriteEvent::End) => WriteStep::Flush { total },
            (WriteStep::NextChunk { .. }, WriteEvent::Broken(error)) => WriteStep::Discard {
                error,
            },
            (WriteStep::WriteChunk { total }, WriteEvent::Done) => WriteStep::NextChunk { total },
            (WriteStep::WriteChunk { .. }, WriteEvent::Failed(e)) => WriteStep::Discard {
                error: StorageError::Io(IoFailure::Failed(Step::Write, e.text())),
            },
            (WriteStep::OpenPart { index }, WriteEvent::Opened(regular)) => if regular {
                WriteStep::StatPart { index }
            } else {
                WriteStep::Discard { error: StorageError::Io(IoFailure::NotRegular) }
            },
            (WriteStep::OpenPart { .. }, WriteEvent::Failed(e)) => WriteStep::Discard {
                error: missing_or(Step::OpenRegular, e),
            },
            (WriteStep::OpenPart { .. }, WriteEvent::MetadataFailed(e)) => WriteStep::Discard {
                error: StorageError::Io(IoFailure::Failed(Step::FileMetadata, e)),
            },
            (WriteStep::StatPart { index }, WriteEvent::Opened(regular)) => if regular {
                WriteStep::CopyPart { index }
            } else {
                WriteStep::Discard {
                    error: StorageError::Io(
                        IoFailure::PartNotRegular(self.parts@[index as int]),
                    ),
                }
            },
            (WriteStep::StatPart { .. }, WriteEvent::MetadataFailed(e)) => WriteStep::Discard {
                error: StorageError::Io(IoFailure::Failed(Step::PartMetadata, e)),
            },
            (WriteStep::CopyPart { index }, WriteEvent::Done) => part_step(
                store,
                self.parts@,
                index + 1,
            ),
            (WriteStep::CopyPart { index }, WriteEvent::Failed(e)) => WriteStep::Discard {
                error: StorageError::Io(
                    IoFailure::CopyPart(self.parts@[index as int], e.text()),
                ),
            },
            (WriteStep::Flush { total }, WriteEvent::Done) => WriteStep::Publish { total },
            (WriteStep::Flush { .. }, WriteEvent::Failed(e)) => WriteStep::Discard {
                error: StorageError::Io(IoFailure::Failed(Step::Flush, e.text())),
            },
            (WriteStep::Publish { total }, WriteEvent::Done) => if self.concat {
                cleanup_step(after, self.parts@, 0)
            } else {
                WriteStep::Release { result: Ok(total) }
            },
            (WriteStep::Publish { .. }, WriteEvent::Failed(e)) => WriteStep::Discard {
                error: conflict_or(Step::Publish, e),
            },
            (WriteStep::DeletePart { index }, _) => cleanup_step(after, self.parts@, index + 1),
            (WriteStep::Discard { error }, _) => WriteStep::Release { result: Err(error) },
            (WriteStep::Release { result }, _) => WriteStep::Finished { result },
            (step, _) => step,
        }
    }

    /// Starts an upload.
    pub fn put_stream(id: &str, filename: &str, capability: Option<String>) -> (w: LocalWrite)
        ensures
            w.valid(),
            w.id@ == id@,
            w.ext@ == stored_extension(filename@),
            !w.concat,
            w.parts@.len() == 0,
            w.capability == capability,
            w.step == (if is_component(id@) {
                WriteStep::Reserve
            } else {
                WriteStep::Finished {
                    result: Err(StorageError::Io(IoFailure::InvalidStoragePath)),
                }
            }),
    {
        let ext = safe_extension(filename);
        let step = match path_for(id, ext.as_str()) {
            Some(_) => WriteStep::Reserve,
            None => WriteStep::Finished {
                result: Err(StorageError::Io(IoFailure::InvalidStoragePath)),
            },
        };
        proof {
            crate::storage::names::stored_extension_is_valid(filename@);
        }
        LocalWrite { id: id.to_owned(), ext, concat: false, parts: Vec::new(), capability, step }
    }

    /// Starts a concatenation of stored files. A capability must be that of every part.
    pub fn concat(
        backend: &LocalBackend,
        target_id: &str,
        filename: &str,
        parts: Vec<String>,
        capability: Option<String>,
    ) -> (w: LocalWrite)
        ensures
            w.valid(),
            w.id@ == target_id@,
            w.ext@ == stored_extension(filename@),
            w.concat,
            w.parts == parts,
            w.capability == capability,
            w.step == (if !is_component(target_id@) {
                WriteStep::Finished {
                    result: Err(StorageError::Io(IoFailure::InvalidStoragePath)),
                }
            } else if exists|i: int|
                0 <= i < parts@.len() && !backend@.allows(
                    #[trigger] parts@[i]@,
                    text_view(capability),
                ) {
                WriteStep::Finished { result: Err(StorageError::Forbidden) }
            } else {
                WriteStep::Reserve
            }),
    {
        let ext = safe_extension(filename);
        proof {
            crate::storage::names::stored_extension_is_valid(filename@);
        }
        let step = match path_for(target_id, ext.as_str()) {
            None => WriteStep::Finished {
                result: Err(StorageError::Io(IoFailure::InvalidStoragePath)),
            },
            Some(_) => {
                let bearer: Option<&str> = match &capability {
                    Some(c) => Some(c.as_str()),
                    None => None,
                };
                if backend.allows_all(&parts, bearer) {
                    WriteStep::Reserve
                } else {
                    WriteStep::Finished { result: Err(StorageError::Forbidden) }
                }
            },
        };
        LocalWrite { id: target_id.to_owned(), ext, concat: true, parts, capability, step }
    }

    /// Goes on with what came of the step.
    pub fn step(self, backend: &mut LocalBackend, event: WriteEvent) -> (w: LocalWrite)
        requires
            self.valid(),
        ensures
            w.valid(),
            w.id == self.id,
            w.ext == self.ext,
            w.concat == self.concat,
            w.parts == self.parts,
            w.capability == self.capability,
            w.step == self.step_after(old(backend)@, event),
            final(backend)@ == self.store_after(old(backend)@, event),
    {
        let LocalWrite { id, ext, concat, parts, capability, step } = self;
        let count: usize = parts.len();
        let next = match (step, event) {
            (WriteStep::Reserve, WriteEvent::Done) => if backend.contains(id.as_str()) {
                WriteStep::Release { result: Err(StorageError::Conflict) }
            } else {
                WriteStep::CheckSpace
            },
            (WriteStep::Reserve, WriteEvent::Failed(e)) => WriteStep::Finished {
                result: Err(as_conflict(Step::ReserveId, e)),
            },
            (WriteStep::CheckSpace, WriteEvent::Space(free)) => if free
                < backend.min_free_space() {
                WriteStep::Release { result: Err(StorageError::InsufficientStorage) }
            } else {
                WriteStep::CreateTemp
            },
            (WriteStep::CheckSpace, WriteEvent::Failed(e)) => WriteStep::Release {
                result: Err(StorageError::Io(IoFailure::Failed(Step::DiskCheck, e.into_text()))),
            },
            (WriteStep::CreateTemp, WriteEvent::Done) => if concat {
                next_part(backend, &parts, 0)
            } else {
                WriteStep::NextChunk { total: 0 }
            },
            (WriteStep::CreateTemp, WriteEvent::Failed(e)) => WriteStep::Discard {
                error: if concat {
                    StorageError::Io(IoFailure::Failed(Step::CreateTarget, e.into_text()))
                } else {
                    as_conflict(Step::CreateTemp, e)
                },
            },
            (WriteStep::NextChunk { total }, WriteEvent::Chunk(n)) => WriteStep::WriteChunk {
                total: total.saturating_add(n),
            },
            (WriteStep::NextChunk { total }, WriteEvent::End) => WriteStep::Flush { total },
            (WriteStep::NextChunk { .. }, WriteEvent::Broken(error)) => WriteStep::Discard {
                error,
            },
            (WriteStep::WriteChunk { total }, WriteEvent::Done) => WriteStep::NextChunk { total },
            (WriteStep::WriteChunk { .. }, WriteEvent::Failed(e)) => WriteStep::Discard {
                error: StorageError::Io(IoFailure::Failed(Step::Write, e.into_text())),
            },
            (WriteStep::OpenPart { index }, WriteEvent::Opened(regular)) => if regular {
                WriteStep::StatPart { index }
            } else {
                WriteStep::Discard { error: StorageError::Io(IoFailure::NotRegular) }
            },
            (WriteStep::OpenPart { .. }, WriteEvent::Failed(e)) => WriteStep::Discard {
                error: as_missing(Step::OpenRegular, e),
            },
            (WriteStep::OpenPart { .. }, WriteEvent::MetadataFailed(e)) => WriteStep::Discard {
                error: StorageError::Io(IoFailure::Failed(Step::FileMetadata, e)),
            },
            (WriteStep::StatPart { index }, WriteEvent::Opened(regular)) => if regular {
                WriteStep::CopyPart { index }
            } else {
                WriteStep::Discard {
                    error: StorageError::Io(IoFailure::PartNotRegular(parts[index].clone())),
                }
            },
            (WriteStep::StatPart { .. }, WriteEvent::MetadataFailed(e)) => WriteStep::Discard {
                error: StorageError::Io(IoFailure::Failed(Step::PartMetadata, e)),
            },
            (WriteStep::CopyPart { index }, WriteEvent::Done) => next_part(
                backend,
                &parts,
                index + 1,
            ),
            (WriteStep::CopyPart { index }, WriteEvent::Failed(e)) => WriteStep::Discard {
                error: StorageError::Io(
                    IoFailure::CopyPart(parts[index].clone(), e.into_text()),
                ),
            },
            (WriteStep::Flush { total }, WriteEvent::Done) => WriteStep::Publish { total },
            (WriteStep::Flush { .. }, WriteEvent::Failed(e)) => WriteStep::Discard {
                error: StorageError::Io(IoFailure::Failed(Step::Flush, e.into_text())),
            },
            (WriteStep::Publish { total }, WriteEvent::Done) => {
                match &capability {
                    Some(c) => backend.record(id.as_str(), ext.as_str(), Some(c.as_str())),
                    None => backend.record(id.as_str(), ext.as_str(), None),
                }
                if concat {
                    next_cleanup(backend, &parts, 0)
                } else {
                    backend.refresh(id.as_str());
                    WriteStep::Release { result: Ok(total) }
                }
            },
            (WriteStep::Publish { .. }, WriteEvent::Failed(e)) => WriteStep::Discard {
                error: as_conflict(Step::Publish, e),
            },
            (WriteStep::DeletePart { index }, event) => {
                match event {
                    WriteEvent::Done => backend.forget(parts[index].as_str()),
                    _ => {},
                }
                next_cleanup(backend, &parts, index + 1)
            },
            (WriteStep::Discard { error }, _) => WriteStep::Release { result: Err(error) },
            (WriteStep::Release { result }, _) => WriteStep::Finished { result },
            (step, _) => step,
        };
        LocalWrite { id, ext, concat, parts, capability, step: next }
    }
}

impl LocalBackend {
    /// Starts to store a file whose contents are at hand: they come as one chunk.
    pub fn put(id: &str, filename: &str, capability: Option<String>) -> (w: LocalWrite)
        ensures
            w.valid(),
            w.id@ == id@,
            w.ext@ == stored_extension(filename@),
            !w.concat,
            w.parts@.len() == 0,
            w.capability == capability,
            w.step == (if is_component(id@) {
                WriteStep::Reserve
            } else {
                WriteStep::Finished {
                    result: Err(StorageError::Io(IoFailure::InvalidStoragePath)),
                }
            }),
    {
        LocalWrite::put_stream(id, filename, capability)
    }
}

fn next_part(backend: &LocalBackend, parts: &Vec<String>, index: usize) -> (r: WriteStep)
    ensures
        r == part_step(backend@, parts@, index as int),
{
    if index >= parts.len() {
        WriteStep::Flush { total: 0 }
    } else {
        match backend.resolve_path(parts[index].as_str()) {
            Some(_) => WriteStep::OpenPart { index },
            None => WriteStep::Discard { error: StorageError::NotFound },
        }
    }
}

fn next_cleanup(backend: &LocalBackend, parts: &Vec<String>, index: usize) -> (r: WriteStep)
    ensures
        r == cleanup_step(backend@, parts@, index as int),
        match r {
            WriteStep::DeletePart { index } => index < parts@.len(),
            WriteStep::Release { result } => true,
            _ => false,
        },
{
    let mut i: usize = index;
    while i < parts.len()
        invariant
            index <= i,
            cleanup_step(backend@, parts@, index as int) == cleanup_step(
                backend@,
                parts@,
                i as int,
            ),
        decreases parts@.len() - i,
    {
        if backend.contains(parts[i].as_str()) {
            return WriteStep::DeletePart { index: i };
        }
        i = i + 1;
    }
    WriteStep::Release { result: Ok(0) }
}

/// What a writer has on the disk: files it created and did not yet ask to be removed.
#[verifier::ext_equal]
pub struct Held {
    pub reservation: bool,
    pub temp: bool,
    pub target: bool,
}

/// What the writer has on the disk after a step came out as `event` tells.
pub open spec fn held_after(held: Held, step: WriteStep, event: WriteEvent) -> Held {
    match (step, event) {
        (WriteStep::Reserve, WriteEvent::Done) => Held { reservation: true, ..held },
        (WriteStep::CreateTemp, WriteEvent::Done) => Held { temp: true, ..held },
        (WriteStep::Publish { .. }, WriteEvent::Done) => Held { temp: false, target: true, ..held },
        (WriteStep::Discard { .. }, _) => Held { temp: false, ..held },
        (WriteStep::Release { .. }, _) => Held { reservation: false, ..held },
        _ => held,
    }
}

/// A writer together with the index and the disk.
#[verifier::ext_equal]
pub struct WriteRun {
    pub write: LocalWrite,
    pub store: StoreView,
    pub held: Held,
}

/// The run after one more event.
pub open spec fn write_advance(run: WriteRun, event: WriteEvent) -> WriteRun {
    WriteRun {
        write: LocalWrite { step: run.write.step_after(run.store, event), ..run.write },
        store: run.write.store_after(run.store, event),
        held: held_after(run.held, run.write.step, event),
    }
}

/// The run after a sequence of events.
pub open spec fn write_run(run: WriteRun, events: Seq<WriteEvent>) -> WriteRun
    decreases events.len(),
{
    if events.len() == 0 {
        run
    } else {
        write_advance(write_run(run, events.drop_last()), events.last())
    }
}

/// A run that has done nothing yet.
pub open spec fn write_start(write: LocalWrite, store: StoreView) -> WriteRun {
    WriteRun { write, store, held: Held { reservation: false, temp: false, target: false } }
}

pub open spec fn is_part(write: LocalWrite, id: Seq<char>) -> bool {
    exists|i: int| 0 <= i < write.parts@.len() && #[trigger] write.parts@[i]@ == id
}

/// The index after a file was written. An upload adds its ID. A concatenation adds its target and
/// leaves the IDs alone that are no parts; `local_disk` follows which parts it has removed.
pub open spec fn written(write: LocalWrite, before: StoreView, after: StoreView) -> bool {
    let stored = before.stored(write.id@, write.ext@, text_view(write.capability));
    if write.concat {
        forall|id: Seq<char>|
            #![trigger after.extensions.dom().contains(id)]
            #![trigger after.capabilities.dom().contains(id)]
            !is_part(write, id) ==> {
                &&& after.extensions.dom().contains(id) == stored.extensions.dom().contains(id)
                &&& after.extensions[id] == stored.extensions[id]
                &&& after.capabilities.dom().contains(id) == stored.capabilities.dom().contains(id)
                &&& after.capabilities[id] == stored.capabilities[id]
            }
    } else {
        after == stored.refreshed(write.id@)
    }
}

spec fn write_holds(run: WriteRun, write: LocalWrite, before: StoreView) -> bool {
    let held = run.held;
    let fresh = !before.extensions.dom().contains(write.id@);
    &&& run.write == (LocalWrite { step: run.write.step, ..write })
    &&& run.write.valid()
    &&& match run.write.step {
        WriteStep::Reserve => !held.reservation && !held.temp && !held.target && run.store
            == before,
        WriteStep::CheckSpace | WriteStep::CreateTemp => fresh && held.reservation && !held.temp
            && !held.target && run.store == before,
        WriteStep::Discard { .. } => fresh && held.reservation && !held.target && run.store
            == before,
        WriteStep::DeletePart { .. } => fresh && write.concat && held.reservation && !held.temp
            && held.target && written(write, before, run.store),
        WriteStep::Release { result } => {
            &&& held.reservation && !held.temp
            &&& held.target == (result is Ok)
            &&& result is Ok ==> fresh && written(write, before, run.store)
            &&& result is Err ==> run.store == before
        },
        WriteStep::Finished { result } => {
            &&& !held.reservation && !held.temp
            &&& held.target == (result is Ok)
            &&& result is Ok ==> fresh && written(write, before, run.store)
            &&& result is Err ==> run.store == before
        },
        _ => fresh && held.reservation && held.temp && !held.target && run.store == before,
    }
}

proof fn lemma_cleanup_step(store: StoreView, parts: Seq<String>, index: int)
    requires
        0 <= index,
        parts.len() <= usize::MAX,
    ensures
        match cleanup_step(store, parts, index) {
            WriteStep::DeletePart { index } => index < parts.len(),
            WriteStep::Release { result } => result == Ok::<u64, StorageError>(0),
            _ => false,
        },
    decreases parts.len() - index,
{
    if index < parts.len() && !store.extensions.dom().contains(parts[index]@) {
        lemma_cleanup_step(store, parts, index + 1);
    }
}

proof fn lemma_write_advance(
    run: WriteRun,
    event: WriteEvent,
    write: LocalWrite,
    before: StoreView,
)
    requires
        write_holds(run, write, before),
        write.parts@.len() <= usize::MAX,
    ensures
        write_holds(write_advance(run, event), write, before),
{
    let next = write_advance(run, event);
    match run.write.step {
        WriteStep::Publish { .. } => {
            if event is Done && write.concat {
                lemma_cleanup_step(next.store, write.parts@, 0);
            }
        },
        WriteStep::DeletePart { index } => {
            lemma_cleanup_step(next.store, write.parts@, index + 1);
            if event is Done {
                assert(is_part(write, write.parts@[index as int]@));
            }
        },
        _ => {},
    }
}

proof fn lemma_write_run(write: LocalWrite, before: StoreView, events: Seq<WriteEvent>)
    requires
        write.step is Reserve,
        write.parts@.len() <= usize::MAX,
    ensures
        write_holds(write_run(write_start(write, before), events), write, before),
    decreases events.len(),
{
    if events.len() > 0 {
        lemma_write_run(write, before, events.drop_last());
        lemma_write_advance(
            write_run(write_start(write, before), events.drop_last()),
            events.last(),
            write,
            before,
        );
    }
}

/// Whatever happens on the way, a writer that has finished holds neither its reservation nor its
/// temporary file, and its target is on the disk exactly where it reports success.
pub proof fn finished_write_leaves_no_trace(
    write: LocalWrite,
    before: StoreView,
    events: Seq<WriteEvent>,
)
    requires
        write.step is Reserve,
        write.parts@.len() <= usize::MAX,
    ensures
        ({
            let run = write_run(write_start(write, before), events);
            run.write.step matches WriteStep::Finished { result } ==> !run.held.reservation
                && !run.held.temp && run.held.target == (result is Ok)
        }),
{
    lemma_write_run(write, before, events);
}

/// A write that failed leaves the index as it was; one that succeeded has added its file.
pub proof fn finished_write_is_all_or_nothing(
    write: LocalWrite,
    before: StoreView,
    events: Seq<WriteEvent>,
)
    requires
        write.step is Reserve,
        write.parts@.len() <= usize::MAX,
    ensures
        ({
            let run = write_run(write_start(write, before), events);
            run.write.step matches WriteStep::Finished { result } ==> match result {
                Ok(_) => written(write, before, run.store),
                Err(_) => run.store == before,
            }
        }),
{
    lemma_write_run(write, before, events);
}

/// An ID that is stored is never written again, under whatever extension: the index stays as it
/// is, nothing is published, and no write reports success. Once its reservation is made, such a
/// write ends in a conflict, whatever comes.
pub proof fn stored_id_is_not_overwritten(
    write: LocalWrite,
    before: StoreView,
    events: Seq<WriteEvent>,
)
    requires
        write.step is Reserve,
        write.parts@.len() <= usize::MAX,
        before.extensions.dom().contains(write.id@),
    ensures
        ({
            let run = write_run(write_start(write, before), events);
            &&& run.store == before
            &&& !run.held.target
            &&& !(run.write.step matches WriteStep::Finished { result } && result is Ok)
            &&& events.len() >= 2 && events[0] == WriteEvent::Done ==> run.write.step == (
            WriteStep::Finished { result: Err(StorageError::Conflict) })
        }),
{
    lemma_write_run(write, before, events);
    if events.len() >= 2 && events[0] == WriteEvent::Done {
        lemma_conflict(write, before, events);
    }
}

proof fn lemma_conflict(write: LocalWrite, before: StoreView, events: Seq<WriteEvent>)
    requires
        write.step is Reserve,
        before.extensions.dom().contains(write.id@),
        events.len() > 0,
        events[0] == WriteEvent::Done,
    ensures
        ({
            let run = write_run(write_start(write, before), events);
            &&& run.store == before
            &&& run.write == (LocalWrite { step: run.write.step, ..write })
            &&& run.write.step == (if events.len() == 1 {
                WriteStep::Release { result: Err(StorageError::Conflict) }
            } else {
                WriteStep::Finished { result: Err(StorageError::Conflict) }
            })
        }),
    decreases events.len(),
{
    let first = events.drop_last();
    if events.len() == 1 {
        assert(first =~= Seq::empty());
        assert(events.last() == events[0]);
        assert(write_run(write_start(write, before), first) == write_start(write, before));
    } else {
        lemma_conflict(write, before, first);
    }
}

/// Every write keeps the index valid.
pub proof fn write_keeps_store_valid(write: LocalWrite, store: StoreView, event: WriteEvent)
    requires
        store.valid(),
        is_component(write.id@),
        is_component(write.ext@),
    ensures
        write.store_after(store, event).valid(),
{
}

/// Two writers that work on one storage directory at the same time.
#[verifier::ext_equal]
pub struct Race {
    pub first: LocalWrite,
    pub second: LocalWrite,
    pub first_held: Held,
    pub second_held: Held,
    pub store: StoreView,
}

/// Whether the event can happen to a writer while the other one holds what `other` says: the file
/// system creates a reservation only where there is none.
pub open spec fn race_allows(step: WriteStep, event: WriteEvent, other: Held) -> bool {
    !(step is Reserve && event is Done && other.reservation)
}

/// The race after an event of the first or of the second writer. What cannot happen changes
/// nothing.
pub open spec fn race_advance(race: Race, of_first: bool, event: WriteEvent) -> Race {
    if of_first {
        if race_allows(race.first.step, event, race.second_held) {
            Race {
                first: LocalWrite {
                    step: race.first.step_after(race.store, event),
                    ..race.first
                },
                first_held: held_after(race.first_held, race.first.step, event),
                store: race.first.store_after(race.store, event),
                ..race
            }
        } else {
            race
        }
    } else {
        if race_allows(race.second.step, event, race.first_held) {
            Race {
                second: LocalWrite {
                    step: race.second.step_after(race.store, event),
                    ..race.second
                },
                second_held: held_after(race.second_held, race.second.step, event),
                store: race.second.store_after(race.store, event),
                ..race
            }
        } else {
            race
        }
    }
}

/// The race after a sequence of events in any order.
pub open spec fn race_run(race: Race, events: Seq<(bool, WriteEvent)>) -> Race
    decreases events.len(),
{
    if events.len() == 0 {
        race
    } else {
        race_advance(race_run(race, events.drop_last()), events.last().0, events.last().1)
    }
}

/// A race that has not begun.
pub open spec fn race_start(first: LocalWrite, second: LocalWrite, store: StoreView) -> Race {
    let none = Held { reservation: false, temp: false, target: false };
    Race { first, second, first_held: none, second_held: none, store }
}

/// Whether the first `n` parts have other IDs than the write.
spec fn parts_apart(write: LocalWrite, n: int) -> bool {
    forall|i: int| 0 <= i < n ==> (#[trigger] write.parts@[i])@ != write.id@
}

spec fn racer_holds(write: LocalWrite, held: Held, store: StoreView) -> bool {
    let stored = store.extensions.dom().contains(write.id@);
    let all = write.parts@.len() as int;
    &&& write.valid()
    &&& match write.step {
        WriteStep::NextChunk { .. } | WriteStep::WriteChunk { .. } => !write.concat,
        WriteStep::OpenPart { index } | WriteStep::StatPart { index } | WriteStep::CopyPart {
            index,
        } => parts_apart(write, index + 1),
        WriteStep::Flush { .. } | WriteStep::Publish { .. } => write.concat ==> parts_apart(
            write,
            all,
        ),
        WriteStep::DeletePart { .. } => parts_apart(write, all),
        _ => true,
    }
    &&& match write.step {
        WriteStep::Reserve => !held.reservation && !held.target,
        WriteStep::Discard { .. } => held.reservation && !held.target,
        WriteStep::DeletePart { .. } => write.concat && held.reservation && held.target && stored,
        WriteStep::Release { result } => held.reservation && held.target == (result is Ok) && (
        held.target ==> stored),
        WriteStep::Finished { result } => !held.reservation && held.target == (result is Ok) && (
        held.target ==> stored),
        _ => held.reservation && !held.target && !stored,
    }
}

spec fn race_holds(race: Race) -> bool {
    &&& race.first.id@ == race.second.id@
    &&& race.first.parts@.len() <= usize::MAX
    &&& race.second.parts@.len() <= usize::MAX
    &&& racer_holds(race.first, race.first_held, race.store)
    &&& racer_holds(race.second, race.second_held, race.store)
    &&& !(race.first_held.reservation && race.second_held.reservation)
    &&& !(race.first_held.target && race.second_held.target)
}

proof fn lemma_racer(write: LocalWrite, held: Held, store: StoreView, event: WriteEvent)
    requires
        racer_holds(write, held, store),
        write.parts@.len() <= usize::MAX,
    ensures
        ({
            let next = LocalWrite { step: write.step_after(store, event), ..write };
            let after = write.store_after(store, event);
            &&& racer_holds(next, held_after(held, write.step, event), after)
            &&& after.extensions.dom().contains(write.id@) == (store.extensions.dom().contains(
                write.id@,
            ) || (write.step is Publish && event is Done))
        }),
{
    let after = write.store_after(store, event);
    match write.step {
        WriteStep::Publish { .. } => {
            if event is Done && write.concat {
                lemma_cleanup_step(after, write.parts@, 0);
            }
        },
        WriteStep::DeletePart { index } => {
            lemma_cleanup_step(after, write.parts@, index + 1);
            assert(write.parts@[index as int]@ != write.id@);
        },
        _ => {},
    }
}

proof fn lemma_race_run(race: Race, events: Seq<(bool, WriteEvent)>)
    requires
        race_holds(race),
    ensures
        race_holds(race_run(race, events)),
    decreases events.len(),
{
    if events.len() > 0 {
        lemma_race_run(race, events.drop_last());
        let before = race_run(race, events.drop_last());
        let (of_first, event) = events.last();
        lemma_racer(before.first, before.first_held, before.store, event);
        lemma_racer(before.second, before.second_held, before.store, event);
    }
}

/// Of two writers that race for one ID, under whatever extensions, at most one succeeds, be they
/// uploads or concatenations.
pub proof fn racing_writes_store_one_file(
    first: LocalWrite,
    second: LocalWrite,
    store: StoreView,
    events: Seq<(bool, WriteEvent)>,
)
    requires
        first.id@ == second.id@,
        first.step is Reserve,
        second.step is Reserve,
        first.parts@.len() <= usize::MAX,
        second.parts@.len() <= usize::MAX,
    ensures
        ({
            let race = race_run(race_start(first, second, store), events);
            !(race.first.step matches WriteStep::Finished { result: a } && a is Ok && (
            race.second.step matches WriteStep::Finished { result: b } && b is Ok))
        }),
{
    lemma_race_run(race_start(first, second, store), events);
}

/// Whether the event is what comes of the step where nothing goes wrong: a reservation is made
/// where there is none and found to be there where the other writer has one, there is enough
/// space, and the rest is done.
pub open spec fn race_smooth(
    write: LocalWrite,
    other: Held,
    store: StoreView,
    event: WriteEvent,
) -> bool {
    match write.step {
        WriteStep::Reserve => if other.reservation {
            event matches WriteEvent::Failed(e) && e is AlreadyExists
        } else {
            event is Done
        },
        WriteStep::CheckSpace => event matches WriteEvent::Space(free) && free >= store.min_free,
        WriteStep::NextChunk { .. } => event is Chunk || event is End,
        _ => event is Done,
    }
}

/// Whether nothing goes wrong in a race.
pub open spec fn smooth_race(race: Race, events: Seq<(bool, WriteEvent)>) -> bool
    decreases events.len(),
{
    events.len() > 0 ==> {
        let before = race_run(race, events.drop_last());
        let (of_first, event) = events.last();
        &&& smooth_race(race, events.drop_last())
        &&& if of_first {
            race_smooth(before.first, before.second_held, before.store, event)
        } else {
            race_smooth(before.second, before.first_held, before.store, event)
        }
    }
}

/// Whether a writer has stored its file.
spec fn has_won(step: WriteStep) -> bool {
    match step {
        WriteStep::Release { result } => result is Ok,
        WriteStep::Finished { result } => result is Ok,
        _ => false,
    }
}

/// Whether a writer has found its ID taken.
spec fn has_lost(step: WriteStep) -> bool {
    step == (WriteStep::Release { result: Err(StorageError::Conflict) }) || step == (
    WriteStep::Finished { result: Err(StorageError::Conflict) })
}

spec fn on_course(write: LocalWrite, held: Held, store: StoreView) -> bool {
    &&& !write.concat
    &&& match write.step {
        WriteStep::Reserve => !held.reservation,
        WriteStep::Release { .. } => held.reservation && (has_won(write.step) || has_lost(
            write.step,
        )),
        WriteStep::Finished { .. } => !held.reservation && (has_won(write.step) || has_lost(
            write.step,
        )),
        WriteStep::CheckSpace | WriteStep::CreateTemp | WriteStep::NextChunk { .. }
        | WriteStep::WriteChunk { .. } | WriteStep::Flush { .. } | WriteStep::Publish { .. } =>
        held.reservation && !store.extensions.dom().contains(write.id@),
        _ => false,
    }
}

spec fn fair_race(race: Race) -> bool {
    &&& race.first.id@ == race.second.id@
    &&& on_course(race.first, race.first_held, race.store)
    &&& on_course(race.second, race.second_held, race.store)
    &&& !(race.first_held.reservation && race.second_held.reservation)
    &&& race.store.extensions.dom().contains(race.first.id@) == (has_won(race.first.step)
        || has_won(race.second.step))
    &&& !(has_won(race.first.step) && has_won(race.second.step))
    &&& has_lost(race.first.step) ==> !has_lost(race.second.step) && !(race.second.step is Reserve)
    &&& has_lost(race.second.step) ==> !has_lost(race.first.step) && !(race.first.step is Reserve)
}

proof fn lemma_fair_race(race: Race, events: Seq<(bool, WriteEvent)>)
    requires
        fair_race(race),
        smooth_race(race, events),
    ensures
        fair_race(race_run(race, events)),
    decreases events.len(),
{
    if events.len() > 0 {
        lemma_fair_race(race, events.drop_last());
    }
}

/// Of two uploads that race for one free ID, under whatever extensions and in whatever order, and
/// with which nothing goes wrong, exactly one succeeds, and the other ends in a conflict.
pub proof fn racing_uploads_store_exactly_one_file(
    first: LocalWrite,
    second: LocalWrite,
    store: StoreView,
    events: Seq<(bool, WriteEvent)>,
)
    requires
        first.id@ == second.id@,
        first.step is Reserve,
        second.step is Reserve,
        !first.concat,
        !second.concat,
        !store.extensions.dom().contains(first.id@),
        smooth_race(race_start(first, second, store), events),
    ensures
        ({
            let race = race_run(race_start(first, second, store), events);
            let conflict = WriteStep::Finished { result: Err(StorageError::Conflict) };
            race.first.step is Finished && race.second.step is Finished ==> {
                ||| has_succeeded(race.first) && race.second.step == conflict
                ||| has_succeeded(race.second) && race.first.step == conflict
            }
        }),
{
    lemma_fair_race(race_start(first, second, store), events);
}

/// Whether a write has ended with success.
pub open spec fn has_succeeded(write: LocalWrite) -> bool {
    write.step matches WriteStep::Finished { result } && result is Ok
}

/// Running on after a run is running through both.
proof fn lemma_write_run_append(run: WriteRun, a: Seq<WriteEvent>, b: Seq<WriteEvent>)
    ensures
        write_run(run, a + b) == write_run(write_run(run, a), b),
    decreases b.len(),
{
    if b.len() == 0 {
        assert(a + b =~= a);
    } else {
        assert((a + b).drop_last() =~= a + b.drop_last());
        lemma_write_run_append(run, a, b.drop_last());
    }
}

proof fn lemma_write_run_push(run: WriteRun, a: Seq<WriteEvent>, event: WriteEvent)
    ensures
        write_run(run, a.push(event)) == write_advance(write_run(run, a), event),
{
    assert(a.push(event).drop_last() =~= a);
}

/// An upload to a free ID that has enough space comes to wait for chunks.
proof fn lemma_upload_begins(write: LocalWrite, store: StoreView, free: u64)
    requires
        write.step is Reserve,
        !write.concat,
        !store.extensions.dom().contains(write.id@),
        free >= store.min_free,
    ensures
        ({
            let head = seq![WriteEvent::Done, WriteEvent::Space(free), WriteEvent::Done];
            let run = write_run(write_start(write, store), head);
            &&& run.write == (LocalWrite { step: WriteStep::NextChunk { total: 0 }, ..write })
            &&& run.store == store
        }),
{
    let start = write_start(write, store);
    let none = Seq::<WriteEvent>::empty();
    let one = none.push(WriteEvent::Done);
    let two = one.push(WriteEvent::Space(free));
    lemma_write_run_push(start, none, WriteEvent::Done);
    assert(write_run(start, one).write.step is CheckSpace);
    lemma_write_run_push(start, one, WriteEvent::Space(free));
    assert(write_run(start, two).write.step is CreateTemp);
    lemma_write_run_push(start, two, WriteEvent::Done);
    assert(seq![WriteEvent::Done, WriteEvent::Space(free), WriteEvent::Done] =~= two.push(
        WriteEvent::Done,
    ));
}

/// An upload whose chunks have all been written comes to success.
proof fn lemma_upload_ends(run: WriteRun, total: u64)
    requires
        run.write.step == (WriteStep::NextChunk { total }),
        !run.write.concat,
    ensures
        ({
            let tail = seq![WriteEvent::End, WriteEvent::Done, WriteEvent::Done, WriteEvent::Done];
            let end = write_run(run, tail);
            &&& end.write.step == (WriteStep::Finished { result: Ok(total) })
            &&& end.store == run.store.stored(
                run.write.id@,
                run.write.ext@,
                text_view(run.write.capability),
            ).refreshed(run.write.id@)
        }),
{
    let none = Seq::<WriteEvent>::empty();
    let one = none.push(WriteEvent::End);
    let two = one.push(WriteEvent::Done);
    let three = two.push(WriteEvent::Done);
    lemma_write_run_push(run, none, WriteEvent::End);
    assert(write_run(run, one).write.step == (WriteStep::Flush { total }));
    lemma_write_run_push(run, one, WriteEvent::Done);
    assert(write_run(run, two).write.step == (WriteStep::Publish { total }));
    lemma_write_run_push(run, two, WriteEvent::Done);
    assert(write_run(run, three).write.step == (WriteStep::Release { result: Ok(total) }));
    lemma_write_run_push(run, three, WriteEvent::Done);
    assert(seq![WriteEvent::End, WriteEvent::Done, WriteEvent::Done, WriteEvent::Done]
        =~= three.push(WriteEvent::Done));
}

/// Chunks that come and are written only add to the total.
proof fn lemma_chunks(run: WriteRun, sizes: Seq<u64>)
    requires
        run.write.step == (WriteStep::NextChunk { total: 0 }),
    ensures
        write_run(run, chunk_events(sizes)) == (WriteRun {
            write: LocalWrite {
                step: WriteStep::NextChunk { total: chunk_total(sizes) },
                ..run.write
            },
            ..run
        }),
    decreases sizes.len(),
{
    if sizes.len() > 0 {
        lemma_chunks(run, sizes.drop_last());
        let events = chunk_events(sizes);
        let chunk = events.drop_last();
        let before = chunk.drop_last();
        assert(before =~= chunk_events(sizes.drop_last()));
        assert(events.last() == WriteEvent::Done);
        assert(chunk.last() == WriteEvent::Chunk(sizes.last()));
        assert(write_run(run, events) == write_advance(write_run(run, chunk), events.last()));
        assert(write_run(run, chunk) == write_advance(write_run(run, before), chunk.last()));
    }
}

/// The events of an upload with which nothing goes wrong.
pub open spec fn smooth_upload(free: u64, sizes: Seq<u64>) -> Seq<WriteEvent> {
    seq![WriteEvent::Done, WriteEvent::Space(free), WriteEvent::Done] + chunk_events(sizes) + seq![
        WriteEvent::End,
        WriteEvent::Done,
        WriteEvent::Done,
        WriteEvent::Done,
    ]
}

/// An upload to a free ID succeeds where there is enough space and nothing goes wrong: its file is
/// in the index, and it reports the number of bytes that came.
pub proof fn undisturbed_upload_succeeds(
    write: LocalWrite,
    store: StoreView,
    free: u64,
    sizes: Seq<u64>,
)
    requires
        write.step is Reserve,
        !write.concat,
        !store.extensions.dom().contains(write.id@),
        free >= store.min_free,
    ensures
        ({
            let run = write_run(write_start(write, store), smooth_upload(free, sizes));
            &&& run.write.step == (WriteStep::Finished { result: Ok(chunk_total(sizes)) })
            &&& run.store == store.stored(
                write.id@,
                write.ext@,
                text_view(write.capability),
            ).refreshed(write.id@)
        }),
{
    let start = write_start(write, store);
    let head = seq![WriteEvent::Done, WriteEvent::Space(free), WriteEvent::Done];
    let tail = seq![WriteEvent::End, WriteEvent::Done, WriteEvent::Done, WriteEvent::Done];
    lemma_write_run_append(start, head + chunk_events(sizes), tail);
    lemma_write_run_append(start, head, chunk_events(sizes));
    lemma_upload_begins(write, store, free);
    lemma_chunks(write_run(start, head), sizes);
    lemma_upload_ends(
        write_run(write_run(start, head), chunk_events(sizes)),
        chunk_total(sizes),
    );
}

/// The events of chunks of the given sizes that come and are written.
pub open spec fn chunk_events(sizes: Seq<u64>) -> Seq<WriteEvent>
    decreases sizes.len(),
{
    if sizes.len() == 0 {
        Seq::empty()
    } else {
        chunk_events(sizes.drop_last()).push(WriteEvent::Chunk(sizes.last())).push(WriteEvent::Done)
    }
}

/// The sum of the sizes, at most the largest number there is.
pub open spec fn chunk_total(sizes: Seq<u64>) -> u64
    decreases sizes.len(),
{
    if sizes.len() == 0 {
        0
    } else {
        saturating_sum(chunk_total(sizes.drop_last()), sizes.last())
    }
}

/// A disk with less free space than is kept free takes no file.
pub proof fn full_disk_takes_no_file(
    write: LocalWrite,
    store: StoreView,
    free: u64,
    next: WriteEvent,
)
    requires
        write.step is Reserve,
        !store.extensions.dom().contains(write.id@),
        free < store.min_free,
    ensures
        write_run(
            write_start(write, store),
            seq![WriteEvent::Done, WriteEvent::Space(free), next],
        ).write.step == (WriteStep::Finished { result: Err(StorageError::InsufficientStorage) }),
{
    let start = write_start(write, store);
    let none = Seq::<WriteEvent>::empty();
    let one = none.push(WriteEvent::Done);
    let two = one.push(WriteEvent::Space(free));
    lemma_write_run_push(start, none, WriteEvent::Done);
    lemma_write_run_push(start, one, WriteEvent::Space(free));
    lemma_write_run_push(start, two, next);
    assert(seq![WriteEvent::Done, WriteEvent::Space(free), next] =~= two.push(next));
}

/// What goes wrong in an upload is told when it ends, whatever comes in between: a file that is already
/// there is a conflict, an upload that broke off ends with its own error, and any other failure is told
/// with the step that failed.
pub proof fn failed_upload_tells_why(
    write: LocalWrite,
    store: StoreView,
    event: WriteEvent,
    a: WriteEvent,
    b: WriteEvent,
)
    ensures
        ({
            let end = write_advance(
                write_advance(write_advance(write_start(write, store), event), a),
                b,
            ).write.step;
            let taken = event matches WriteEvent::Failed(e) && e is AlreadyExists;
            let conflict = WriteStep::Finished { result: Err(StorageError::Conflict) };
            let failed = |step: Step|
                WriteStep::Finished {
                    result: Err(
                        StorageError::Io(IoFailure::Failed(step, event->Failed_0.text())),
                    ),
                };
            &&& write.step is Reserve && taken ==> end == conflict
            &&& write.step is Reserve && event is Failed && !taken ==> end == failed(
                Step::ReserveId,
            )
            &&& write.step is CheckSpace && event is Failed ==> end == failed(Step::DiskCheck)
            &&& write.step is CreateTemp && !write.concat && taken ==> end == conflict
            &&& write.step is CreateTemp && !write.concat && event is Failed && !taken ==> end
                == failed(Step::CreateTemp)
            &&& write.step is CreateTemp && write.concat && event is Failed ==> end == failed(
                Step::CreateTarget,
            )
            &&& write.step is NextChunk ==> (event matches WriteEvent::Broken(error) ==> end == (
            WriteStep::Finished { result: Err(error) }))
            &&& write.step is WriteChunk && event is Failed ==> end == failed(Step::Write)
            &&& write.step is Flush && event is Failed ==> end == failed(Step::Flush)
            &&& write.step is Publish && taken ==> end == conflict
            &&& write.step is Publish && event is Failed && !taken ==> end == failed(Step::Publish)
        }),
{
}

/// What goes wrong with a part of a concatenation is told when it ends, whatever comes in between: a part
/// that is not there is missing, and one that is no regular file or cannot be read is an error.
pub proof fn failed_part_is_told(
    write: LocalWrite,
    store: StoreView,
    event: WriteEvent,
    a: WriteEvent,
    b: WriteEvent,
)
    requires
        write.valid(),
    ensures
        ({
            let end = write_advance(
                write_advance(write_advance(write_start(write, store), event), a),
                b,
            ).write.step;
            let ended = |error: StorageError| WriteStep::Finished { result: Err(error) };
            &&& write.step is OpenPart && (event matches WriteEvent::Failed(e) && e is NotFound)
                ==> end == ended(StorageError::NotFound)
            &&& write.step is OpenPart && (event matches WriteEvent::Failed(e) && !(e is NotFound))
                ==> end == ended(
                StorageError::Io(IoFailure::Failed(Step::OpenRegular, event->Failed_0.text())),
            )
            &&& write.step is OpenPart && event == WriteEvent::Opened(false) ==> end == ended(
                StorageError::Io(IoFailure::NotRegular),
            )
            &&& write.step is OpenPart ==> (event matches WriteEvent::MetadataFailed(e) ==> end
                == ended(StorageError::Io(IoFailure::Failed(Step::FileMetadata, e))))
            &&& write.step is StatPart ==> (event matches WriteEvent::MetadataFailed(e) ==> end
                == ended(StorageError::Io(IoFailure::Failed(Step::PartMetadata, e))))
            &&& write.step matches WriteStep::StatPart { index } ==> (event == WriteEvent::Opened(
                false,
            ) ==> end == ended(
                StorageError::Io(IoFailure::PartNotRegular(write.parts@[index as int])),
            ))
            &&& write.step matches WriteStep::CopyPart { index } ==> (event matches WriteEvent::Failed(
                e,
            ) ==> end == ended(
                StorageError::Io(IoFailure::CopyPart(write.parts@[index as int], e.text())),
            ))
        }),
{
}

/// A concatenation whose first part, or the part behind the one that was copied, is not stored ends with
/// the part missing.
pub proof fn missing_part_ends_a_concatenation(
    write: LocalWrite,
    store: StoreView,
    index: int,
    a: WriteEvent,
    b: WriteEvent,
)
    requires
        write.concat,
        0 <= index < write.parts@.len() <= usize::MAX,
        store.resolved(write.parts@[index]@) is None,
        if index == 0 {
            write.step is CreateTemp
        } else {
            write.step == (WriteStep::CopyPart { index: (index - 1) as usize })
        },
    ensures
        write_advance(
            write_advance(write_advance(write_start(write, store), WriteEvent::Done), a),
            b,
        ).write.step == (WriteStep::Finished { result: Err(StorageError::NotFound) }),
{
}

/// A write goes on only with an answer to its step: what does not answer it changes nothing.
pub proof fn write_waits_for_its_answer(write: LocalWrite, store: StoreView, event: WriteEvent)
    requires
        match write.step {
            WriteStep::Reserve => !(event is Done || event is Failed),
            WriteStep::CheckSpace => !(event is Space || event is Failed),
            WriteStep::CreateTemp => !(event is Done || event is Failed),
            WriteStep::NextChunk { .. } => !(event is Chunk || event is End || event is Broken),
            WriteStep::WriteChunk { .. } => !(event is Done || event is Failed),
            WriteStep::OpenPart { .. } => !(event is Opened || event is Failed || event
                is MetadataFailed),
            WriteStep::StatPart { .. } => !(event is Opened || event is MetadataFailed),
            WriteStep::CopyPart { .. } => !(event is Done || event is Failed),
            WriteStep::Flush { .. } => !(event is Done || event is Failed),
            WriteStep::Publish { .. } => !(event is Done || event is Failed),
            WriteStep::Finished { .. } => true,
            _ => false,
        },
    ensures
        write.step_after(store, event) == write.step,
        write.store_after(store, event) == store,
{
}

} // verus!
