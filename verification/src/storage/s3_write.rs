//! Writing to an object store: uploads, concatenations and renames.
//!
//! The writer is a state machine. Its step says what is to be done next; the outcome is handed
//! back as an event. An ID is reserved by an object of its own while it is written.

use vstd::prelude::*;
use vstd::string::*;

use crate::error::{IoFailure, StorageError, Step};
use crate::storage::capability::{allowed, granted, moved, option_view, without, Capabilities};
use crate::storage::local_write::saturating_sum;
use crate::storage::names::{is_component, safe_extension, stored_extension, valid_component};
use crate::storage::s3::{
    extension_of_key, found, key_extension, listed_object, map_object_store_error, object_failure,
    object_path, object_text, reservation_text, temp_text, Listed, ObjectError, S3Backend,
};

verus! {

/// What is written.
#[derive(Debug, Clone, Copy, PartialEq, Eq, Structural)]
pub enum S3Job {
    /// A file whose contents are at hand.
    Put,
    /// A file whose contents come in chunks.
    PutStream,
    /// A file made of stored files, which are deleted then.
    Concat,
    /// A copy of a stored file, which is deleted then.
    Rename,
}

/// What the writer has to do next.
#[derive(Debug, PartialEq, Eq)]
pub enum S3Step {
    /// Look up the object of the old ID.
    StatSource,
    /// Put the reservation, which must not exist.
    Reserve,
    /// Look up the object of the new ID.
    CheckId,
    /// Put the object, which must not exist.
    Put,
    /// Copy the object of the old ID to the key of the new one, which must not exist.
    Copy,
    /// Start the upload of the temporary object.
    StartUpload,
    /// Wait for the next chunk of the upload.
    NextChunk { total: u64 },
    /// Hand the chunk that just came to the upload.
    WriteChunk { total: u64 },
    /// Look up the object of a part.
    ListPart { index: usize },
    /// Get the object of a part that was found.
    GetPart { index: usize },
    /// Wait for the next chunk of a part.
    NextPartChunk { index: usize },
    /// Hand the chunk of a part that just came to the upload.
    WritePartChunk { index: usize },
    /// Complete the upload.
    FinishUpload { total: u64 },
    /// Break the upload off.
    AbortUpload { error: StorageError },
    /// Remove the temporary object after the upload failed.
    DiscardTemp { error: StorageError },
    /// Copy the temporary object to the key of the new ID, which must not exist.
    Publish { total: u64 },
    /// Remove the temporary object.
    RemoveTemp { result: Result<u64, StorageError> },
    /// Remove the reservation.
    Release { result: Result<u64, StorageError> },
    /// Look up the object of a file that the new one replaces.
    ListOld { index: usize, total: u64 },
    /// Remove the object that was found.
    DeleteOld { index: usize, total: u64 },
    /// Nothing: the work is over.
    Finished { result: Result<u64, StorageError> },
}

/// What came of a step.
#[derive(Debug, PartialEq, Eq)]
pub enum S3Event {
    Done,
    Failed(ObjectError),
    Listed(Listed),
    /// A chunk of that many bytes came.
    Chunk(u64),
    /// There are no more chunks.
    End,
    /// The upload broke off.
    Broken(StorageError),
}

/// A file that is being written.
#[derive(Debug, PartialEq, Eq)]
pub struct S3Write {
    pub job: S3Job,
    pub id: String,
    /// The extension of the new file; for a rename it is known once the old file was found.
    pub ext: String,
    /// The parts of a concatenation, or the old ID of a rename.
    pub parts: Vec<String>,
    /// Where the object is that was found last.
    pub location: String,
    pub step: S3Step,
}

/// A write as it stands.
#[verifier::ext_equal]
pub struct S3View {
    pub job: S3Job,
    pub id: Seq<char>,
    pub ext: Seq<char>,
    pub parts: Seq<String>,
    pub location: Seq<char>,
    pub step: S3Step,
}

impl View for S3Write {
    type V = S3View;

    open spec fn view(&self) -> S3View {
        S3View {
            job: self.job,
            id: self.id@,
            ext: self.ext@,
            parts: self.parts@,
            location: self.location@,
            step: self.step,
        }
    }
}

/// A failure of handing a chunk to the upload or of completing it.
pub open spec fn upload_failure(job: S3Job, error: ObjectError) -> StorageError {
    StorageError::Io(
        IoFailure::Failed(
            if job == S3Job::Concat {
                Step::S3ConcatUpload
            } else {
                Step::S3Upload
            },
            error.text(),
        ),
    )
}

/// What is reserved next: nothing, where the ID cannot be stored.
pub open spec fn reserve_step(id: Seq<char>) -> S3Step {
    if is_component(id) {
        S3Step::Reserve
    } else {
        S3Step::Finished { result: Err(StorageError::Io(IoFailure::InvalidLogicalId)) }
    }
}

/// What follows once the ID is reserved and free.
pub open spec fn work_step(job: S3Job) -> S3Step {
    match job {
        S3Job::Put => S3Step::Put,
        S3Job::Rename => S3Step::Copy,
        _ => S3Step::StartUpload,
    }
}

/// What follows once the parts before `index` were uploaded.
pub open spec fn upload_step(parts: Seq<String>, index: int) -> S3Step {
    if index >= parts.len() {
        S3Step::FinishUpload { total: 0 }
    } else {
        S3Step::ListPart { index: index as usize }
    }
}

/// What follows once the old files before `index` were dealt with.
pub open spec fn old_step(parts: Seq<String>, index: int, total: u64) -> S3Step {
    if index >= parts.len() {
        S3Step::Finished { result: Ok(total) }
    } else {
        S3Step::ListOld { index: index as usize, total }
    }
}

impl S3View {
    /// The part that the step is about is one of the parts, and a rename has one.
    pub open spec fn valid(self) -> bool {
        &&& self.parts.len() <= usize::MAX
        &&& match self.step {
            S3Step::StatSource => self.job == S3Job::Rename,
            S3Step::ListPart { index } => index < self.parts.len(),
            S3Step::GetPart { index } => index < self.parts.len(),
            S3Step::NextPartChunk { index } => index < self.parts.len(),
            S3Step::WritePartChunk { index } => index < self.parts.len(),
            S3Step::ListOld { index, .. } => index < self.parts.len(),
            S3Step::DeleteOld { index, .. } => index < self.parts.len(),
            _ => true,
        }
    }

    /// The extension after the event: that of the old file, once it was found.
    pub open spec fn ext_after(self, event: S3Event) -> Seq<char> {
        match (self.step, event) {
            (S3Step::StatSource, S3Event::Listed(Listed::Object(entry))) => key_extension(
                entry.location@,
            ),
            _ => self.ext,
        }
    }

    /// The location after the event: that of the object that was listed for a part.
    pub open spec fn location_after(self, event: S3Event) -> Seq<char> {
        match (self.step, event) {
            (S3Step::ListPart { .. }, S3Event::Listed(Listed::Object(entry))) => entry.location@,
            (S3Step::ListOld { .. }, S3Event::Listed(Listed::Object(entry))) => entry.location@,
            _ => self.location,
        }
    }

    /// What is to be done after the event. An event that does not answer the step changes nothing.
    pub open spec fn step_after(self, event: S3Event) -> S3Step {
        match (self.step, event) {
            (S3Step::StatSource, S3Event::Listed(listed)) => match found(listed) {
                Ok(_) => reserve_step(self.id),
                Err(error) => S3Step::Finished { result: Err(error) },
            },
            (S3Step::Reserve, S3Event::Done) => S3Step::CheckId,
            (S3Step::Reserve, S3Event::Failed(e)) => S3Step::Finished {
                result: Err(object_failure(e)),
            },
            (S3Step::CheckId, S3Event::Listed(listed)) => match found(listed) {
                Ok(_) => S3Step::Release { result: Err(StorageError::Conflict) },
                Err(StorageError::NotFound) => work_step(self.job),
                Err(error) => S3Step::Release { result: Err(error) },
            },
            (S3Step::Put, S3Event::Done) => S3Step::Release { result: Ok(0) },
            (S3Step::Put, S3Event::Failed(e)) => S3Step::Release { result: Err(object_failure(e)) },
            (S3Step::Copy, S3Event::Done) => S3Step::Release { result: Ok(0) },
            (S3Step::Copy, S3Event::Failed(e)) => S3Step::Release {
                result: Err(object_failure(e)),
            },
            (S3Step::StartUpload, S3Event::Done) => if self.job == S3Job::Concat {
                upload_step(self.parts, 0)
            } else {
                S3Step::NextChunk { total: 0 }
            },
            (S3Step::StartUpload, S3Event::Failed(e)) => S3Step::Release {
                result: Err(StorageError::Io(IoFailure::Failed(Step::S3MultipartInit, e.text()))),
            },
            (S3Step::NextChunk { total }, S3Event::Chunk(n)) => S3Step::WriteChunk {
                total: saturating_sum(total, n),
            },
            (S3Step::NextChunk { total }, S3Event::End) => S3Step::FinishUpload { total },
            (S3Step::NextChunk { .. }, S3Event::Broken(error)) => S3Step::AbortUpload { error },
            (S3Step::WriteChunk { total }, S3Event::Done) => S3Step::NextChunk { total },
            (S3Step::WriteChunk { .. }, S3Event::Failed(e)) => S3Step::AbortUpload {
                error: upload_failure(self.job, e),
            },
            (S3Step::ListPart { index }, S3Event::Listed(Listed::Nothing)) => S3Step::AbortUpload {
                error: StorageError::NotFound,
            },
            (S3Step::ListPart { index }, S3Event::Listed(Listed::Failed(e))) =>
            S3Step::AbortUpload {
                error: StorageError::Io(
                    IoFailure::FailedFor(Step::S3List, self.parts[index as int], e),
                ),
            },
            (S3Step::ListPart { index }, S3Event::Listed(Listed::Object(_))) => S3Step::GetPart {
                index,
            },
            (S3Step::GetPart { index }, S3Event::Done) => S3Step::NextPartChunk { index },
            (S3Step::GetPart { index }, S3Event::Failed(e)) => S3Step::AbortUpload {
                error: StorageError::Io(
                    IoFailure::FailedFor(Step::S3Get, self.parts[index as int], e.text()),
                ),
            },
            (S3Step::NextPartChunk { index }, S3Event::Chunk(_)) => S3Step::WritePartChunk {
                index,
            },
            (S3Step::NextPartChunk { index }, S3Event::End) => upload_step(self.parts, index + 1),
            (S3Step::NextPartChunk { index }, S3Event::Failed(e)) => S3Step::AbortUpload {
                error: StorageError::Io(
                    IoFailure::FailedFor(Step::S3Read, self.parts[index as int], e.text()),
                ),
            },
            (S3Step::WritePartChunk { index }, S3Event::Done) => S3Step::NextPartChunk { index },
            (S3Step::WritePartChunk { .. }, S3Event::Failed(e)) => S3Step::AbortUpload {
                error: upload_failure(self.job, e),
            },
            (S3Step::FinishUpload { total }, S3Event::Done) => S3Step::Publish { total },
            (S3Step::FinishUpload { .. }, S3Event::Failed(e)) => S3Step::DiscardTemp {
                error: upload_failure(self.job, e),
            },
            (S3Step::AbortUpload { error }, _) => S3Step::Release { result: Err(error) },
            (S3Step::DiscardTemp { error }, _) => S3Step::Release { result: Err(error) },
            (S3Step::Publish { total }, S3Event::Done) => S3Step::RemoveTemp { result: Ok(total) },
            (S3Step::Publish { .. }, S3Event::Failed(e)) => S3Step::RemoveTemp {
                result: Err(object_failure(e)),
            },
            (S3Step::RemoveTemp { result }, _) => S3Step::Release { result },
            (S3Step::Release { result }, _) => match result {
                Ok(total) => if self.job == S3Job::Concat || self.job == S3Job::Rename {
                    old_step(self.parts, 0, total)
                } else {
                    S3Step::Finished { result }
                },
                Err(_) => S3Step::Finished { result },
            },
            (S3Step::ListOld { index, total }, S3Event::Listed(Listed::Object(_))) =>
            S3Step::DeleteOld { index, total },
            (S3Step::ListOld { index, total }, S3Event::Listed(_)) => old_step(
                self.parts,
                index + 1,
                total,
            ),
            (S3Step::DeleteOld { index, total }, S3Event::Done) => old_step(
                self.parts,
                index + 1,
                total,
            ),
            (S3Step::DeleteOld { index, total }, S3Event::Failed(e)) => if self.job
                == S3Job::Rename {
                S3Step::Finished {
                    result: Err(StorageError::Io(IoFailure::Failed(Step::S3Delete, e.text()))),
                }
            } else {
                old_step(self.parts, index + 1, total)
            },
            (step, _) => step,
        }
    }

    /// The capabilities once the write is over. A file that was stored has the capability that was
    /// given, the parts of a concatenation give theirs up, and that of a renamed file moves along.
    pub open spec fn settled(
        self,
        capabilities: Map<Seq<char>, Seq<char>>,
        capability: Option<Seq<char>>,
    ) -> Map<Seq<char>, Seq<char>> {
        match self.step {
            S3Step::Finished { result: Ok(_) } => match self.job {
                S3Job::Put => granted(capabilities, self.id, capability),
                S3Job::PutStream => granted(capabilities, self.id, capability),
                S3Job::Concat => granted(
                    without(capabilities, self.parts, self.parts.len() as int),
                    self.id,
                    capability,
                ),
                S3Job::Rename => if self.parts.len() > 0 {
                    moved(capabilities, self.parts[0]@, self.id)
                } else {
                    capabilities
                },
            },
            _ => capabilities,
        }
    }

    /// The write after the event.
    pub open spec fn after(self, event: S3Event) -> S3View {
        S3View {
            ext: self.ext_after(event),
            location: self.location_after(event),
            step: self.step_after(event),
            ..self
        }
    }
}

impl S3Write {
    /// Starts to store a file whose contents are at hand.
    pub fn put(id: &str, filename: &str) -> (w: S3Write)
        ensures
            w@.valid(),
            w.job == S3Job::Put,
            w.id@ == id@,
            w.ext@ == stored_extension(filename@),
            w.parts@.len() == 0,
            w.step == reserve_step(id@),
    {
        Self::start(S3Job::Put, id, filename, Vec::new())
    }

    /// Starts to store a file whose contents come in chunks.
    pub fn put_stream(id: &str, filename: &str) -> (w: S3Write)
        ensures
            w@.valid(),
            w.job == S3Job::PutStream,
            w.id@ == id@,
            w.ext@ == stored_extension(filename@),
            w.parts@.len() == 0,
            w.step == reserve_step(id@),
    {
        Self::start(S3Job::PutStream, id, filename, Vec::new())
    }

    /// Starts to concatenate stored files.
    pub fn concat(target_id: &str, filename: &str, parts: Vec<String>) -> (w: S3Write)
        ensures
            w@.valid(),
            w.job == S3Job::Concat,
            w.id@ == target_id@,
            w.ext@ == stored_extension(filename@),
            w.parts == parts,
            w.step == reserve_step(target_id@),
    {
        Self::start(S3Job::Concat, target_id, filename, parts)
    }

    fn start(job: S3Job, id: &str, filename: &str, parts: Vec<String>) -> (w: S3Write)
        ensures
            w@.valid(),
            w.job == job,
            w.id@ == id@,
            w.ext@ == stored_extension(filename@),
            w.parts == parts,
            w.step == reserve_step(id@),
    {
        assert(parts.len() <= usize::MAX);
        S3Write {
            job,
            id: id.to_owned(),
            ext: safe_extension(filename),
            parts,
            location: "".to_owned(),
            step: first_step(id),
        }
    }

    /// Starts to rename a stored file.
    pub fn rename(old_id: &str, new_id: &str) -> (w: S3Write)
        ensures
            w@.valid(),
            w.job == S3Job::Rename,
            w.id@ == new_id@,
            w.parts@.len() == 1,
            w.parts@[0]@ == old_id@,
            w.step == S3Step::StatSource,
    {
        let mut parts: Vec<String> = Vec::new();
        parts.push(old_id.to_owned());
        S3Write {
            job: S3Job::Rename,
            id: new_id.to_owned(),
            ext: "".to_owned(),
            parts,
            location: "".to_owned(),
            step: S3Step::StatSource,
        }
    }

    /// Starts to rename a stored file for a bearer of `capability`, which must be that of the file.
    pub fn rename_allowed(
        capabilities: &Capabilities,
        old_id: &str,
        new_id: &str,
        capability: Option<&str>,
    ) -> (w: S3Write)
        ensures
            w@.valid(),
            w.job == S3Job::Rename,
            w.id@ == new_id@,
            w.parts@.len() == 1,
            w.parts@[0]@ == old_id@,
            w.step == (if allowed(capabilities@, old_id@, option_view(capability)) {
                S3Step::StatSource
            } else {
                S3Step::Finished { result: Err(StorageError::Forbidden) }
            }),
    {
        let write = Self::rename(old_id, new_id);
        if capabilities.allows(old_id, capability) {
            write
        } else {
            write.refused()
        }
    }

    /// Starts to concatenate stored files for a bearer of `capability`, which must be that of every
    /// part.
    pub fn concat_allowed(
        capabilities: &Capabilities,
        target_id: &str,
        filename: &str,
        parts: Vec<String>,
        capability: Option<&str>,
    ) -> (w: S3Write)
        ensures
            w@.valid(),
            w.job == S3Job::Concat,
            w.id@ == target_id@,
            w.ext@ == stored_extension(filename@),
            w.parts == parts,
            w.step == (if forall|i: int|
                0 <= i < parts@.len() ==> allowed(
                    capabilities@,
                    #[trigger] parts@[i]@,
                    option_view(capability),
                ) {
                reserve_step(target_id@)
            } else {
                S3Step::Finished { result: Err(StorageError::Forbidden) }
            }),
    {
        let permitted = capabilities.allows_all(&parts, capability);
        let write = Self::concat(target_id, filename, parts);
        if permitted {
            write
        } else {
            write.refused()
        }
    }

    /// The write, ended before it began.
    fn refused(self) -> (w: S3Write)
        requires
            self@.valid(),
        ensures
            w@ == (S3View {
                step: S3Step::Finished { result: Err(StorageError::Forbidden) },
                ..self@
            }),
            w.parts == self.parts,
    {
        let S3Write { job, id, ext, parts, location, .. } = self;
        let step = S3Step::Finished { result: Err(StorageError::Forbidden) };
        S3Write { job, id, ext, parts, location, step }
    }

    /// The key of the new object.
    pub fn target_key(&self) -> (r: String)
        ensures
            r@ == object_path(object_text(self.id@, self.ext@)),
            is_component(self.id@) && is_component(self.ext@) ==> r@ == object_text(
                self.id@,
                self.ext@,
            ),
    {
        S3Backend::object_key(self.id.as_str(), self.ext.as_str())
    }

    /// The key of the object that is renamed.
    pub fn source_key(&self) -> (r: Option<String>)
        ensures
            match r {
                Some(key) => self.parts@.len() > 0 && key@ == object_path(
                    object_text(self.parts@[0]@, self.ext@),
                ),
                None => self.parts@.len() == 0,
            },
    {
        if self.parts.len() == 0 {
            None
        } else {
            Some(S3Backend::object_key(self.parts[0].as_str(), self.ext.as_str()))
        }
    }

    /// The key of the temporary object.
    pub fn temp_key(&self, pid: u32, count: u64) -> (r: String)
        ensures
            r@ == object_path(temp_text(self.id@, pid, count, self.ext@)),
    {
        S3Backend::temp_key(self.id.as_str(), self.ext.as_str(), pid, count)
    }

    /// The key of the reservation.
    pub fn reservation_key(&self) -> (r: String)
        ensures
            r@ == object_path(reservation_text(self.id@)),
    {
        S3Backend::reservation_key(self.id.as_str())
    }

    /// Records the capabilities of a write that is over. `capability` is that of the request.
    pub fn settle(&self, capabilities: &mut Capabilities, capability: Option<&str>)
        ensures
            final(capabilities)@ == self@.settled(old(capabilities)@, option_view(capability)),
    {
        match &self.step {
            S3Step::Finished { result: Ok(_) } => match self.job {
                S3Job::Put => capabilities.grant(self.id.as_str(), capability),
                S3Job::PutStream => capabilities.grant(self.id.as_str(), capability),
                S3Job::Concat => {
                    capabilities.forget_all(&self.parts);
                    capabilities.grant(self.id.as_str(), capability);
                },
                S3Job::Rename => if self.parts.len() > 0 {
                    capabilities.reassign(self.parts[0].as_str(), self.id.as_str());
                },
            },
            _ => {},
        }
    }

    /// Goes on with what came of the step.
    #[verifier::rlimit(60)]
    pub fn step(self, event: S3Event) -> (w: S3Write)
        requires
            self@.valid(),
        ensures
            w@.valid(),
            w@ == self@.after(event),
    {
        let S3Write { job, id, ext, parts, location, step } = self;
        let count: usize = parts.len();
        match (step, event) {
            (S3Step::StatSource, S3Event::Listed(listed)) => match listed_object(listed) {
                Ok(entry) => {
                    let ext = extension_of_key(entry.location.as_str());
                    let step = first_step(id.as_str());
                    S3Write { job, id, ext, parts, location, step }
                },
                Err(error) => {
                    let step = S3Step::Finished { result: Err(error) };
                    S3Write { job, id, ext, parts, location, step }
                },
            },
            (S3Step::ListPart { index }, S3Event::Listed(Listed::Object(entry))) => S3Write {
                job,
                id,
                ext,
                parts,
                location: entry.location,
                step: S3Step::GetPart { index },
            },
            (S3Step::ListOld { index, total }, S3Event::Listed(Listed::Object(entry))) => S3Write {
                job,
                id,
                ext,
                parts,
                location: entry.location,
                step: S3Step::DeleteOld { index, total },
            },
            (step, event) => {
                let step = next_step(job, &parts, step, event);
                S3Write { job, id, ext, parts, location, step }
            },
        }
    }
}

fn first_step(id: &str) -> (r: S3Step)
    ensures
        r == reserve_step(id@),
{
    if valid_component(id) {
        S3Step::Reserve
    } else {
        S3Step::Finished { result: Err(StorageError::Io(IoFailure::InvalidLogicalId)) }
    }
}

fn next_upload(parts: &Vec<String>, index: usize) -> (r: S3Step)
    ensures
        r == upload_step(parts@, index as int),
{
    if index >= parts.len() {
        S3Step::FinishUpload { total: 0 }
    } else {
        S3Step::ListPart { index }
    }
}

fn next_old(parts: &Vec<String>, index: usize, total: u64) -> (r: S3Step)
    ensures
        r == old_step(parts@, index as int, total),
{
    if index >= parts.len() {
        S3Step::Finished { result: Ok(total) }
    } else {
        S3Step::ListOld { index, total }
    }
}

fn as_upload_failure(job: S3Job, error: ObjectError) -> (r: StorageError)
    ensures
        r == upload_failure(job, error),
{
    let step = match job {
        S3Job::Concat => Step::S3ConcatUpload,
        _ => Step::S3Upload,
    };
    StorageError::Io(IoFailure::Failed(step, error.into_text()))
}

/// The step after an event that changes nothing but the step.
#[verifier::rlimit(60)]
fn next_step(job: S3Job, parts: &Vec<String>, step: S3Step, event: S3Event) -> (r: S3Step)
    requires
        ({
            let write = S3View {
                job,
                id: Seq::empty(),
                ext: Seq::empty(),
                parts: parts@,
                location: Seq::empty(),
                step,
            };
            write.valid()
        }),
        !(step is StatSource && event is Listed),
        !(step is ListPart && (event matches S3Event::Listed(l) && l is Object)),
        !(step is ListOld && (event matches S3Event::Listed(l) && l is Object)),
    ensures
        forall|write: S3View|
            write.job == job && write.parts == parts@ && write.step == step ==> r
                == #[trigger] write.step_after(event),
{
    let count: usize = parts.len();
    match (step, event) {
        (S3Step::Reserve, S3Event::Done) => S3Step::CheckId,
        (S3Step::Reserve, S3Event::Failed(e)) => S3Step::Finished {
            result: Err(map_object_store_error(e)),
        },
        (S3Step::CheckId, S3Event::Listed(listed)) => match listed_object(listed) {
            Ok(_) => S3Step::Release { result: Err(StorageError::Conflict) },
            Err(StorageError::NotFound) => match job {
                S3Job::Put => S3Step::Put,
                S3Job::Rename => S3Step::Copy,
                _ => S3Step::StartUpload,
            },
            Err(error) => S3Step::Release { result: Err(error) },
        },
        (S3Step::Put, S3Event::Done) => S3Step::Release { result: Ok(0) },
        (S3Step::Put, S3Event::Failed(e)) => S3Step::Release {
            result: Err(map_object_store_error(e)),
        },
        (S3Step::Copy, S3Event::Done) => S3Step::Release { result: Ok(0) },
        (S3Step::Copy, S3Event::Failed(e)) => S3Step::Release {
            result: Err(map_object_store_error(e)),
        },
        (S3Step::StartUpload, S3Event::Done) => match job {
            S3Job::Concat => next_upload(parts, 0),
            _ => S3Step::NextChunk { total: 0 },
        },
        (S3Step::StartUpload, S3Event::Failed(e)) => S3Step::Release {
            result: Err(StorageError::Io(IoFailure::Failed(Step::S3MultipartInit, e.into_text()))),
        },
        (S3Step::NextChunk { total }, S3Event::Chunk(n)) => S3Step::WriteChunk {
            total: total.saturating_add(n),
        },
        (S3Step::NextChunk { total }, S3Event::End) => S3Step::FinishUpload { total },
        (S3Step::NextChunk { .. }, S3Event::Broken(error)) => S3Step::AbortUpload { error },
        (S3Step::WriteChunk { total }, S3Event::Done) => S3Step::NextChunk { total },
        (S3Step::WriteChunk { .. }, S3Event::Failed(e)) => S3Step::AbortUpload {
            error: as_upload_failure(job, e),
        },
        (S3Step::ListPart { .. }, S3Event::Listed(Listed::Nothing)) => S3Step::AbortUpload {
            error: StorageError::NotFound,
        },
        (S3Step::ListPart { index }, S3Event::Listed(Listed::Failed(e))) => S3Step::AbortUpload {
            error: StorageError::Io(IoFailure::FailedFor(Step::S3List, parts[index].clone(), e)),
        },
        (S3Step::GetPart { index }, S3Event::Done) => S3Step::NextPartChunk { index },
        (S3Step::GetPart { index }, S3Event::Failed(e)) => S3Step::AbortUpload {
            error: StorageError::Io(
                IoFailure::FailedFor(Step::S3Get, parts[index].clone(), e.into_text()),
            ),
        },
        (S3Step::NextPartChunk { index }, S3Event::Chunk(_)) => S3Step::WritePartChunk { index },
        (S3Step::NextPartChunk { index }, S3Event::End) => next_upload(parts, index + 1),
        (S3Step::NextPartChunk { index }, S3Event::Failed(e)) => S3Step::AbortUpload {
            error: StorageError::Io(
                IoFailure::FailedFor(Step::S3Read, parts[index].clone(), e.into_text()),
            ),
        },
        (S3Step::WritePartChunk { index }, S3Event::Done) => S3Step::NextPartChunk { index },
        (S3Step::WritePartChunk { .. }, S3Event::Failed(e)) => S3Step::AbortUpload {
            error: as_upload_failure(job, e),
        },
        (S3Step::FinishUpload { total }, S3Event::Done) => S3Step::Publish { total },
        (S3Step::FinishUpload { .. }, S3Event::Failed(e)) => S3Step::DiscardTemp {
            error: as_upload_failure(job, e),
        },
        (S3Step::AbortUpload { error }, _) => S3Step::Release { result: Err(error) },
        (S3Step::DiscardTemp { error }, _) => S3Step::Release { result: Err(error) },
        (S3Step::Publish { total }, S3Event::Done) => S3Step::RemoveTemp { result: Ok(total) },
        (S3Step::Publish { .. }, S3Event::Failed(e)) => S3Step::RemoveTemp {
            result: Err(map_object_store_error(e)),
        },
        (S3Step::RemoveTemp { result }, _) => S3Step::Release { result },
        (S3Step::Release { result }, _) => match result {
            Ok(total) => match job {
                S3Job::Concat => next_old(parts, 0, total),
                S3Job::Rename => next_old(parts, 0, total),
                _ => S3Step::Finished { result: Ok(total) },
            },
            Err(error) => S3Step::Finished { result: Err(error) },
        },
        (S3Step::ListOld { index, total }, S3Event::Listed(_)) => next_old(
            parts,
            index + 1,
            total,
        ),
        (S3Step::DeleteOld { index, total }, S3Event::Done) => next_old(parts, index + 1, total),
        (S3Step::DeleteOld { index, total }, S3Event::Failed(e)) => match job {
            S3Job::Rename => S3Step::Finished {
                result: Err(StorageError::Io(IoFailure::Failed(Step::S3Delete, e.into_text()))),
            },
            _ => next_old(parts, index + 1, total),
        },
        (step, _) => step,
    }
}

/// The capability of a stored, joined or renamed file is the one that lets its bearer change it;
/// the ID that a file was renamed from, and the parts that it was made of, grant nothing.
pub proof fn settled_capability_is_required(
    write: S3View,
    capabilities: Map<Seq<char>, Seq<char>>,
    capability: Option<Seq<char>>,
    presented: Seq<char>,
)
    requires
        write.step matches S3Step::Finished { result } && result is Ok,
        write.job == S3Job::Rename ==> write.parts.len() == 1,
        forall|i: int| 0 <= i < write.parts.len() ==> (#[trigger] write.parts[i])@ != write.id,
    ensures
        ({
            let after = write.settled(capabilities, capability);
            &&& allowed(after, write.id, Some(presented)) == (if write.job == S3Job::Rename {
                allowed(capabilities, write.parts[0]@, Some(presented))
            } else {
                capability == Some(presented)
            })
            &&& write.job == S3Job::Concat || write.job == S3Job::Rename ==> forall|i: int|
                0 <= i < write.parts.len() ==> !allowed(
                    after,
                    (#[trigger] write.parts[i])@,
                    Some(presented),
                )
        }),
{
    lemma_without(capabilities, write.parts, write.parts.len() as int);
}

proof fn lemma_without(capabilities: Map<Seq<char>, Seq<char>>, ids: Seq<String>, n: int)
    requires
        0 <= n <= ids.len(),
    ensures
        forall|i: int|
            0 <= i < n ==> !without(capabilities, ids, n).dom().contains((#[trigger] ids[i])@),
    decreases n,
{
    if n > 0 {
        lemma_without(capabilities, ids, n - 1);
    }
}

/// What a writer has in the object store: objects that it put and did not yet ask to be removed.
#[verifier::ext_equal]
pub struct S3Held {
    pub reservation: bool,
    /// The temporary object, or an upload of it that has begun.
    pub temp: bool,
    pub target: bool,
    /// Whether a lookup has shown that the ID is free.
    pub free: bool,
}

/// What the writer has in the object store after the event.
pub open spec fn s3_held_after(held: S3Held, step: S3Step, event: S3Event) -> S3Held {
    match (step, event) {
        (S3Step::Reserve, S3Event::Done) => S3Held { reservation: true, ..held },
        (S3Step::CheckId, S3Event::Listed(Listed::Nothing)) => S3Held { free: true, ..held },
        (S3Step::StartUpload, S3Event::Done) => S3Held { temp: true, ..held },
        (S3Step::Put, S3Event::Done) => S3Held { target: true, ..held },
        (S3Step::Copy, S3Event::Done) => S3Held { target: true, ..held },
        (S3Step::Publish { .. }, S3Event::Done) => S3Held { target: true, ..held },
        (S3Step::AbortUpload { .. }, _) => S3Held { temp: false, ..held },
        (S3Step::DiscardTemp { .. }, _) => S3Held { temp: false, ..held },
        (S3Step::RemoveTemp { .. }, _) => S3Held { temp: false, ..held },
        (S3Step::Release { .. }, _) => S3Held { reservation: false, ..held },
        _ => held,
    }
}

/// A writer together with what it has in the object store, after a sequence of events.
pub open spec fn s3_run(write: S3View, events: Seq<S3Event>) -> (S3View, S3Held)
    decreases events.len(),
{
    if events.len() == 0 {
        (write, S3Held { reservation: false, temp: false, target: false, free: false })
    } else {
        let (before, held) = s3_run(write, events.drop_last());
        (before.after(events.last()), s3_held_after(held, before.step, events.last()))
    }
}

spec fn s3_holds(write: S3View, held: S3Held) -> bool {
    &&& write.parts.len() <= usize::MAX
    &&& held.target ==> held.free
    &&& match write.step {
        S3Step::StatSource | S3Step::Reserve => !held.reservation && !held.temp && !held.target,
        S3Step::CheckId => held.reservation && !held.temp && !held.target,
        S3Step::Put | S3Step::Copy | S3Step::StartUpload => held.reservation && !held.temp
            && !held.target && held.free,
        S3Step::RemoveTemp { result } => held.reservation && held.temp && held.target == (
        result is Ok),
        S3Step::Release { result } => held.reservation && !held.temp && held.target == (
        result is Ok),
        S3Step::ListOld { .. } => !held.reservation && !held.temp && held.target,
        S3Step::DeleteOld { .. } => !held.reservation && !held.temp && held.target,
        S3Step::Finished { result } => {
            &&& !held.reservation && !held.temp
            &&& result is Ok ==> held.target
            &&& result is Err && write.job != S3Job::Rename ==> !held.target
        },
        _ => held.reservation && held.temp && !held.target && held.free,
    }
}

proof fn lemma_s3_run(write: S3View, events: Seq<S3Event>)
    requires
        write.step is Reserve || write.step is StatSource,
        write.parts.len() <= usize::MAX,
    ensures
        s3_holds(s3_run(write, events).0, s3_run(write, events).1),
        s3_run(write, events).0.job == write.job,
    decreases events.len(),
{
    if events.len() > 0 {
        lemma_s3_run(write, events.drop_last());
    }
}

/// Whatever happens on the way, a writer that has finished holds neither a reservation nor a
/// temporary object. A success has put the new object. A failure has put none, but for a rename
/// that could not remove the old object.
pub proof fn finished_s3_write_leaves_no_trace(write: S3View, events: Seq<S3Event>)
    requires
        write.step is Reserve || write.step is StatSource,
        write.parts.len() <= usize::MAX,
    ensures
        ({
            let (end, held) = s3_run(write, events);
            end.step matches S3Step::Finished { result } ==> {
                &&& !held.reservation
                &&& !held.temp
                &&& result is Ok ==> held.target
                &&& result is Err && write.job != S3Job::Rename ==> !held.target
            }
        }),
{
    lemma_s3_run(write, events);
}

/// An object is put only under an ID that a lookup, made under its reservation, has shown to be
/// free.
pub proof fn s3_write_needs_a_free_id(write: S3View, events: Seq<S3Event>)
    requires
        write.step is Reserve || write.step is StatSource,
        write.parts.len() <= usize::MAX,
    ensures
        s3_run(write, events).1.target ==> s3_run(write, events).1.free,
{
    lemma_s3_run(write, events);
}

/// What goes wrong in a write is told when it ends, whatever comes in between: an ID that is taken is a
/// conflict, an upload that broke off ends with its own error, and any other failure is told with what
/// failed.
pub proof fn failed_s3_write_tells_why(write: S3View, event: S3Event, a: S3Event, b: S3Event)
    ensures
        ({
            let end = write.after(event).after(a).after(b).step;
            let ended = |error: StorageError| S3Step::Finished { result: Err(error) };
            let taken = event matches S3Event::Failed(e) && !(e is Other);
            let puts = write.step is Reserve || write.step is Put || write.step is Copy || write.step
                is Publish;
            &&& puts && taken ==> end == ended(StorageError::Conflict)
            &&& puts ==> (event matches S3Event::Failed(e) ==> (e matches ObjectError::Other(text)
                ==> end == ended(StorageError::Io(IoFailure::Message(text)))))
            &&& write.step is CheckId ==> (event matches S3Event::Listed(listed) ==> {
                &&& listed is Object ==> end == ended(StorageError::Conflict)
                &&& listed matches Listed::Failed(e) ==> end == ended(
                    StorageError::Io(IoFailure::Failed(Step::S3List, e)),
                )
                &&& listed is Nothing ==> write.after(event).step == (match write.job {
                    S3Job::Put => S3Step::Put,
                    S3Job::Rename => S3Step::Copy,
                    S3Job::PutStream => S3Step::StartUpload,
                    S3Job::Concat => S3Step::StartUpload,
                })
            })
            &&& write.step is StatSource ==> (event matches S3Event::Listed(listed) ==> {
                &&& listed is Nothing ==> end == ended(StorageError::NotFound)
                &&& listed matches Listed::Failed(e) ==> end == ended(
                    StorageError::Io(IoFailure::Failed(Step::S3List, e)),
                )
            })
            &&& write.step is StartUpload && event is Failed ==> end == ended(
                StorageError::Io(
                    IoFailure::Failed(Step::S3MultipartInit, event->Failed_0.text()),
                ),
            )
            &&& write.step is NextChunk ==> (event matches S3Event::Broken(error) ==> end == ended(
                error,
            ))
            &&& (write.step is WriteChunk || write.step is WritePartChunk || write.step
                is FinishUpload) && event is Failed ==> end == ended(
                StorageError::Io(
                    IoFailure::Failed(
                        if write.job == S3Job::Concat {
                            Step::S3ConcatUpload
                        } else {
                            Step::S3Upload
                        },
                        event->Failed_0.text(),
                    ),
                ),
            )
        }),
{
}

/// What goes wrong with a part of a concatenation is told when it ends, whatever comes in between: a part
/// that is not there is missing, and one that cannot be read is an error that names it.
pub proof fn failed_s3_part_is_told(write: S3View, event: S3Event, a: S3Event, b: S3Event, index: usize)
    ensures
        ({
            let end = write.after(event).after(a).after(b).step;
            let ended = |error: StorageError| S3Step::Finished { result: Err(error) };
            let failed = |step: Step, e: String|
                ended(StorageError::Io(IoFailure::FailedFor(step, write.parts[index as int], e)));
            &&& write.step == (S3Step::ListPart { index }) ==> {
                &&& event == S3Event::Listed(Listed::Nothing) ==> end == ended(StorageError::NotFound)
                &&& (event matches S3Event::Listed(listed) && listed is Failed) ==> end == failed(
                    Step::S3List,
                    event->Listed_0->Failed_0,
                )
                &&& (event matches S3Event::Listed(listed) && listed is Object) ==> write.after(
                    event,
                ).step == (S3Step::GetPart { index }) && write.after(event).location
                    == event->Listed_0->Object_0.location@
            }
            &&& write.step == (S3Step::GetPart { index }) && event is Failed ==> end == failed(
                Step::S3Get,
                event->Failed_0.text(),
            )
            &&& write.step == (S3Step::NextPartChunk { index }) && event is Failed ==> end == failed(
                Step::S3Read,
                event->Failed_0.text(),
            )
        }),
{
}

/// A rename that could not delete the old object ends in an error; a concatenation goes on with the next
/// part.
pub proof fn old_objects_are_deleted_one_by_one(
    write: S3View,
    event: S3Event,
    index: usize,
    total: u64,
)
    requires
        write.step == (S3Step::DeleteOld { index, total }),
        write.parts.len() <= usize::MAX,
        event is Done || event is Failed,
    ensures
        ({
            let next = write.after(event).step;
            let last = index + 1 >= write.parts.len();
            if event is Failed && write.job == S3Job::Rename {
                next == (S3Step::Finished {
                    result: Err(
                        StorageError::Io(
                            IoFailure::Failed(Step::S3Delete, event->Failed_0.text()),
                        ),
                    ),
                })
            } else if last {
                next == (S3Step::Finished { result: Ok(total) })
            } else {
                next == (S3Step::ListOld { index: (index + 1) as usize, total })
            }
        }),
{
}

/// A write goes on only with an answer to its step: what does not answer it changes nothing.
pub proof fn s3_write_waits_for_its_answer(write: S3View, event: S3Event)
    requires
        match write.step {
            S3Step::StatSource | S3Step::CheckId => !(event is Listed),
            S3Step::ListPart { .. } | S3Step::ListOld { .. } => !(event is Listed),
            S3Step::Reserve | S3Step::Put | S3Step::Copy | S3Step::StartUpload => !(event is Done
                || event is Failed),
            S3Step::WriteChunk { .. } | S3Step::GetPart { .. } | S3Step::WritePartChunk { .. } => !(
            event is Done || event is Failed),
            S3Step::FinishUpload { .. } | S3Step::Publish { .. } | S3Step::DeleteOld { .. } => !(
            event is Done || event is Failed),
            S3Step::NextChunk { .. } => !(event is Chunk || event is End || event is Broken),
            S3Step::NextPartChunk { .. } => !(event is Chunk || event is End || event is Failed),
            S3Step::Finished { .. } => true,
            _ => false,
        },
    ensures
        write.after(event) == write,
{
}

/// A write is begun exactly where its ID is one that can be stored.
pub proof fn s3_write_begins_with_a_storable_id(id: Seq<char>)
    ensures
        reserve_step(id) is Reserve <==> is_component(id),
        !is_component(id) ==> reserve_step(id) == (S3Step::Finished {
            result: Err(StorageError::Io(IoFailure::InvalidLogicalId)),
        }),
{
}

/// A write that has not succeeded changes no capability, and one that has changes those of its own files
/// only.
pub proof fn settling_is_of_its_own_files(
    write: S3View,
    capabilities: Map<Seq<char>, Seq<char>>,
    capability: Option<Seq<char>>,
    other: Seq<char>,
    presented: Seq<char>,
)
    ensures
        !(write.step matches S3Step::Finished { result } && result is Ok) ==> write.settled(
            capabilities,
            capability,
        ) == capabilities,
        other != write.id && (forall|i: int|
            0 <= i < write.parts.len() ==> (#[trigger] write.parts[i])@ != other) ==> (allowed(
            write.settled(capabilities, capability),
            other,
            Some(presented),
        ) <==> allowed(capabilities, other, Some(presented))),
{
    crate::storage::capability::given_up_capabilities_open_nothing(
        capabilities,
        write.parts,
        write.parts.len() as int,
        other,
        presented,
    );
    if write.parts.len() > 0 {
        assert(write.parts[0]@ == write.parts[0]@);
    }
}

} // verus!
