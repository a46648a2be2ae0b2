//! What a writer makes of an object store.
//!
//! The model follows a write on a map from keys to contents. It shows that an object that was
//! stored, joined or renamed holds the bytes that it should, and that a lookup of its ID finds it.

use vstd::prelude::*;
use vstd::string::*;

use crate::error::StorageError;
use crate::storage::local_disk::{capped, flat, parts_differ};
use crate::storage::names::{is_component, lemma_component_chars};
use crate::storage::s3::{
    entry_of, holds_id, key_extension, object_holds_one_id, object_key_round_trip, object_text,
    prefix_text, reservation_text, temp_text, Listed, ObjectEntry,
};
use crate::storage::s3_write::{old_step, upload_step, work_step, S3Event, S3Job, S3Step, S3View};

verus! {

/// Whether some object holds an ID.
pub open spec fn id_stored(objects: Map<Seq<char>, Seq<u8>>, id: Seq<char>) -> bool {
    exists|key: Seq<char>| #[trigger] objects.dom().contains(key) && holds_id(key, id)
}

/// The key of an object that holds an ID.
pub open spec fn key_in(objects: Map<Seq<char>, Seq<u8>>, id: Seq<char>) -> Seq<char> {
    choose|key: Seq<char>| #[trigger] objects.dom().contains(key) && holds_id(key, id)
}

/// The contents of the object that holds an ID.
pub open spec fn content_of(objects: Map<Seq<char>, Seq<u8>>, id: Seq<char>) -> Seq<u8> {
    objects[key_in(objects, id)]
}

/// Whether the object at `key`, and no other, holds `id`.
pub open spec fn found_at(
    objects: Map<Seq<char>, Seq<u8>>,
    id: Seq<char>,
    key: Seq<char>,
) -> bool {
    &&& objects.dom().contains(key)
    &&& holds_id(key, id)
    &&& forall|other: Seq<char>| #[trigger]
        objects.dom().contains(other) && holds_id(other, id) ==> other == key
}

/// Whether no ID has two objects, and every object that holds an ID has a key made of the ID and
/// an extension.
pub open spec fn tidy(objects: Map<Seq<char>, Seq<u8>>) -> bool {
    forall|key: Seq<char>, id: Seq<char>|
        #![trigger objects.dom().contains(key), holds_id(key, id)]
        objects.dom().contains(key) && holds_id(key, id) ==> found_at(objects, id, key)
            && is_component(key_extension(key)) && key == object_text(id, key_extension(key))
}

/// Whether a listing shows all objects, and nothing else.
pub open spec fn lists(entries: Seq<ObjectEntry>, objects: Map<Seq<char>, Seq<u8>>) -> bool {
    &&& forall|i: int|
        0 <= i < entries.len() ==> objects.dom().contains((#[trigger] entries[i]).location@)
            && entries[i].size == objects[entries[i].location@].len()
    &&& forall|key: Seq<char>| #[trigger]
        objects.dom().contains(key) ==> exists|i: int|
            0 <= i < entries.len() && (#[trigger] entries[i]).location@ == key
}

/// Whether a lookup of an ID gave what is there, or failed.
pub open spec fn lookup_true(
    objects: Map<Seq<char>, Seq<u8>>,
    id: Seq<char>,
    listed: Listed,
) -> bool {
    match listed {
        Listed::Nothing => !id_stored(objects, id),
        Listed::Failed(_) => true,
        Listed::Object(entry) => objects.dom().contains(entry.location@) && holds_id(
            entry.location@,
            id,
        ) && entry.size == objects[entry.location@].len(),
    }
}

/// The contents of the first `n` parts, one behind the other.
pub open spec fn joined(objects: Map<Seq<char>, Seq<u8>>, parts: Seq<String>, n: int) -> Seq<u8>
    decreases n,
{
    if n <= 0 {
        Seq::empty()
    } else {
        joined(objects, parts, n - 1) + content_of(objects, parts[n - 1]@)
    }
}

/// Whether the first `n` parts are stored.
pub open spec fn parts_in(objects: Map<Seq<char>, Seq<u8>>, parts: Seq<String>, n: int) -> bool {
    forall|i: int| 0 <= i < n ==> id_stored(objects, (#[trigger] parts[i])@)
}

/// Whether the object at `key` holds one of the first `n` parts.
pub open spec fn is_part_key(parts: Seq<String>, n: int, key: Seq<char>) -> bool {
    exists|i: int| 0 <= i < n && holds_id(key, (#[trigger] parts[i])@)
}

/// Whether the objects are as they were, but that those of the first `n` parts may be gone.
pub open spec fn only_parts_gone(
    before: Map<Seq<char>, Seq<u8>>,
    after: Map<Seq<char>, Seq<u8>>,
    parts: Seq<String>,
    n: int,
) -> bool {
    &&& forall|key: Seq<char>| #[trigger]
        after.dom().contains(key) ==> before.dom().contains(key) && after[key] == before[key]
    &&& forall|key: Seq<char>| #[trigger]
        before.dom().contains(key) && !is_part_key(parts, n, key) ==> after.dom().contains(key)
}

/// Whether the first `n` parts have no objects any more.
pub open spec fn parts_gone(
    objects: Map<Seq<char>, Seq<u8>>,
    parts: Seq<String>,
    n: int,
) -> bool {
    forall|key: Seq<char>| #[trigger] objects.dom().contains(key) ==> !is_part_key(parts, n, key)
}

/// A write together with the object store.
pub struct ObjectRun {
    pub write: S3View,
    pub objects: Map<Seq<char>, Seq<u8>>,
    /// The chunk that came and was not handed on yet.
    pub pending: Seq<u8>,
    /// The bytes that were handed to the upload.
    pub received: Seq<u8>,
    /// The bytes of the part that is being read that did not come yet.
    pub unread: Seq<u8>,
    /// Whether every lookup and deletion of an old file succeeded.
    pub clean: bool,
}

impl ObjectRun {
    pub open spec fn target(self) -> Seq<char> {
        object_text(self.write.id, self.write.ext)
    }

    pub open spec fn reservation(self) -> Seq<char> {
        reservation_text(self.write.id)
    }

    /// The key of the object that is renamed.
    pub open spec fn source(self) -> Seq<char> {
        object_text(self.write.parts[0]@, self.write.ext)
    }

    /// Whether the event can come of the step: a lookup tells what is there, an object is put
    /// only where there is none and read only where there is one, and the chunks of an object are
    /// its bytes in order. `bytes` is the chunk that comes.
    pub open spec fn allows(self, temp: Seq<char>, event: S3Event, bytes: Seq<u8>) -> bool {
        let objects = self.objects;
        match (self.write.step, event) {
            (S3Step::StatSource, S3Event::Listed(listed)) => lookup_true(
                objects,
                self.write.parts[0]@,
                listed,
            ),
            (S3Step::CheckId, S3Event::Listed(listed)) => lookup_true(
                objects,
                self.write.id,
                listed,
            ),
            (S3Step::ListPart { index }, S3Event::Listed(listed)) => lookup_true(
                objects,
                self.write.parts[index as int]@,
                listed,
            ),
            (S3Step::ListOld { index, .. }, S3Event::Listed(listed)) => lookup_true(
                objects,
                self.write.parts[index as int]@,
                listed,
            ),
            (S3Step::Reserve, S3Event::Done) => !objects.dom().contains(self.reservation()),
            (S3Step::Put, S3Event::Done) => !objects.dom().contains(self.target()),
            (S3Step::Copy, S3Event::Done) => objects.dom().contains(self.source())
                && !objects.dom().contains(self.target()),
            (S3Step::Publish { .. }, S3Event::Done) => objects.dom().contains(temp)
                && !objects.dom().contains(self.target()),
            (S3Step::NextChunk { .. }, S3Event::Chunk(n)) => bytes.len() == n,
            (S3Step::GetPart { .. }, S3Event::Done) => objects.dom().contains(self.write.location),
            (S3Step::NextPartChunk { .. }, S3Event::Chunk(n)) => n <= self.unread.len() && bytes
                == self.unread.take(n as int),
            (S3Step::NextPartChunk { .. }, S3Event::End) => self.unread.len() == 0,
            _ => true,
        }
    }

    /// The objects after the event. An upload shows once it is complete; one whose completion
    /// failed may show or not, here with `bytes`. The removal of a temporary object or a
    /// reservation counts as done when it is asked for.
    pub open spec fn objects_after(self, temp: Seq<char>, event: S3Event, bytes: Seq<u8>) -> Map<
        Seq<char>,
        Seq<u8>,
    > {
        let objects = self.objects;
        match (self.write.step, event) {
            (S3Step::Reserve, S3Event::Done) => objects.insert(self.reservation(), Seq::empty()),
            (S3Step::Put, S3Event::Done) => objects.insert(self.target(), bytes),
            (S3Step::Copy, S3Event::Done) => objects.insert(self.target(), objects[self.source()]),
            (S3Step::FinishUpload { .. }, S3Event::Done) => objects.insert(temp, self.received),
            (S3Step::FinishUpload { .. }, S3Event::Failed(_)) => objects.insert(temp, bytes),
            (S3Step::Publish { .. }, S3Event::Done) => objects.insert(self.target(), objects[temp]),
            (S3Step::DiscardTemp { .. }, _) => objects.remove(temp),
            (S3Step::RemoveTemp { .. }, _) => objects.remove(temp),
            (S3Step::Release { .. }, _) => objects.remove(self.reservation()),
            (S3Step::DeleteOld { .. }, S3Event::Done) => objects.remove(self.write.location),
            _ => objects,
        }
    }

    /// The run after the event. What cannot come changes nothing.
    pub open spec fn after(self, temp: Seq<char>, event: S3Event, bytes: Seq<u8>) -> ObjectRun {
        if self.allows(temp, event, bytes) {
            ObjectRun {
                write: self.write.after(event),
                objects: self.objects_after(temp, event, bytes),
                pending: match (self.write.step, event) {
                    (S3Step::NextChunk { .. }, S3Event::Chunk(_)) => bytes,
                    (S3Step::NextPartChunk { .. }, S3Event::Chunk(_)) => bytes,
                    _ => self.pending,
                },
                received: match (self.write.step, event) {
                    (S3Step::WriteChunk { .. }, S3Event::Done) => self.received + self.pending,
                    (S3Step::WritePartChunk { .. }, S3Event::Done) => self.received + self.pending,
                    (S3Step::Put, S3Event::Done) => bytes,
                    (S3Step::Copy, S3Event::Done) => self.objects[self.source()],
                    _ => self.received,
                },
                unread: match (self.write.step, event) {
                    (S3Step::GetPart { .. }, S3Event::Done) => self.objects[self.write.location],
                    (S3Step::NextPartChunk { .. }, S3Event::Chunk(n)) => self.unread.skip(n as int),
                    _ => self.unread,
                },
                clean: match (self.write.step, event) {
                    (S3Step::ListOld { .. }, S3Event::Listed(Listed::Failed(_))) => false,
                    (S3Step::DeleteOld { .. }, S3Event::Failed(_)) => false,
                    _ => self.clean,
                },
            }
        } else {
            self
        }
    }
}

/// The run after a sequence of events, each with the bytes that belong to it.
pub open spec fn object_run(
    run: ObjectRun,
    temp: Seq<char>,
    events: Seq<(S3Event, Seq<u8>)>,
) -> ObjectRun
    decreases events.len(),
{
    if events.len() == 0 {
        run
    } else {
        object_run(run, temp, events.drop_last()).after(temp, events.last().0, events.last().1)
    }
}

/// A run that has not begun.
pub open spec fn object_start(write: S3View, objects: Map<Seq<char>, Seq<u8>>) -> ObjectRun {
    ObjectRun {
        write,
        objects,
        pending: Seq::empty(),
        received: Seq::empty(),
        unread: Seq::empty(),
        clean: true,
    }
}

/// What is left to show once the new object has its key: what it holds is what it should, and
/// nothing held its ID.
spec fn content_right(run: ObjectRun, objects: Map<Seq<char>, Seq<u8>>, total: u64) -> bool {
    let parts = run.write.parts;
    &&& !id_stored(objects, run.write.id)
    &&& is_component(run.write.ext)
    &&& match run.write.job {
        S3Job::Put => true,
        S3Job::PutStream => total == capped(run.received.len()),
        S3Job::Concat => parts_in(objects, parts, parts.len() as int) && run.received == joined(
            objects,
            parts,
            parts.len() as int,
        ),
        S3Job::Rename => parts.len() == 1 && id_stored(objects, parts[0]@) && run.received
            == content_of(objects, parts[0]@),
    }
}

spec fn objects_hold(
    run: ObjectRun,
    write: S3View,
    objects: Map<Seq<char>, Seq<u8>>,
    temp: Seq<char>,
) -> bool {
    let base = objects.insert(run.reservation(), Seq::empty());
    let placed = objects.insert(run.target(), run.received);
    let parts = write.parts;
    let reserved = !objects.dom().contains(run.reservation()) && is_component(run.write.id) && (
    write.job == S3Job::Rename ==> run.source() == key_in(objects, parts[0]@) && id_stored(
        objects,
        parts[0]@,
    )) && is_component(run.write.ext);
    let free = !id_stored(objects, run.write.id);
    let uploading = reserved && free && run.objects == base;
    let upload = write.job == S3Job::PutStream || write.job == S3Job::Concat;
    let replaces = write.job == S3Job::Concat || write.job == S3Job::Rename;
    let copying = |n: int| uploading && write.job == S3Job::Concat && parts_in(objects, parts, n);
    &&& run.write.job == write.job
    &&& run.write.id == write.id
    &&& write.job != S3Job::Rename ==> run.write.ext == write.ext && is_component(write.ext)
    &&& run.write.parts == parts
    &&& parts.len() <= usize::MAX
    &&& write.job == S3Job::Rename ==> parts.len() == 1
    &&& match run.write.step {
        S3Step::StatSource => write.job == S3Job::Rename && run.objects == objects
            && run.received.len() == 0,
        S3Step::Reserve => is_component(run.write.id) && is_component(run.write.ext) && (write.job
            == S3Job::Rename ==> run.source() == key_in(objects, parts[0]@) && id_stored(
            objects,
            parts[0]@,
        )) && run.objects == objects && run.received.len() == 0,
        S3Step::CheckId => reserved && run.objects == base && run.received.len() == 0,
        S3Step::Put => write.job == S3Job::Put && uploading,
        S3Step::Copy => write.job == S3Job::Rename && uploading,
        S3Step::StartUpload => upload && uploading && run.received.len() == 0,
        S3Step::NextChunk { total } => write.job == S3Job::PutStream && uploading && total
            == capped(run.received.len()),
        S3Step::WriteChunk { total } => write.job == S3Job::PutStream && uploading && total
            == capped(run.received.len() + run.pending.len()),
        S3Step::ListPart { index } => index < parts.len() && copying(index as int) && run.received
            == joined(objects, parts, index as int),
        S3Step::GetPart { index } => index < parts.len() && copying(index + 1) && run.received
            == joined(objects, parts, index as int) && run.write.location == key_in(
            objects,
            parts[index as int]@,
        ),
        S3Step::NextPartChunk { index } => index < parts.len() && copying(index + 1) && run.received
            + run.unread == joined(objects, parts, index + 1),
        S3Step::WritePartChunk { index } => index < parts.len() && copying(index + 1)
            && run.received + run.pending + run.unread == joined(objects, parts, index + 1),
        S3Step::FinishUpload { total } => upload && uploading && content_right(run, objects, total),
        S3Step::Publish { total } => upload && reserved && run.objects == base.insert(
            temp,
            run.received,
        ) && content_right(run, objects, total),
        S3Step::AbortUpload { .. } => upload && uploading,
        S3Step::DiscardTemp { .. } => upload && reserved && run.objects.remove(temp) == base,
        S3Step::RemoveTemp { result } => upload && reserved && match result {
            Ok(total) => run.objects.remove(temp) == base.insert(run.target(), run.received)
                && content_right(run, objects, total),
            Err(_) => run.objects.remove(temp) == base,
        },
        S3Step::Release { result } => reserved && match result {
            Ok(total) => run.objects == base.insert(run.target(), run.received) && content_right(
                run,
                objects,
                total,
            ),
            Err(_) => run.objects == base,
        },
        S3Step::ListOld { index, total } => {
            &&& replaces && index < parts.len() && is_component(run.write.id)
            &&& content_right(run, objects, total)
            &&& only_parts_gone(placed, run.objects, parts, index as int)
            &&& run.clean ==> parts_gone(run.objects, parts, index as int)
        },
        S3Step::DeleteOld { index, total } => {
            &&& replaces && index < parts.len() && is_component(run.write.id)
            &&& content_right(run, objects, total)
            &&& only_parts_gone(placed, run.objects, parts, index as int)
            &&& run.clean ==> parts_gone(run.objects, parts, index as int)
            &&& run.objects.dom().contains(run.write.location)
            &&& holds_id(run.write.location, parts[index as int]@)
        },
        S3Step::Finished { result } => match result {
            Ok(total) => {
                &&& is_component(run.write.id)
                &&& content_right(run, objects, total)
                &&& if replaces {
                    &&& only_parts_gone(placed, run.objects, parts, parts.len() as int)
                    &&& run.clean ==> parts_gone(run.objects, parts, parts.len() as int)
                } else {
                    run.objects == placed
                }
            },
            Err(_) => run.objects == objects || (write.job == S3Job::Rename && is_component(
                run.write.id,
            ) && content_right(run, objects, 0) && run.objects == placed),
        },
    }
}

/// A temporary object and a reservation hold no ID.
pub(crate) proof fn lemma_hidden(key: Seq<char>, id: Seq<char>)
    requires
        key.len() > 6,
        key[6] == '.',
    ensures
        !holds_id(key, id),
{
    if holds_id(key, id) {
        reveal_strlit("files/");
        reveal_strlit(".");
        lemma_component_chars(id);
        let prefix = prefix_text(id);
        assert(prefix[6] == id[0]);
        assert(id.contains(id[0]));
        assert(key.take(prefix.len() as int)[6] == prefix[6]);
    }
}

/// The key of a reservation hides it, and so does that of a temporary object; they are different.
pub(crate) proof fn lemma_scratch_keys(id: Seq<char>, ext: Seq<char>, pid: u32, count: u64)
    requires
        is_component(id),
    ensures
        reservation_text(id).len() > 6,
        reservation_text(id)[6] == '.',
        temp_text(id, pid, count, ext).len() > 6,
        temp_text(id, pid, count, ext)[6] == '.',
        reservation_text(id) != temp_text(id, pid, count, ext),
{
    reveal_strlit("files/.");
    reveal_strlit("files/.reservations/");
    reveal_strlit(".tmp");
    lemma_component_chars(id);
    let reservation = reservation_text(id);
    let temp = temp_text(id, pid, count, ext);
    assert(reservation[6] == '.');
    assert(temp[6] == '.');
    if reservation == temp {
        let n = temp.len() as int;
        assert(temp[n - 4] == '.');
        assert(n == 20 + id.len());
        if id.len() >= 4 {
            assert(reservation[n - 4] == id[id.len() - 4]);
            assert(id.contains(id[id.len() - 4]));
        } else {
            assert(reservation[n - 4] == "files/.reservations/"@[n - 4]);
            assert(n - 4 == 17 || n - 4 == 18 || n - 4 == 19);
        }
    }
}

/// An object that holds no ID changes no lookup.
proof fn lemma_hidden_lookup(
    objects: Map<Seq<char>, Seq<u8>>,
    hidden: Seq<char>,
    bytes: Seq<u8>,
    id: Seq<char>,
)
    requires
        hidden.len() > 6,
        hidden[6] == '.',
        !objects.dom().contains(hidden),
    ensures
        id_stored(objects.insert(hidden, bytes), id) == id_stored(objects, id),
{
    let more = objects.insert(hidden, bytes);
    lemma_hidden(hidden, id);
    if id_stored(objects, id) {
        let key = key_in(objects, id);
        assert(more.dom().contains(key) && holds_id(key, id));
    }
    if id_stored(more, id) {
        let key = key_in(more, id);
        assert(more.dom().contains(key) && holds_id(key, id));
        assert(objects.dom().contains(key));
    }
}

/// In a tidy store, the object that holds an ID is the one that a lookup gives.
proof fn lemma_tidy_key(objects: Map<Seq<char>, Seq<u8>>, id: Seq<char>, key: Seq<char>)
    requires
        tidy(objects),
        objects.dom().contains(key),
        holds_id(key, id),
    ensures
        id_stored(objects, id),
        key == key_in(objects, id),
        is_component(key_extension(key)),
        key == object_text(id, key_extension(key)),
{
    let chosen = key_in(objects, id);
    assert(objects.dom().contains(chosen) && holds_id(chosen, id));
    assert(found_at(objects, id, key));
}

/// A store stays tidy when an ID that nothing held gets an object.
proof fn lemma_tidy_insert(
    objects: Map<Seq<char>, Seq<u8>>,
    id: Seq<char>,
    ext: Seq<char>,
    bytes: Seq<u8>,
)
    requires
        tidy(objects),
        !id_stored(objects, id),
        is_component(id),
        is_component(ext),
    ensures
        tidy(objects.insert(object_text(id, ext), bytes)),
        found_at(objects.insert(object_text(id, ext), bytes), id, object_text(id, ext)),
{
    let target = object_text(id, ext);
    let more = objects.insert(target, bytes);
    object_key_round_trip(id, ext);
    assert forall|key: Seq<char>, x: Seq<char>|
        #![trigger more.dom().contains(key), holds_id(key, x)]
        more.dom().contains(key) && holds_id(key, x) implies found_at(more, x, key)
        && is_component(key_extension(key)) && key == object_text(x, key_extension(key)) by {
        if key == target {
            object_holds_one_id(target, id, x);
            assert forall|other: Seq<char>| #[trigger]
                more.dom().contains(other) && holds_id(other, x) implies other == key by {
                if other != target {
                    assert(objects.dom().contains(other));
                }
            }
        } else {
            assert(objects.dom().contains(key));
            assert(found_at(objects, x, key));
            assert forall|other: Seq<char>| #[trigger]
                more.dom().contains(other) && holds_id(other, x) implies other == key by {
                if other == target {
                    object_holds_one_id(target, id, x);
                } else {
                    assert(objects.dom().contains(other));
                }
            }
        }
    }
    assert(more.dom().contains(target) && holds_id(target, id));
}

/// A store stays tidy when objects are removed.
proof fn lemma_tidy_fewer(before: Map<Seq<char>, Seq<u8>>, after: Map<Seq<char>, Seq<u8>>)
    requires
        tidy(before),
        forall|key: Seq<char>| #[trigger]
            after.dom().contains(key) ==> before.dom().contains(key),
    ensures
        tidy(after),
{
    assert forall|key: Seq<char>, id: Seq<char>|
        #![trigger after.dom().contains(key), holds_id(key, id)]
        after.dom().contains(key) && holds_id(key, id) implies found_at(after, id, key)
        && is_component(key_extension(key)) && key == object_text(id, key_extension(key)) by {
        assert(before.dom().contains(key));
        assert(found_at(before, id, key));
        assert forall|other: Seq<char>| #[trigger]
            after.dom().contains(other) && holds_id(other, id) implies other == key by {
            assert(before.dom().contains(other));
        }
    }
}

proof fn lemma_lookup_step(
    run: ObjectRun,
    event: S3Event,
    bytes: Seq<u8>,
    write: S3View,
    objects: Map<Seq<char>, Seq<u8>>,
    temp: Seq<char>,
)
    requires
        objects_hold(run, write, objects, temp),
        run.allows(temp, event, bytes),
        tidy(objects),
        run.write.step is StatSource || run.write.step is CheckId || run.write.step is ListPart,
    ensures
        objects_hold(run.after(temp, event, bytes), write, objects, temp),
{
    match (run.write.step, event) {
        (S3Step::StatSource, S3Event::Listed(Listed::Object(entry))) => {
            lemma_tidy_key(objects, write.parts[0]@, entry.location@);
        },
        (S3Step::CheckId, S3Event::Listed(listed)) => {
            lemma_scratch_keys(write.id, run.write.ext, 0, 0);
            lemma_hidden_lookup(objects, run.reservation(), Seq::empty(), write.id);
            if write.job == S3Job::Concat {
                assert(run.received =~= joined(objects, write.parts, 0));
            }
        },
        (S3Step::ListPart { index }, S3Event::Listed(Listed::Object(entry))) => {
            let id = write.parts[index as int]@;
            lemma_scratch_keys(write.id, run.write.ext, 0, 0);
            lemma_hidden(run.reservation(), id);
            assert(objects.dom().contains(entry.location@));
            lemma_tidy_key(objects, id, entry.location@);
        },
        _ => {},
    }
}

proof fn lemma_part_step(
    run: ObjectRun,
    event: S3Event,
    bytes: Seq<u8>,
    write: S3View,
    objects: Map<Seq<char>, Seq<u8>>,
    temp: Seq<char>,
)
    requires
        objects_hold(run, write, objects, temp),
        run.allows(temp, event, bytes),
        run.write.step is StartUpload || run.write.step is GetPart || run.write.step is NextPartChunk
            || run.write.step is WritePartChunk,
    ensures
        objects_hold(run.after(temp, event, bytes), write, objects, temp),
{
    let parts = write.parts;
    match (run.write.step, event) {
        (S3Step::StartUpload, _) => {
            assert(run.received =~= Seq::empty());
            assert(run.received =~= joined(objects, parts, 0));
        },
        (S3Step::GetPart { index }, S3Event::Done) => {
            let id = parts[index as int]@;
            let key = key_in(objects, id);
            assert(id_stored(objects, id));
            assert(objects.dom().contains(key) && holds_id(key, id));
            lemma_scratch_keys(write.id, run.write.ext, 0, 0);
            lemma_hidden(run.reservation(), id);
            assert(run.objects[key] == objects[key]);
            assert(joined(objects, parts, index + 1) == joined(objects, parts, index as int)
                + content_of(objects, id));
        },
        (S3Step::NextPartChunk { index }, S3Event::Chunk(n)) => {
            assert(run.received + bytes + run.unread.skip(n as int) =~= run.received + run.unread);
        },
        (S3Step::NextPartChunk { index }, S3Event::End) => {
            assert(run.received =~= run.received + run.unread);
        },
        _ => {},
    }
}

proof fn lemma_publish_step(
    run: ObjectRun,
    event: S3Event,
    bytes: Seq<u8>,
    write: S3View,
    objects: Map<Seq<char>, Seq<u8>>,
    temp: Seq<char>,
)
    requires
        objects_hold(run, write, objects, temp),
        run.allows(temp, event, bytes),
        temp.len() > 6,
        temp[6] == '.',
        temp != reservation_text(write.id),
        !objects.dom().contains(temp),
        run.write.step is Put || run.write.step is Copy || run.write.step is FinishUpload
            || run.write.step is Publish || run.write.step is DiscardTemp
            || run.write.step is RemoveTemp || run.write.step is Release,
    ensures
        objects_hold(run.after(temp, event, bytes), write, objects, temp),
{
    let base = objects.insert(run.reservation(), Seq::empty());
    let next = run.after(temp, event, bytes);
    let target = run.target();
    let parts = write.parts;
    lemma_scratch_keys(write.id, run.write.ext, 0, 0);
    object_key_round_trip(run.write.id, run.write.ext);
    lemma_hidden(temp, run.write.id);
    lemma_hidden(run.reservation(), run.write.id);
    assert(target != temp);
    assert(target != run.reservation());
    match (run.write.step, event) {
        (S3Step::Copy, S3Event::Done) => {
            let id = parts[0]@;
            let key = key_in(objects, id);
            assert(objects.dom().contains(key) && holds_id(key, id));
            lemma_hidden(run.reservation(), id);
            assert(run.objects[key] == objects[key]);
        },
        (S3Step::FinishUpload { .. }, _) => {
            assert(next.objects.remove(temp) =~= base);
        },
        (S3Step::Publish { .. }, S3Event::Done) => {
            assert(next.objects.remove(temp) =~= base.insert(target, run.received));
        },
        (S3Step::Publish { .. }, _) => {
            assert(next.objects.remove(temp) =~= base);
        },
        (S3Step::Release { result: Ok(_) }, _) => {
            assert(next.objects =~= objects.insert(target, run.received));
            assert(parts_gone(next.objects, parts, 0));
        },
        (S3Step::Release { result: Err(_) }, _) => {
            assert(next.objects =~= objects);
        },
        _ => {},
    }
}

proof fn lemma_cleanup_step(
    run: ObjectRun,
    event: S3Event,
    bytes: Seq<u8>,
    write: S3View,
    objects: Map<Seq<char>, Seq<u8>>,
    temp: Seq<char>,
)
    requires
        objects_hold(run, write, objects, temp),
        run.allows(temp, event, bytes),
        tidy(objects),
        run.write.step is ListOld || run.write.step is DeleteOld,
    ensures
        objects_hold(run.after(temp, event, bytes), write, objects, temp),
{
    let next = run.after(temp, event, bytes);
    let placed = objects.insert(run.target(), run.received);
    let parts = write.parts;
    lemma_tidy_insert(objects, run.write.id, run.write.ext, run.received);
    let index = match run.write.step {
        S3Step::ListOld { index, .. } => index as int,
        S3Step::DeleteOld { index, .. } => index as int,
        _ => 0,
    };
    let id = parts[index]@;
    assert forall|key: Seq<char>| is_part_key(parts, index, key) implies #[trigger] is_part_key(
        parts,
        index + 1,
        key,
    ) by {
        let i = choose|i: int| 0 <= i < index && holds_id(key, (#[trigger] parts[i])@);
        assert(0 <= i < index + 1 && holds_id(key, parts[i]@));
    }
    assert forall|key: Seq<char>| #[trigger]
        is_part_key(parts, index + 1, key) implies is_part_key(parts, index, key) || holds_id(
        key,
        id,
    ) by {
        let i = choose|i: int| 0 <= i < index + 1 && holds_id(key, (#[trigger] parts[i])@);
        if i < index {
            assert(0 <= i < index && holds_id(key, parts[i]@));
        }
    }
    match (run.write.step, event) {
        (S3Step::ListOld { .. }, S3Event::Listed(Listed::Nothing)) => {
            assert forall|key: Seq<char>| #[trigger] run.objects.dom().contains(key) implies !holds_id(
                key,
                id,
            ) by {
                if holds_id(key, id) {
                    assert(id_stored(run.objects, id));
                }
            }
        },
        (S3Step::DeleteOld { .. }, S3Event::Done) => {
            let gone = run.write.location;
            assert(holds_id(gone, parts[index]@));
            assert(is_part_key(parts, index + 1, gone));
            assert forall|key: Seq<char>| #[trigger] next.objects.dom().contains(key) implies !holds_id(
                key,
                id,
            ) by {
                assert(run.objects.dom().contains(key));
                if holds_id(key, id) {
                    assert(placed.dom().contains(key) && holds_id(key, id));
                    assert(placed.dom().contains(gone));
                    assert(found_at(placed, id, key));
                }
            }
        },
        (S3Step::DeleteOld { .. }, S3Event::Failed(_)) => {
            if write.job == S3Job::Rename {
                assert forall|key: Seq<char>| !is_part_key(parts, 0, key) by {}
                assert(run.objects =~= placed);
            }
        },
        _ => {},
    }
}

proof fn lemma_objects_after(
    run: ObjectRun,
    event: S3Event,
    bytes: Seq<u8>,
    write: S3View,
    objects: Map<Seq<char>, Seq<u8>>,
    temp: Seq<char>,
)
    requires
        objects_hold(run, write, objects, temp),
        tidy(objects),
        temp.len() > 6,
        temp[6] == '.',
        temp != reservation_text(write.id),
        !objects.dom().contains(temp),
    ensures
        objects_hold(run.after(temp, event, bytes), write, objects, temp),
{
    if run.allows(temp, event, bytes) {
        match run.write.step {
            S3Step::StatSource | S3Step::CheckId | S3Step::ListPart { .. } => {
                lemma_lookup_step(run, event, bytes, write, objects, temp);
            },
            S3Step::StartUpload | S3Step::GetPart { .. } | S3Step::NextPartChunk { .. }
            | S3Step::WritePartChunk { .. } => {
                lemma_part_step(run, event, bytes, write, objects, temp);
            },
            S3Step::Put | S3Step::Copy | S3Step::FinishUpload { .. } | S3Step::Publish { .. }
            | S3Step::DiscardTemp { .. } | S3Step::RemoveTemp { .. } | S3Step::Release { .. } => {
                lemma_publish_step(run, event, bytes, write, objects, temp);
            },
            S3Step::ListOld { .. } | S3Step::DeleteOld { .. } => {
                lemma_cleanup_step(run, event, bytes, write, objects, temp);
            },
            _ => {},
        }
    }
}

/// Whether a write can begin on a store: what is written has a valid name, and the temporary key
/// is not in use.
pub open spec fn ready(
    write: S3View,
    objects: Map<Seq<char>, Seq<u8>>,
    pid: u32,
    count: u64,
) -> bool {
    &&& tidy(objects)
    &&& write.parts.len() <= usize::MAX
    &&& is_component(write.id)
    &&& match write.job {
        S3Job::Rename => write.step is StatSource && write.parts.len() == 1,
        _ => write.step is Reserve && is_component(write.ext),
    }
    &&& !objects.dom().contains(temp_text(write.id, pid, count, write.ext))
}

/// The run of a write on a store.
pub open spec fn run_of(
    write: S3View,
    objects: Map<Seq<char>, Seq<u8>>,
    pid: u32,
    count: u64,
    events: Seq<(S3Event, Seq<u8>)>,
) -> ObjectRun {
    object_run(
        object_start(write, objects),
        temp_text(write.id, pid, count, write.ext),
        events,
    )
}

proof fn lemma_object_run(
    write: S3View,
    objects: Map<Seq<char>, Seq<u8>>,
    pid: u32,
    count: u64,
    events: Seq<(S3Event, Seq<u8>)>,
)
    requires
        ready(write, objects, pid, count),
    ensures
        objects_hold(
            run_of(write, objects, pid, count, events),
            write,
            objects,
            temp_text(write.id, pid, count, write.ext),
        ),
    decreases events.len(),
{
    if events.len() > 0 {
        let temp = temp_text(write.id, pid, count, write.ext);
        lemma_object_run(write, objects, pid, count, events.drop_last());
        lemma_scratch_keys(write.id, write.ext, pid, count);
        lemma_objects_after(
            run_of(write, objects, pid, count, events.drop_last()),
            events.last().0,
            events.last().1,
            write,
            objects,
            temp,
        );
    }
}

/// An upload that succeeded has put one object, under the key of its ID, that holds exactly the
/// bytes that came; a stream reports their number; and a lookup of the ID finds that object. One
/// that failed has put nothing.
pub proof fn s3_upload_is_read_back(
    write: S3View,
    objects: Map<Seq<char>, Seq<u8>>,
    pid: u32,
    count: u64,
    events: Seq<(S3Event, Seq<u8>)>,
)
    requires
        ready(write, objects, pid, count),
        write.job == S3Job::Put || write.job == S3Job::PutStream,
    ensures
        ({
            let run = run_of(write, objects, pid, count, events);
            run.write.step matches S3Step::Finished { result } ==> match result {
                Ok(total) => {
                    &&& run.objects == objects.insert(run.target(), run.received)
                    &&& found_at(run.objects, write.id, run.target())
                    &&& write.job == S3Job::PutStream ==> total == capped(run.received.len())
                },
                Err(_) => run.objects == objects,
            }
        }),
{
    lemma_object_run(write, objects, pid, count, events);
    let run = run_of(write, objects, pid, count, events);
    match run.write.step {
        S3Step::Finished { result: Ok(_) } => {
            lemma_tidy_insert(objects, write.id, write.ext, run.received);
        },
        _ => {},
    }
}

/// The new object of a finished concatenation or rename is found, though the old ones are gone.
proof fn lemma_target_stays(run: ObjectRun, objects: Map<Seq<char>, Seq<u8>>, total: u64)
    requires
        tidy(objects),
        is_component(run.write.id),
        content_right(run, objects, total),
        run.write.job == S3Job::Concat || run.write.job == S3Job::Rename,
        only_parts_gone(
            objects.insert(run.target(), run.received),
            run.objects,
            run.write.parts,
            run.write.parts.len() as int,
        ),
    ensures
        found_at(run.objects, run.write.id, run.target()),
        run.objects[run.target()] == run.received,
        tidy(run.objects),
{
    let target = run.target();
    let parts = run.write.parts;
    let placed = objects.insert(target, run.received);
    lemma_tidy_insert(objects, run.write.id, run.write.ext, run.received);
    lemma_tidy_fewer(placed, run.objects);
    if is_part_key(parts, parts.len() as int, target) {
        let i = choose|i: int| 0 <= i < parts.len() && holds_id(target, (#[trigger] parts[i])@);
        object_holds_one_id(target, run.write.id, parts[i]@);
        assert(id_stored(objects, parts[i]@));
    }
    assert(placed.dom().contains(target));
    assert(run.objects.dom().contains(target));
    assert(holds_id(target, run.write.id));
}

/// A concatenation that succeeded has an object that a lookup of its ID finds and that holds the
/// contents of its parts, one behind the other in their order. Nothing has changed but that and
/// the parts, which are gone where no lookup and no deletion of one failed. A concatenation that
/// failed has changed nothing.
pub proof fn s3_concatenation_is_read_back(
    write: S3View,
    objects: Map<Seq<char>, Seq<u8>>,
    pid: u32,
    count: u64,
    events: Seq<(S3Event, Seq<u8>)>,
)
    requires
        ready(write, objects, pid, count),
        write.job == S3Job::Concat,
    ensures
        ({
            let run = run_of(write, objects, pid, count, events);
            let parts = write.parts;
            let contents = joined(objects, parts, parts.len() as int);
            run.write.step matches S3Step::Finished { result } ==> match result {
                Ok(_) => {
                    &&& found_at(run.objects, write.id, run.target())
                    &&& run.objects[run.target()] == contents
                    &&& only_parts_gone(
                        objects.insert(run.target(), contents),
                        run.objects,
                        parts,
                        parts.len() as int,
                    )
                    &&& run.clean ==> parts_gone(run.objects, parts, parts.len() as int)
                },
                Err(_) => run.objects == objects,
            }
        }),
{
    lemma_object_run(write, objects, pid, count, events);
    let run = run_of(write, objects, pid, count, events);
    match run.write.step {
        S3Step::Finished { result: Ok(total) } => {
            lemma_target_stays(run, objects, total);
        },
        _ => {},
    }
}

/// A rename that succeeded has an object that a lookup of the new ID finds and that holds what
/// the old object held. Nothing else has changed but the old object, which is gone where neither
/// its lookup nor its deletion failed. A rename that failed has changed nothing, or could not
/// remove the old object and has left both.
pub proof fn s3_renamed_object_is_read_back(
    write: S3View,
    objects: Map<Seq<char>, Seq<u8>>,
    pid: u32,
    count: u64,
    events: Seq<(S3Event, Seq<u8>)>,
)
    requires
        ready(write, objects, pid, count),
        write.job == S3Job::Rename,
    ensures
        ({
            let run = run_of(write, objects, pid, count, events);
            let old_id = write.parts[0]@;
            let contents = content_of(objects, old_id);
            run.write.step matches S3Step::Finished { result } ==> match result {
                Ok(_) => {
                    &&& id_stored(objects, old_id)
                    &&& found_at(run.objects, write.id, run.target())
                    &&& run.objects[run.target()] == contents
                    &&& only_parts_gone(
                        objects.insert(run.target(), contents),
                        run.objects,
                        write.parts,
                        1,
                    )
                    &&& run.clean ==> !id_stored(run.objects, old_id)
                },
                Err(_) => run.objects == objects || run.objects == objects.insert(
                    run.target(),
                    contents,
                ),
            }
        }),
{
    lemma_object_run(write, objects, pid, count, events);
    let run = run_of(write, objects, pid, count, events);
    match run.write.step {
        S3Step::Finished { result: Ok(total) } => {
            lemma_target_stays(run, objects, total);
            let old_id = write.parts[0]@;
            if run.clean && id_stored(run.objects, old_id) {
                let key = key_in(run.objects, old_id);
                assert(run.objects.dom().contains(key) && holds_id(key, old_id));
                assert(0 <= 0 < 1 && holds_id(key, write.parts[0]@));
                assert(is_part_key(write.parts, 1, key));
            }
        },
        _ => {},
    }
}

/// Whatever a write does, no ID has two objects when it has ended.
pub proof fn s3_writes_keep_store_tidy(
    write: S3View,
    objects: Map<Seq<char>, Seq<u8>>,
    pid: u32,
    count: u64,
    events: Seq<(S3Event, Seq<u8>)>,
)
    requires
        ready(write, objects, pid, count),
    ensures
        ({
            let run = run_of(write, objects, pid, count, events);
            run.write.step is Finished ==> tidy(run.objects)
        }),
{
    lemma_object_run(write, objects, pid, count, events);
    let run = run_of(write, objects, pid, count, events);
    match run.write.step {
        S3Step::Finished { result: Ok(total) } => {
            if write.job == S3Job::Concat || write.job == S3Job::Rename {
                lemma_target_stays(run, objects, total);
            } else {
                lemma_tidy_insert(objects, write.id, write.ext, run.received);
            }
        },
        S3Step::Finished { result: Err(_) } => {
            if run.objects != objects {
                lemma_tidy_insert(objects, run.write.id, run.write.ext, run.received);
            }
        },
        _ => {},
    }
}

/// An ID that is stored is never written again, under whatever extension: no write reports
/// success, and the store stays as it is.
pub proof fn s3_stored_id_is_not_overwritten(
    write: S3View,
    objects: Map<Seq<char>, Seq<u8>>,
    pid: u32,
    count: u64,
    events: Seq<(S3Event, Seq<u8>)>,
)
    requires
        ready(write, objects, pid, count),
        id_stored(objects, write.id),
    ensures
        ({
            let run = run_of(write, objects, pid, count, events);
            run.write.step matches S3Step::Finished { result } ==> result is Err && run.objects
                == objects
        }),
{
    lemma_object_run(write, objects, pid, count, events);
}

/// A write of an ID that is stored ends in a conflict, once its reservation is made and the lookup
/// of the ID does not fail.
pub proof fn s3_stored_id_conflicts(
    write: S3View,
    objects: Map<Seq<char>, Seq<u8>>,
    listed: Listed,
    last: S3Event,
)
    requires
        write.step is CheckId,
        id_stored(objects, write.id),
        lookup_true(objects, write.id, listed),
        !(listed is Failed),
    ensures
        write.after(S3Event::Listed(listed)).after(last).step == (S3Step::Finished {
            result: Err(StorageError::Conflict),
        }),
{
}

/// Whether the event tells of no failure.
pub open spec fn undisturbed(event: S3Event) -> bool {
    match event {
        S3Event::Failed(_) | S3Event::Broken(_) => false,
        S3Event::Listed(listed) => !(listed is Failed),
        _ => true,
    }
}

/// Whether a write has what it needs: its ID is free, and the files that it is made of are stored.
pub open spec fn can_succeed(write: S3View, objects: Map<Seq<char>, Seq<u8>>) -> bool {
    &&& !id_stored(objects, write.id)
    &&& write.job == S3Job::Concat || write.job == S3Job::Rename ==> parts_in(
        objects,
        write.parts,
        write.parts.len() as int,
    )
}

/// Whether a write has met no error.
spec fn on_course(run: ObjectRun) -> bool {
    &&& run.clean
    &&& match run.write.step {
        S3Step::AbortUpload { .. } | S3Step::DiscardTemp { .. } => false,
        S3Step::RemoveTemp { result } | S3Step::Release { result } | S3Step::Finished { result } =>
        result is Ok,
        _ => true,
    }
}

proof fn lemma_on_course(
    write: S3View,
    objects: Map<Seq<char>, Seq<u8>>,
    pid: u32,
    count: u64,
    events: Seq<(S3Event, Seq<u8>)>,
)
    requires
        ready(write, objects, pid, count),
        can_succeed(write, objects),
        forall|i: int| 0 <= i < events.len() ==> undisturbed((#[trigger] events[i]).0),
    ensures
        on_course(run_of(write, objects, pid, count, events)),
    decreases events.len(),
{
    if events.len() > 0 {
        let earlier = events.drop_last();
        assert forall|i: int| 0 <= i < earlier.len() implies undisturbed(
            (#[trigger] earlier[i]).0,
        ) by {
            assert(earlier[i] == events[i]);
        }
        lemma_on_course(write, objects, pid, count, earlier);
        lemma_object_run(write, objects, pid, count, earlier);
        let run = run_of(write, objects, pid, count, earlier);
        let temp = temp_text(write.id, pid, count, write.ext);
        let (event, bytes) = events.last();
        assert(undisturbed(events[events.len() - 1].0));
        lemma_scratch_keys(write.id, run.write.ext, 0, 0);
        match (run.write.step, event) {
            (S3Step::StatSource, S3Event::Listed(_)) => {
                assert(id_stored(objects, write.parts[0]@));
            },
            (S3Step::CheckId, S3Event::Listed(Listed::Object(entry))) => {
                lemma_hidden_lookup(objects, run.reservation(), Seq::empty(), write.id);
                if run.allows(temp, event, bytes) {
                    assert(run.objects.dom().contains(entry.location@) && holds_id(
                        entry.location@,
                        write.id,
                    ));
                    assert(id_stored(run.objects, write.id));
                }
            },
            (S3Step::ListPart { index }, S3Event::Listed(_)) => {
                let id = write.parts[index as int]@;
                lemma_hidden_lookup(objects, run.reservation(), Seq::empty(), id);
                assert(id_stored(objects, id));
            },
            _ => {},
        }
    }
}

/// A write that has what it needs, and of whose steps none fails, does not end in an error, and a
/// concatenation or rename has found and deleted all that it replaces.
pub proof fn s3_undisturbed_write_does_not_fail(
    write: S3View,
    objects: Map<Seq<char>, Seq<u8>>,
    pid: u32,
    count: u64,
    events: Seq<(S3Event, Seq<u8>)>,
)
    requires
        ready(write, objects, pid, count),
        can_succeed(write, objects),
        forall|i: int| 0 <= i < events.len() ==> undisturbed((#[trigger] events[i]).0),
    ensures
        ({
            let run = run_of(write, objects, pid, count, events);
            run.write.step matches S3Step::Finished { result } ==> result is Ok && run.clean
        }),
{
    lemma_on_course(write, objects, pid, count, events);
}

/// An event that brings no bytes.
pub open spec fn bare(event: S3Event) -> (S3Event, Seq<u8>) {
    (event, Seq::empty())
}

/// The events by which a free ID is reserved.
pub open spec fn then_reserved(events: Seq<(S3Event, Seq<u8>)>) -> Seq<(S3Event, Seq<u8>)> {
    events.push(bare(S3Event::Done)).push(bare(S3Event::Listed(Listed::Nothing)))
}

/// The events of the chunks of a stream.
pub open spec fn then_chunks(
    events: Seq<(S3Event, Seq<u8>)>,
    chunks: Seq<Seq<u8>>,
) -> Seq<(S3Event, Seq<u8>)>
    decreases chunks.len(),
{
    if chunks.len() == 0 {
        events
    } else {
        then_chunks(events, chunks.drop_last()).push(
            (S3Event::Chunk(chunks.last().len() as u64), chunks.last()),
        ).push(bare(S3Event::Done))
    }
}

/// The events by which the first `n` parts, found as `entries`, are uploaded, each in one chunk.
pub open spec fn then_parts(
    events: Seq<(S3Event, Seq<u8>)>,
    objects: Map<Seq<char>, Seq<u8>>,
    entries: Seq<ObjectEntry>,
    n: int,
) -> Seq<(S3Event, Seq<u8>)>
    decreases n,
{
    if n <= 0 {
        events
    } else {
        let entry = entries[n - 1];
        then_parts(events, objects, entries, n - 1).push(
            bare(S3Event::Listed(Listed::Object(entry))),
        ).push(bare(S3Event::Done)).push(
            (S3Event::Chunk(entry.size), objects[entry.location@]),
        ).push(bare(S3Event::Done)).push(bare(S3Event::End))
    }
}

/// The events by which a complete upload is published.
pub open spec fn then_published(events: Seq<(S3Event, Seq<u8>)>) -> Seq<(S3Event, Seq<u8>)> {
    events.push(bare(S3Event::Done)).push(bare(S3Event::Done)).push(bare(S3Event::Done)).push(
        bare(S3Event::Done),
    )
}

/// The events by which the first `n` old files, found as `entries`, are deleted.
pub open spec fn then_deleted(
    events: Seq<(S3Event, Seq<u8>)>,
    entries: Seq<ObjectEntry>,
    n: int,
) -> Seq<(S3Event, Seq<u8>)>
    decreases n,
{
    if n <= 0 {
        events
    } else {
        then_deleted(events, entries, n - 1).push(
            bare(S3Event::Listed(Listed::Object(entries[n - 1]))),
        ).push(bare(S3Event::Done))
    }
}

/// Whether the entries are those of the parts.
pub open spec fn entries_of(
    entries: Seq<ObjectEntry>,
    objects: Map<Seq<char>, Seq<u8>>,
    parts: Seq<String>,
) -> bool {
    &&& entries.len() == parts.len()
    &&& forall|i: int|
        0 <= i < parts.len() ==> lookup_true(
            objects,
            parts[i]@,
            Listed::Object(#[trigger] entries[i]),
        )
}

/// Whether nothing is in the way of a write: it can begin and succeed, and nobody else writes its
/// ID.
pub open spec fn clear(
    write: S3View,
    objects: Map<Seq<char>, Seq<u8>>,
    pid: u32,
    count: u64,
) -> bool {
    &&& ready(write, objects, pid, count)
    &&& can_succeed(write, objects)
    &&& !objects.dom().contains(reservation_text(write.id))
}

proof fn lemma_run_push(
    write: S3View,
    objects: Map<Seq<char>, Seq<u8>>,
    pid: u32,
    count: u64,
    events: Seq<(S3Event, Seq<u8>)>,
    event: (S3Event, Seq<u8>),
)
    ensures
        run_of(write, objects, pid, count, events.push(event)) == run_of(
            write,
            objects,
            pid,
            count,
            events,
        ).after(temp_text(write.id, pid, count, write.ext), event.0, event.1),
{
    assert(events.push(event).drop_last() =~= events);
}

/// Nothing has the key of an ID that nothing holds.
proof fn lemma_target_free(objects: Map<Seq<char>, Seq<u8>>, id: Seq<char>, ext: Seq<char>)
    requires
        is_component(id),
        is_component(ext),
        !id_stored(objects, id),
    ensures
        !objects.dom().contains(object_text(id, ext)),
{
    object_key_round_trip(id, ext);
    if objects.dom().contains(object_text(id, ext)) {
        assert(id_stored(objects, id));
    }
}

proof fn lemma_then_reserved(
    write: S3View,
    objects: Map<Seq<char>, Seq<u8>>,
    pid: u32,
    count: u64,
    events: Seq<(S3Event, Seq<u8>)>,
)
    requires
        clear(write, objects, pid, count),
        run_of(write, objects, pid, count, events).write.step is Reserve,
    ensures
        run_of(write, objects, pid, count, then_reserved(events)).write.step == work_step(write.job),
{
    let one = events.push(bare(S3Event::Done));
    let listed = bare(S3Event::Listed(Listed::Nothing));
    lemma_object_run(write, objects, pid, count, events);
    lemma_run_push(write, objects, pid, count, events, bare(S3Event::Done));
    let run = run_of(write, objects, pid, count, one);
    assert(run.write.step is CheckId);
    lemma_object_run(write, objects, pid, count, one);
    lemma_scratch_keys(write.id, run.write.ext, 0, 0);
    lemma_hidden_lookup(objects, run.reservation(), Seq::empty(), write.id);
    lemma_run_push(write, objects, pid, count, one, listed);
}

/// An upload to a free ID of contents that are at hand succeeds where no step fails, and is read
/// back.
pub proof fn s3_undisturbed_put_succeeds(
    write: S3View,
    objects: Map<Seq<char>, Seq<u8>>,
    pid: u32,
    count: u64,
    data: Seq<u8>,
)
    requires
        clear(write, objects, pid, count),
        write.job == S3Job::Put,
    ensures
        ({
            let events = then_reserved(Seq::empty()).push((S3Event::Done, data)).push(
                bare(S3Event::Done),
            );
            let run = run_of(write, objects, pid, count, events);
            &&& run.write.step == (S3Step::Finished { result: Ok(0) })
            &&& run.objects == objects.insert(run.target(), data)
            &&& found_at(run.objects, write.id, run.target())
        }),
{
    let begin = then_reserved(Seq::empty());
    let put = begin.push((S3Event::Done, data));
    lemma_then_reserved(write, objects, pid, count, Seq::empty());
    lemma_object_run(write, objects, pid, count, begin);
    let run = run_of(write, objects, pid, count, begin);
    lemma_target_free(objects, write.id, run.write.ext);
    lemma_scratch_keys(write.id, run.write.ext, 0, 0);
    object_key_round_trip(write.id, run.write.ext);
    lemma_hidden(run.reservation(), write.id);
    lemma_run_push(write, objects, pid, count, begin, (S3Event::Done, data));
    lemma_run_push(write, objects, pid, count, put, bare(S3Event::Done));
    s3_upload_is_read_back(write, objects, pid, count, put.push(bare(S3Event::Done)));
}

/// A complete upload that nothing stands in the way of gets its key.
proof fn lemma_then_published(
    write: S3View,
    objects: Map<Seq<char>, Seq<u8>>,
    pid: u32,
    count: u64,
    events: Seq<(S3Event, Seq<u8>)>,
    total: u64,
)
    requires
        clear(write, objects, pid, count),
        run_of(write, objects, pid, count, events).write.step == (S3Step::FinishUpload { total }),
    ensures
        ({
            let before = run_of(write, objects, pid, count, events);
            let run = run_of(write, objects, pid, count, then_published(events));
            &&& run.received == before.received
            &&& run.clean == before.clean
            &&& run.write.step == (if write.job == S3Job::Concat {
                old_step(write.parts, 0, total)
            } else {
                S3Step::Finished { result: Ok(total) }
            })
        }),
{
    let done = bare(S3Event::Done);
    let one = events.push(done);
    let two = one.push(done);
    let three = two.push(done);
    lemma_object_run(write, objects, pid, count, events);
    lemma_run_push(write, objects, pid, count, events, done);
    lemma_object_run(write, objects, pid, count, one);
    let run = run_of(write, objects, pid, count, one);
    assert(run.write.step == (S3Step::Publish { total }));
    lemma_target_free(objects, write.id, run.write.ext);
    lemma_scratch_keys(write.id, write.ext, pid, count);
    object_key_round_trip(write.id, run.write.ext);
    lemma_hidden(run.reservation(), write.id);
    lemma_hidden(temp_text(write.id, pid, count, write.ext), write.id);
    lemma_run_push(write, objects, pid, count, one, done);
    assert(run_of(write, objects, pid, count, two).write.step is RemoveTemp);
    lemma_run_push(write, objects, pid, count, two, done);
    lemma_object_run(write, objects, pid, count, three);
    lemma_run_push(write, objects, pid, count, three, done);
}

proof fn lemma_then_chunks(
    write: S3View,
    objects: Map<Seq<char>, Seq<u8>>,
    pid: u32,
    count: u64,
    events: Seq<(S3Event, Seq<u8>)>,
    chunks: Seq<Seq<u8>>,
)
    requires
        ready(write, objects, pid, count),
        run_of(write, objects, pid, count, events).write.step is NextChunk,
        run_of(write, objects, pid, count, events).received.len() == 0,
        forall|i: int| 0 <= i < chunks.len() ==> (#[trigger] chunks[i]).len() <= u64::MAX,
    ensures
        ({
            let run = run_of(write, objects, pid, count, then_chunks(events, chunks));
            run.write.step is NextChunk && run.received == flat(chunks)
        }),
    decreases chunks.len(),
{
    if chunks.len() == 0 {
        assert(run_of(write, objects, pid, count, events).received =~= flat(chunks));
    } else {
        let fewer = chunks.drop_last();
        let earlier = then_chunks(events, fewer);
        let chunk = (S3Event::Chunk(chunks.last().len() as u64), chunks.last());
        assert(chunks[chunks.len() - 1].len() <= u64::MAX);
        assert forall|i: int| 0 <= i < fewer.len() implies (#[trigger] fewer[i]).len()
            <= u64::MAX by {
            assert(fewer[i] == chunks[i]);
        }
        lemma_then_chunks(write, objects, pid, count, events, fewer);
        lemma_run_push(write, objects, pid, count, earlier, chunk);
        lemma_run_push(write, objects, pid, count, earlier.push(chunk), bare(S3Event::Done));
    }
}

/// An upload of chunks to a free ID succeeds where no step fails, and is read back.
pub proof fn s3_undisturbed_stream_succeeds(
    write: S3View,
    objects: Map<Seq<char>, Seq<u8>>,
    pid: u32,
    count: u64,
    chunks: Seq<Seq<u8>>,
)
    requires
        clear(write, objects, pid, count),
        write.job == S3Job::PutStream,
        forall|i: int| 0 <= i < chunks.len() ==> (#[trigger] chunks[i]).len() <= u64::MAX,
    ensures
        ({
            let begin = then_reserved(Seq::empty()).push(bare(S3Event::Done));
            let events = then_published(then_chunks(begin, chunks).push(bare(S3Event::End)));
            let run = run_of(write, objects, pid, count, events);
            &&& run.write.step == (S3Step::Finished { result: Ok(capped(flat(chunks).len())) })
            &&& run.objects == objects.insert(run.target(), flat(chunks))
            &&& found_at(run.objects, write.id, run.target())
        }),
{
    let reserved = then_reserved(Seq::empty());
    let begin = reserved.push(bare(S3Event::Done));
    let all = then_chunks(begin, chunks);
    let ended = all.push(bare(S3Event::End));
    lemma_then_reserved(write, objects, pid, count, Seq::empty());
    lemma_object_run(write, objects, pid, count, reserved);
    lemma_run_push(write, objects, pid, count, reserved, bare(S3Event::Done));
    lemma_then_chunks(write, objects, pid, count, begin, chunks);
    lemma_object_run(write, objects, pid, count, all);
    lemma_run_push(write, objects, pid, count, all, bare(S3Event::End));
    lemma_then_published(
        write,
        objects,
        pid,
        count,
        ended,
        capped(flat(chunks).len()),
    );
    s3_upload_is_read_back(write, objects, pid, count, then_published(ended));
}

proof fn lemma_then_parts(
    write: S3View,
    objects: Map<Seq<char>, Seq<u8>>,
    pid: u32,
    count: u64,
    events: Seq<(S3Event, Seq<u8>)>,
    entries: Seq<ObjectEntry>,
    n: int,
)
    requires
        ready(write, objects, pid, count),
        write.job == S3Job::Concat,
        entries_of(entries, objects, write.parts),
        run_of(write, objects, pid, count, events).write.step == upload_step(write.parts, 0),
        0 <= n <= write.parts.len(),
    ensures
        run_of(
            write,
            objects,
            pid,
            count,
            then_parts(events, objects, entries, n),
        ).write.step == upload_step(write.parts, n),
    decreases n,
{
    if n > 0 {
        let entry = entries[n - 1];
        let id = write.parts[n - 1]@;
        let data = objects[entry.location@];
        let before = then_parts(events, objects, entries, n - 1);
        let one = before.push(bare(S3Event::Listed(Listed::Object(entry))));
        let two = one.push(bare(S3Event::Done));
        let three = two.push((S3Event::Chunk(entry.size), data));
        let four = three.push(bare(S3Event::Done));
        lemma_then_parts(write, objects, pid, count, events, entries, n - 1);
        assert(lookup_true(objects, id, Listed::Object(entries[n - 1])));
        lemma_object_run(write, objects, pid, count, before);
        let run = run_of(write, objects, pid, count, before);
        lemma_scratch_keys(write.id, run.write.ext, 0, 0);
        lemma_hidden(run.reservation(), id);
        lemma_run_push(
            write,
            objects,
            pid,
            count,
            before,
            bare(S3Event::Listed(Listed::Object(entry))),
        );
        lemma_object_run(write, objects, pid, count, one);
        assert(run_of(write, objects, pid, count, one).write.step is GetPart);
        lemma_run_push(write, objects, pid, count, one, bare(S3Event::Done));
        let reading = run_of(write, objects, pid, count, two);
        assert(reading.unread == data);
        assert(data.take(entry.size as int) =~= data);
        lemma_run_push(write, objects, pid, count, two, (S3Event::Chunk(entry.size), data));
        assert(run_of(write, objects, pid, count, three).unread.len() == 0);
        lemma_run_push(write, objects, pid, count, three, bare(S3Event::Done));
        lemma_run_push(write, objects, pid, count, four, bare(S3Event::End));
    }
}

proof fn lemma_then_deleted(
    write: S3View,
    objects: Map<Seq<char>, Seq<u8>>,
    pid: u32,
    count: u64,
    events: Seq<(S3Event, Seq<u8>)>,
    entries: Seq<ObjectEntry>,
    total: u64,
    n: int,
)
    requires
        clear(write, objects, pid, count),
        write.job == S3Job::Concat || write.job == S3Job::Rename,
        entries_of(entries, objects, write.parts),
        parts_differ(write.parts),
        run_of(write, objects, pid, count, events).write.step == old_step(write.parts, 0, total),
        run_of(write, objects, pid, count, events).clean,
        0 <= n <= write.parts.len(),
    ensures
        ({
            let run = run_of(write, objects, pid, count, then_deleted(events, entries, n));
            run.write.step == old_step(write.parts, n, total) && run.clean
        }),
    decreases n,
{
    if n > 0 {
        let entry = entries[n - 1];
        let parts = write.parts;
        let id = parts[n - 1]@;
        let key = entry.location@;
        let listed = bare(S3Event::Listed(Listed::Object(entry)));
        let before = then_deleted(events, entries, n - 1);
        lemma_then_deleted(write, objects, pid, count, events, entries, total, n - 1);
        lemma_object_run(write, objects, pid, count, before);
        let run = run_of(write, objects, pid, count, before);
        let placed = objects.insert(run.target(), run.received);
        assert(lookup_true(objects, id, Listed::Object(entries[n - 1])));
        object_key_round_trip(write.id, run.write.ext);
        if key == run.target() {
            object_holds_one_id(key, id, write.id);
            assert(id_stored(objects, write.id));
        }
        if is_part_key(parts, n - 1, key) {
            let i = choose|i: int| 0 <= i < n - 1 && holds_id(key, (#[trigger] parts[i])@);
            object_holds_one_id(key, id, parts[i]@);
            assert(parts[i]@ != parts[n - 1]@);
        }
        assert(placed.dom().contains(key) && placed[key] == objects[key]);
        assert(run.objects.dom().contains(key));
        lemma_run_push(write, objects, pid, count, before, listed);
        lemma_run_push(write, objects, pid, count, before.push(listed), bare(S3Event::Done));
    }
}

/// A concatenation of different stored files to a free ID succeeds where no step fails: its object
/// is found and holds the contents of the parts in their order, and the parts are gone.
pub proof fn s3_undisturbed_concatenation_succeeds(
    write: S3View,
    objects: Map<Seq<char>, Seq<u8>>,
    pid: u32,
    count: u64,
    entries: Seq<ObjectEntry>,
)
    requires
        clear(write, objects, pid, count),
        write.job == S3Job::Concat,
        entries_of(entries, objects, write.parts),
        parts_differ(write.parts),
    ensures
        ({
            let n = write.parts.len() as int;
            let begin = then_reserved(Seq::empty()).push(bare(S3Event::Done));
            let stored = then_published(then_parts(begin, objects, entries, n));
            let run = run_of(write, objects, pid, count, then_deleted(stored, entries, n));
            &&& run.write.step == (S3Step::Finished { result: Ok(0) })
            &&& found_at(run.objects, write.id, run.target())
            &&& run.objects[run.target()] == joined(objects, write.parts, n)
            &&& parts_gone(run.objects, write.parts, n)
        }),
{
    let n = write.parts.len() as int;
    let reserved = then_reserved(Seq::empty());
    let begin = reserved.push(bare(S3Event::Done));
    let uploaded = then_parts(begin, objects, entries, n);
    let stored = then_published(uploaded);
    lemma_then_reserved(write, objects, pid, count, Seq::empty());
    lemma_object_run(write, objects, pid, count, reserved);
    lemma_run_push(write, objects, pid, count, reserved, bare(S3Event::Done));
    lemma_then_parts(write, objects, pid, count, begin, entries, n);
    lemma_stays_clean(write, objects, pid, count, uploaded);
    lemma_then_published(write, objects, pid, count, uploaded, 0);
    lemma_then_deleted(write, objects, pid, count, stored, entries, 0, n);
    s3_concatenation_is_read_back(write, objects, pid, count, then_deleted(stored, entries, n));
}

/// Before the old files are dealt with no lookup and no deletion of one has failed.
proof fn lemma_stays_clean(
    write: S3View,
    objects: Map<Seq<char>, Seq<u8>>,
    pid: u32,
    count: u64,
    events: Seq<(S3Event, Seq<u8>)>,
)
    requires
        ready(write, objects, pid, count),
    ensures
        ({
            let run = run_of(write, objects, pid, count, events);
            run.write.step is DeleteOld || run.write.step is Finished || run.clean || (
            run.write.step matches S3Step::ListOld { index, .. } && index > 0)
        }),
    decreases events.len(),
{
    if events.len() > 0 {
        lemma_stays_clean(write, objects, pid, count, events.drop_last());
        lemma_object_run(write, objects, pid, count, events.drop_last());
    }
}

/// A rename of a stored file to a free ID succeeds where no step fails: the new object is found
/// and holds what the old one held, and the old one is gone.
pub proof fn s3_undisturbed_rename_succeeds(
    write: S3View,
    objects: Map<Seq<char>, Seq<u8>>,
    pid: u32,
    count: u64,
    entry: ObjectEntry,
)
    requires
        clear(write, objects, pid, count),
        write.job == S3Job::Rename,
        lookup_true(objects, write.parts[0]@, Listed::Object(entry)),
    ensures
        ({
            let listed = bare(S3Event::Listed(Listed::Object(entry)));
            let copied = then_reserved(Seq::empty().push(listed)).push(bare(S3Event::Done)).push(
                bare(S3Event::Done),
            );
            let events = then_deleted(copied, Seq::empty().push(entry), 1);
            let run = run_of(write, objects, pid, count, events);
            &&& run.write.step == (S3Step::Finished { result: Ok(0) })
            &&& found_at(run.objects, write.id, run.target())
            &&& run.objects[run.target()] == content_of(objects, write.parts[0]@)
            &&& !id_stored(run.objects, write.parts[0]@)
        }),
{
    let none = Seq::<(S3Event, Seq<u8>)>::empty();
    let done = bare(S3Event::Done);
    let listed = bare(S3Event::Listed(Listed::Object(entry)));
    let entries = Seq::<ObjectEntry>::empty().push(entry);
    let found = none.push(listed);
    let reserved = then_reserved(found);
    let linked = reserved.push(done);
    let copied = linked.push(done);
    let id = write.parts[0]@;
    lemma_object_run(write, objects, pid, count, none);
    lemma_run_push(write, objects, pid, count, none, listed);
    lemma_then_reserved(write, objects, pid, count, found);
    lemma_object_run(write, objects, pid, count, reserved);
    let run = run_of(write, objects, pid, count, reserved);
    let key = key_in(objects, id);
    assert(objects.dom().contains(key) && holds_id(key, id));
    lemma_scratch_keys(write.id, run.write.ext, 0, 0);
    object_key_round_trip(write.id, run.write.ext);
    lemma_hidden(run.reservation(), write.id);
    lemma_target_free(objects, write.id, run.write.ext);
    lemma_run_push(write, objects, pid, count, reserved, done);
    lemma_run_push(write, objects, pid, count, linked, done);
    lemma_stays_clean(write, objects, pid, count, copied);
    lemma_then_deleted(write, objects, pid, count, copied, entries, 0, 1);
    s3_renamed_object_is_read_back(
        write,
        objects,
        pid,
        count,
        then_deleted(copied, entries, 1),
    );
}

/// An ID whose object was found and deleted is gone; every other ID is as it was, and no ID has two
/// objects.
pub proof fn s3_deleted_object_leaves_the_rest(
    objects: Map<Seq<char>, Seq<u8>>,
    id: Seq<char>,
    entry: ObjectEntry,
)
    requires
        tidy(objects),
        lookup_true(objects, id, Listed::Object(entry)),
    ensures
        ({
            let after = objects.remove(entry.location@);
            &&& !id_stored(after, id)
            &&& tidy(after)
            &&& forall|other: Seq<char>, key: Seq<char>|
                other != id ==> #[trigger] found_at(after, other, key) == found_at(
                    objects,
                    other,
                    key,
                )
        }),
{
    let gone = entry.location@;
    let after = objects.remove(gone);
    assert(objects.dom().contains(gone) && holds_id(gone, id));
    assert(found_at(objects, id, gone));
    if id_stored(after, id) {
        let key = key_in(after, id);
        assert(after.dom().contains(key) && holds_id(key, id));
        assert(objects.dom().contains(key));
    }
    lemma_tidy_fewer(objects, after);
    assert forall|other: Seq<char>, key: Seq<char>| other != id implies #[trigger] found_at(
        after,
        other,
        key,
    ) == found_at(objects, other, key) by {
        if holds_id(gone, other) {
            object_holds_one_id(gone, id, other);
        }
        assert forall|x: Seq<char>| #[trigger] after.dom().contains(x) && holds_id(x, other) implies
            objects.dom().contains(x) by {}
        assert forall|x: Seq<char>| #[trigger] objects.dom().contains(x) && holds_id(x, other) implies
            after.dom().contains(x) by {}
    }
}

/// What a lookup in a complete listing gives is what is there.
pub proof fn lookup_tells_what_is_there(
    objects: Map<Seq<char>, Seq<u8>>,
    id: Seq<char>,
    entries: Seq<ObjectEntry>,
)
    requires
        lists(entries, objects),
    ensures
        match entry_of(id, entries) {
            Some(entry) => lookup_true(objects, id, Listed::Object(entry)),
            None => lookup_true(objects, id, Listed::Nothing),
        },
{
    lemma_entry_of(id, entries);
    if entry_of(id, entries) is None && id_stored(objects, id) {
        let key = key_in(objects, id);
        assert(objects.dom().contains(key) && holds_id(key, id));
        let i = choose|i: int| 0 <= i < entries.len() && (#[trigger] entries[i]).location@ == key;
        assert(holds_id(entries[i].location@, id));
    }
}

proof fn lemma_entry_of(id: Seq<char>, entries: Seq<ObjectEntry>)
    ensures
        match entry_of(id, entries) {
            Some(entry) => holds_id(entry.location@, id) && exists|i: int|
                0 <= i < entries.len() && #[trigger] entries[i] == entry,
            None => forall|i: int|
                0 <= i < entries.len() ==> !holds_id((#[trigger] entries[i]).location@, id),
        },
    decreases entries.len(),
{
    if entries.len() > 0 {
        let rest = entries.skip(1);
        lemma_entry_of(id, rest);
        if holds_id(entries[0].location@, id) {
            assert(entries[0] == entries[0]);
        } else {
            match entry_of(id, rest) {
                Some(entry) => {
                    let i = choose|i: int| 0 <= i < rest.len() && #[trigger] rest[i] == entry;
                    assert(entries[i + 1] == entry);
                },
                None => {
                    assert forall|i: int| 0 <= i < entries.len() implies !holds_id(
                        (#[trigger] entries[i]).location@,
                        id,
                    ) by {
                        if i > 0 {
                            assert(rest[i - 1] == entries[i]);
                        }
                    }
                },
            }
        }
    }
}

/// A lookup finds the object that holds an ID, and tells its size.
pub proof fn lookup_finds_stored_object(
    objects: Map<Seq<char>, Seq<u8>>,
    id: Seq<char>,
    key: Seq<char>,
    entries: Seq<ObjectEntry>,
)
    requires
        lists(entries, objects),
        found_at(objects, id, key),
    ensures
        entry_of(id, entries) matches Some(entry) && entry.location@ == key && entry.size
            == objects[key].len(),
{
    lookup_tells_what_is_there(objects, id, entries);
    assert(id_stored(objects, id));
}

} // verus!
