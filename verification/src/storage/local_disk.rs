//! What the local backend makes of the storage directory.
//!
//! The model follows a write on a disk, a map from file names to contents. It shows that a file
//! that was stored is found under its ID with the bytes that came, and that the index never names
//! a file that is not there.

use vstd::prelude::*;
use vstd::string::*;

use crate::error::StorageError;
use crate::storage::local::{
    is_leftover, reserving_name, stored_names_are_no_leftovers, StoreView,
};
use crate::storage::local_write::{has_succeeded, LocalWrite, WriteEvent, WriteStep};
use crate::storage::names::{
    extension_of, is_component, stored_extension, stored_name, stored_names_are_distinct,
};
use crate::text::text_view;

verus! {

/// The name of the file that holds a stored ID.
pub open spec fn name_in(store: StoreView, id: Seq<char>) -> Seq<char> {
    stored_name(id, store.extensions[id])
}

/// Whether the file of every ID in the index is on the disk.
pub open spec fn follows(store: StoreView, files: Map<Seq<char>, Seq<u8>>) -> bool {
    &&& store.valid()
    &&& forall|id: Seq<char>| #[trigger]
        store.extensions.dom().contains(id) ==> files.dom().contains(name_in(store, id))
}

/// A write together with the index and the disk.
pub struct DiskRun {
    pub write: LocalWrite,
    pub store: StoreView,
    pub files: Map<Seq<char>, Seq<u8>>,
    /// The chunk that came and is not written yet.
    pub pending: Seq<u8>,
    /// The bytes that were written.
    pub received: Seq<u8>,
    /// Whether every removal of a part succeeded.
    pub clean: bool,
}

impl DiskRun {
    /// The name of the file that is written.
    pub open spec fn target(self) -> Seq<char> {
        stored_name(self.write.id@, self.write.ext@)
    }

    /// The name of the file of a part.
    pub open spec fn part(self, index: int) -> Seq<char> {
        name_in(self.store, self.write.parts@[index]@)
    }

    /// Whether the event can come of the step: a file is created only where there is none, and
    /// read or removed only where there is one. `bytes` is the chunk that comes.
    pub open spec fn allows(self, temp: Seq<char>, event: WriteEvent, bytes: Seq<u8>) -> bool {
        match (self.write.step, event) {
            (WriteStep::Reserve, WriteEvent::Done) => !self.files.dom().contains(
                reserving_name(self.write.id@),
            ),
            (WriteStep::CreateTemp, WriteEvent::Done) => !self.files.dom().contains(temp),
            (WriteStep::NextChunk { .. }, WriteEvent::Chunk(n)) => bytes.len() == n,
            (WriteStep::CopyPart { index }, WriteEvent::Done) => self.files.dom().contains(
                self.part(index as int),
            ),
            (WriteStep::Publish { .. }, WriteEvent::Done) => !self.files.dom().contains(
                self.target(),
            ),
            (WriteStep::DeletePart { index }, WriteEvent::Done) => self.files.dom().contains(
                self.part(index as int),
            ),
            _ => true,
        }
    }

    /// The disk after the event. A write that fails may leave anything in the temporary file, here
    /// `bytes`. The removal of a temporary file or a reservation counts as done when it is asked
    /// for.
    pub open spec fn files_after(self, temp: Seq<char>, event: WriteEvent, bytes: Seq<u8>) -> Map<
        Seq<char>,
        Seq<u8>,
    > {
        let files = self.files;
        match (self.write.step, event) {
            (WriteStep::Reserve, WriteEvent::Done) => files.insert(
                reserving_name(self.write.id@),
                Seq::empty(),
            ),
            (WriteStep::CreateTemp, WriteEvent::Done) => files.insert(temp, Seq::empty()),
            (WriteStep::WriteChunk { .. }, WriteEvent::Done) => files.insert(
                temp,
                files[temp] + self.pending,
            ),
            (WriteStep::WriteChunk { .. }, WriteEvent::Failed(_)) => files.insert(temp, bytes),
            (WriteStep::CopyPart { index }, WriteEvent::Done) => files.insert(
                temp,
                files[temp] + files[self.part(index as int)],
            ),
            (WriteStep::CopyPart { .. }, WriteEvent::Failed(_)) => files.insert(temp, bytes),
            (WriteStep::Publish { .. }, WriteEvent::Done) => files.insert(
                self.target(),
                files[temp],
            ).remove(temp),
            (WriteStep::DeletePart { index }, WriteEvent::Done) => files.remove(
                self.part(index as int),
            ),
            (WriteStep::Discard { .. }, _) => files.remove(temp),
            (WriteStep::Release { .. }, _) => files.remove(reserving_name(self.write.id@)),
            _ => files,
        }
    }

    /// The run after the event. What cannot come changes nothing.
    pub open spec fn after(self, temp: Seq<char>, event: WriteEvent, bytes: Seq<u8>) -> DiskRun {
        if self.allows(temp, event, bytes) {
            DiskRun {
                write: LocalWrite { step: self.write.step_after(self.store, event), ..self.write },
                store: self.write.store_after(self.store, event),
                files: self.files_after(temp, event, bytes),
                pending: match (self.write.step, event) {
                    (WriteStep::NextChunk { .. }, WriteEvent::Chunk(_)) => bytes,
                    _ => self.pending,
                },
                received: match (self.write.step, event) {
                    (WriteStep::WriteChunk { .. }, WriteEvent::Done) => self.received
                        + self.pending,
                    (WriteStep::CopyPart { index }, WriteEvent::Done) => self.received
                        + self.files[self.part(index as int)],
                    _ => self.received,
                },
                clean: self.clean && (self.write.step is DeletePart ==> event is Done),
            }
        } else {
            self
        }
    }
}

/// The run after a sequence of events, each with the bytes that belong to it.
pub open spec fn disk_run(
    run: DiskRun,
    temp: Seq<char>,
    events: Seq<(WriteEvent, Seq<u8>)>,
) -> DiskRun
    decreases events.len(),
{
    if events.len() == 0 {
        run
    } else {
        disk_run(run, temp, events.drop_last()).after(temp, events.last().0, events.last().1)
    }
}

/// A run that has not begun.
pub open spec fn disk_start(
    write: LocalWrite,
    store: StoreView,
    files: Map<Seq<char>, Seq<u8>>,
) -> DiskRun {
    DiskRun { write, store, files, pending: Seq::empty(), received: Seq::empty(), clean: true }
}

/// The number of bytes, at most the largest number there is.
pub open spec fn capped(n: nat) -> u64 {
    if n > u64::MAX {
        u64::MAX
    } else {
        n as u64
    }
}

/// The contents of the first `n` parts, one behind the other.
pub open spec fn parts_content(
    store: StoreView,
    files: Map<Seq<char>, Seq<u8>>,
    parts: Seq<String>,
    n: int,
) -> Seq<u8>
    decreases n,
{
    if n <= 0 {
        Seq::empty()
    } else {
        parts_content(store, files, parts, n - 1) + files[name_in(store, parts[n - 1]@)]
    }
}

/// Whether all parts before `n` are in the index.
pub open spec fn parts_stored(store: StoreView, parts: Seq<String>, n: int) -> bool {
    forall|i: int| 0 <= i < n ==> store.extensions.dom().contains((#[trigger] parts[i])@)
}

/// Whether a name is that of the file of a part.
pub open spec fn is_part_name(store: StoreView, parts: Seq<String>, name: Seq<char>) -> bool {
    exists|i: int| 0 <= i < parts.len() && name == name_in(store, (#[trigger] parts[i])@)
}

/// Whether two disks hold the same, but for the files of the parts.
pub open spec fn same_but_parts(
    a: Map<Seq<char>, Seq<u8>>,
    b: Map<Seq<char>, Seq<u8>>,
    store: StoreView,
    parts: Seq<String>,
) -> bool {
    forall|name: Seq<char>|
        #![trigger a.dom().contains(name)]
        #![trigger b.dom().contains(name)]
        !is_part_name(store, parts, name) ==> a.dom().contains(name) == b.dom().contains(name) && (
        a.dom().contains(name) ==> a[name] == b[name])
}

/// What is on the disk after a file was stored: its file is there, the others are as they were. A
/// concatenation may have removed its parts.
pub open spec fn files_stored(
    run: DiskRun,
    files: Map<Seq<char>, Seq<u8>>,
    before: StoreView,
    base: Map<Seq<char>, Seq<u8>>,
) -> bool {
    if run.write.concat {
        &&& same_but_parts(
            files,
            base.insert(run.target(), run.received),
            before,
            run.write.parts@,
        )
        &&& forall|id: Seq<char>| #[trigger]
            run.store.extensions.dom().contains(id) && before.extensions.dom().contains(id)
                && base.dom().contains(name_in(before, id)) ==> files.dom().contains(
                name_in(before, id),
            )
    } else {
        files == base.insert(run.target(), run.received)
    }
}

/// Whether the first `n` parts are neither in the index nor on the disk any more.
pub open spec fn parts_removed(
    run: DiskRun,
    before: StoreView,
    parts: Seq<String>,
    n: int,
) -> bool {
    forall|i: int|
        0 <= i < n ==> !run.store.extensions.dom().contains((#[trigger] parts[i])@)
            && !run.files.dom().contains(name_in(before, parts[i]@))
}

/// Whether a file that left the index has left the disk.
pub open spec fn removal_complete(run: DiskRun, before: StoreView) -> bool {
    forall|id: Seq<char>| #[trigger]
        before.extensions.dom().contains(id) && !run.store.extensions.dom().contains(id)
            ==> !run.files.dom().contains(name_in(before, id))
}

/// Whether the index is as it was, but for the new file and the parts.
pub open spec fn index_stored(run: DiskRun, before: StoreView) -> bool {
    let id = run.write.id@;
    &&& run.store.extensions.dom().contains(id)
    &&& run.store.extensions[id] == run.write.ext@
    &&& forall|x: Seq<char>| #[trigger]
        run.store.extensions.dom().contains(x) && x != id ==> before.extensions.dom().contains(x)
            && run.store.extensions[x] == before.extensions[x]
}

spec fn disk_holds(
    run: DiskRun,
    write: LocalWrite,
    before: StoreView,
    files: Map<Seq<char>, Seq<u8>>,
    temp: Seq<char>,
) -> bool {
    let res = reserving_name(write.id@);
    let base = files.insert(res, Seq::empty());
    let fresh = !before.extensions.dom().contains(write.id@) && !files.dom().contains(res);
    let writing = fresh && run.store == before && run.files == base.insert(temp, run.received);
    let parts = write.parts@;
    let copied = |n: int| parts_stored(before, parts, n) && run.received == parts_content(
        before,
        files,
        parts,
        n,
    );
    &&& run.write == (LocalWrite { step: run.write.step, ..write })
    &&& run.write.valid()
    &&& match run.write.step {
        WriteStep::Reserve => run.store == before && run.files == files && run.received.len() == 0,
        WriteStep::CheckSpace | WriteStep::CreateTemp => fresh && run.store == before && run.files
            == base && run.received.len() == 0,
        WriteStep::NextChunk { total } => !write.concat && writing && total == capped(
            run.received.len(),
        ),
        WriteStep::WriteChunk { total } => !write.concat && writing && total == capped(
            run.received.len() + run.pending.len(),
        ),
        WriteStep::OpenPart { index } => write.concat && writing && copied(index as int)
            && before.resolved(parts[index as int]@) is Some,
        WriteStep::StatPart { index } => write.concat && writing && copied(index as int)
            && before.resolved(parts[index as int]@) is Some,
        WriteStep::CopyPart { index } => write.concat && writing && copied(index as int)
            && before.resolved(parts[index as int]@) is Some,
        WriteStep::Flush { total } => writing && (if write.concat {
            copied(parts.len() as int)
        } else {
            total == capped(run.received.len())
        }),
        WriteStep::Publish { total } => writing && (if write.concat {
            copied(parts.len() as int)
        } else {
            total == capped(run.received.len())
        }),
        WriteStep::Discard { .. } => fresh && run.store == before && run.files.remove(temp)
            == base,
        WriteStep::DeletePart { index } => {
            &&& fresh && write.concat && copied(parts.len() as int)
            &&& index_stored(run, before)
            &&& files_stored(run, run.files, before, base)
            &&& run.store.extensions.dom().contains(parts[index as int]@)
            &&& removal_complete(run, before)
            &&& run.clean ==> parts_removed(run, before, parts, index as int)
        },
        WriteStep::Release { result } => match result {
            Err(_) => !files.dom().contains(res) && run.store == before && run.files == base,
            Ok(total) => {
                &&& fresh
                &&& index_stored(run, before)
                &&& files_stored(run, run.files, before, base)
                &&& if write.concat {
                    &&& copied(parts.len() as int)
                    &&& removal_complete(run, before)
                    &&& run.clean ==> parts_removed(run, before, parts, parts.len() as int)
                } else {
                    total == capped(run.received.len())
                }
            },
        },
        WriteStep::Finished { result } => match result {
            Err(_) => run.store == before && run.files == files,
            Ok(total) => {
                &&& fresh
                &&& index_stored(run, before)
                &&& files_stored(run, run.files, before, files)
                &&& if write.concat {
                    &&& copied(parts.len() as int)
                    &&& removal_complete(run, before)
                    &&& run.clean ==> parts_removed(run, before, parts, parts.len() as int)
                } else {
                    total == capped(run.received.len())
                }
            },
        },
    }
}

/// A name is not that of a reservation or a temporary file.
pub(crate) proof fn lemma_stored_is_apart(
    id: Seq<char>,
    ext: Seq<char>,
    temp: Seq<char>,
    reserved: Seq<char>,
)
    requires
        is_component(id),
        is_leftover(temp),
    ensures
        stored_name(id, ext) != temp,
        stored_name(id, ext) != reserving_name(reserved),
{
    stored_names_are_no_leftovers(id, ext);
    crate::storage::local::interrupted_writes_leave_leftovers(reserved, 0, 0);
}

/// The reservation is not the file of a part.
proof fn lemma_reservation_is_no_part(before: StoreView, parts: Seq<String>, id: Seq<char>)
    requires
        before.valid(),
        parts_stored(before, parts, parts.len() as int),
    ensures
        !is_part_name(before, parts, reserving_name(id)),
{
    if is_part_name(before, parts, reserving_name(id)) {
        let i = choose|i: int|
            0 <= i < parts.len() && reserving_name(id) == name_in(before, (#[trigger] parts[i])@);
        assert(before.extensions.dom().contains(parts[i]@));
        crate::storage::local::interrupted_writes_leave_leftovers(id, 0, 0);
        stored_names_are_no_leftovers(parts[i]@, before.extensions[parts[i]@]);
    }
}

proof fn lemma_cleanup(next: DiskRun, from: int, write: LocalWrite, before: StoreView)
    requires
        0 <= from,
        write.parts@.len() <= usize::MAX,
        next.write == (LocalWrite {
            step: crate::storage::local_write::cleanup_step(next.store, write.parts@, from),
            ..write
        }),
        parts_stored(before, write.parts@, write.parts@.len() as int),
        removal_complete(next, before),
        next.clean ==> from <= write.parts@.len() && parts_removed(
            next,
            before,
            write.parts@,
            from,
        ),
    ensures
        match next.write.step {
            WriteStep::DeletePart { index } => index < write.parts@.len()
                && next.store.extensions.dom().contains(write.parts@[index as int]@) && (next.clean
                ==> parts_removed(next, before, write.parts@, index as int)),
            WriteStep::Release { result } => result is Ok && (next.clean ==> parts_removed(
                next,
                before,
                write.parts@,
                write.parts@.len() as int,
            )),
            _ => false,
        },
    decreases write.parts@.len() - from,
{
    if from < write.parts@.len() && !next.store.extensions.dom().contains(
        write.parts@[from]@,
    ) {
        assert(before.extensions.dom().contains(write.parts@[from]@));
        lemma_cleanup(next, from + 1, write, before);
    }
}

#[verifier::rlimit(80)]
proof fn lemma_disk_after(
    run: DiskRun,
    event: WriteEvent,
    bytes: Seq<u8>,
    write: LocalWrite,
    before: StoreView,
    files: Map<Seq<char>, Seq<u8>>,
    temp: Seq<char>,
)
    requires
        disk_holds(run, write, before, files, temp),
        before.valid(),
        is_component(write.id@),
        is_component(write.ext@),
        write.parts@.len() <= usize::MAX,
        is_leftover(temp),
        temp != reserving_name(write.id@),
        !files.dom().contains(temp),
    ensures
        disk_holds(run.after(temp, event, bytes), write, before, files, temp),
{
    let res = reserving_name(write.id@);
    let base = files.insert(res, Seq::empty());
    let next = run.after(temp, event, bytes);
    let parts = write.parts@;
    if run.allows(temp, event, bytes) {
        lemma_stored_is_apart(write.id@, write.ext@, temp, write.id@);
        match (run.write.step, event) {
            (WriteStep::CreateTemp, WriteEvent::Done) => {
                assert(run.received =~= Seq::empty());
                assert(next.files =~= base.insert(temp, next.received));
                assert(next.files.remove(temp) =~= base);
            },
            (WriteStep::CreateTemp, WriteEvent::Failed(_)) => {
                assert(run.files.remove(temp) =~= base);
            },
            (WriteStep::NextChunk { .. }, WriteEvent::Broken(_)) => {
                assert(run.files.remove(temp) =~= base);
            },
            (WriteStep::WriteChunk { .. }, WriteEvent::Done) => {
                assert(next.files =~= base.insert(temp, next.received));
            },
            (WriteStep::WriteChunk { .. }, WriteEvent::Failed(_)) => {
                assert(next.files.remove(temp) =~= base);
            },
            (WriteStep::CopyPart { index }, WriteEvent::Done) => {
                let id = parts[index as int]@;
                lemma_stored_is_apart(id, before.extensions[id], temp, write.id@);
                assert(run.files[run.part(index as int)] == files[name_in(before, id)]);
                assert(next.files =~= base.insert(temp, next.received));
                assert(next.files.remove(temp) =~= base);
                assert(next.received =~= parts_content(before, files, parts, index + 1));
            },
            (WriteStep::CopyPart { .. }, WriteEvent::Failed(_)) => {
                assert(next.files.remove(temp) =~= base);
            },
            (WriteStep::Publish { .. }, WriteEvent::Done) => {
                assert(next.files =~= base.insert(run.target(), run.received));
                if write.concat {
                    assert(removal_complete(next, before));
                    lemma_cleanup(next, 0, write, before);
                }
            },
            (WriteStep::DeletePart { index }, _) => {
                if event is Done {
                    lemma_delete_part(run, next, index as int, write, before, files);
                }
                lemma_cleanup(next, index + 1, write, before);
            },
            (WriteStep::Release { result: Ok(_) }, _) => {
                assert(run.target() != res);
                if write.concat {
                    lemma_reservation_is_no_part(before, parts, write.id@);
                    let wanted = files.insert(run.target(), run.received);
                    assert forall|name: Seq<char>| !is_part_name(before, parts, name) implies (
                    #[trigger] next.files.dom().contains(name)) == wanted.dom().contains(name)
                        && (next.files.dom().contains(name) ==> next.files[name] == wanted[name]) by {
                        assert(run.files.dom().contains(name) == base.insert(
                            run.target(),
                            run.received,
                        ).dom().contains(name));
                    }
                    assert forall|id: Seq<char>| #[trigger]
                        run.store.extensions.dom().contains(id) && before.extensions.dom().contains(
                            id,
                        ) && files.dom().contains(name_in(before, id)) implies
                        next.files.dom().contains(name_in(before, id)) by {
                        lemma_stored_is_apart(id, before.extensions[id], temp, write.id@);
                        assert(base.dom().contains(name_in(before, id)));
                    }
                } else {
                    assert(next.files =~= files.insert(run.target(), run.received));
                }
            },
            (WriteStep::Release { result: Err(_) }, _) => {
                assert(next.files =~= files);
            },
            (WriteStep::OpenPart { .. }, _) => {
                assert(run.files.remove(temp) =~= base);
            },
            (WriteStep::StatPart { .. }, _) => {
                assert(run.files.remove(temp) =~= base);
            },
            (WriteStep::Flush { .. }, _) => {
                assert(run.files.remove(temp) =~= base);
            },
            (WriteStep::Publish { .. }, _) => {
                assert(run.files.remove(temp) =~= base);
            },
            _ => {},
        }
    }
}

/// Removing a part keeps the rest.
proof fn lemma_delete_part(
    run: DiskRun,
    next: DiskRun,
    index: int,
    write: LocalWrite,
    before: StoreView,
    files: Map<Seq<char>, Seq<u8>>,
)
    requires
        before.valid(),
        write.concat,
        0 <= index < write.parts@.len(),
        run.write == (LocalWrite { step: run.write.step, ..write }),
        next.write.id == write.id,
        next.write.ext == write.ext,
        next.write.concat,
        next.write.parts == write.parts,
        next.received == run.received,
        !before.extensions.dom().contains(write.id@),
        parts_stored(before, write.parts@, write.parts@.len() as int),
        index_stored(run, before),
        files_stored(
            run,
            run.files,
            before,
            files.insert(reserving_name(write.id@), Seq::empty()),
        ),
        run.store.extensions.dom().contains(write.parts@[index]@),
        next.store == run.store.deleted(write.parts@[index]@),
        next.files == run.files.remove(run.part(index)),
        removal_complete(run, before),
        next.clean ==> run.clean,
        run.clean ==> parts_removed(run, before, write.parts@, index),
    ensures
        removal_complete(next, before),
        next.clean ==> parts_removed(next, before, write.parts@, index + 1),
        index_stored(next, before),
        files_stored(
            next,
            next.files,
            before,
            files.insert(reserving_name(write.id@), Seq::empty()),
        ),
{
    let base = files.insert(reserving_name(write.id@), Seq::empty());
    let parts = write.parts@;
    let id = parts[index]@;
    assert(before.extensions.dom().contains(parts[index]@));
    assert(run.store.extensions[id] == before.extensions[id]);
    let gone = name_in(before, id);
    assert(run.part(index) == gone);
    assert(is_part_name(before, parts, gone));
    assert(same_but_parts(
        next.files,
        base.insert(next.target(), next.received),
        before,
        parts,
    )) by {
        assert forall|name: Seq<char>| !is_part_name(before, parts, name) implies (
        #[trigger] next.files.dom().contains(name)) == base.insert(
            next.target(),
            next.received,
        ).dom().contains(name) && (next.files.dom().contains(name) ==> next.files[name]
            == base.insert(next.target(), next.received)[name]) by {
            assert(name != gone);
            assert(run.files.dom().contains(name) == base.insert(
                run.target(),
                run.received,
            ).dom().contains(name));
        }
    }
    assert forall|x: Seq<char>| #[trigger]
        next.store.extensions.dom().contains(x) && before.extensions.dom().contains(x)
            && base.dom().contains(name_in(before, x)) implies next.files.dom().contains(
        name_in(before, x),
    ) by {
        assert(x != id);
        assert(run.store.extensions.dom().contains(x));
        if name_in(before, x) == gone {
            stored_names_are_distinct(x, before.extensions[x], id, before.extensions[id]);
        }
    }
}

proof fn lemma_disk_run(
    write: LocalWrite,
    before: StoreView,
    files: Map<Seq<char>, Seq<u8>>,
    temp: Seq<char>,
    events: Seq<(WriteEvent, Seq<u8>)>,
)
    requires
        write.step is Reserve,
        before.valid(),
        is_component(write.id@),
        is_component(write.ext@),
        write.parts@.len() <= usize::MAX,
        is_leftover(temp),
        temp != reserving_name(write.id@),
        !files.dom().contains(temp),
    ensures
        disk_holds(
            disk_run(disk_start(write, before, files), temp, events),
            write,
            before,
            files,
            temp,
        ),
    decreases events.len(),
{
    if events.len() > 0 {
        lemma_disk_run(write, before, files, temp, events.drop_last());
        lemma_disk_after(
            disk_run(disk_start(write, before, files), temp, events.drop_last()),
            events.last().0,
            events.last().1,
            write,
            before,
            files,
            temp,
        );
    }
}

/// Reading gives back what was written. An upload that succeeded is found under its ID, with
/// exactly the bytes that came; it reports their number; and nothing else on the disk has changed.
pub proof fn upload_is_read_back(
    write: LocalWrite,
    before: StoreView,
    files: Map<Seq<char>, Seq<u8>>,
    temp: Seq<char>,
    events: Seq<(WriteEvent, Seq<u8>)>,
)
    requires
        write.step is Reserve,
        !write.concat,
        before.valid(),
        is_component(write.id@),
        is_component(write.ext@),
        write.parts@.len() <= usize::MAX,
        is_leftover(temp),
        temp != reserving_name(write.id@),
        !files.dom().contains(temp),
    ensures
        ({
            let run = disk_run(disk_start(write, before, files), temp, events);
            run.write.step matches WriteStep::Finished { result: Ok(total) } ==> {
                &&& run.store.resolved(write.id@) == Some(run.target())
                &&& run.files == files.insert(run.target(), run.received)
                &&& total == capped(run.received.len())
            }
        }),
{
    lemma_disk_run(write, before, files, temp, events);
}

/// A concatenation that succeeded is found under its ID, and holds the contents of its parts, one
/// behind the other in their order. Where no removal of a part failed, the parts are gone from the
/// index and from the disk; no other file has changed.
pub proof fn concatenation_is_read_back(
    write: LocalWrite,
    before: StoreView,
    files: Map<Seq<char>, Seq<u8>>,
    temp: Seq<char>,
    events: Seq<(WriteEvent, Seq<u8>)>,
)
    requires
        write.step is Reserve,
        write.concat,
        before.valid(),
        is_component(write.id@),
        is_component(write.ext@),
        write.parts@.len() <= usize::MAX,
        is_leftover(temp),
        temp != reserving_name(write.id@),
        !files.dom().contains(temp),
    ensures
        ({
            let run = disk_run(disk_start(write, before, files), temp, events);
            run.write.step matches WriteStep::Finished { result: Ok(_) } ==> {
                &&& run.store.resolved(write.id@) == Some(run.target())
                &&& run.files.dom().contains(run.target())
                &&& run.files[run.target()] == parts_content(
                    before,
                    files,
                    write.parts@,
                    write.parts@.len() as int,
                )
                &&& same_but_parts(
                    run.files,
                    files.insert(run.target(), run.files[run.target()]),
                    before,
                    write.parts@,
                )
                &&& run.clean ==> parts_removed(
                    run,
                    before,
                    write.parts@,
                    write.parts@.len() as int,
                )
            }
        }),
{
    lemma_disk_run(write, before, files, temp, events);
    let run = disk_run(disk_start(write, before, files), temp, events);
    match run.write.step {
        WriteStep::Finished { result: Ok(_) } => {
            let target = run.target();
            if is_part_name(before, write.parts@, target) {
                let i = choose|i: int|
                    0 <= i < write.parts@.len() && target == name_in(
                        before,
                        (#[trigger] write.parts@[i])@,
                    );
                let id = write.parts@[i]@;
                assert(before.extensions.dom().contains(write.parts@[i]@));
                stored_names_are_distinct(write.id@, write.ext@, id, before.extensions[id]);
            }
            assert(run.files.dom().contains(target) == files.insert(
                target,
                run.received,
            ).dom().contains(target));
        },
        _ => {},
    }
}

/// A write that failed leaves the disk as it was.
pub proof fn failed_write_changes_no_file(
    write: LocalWrite,
    before: StoreView,
    files: Map<Seq<char>, Seq<u8>>,
    temp: Seq<char>,
    events: Seq<(WriteEvent, Seq<u8>)>,
)
    requires
        write.step is Reserve,
        before.valid(),
        is_component(write.id@),
        is_component(write.ext@),
        write.parts@.len() <= usize::MAX,
        is_leftover(temp),
        temp != reserving_name(write.id@),
        !files.dom().contains(temp),
    ensures
        ({
            let run = disk_run(disk_start(write, before, files), temp, events);
            run.write.step matches WriteStep::Finished { result: Err(_) } ==> run.files == files
                && run.store == before
        }),
{
    lemma_disk_run(write, before, files, temp, events);
}

/// When a write has ended, the file of every ID in the index is on the disk if it was before.
pub proof fn index_follows_disk(
    write: LocalWrite,
    before: StoreView,
    files: Map<Seq<char>, Seq<u8>>,
    temp: Seq<char>,
    events: Seq<(WriteEvent, Seq<u8>)>,
)
    requires
        write.step is Reserve,
        follows(before, files),
        is_component(write.id@),
        is_component(write.ext@),
        write.parts@.len() <= usize::MAX,
        is_leftover(temp),
        temp != reserving_name(write.id@),
        !files.dom().contains(temp),
    ensures
        ({
            let run = disk_run(disk_start(write, before, files), temp, events);
            run.write.step is Finished ==> follows(run.store, run.files)
        }),
{
    lemma_disk_run(write, before, files, temp, events);
    let run = disk_run(disk_start(write, before, files), temp, events);
    match run.write.step {
        WriteStep::Finished { result: Ok(_) } => {
            let target = run.target();
            if write.concat {
                concatenation_is_read_back(write, before, files, temp, events);
            }
            assert forall|id: Seq<char>| #[trigger]
                run.store.extensions.dom().contains(id) implies run.files.dom().contains(
                name_in(run.store, id),
            ) && is_component(id) && is_component(run.store.extensions[id]) by {
                if id != write.id@ {
                    assert(before.extensions.dom().contains(id));
                    assert(files.dom().contains(name_in(before, id)));
                }
            }
        },
        _ => {},
    }
}

/// An event that brings no bytes.
pub open spec fn plain(event: WriteEvent) -> (WriteEvent, Seq<u8>) {
    (event, Seq::empty())
}

/// The bytes of chunks, one behind the other.
pub open spec fn flat(chunks: Seq<Seq<u8>>) -> Seq<u8>
    decreases chunks.len(),
{
    if chunks.len() == 0 {
        Seq::empty()
    } else {
        flat(chunks.drop_last()) + chunks.last()
    }
}

/// The events up to the creation of the temporary file, where nothing goes wrong.
pub open spec fn smooth_begin(free: u64) -> Seq<(WriteEvent, Seq<u8>)> {
    Seq::empty().push(plain(WriteEvent::Done)).push(plain(WriteEvent::Space(free))).push(
        plain(WriteEvent::Done),
    )
}

/// The events up to the last of the given chunks, where nothing goes wrong.
pub open spec fn smooth_chunks(free: u64, chunks: Seq<Seq<u8>>) -> Seq<(WriteEvent, Seq<u8>)>
    decreases chunks.len(),
{
    if chunks.len() == 0 {
        smooth_begin(free)
    } else {
        smooth_chunks(free, chunks.drop_last()).push(
            (WriteEvent::Chunk(chunks.last().len() as u64), chunks.last()),
        ).push(plain(WriteEvent::Done))
    }
}

/// The events of an upload of the given chunks, where nothing goes wrong.
pub open spec fn smooth_upload_on_disk(free: u64, chunks: Seq<Seq<u8>>) -> Seq<
    (WriteEvent, Seq<u8>),
> {
    smooth_chunks(free, chunks).push(plain(WriteEvent::End)).push(plain(WriteEvent::Done)).push(
        plain(WriteEvent::Done),
    ).push(plain(WriteEvent::Done))
}

/// The events up to the copying of the first `n` parts, where nothing goes wrong.
pub open spec fn smooth_copies(free: u64, n: int) -> Seq<(WriteEvent, Seq<u8>)>
    decreases n,
{
    if n <= 0 {
        smooth_begin(free)
    } else {
        smooth_copies(free, n - 1).push(plain(WriteEvent::Opened(true))).push(
            plain(WriteEvent::Opened(true)),
        ).push(plain(WriteEvent::Done))
    }
}

/// The events up to the removal of the first `k` of `n` parts, where nothing goes wrong.
pub open spec fn smooth_removals(free: u64, n: int, k: int) -> Seq<(WriteEvent, Seq<u8>)>
    decreases k,
{
    if k <= 0 {
        smooth_copies(free, n).push(plain(WriteEvent::Done)).push(plain(WriteEvent::Done))
    } else {
        smooth_removals(free, n, k - 1).push(plain(WriteEvent::Done))
    }
}

/// The events of a concatenation of `n` parts, where nothing goes wrong.
pub open spec fn smooth_concat(free: u64, n: int) -> Seq<(WriteEvent, Seq<u8>)> {
    smooth_removals(free, n, n).push(plain(WriteEvent::Done))
}

proof fn lemma_disk_push(
    run: DiskRun,
    temp: Seq<char>,
    events: Seq<(WriteEvent, Seq<u8>)>,
    event: (WriteEvent, Seq<u8>),
)
    ensures
        disk_run(run, temp, events.push(event)) == disk_run(run, temp, events).after(
            temp,
            event.0,
            event.1,
        ),
{
    assert(events.push(event).drop_last() =~= events);
}

/// Whether a write to a free ID can go through: what is written has a valid name, none of its
/// files is there, and there is enough space.
pub open spec fn nothing_in_the_way(
    write: LocalWrite,
    before: StoreView,
    files: Map<Seq<char>, Seq<u8>>,
    temp: Seq<char>,
    free: u64,
) -> bool {
    &&& write.step is Reserve
    &&& before.valid()
    &&& is_component(write.id@)
    &&& is_component(write.ext@)
    &&& write.parts@.len() <= usize::MAX
    &&& is_leftover(temp)
    &&& temp != reserving_name(write.id@)
    &&& !files.dom().contains(temp)
    &&& !files.dom().contains(reserving_name(write.id@))
    &&& !files.dom().contains(stored_name(write.id@, write.ext@))
    &&& !before.extensions.dom().contains(write.id@)
    &&& free >= before.min_free
}

proof fn lemma_smooth_begin(
    write: LocalWrite,
    before: StoreView,
    files: Map<Seq<char>, Seq<u8>>,
    temp: Seq<char>,
    free: u64,
)
    requires
        nothing_in_the_way(write, before, files, temp, free),
    ensures
        ({
            let run = disk_run(disk_start(write, before, files), temp, smooth_begin(free));
            &&& run.write.step == (if write.concat {
                crate::storage::local_write::part_step(before, write.parts@, 0)
            } else {
                WriteStep::NextChunk { total: 0 }
            })
            &&& run.received =~= Seq::<u8>::empty()
            &&& run.clean
        }),
{
    let start = disk_start(write, before, files);
    let none = Seq::<(WriteEvent, Seq<u8>)>::empty();
    let one = none.push(plain(WriteEvent::Done));
    let two = one.push(plain(WriteEvent::Space(free)));
    lemma_disk_push(start, temp, none, plain(WriteEvent::Done));
    lemma_disk_run(write, before, files, temp, one);
    assert(disk_run(start, temp, one).write.step is CheckSpace);
    lemma_disk_push(start, temp, one, plain(WriteEvent::Space(free)));
    lemma_disk_run(write, before, files, temp, two);
    assert(disk_run(start, temp, two).write.step is CreateTemp);
    lemma_disk_push(start, temp, two, plain(WriteEvent::Done));
}

proof fn lemma_smooth_chunks(
    write: LocalWrite,
    before: StoreView,
    files: Map<Seq<char>, Seq<u8>>,
    temp: Seq<char>,
    free: u64,
    chunks: Seq<Seq<u8>>,
)
    requires
        nothing_in_the_way(write, before, files, temp, free),
        !write.concat,
        forall|i: int| 0 <= i < chunks.len() ==> (#[trigger] chunks[i]).len() <= u64::MAX,
    ensures
        ({
            let run = disk_run(disk_start(write, before, files), temp, smooth_chunks(free, chunks));
            run.write.step is NextChunk && run.received == flat(chunks)
        }),
    decreases chunks.len(),
{
    lemma_smooth_begin(write, before, files, temp, free);
    if chunks.len() > 0 {
        let fewer = chunks.drop_last();
        let start = disk_start(write, before, files);
        assert forall|i: int| 0 <= i < fewer.len() implies (#[trigger] fewer[i]).len()
            <= u64::MAX by {
            assert(fewer[i] == chunks[i]);
        }
        lemma_smooth_chunks(write, before, files, temp, free, fewer);
        let chunk = (WriteEvent::Chunk(chunks.last().len() as u64), chunks.last());
        assert(chunks[chunks.len() - 1].len() <= u64::MAX);
        let came = smooth_chunks(free, fewer).push(chunk);
        lemma_disk_push(start, temp, smooth_chunks(free, fewer), chunk);
        assert(disk_run(start, temp, came).write.step is WriteChunk);
        assert(disk_run(start, temp, came).pending == chunks.last());
        lemma_disk_push(start, temp, came, plain(WriteEvent::Done));
    }
}

/// An upload to a free ID with which nothing goes wrong succeeds, and is read back: its file is
/// found under its ID, holds exactly the bytes that came, and no other file has changed.
pub proof fn undisturbed_upload_is_read_back(
    write: LocalWrite,
    before: StoreView,
    files: Map<Seq<char>, Seq<u8>>,
    temp: Seq<char>,
    free: u64,
    chunks: Seq<Seq<u8>>,
)
    requires
        nothing_in_the_way(write, before, files, temp, free),
        !write.concat,
        forall|i: int| 0 <= i < chunks.len() ==> (#[trigger] chunks[i]).len() <= u64::MAX,
    ensures
        ({
            let run = disk_run(
                disk_start(write, before, files),
                temp,
                smooth_upload_on_disk(free, chunks),
            );
            &&& run.write.step == (WriteStep::Finished { result: Ok(capped(flat(chunks).len())) })
            &&& run.files == files.insert(run.target(), flat(chunks))
            &&& run.target() == stored_name(write.id@, write.ext@)
            &&& run.store == before.stored(
                write.id@,
                write.ext@,
                text_view(write.capability),
            ).refreshed(write.id@)
            &&& run.store.resolved(write.id@) == Some(run.target())
        }),
{
    let start = disk_start(write, before, files);
    lemma_smooth_chunks(write, before, files, temp, free, chunks);
    lemma_stored_is_apart(write.id@, write.ext@, temp, write.id@);
    let done = plain(WriteEvent::Done);
    let all = smooth_chunks(free, chunks);
    let one = all.push(plain(WriteEvent::End));
    let two = one.push(done);
    let three = two.push(done);
    lemma_disk_run(write, before, files, temp, all);
    lemma_disk_push(start, temp, all, plain(WriteEvent::End));
    assert(disk_run(start, temp, one).write.step is Flush);
    lemma_disk_run(write, before, files, temp, one);
    lemma_disk_push(start, temp, one, done);
    assert(disk_run(start, temp, two).write.step is Publish);
    lemma_disk_run(write, before, files, temp, two);
    lemma_disk_push(start, temp, two, done);
    assert(disk_run(start, temp, three).write.step is Release);
    lemma_disk_run(write, before, files, temp, three);
    lemma_disk_push(start, temp, three, done);
    lemma_disk_run(write, before, files, temp, three.push(done));
}

/// A write to an ID that is stored, once its reservation is made, ends in a conflict.
proof fn lemma_disk_conflict(
    write: LocalWrite,
    before: StoreView,
    files: Map<Seq<char>, Seq<u8>>,
    temp: Seq<char>,
    events: Seq<(WriteEvent, Seq<u8>)>,
)
    requires
        write.step is Reserve,
        before.extensions.dom().contains(write.id@),
        !files.dom().contains(reserving_name(write.id@)),
        events.len() > 0,
        events[0].0 == WriteEvent::Done,
    ensures
        disk_run(disk_start(write, before, files), temp, events).write.step == (if events.len()
            == 1 {
            WriteStep::Release { result: Err(StorageError::Conflict) }
        } else {
            WriteStep::Finished { result: Err(StorageError::Conflict) }
        }),
    decreases events.len(),
{
    let first = events.drop_last();
    if events.len() == 1 {
        assert(first =~= Seq::empty());
        assert(events.last() == events[0]);
        assert(disk_run(disk_start(write, before, files), temp, first) == disk_start(
            write,
            before,
            files,
        ));
    } else {
        lemma_disk_conflict(write, before, files, temp, first);
    }
}

/// What was put is kept. A put to a free ID with which nothing goes wrong succeeds; reading the ID
/// then gives the bytes that came, their number and the extension of the name. Whatever a later
/// write to the same ID does, under whatever extension, reading the ID still gives those bytes; it
/// never succeeds, and once its reservation is made it ends in a conflict.
pub proof fn what_was_put_is_kept(
    write: LocalWrite,
    filename: Seq<char>,
    later: LocalWrite,
    before: StoreView,
    files: Map<Seq<char>, Seq<u8>>,
    temp: Seq<char>,
    later_temp: Seq<char>,
    free: u64,
    chunks: Seq<Seq<u8>>,
    events: Seq<(WriteEvent, Seq<u8>)>,
)
    requires
        nothing_in_the_way(write, before, files, temp, free),
        !write.concat,
        write.ext@ == stored_extension(filename),
        forall|i: int| 0 <= i < chunks.len() ==> (#[trigger] chunks[i]).len() <= u64::MAX,
        later.step is Reserve,
        later.id@ == write.id@,
        is_component(later.ext@),
        later.parts@.len() <= usize::MAX,
        is_leftover(later_temp),
        later_temp != reserving_name(write.id@),
        !files.dom().contains(later_temp),
    ensures
        ({
            let run = disk_run(
                disk_start(write, before, files),
                temp,
                smooth_upload_on_disk(free, chunks),
            );
            let name = stored_name(write.id@, write.ext@);
            let end = disk_run(disk_start(later, run.store, run.files), later_temp, events);
            &&& run.write.step == (WriteStep::Finished { result: Ok(capped(flat(chunks).len())) })
            &&& run.store.resolved(write.id@) == Some(name)
            &&& run.files.dom().contains(name)
            &&& run.files[name] == flat(chunks)
            &&& extension_of(name) == stored_extension(filename)
            &&& end.store.resolved(write.id@) == Some(name)
            &&& end.files.dom().contains(name)
            &&& end.files[name] == flat(chunks)
            &&& !has_succeeded(end.write)
            &&& end.write.step is Finished ==> end.files == run.files && end.store == run.store
            &&& events.len() >= 2 && events[0].0 == WriteEvent::Done ==> end.write.step == (
            WriteStep::Finished { result: Err(StorageError::Conflict) })
        }),
{
    undisturbed_upload_is_read_back(write, before, files, temp, free, chunks);
    let run = disk_run(
        disk_start(write, before, files),
        temp,
        smooth_upload_on_disk(free, chunks),
    );
    let name = stored_name(write.id@, write.ext@);
    crate::storage::names::stored_name_round_trip(write.id@, write.ext@);
    lemma_stored_is_apart(write.id@, write.ext@, later_temp, write.id@);
    assert forall|id: Seq<char>| #[trigger]
        run.store.extensions.dom().contains(id) implies is_component(id) && is_component(
        run.store.extensions[id],
    ) by {
        if id != write.id@ {
            assert(before.extensions.dom().contains(id));
        }
    }
    assert(!run.files.dom().contains(later_temp));
    lemma_disk_run(later, run.store, run.files, later_temp, events);
    if events.len() >= 2 && events[0].0 == WriteEvent::Done {
        lemma_disk_conflict(later, run.store, run.files, later_temp, events);
    }
}

proof fn lemma_smooth_copies(
    write: LocalWrite,
    before: StoreView,
    files: Map<Seq<char>, Seq<u8>>,
    temp: Seq<char>,
    free: u64,
    n: int,
)
    requires
        nothing_in_the_way(write, before, files, temp, free),
        write.concat,
        follows(before, files),
        parts_stored(before, write.parts@, write.parts@.len() as int),
        0 <= n <= write.parts@.len(),
    ensures
        ({
            let run = disk_run(disk_start(write, before, files), temp, smooth_copies(free, n));
            &&& run.write.step == (if n < write.parts@.len() {
                WriteStep::OpenPart { index: n as usize }
            } else {
                WriteStep::Flush { total: 0 }
            })
            &&& run.clean
        }),
    decreases n,
{
    let parts = write.parts@;
    lemma_smooth_begin(write, before, files, temp, free);
    if n < parts.len() {
        assert(before.extensions.dom().contains(parts[n]@));
        assert(before.resolved(parts[n]@) is Some);
    }
    if n > 0 {
        let start = disk_start(write, before, files);
        let fewer = smooth_copies(free, n - 1);
        let opened = plain(WriteEvent::Opened(true));
        let one = fewer.push(opened);
        let two = one.push(opened);
        let id = parts[n - 1]@;
        lemma_smooth_copies(write, before, files, temp, free, n - 1);
        lemma_disk_run(write, before, files, temp, fewer);
        lemma_disk_push(start, temp, fewer, opened);
        lemma_disk_run(write, before, files, temp, one);
        lemma_disk_push(start, temp, one, opened);
        lemma_disk_run(write, before, files, temp, two);
        let run = disk_run(start, temp, two);
        assert(run.write.step == (WriteStep::CopyPart { index: (n - 1) as usize }));
        assert(before.extensions.dom().contains(parts[n - 1]@));
        assert(files.dom().contains(name_in(before, id)));
        assert(run.files.dom().contains(name_in(before, id)));
        lemma_disk_push(start, temp, two, plain(WriteEvent::Done));
    }
}

proof fn lemma_smooth_removals(
    write: LocalWrite,
    before: StoreView,
    files: Map<Seq<char>, Seq<u8>>,
    temp: Seq<char>,
    free: u64,
    k: int,
)
    requires
        nothing_in_the_way(write, before, files, temp, free),
        write.concat,
        follows(before, files),
        parts_stored(before, write.parts@, write.parts@.len() as int),
        parts_differ(write.parts@),
        0 <= k <= write.parts@.len(),
    ensures
        ({
            let n = write.parts@.len() as int;
            let run = disk_run(disk_start(write, before, files), temp, smooth_removals(free, n, k));
            &&& run.write.step == (if k < n {
                WriteStep::DeletePart { index: k as usize }
            } else {
                WriteStep::Release { result: Ok(0) }
            })
            &&& run.clean
            &&& forall|j: int|
                k <= j < n ==> run.store.extensions.dom().contains((#[trigger] write.parts@[j])@)
        }),
    decreases k,
{
    let parts = write.parts@;
    let n = parts.len() as int;
    let start = disk_start(write, before, files);
    let done = plain(WriteEvent::Done);
    if k == 0 {
        let copied = smooth_copies(free, n);
        let flushed = copied.push(done);
        lemma_smooth_copies(write, before, files, temp, free, n);
        lemma_stored_is_apart(write.id@, write.ext@, temp, write.id@);
        lemma_disk_run(write, before, files, temp, copied);
        lemma_disk_push(start, temp, copied, done);
        lemma_disk_run(write, before, files, temp, flushed);
        assert(disk_run(start, temp, flushed).write.step is Publish);
        lemma_disk_push(start, temp, flushed, done);
        let run = disk_run(start, temp, flushed.push(done));
        assert forall|j: int| 0 <= j < n implies run.store.extensions.dom().contains(
            (#[trigger] parts[j])@,
        ) by {
            assert(before.extensions.dom().contains(parts[j]@));
        }
        if n > 0 {
            assert(run.store.extensions.dom().contains(parts[0]@));
        }
    } else {
        let fewer = smooth_removals(free, n, k - 1);
        lemma_smooth_removals(write, before, files, temp, free, k - 1);
        lemma_disk_run(write, before, files, temp, fewer);
        let run = disk_run(start, temp, fewer);
        let id = parts[k - 1]@;
        assert(before.extensions.dom().contains(parts[k - 1]@));
        assert(run.store.extensions.dom().contains(parts[k - 1]@));
        assert(files.dom().contains(name_in(before, id)));
        assert(files.insert(reserving_name(write.id@), Seq::empty()).dom().contains(
            name_in(before, id),
        ));
        assert(run.files.dom().contains(name_in(before, id)));
        lemma_disk_push(start, temp, fewer, done);
        let next = disk_run(start, temp, fewer.push(done));
        assert(next.store == run.store.deleted(id));
        assert forall|j: int| k <= j < n implies next.store.extensions.dom().contains(
            (#[trigger] parts[j])@,
        ) by {
            assert(run.store.extensions.dom().contains(parts[j]@));
            assert(parts[k - 1]@ != parts[j]@);
        }
        if k < n {
            assert(next.store.extensions.dom().contains(parts[k]@));
        }
    }
}

/// Whether no part occurs twice.
pub open spec fn parts_differ(parts: Seq<String>) -> bool {
    forall|i: int, j: int|
        0 <= i < j < parts.len() ==> (#[trigger] parts[i])@ != (#[trigger] parts[j])@
}

/// A concatenation of different stored files to a free ID with which nothing goes wrong succeeds:
/// its file is found under its ID and holds the contents of the parts in their order, and the
/// parts are gone from the index and from the disk.
pub proof fn undisturbed_concatenation_is_read_back(
    write: LocalWrite,
    before: StoreView,
    files: Map<Seq<char>, Seq<u8>>,
    temp: Seq<char>,
    free: u64,
)
    requires
        nothing_in_the_way(write, before, files, temp, free),
        write.concat,
        follows(before, files),
        parts_stored(before, write.parts@, write.parts@.len() as int),
        parts_differ(write.parts@),
    ensures
        ({
            let n = write.parts@.len() as int;
            let run = disk_run(disk_start(write, before, files), temp, smooth_concat(free, n));
            &&& run.write.step == (WriteStep::Finished { result: Ok(0) })
            &&& run.store.resolved(write.id@) == Some(run.target())
            &&& run.files.dom().contains(run.target())
            &&& run.files[run.target()] == parts_content(before, files, write.parts@, n)
            &&& parts_removed(run, before, write.parts@, n)
        }),
{
    let n = write.parts@.len() as int;
    let start = disk_start(write, before, files);
    let removed = smooth_removals(free, n, n);
    lemma_smooth_removals(write, before, files, temp, free, n);
    lemma_disk_push(start, temp, removed, plain(WriteEvent::Done));
    concatenation_is_read_back(write, before, files, temp, smooth_concat(free, n));
}

/// A deleted file is gone from the disk and from the index, and no other is.
pub proof fn deleted_file_leaves_the_rest(
    store: StoreView,
    files: Map<Seq<char>, Seq<u8>>,
    id: Seq<char>,
)
    requires
        follows(store, files),
        store.extensions.dom().contains(id),
    ensures
        follows(store.deleted(id), files.remove(name_in(store, id))),
        store.deleted(id).resolved(id) is None,
{
    let after = store.deleted(id);
    let left = files.remove(name_in(store, id));
    assert forall|x: Seq<char>| #[trigger] after.extensions.dom().contains(x) implies is_component(x)
        && is_component(after.extensions[x]) && left.dom().contains(name_in(after, x)) by {
        assert(store.extensions.dom().contains(x));
        assert(files.dom().contains(name_in(store, x)));
        if name_in(store, x) == name_in(store, id) {
            stored_names_are_distinct(x, store.extensions[x], id, store.extensions[id]);
        }
    }
}

} // verus!
