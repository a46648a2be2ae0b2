//! What a rename makes of the storage directory.
//!
//! The model follows a rename on a disk, as `local_disk` does a write.

use vstd::prelude::*;

use crate::storage::local::{interrupted_writes_leave_leftovers, reserving_name, StoreView};
use crate::storage::local_disk::{follows, lemma_stored_is_apart, name_in};
use crate::storage::local_ops::{
    rename_after, rename_store_after, RenameEvent, RenameStep, RenameView,
};
use crate::storage::names::{is_component, stored_name, stored_names_are_distinct};

verus! {

/// A rename together with the index and the disk.
pub struct RenameDisk {
    pub rename: RenameView,
    pub store: StoreView,
    pub files: Map<Seq<char>, Seq<u8>>,
}

impl RenameDisk {
    pub open spec fn old_name(self) -> Seq<char> {
        stored_name(self.rename.old_id, self.rename.ext)
    }

    pub open spec fn new_name(self) -> Seq<char> {
        stored_name(self.rename.new_id, self.rename.ext)
    }

    /// Whether the event can come of the step: a file is created only where there is none, and
    /// linked or removed only where there is one.
    pub open spec fn allows(self, event: RenameEvent) -> bool {
        match (self.rename.step, event) {
            (RenameStep::Reserve, RenameEvent::Done) => !self.files.dom().contains(
                reserving_name(self.rename.new_id),
            ),
            (RenameStep::Link, RenameEvent::Done) => self.files.dom().contains(self.old_name())
                && !self.files.dom().contains(self.new_name()),
            (RenameStep::RemoveSource, RenameEvent::Done) => self.files.dom().contains(
                self.old_name(),
            ),
            _ => true,
        }
    }

    /// The disk after the event. The removal of the new file or of the reservation counts as done
    /// when it is asked for.
    pub open spec fn files_after(self, event: RenameEvent) -> Map<Seq<char>, Seq<u8>> {
        let reservation = reserving_name(self.rename.new_id);
        match (self.rename.step, event) {
            (RenameStep::Reserve, RenameEvent::Done) => self.files.insert(
                reservation,
                Seq::empty(),
            ),
            (RenameStep::Link, RenameEvent::Done) => self.files.insert(
                self.new_name(),
                self.files[self.old_name()],
            ),
            (RenameStep::RemoveSource, RenameEvent::Done) => self.files.remove(self.old_name()),
            (RenameStep::RemoveTarget { .. }, _) => self.files.remove(self.new_name()),
            (RenameStep::Release { .. }, _) => self.files.remove(reservation),
            _ => self.files,
        }
    }

    /// The rename after the event. What cannot come changes nothing.
    pub open spec fn after(self, event: RenameEvent) -> RenameDisk {
        if self.allows(event) {
            RenameDisk {
                rename: rename_after(self.rename, self.store, event),
                store: rename_store_after(self.rename, self.store, event),
                files: self.files_after(event),
            }
        } else {
            self
        }
    }
}

/// The rename after a sequence of events.
pub open spec fn rename_disk_run(run: RenameDisk, events: Seq<RenameEvent>) -> RenameDisk
    decreases events.len(),
{
    if events.len() == 0 {
        run
    } else {
        rename_disk_run(run, events.drop_last()).after(events.last())
    }
}

/// The disk after the file of one ID got the name of another.
pub open spec fn files_renamed(
    files: Map<Seq<char>, Seq<u8>>,
    old_name: Seq<char>,
    new_name: Seq<char>,
) -> Map<Seq<char>, Seq<u8>> {
    files.insert(new_name, files[old_name]).remove(old_name)
}

spec fn rename_disk_holds(
    run: RenameDisk,
    rename: RenameView,
    before: StoreView,
    files: Map<Seq<char>, Seq<u8>>,
) -> bool {
    let reservation = reserving_name(rename.new_id);
    let base = files.insert(reservation, Seq::empty());
    let reserved = !files.dom().contains(reservation);
    let ready = before.extensions.dom().contains(rename.old_id) && !before.extensions.dom().contains(
        rename.new_id,
    ) && run.rename.ext == before.extensions[rename.old_id];
    let linked = files.dom().contains(run.old_name()) && !files.dom().contains(run.new_name());
    let after = before.renamed(rename.old_id, rename.new_id, run.rename.ext);
    &&& run.rename.old_id == rename.old_id
    &&& run.rename.new_id == rename.new_id
    &&& match run.rename.step {
        RenameStep::Reserve => run.store == before && run.files == files,
        RenameStep::StatSource | RenameStep::Link => ready && reserved && run.store == before
            && run.files == base,
        RenameStep::RemoveSource | RenameStep::RemoveTarget { .. } => ready && reserved && linked
            && run.store == before && run.files == base.insert(
            run.new_name(),
            files[run.old_name()],
        ),
        RenameStep::Release { result } => reserved && match result {
            Ok(_) => ready && linked && run.store == after && run.files == files_renamed(
                base,
                run.old_name(),
                run.new_name(),
            ),
            Err(_) => run.store == before && run.files == base,
        },
        RenameStep::Finished { result } => match result {
            Ok(_) => ready && linked && run.store == after && run.files == files_renamed(
                files,
                run.old_name(),
                run.new_name(),
            ),
            Err(_) => run.store == before && run.files == files,
        },
    }
}

proof fn lemma_rename_disk_run(
    rename: RenameView,
    before: StoreView,
    files: Map<Seq<char>, Seq<u8>>,
    events: Seq<RenameEvent>,
)
    requires
        rename.step is Reserve,
        before.valid(),
        is_component(rename.new_id),
    ensures
        rename_disk_holds(
            rename_disk_run(RenameDisk { rename, store: before, files }, events),
            rename,
            before,
            files,
        ),
    decreases events.len(),
{
    if events.len() > 0 {
        lemma_rename_disk_run(rename, before, files, events.drop_last());
        let run = rename_disk_run(RenameDisk { rename, store: before, files }, events.drop_last());
        let next = run.after(events.last());
        let reservation = reserving_name(rename.new_id);
        let base = files.insert(reservation, Seq::empty());
        if run.allows(events.last()) && before.extensions.dom().contains(rename.old_id) {
            interrupted_writes_leave_leftovers(rename.new_id, 0, 0);
            lemma_stored_is_apart(rename.old_id, run.rename.ext, reservation, rename.new_id);
            lemma_stored_is_apart(rename.new_id, run.rename.ext, reservation, rename.new_id);
        }
        match run.rename.step {
            RenameStep::RemoveTarget { .. } => {
                assert(next.files =~= base);
            },
            RenameStep::Release { result } => {
                if result is Ok {
                    assert(next.files =~= files_renamed(files, run.old_name(), run.new_name()));
                } else {
                    assert(next.files =~= files);
                }
            },
            RenameStep::RemoveSource => {
                assert(run.files.remove(run.old_name()) =~= files_renamed(
                    base,
                    run.old_name(),
                    run.new_name(),
                ));
            },
            _ => {},
        }
    }
}

/// A renamed file keeps its contents and is found under its new ID. The old name is gone, no other
/// file has changed, and the index stays in step with the disk. A rename that failed has changed
/// nothing.
pub proof fn renamed_file_is_read_back(
    rename: RenameView,
    before: StoreView,
    files: Map<Seq<char>, Seq<u8>>,
    events: Seq<RenameEvent>,
)
    requires
        rename.step is Reserve,
        follows(before, files),
        is_component(rename.new_id),
    ensures
        ({
            let run = rename_disk_run(RenameDisk { rename, store: before, files }, events);
            let old_name = name_in(before, rename.old_id);
            let new_name = stored_name(rename.new_id, before.extensions[rename.old_id]);
            run.rename.step matches RenameStep::Finished { result } ==> match result {
                Ok(_) => {
                    &&& before.extensions.dom().contains(rename.old_id)
                    &&& run.store.resolved(rename.new_id) == Some(new_name)
                    &&& run.store.resolved(rename.old_id) is None
                    &&& run.files == files_renamed(files, old_name, new_name)
                    &&& run.files.dom().contains(new_name)
                    &&& run.files[new_name] == files[old_name]
                    &&& follows(run.store, run.files)
                },
                Err(_) => run.store == before && run.files == files,
            }
        }),
{
    lemma_rename_disk_run(rename, before, files, events);
    let run = rename_disk_run(RenameDisk { rename, store: before, files }, events);
    match run.rename.step {
        RenameStep::Finished { result: Ok(_) } => {
            let old_id = rename.old_id;
            let new_id = rename.new_id;
            let ext = run.rename.ext;
            if run.old_name() == run.new_name() {
                stored_names_are_distinct(old_id, ext, new_id, ext);
            }
            assert forall|id: Seq<char>| #[trigger]
                run.store.extensions.dom().contains(id) implies is_component(id) && is_component(
                run.store.extensions[id],
            ) && run.files.dom().contains(name_in(run.store, id)) by {
                if id != new_id {
                    assert(before.extensions.dom().contains(id));
                    assert(files.dom().contains(name_in(before, id)));
                    if name_in(before, id) == run.old_name() {
                        stored_names_are_distinct(id, before.extensions[id], old_id, ext);
                    }
                }
            }
        },
        _ => {},
    }
}

/// A rename of a stored file to a free ID with which nothing goes wrong succeeds.
pub proof fn undisturbed_rename_succeeds(
    rename: RenameView,
    before: StoreView,
    files: Map<Seq<char>, Seq<u8>>,
)
    requires
        rename.step is Reserve,
        follows(before, files),
        is_component(rename.new_id),
        before.extensions.dom().contains(rename.old_id),
        !before.extensions.dom().contains(rename.new_id),
        !files.dom().contains(reserving_name(rename.new_id)),
        !files.dom().contains(stored_name(rename.new_id, before.extensions[rename.old_id])),
    ensures
        ({
            let events = seq![
                RenameEvent::Done,
                RenameEvent::Found(true),
                RenameEvent::Done,
                RenameEvent::Done,
                RenameEvent::Done,
            ];
            let run = rename_disk_run(RenameDisk { rename, store: before, files }, events);
            run.rename.step == (RenameStep::Finished { result: Ok(()) })
        }),
{
    let start = RenameDisk { rename, store: before, files };
    let none = Seq::<RenameEvent>::empty();
    let one = none.push(RenameEvent::Done);
    let two = one.push(RenameEvent::Found(true));
    let three = two.push(RenameEvent::Done);
    let four = three.push(RenameEvent::Done);
    let five = four.push(RenameEvent::Done);
    interrupted_writes_leave_leftovers(rename.new_id, 0, 0);
    let ext = before.extensions[rename.old_id];
    let reservation = reserving_name(rename.new_id);
    lemma_stored_is_apart(rename.old_id, ext, reservation, rename.new_id);
    lemma_stored_is_apart(rename.new_id, ext, reservation, rename.new_id);
    lemma_rename_push(start, none, RenameEvent::Done);
    lemma_rename_disk_run(rename, before, files, one);
    assert(rename_disk_run(start, one).rename.step is StatSource);
    lemma_rename_push(start, one, RenameEvent::Found(true));
    lemma_rename_disk_run(rename, before, files, two);
    assert(rename_disk_run(start, two).rename.step is Link);
    assert(files.dom().contains(name_in(before, rename.old_id)));
    lemma_rename_push(start, two, RenameEvent::Done);
    lemma_rename_disk_run(rename, before, files, three);
    assert(rename_disk_run(start, three).rename.step is RemoveSource);
    lemma_rename_push(start, three, RenameEvent::Done);
    assert(rename_disk_run(start, four).rename.step == (RenameStep::Release { result: Ok(()) }));
    lemma_rename_push(start, four, RenameEvent::Done);
    assert(seq![
        RenameEvent::Done,
        RenameEvent::Found(true),
        RenameEvent::Done,
        RenameEvent::Done,
        RenameEvent::Done,
    ] =~= five);
}

proof fn lemma_rename_push(run: RenameDisk, events: Seq<RenameEvent>, event: RenameEvent)
    ensures
        rename_disk_run(run, events.push(event)) == rename_disk_run(run, events).after(event),
{
    assert(events.push(event).drop_last() =~= events);
}

} // verus!
