//! Two writers that work on one object store at the same time.

use vstd::prelude::*;
use vstd::string::*;

use crate::error::StorageError;
use crate::storage::names::is_component;
use crate::storage::s3::{
    holds_id, object_holds_one_id, object_text, prefix_text, reservation_text, temp_text, Listed,
    ObjectError,
};
use crate::storage::s3_objects::{
    id_stored, key_in, lemma_hidden, lemma_scratch_keys, object_start, undisturbed, ObjectRun,
};
use crate::storage::s3_write::{S3Event, S3Job, S3Step, S3View};

verus! {

/// Two writes, each with what it sees of the store, which is the same.
pub struct ObjectRace {
    pub first: ObjectRun,
    pub second: ObjectRun,
    /// The keys of their temporary objects.
    pub first_temp: Seq<char>,
    pub second_temp: Seq<char>,
}

/// An event of the first or of the second write, with the bytes that belong to it.
pub struct RaceEvent {
    pub of_first: bool,
    pub event: S3Event,
    pub bytes: Seq<u8>,
}

/// The race after an event. What cannot come changes nothing.
pub open spec fn object_race_advance(race: ObjectRace, come: RaceEvent) -> ObjectRace {
    if come.of_first {
        let first = race.first.after(race.first_temp, come.event, come.bytes);
        ObjectRace {
            first,
            second: ObjectRun { objects: first.objects, ..race.second },
            ..race
        }
    } else {
        let second = race.second.after(race.second_temp, come.event, come.bytes);
        ObjectRace {
            first: ObjectRun { objects: second.objects, ..race.first },
            second,
            ..race
        }
    }
}

/// The race after a sequence of events in any order.
pub open spec fn object_race_run(race: ObjectRace, events: Seq<RaceEvent>) -> ObjectRace
    decreases events.len(),
{
    if events.len() == 0 {
        race
    } else {
        object_race_advance(object_race_run(race, events.drop_last()), events.last())
    }
}

/// A race that has not begun. Each writer has a process and a count for its temporary key.
pub open spec fn object_race_start(
    first: S3View,
    second: S3View,
    objects: Map<Seq<char>, Seq<u8>>,
    first_temp: (u32, u64),
    second_temp: (u32, u64),
) -> ObjectRace {
    ObjectRace {
        first: object_start(first, objects),
        second: object_start(second, objects),
        first_temp: temp_text(first.id, first_temp.0, first_temp.1, first.ext),
        second_temp: temp_text(second.id, second_temp.0, second_temp.1, second.ext),
    }
}

/// Whether a write can take part in a race: it has not begun, and its ID is valid.
pub open spec fn can_race(write: S3View) -> bool {
    &&& is_component(write.id)
    &&& write.parts.len() <= usize::MAX
    &&& match write.job {
        S3Job::Rename => write.step is StatSource && write.parts.len() == 1,
        _ => write.step is Reserve,
    }
}

/// Whether a write holds the reservation of its ID.
pub open spec fn reserves(step: S3Step) -> bool {
    match step {
        S3Step::StatSource | S3Step::Reserve | S3Step::ListOld { .. } | S3Step::DeleteOld { .. }
        | S3Step::Finished { .. } => false,
        _ => true,
    }
}

/// Whether a write has put its object and is to report so.
spec fn has_won(step: S3Step) -> bool {
    match step {
        S3Step::RemoveTemp { result } | S3Step::Release { result } | S3Step::Finished { result } =>
        result is Ok,
        S3Step::ListOld { .. } | S3Step::DeleteOld { .. } => true,
        _ => false,
    }
}

/// Whether the first `n` parts have other IDs than the write.
spec fn parts_apart(write: S3View, n: int) -> bool {
    forall|i: int| 0 <= i < n ==> (#[trigger] write.parts[i])@ != write.id
}

spec fn racer_holds(run: ObjectRun) -> bool {
    let write = run.write;
    let all = write.parts.len() as int;
    let stored = id_stored(run.objects, write.id);
    &&& is_component(write.id)
    &&& write.parts.len() <= usize::MAX
    &&& write.job == S3Job::Rename ==> write.parts.len() == 1
    &&& reserves(write.step) ==> run.objects.dom().contains(run.reservation())
    &&& has_won(write.step) ==> stored
    &&& match write.step {
        S3Step::Put => !stored && write.job == S3Job::Put,
        S3Step::Copy => !stored && write.job == S3Job::Rename,
        S3Step::StartUpload => !stored && write.job != S3Job::Rename,
        S3Step::NextChunk { .. } | S3Step::WriteChunk { .. } => !stored && write.job != S3Job::Concat
            && write.job != S3Job::Rename,
        S3Step::ListPart { index } => !stored && write.job == S3Job::Concat && index < all
            && parts_apart(write, index as int),
        S3Step::GetPart { index } | S3Step::NextPartChunk { index } | S3Step::WritePartChunk {
            index,
        } => !stored && write.job == S3Job::Concat && index < all && parts_apart(write, index + 1),
        S3Step::FinishUpload { .. } | S3Step::Publish { .. } => !stored && write.job
            != S3Job::Rename && (write.job == S3Job::Concat ==> parts_apart(write, all)),
        S3Step::RemoveTemp { result } | S3Step::Release { result } => result is Ok && (write.job
            == S3Job::Concat || write.job == S3Job::Rename) ==> parts_apart(write, all),
        S3Step::ListOld { index, .. } => index < all && parts_apart(write, all),
        S3Step::DeleteOld { index, .. } => index < all && parts_apart(write, all) && holds_id(
            write.location,
            write.parts[index as int]@,
        ),
        _ => true,
    }
}

/// The key of an ID holds it, whatever the extension.
proof fn lemma_key_holds(id: Seq<char>, ext: Seq<char>)
    requires
        is_component(id),
    ensures
        holds_id(object_text(id, ext), id),
{
    assert(object_text(id, ext).take(prefix_text(id).len() as int) =~= prefix_text(id));
}

/// A change of a key that does not hold an ID does not change whether it is stored.
proof fn lemma_other_key(
    before: Map<Seq<char>, Seq<u8>>,
    after: Map<Seq<char>, Seq<u8>>,
    id: Seq<char>,
    key: Seq<char>,
)
    requires
        !holds_id(key, id),
        forall|x: Seq<char>| x != key ==> #[trigger] after.dom().contains(x)
            == before.dom().contains(x),
    ensures
        id_stored(after, id) == id_stored(before, id),
{
    if id_stored(before, id) {
        let x = key_in(before, id);
        assert(before.dom().contains(x) && holds_id(x, id));
        assert(after.dom().contains(x));
    }
    if id_stored(after, id) {
        let x = key_in(after, id);
        assert(after.dom().contains(x) && holds_id(x, id));
        assert(before.dom().contains(x));
    }
}

/// Whether the event puts the object of a write.
spec fn puts(step: S3Step, event: S3Event) -> bool {
    event is Done && (step is Put || step is Copy || step is Publish)
}

/// A write changes the store under its ID only by putting its object, and the reservation only by
/// making and removing its own.
proof fn lemma_effect(
    run: ObjectRun,
    temp: Seq<char>,
    pid: u32,
    count: u64,
    ext: Seq<char>,
    event: S3Event,
    bytes: Seq<u8>,
)
    requires
        racer_holds(run),
        temp == temp_text(run.write.id, pid, count, ext),
        run.allows(temp, event, bytes),
    ensures
        ({
            let next = run.after(temp, event, bytes);
            let id = run.write.id;
            &&& id_stored(next.objects, id) == (id_stored(run.objects, id) || puts(
                run.write.step,
                event,
            ))
            &&& next.objects.dom().contains(run.reservation()) == (
            !(run.write.step is Release) && (run.objects.dom().contains(run.reservation()) || (
            run.write.step is Reserve && event is Done)))
        }),
{
    let next = run.after(temp, event, bytes);
    let id = run.write.id;
    let target = run.target();
    lemma_scratch_keys(id, ext, pid, count);
    lemma_hidden(temp, id);
    lemma_hidden(run.reservation(), id);
    lemma_key_holds(id, run.write.ext);
    if puts(run.write.step, event) {
        assert(next.objects.dom().contains(target) && holds_id(target, id));
        assert(id_stored(next.objects, id));
    } else {
        match (run.write.step, event) {
            (S3Step::Reserve, S3Event::Done) => {
                lemma_other_key(run.objects, next.objects, id, run.reservation());
            },
            (S3Step::Release { .. }, _) => {
                lemma_other_key(run.objects, next.objects, id, run.reservation());
            },
            (S3Step::FinishUpload { .. }, _) => {
                lemma_other_key(run.objects, next.objects, id, temp);
            },
            (S3Step::DiscardTemp { .. }, _) => {
                lemma_other_key(run.objects, next.objects, id, temp);
            },
            (S3Step::RemoveTemp { .. }, _) => {
                lemma_other_key(run.objects, next.objects, id, temp);
            },
            (S3Step::DeleteOld { index, .. }, S3Event::Done) => {
                let part = run.write.parts[index as int]@;
                let gone = run.write.location;
                if holds_id(gone, id) {
                    object_holds_one_id(gone, id, part);
                }
                lemma_hidden(run.reservation(), part);
                lemma_other_key(run.objects, next.objects, id, gone);
            },
            _ => {},
        }
    }
}

/// A write keeps what holds of it in a race.
proof fn lemma_racer(
    run: ObjectRun,
    temp: Seq<char>,
    pid: u32,
    count: u64,
    ext: Seq<char>,
    event: S3Event,
    bytes: Seq<u8>,
)
    requires
        racer_holds(run),
        temp == temp_text(run.write.id, pid, count, ext),
        run.allows(temp, event, bytes),
    ensures
        racer_holds(run.after(temp, event, bytes)),
{
    lemma_effect(run, temp, pid, count, ext, event, bytes);
    let id = run.write.id;
    let parts = run.write.parts;
    match (run.write.step, event) {
        (S3Step::Copy, S3Event::Done) => {
            if parts[0]@ == id {
                lemma_key_holds(id, run.write.ext);
                assert(run.objects.dom().contains(run.source()));
                assert(id_stored(run.objects, id));
            }
        },
        (S3Step::ListPart { index }, S3Event::Listed(Listed::Object(entry))) => {
            if parts[index as int]@ == id {
                assert(run.objects.dom().contains(entry.location@) && holds_id(
                    entry.location@,
                    id,
                ));
                assert(id_stored(run.objects, id));
            }
        },
        _ => {},
    }
}

spec fn race_holds(race: ObjectRace) -> bool {
    &&& race.first.objects == race.second.objects
    &&& race.first.write.id == race.second.write.id
    &&& racer_holds(race.first)
    &&& racer_holds(race.second)
    &&& !(reserves(race.first.write.step) && reserves(race.second.write.step))
    &&& !(has_won(race.first.write.step) && has_won(race.second.write.step))
}

/// What holds of a write still holds when the other one has done a step.
proof fn lemma_onlooker(
    run: ObjectRun,
    temp: Seq<char>,
    pid: u32,
    count: u64,
    ext: Seq<char>,
    event: S3Event,
    bytes: Seq<u8>,
    other: ObjectRun,
)
    requires
        racer_holds(run),
        racer_holds(other),
        run.objects == other.objects,
        run.write.id == other.write.id,
        temp == temp_text(run.write.id, pid, count, ext),
        !(reserves(run.write.step) && reserves(other.write.step)),
        !(has_won(run.write.step) && has_won(other.write.step)),
    ensures
        ({
            let next = run.after(temp, event, bytes);
            let seen = ObjectRun { objects: next.objects, ..other };
            &&& racer_holds(next)
            &&& racer_holds(seen)
            &&& !(reserves(next.write.step) && reserves(other.write.step))
            &&& !(has_won(next.write.step) && has_won(other.write.step))
        }),
{
    if run.allows(temp, event, bytes) {
        lemma_effect(run, temp, pid, count, ext, event, bytes);
        lemma_racer(run, temp, pid, count, ext, event, bytes);
    }
}

proof fn lemma_race_run(
    first: S3View,
    second: S3View,
    objects: Map<Seq<char>, Seq<u8>>,
    first_temp: (u32, u64),
    second_temp: (u32, u64),
    events: Seq<RaceEvent>,
)
    requires
        can_race(first),
        can_race(second),
        first.id == second.id,
    ensures
        ({
            let start = object_race_start(first, second, objects, first_temp, second_temp);
            let race = object_race_run(start, events);
            &&& race_holds(race)
            &&& race.first.write.id == first.id
            &&& race.first.write.job == first.job
            &&& race.second.write.job == second.job
            &&& race.first_temp == start.first_temp
            &&& race.second_temp == start.second_temp
        }),
    decreases events.len(),
{
    if events.len() > 0 {
        let start = object_race_start(first, second, objects, first_temp, second_temp);
        lemma_race_run(first, second, objects, first_temp, second_temp, events.drop_last());
        let race = object_race_run(start, events.drop_last());
        let come = events.last();
        if come.of_first {
            let (pid, count) = first_temp;
            lemma_onlooker(
                race.first,
                race.first_temp,
                pid,
                count,
                first.ext,
                come.event,
                come.bytes,
                race.second,
            );
        } else {
            let (pid, count) = second_temp;
            lemma_onlooker(
                race.second,
                race.second_temp,
                pid,
                count,
                second.ext,
                come.event,
                come.bytes,
                race.first,
            );
        }
    }
}

/// Whether a write has ended with success.
pub open spec fn s3_has_succeeded(write: S3View) -> bool {
    write.step matches S3Step::Finished { result } && result is Ok
}

/// Of two writes that race for one ID, under whatever extensions and in whatever order, at most one
/// succeeds, be they uploads, concatenations or renames.
pub proof fn s3_racing_writes_store_one_object(
    first: S3View,
    second: S3View,
    objects: Map<Seq<char>, Seq<u8>>,
    first_temp: (u32, u64),
    second_temp: (u32, u64),
    events: Seq<RaceEvent>,
)
    requires
        can_race(first),
        can_race(second),
        first.id == second.id,
    ensures
        ({
            let start = object_race_start(first, second, objects, first_temp, second_temp);
            let race = object_race_run(start, events);
            !(s3_has_succeeded(race.first.write) && s3_has_succeeded(race.second.write))
        }),
{
    lemma_race_run(first, second, objects, first_temp, second_temp, events);
}

/// Whether the event is what comes of the step where nothing goes wrong: it tells of no failure, but
/// for a reservation that the other writer has made.
pub open spec fn s3_race_smooth(step: S3Step, other: S3Step, event: S3Event) -> bool {
    undisturbed(event) || (step is Reserve && reserves(other) && (event matches S3Event::Failed(e)
        && e is AlreadyExists))
}

/// Whether nothing goes wrong in a race.
pub open spec fn s3_smooth_race(race: ObjectRace, events: Seq<RaceEvent>) -> bool
    decreases events.len(),
{
    events.len() > 0 ==> {
        let before = object_race_run(race, events.drop_last());
        let come = events.last();
        let first = before.first.write.step;
        let second = before.second.write.step;
        &&& s3_smooth_race(race, events.drop_last())
        &&& if come.of_first {
            s3_race_smooth(first, second, come.event)
        } else {
            s3_race_smooth(second, first, come.event)
        }
    }
}

/// Whether a write has found its ID taken.
spec fn has_lost(step: S3Step) -> bool {
    step == (S3Step::Release { result: Err(StorageError::Conflict) }) || step == (
    S3Step::Finished { result: Err(StorageError::Conflict) })
}

spec fn upload_on_course(write: S3View) -> bool {
    &&& write.job == S3Job::Put || write.job == S3Job::PutStream
    &&& match write.step {
        S3Step::Reserve | S3Step::CheckId | S3Step::Put | S3Step::StartUpload | S3Step::NextChunk {
            ..
        } | S3Step::WriteChunk { .. } | S3Step::FinishUpload { .. } | S3Step::Publish { .. } => true,
        S3Step::RemoveTemp { result } => result is Ok,
        S3Step::Release { .. } | S3Step::Finished { .. } => has_won(write.step) || has_lost(
            write.step,
        ),
        _ => false,
    }
}

spec fn fair_race(race: ObjectRace) -> bool {
    let first = race.first.write;
    let second = race.second.write;
    &&& upload_on_course(first)
    &&& upload_on_course(second)
    &&& id_stored(race.first.objects, first.id) == (has_won(first.step) || has_won(second.step))
    &&& has_lost(first.step) ==> !has_lost(second.step) && !(second.step is Reserve)
    &&& has_lost(second.step) ==> !has_lost(first.step) && !(first.step is Reserve)
}

proof fn lemma_fair_step(
    run: ObjectRun,
    temp: Seq<char>,
    pid: u32,
    count: u64,
    ext: Seq<char>,
    event: S3Event,
    bytes: Seq<u8>,
    other: ObjectRun,
)
    requires
        racer_holds(run),
        racer_holds(other),
        run.objects == other.objects,
        run.write.id == other.write.id,
        temp == temp_text(run.write.id, pid, count, ext),
        !(reserves(run.write.step) && reserves(other.write.step)),
        !(has_won(run.write.step) && has_won(other.write.step)),
        upload_on_course(run.write),
        upload_on_course(other.write),
        id_stored(run.objects, run.write.id) == (has_won(run.write.step) || has_won(
            other.write.step,
        )),
        has_lost(run.write.step) ==> !has_lost(other.write.step) && !(other.write.step is Reserve),
        has_lost(other.write.step) ==> !has_lost(run.write.step) && !(run.write.step is Reserve),
        s3_race_smooth(run.write.step, other.write.step, event),
    ensures
        ({
            let next = run.after(temp, event, bytes);
            &&& upload_on_course(next.write)
            &&& id_stored(next.objects, run.write.id) == (has_won(next.write.step) || has_won(
                other.write.step,
            ))
            &&& has_lost(next.write.step) ==> !has_lost(other.write.step) && !(
            other.write.step is Reserve)
            &&& has_lost(other.write.step) ==> !has_lost(next.write.step) && !(
            next.write.step is Reserve)
        }),
{
    if run.allows(temp, event, bytes) {
        lemma_effect(run, temp, pid, count, ext, event, bytes);
        match (run.write.step, event) {
            (S3Step::CheckId, S3Event::Listed(Listed::Object(entry))) => {
                assert(run.objects.dom().contains(entry.location@) && holds_id(
                    entry.location@,
                    run.write.id,
                ));
                assert(id_stored(run.objects, run.write.id));
            },
            _ => {},
        }
    }
}

proof fn lemma_fair_race(
    first: S3View,
    second: S3View,
    objects: Map<Seq<char>, Seq<u8>>,
    first_temp: (u32, u64),
    second_temp: (u32, u64),
    events: Seq<RaceEvent>,
)
    requires
        can_race(first),
        can_race(second),
        first.id == second.id,
        first.job == S3Job::Put || first.job == S3Job::PutStream,
        second.job == S3Job::Put || second.job == S3Job::PutStream,
        !id_stored(objects, first.id),
        s3_smooth_race(
            object_race_start(first, second, objects, first_temp, second_temp),
            events,
        ),
    ensures
        fair_race(
            object_race_run(
                object_race_start(first, second, objects, first_temp, second_temp),
                events,
            ),
        ),
    decreases events.len(),
{
    if events.len() > 0 {
        let start = object_race_start(first, second, objects, first_temp, second_temp);
        let earlier = events.drop_last();
        lemma_fair_race(first, second, objects, first_temp, second_temp, earlier);
        lemma_race_run(first, second, objects, first_temp, second_temp, earlier);
        let race = object_race_run(start, earlier);
        let come = events.last();
        if come.of_first {
            let (pid, count) = first_temp;
            lemma_fair_step(
                race.first,
                race.first_temp,
                pid,
                count,
                first.ext,
                come.event,
                come.bytes,
                race.second,
            );
        } else {
            let (pid, count) = second_temp;
            lemma_fair_step(
                race.second,
                race.second_temp,
                pid,
                count,
                second.ext,
                come.event,
                come.bytes,
                race.first,
            );
        }
    }
}

/// Of two uploads that race for one free ID, under whatever extensions and in whatever order, and
/// with which nothing goes wrong, exactly one succeeds, and the other ends in a conflict.
pub proof fn s3_racing_uploads_store_exactly_one_object(
    first: S3View,
    second: S3View,
    objects: Map<Seq<char>, Seq<u8>>,
    first_temp: (u32, u64),
    second_temp: (u32, u64),
    events: Seq<RaceEvent>,
)
    requires
        can_race(first),
        can_race(second),
        first.id == second.id,
        first.job == S3Job::Put || first.job == S3Job::PutStream,
        second.job == S3Job::Put || second.job == S3Job::PutStream,
        !id_stored(objects, first.id),
        s3_smooth_race(
            object_race_start(first, second, objects, first_temp, second_temp),
            events,
        ),
    ensures
        ({
            let start = object_race_start(first, second, objects, first_temp, second_temp);
            let race = object_race_run(start, events);
            let conflict = S3Step::Finished { result: Err(StorageError::Conflict) };
            race.first.write.step is Finished && race.second.write.step is Finished ==> {
                ||| s3_has_succeeded(race.first.write) && race.second.write.step == conflict
                ||| s3_has_succeeded(race.second.write) && race.first.write.step == conflict
            }
        }),
{
    lemma_fair_race(first, second, objects, first_temp, second_temp, events);
    lemma_race_run(first, second, objects, first_temp, second_temp, events);
}

} // verus!
