use std::collections::BTreeMap;

use juicehost::error::{IoFailure, Step, StorageError};
use juicehost::storage::capability::Capabilities;
use juicehost::storage::local_ops::DeletePlan;
use juicehost::storage::s3::{
    map_object_store_error, object_of, Listed, ObjectEntry, ObjectError, S3Backend,
};
use juicehost::storage::s3_write::{S3Event, S3Step, S3Write};

/// An object store in memory.
struct Store {
    objects: BTreeMap<String, Vec<u8>>,
    uploads: u64,
}

fn in_place() -> S3Event {
    S3Event::Failed(ObjectError::AlreadyExists("exists".to_owned()))
}

fn absent() -> S3Event {
    S3Event::Failed(ObjectError::Other("absent".to_owned()))
}

fn entry(location: &str, size: u64) -> ObjectEntry {
    ObjectEntry {
        location: location.to_owned(),
        size,
        etag: None,
    }
}

/// A write on the way.
struct Writing {
    write: S3Write,
    count: u64,
    whole: Vec<u8>,
    chunks: std::vec::IntoIter<Result<Vec<u8>, StorageError>>,
    current: Vec<u8>,
    part: Vec<Vec<u8>>,
    upload: Vec<u8>,
}

impl Writing {
    fn over(&self) -> bool {
        matches!(self.write.step, S3Step::Finished { .. })
    }

    fn result(self) -> Result<u64, StorageError> {
        match self.write.step {
            S3Step::Finished { result } => result,
            step => panic!("{step:?}"),
        }
    }
}

impl Store {
    fn new() -> Store {
        Store {
            objects: BTreeMap::new(),
            uploads: 0,
        }
    }

    /// The object of an ID. A prefix stands for whole segments of a key.
    fn list(&self, id: &str) -> Listed {
        let prefix = format!("{}/", S3Backend::list_prefix());
        let entries = self
            .objects
            .iter()
            .filter(|(key, _)| key.starts_with(&prefix))
            .map(|(key, data)| entry(key, data.len() as u64))
            .collect();
        object_of(id, Ok(entries))
    }

    fn create(&mut self, key: String, data: Vec<u8>) -> S3Event {
        if self.objects.contains_key(&key) {
            in_place()
        } else {
            self.objects.insert(key, data);
            S3Event::Done
        }
    }

    /// Starts a write, with a temporary object of its own.
    fn start(&mut self, write: S3Write, chunks: Vec<Result<Vec<u8>, StorageError>>) -> Writing {
        self.uploads += 1;
        let whole = chunks
            .iter()
            .filter_map(|chunk| chunk.as_ref().ok())
            .flatten()
            .copied()
            .collect();
        Writing {
            write,
            count: self.uploads,
            whole,
            chunks: chunks.into_iter(),
            current: vec![],
            part: vec![],
            upload: vec![],
        }
    }

    /// Does what a write asks for next.
    fn advance(&mut self, mut writing: Writing) -> Writing {
        let write = writing.write;
        let temp = write.temp_key(42, writing.count);
        let event = match &write.step {
            S3Step::StatSource => S3Event::Listed(self.list(&write.parts[0])),
            S3Step::Reserve => self.create(write.reservation_key(), vec![]),
            S3Step::CheckId => S3Event::Listed(self.list(&write.id)),
            S3Step::Put => self.create(write.target_key(), writing.whole.clone()),
            S3Step::Copy => match self.objects.get(&write.source_key().unwrap()).cloned() {
                Some(data) => self.create(write.target_key(), data),
                None => absent(),
            },
            S3Step::StartUpload => S3Event::Done,
            S3Step::NextChunk { .. } => match writing.chunks.next() {
                Some(Ok(chunk)) => {
                    writing.current = chunk;
                    S3Event::Chunk(writing.current.len() as u64)
                }
                Some(Err(e)) => S3Event::Broken(e),
                None => S3Event::End,
            },
            S3Step::WriteChunk { .. } | S3Step::WritePartChunk { .. } => {
                writing.upload.extend_from_slice(&writing.current);
                S3Event::Done
            }
            S3Step::ListPart { index } => S3Event::Listed(self.list(&write.parts[*index])),
            S3Step::GetPart { .. } => match self.objects.get(&write.location) {
                Some(data) => {
                    writing.part = vec![data.clone()];
                    S3Event::Done
                }
                None => absent(),
            },
            S3Step::NextPartChunk { .. } => match writing.part.pop() {
                Some(chunk) => {
                    writing.current = chunk;
                    S3Event::Chunk(writing.current.len() as u64)
                }
                None => S3Event::End,
            },
            S3Step::FinishUpload { .. } => {
                self.objects.insert(temp, writing.upload.clone());
                S3Event::Done
            }
            S3Step::AbortUpload { .. } => S3Event::Done,
            S3Step::Publish { .. } => {
                let data = self.objects[&temp].clone();
                self.create(write.target_key(), data)
            }
            S3Step::DiscardTemp { .. } | S3Step::RemoveTemp { .. } => {
                self.objects.remove(&temp);
                S3Event::Done
            }
            S3Step::Release { .. } => {
                self.objects.remove(&write.reservation_key());
                S3Event::Done
            }
            S3Step::ListOld { index, .. } => S3Event::Listed(self.list(&write.parts[*index])),
            S3Step::DeleteOld { .. } => {
                self.objects.remove(&write.location);
                S3Event::Done
            }
            S3Step::Finished { .. } => S3Event::Done,
        };
        writing.write = write.step(event);
        writing
    }

    /// The write once it is over.
    fn finish(
        &mut self,
        write: S3Write,
        chunks: Vec<Result<Vec<u8>, StorageError>>,
    ) -> S3Write {
        let mut writing = self.start(write, chunks);
        while !writing.over() {
            writing = self.advance(writing);
        }
        writing.write
    }

    fn run(
        &mut self,
        write: S3Write,
        chunks: Vec<Result<Vec<u8>, StorageError>>,
    ) -> Result<u64, StorageError> {
        match self.finish(write, chunks).step {
            S3Step::Finished { result } => result,
            _ => unreachable!(),
        }
    }

    fn put(&mut self, id: &str, filename: &str, data: &[u8]) -> Result<u64, StorageError> {
        self.run(S3Write::put_stream(id, filename), vec![Ok(data.to_vec())])
    }

    fn keys(&self) -> Vec<&str> {
        self.objects.keys().map(|key| key.as_str()).collect()
    }
}

#[test]
fn s3_upload() {
    let mut store = Store::new();
    assert_eq!(store.put("a", "x.PNG", b"12345"), Ok(5));
    assert_eq!(store.keys(), vec!["files/a.png"]);
    assert_eq!(store.objects["files/a.png"], b"12345");
    assert_eq!(store.put("a", "y.txt", b"other"), Err(StorageError::Conflict));
    assert_eq!(store.objects["files/a.png"], b"12345");
    assert_eq!(
        store.put("a b", "y.txt", b"other"),
        Err(StorageError::Io(IoFailure::InvalidLogicalId))
    );
    let put = S3Write::put("b", "noext");
    assert_eq!(store.run(put, vec![Ok(b"whole".to_vec())]), Ok(0));
    assert_eq!(store.objects["files/b.bin"], b"whole");
    assert_eq!(store.keys(), vec!["files/a.png", "files/b.bin"]);
}

#[test]
fn s3_lookup_finds_the_object_of_the_id() {
    let entries = || {
        vec![
            entry("files/.a.1.1.txt.tmp", 1),
            entry("files/.reservations/a", 2),
            entry("files/ab.txt", 3),
            entry("files/a.txt", 4),
            entry("files/a.png", 5),
        ]
    };
    let of = |id: &str| object_of(id, Ok(entries()));
    assert_eq!(of("a"), Listed::Object(entry("files/a.txt", 4)));
    assert_eq!(of("ab"), Listed::Object(entry("files/ab.txt", 3)));
    assert_eq!(of("b"), Listed::Nothing);
    assert_eq!(of("abc"), Listed::Nothing);
    assert_eq!(of(""), Listed::Nothing);
    assert_eq!(of("files/a"), Listed::Nothing);
    assert_eq!(object_of("a", Ok(vec![entry("files/ab.txt", 3)])), Listed::Nothing);
    assert_eq!(object_of("a", Err("e".to_owned())), Listed::Failed("e".to_owned()));
}

#[test]
fn s3_stored_id_conflicts_whatever_the_extension() {
    let mut store = Store::new();
    store.put("ab", "x.txt", b"other").unwrap();
    store.put("a", "x.txt", b"first").unwrap();
    for name in ["x.txt", "x.png", "noext"] {
        assert_eq!(store.put("a", name, b"second"), Err(StorageError::Conflict));
        let whole = S3Write::put("a", name);
        assert_eq!(
            store.run(whole, vec![Ok(b"second".to_vec())]),
            Err(StorageError::Conflict)
        );
    }
    let concat = S3Write::concat("a", "x.png", vec!["ab".to_owned()]);
    assert_eq!(store.run(concat, vec![]), Err(StorageError::Conflict));
    assert_eq!(store.keys(), vec!["files/a.txt", "files/ab.txt"]);
    assert_eq!(store.objects["files/a.txt"], b"first");
}

#[test]
fn s3_capabilities_follow_the_objects() {
    let mut store = Store::new();
    let mut table = Capabilities::new();
    for id in ["p1", "p2", "old"] {
        let write = store.finish(S3Write::put_stream(id, "a.txt"), vec![Ok(b"1".to_vec())]);
        write.settle(&mut table, Some("c"));
        assert!(table.allows(id, Some("c")));
    }
    let taken = store.finish(S3Write::put("p1", "b.txt"), vec![Ok(b"2".to_vec())]);
    taken.settle(&mut table, Some("d"));
    assert!(table.allows("p1", Some("c")) && !table.allows("p1", Some("d")));

    let parts = vec!["p1".to_owned(), "p2".to_owned()];
    let concat = store.finish(S3Write::concat("m", "m.txt", parts), vec![]);
    concat.settle(&mut table, Some("c"));
    assert!(table.allows("m", Some("c")));
    assert!(!table.allows("p1", Some("c")) && !table.allows("p2", Some("c")));

    let rename = store.finish(S3Write::rename("old", "new"), vec![]);
    rename.settle(&mut table, Some("c"));
    assert!(table.allows("new", Some("c")) && !table.allows("old", Some("c")));

    let unfinished = S3Write::put("q", "q.txt");
    unfinished.settle(&mut table, Some("c"));
    assert!(!table.allows("q", Some("c")));
    table.forget_all(&vec!["m".to_owned(), "x".to_owned()]);
    assert!(!table.allows("m", Some("c")) && table.allows("new", Some("c")));
}

#[test]
fn s3_broken_upload_leaves_nothing() {
    let mut store = Store::new();
    let write = S3Write::put_stream("a", "x.txt");
    assert_eq!(
        store.run(
            write,
            vec![Ok(b"part".to_vec()), Err(StorageError::SizeMismatch)]
        ),
        Err(StorageError::SizeMismatch)
    );
    assert!(store.objects.is_empty());
}

#[test]
fn s3_reserved_id_is_a_conflict() {
    let mut store = Store::new();
    store.objects.insert(S3Backend::reservation_key("a"), vec![]);
    assert_eq!(store.put("a", "x.txt", b"1"), Err(StorageError::Conflict));
    assert_eq!(store.keys(), vec!["files/.reservations/a"]);
}

#[test]
fn s3_concatenation() {
    let mut store = Store::new();
    store.put("p1", "a.txt", b"hello").unwrap();
    store.put("p2", "b.txt", b" world").unwrap();
    let parts = || vec!["p1".to_owned(), "p2".to_owned()];
    let missing = vec!["p1".to_owned(), "p3".to_owned()];
    assert_eq!(
        store.run(S3Write::concat("m", "m.txt", missing), vec![]),
        Err(StorageError::NotFound)
    );
    assert_eq!(store.keys(), vec!["files/p1.txt", "files/p2.txt"]);
    assert_eq!(store.run(S3Write::concat("m", "m.txt", parts()), vec![]), Ok(0));
    assert_eq!(store.keys(), vec!["files/m.txt"]);
    assert_eq!(store.objects["files/m.txt"], b"hello world");
}

#[test]
fn s3_rename() {
    let mut store = Store::new();
    store.put("old", "a.txt", b"hello").unwrap();
    store.put("taken", "a.png", b"png").unwrap();
    assert_eq!(
        store.run(S3Write::rename("none", "new"), vec![]),
        Err(StorageError::NotFound)
    );
    assert_eq!(
        store.run(S3Write::rename("old", "taken"), vec![]),
        Err(StorageError::Conflict)
    );
    assert_eq!(store.run(S3Write::rename("old", "new"), vec![]), Ok(0));
    assert_eq!(store.keys(), vec!["files/new.txt", "files/taken.png"]);
    assert_eq!(store.objects["files/new.txt"], b"hello");
}

#[test]
fn s3_failures() {
    fn after(mut write: S3Write, events: Vec<S3Event>) -> Result<u64, StorageError> {
        for event in events {
            write = write.step(event);
        }
        match write.step {
            S3Step::Finished { result } => result,
            step => panic!("{step:?}"),
        }
    }
    let other = || S3Event::Failed(ObjectError::Other("e".to_owned()));
    let free = || S3Event::Listed(Listed::Nothing);
    let io = |step: Step| Err(StorageError::Io(IoFailure::Failed(step, "e".to_owned())));
    let write = || S3Write::put_stream("a", "x.txt");
    let concat = || S3Write::concat("a", "x.txt", vec!["p".to_owned()]);
    assert_eq!(
        after(write(), vec![other()]),
        Err(StorageError::Io(IoFailure::Message("e".to_owned())))
    );
    assert_eq!(
        after(
            write(),
            vec![
                S3Event::Done,
                S3Event::Listed(Listed::Failed("e".to_owned())),
                S3Event::Done
            ]
        ),
        io(Step::S3List)
    );
    assert_eq!(
        after(write(), vec![S3Event::Done, free(), other(), S3Event::Done]),
        io(Step::S3MultipartInit)
    );
    assert_eq!(
        after(
            write(),
            vec![
                S3Event::Done,
                free(),
                S3Event::Done,
                S3Event::Chunk(1),
                other(),
                S3Event::Done,
                S3Event::Done
            ]
        ),
        io(Step::S3Upload)
    );
    assert_eq!(
        after(
            concat(),
            vec![
                S3Event::Done,
                free(),
                S3Event::Done,
                S3Event::Listed(Listed::Failed("e".to_owned())),
                S3Event::Done,
                S3Event::Done
            ]
        ),
        Err(StorageError::Io(IoFailure::FailedFor(
            Step::S3List,
            "p".to_owned(),
            "e".to_owned()
        )))
    );
    assert_eq!(map_object_store_error(ObjectError::Precondition("e".to_owned())), StorageError::Conflict);
}

#[test]
fn s3_metadata() {
    let object = |etag: Option<&str>| {
        Listed::Object(ObjectEntry {
            location: "files/a.tar.gz".to_owned(),
            size: 9,
            etag: etag.map(|e| e.to_owned()),
        })
    };
    let meta = S3Backend::stat(object(Some("\"tag\"")), 255).unwrap();
    assert_eq!((meta.size, meta.etag.as_str(), meta.extension.as_str()), (9, "\"tag\"", "gz"));
    assert_eq!(S3Backend::stat(object(None), 255).unwrap().etag, "\"ff\"");
    assert_eq!(S3Backend::stat(Listed::Nothing, 0), Err(StorageError::NotFound));
    let data = S3Backend::get("files/a.txt", Ok((3, None)), Ok(vec![1, 2, 3]), 16).unwrap();
    assert_eq!((data.data, data.meta.etag.as_str()), (vec![1, 2, 3], "\"10\""));
    assert_eq!(
        S3Backend::get("files/a.txt", Err("e".to_owned()), Ok(vec![]), 16),
        Err(StorageError::Io(IoFailure::Failed(Step::S3Get, "e".to_owned())))
    );
    assert_eq!(
        S3Backend::get("files/a.txt", Ok((3, None)), Err("e".to_owned()), 16),
        Err(StorageError::Io(IoFailure::Failed(Step::S3Read, "e".to_owned())))
    );
    assert_eq!(S3Backend::range_bounds(2, 9), (2, 10));
    assert_eq!(S3Backend::delete(object(None)), Some("files/a.tar.gz".to_owned()));
    assert_eq!(S3Backend::delete(Listed::Failed("e".to_owned())), None);
    assert_eq!(S3Backend::delete_done(Ok(())), Ok(true));
    assert_eq!(
        S3Backend::delete_done(Err("e".to_owned())),
        Err(StorageError::Io(IoFailure::Failed(Step::S3Delete, "e".to_owned())))
    );
    assert_eq!(S3Backend::storage_metrics(7).free_bytes, u64::MAX);
    assert_eq!(S3Backend::build_failure("e"), "S3 client build failed: e");
}

#[test]
fn capabilities() {
    let mut table = Capabilities::new();
    assert!(!table.allows("a", Some("c")));
    assert!(table.allows("a", None));
    table.grant("a", Some("c"));
    table.grant("b", Some("c"));
    assert!(table.allows("a", Some("c")));
    assert!(!table.allows("a", Some("d")));
    assert!(table.allows_all(&vec!["a".to_owned(), "b".to_owned()], Some("c")));
    assert!(!table.allows_all(&vec!["a".to_owned(), "x".to_owned()], Some("c")));
    assert_eq!(table.require(&vec!["a".to_owned(), "b".to_owned()], Some("c")), Ok(()));
    assert_eq!(
        table.require(&vec!["a".to_owned(), "x".to_owned()], Some("c")),
        Err(StorageError::Forbidden)
    );
    table.grant("other", Some("e"));
    table.forget("other");
    assert!(table.allows("a", Some("c")));
    table.reassign("a", "n");
    assert!(table.allows("n", Some("c")));
    assert!(!table.allows("a", Some("c")));
    table.forget("n");
    assert!(!table.allows("n", Some("c")));
}

/// Lets two writes take turns as the bits of `schedule` say.
fn race(
    store: &mut Store,
    schedule: u32,
    first: (S3Write, &[u8]),
    second: (S3Write, &[u8]),
) -> (Result<u64, StorageError>, Result<u64, StorageError>) {
    let mut one = store.start(first.0, vec![Ok(first.1.to_vec())]);
    let mut two = store.start(second.0, vec![Ok(second.1.to_vec())]);
    let mut turn = 0;
    while !one.over() || !two.over() {
        let of_first = schedule >> (turn % 10) & 1 == 0;
        turn += 1;
        if two.over() || of_first && !one.over() {
            one = store.advance(one);
        } else {
            two = store.advance(two);
        }
    }
    (one.result(), two.result())
}

#[test]
fn s3_racing_uploads_store_exactly_one_object() {
    for schedule in 0u32..1024 {
        let mut store = Store::new();
        let first = S3Write::put_stream("a", "x.png");
        let second = S3Write::put("a", "y.txt");
        let (key, data) = match race(&mut store, schedule, (first, b"one"), (second, b"second")) {
            (Ok(3), Err(StorageError::Conflict)) => ("files/a.png", b"one".to_vec()),
            (Err(StorageError::Conflict), Ok(0)) => ("files/a.txt", b"second".to_vec()),
            other => panic!("{other:?}"),
        };
        assert_eq!(store.keys(), vec![key]);
        assert_eq!(store.objects[key], data);
    }
}

#[test]
fn s3_racing_writes_store_one_object() {
    for schedule in 0u32..1024 {
        let mut store = Store::new();
        store.put("old", "o.md", b"old").unwrap();
        store.put("part", "p.md", b"part").unwrap();
        let first = S3Write::rename("old", "a");
        let second = S3Write::concat("a", "c.txt", vec!["part".to_owned()]);
        let outcome = race(&mut store, schedule, (first, b""), (second, b""));
        match outcome {
            (Ok(0), Err(StorageError::Conflict)) => {
                assert_eq!(store.keys(), vec!["files/a.md", "files/part.md"]);
                assert_eq!(store.objects["files/a.md"], b"old");
            }
            (Err(StorageError::Conflict), Ok(0)) => {
                assert_eq!(store.keys(), vec!["files/a.txt", "files/old.md"]);
                assert_eq!(store.objects["files/a.txt"], b"part");
            }
            other => panic!("{other:?}"),
        }
    }
}

#[test]
fn s3_changes_need_the_capability() {
    let forbidden = || S3Step::Finished {
        result: Err(StorageError::Forbidden),
    };
    let mut table = Capabilities::new();
    table.grant("a", Some("c"));
    table.grant("b", Some("d"));

    let rename = |id: &str, c: Option<&str>| S3Write::rename_allowed(&table, id, "n", c);
    assert_eq!(rename("a", Some("c")), S3Write::rename("a", "n"));
    assert_eq!(rename("a", None), S3Write::rename("a", "n"));
    assert_eq!(rename("a", Some("d")).step, forbidden());
    assert_eq!(rename("x", Some("c")).step, forbidden());

    let concat = |ids: &[&str], c: Option<&str>| {
        let parts = ids.iter().map(|id| id.to_string()).collect();
        S3Write::concat_allowed(&table, "n", "n.txt", parts, c)
    };
    assert_eq!(
        concat(&["a"], Some("c")),
        S3Write::concat("n", "n.txt", vec!["a".to_owned()])
    );
    assert_eq!(concat(&["a", "b"], None).step, S3Step::Reserve);
    assert_eq!(concat(&["a", "b"], Some("c")).step, forbidden());
    assert_eq!(concat(&["b", "a"], Some("c")).step, forbidden());

    let found = || Listed::Object(entry("files/a.txt", 1));
    let plan = |listed: Listed, c: Option<&str>| S3Backend::delete_allowed(&table, "a", listed, c);
    let remove = || DeletePlan::Remove("files/a.txt".to_owned());
    assert_eq!(plan(found(), Some("c")), remove());
    assert_eq!(plan(found(), None), remove());
    assert_eq!(plan(found(), Some("d")), DeletePlan::Forbidden);
    assert_eq!(plan(Listed::Nothing, Some("d")), DeletePlan::Absent);
    assert_eq!(plan(Listed::Failed("e".to_owned()), Some("c")), DeletePlan::Absent);

    let failed = S3Backend::delete_settled(&mut table, "a", Err("e".to_owned()));
    assert_eq!(
        failed,
        Err(StorageError::Io(IoFailure::Failed(Step::S3Delete, "e".to_owned())))
    );
    assert!(table.allows("a", Some("c")));
    assert_eq!(S3Backend::delete_settled(&mut table, "a", Ok(())), Ok(true));
    assert!(!table.allows("a", Some("c")));
    assert!(table.allows("b", Some("d")));
}

#[test]
fn s3_deletion_leaves_the_rest() {
    let mut store = Store::new();
    store.put("a", "x.txt", b"1").unwrap();
    store.put("ab", "x.txt", b"2").unwrap();
    let location = S3Backend::delete(store.list("a")).unwrap();
    store.objects.remove(&location);
    assert_eq!(store.list("a"), Listed::Nothing);
    assert_eq!(store.list("ab"), Listed::Object(entry("files/ab.txt", 1)));
    assert_eq!(S3Backend::delete(store.list("a")), None);
}
