//! Local disk backend: the index of stored files.

use vstd::prelude::*;
use vstd::string::*;

use crate::error::{as_missing, missing_or, IoError, IoFailure, StorageError, Step};
use crate::handlers::headers::is_header_value;
use crate::storage::capability::{allowed, granted, moved, option_view, Capabilities};
use crate::storage::names::{
    extension_of, extract_extension, file_name, is_component, join_name, lemma_component_chars,
    lemma_dotted, stored_name, stored_name_round_trip, valid_component,
};
use crate::storage::tables::{
    get_meta, get_text, has_text, insert_meta, insert_text, meta_entries, new_metas, new_texts,
    remove_meta, remove_text, text_entries,
};
use crate::storage::{FileMetadata, StorageMetrics};
use crate::text::{
    begins_with, chars_of, decimal, decimal_text, ends_with, find_last, find_last_char,
    finishes_with, hex_char, hex_text, hexadecimal, lemma_decimal, starts_with, text_of, views,
};

verus! {

/// What the local backend knows of its files.
#[verifier::ext_equal]
pub struct StoreView {
    /// The extension of every stored ID.
    pub extensions: Map<Seq<char>, Seq<char>>,
    /// Size, ETag and extension of the IDs that were looked up.
    pub metadata: Map<Seq<char>, (u64, Seq<char>, Seq<char>)>,
    /// The capability of the IDs that were stored with one.
    pub capabilities: Map<Seq<char>, Seq<char>>,
    /// Free space below which writes are rejected.
    pub min_free: u64,
}

impl StoreView {
    /// Every stored ID and its extension make a stored file name.
    pub open spec fn valid(self) -> bool {
        forall|id: Seq<char>| #[trigger]
            self.extensions.dom().contains(id) ==> is_component(id) && is_component(
                self.extensions[id],
            )
    }

    /// The store after `id` was stored under `ext`.
    pub open spec fn stored(
        self,
        id: Seq<char>,
        ext: Seq<char>,
        capability: Option<Seq<char>>,
    ) -> StoreView {
        StoreView {
            extensions: self.extensions.insert(id, ext),
            metadata: self.metadata,
            capabilities: granted(self.capabilities, id, capability),
            min_free: self.min_free,
        }
    }

    /// The store without what was remembered of the file that holds `id`.
    pub open spec fn refreshed(self, id: Seq<char>) -> StoreView {
        StoreView { metadata: self.metadata.remove(id), ..self }
    }

    /// The store after `id` was deleted.
    pub open spec fn deleted(self, id: Seq<char>) -> StoreView {
        StoreView {
            extensions: self.extensions.remove(id),
            metadata: self.metadata.remove(id),
            capabilities: self.capabilities.remove(id),
            min_free: self.min_free,
        }
    }

    /// The store after `old_id` became `new_id`, stored under `ext`: the capability moves along.
    pub open spec fn renamed(
        self,
        old_id: Seq<char>,
        new_id: Seq<char>,
        ext: Seq<char>,
    ) -> StoreView {
        StoreView {
            extensions: self.extensions.remove(old_id).insert(new_id, ext),
            metadata: self.metadata.remove(old_id).remove(new_id),
            capabilities: moved(self.capabilities, old_id, new_id),
            min_free: self.min_free,
        }
    }

    /// The name of the file that holds `id`.
    pub open spec fn resolved(self, id: Seq<char>) -> Option<Seq<char>> {
        if is_component(id) && self.extensions.dom().contains(id) {
            local_name(id, self.extensions[id])
        } else {
            None
        }
    }

    /// Whether `id` may be changed by a bearer of `capability`.
    pub open spec fn allows(self, id: Seq<char>, capability: Option<Seq<char>>) -> bool {
        allowed(self.capabilities, id, capability)
    }
}

/// The name of the file that holds `id` under `ext`, where both can stand in a name.
pub open spec fn local_name(id: Seq<char>, ext: Seq<char>) -> Option<Seq<char>> {
    if is_component(id) && is_component(ext) {
        Some(stored_name(id, ext))
    } else {
        None
    }
}

/// The name of the file that reserves `id` while it is written.
pub open spec fn reserving_name(id: Seq<char>) -> Seq<char> {
    "."@ + id + ".reserve"@
}

/// The name of the `count`th temporary file of the process `pid`.
pub open spec fn temporary_name(id: Seq<char>, pid: u32, count: u64) -> Seq<char> {
    "."@ + id + "."@ + decimal(pid as nat) + "."@ + decimal(count as nat) + ".tmp"@
}

/// Whether `name` is a reservation or a temporary file that an earlier run left behind.
pub open spec fn is_leftover(name: Seq<char>) -> bool {
    begins_with(name, "."@) && (finishes_with(name, ".reserve"@) || finishes_with(name, ".tmp"@))
}

/// What a directory entry is.
#[derive(Debug, Clone, Copy, PartialEq, Eq, Structural)]
pub enum EntryKind {
    File,
    Symlink,
    Other,
}

/// What is to be done with a directory entry.
#[derive(Debug, Clone, Copy, PartialEq, Eq, Structural)]
pub enum ScanAction {
    /// The entry is a leftover file and is to be removed.
    Remove,
    /// The entry has the name of a leftover and is no file.
    Skip,
    /// The entry is a stored file and is now in the index.
    Recorded,
    /// The entry has no extension and is no stored file.
    Ignored,
}

/// The ID in a stored file name.
pub open spec fn id_part(name: Seq<char>) -> Seq<char> {
    name.take(find_last(name, '.').unwrap())
}

/// The extension in a stored file name.
pub open spec fn ext_part(name: Seq<char>) -> Seq<char> {
    name.skip(find_last(name, '.').unwrap() + 1)
}

/// What a scan of the storage directory makes of an entry.
pub open spec fn scan_result(store: StoreView, name: Seq<char>, kind: EntryKind) -> Result<
    ScanAction,
    Seq<char>,
> {
    if is_leftover(name) {
        Ok(
            if kind == EntryKind::File {
                ScanAction::Remove
            } else {
                ScanAction::Skip
            },
        )
    } else if kind != EntryKind::File {
        Err("storage entry is not a regular file: "@ + name)
    } else if find_last(name, '.') is None {
        Ok(ScanAction::Ignored)
    } else if !is_component(id_part(name)) || !is_component(ext_part(name)) {
        Err("invalid storage entry name: "@ + name)
    } else if store.extensions.dom().contains(id_part(name)) {
        Err("duplicate logical file ID: "@ + id_part(name))
    } else {
        Ok(ScanAction::Recorded)
    }
}

/// The store after a scan of an entry: a well-formed file name enters the index.
pub open spec fn scan_store(store: StoreView, name: Seq<char>, kind: EntryKind) -> StoreView {
    if !is_leftover(name) && kind == EntryKind::File && find_last(name, '.') is Some
        && is_component(id_part(name)) && is_component(ext_part(name)) {
        StoreView {
            extensions: store.extensions.insert(id_part(name), ext_part(name)),
            ..store
        }
    } else {
        store
    }
}

/// An entry of the storage directory.
#[derive(Debug, PartialEq, Eq)]
pub struct DirEntry {
    pub name: String,
    pub kind: EntryKind,
}

/// What a scan of the storage directory comes to.
#[verifier::ext_equal]
pub struct ScanView {
    pub store: StoreView,
    /// The leftover files that are to be removed.
    pub stale: Seq<Seq<char>>,
    /// Why the directory cannot be used, if so.
    pub error: Option<Seq<char>>,
}

/// A scan of the entries in their order, up to the first one that cannot stand there.
pub open spec fn scan_directory(store: StoreView, entries: Seq<DirEntry>) -> ScanView
    decreases entries.len(),
{
    if entries.len() == 0 {
        ScanView { store, stale: Seq::empty(), error: None }
    } else {
        let before = scan_directory(store, entries.drop_last());
        let name = entries.last().name@;
        let kind = entries.last().kind;
        if before.error is Some {
            before
        } else {
            ScanView {
                store: scan_store(before.store, name, kind),
                stale: if scan_result(before.store, name, kind) == Ok::<ScanAction, Seq<char>>(
                    ScanAction::Remove,
                ) {
                    before.stale.push(name)
                } else {
                    before.stale
                },
                error: match scan_result(before.store, name, kind) {
                    Ok(_) => None,
                    Err(e) => Some(e),
                },
            }
        }
    }
}

/// What the file system tells of a file.
#[derive(Debug, Clone, Copy, PartialEq, Eq, Structural)]
pub struct FileStat {
    pub regular: bool,
    pub len: u64,
    pub inode: u64,
    pub modified: i64,
}

/// The ETag of a file: inode, modification time and length, in hexadecimal and quoted.
pub open spec fn etag_of(stat: FileStat) -> Seq<char> {
    "\""@ + hexadecimal(stat.inode as nat) + "-"@ + hexadecimal((stat.modified as u64) as nat) + "-"@
        + hexadecimal(stat.len as nat) + "\""@
}

/// The ETag of a file.
pub fn etag_from_metadata(stat: &FileStat) -> (r: String)
    ensures
        r@ == etag_of(*stat),
{
    "\"".to_owned().concat(hex_text(stat.inode as u128).as_str()).concat("-").concat(
        hex_text((stat.modified as u64) as u128).as_str(),
    ).concat("-").concat(hex_text(stat.len as u128).as_str()).concat("\"")
}

/// The name of the file that reserves `id` while it is written.
pub fn reservation_name(id: &str) -> (r: String)
    ensures
        r@ == reserving_name(id@),
{
    ".".to_owned().concat(id).concat(".reserve")
}

/// The name of a temporary file of the process `pid`.
pub fn temp_name(id: &str, pid: u32, count: u64) -> (r: String)
    ensures
        r@ == temporary_name(id@, pid, count),
{
    ".".to_owned().concat(id).concat(".").concat(decimal_text(pid as u64).as_str()).concat(
        ".",
    ).concat(decimal_text(count).as_str()).concat(".tmp")
}

/// The name of the file that holds `id` under `ext`, where both can stand in a name.
pub fn path_for(id: &str, ext: &str) -> (r: Option<String>)
    ensures
        match r {
            Some(name) => local_name(id@, ext@) == Some(name@),
            None => local_name(id@, ext@) is None,
        },
{
    if !valid_component(id) || !valid_component(ext) {
        return None;
    }
    Some(join_name(id, ext))
}

/// What a lookup of metadata has to do.
#[derive(Debug, PartialEq, Eq)]
pub enum StatPlan {
    /// The metadata is known.
    Cached(FileMetadata),
    /// There is no such file.
    Missing,
    /// The file of this name is to be looked at.
    Probe(String),
}

/// Local disk backend.
pub struct LocalBackend {
    extensions: dashmap::DashMap<String, String>,
    meta_cache: dashmap::DashMap<String, (u64, String, String)>,
    capabilities: Capabilities,
    min_free_space_bytes: u64,
}

impl View for LocalBackend {
    type V = StoreView;

    closed spec fn view(&self) -> StoreView {
        StoreView {
            extensions: text_entries(self.extensions),
            metadata: meta_entries(self.meta_cache),
            capabilities: self.capabilities@,
            min_free: self.min_free_space_bytes,
        }
    }
}

/// A store without files.
pub open spec fn empty_store(min_free: u64) -> StoreView {
    StoreView {
        extensions: Map::empty(),
        metadata: Map::empty(),
        capabilities: Map::empty(),
        min_free,
    }
}

impl LocalBackend {
    /// Opens a storage directory. `directory` tells whether its canonical path is a directory, or
    /// why it has none.
    pub fn new(directory: Result<bool, String>, min_free_space_bytes: u64) -> (r: Result<
        LocalBackend,
        String,
    >)
        ensures
            match (directory, r) {
                (Ok(true), Ok(backend)) => backend@ == empty_store(min_free_space_bytes),
                (Ok(false), Err(text)) => text@ == "files directory is not a directory"@,
                (Err(e), Err(text)) => text@ == "canonicalize files directory failed: "@ + e@,
                _ => false,
            },
    {
        match directory {
            Err(e) => Err(
                "canonicalize files directory failed: ".to_owned().concat(e.as_str()),
            ),
            Ok(false) => Err("files directory is not a directory".to_owned()),
            Ok(true) => {
                let backend = LocalBackend {
                    extensions: new_texts(),
                    meta_cache: new_metas(),
                    capabilities: Capabilities::new(),
                    min_free_space_bytes,
                };
                assert(backend@ =~= empty_store(min_free_space_bytes));
                Ok(backend)
            },
        }
    }

    /// Takes an entry of the storage directory into account.
    pub fn scan_entry(&mut self, name: &str, kind: EntryKind) -> (r: Result<ScanAction, String>)
        ensures
            final(self)@ == scan_store(old(self)@, name@, kind),
            match (r, scan_result(old(self)@, name@, kind)) {
                (Ok(a), Ok(b)) => a == b,
                (Err(a), Err(b)) => a@ == b,
                _ => false,
            },
    {
        if starts_with(name, ".") && (ends_with(name, ".reserve") || ends_with(name, ".tmp")) {
            return match kind {
                EntryKind::File => Ok(ScanAction::Remove),
                _ => Ok(ScanAction::Skip),
            };
        }
        match kind {
            EntryKind::File => {},
            _ => return Err("storage entry is not a regular file: ".to_owned().concat(name)),
        }
        let v = chars_of(name);
        let n: usize = v.len();
        let dot = match find_last_char(&v, '.') {
            Some(i) => i,
            None => return Ok(ScanAction::Ignored),
        };
        let id = text_of(&v, 0, dot);
        let ext = text_of(&v, dot + 1, n);
        assert(id@ =~= id_part(name@));
        assert(ext@ =~= ext_part(name@));
        if !valid_component(id.as_str()) || !valid_component(ext.as_str()) {
            return Err("invalid storage entry name: ".to_owned().concat(name));
        }
        let before = insert_text(&mut self.extensions, id.clone(), ext);
        assert(final(self)@ =~= scan_store(old(self)@, name@, kind));
        match before {
            Some(_) => Err("duplicate logical file ID: ".to_owned().concat(id.as_str())),
            None => Ok(ScanAction::Recorded),
        }
    }

    /// Scans the storage directory and fills the index. Gives the leftover files that are to be
    /// removed, and why the directory cannot be used, if so.
    pub fn init_cache(&mut self, entries: &Vec<DirEntry>) -> (r: (Vec<String>, Result<(), String>))
        ensures
            ({
                let scan = scan_directory(old(self)@, entries@);
                &&& final(self)@ == scan.store
                &&& views(r.0@) == scan.stale
                &&& match (r.1, scan.error) {
                    (Ok(_), None) => true,
                    (Err(a), Some(b)) => a@ == b,
                    _ => false,
                }
            }),
    {
        let mut stale: Vec<String> = Vec::new();
        let mut i: usize = 0;
        proof {
            assert(entries@.take(0) =~= Seq::empty());
        }
        while i < entries.len()
            invariant
                i <= entries@.len(),
                scan_directory(old(self)@, entries@.take(i as int)) == (ScanView {
                    store: self@,
                    stale: views(stale@),
                    error: None,
                }),
            decreases entries@.len() - i,
        {
            let ghost now = entries@.take(i + 1);
            assert(now.drop_last() =~= entries@.take(i as int));
            assert(now.last() == entries@[i as int]);
            match self.scan_entry(entries[i].name.as_str(), entries[i].kind) {
                Err(e) => {
                    proof {
                        lemma_scan_stops(old(self)@, entries@, i as int);
                    }
                    return (stale, Err(e));
                },
                Ok(ScanAction::Remove) => {
                    let ghost before = stale@;
                    stale.push(entries[i].name.clone());
                    assert(views(stale@) =~= views(before).push(entries@[i as int].name@));
                },
                Ok(_) => {},
            }
            i = i + 1;
        }
        assert(entries@.take(entries@.len() as int) =~= entries@);
        (stale, Ok(()))
    }

    /// The name of the file that holds `id`.
    pub fn resolve_path(&self, id: &str) -> (r: Option<String>)
        ensures
            match r {
                Some(name) => self@.resolved(id@) == Some(name@),
                None => self@.resolved(id@) is None,
            },
    {
        if !valid_component(id) {
            return None;
        }
        match get_text(&self.extensions, id) {
            Some(ext) => path_for(id, ext.as_str()),
            None => None,
        }
    }

    /// Tells whether `id` is stored.
    pub fn contains(&self, id: &str) -> (r: bool)
        ensures
            r == self@.extensions.dom().contains(id@),
    {
        has_text(&self.extensions, id)
    }

    /// The extension of `id`.
    pub fn extension(&self, id: &str) -> (r: Option<String>)
        ensures
            match r {
                Some(ext) => self@.extensions.dom().contains(id@) && ext@
                    == self@.extensions[id@],
                None => !self@.extensions.dom().contains(id@),
            },
    {
        get_text(&self.extensions, id)
    }

    /// The free space below which writes are rejected.
    pub fn min_free_space(&self) -> (r: u64)
        ensures
            r == self@.min_free,
    {
        self.min_free_space_bytes
    }

    /// Tells whether `id` may be changed by a bearer of `capability`.
    pub fn allows(&self, id: &str, capability: Option<&str>) -> (r: bool)
        ensures
            r == self@.allows(id@, option_view(capability)),
    {
        self.capabilities.allows(id, capability)
    }

    /// Tells whether all of `ids` may be changed by a bearer of `capability`.
    pub fn allows_all(&self, ids: &Vec<String>, capability: Option<&str>) -> (r: bool)
        ensures
            r == (forall|i: int|
                0 <= i < ids@.len() ==> self@.allows(
                    #[trigger] ids@[i]@,
                    option_view(capability),
                )),
    {
        let r = self.capabilities.allows_all(ids, capability);
        proof {
            if forall|i: int|
                0 <= i < ids@.len() ==> self@.allows(
                    #[trigger] ids@[i]@,
                    option_view(capability),
                ) {
                assert forall|i: int| 0 <= i < ids@.len() implies allowed(
                    self.capabilities@,
                    #[trigger] ids@[i]@,
                    option_view(capability),
                ) by {
                    assert(self@.allows(ids@[i]@, option_view(capability)));
                }
            }
        }
        r
    }

    /// What is to be done to learn the metadata of `id`.
    pub fn stat(&self, id: &str) -> (r: StatPlan)
        ensures
            match r {
                StatPlan::Cached(meta) => self@.metadata.dom().contains(id@) && meta@
                    == self@.metadata[id@],
                StatPlan::Missing => !self@.metadata.dom().contains(id@) && self@.resolved(
                    id@,
                ) is None,
                StatPlan::Probe(name) => !self@.metadata.dom().contains(id@) && self@.resolved(id@)
                    == Some(name@),
            },
    {
        if let Some((size, etag, extension)) = get_meta(&self.meta_cache, id) {
            return StatPlan::Cached(FileMetadata { size, etag, extension });
        }
        match self.resolve_path(id) {
            Some(name) => StatPlan::Probe(name),
            None => StatPlan::Missing,
        }
    }

    /// Takes note of what was found at the file `name` that holds `id`.
    pub fn stat_found(&mut self, id: &str, name: &str, found: Result<FileStat, IoError>) -> (r:
        Result<FileMetadata, StorageError>)
        ensures
            match found {
                Err(e) => r == Err::<FileMetadata, StorageError>(missing_or(Step::Metadata, e))
                    && final(self)@ == old(self)@,
                Ok(stat) => if stat.regular {
                    &&& r matches Ok(meta)
                    &&& meta@ == (stat.len, etag_of(stat), extension_of(name@))
                    &&& final(self)@ == (StoreView {
                        metadata: old(self)@.metadata.insert(id@, meta@),
                        ..old(self)@
                    })
                } else {
                    r == Err::<FileMetadata, StorageError>(StorageError::Io(IoFailure::NotRegular))
                        && final(self)@ == old(self)@
                },
            },
    {
        let stat = match found {
            Ok(stat) => stat,
            Err(e) => return Err(as_missing(Step::Metadata, e)),
        };
        if !stat.regular {
            return Err(StorageError::Io(IoFailure::NotRegular));
        }
        let meta = self.note_metadata(id, name, &stat);
        Ok(meta)
    }

    /// Remembers the metadata of the file `name` that holds `id`.
    pub fn note_metadata(&mut self, id: &str, name: &str, stat: &FileStat) -> (meta: FileMetadata)
        ensures
            meta@ == (stat.len, etag_of(*stat), extension_of(name@)),
            final(self)@ == (StoreView {
                metadata: old(self)@.metadata.insert(id@, meta@),
                ..old(self)@
            }),
    {
        let etag = etag_from_metadata(stat);
        let extension = extract_extension(name).to_owned();
        insert_meta(
            &mut self.meta_cache,
            id.to_owned(),
            (stat.len, etag.clone(), extension.clone()),
        );
        FileMetadata { size: stat.len, etag, extension }
    }

    /// Records that `id` was stored under `ext`.
    pub(crate) fn record(&mut self, id: &str, ext: &str, capability: Option<&str>)
        ensures
            final(self)@ == old(self)@.stored(id@, ext@, option_view(capability)),
    {
        let _ = insert_text(&mut self.extensions, id.to_owned(), ext.to_owned());
        self.capabilities.grant(id, capability);
    }

    /// Drops what was remembered of the file that holds `id`.
    pub(crate) fn refresh(&mut self, id: &str)
        ensures
            final(self)@ == old(self)@.refreshed(id@),
    {
        remove_meta(&mut self.meta_cache, id);
    }

    /// Records that `id` was deleted.
    pub(crate) fn forget(&mut self, id: &str)
        ensures
            final(self)@ == old(self)@.deleted(id@),
    {
        remove_text(&mut self.extensions, id);
        remove_meta(&mut self.meta_cache, id);
        self.capabilities.forget(id);
    }

    /// Records that `old_id` became `new_id`, stored under `ext`.
    pub(crate) fn reassign(&mut self, old_id: &str, new_id: &str, ext: &str)
        ensures
            final(self)@ == old(self)@.renamed(old_id@, new_id@, ext@),
    {
        remove_text(&mut self.extensions, old_id);
        let _ = insert_text(&mut self.extensions, new_id.to_owned(), ext.to_owned());
        remove_meta(&mut self.meta_cache, old_id);
        remove_meta(&mut self.meta_cache, new_id);
        self.capabilities.reassign(old_id, new_id);
    }

    /// Get storage capacity metrics. A capacity that the system does not tell counts as zero.
    pub fn storage_metrics(total: Option<u64>, free: Option<u64>, min_free_bytes: u64) -> (r:
        StorageMetrics)
        ensures
            ({
                let t = total.unwrap_or(0);
                let f = free.unwrap_or(0);
                &&& r.total_bytes == t
                &&& r.free_bytes == f
                &&& r.used_bytes == (if t > f {
                    t - f
                } else {
                    0
                })
                &&& r.min_free_bytes == min_free_bytes
                &&& r.out_of_space == (f < min_free_bytes)
            }),
    {
        let total_bytes: u64 = total.unwrap_or(0);
        let free_bytes: u64 = free.unwrap_or(0);
        StorageMetrics {
            total_bytes,
            used_bytes: total_bytes.saturating_sub(free_bytes),
            free_bytes,
            min_free_bytes,
            out_of_space: free_bytes < min_free_bytes,
        }
    }
}

proof fn lemma_hex_chars(n: nat)
    ensures
        hexadecimal(n).len() > 0,
        forall|i: int|
            0 <= i < hexadecimal(n).len() ==> #[trigger] hexadecimal(n)[i] != '-' && hexadecimal(
                n,
            )[i] != '"',
    decreases n,
{
    if n >= 16 {
        lemma_hex_chars(n / 16);
    }
}

pub(crate) proof fn lemma_hex_is_injective(a: nat, b: nat)
    requires
        hexadecimal(a) == hexadecimal(b),
    ensures
        a == b,
    decreases a,
{
    lemma_hex_chars(a / 16);
    lemma_hex_chars(b / 16);
    assert(hexadecimal(a).last() == hex_char(a % 16));
    assert(hexadecimal(b).last() == hex_char(b % 16));
    assert(hex_char(a % 16) as nat == (if a % 16 < 10 { a % 16 + 48 } else { a % 16 + 87 }));
    assert(hex_char(b % 16) as nat == (if b % 16 < 10 { b % 16 + 48 } else { b % 16 + 87 }));
    if a >= 16 && b >= 16 {
        assert(hexadecimal(a).drop_last() =~= hexadecimal(a / 16));
        assert(hexadecimal(b).drop_last() =~= hexadecimal(b / 16));
        lemma_hex_is_injective(a / 16, b / 16);
    }
}

/// Two runs of characters other than `c` that are each followed by `c` are the same where the
/// texts are, and so is what follows them.
proof fn lemma_same_head(a: Seq<char>, x: Seq<char>, b: Seq<char>, y: Seq<char>, c: char)
    requires
        a + seq![c] + x == b + seq![c] + y,
        forall|i: int| 0 <= i < a.len() ==> #[trigger] a[i] != c,
        forall|i: int| 0 <= i < b.len() ==> #[trigger] b[i] != c,
    ensures
        a == b,
        x == y,
{
    let s = a + seq![c] + x;
    let t = b + seq![c] + y;
    assert(s[a.len() as int] == c);
    assert(t[b.len() as int] == c);
    if a.len() < b.len() {
        assert(t[a.len() as int] == b[a.len() as int]);
    }
    if b.len() < a.len() {
        assert(s[b.len() as int] == a[b.len() as int]);
    }
    assert(a =~= s.take(a.len() as int));
    assert(b =~= t.take(a.len() as int));
    assert(x =~= s.skip(a.len() as int + 1));
    assert(y =~= t.skip(a.len() as int + 1));
}

/// Hexadecimal digits can be sent in a header.
pub(crate) proof fn lemma_hex_can_be_sent(n: nat)
    ensures
        is_header_value(hexadecimal(n)),
    decreases n,
{
    if n >= 16 {
        lemma_hex_can_be_sent(n / 16);
    }
}

/// The ETag of every file can be sent in a header.
pub proof fn etags_can_be_sent(stat: FileStat)
    ensures
        is_header_value(etag_of(stat)),
{
    reveal_strlit("\"");
    reveal_strlit("-");
    lemma_hex_can_be_sent(stat.inode as nat);
    lemma_hex_can_be_sent((stat.modified as u64) as nat);
    lemma_hex_can_be_sent(stat.len as nat);
}

/// Files that differ in inode, modification time or length have different ETags.
#[verifier::spinoff_prover]
#[verifier::rlimit(50)]
pub proof fn etags_tell_files_apart(a: FileStat, b: FileStat)
    requires
        etag_of(a) == etag_of(b),
    ensures
        a.inode == b.inode,
        a.modified == b.modified,
        a.len == b.len,
{
    reveal_strlit("\"");
    reveal_strlit("-");
    let a1 = hexadecimal(a.inode as nat);
    let a2 = hexadecimal((a.modified as u64) as nat);
    let a3 = hexadecimal(a.len as nat);
    let b1 = hexadecimal(b.inode as nat);
    let b2 = hexadecimal((b.modified as u64) as nat);
    let b3 = hexadecimal(b.len as nat);
    lemma_hex_chars(a.inode as nat);
    lemma_hex_chars((a.modified as u64) as nat);
    lemma_hex_chars(a.len as nat);
    lemma_hex_chars(b.inode as nat);
    lemma_hex_chars((b.modified as u64) as nat);
    lemma_hex_chars(b.len as nat);
    let quote = seq!['"'];
    let dash = seq!['-'];
    assert(etag_of(a).skip(1) =~= a1 + dash + (a2 + dash + (a3 + quote)));
    assert(etag_of(b).skip(1) =~= b1 + dash + (b2 + dash + (b3 + quote)));
    lemma_same_head(a1, a2 + dash + (a3 + quote), b1, b2 + dash + (b3 + quote), '-');
    lemma_same_head(a2, a3 + quote, b2, b3 + quote, '-');
    assert((a3 + quote).drop_last() =~= a3);
    assert((b3 + quote).drop_last() =~= b3);
    lemma_hex_is_injective(a.inode as nat, b.inode as nat);
    lemma_hex_is_injective((a.modified as u64) as nat, (b.modified as u64) as nat);
    lemma_hex_is_injective(a.len as nat, b.len as nat);
    let x = a.modified;
    let y = b.modified;
    assert(x as u64 == y as u64 ==> x == y) by (bit_vector);
}

/// The file of a stored ID lies in the storage directory itself.
pub proof fn resolved_names_stay_inside(store: StoreView, id: Seq<char>)
    ensures
        store.resolved(id) matches Some(name) ==> !name.contains('/') && file_name(name) == Some(
            name,
        ),
{
    if is_component(id) && store.extensions.dom().contains(id) && is_component(
        store.extensions[id],
    ) {
        stored_name_round_trip(id, store.extensions[id]);
    }
}

/// A stored file is never taken for a leftover.
pub proof fn stored_names_are_no_leftovers(id: Seq<char>, ext: Seq<char>)
    requires
        is_component(id),
    ensures
        !is_leftover(stored_name(id, ext)),
{
    reveal_strlit(".");
    let name = stored_name(id, ext);
    if begins_with(name, "."@) {
        lemma_component_chars(id);
        assert(name.take(1)[0] == name[0]);
        assert(id.contains(id[0]));
    }
}

/// What an interrupted write leaves behind is removed by the next scan.
pub proof fn interrupted_writes_leave_leftovers(id: Seq<char>, pid: u32, count: u64)
    ensures
        is_leftover(reserving_name(id)),
        is_leftover(temporary_name(id, pid, count)),
{
    reveal_strlit(".");
    let a = reserving_name(id);
    assert(a.take(1) =~= "."@);
    assert(a.skip(a.len() - ".reserve"@.len()) =~= ".reserve"@);
    let b = temporary_name(id, pid, count);
    assert(b.take(1) =~= "."@);
    assert(b.skip(b.len() - ".tmp"@.len()) =~= ".tmp"@);
}

/// Temporary files of one process have different names, and none is that of a reservation.
pub proof fn temporary_names_are_distinct(id: Seq<char>, pid: u32, a: u64, b: u64)
    requires
        a != b,
    ensures
        temporary_name(id, pid, a) != temporary_name(id, pid, b),
        temporary_name(id, pid, a) != reserving_name(id),
{
    reveal_strlit(".tmp");
    reveal_strlit(".reserve");
    let head = "."@ + id + "."@ + decimal(pid as nat) + "."@;
    let first = temporary_name(id, pid, a);
    let second = temporary_name(id, pid, b);
    if first == second {
        let n = decimal(a as nat).len() as int;
        assert(first.len() == head.len() + n + 4);
        assert(first.subrange(head.len() as int, head.len() + n) =~= decimal(a as nat));
        assert(second.subrange(head.len() as int, head.len() + n) =~= decimal(b as nat));
        lemma_decimal(a as nat);
        lemma_decimal(b as nat);
    }
    assert(first.last() == 'p');
    assert(reserving_name(id).last() == 'e');
}

/// A scan reads the ID and the extension of a stored file back from its name.
pub proof fn scan_recovers_stored_file(store: StoreView, id: Seq<char>, ext: Seq<char>)
    requires
        is_component(id),
        is_component(ext),
        !store.extensions.dom().contains(id),
    ensures
        scan_result(store, stored_name(id, ext), EntryKind::File) == Ok::<ScanAction, Seq<char>>(
            ScanAction::Recorded,
        ),
        scan_store(store, stored_name(id, ext), EntryKind::File) == (StoreView {
            extensions: store.extensions.insert(id, ext),
            ..store
        }),
{
    stored_names_are_no_leftovers(id, ext);
    lemma_component_chars(ext);
    lemma_dotted(id, ext);
}

/// A scan goes no further than the first entry that cannot stand there.
proof fn lemma_scan_stops(store: StoreView, entries: Seq<DirEntry>, index: int)
    requires
        0 <= index < entries.len(),
        scan_directory(store, entries.take(index + 1)).error is Some,
    ensures
        scan_directory(store, entries) == scan_directory(store, entries.take(index + 1)),
    decreases entries.len(),
{
    if index + 1 == entries.len() {
        assert(entries.take(index + 1) =~= entries);
    } else {
        let rest = entries.drop_last();
        assert(rest.take(index + 1) =~= entries.take(index + 1));
        lemma_scan_stops(store, rest, index);
    }
}

/// The store after a scan of the files of the given names, in that order.
pub open spec fn scan_all(store: StoreView, names: Seq<Seq<char>>) -> StoreView
    decreases names.len(),
{
    if names.len() == 0 {
        store
    } else {
        scan_store(scan_all(store, names.drop_last()), names.last(), EntryKind::File)
    }
}

/// The names of the files that hold `ids`.
pub open spec fn names_in(extensions: Map<Seq<char>, Seq<char>>, ids: Seq<Seq<char>>) -> Seq<
    Seq<char>,
> {
    Seq::new(ids.len(), |i: int| stored_name(ids[i], extensions[ids[i]]))
}

/// A restart rebuilds the index: a scan of the files of a store, in whatever order, gives every ID
/// its extension again.
pub proof fn restart_rebuilds_index(store: StoreView, ids: Seq<Seq<char>>, min_free: u64)
    requires
        store.valid(),
        forall|i: int|
            0 <= i < ids.len() ==> store.extensions.dom().contains(#[trigger] ids[i]),
    ensures
        ({
            let after = scan_all(empty_store(min_free), names_in(store.extensions, ids)).extensions;
            &&& forall|id: Seq<char>| #[trigger]
                after.dom().contains(id) <==> ids.contains(id)
            &&& forall|id: Seq<char>| #[trigger]
                after.dom().contains(id) ==> after[id] == store.extensions[id]
        }),
    decreases ids.len(),
{
    if ids.len() > 0 {
        let rest = ids.drop_last();
        restart_rebuilds_index(store, rest, min_free);
        let names = names_in(store.extensions, ids);
        let id = ids.last();
        let ext = store.extensions[id];
        assert(names.drop_last() =~= names_in(store.extensions, rest));
        assert(store.extensions.dom().contains(ids[ids.len() - 1]));
        stored_names_are_no_leftovers(id, ext);
        lemma_component_chars(ext);
        lemma_dotted(id, ext);
        assert(names.last() == stored_name(id, ext));
        let before = scan_all(empty_store(min_free), names.drop_last()).extensions;
        let after = scan_all(empty_store(min_free), names).extensions;
        assert(after == before.insert(id, ext));
        assert forall|x: Seq<char>| #[trigger] after.dom().contains(x) <==> ids.contains(x) by {
            if rest.contains(x) {
                let i = choose|i: int| 0 <= i < rest.len() && rest[i] == x;
                assert(ids[i] == x);
            }
            if ids.contains(x) && x != id {
                let i = choose|i: int| 0 <= i < ids.len() && ids[i] == x;
                assert(rest[i] == x);
            }
        }
    }
}

/// A scan keeps the index valid.
pub proof fn scan_keeps_store_valid(store: StoreView, name: Seq<char>, kind: EntryKind)
    requires
        store.valid(),
    ensures
        scan_store(store, name, kind).valid(),
{
}

/// A stored file is found under the name that its ID and its extension make, and the others where they
/// were; what is remembered of them stays.
pub proof fn stored_file_is_found(
    store: StoreView,
    id: Seq<char>,
    ext: Seq<char>,
    capability: Option<Seq<char>>,
    other: Seq<char>,
)
    requires
        is_component(id),
        is_component(ext),
        other != id,
    ensures
        ({
            let after = store.stored(id, ext, capability);
            &&& after.resolved(id) == Some(id + seq!['.'] + ext)
            &&& after.resolved(other) == store.resolved(other)
            &&& after.metadata == store.metadata
            &&& after.min_free == store.min_free
            &&& !after.refreshed(id).metadata.dom().contains(id)
            &&& after.refreshed(id).resolved(id) == after.resolved(id)
            &&& after.refreshed(id).metadata.dom().contains(other) == store.metadata.dom().contains(
                other,
            )
            &&& after.refreshed(id).metadata[other] == store.metadata[other]
            &&& after.refreshed(id).capabilities == after.capabilities
        }),
{
    reveal_strlit(".");
    assert(stored_name(id, ext) =~= id + seq!['.'] + ext);
}

/// A deletion leaves the other files where they were, and what is remembered of them.
pub proof fn deletion_is_of_one_file(store: StoreView, id: Seq<char>, other: Seq<char>)
    requires
        other != id,
    ensures
        ({
            let after = store.deleted(id);
            &&& after.resolved(id) is None
            &&& !after.metadata.dom().contains(id)
            &&& after.resolved(other) == store.resolved(other)
            &&& after.metadata.dom().contains(other) == store.metadata.dom().contains(other)
            &&& after.metadata[other] == store.metadata[other]
            &&& after.min_free == store.min_free
        }),
{
}

/// A renamed file is found under its new ID and no longer under the old one; what was remembered of
/// either is given up, and the other files are as they were.
pub proof fn rename_is_of_one_file(
    store: StoreView,
    old_id: Seq<char>,
    new_id: Seq<char>,
    ext: Seq<char>,
    other: Seq<char>,
)
    requires
        is_component(new_id),
        is_component(ext),
        other != old_id,
        other != new_id,
    ensures
        ({
            let after = store.renamed(old_id, new_id, ext);
            &&& after.resolved(new_id) == Some(new_id + seq!['.'] + ext)
            &&& old_id != new_id ==> after.resolved(old_id) is None
            &&& !after.metadata.dom().contains(old_id)
            &&& !after.metadata.dom().contains(new_id)
            &&& after.resolved(other) == store.resolved(other)
            &&& after.metadata.dom().contains(other) == store.metadata.dom().contains(other)
            &&& after.metadata[other] == store.metadata[other]
            &&& after.min_free == store.min_free
        }),
{
    reveal_strlit(".");
    assert(stored_name(new_id, ext) =~= new_id + seq!['.'] + ext);
}

/// An ETag stands in quotes, with none between them, and holds three hexadecimal numbers with dashes
/// between them.
pub proof fn etag_is_quoted(stat: FileStat, numbers: Seq<char>)
    requires
        numbers == hexadecimal(stat.inode as nat) + seq!['-'] + hexadecimal(
            (stat.modified as u64) as nat,
        ) + seq!['-'] + hexadecimal(stat.len as nat),
    ensures
        etag_of(stat) == seq!['"'] + numbers + seq!['"'],
        !numbers.contains('"'),
{
    reveal_strlit("\"");
    reveal_strlit("-");
    lemma_hex_chars(stat.inode as nat);
    lemma_hex_chars((stat.modified as u64) as nat);
    lemma_hex_chars(stat.len as nat);
    assert(etag_of(stat) =~= seq!['"'] + numbers + seq!['"']);
}

/// The leftovers of interrupted writes are the names that begin with a dot and end in `.reserve` or
/// `.tmp`.
pub proof fn leftovers_are_known_by_their_names(name: Seq<char>, middle: Seq<char>)
    ensures
        is_leftover(seq!['.'] + middle + ".reserve"@),
        is_leftover(seq!['.'] + middle + ".tmp"@),
        is_leftover(name) ==> name.len() > 0 && name[0] == '.' && ({
            ||| exists|head: Seq<char>| name == #[trigger] (head + ".reserve"@)
            ||| exists|head: Seq<char>| name == #[trigger] (head + ".tmp"@)
        }),
{
    reveal_strlit(".");
    let a = seq!['.'] + middle + ".reserve"@;
    assert(a.take(1) =~= "."@);
    assert(a.skip(a.len() - ".reserve"@.len()) =~= ".reserve"@);
    let b = seq!['.'] + middle + ".tmp"@;
    assert(b.take(1) =~= "."@);
    assert(b.skip(b.len() - ".tmp"@.len()) =~= ".tmp"@);
    if is_leftover(name) {
        assert(name.take(1)[0] == name[0]);
        if finishes_with(name, ".reserve"@) {
            let n = name.len() - ".reserve"@.len();
            assert(name =~= name.take(n) + ".reserve"@);
        } else {
            let n = name.len() - ".tmp"@.len();
            assert(name =~= name.take(n) + ".tmp"@);
        }
    }
}

/// Every ID has a reservation of its own.
pub proof fn reservations_tell_ids_apart(a: Seq<char>, b: Seq<char>)
    requires
        reserving_name(a) == reserving_name(b),
    ensures
        a == b,
{
    reveal_strlit(".");
    let n = ".reserve"@.len() as int;
    let x = reserving_name(a);
    let y = reserving_name(b);
    assert(x.subrange(1, x.len() - n) =~= a);
    assert(y.subrange(1, y.len() - n) =~= b);
}

/// A scan of the storage directory takes the entries one by one. A leftover file is to be removed, one
/// that is no file is passed over; a stored file enters the index, a name without a dot does not; a link,
/// a name that is not made of an ID and an extension, and an ID that is there already end the scan.
pub proof fn scan_goes_entry_by_entry(
    store: StoreView,
    entries: Seq<DirEntry>,
    entry: DirEntry,
    id: Seq<char>,
    ext: Seq<char>,
)
    requires
        is_component(id),
        is_component(ext),
    ensures
        ({
            let before = scan_directory(store, entries);
            let after = scan_directory(store, entries.push(entry));
            let name = entry.name@;
            &&& before.error is Some ==> after == before
            &&& before.error is None ==> {
                &&& is_leftover(name) ==> after.store == before.store && after.error is None
                    && after.stale == (if entry.kind == EntryKind::File {
                    before.stale.push(name)
                } else {
                    before.stale
                })
                &&& !is_leftover(name) ==> after.stale == before.stale
                &&& !is_leftover(name) && entry.kind != EntryKind::File ==> after.error is Some
                    && after.store == before.store
                &&& !is_leftover(name) && entry.kind == EntryKind::File && !name.contains('.') ==> after
                    == before
                &&& entry.kind == EntryKind::File && name == id + seq!['.'] + ext ==> {
                    &&& after.store.extensions == before.store.extensions.insert(id, ext)
                    &&& after.error is Some <==> before.store.extensions.dom().contains(id)
                }
                &&& after.store.metadata == before.store.metadata
                &&& after.store.capabilities == before.store.capabilities
                &&& after.store.min_free == before.store.min_free
            }
        }),
{
    reveal_strlit(".");
    let name = entry.name@;
    assert(entries.push(entry).drop_last() =~= entries);
    crate::text::lemma_find_last(name, '.');
    if name == id + seq!['.'] + ext {
        assert(stored_name(id, ext) =~= id + seq!['.'] + ext);
        stored_names_are_no_leftovers(id, ext);
        lemma_component_chars(ext);
        lemma_dotted(id, ext);
    }
}

/// A file whose name is not made of an ID and an extension ends the scan.
pub proof fn scan_refuses_other_names(store: StoreView, name: Seq<char>)
    requires
        name.contains('.'),
        !is_leftover(name),
        forall|id: Seq<char>, ext: Seq<char>|
            is_component(id) && is_component(ext) ==> name != #[trigger] stored_name(id, ext),
    ensures
        scan_result(store, name, EntryKind::File) is Err,
        scan_store(store, name, EntryKind::File) == store,
{
    reveal_strlit(".");
    crate::text::lemma_find_last(name, '.');
    let id = id_part(name);
    let ext = ext_part(name);
    assert(name =~= stored_name(id, ext));
}

} // verus!
