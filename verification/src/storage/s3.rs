//! S3-compatible backend. Objects are stored under `files/{id}.{ext}`.

use vstd::prelude::*;
use vstd::string::*;

use crate::error::{IoFailure, StorageError, Step};
use crate::handlers::headers::is_header_value;
use crate::storage::capability::{allowed, option_view, Capabilities};
use crate::storage::local_ops::DeletePlan;
use crate::storage::names::{
    component_char, is_component, lemma_component_chars, stored_name, valid_component,
};
use crate::storage::{FileData, FileMetadata, StorageMetrics};
use crate::text::{
    begins_with, chars_of, decimal, decimal_text, find_last, find_last_char, hex_text,
    hexadecimal, lemma_decimal, lemma_find, pieces, starts_with, text_of,
};

verus! {

/// The object key that `object_store::path::Path::from` makes of a text: empty segments are
/// dropped, and characters that are not safe in a key are percent-encoded.
pub uninterp spec fn object_path(text: Seq<char>) -> Seq<char>;

/// A character that stands for itself in an object key.
pub open spec fn key_char(c: char) -> bool {
    component_char(c) || c == '.'
}

/// A segment that stands for itself in an object key.
pub open spec fn plain_segment(s: Seq<char>) -> bool {
    &&& s.len() > 0
    &&& s != seq!['.']
    &&& s != seq!['.', '.']
    &&& forall|i: int| 0 <= i < s.len() ==> key_char(#[trigger] s[i])
}

/// A text that is an object key as it stands.
pub open spec fn plain_key(s: Seq<char>) -> bool {
    forall|i: int| 0 <= i < pieces(s, '/').len() ==> plain_segment(#[trigger] pieces(s, '/')[i])
}

/// `object_store::path::Path::from` and `Path::as_ref`: the key is a function of the text, and a
/// text of plain segments is its own key.
#[verifier::external_body]
fn key_of(text: &str) -> (r: String)
    ensures
        r@ == object_path(text@),
        plain_key(text@) ==> r@ == text@,
{
    object_store::path::Path::from(text).as_ref().to_owned()
}

/// The text of the key of the object that holds `id` under `ext`.
pub open spec fn object_text(id: Seq<char>, ext: Seq<char>) -> Seq<char> {
    "files/"@ + id + "."@ + ext
}

/// The text of the key of a temporary object.
pub open spec fn temp_text(id: Seq<char>, pid: u32, count: u64, ext: Seq<char>) -> Seq<char> {
    "files/."@ + id + "."@ + decimal(pid as nat) + "."@ + decimal(count as nat) + "."@ + ext
        + ".tmp"@
}

/// The text of the key of the object that reserves `id`.
pub open spec fn reservation_text(id: Seq<char>) -> Seq<char> {
    "files/.reservations/"@ + id
}

/// What the keys of objects that hold `id` begin with.
pub open spec fn prefix_text(id: Seq<char>) -> Seq<char> {
    "files/"@ + id + "."@
}

/// The extension in an object key: what follows the last dot, or all of it.
pub open spec fn key_extension(key: Seq<char>) -> Seq<char> {
    match find_last(key, '.') {
        Some(i) => key.skip(i + 1),
        None => key,
    }
}

/// An error of the object store.
#[derive(Debug, PartialEq, Eq)]
pub enum ObjectError {
    AlreadyExists(String),
    Precondition(String),
    Other(String),
}

impl ObjectError {
    pub open spec fn text(self) -> String {
        match self {
            ObjectError::AlreadyExists(e) => e,
            ObjectError::Precondition(e) => e,
            ObjectError::Other(e) => e,
        }
    }

    /// The message alone.
    pub fn into_text(self) -> (r: String)
        ensures
            r == self.text(),
    {
        match self {
            ObjectError::AlreadyExists(e) => e,
            ObjectError::Precondition(e) => e,
            ObjectError::Other(e) => e,
        }
    }
}

/// The storage error that an error of the object store is.
pub open spec fn object_failure(error: ObjectError) -> StorageError {
    match error {
        ObjectError::AlreadyExists(_) => StorageError::Conflict,
        ObjectError::Precondition(_) => StorageError::Conflict,
        ObjectError::Other(e) => StorageError::Io(IoFailure::Message(e)),
    }
}

/// The storage error that an error of the object store is: an object that is already there is a
/// conflict.
pub fn map_object_store_error(error: ObjectError) -> (r: StorageError)
    ensures
        r == object_failure(error),
{
    match error {
        ObjectError::AlreadyExists(_) => StorageError::Conflict,
        ObjectError::Precondition(_) => StorageError::Conflict,
        ObjectError::Other(e) => StorageError::Io(IoFailure::Message(e)),
    }
}

/// An object as a listing shows it.
#[derive(Debug, PartialEq, Eq)]
pub struct ObjectEntry {
    pub location: String,
    pub size: u64,
    pub etag: Option<String>,
}

/// What the lookup of an ID gave.
#[derive(Debug, PartialEq, Eq)]
pub enum Listed {
    Nothing,
    Failed(String),
    Object(ObjectEntry),
}

/// The object that a listing found.
pub open spec fn found(listed: Listed) -> Result<ObjectEntry, StorageError> {
    match listed {
        Listed::Nothing => Err(StorageError::NotFound),
        Listed::Failed(e) => Err(StorageError::Io(IoFailure::Failed(Step::S3List, e))),
        Listed::Object(entry) => Ok(entry),
    }
}

/// Whether the object at `key` holds `id`. An ID that cannot be stored has no object.
pub open spec fn holds_id(key: Seq<char>, id: Seq<char>) -> bool {
    is_component(id) && begins_with(key, prefix_text(id))
}

/// The first object in a listing that holds `id`.
pub open spec fn entry_of(id: Seq<char>, entries: Seq<ObjectEntry>) -> Option<ObjectEntry>
    decreases entries.len(),
{
    if entries.len() == 0 {
        None
    } else if holds_id(entries[0].location@, id) {
        Some(entries[0])
    } else {
        entry_of(id, entries.skip(1))
    }
}

/// What a listing of all files shows of `id`.
pub open spec fn looked_up(id: Seq<char>, listing: Result<Vec<ObjectEntry>, String>) -> Listed {
    match listing {
        Err(e) => Listed::Failed(e),
        Ok(entries) => match entry_of(id, entries@) {
            Some(entry) => Listed::Object(entry),
            None => Listed::Nothing,
        },
    }
}

/// The ETag that the store gave, or one made of the time in nanoseconds.
pub open spec fn etag_or_time(etag: Option<String>, nanos: u128) -> Seq<char> {
    match etag {
        Some(e) => e@,
        None => "\""@ + hexadecimal(nanos as nat) + "\""@,
    }
}

fn etag_or(etag: Option<String>, nanos: u128) -> (r: String)
    ensures
        r@ == etag_or_time(etag, nanos),
{
    match etag {
        Some(e) => e,
        None => "\"".to_owned().concat(hex_text(nanos).as_str()).concat("\""),
    }
}

/// The extension in an object key.
pub fn extension_of_key(key: &str) -> (r: String)
    ensures
        r@ == key_extension(key@),
{
    let v = chars_of(key);
    let n: usize = v.len();
    match find_last_char(&v, '.') {
        Some(i) => text_of(&v, i + 1, n),
        None => text_of(&v, 0, n),
    }
}

/// The object that a listing found.
pub fn listed_object(listed: Listed) -> (r: Result<ObjectEntry, StorageError>)
    ensures
        r == found(listed),
{
    match listed {
        Listed::Nothing => Err(StorageError::NotFound),
        Listed::Failed(e) => Err(StorageError::Io(IoFailure::Failed(Step::S3List, e))),
        Listed::Object(entry) => Ok(entry),
    }
}

/// Looks up the object that holds `id` in a listing of all files.
pub fn object_of(id: &str, listing: Result<Vec<ObjectEntry>, String>) -> (r: Listed)
    ensures
        r == looked_up(id@, listing),
{
    let mut entries = match listing {
        Ok(entries) => entries,
        Err(e) => return Listed::Failed(e),
    };
    if !valid_component(id) {
        proof {
            lemma_no_entry(id@, entries@);
        }
        return Listed::Nothing;
    }
    let prefix = "files/".to_owned().concat(id).concat(".");
    let mut i: usize = 0;
    assert(entries@.skip(0) =~= entries@);
    while i < entries.len()
        invariant
            i <= entries@.len(),
            prefix@ == prefix_text(id@),
            is_component(id@),
            listing == Ok::<Vec<ObjectEntry>, String>(entries),
            entry_of(id@, entries@) == entry_of(id@, entries@.skip(i as int)),
        decreases entries@.len() - i,
    {
        assert(entries@.skip(i as int)[0] == entries@[i as int]);
        if starts_with(entries[i].location.as_str(), prefix.as_str()) {
            return Listed::Object(entries.remove(i));
        }
        assert(entries@.skip(i as int).skip(1) =~= entries@.skip(i + 1));
        i = i + 1;
    }
    Listed::Nothing
}

proof fn lemma_no_entry(id: Seq<char>, entries: Seq<ObjectEntry>)
    requires
        !is_component(id),
    ensures
        entry_of(id, entries) is None,
    decreases entries.len(),
{
    if entries.len() > 0 {
        lemma_no_entry(id, entries.skip(1));
    }
}

/// S3-compatible backend: how its client is built.
#[derive(Debug, PartialEq, Eq)]
pub struct S3Backend {
    pub bucket: String,
    pub region: String,
    pub endpoint: Option<String>,
    pub access_key: String,
    pub secret_key: String,
    /// Whether the endpoint may be reached without encryption.
    pub allow_http: bool,
}

impl S3Backend {
    /// Settings of a client. An endpoint without encryption must be allowed expressly.
    pub fn new(
        bucket: &str,
        region: &str,
        endpoint: Option<&str>,
        access_key: &str,
        secret_key: &str,
        allow_http: bool,
    ) -> (r: Result<S3Backend, String>)
        ensures
            match r {
                Ok(s3) => {
                    &&& endpoint is Some ==> (begins_with(endpoint->0@, "http://"@) ==> allow_http)
                    &&& s3.bucket@ == bucket@
                    &&& s3.region@ == region@
                    &&& s3.access_key@ == access_key@
                    &&& s3.secret_key@ == secret_key@
                    &&& match endpoint {
                        Some(url) => s3.endpoint matches Some(e) && e@ == url@ && s3.allow_http
                            == allow_http,
                        None => s3.endpoint is None && !s3.allow_http,
                    }
                },
                Err(text) => {
                    &&& endpoint is Some
                    &&& begins_with(endpoint->0@, "http://"@)
                    &&& !allow_http
                    &&& text@ == "S3_ENDPOINT uses HTTP; set S3_ALLOW_HTTP=true to allow it"@
                },
            },
    {
        let (url, http) = match endpoint {
            Some(url) => {
                if starts_with(url, "http://") && !allow_http {
                    return Err(
                        "S3_ENDPOINT uses HTTP; set S3_ALLOW_HTTP=true to allow it".to_owned(),
                    );
                }
                (Some(url.to_owned()), allow_http)
            },
            None => (None, false),
        };
        Ok(
            S3Backend {
                bucket: bucket.to_owned(),
                region: region.to_owned(),
                endpoint: url,
                access_key: access_key.to_owned(),
                secret_key: secret_key.to_owned(),
                allow_http: http,
            },
        )
    }

    /// The message of a client that could not be built.
    pub fn build_failure(error: &str) -> (r: String)
        ensures
            r@ == "S3 client build failed: "@ + error@,
    {
        "S3 client build failed: ".to_owned().concat(error)
    }

    /// The key of the object that holds `id` under `ext`.
    pub fn object_key(id: &str, ext: &str) -> (r: String)
        ensures
            r@ == object_path(object_text(id@, ext@)),
            is_component(id@) && is_component(ext@) ==> r@ == object_text(id@, ext@),
    {
        let text = "files/".to_owned().concat(id).concat(".").concat(ext);
        proof {
            if is_component(id@) && is_component(ext@) {
                lemma_object_text(id@, ext@);
            }
        }
        key_of(text.as_str())
    }

    /// The key of a temporary object of the process `pid`.
    pub fn temp_key(id: &str, ext: &str, pid: u32, count: u64) -> (r: String)
        ensures
            r@ == object_path(temp_text(id@, pid, count, ext@)),
            is_component(id@) && is_component(ext@) ==> r@ == temp_text(id@, pid, count, ext@),
    {
        let text = "files/.".to_owned().concat(id).concat(".").concat(
            decimal_text(pid as u64).as_str(),
        ).concat(".").concat(decimal_text(count).as_str()).concat(".").concat(ext).concat(".tmp");
        proof {
            if is_component(id@) && is_component(ext@) {
                lemma_temp_text(id@, pid, count, ext@);
            }
        }
        key_of(text.as_str())
    }

    /// The key of the object that reserves `id`.
    pub fn reservation_key(id: &str) -> (r: String)
        ensures
            r@ == object_path(reservation_text(id@)),
            is_component(id@) ==> r@ == reservation_text(id@),
    {
        let text = "files/.reservations/".to_owned().concat(id);
        proof {
            if is_component(id@) {
                lemma_reservation_text(id@);
            }
        }
        key_of(text.as_str())
    }

    /// The prefix under which all files are listed. A listing by prefix goes by whole segments of
    /// keys, so the object of one ID is looked up among them.
    pub fn list_prefix() -> (r: String)
        ensures
            r@ == "files"@,
    {
        proof {
            lemma_files();
        }
        key_of("files")
    }

    /// Get only metadata from what a listing gave. `nanos` is the time in nanoseconds.
    pub fn stat(listed: Listed, nanos: u128) -> (r: Result<FileMetadata, StorageError>)
        ensures
            match found(listed) {
                Err(e) => r == Err::<FileMetadata, StorageError>(e),
                Ok(entry) => r matches Ok(meta) && meta@ == (
                    entry.size,
                    etag_or_time(entry.etag, nanos),
                    key_extension(entry.location@),
                ),
            },
    {
        match listed_object(listed) {
            Err(e) => Err(e),
            Ok(entry) => {
                let extension = extension_of_key(entry.location.as_str());
                Ok(FileMetadata { size: entry.size, etag: etag_or(entry.etag, nanos), extension })
            },
        }
    }

    /// The contents of the object at `location`, of which the store told the size and the ETag.
    pub fn get(
        location: &str,
        got: Result<(u64, Option<String>), String>,
        data: Result<Vec<u8>, String>,
        nanos: u128,
    ) -> (r: Result<FileData, StorageError>)
        ensures
            match (got, data) {
                (Err(e), _) => r == Err::<FileData, StorageError>(
                    StorageError::Io(IoFailure::Failed(Step::S3Get, e)),
                ),
                (Ok(_), Err(e)) => r == Err::<FileData, StorageError>(
                    StorageError::Io(IoFailure::Failed(Step::S3Read, e)),
                ),
                (Ok((size, etag)), Ok(data)) => r matches Ok(file) && file.data == data
                    && file.meta@ == (size, etag_or_time(etag, nanos), key_extension(location@)),
            },
    {
        let (size, etag) = match got {
            Ok(x) => x,
            Err(e) => return Err(StorageError::Io(IoFailure::Failed(Step::S3Get, e))),
        };
        let data = match data {
            Ok(data) => data,
            Err(e) => return Err(StorageError::Io(IoFailure::Failed(Step::S3Read, e))),
        };
        let meta = FileMetadata {
            size,
            etag: etag_or(etag, nanos),
            extension: extension_of_key(location),
        };
        Ok(FileData { data, meta })
    }

    /// The bytes from `start` to `end`, both included, as an offset and the offset behind the
    /// last byte.
    pub fn range_bounds(start: u64, end: u64) -> (r: (u64, u64))
        requires
            end < u64::MAX,
        ensures
            r == (start, (end + 1) as u64),
    {
        (start, end + 1)
    }

    /// The object that is to be deleted, where a listing found one.
    pub fn delete(listed: Listed) -> (r: Option<String>)
        ensures
            r == (match listed {
                Listed::Object(entry) => Some(entry.location),
                _ => None,
            }),
    {
        match listed {
            Listed::Object(entry) => Some(entry.location),
            _ => None,
        }
    }

    /// What a deletion of an object tells.
    pub fn delete_done(outcome: Result<(), String>) -> (r: Result<bool, StorageError>)
        ensures
            r == (match outcome {
                Ok(_) => Ok::<bool, StorageError>(true),
                Err(e) => Err(StorageError::Io(IoFailure::Failed(Step::S3Delete, e))),
            }),
    {
        match outcome {
            Ok(_) => Ok(true),
            Err(e) => Err(StorageError::Io(IoFailure::Failed(Step::S3Delete, e))),
        }
    }

    /// What is to be done to delete `id`, of which `listed` is the lookup. A capability must be
    /// that of the file.
    pub fn delete_allowed(
        capabilities: &Capabilities,
        id: &str,
        listed: Listed,
        capability: Option<&str>,
    ) -> (r: DeletePlan)
        ensures
            r == (match listed {
                Listed::Object(entry) => if allowed(
                    capabilities@,
                    id@,
                    option_view(capability),
                ) {
                    DeletePlan::Remove(entry.location)
                } else {
                    DeletePlan::Forbidden
                },
                _ => DeletePlan::Absent,
            }),
    {
        match Self::delete(listed) {
            None => DeletePlan::Absent,
            Some(location) => if capabilities.allows(id, capability) {
                DeletePlan::Remove(location)
            } else {
                DeletePlan::Forbidden
            },
        }
    }

    /// Takes note of what came of deleting the object of `id`: a file that is gone has no
    /// capability.
    pub fn delete_settled(
        capabilities: &mut Capabilities,
        id: &str,
        outcome: Result<(), String>,
    ) -> (r: Result<bool, StorageError>)
        ensures
            r == (match outcome {
                Ok(_) => Ok::<bool, StorageError>(true),
                Err(e) => Err(StorageError::Io(IoFailure::Failed(Step::S3Delete, e))),
            }),
            final(capabilities)@ == (if outcome is Ok {
                old(capabilities)@.remove(id@)
            } else {
                old(capabilities)@
            }),
    {
        match &outcome {
            Ok(_) => capabilities.forget(id),
            Err(_) => {},
        }
        Self::delete_done(outcome)
    }

    /// Get storage capacity metrics: an object store tells no capacity and never runs out of it.
    pub fn storage_metrics(min_free_bytes: u64) -> (r: StorageMetrics)
        ensures
            r.total_bytes == 0,
            r.used_bytes == 0,
            r.free_bytes == u64::MAX,
            r.min_free_bytes == min_free_bytes,
            !r.out_of_space,
    {
        StorageMetrics {
            total_bytes: 0,
            used_bytes: 0,
            free_bytes: u64::MAX,
            min_free_bytes,
            out_of_space: false,
        }
    }
}

/// A text without `c` is one piece.
proof fn lemma_one_piece(s: Seq<char>, c: char)
    requires
        !s.contains(c),
    ensures
        pieces(s, c) == seq![s],
{
    lemma_find(s, c);
}

/// A first piece without `c`, then `c`, then the rest.
proof fn lemma_first_piece(a: Seq<char>, b: Seq<char>, c: char)
    requires
        !a.contains(c),
    ensures
        pieces(a + seq![c] + b, c) == seq![a] + pieces(b, c),
{
    let s = a + seq![c] + b;
    lemma_find(s, c);
    assert(s[a.len() as int] == c);
    assert(s.contains(s[a.len() as int]));
    let k = crate::text::find(s, c).unwrap();
    if k < a.len() {
        assert(a[k] == c);
        assert(a.contains(a[k]));
    }
    assert(s.take(k) =~= a);
    assert(s.skip(k + 1) =~= b);
}

/// A text under `files/` whose last segment is plain is a plain key.
proof fn lemma_plain(name: Seq<char>)
    requires
        plain_segment(name),
    ensures
        plain_key("files/"@ + name),
{
    reveal_strlit("files/");
    let files = seq!['f', 'i', 'l', 'e', 's'];
    assert("files/"@ + name =~= files + seq!['/'] + name);
    assert(!name.contains('/')) by {
        if name.contains('/') {
            let i = choose|i: int| 0 <= i < name.len() && name[i] == '/';
            assert(key_char(name[i]));
        }
    }
    lemma_first_piece(files, name, '/');
    lemma_one_piece(name, '/');
    assert(plain_segment(files));
    let all = pieces("files/"@ + name, '/');
    assert(all =~= seq![files, name]);
    assert forall|i: int| 0 <= i < all.len() implies plain_segment(#[trigger] all[i]) by {
        assert(i == 0 || i == 1);
    }
}

spec fn key_chars(s: Seq<char>) -> bool {
    forall|i: int| 0 <= i < s.len() ==> key_char(#[trigger] s[i])
}

proof fn lemma_key_chars_join(a: Seq<char>, b: Seq<char>)
    requires
        key_chars(a),
        key_chars(b),
    ensures
        key_chars(a + b),
{
}

proof fn lemma_component_key_chars(s: Seq<char>)
    requires
        is_component(s),
    ensures
        key_chars(s),
{
    assert forall|i: int| 0 <= i < s.len() implies key_char(#[trigger] s[i]) by {
        assert(component_char(s[i]));
    }
}

proof fn lemma_decimal_key_chars(n: nat)
    ensures
        key_chars(decimal(n)),
{
    lemma_decimal(n);
    assert forall|i: int| 0 <= i < decimal(n).len() implies key_char(#[trigger] decimal(n)[i]) by {
        assert(crate::text::is_digit(decimal(n)[i]));
    }
}

proof fn lemma_files()
    ensures
        plain_key("files"@),
{
    reveal_strlit("files");
    lemma_one_piece("files"@, '/');
    let all = pieces("files"@, '/');
    assert forall|i: int| 0 <= i < all.len() implies plain_segment(#[trigger] all[i]) by {
        assert(all[i] == "files"@);
        assert forall|k: int| 0 <= k < all[i].len() implies key_char(#[trigger] all[i][k]) by {
            assert(k == 0 || k == 1 || k == 2 || k == 3 || k == 4);
        }
    }
}

proof fn lemma_object_text(id: Seq<char>, ext: Seq<char>)
    requires
        is_component(id),
        is_component(ext),
    ensures
        plain_key(object_text(id, ext)),
        object_text(id, ext) == "files/"@ + stored_name(id, ext),
{
    reveal_strlit(".");
    lemma_component_key_chars(id);
    lemma_component_key_chars(ext);
    lemma_component_chars(id);
    let name = id + "."@ + ext;
    assert(key_chars("."@));
    lemma_key_chars_join(id, "."@);
    lemma_key_chars_join(id + "."@, ext);
    assert(name[0] == id[0]);
    assert(id.contains(id[0]));
    lemma_plain(name);
    assert(object_text(id, ext) =~= "files/"@ + name);
    assert(name =~= stored_name(id, ext));
}

proof fn lemma_temp_text(id: Seq<char>, pid: u32, count: u64, ext: Seq<char>)
    requires
        is_component(id),
        is_component(ext),
    ensures
        plain_key(temp_text(id, pid, count, ext)),
{
    reveal_strlit(".");
    reveal_strlit(".tmp");
    reveal_strlit("files/");
    reveal_strlit("files/.");
    lemma_component_key_chars(id);
    lemma_component_key_chars(ext);
    lemma_decimal_key_chars(pid as nat);
    lemma_decimal_key_chars(count as nat);
    assert(key_chars("."@));
    assert(key_chars(".tmp"@));
    let a = "."@ + id + "."@ + decimal(pid as nat) + "."@ + decimal(count as nat) + "."@ + ext
        + ".tmp"@;
    lemma_key_chars_join("."@, id);
    lemma_key_chars_join("."@ + id, "."@);
    lemma_key_chars_join("."@ + id + "."@, decimal(pid as nat));
    lemma_key_chars_join("."@ + id + "."@ + decimal(pid as nat), "."@);
    lemma_key_chars_join("."@ + id + "."@ + decimal(pid as nat) + "."@, decimal(count as nat));
    lemma_key_chars_join(
        "."@ + id + "."@ + decimal(pid as nat) + "."@ + decimal(count as nat),
        "."@,
    );
    lemma_key_chars_join(
        "."@ + id + "."@ + decimal(pid as nat) + "."@ + decimal(count as nat) + "."@,
        ext,
    );
    lemma_key_chars_join(
        "."@ + id + "."@ + decimal(pid as nat) + "."@ + decimal(count as nat) + "."@ + ext,
        ".tmp"@,
    );
    assert(a.len() > 4);
    lemma_plain(a);
    assert("files/."@ =~= "files/"@ + "."@);
    assert(temp_text(id, pid, count, ext) =~= "files/"@ + a);
}

proof fn lemma_reservation_text(id: Seq<char>)
    requires
        is_component(id),
    ensures
        plain_key(reservation_text(id)),
{
    reveal_strlit("files/.reservations/");
    let files = seq!['f', 'i', 'l', 'e', 's'];
    let middle = seq!['.', 'r', 'e', 's', 'e', 'r', 'v', 'a', 't', 'i', 'o', 'n', 's'];
    lemma_component_key_chars(id);
    lemma_component_chars(id);
    let rest = middle + seq!['/'] + id;
    assert(reservation_text(id) =~= files + seq!['/'] + rest);
    lemma_first_piece(files, rest, '/');
    lemma_first_piece(middle, id, '/');
    lemma_one_piece(id, '/');
    assert(plain_segment(files));
    assert(plain_segment(middle));
    assert(plain_segment(id)) by {
        assert(id.contains(id[0]));
    }
    let all = pieces(reservation_text(id), '/');
    assert(all =~= seq![files, middle, id]);
    assert forall|i: int| 0 <= i < all.len() implies plain_segment(#[trigger] all[i]) by {
        assert(i == 0 || i == 1 || i == 2);
    }
}

/// An object key gives back the extension that it was made of, and holds the ID.
pub proof fn object_key_round_trip(id: Seq<char>, ext: Seq<char>)
    requires
        is_component(id),
        is_component(ext),
    ensures
        plain_key(object_text(id, ext)),
        key_extension(object_text(id, ext)) == ext,
        holds_id(object_text(id, ext), id),
{
    lemma_object_text(id, ext);
    lemma_component_chars(ext);
    reveal_strlit(".");
    let head = "files/"@ + id;
    assert(object_text(id, ext) =~= stored_name(head, ext));
    crate::storage::names::lemma_dotted(head, ext);
    assert(object_text(id, ext).take(prefix_text(id).len() as int) =~= prefix_text(id));
}

/// The ETag that stands for one that the store did not give can be sent in a header.
pub proof fn made_etags_can_be_sent(nanos: u128)
    ensures
        is_header_value(etag_or_time(None, nanos)),
{
    reveal_strlit("\"");
    crate::storage::local::lemma_hex_can_be_sent(nanos as nat);
}

/// No object holds two IDs.
pub proof fn object_holds_one_id(key: Seq<char>, id1: Seq<char>, id2: Seq<char>)
    requires
        holds_id(key, id1),
        holds_id(key, id2),
    ensures
        id1 == id2,
{
    reveal_strlit("files/");
    reveal_strlit(".");
    lemma_component_chars(id1);
    lemma_component_chars(id2);
    let a = prefix_text(id1);
    let b = prefix_text(id2);
    assert(a[6 + id1.len() as int] == '.');
    assert(b[6 + id2.len() as int] == '.');
    assert forall|i: int| 0 <= i < a.len() implies key[i] == a[i] by {
        assert(key.take(a.len() as int)[i] == a[i]);
    }
    assert forall|i: int| 0 <= i < b.len() implies key[i] == b[i] by {
        assert(key.take(b.len() as int)[i] == b[i]);
    }
    if id1.len() < id2.len() {
        assert(b[6 + id1.len() as int] == id2[id1.len() as int]);
        assert(id2.contains(id2[id1.len() as int]));
    } else if id2.len() < id1.len() {
        assert(a[6 + id2.len() as int] == id1[id2.len() as int]);
        assert(id1.contains(id1[id2.len() as int]));
    } else {
        assert forall|i: int| 0 <= i < id1.len() implies id1[i] == id2[i] by {
            assert(a[6 + i] == id1[i]);
            assert(b[6 + i] == id2[i]);
        }
        assert(id1 =~= id2);
    }
}

/// Files with different IDs or extensions are stored under different keys.
pub proof fn object_keys_are_distinct(
    id1: Seq<char>,
    ext1: Seq<char>,
    id2: Seq<char>,
    ext2: Seq<char>,
)
    requires
        is_component(id1),
        is_component(ext1),
        is_component(id2),
        is_component(ext2),
        object_text(id1, ext1) == object_text(id2, ext2),
    ensures
        id1 == id2,
        ext1 == ext2,
{
    lemma_object_text(id1, ext1);
    lemma_object_text(id2, ext2);
    let n = "files/"@.len() as int;
    assert(object_text(id1, ext1).skip(n) =~= stored_name(id1, ext1));
    assert(object_text(id2, ext2).skip(n) =~= stored_name(id2, ext2));
    crate::storage::names::stored_names_are_distinct(id1, ext1, id2, ext2);
}

/// The extension in a key is what follows its last dot; a key without a dot is its own extension.
pub proof fn key_extension_follows_the_last_dot(head: Seq<char>, ext: Seq<char>)
    requires
        !ext.contains('.'),
    ensures
        key_extension(head + seq!['.'] + ext) == ext,
        key_extension(ext) == ext,
{
    let key = head + seq!['.'] + ext;
    crate::text::lemma_find_last(key, '.');
    crate::text::lemma_find_last(ext, '.');
    assert(key[head.len() as int] == '.');
    assert(key.contains(key[head.len() as int]));
    let i = find_last(key, '.').unwrap();
    if i > head.len() {
        assert(ext[i - head.len() - 1] == '.');
        assert(ext.contains(ext[i - head.len() - 1]));
    }
    if i < head.len() {
        assert(key[head.len() as int] != '.');
    }
    assert(key.skip(i + 1) =~= ext);
    if find_last(ext, '.') is Some {
        assert(ext.contains(ext[find_last(ext, '.').unwrap()]));
    }
}

/// An object holds an ID exactly where its key is `files/`, the ID, a dot and whatever follows, and the
/// ID is one that can be stored.
pub proof fn object_is_known_by_its_key(key: Seq<char>, id: Seq<char>, rest: Seq<char>)
    ensures
        is_component(id) ==> holds_id("files/"@ + id + seq!['.'] + rest, id),
        holds_id(key, id) ==> is_component(id) && exists|tail: Seq<char>|
            key == #[trigger] ("files/"@ + id + seq!['.'] + tail),
{
    reveal_strlit(".");
    let prefix = "files/"@ + id + seq!['.'];
    assert(prefix_text(id) =~= prefix);
    assert((prefix + rest).take(prefix.len() as int) =~= prefix);
    if holds_id(key, id) {
        assert(key =~= prefix + key.skip(prefix.len() as int));
    }
}

/// A lookup gives the first object of a listing that holds the ID, and nothing where none does.
pub proof fn first_object_of_an_id_is_found(
    id: Seq<char>,
    before: Seq<ObjectEntry>,
    entry: ObjectEntry,
    after: Seq<ObjectEntry>,
)
    requires
        forall|i: int| 0 <= i < before.len() ==> !holds_id((#[trigger] before[i]).location@, id),
    ensures
        entry_of(id, before) is None,
        holds_id(entry.location@, id) ==> entry_of(id, before.push(entry) + after) == Some(entry),
    decreases before.len(),
{
    let all = before.push(entry) + after;
    if before.len() == 0 {
        assert(all[0] == entry);
    } else {
        assert(!holds_id(before[0].location@, id));
        assert(all[0] == before[0]);
        let rest = before.skip(1);
        assert forall|i: int| 0 <= i < rest.len() implies !holds_id(
            (#[trigger] rest[i]).location@,
            id,
        ) by {
            assert(rest[i] == before[i + 1]);
        }
        first_object_of_an_id_is_found(id, rest, entry, after);
        assert(all.skip(1) =~= rest.push(entry) + after);
    }
}

/// A listing that failed is an error with its message, one that shows nothing tells that the file is
/// missing, and only one that shows an object gives it.
pub proof fn listings_are_told(listed: Listed, listing: Result<Vec<ObjectEntry>, String>, id: Seq<char>)
    ensures
        found(listed) == Err::<ObjectEntry, StorageError>(StorageError::NotFound) <==> listed
            is Nothing,
        listed matches Listed::Failed(e) ==> found(listed) == Err::<ObjectEntry, StorageError>(
            StorageError::Io(IoFailure::Failed(Step::S3List, e)),
        ),
        found(listed) matches Ok(entry) ==> listed == Listed::Object(entry),
        listed is Object ==> found(listed) is Ok,
        listing matches Err(e) ==> looked_up(id, listing) == Listed::Failed(e),
        listing is Ok ==> !(looked_up(id, listing) is Failed),
        looked_up(id, listing) matches Listed::Object(entry) ==> (listing matches Ok(entries)
            && entry_of(id, entries@) == Some(entry)),
        (listing matches Ok(entries) && entry_of(id, entries@) is Some) ==> looked_up(id, listing)
            is Object,
{
}

/// An object that is already there is a conflict; any other error is told with its message.
pub proof fn object_errors_are_sorted(error: ObjectError)
    ensures
        object_failure(error) == StorageError::Conflict <==> error is AlreadyExists || error
            is Precondition,
        error matches ObjectError::Other(e) ==> object_failure(error) == StorageError::Io(
            IoFailure::Message(e),
        ),
        error matches ObjectError::Other(e) ==> error.text() == e,
        error matches ObjectError::AlreadyExists(e) ==> error.text() == e,
        error matches ObjectError::Precondition(e) ==> error.text() == e,
{
}

/// An ETag that the store gave is taken as it is; one that is made stands in quotes, and tells times apart.
pub proof fn given_etag_is_kept(etag: String, a: u128, b: u128)
    ensures
        etag_or_time(Some(etag), a) == etag@,
        etag_or_time(None, a) == seq!['"'] + hexadecimal(a as nat) + seq!['"'],
        etag_or_time(None, a) == etag_or_time(None, b) ==> a == b,
{
    reveal_strlit("\"");
    let x = etag_or_time(None, a);
    let y = etag_or_time(None, b);
    assert(x =~= seq!['"'] + hexadecimal(a as nat) + seq!['"']);
    assert(x.subrange(1, x.len() - 1) =~= hexadecimal(a as nat));
    assert(y.subrange(1, y.len() - 1) =~= hexadecimal(b as nat));
    if x == y {
        crate::storage::local::lemma_hex_is_injective(a as nat, b as nat);
    }
}

/// Every ID has a reservation of its own, and every temporary object of a process a key of its own;
/// neither of them is taken for a stored file.
pub proof fn working_objects_stay_apart(
    a: Seq<char>,
    b: Seq<char>,
    ext: Seq<char>,
    pid: u32,
    m: u64,
    n: u64,
)
    requires
        is_component(b),
    ensures
        reservation_text(a) == reservation_text(b) ==> a == b,
        temp_text(a, pid, m, ext) == temp_text(a, pid, n, ext) ==> m == n,
        !holds_id(reservation_text(a), b),
        !holds_id(temp_text(a, pid, m, ext), b),
{
    reveal_strlit("files/");
    reveal_strlit("files/.");
    reveal_strlit("files/.reservations/");
    reveal_strlit(".");
    reveal_strlit(".tmp");
    lemma_component_chars(b);
    assert(b.contains(b[0]));
    let prefix = prefix_text(b);
    assert(prefix[6] == b[0]);
    let x = reservation_text(a);
    let y = reservation_text(b);
    assert(x.skip(20) =~= a);
    assert(y.skip(20) =~= b);
    let s = temp_text(a, pid, m, ext);
    let t = temp_text(a, pid, n, ext);
    assert(x[6] == '.');
    assert(s[6] == '.');
    if holds_id(x, b) {
        assert(x.take(prefix.len() as int)[6] == x[6]);
    }
    if holds_id(s, b) {
        assert(s.take(prefix.len() as int)[6] == s[6]);
    }
    if s == t {
        let head = "files/."@ + a + "."@ + decimal(pid as nat) + "."@;
        let k = decimal(m as nat).len() as int;
        let l = decimal(n as nat).len() as int;
        assert(s.len() == head.len() + k + 1 + ext.len() + 4);
        assert(t.len() == head.len() + l + 1 + ext.len() + 4);
        assert(s.subrange(head.len() as int, head.len() + k) =~= decimal(m as nat));
        assert(t.subrange(head.len() as int, head.len() + k) =~= decimal(n as nat));
        crate::text::decimals_tell_numbers_apart(m as nat, n as nat);
    }
}

} // verus!
