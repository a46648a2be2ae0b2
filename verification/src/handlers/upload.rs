//! Storing files.

use vstd::prelude::*;
use vstd::string::*;

use crate::error::{BlockReason, IoFailure, JuicehostError, StorageError, Step};
use crate::handlers::auth::{carried_capability, optional_file_capability};
use crate::handlers::headers::{has_header, header_text, Headers};
use crate::handlers::json::{JsonObject, JsonValue, JsonValueView};
use crate::handlers::reply::{json_reply, Reply, ReplyBodyView, ReplyView};
use crate::storage::content::{detect_extension, signature_of};
use crate::storage::names::{content_filename, is_id, is_valid_id, named_by_content};
use crate::text::{decimal, decimal_round_trip, parse_unsigned, same, text_view, unsigned};
use crate::ticket::{signed_ticket_claims, ticket_claims};

verus! {

/// Bytes of an upload that are looked at before it is stored.
pub const SNIFF_BYTES: usize = 512;

/// What a check of the name and the first bytes of a file says.
#[derive(Debug, PartialEq, Eq)]
pub enum FileValidation {
    Allowed,
    /// The extension or the contents are not allowed, for the given reason.
    Blocked(String),
    Empty,
}

/// Whether an upload is allowed.
pub open spec fn validated(validation: FileValidation) -> Result<(), JuicehostError> {
    match validation {
        FileValidation::Allowed => Ok(()),
        FileValidation::Blocked(reason) => Err(
            JuicehostError::BlockedFileType(BlockReason::Kind(reason)),
        ),
        FileValidation::Empty => Err(JuicehostError::BlockedFileType(BlockReason::Empty)),
    }
}

/// Rejects an upload whose file type is not allowed.
pub fn validate_or_block(validation: FileValidation) -> (r: Result<(), JuicehostError>)
    ensures
        r == validated(validation),
        r is Ok <==> validation is Allowed,
        validation matches FileValidation::Blocked(reason) ==> r == Err::<(), JuicehostError>(
            JuicehostError::BlockedFileType(BlockReason::Kind(reason)),
        ),
        validation is Empty ==> r == Err::<(), JuicehostError>(
            JuicehostError::BlockedFileType(BlockReason::Empty),
        ),
{
    match validation {
        FileValidation::Allowed => Ok(()),
        FileValidation::Blocked(reason) => Err(
            JuicehostError::BlockedFileType(BlockReason::Kind(reason)),
        ),
        FileValidation::Empty => Err(JuicehostError::BlockedFileType(BlockReason::Empty)),
    }
}

/// The name that an upload is stored under, by its name and its first bytes.
pub fn storage_filename(filename: &str, data: &Vec<u8>) -> (r: String)
    ensures
        r@ == named_by_content(filename@, signature_of(data@)),
{
    match detect_extension(data) {
        Some(ext) => content_filename(filename, Some(ext.as_str())),
        None => content_filename(filename, None),
    }
}

/// The reply to an upload that was stored.
pub open spec fn stored_reply(id: Seq<char>) -> ReplyView {
    json_reply(
        seq![("status"@, JsonValueView::Text("ok"@)), ("id"@, JsonValueView::Text(id))],
    )
}

/// The reply to an upload that was stored.
pub fn stored(id: &str) -> (r: Reply)
    ensures
        r@ == stored_reply(id@),
        r@.status == 200,
        r@.headers.len() == 0,
        r@.body == ReplyBodyView::Json(
            seq![("status"@, JsonValueView::Text("ok"@)), ("id"@, JsonValueView::Text(id@))],
        ),
{
    let object = JsonObject::new().with("status", JsonValue::Text("ok".to_owned())).with(
        "id",
        JsonValue::Text(id.to_owned()),
    );
    assert(object@ =~= seq![
        ("status"@, JsonValueView::Text("ok"@)),
        ("id"@, JsonValueView::Text(id@)),
    ]);
    Reply::json(object)
}

/// The fields of an upload form.
#[derive(Debug, Clone, Copy, PartialEq, Eq, Structural)]
pub enum FieldKind {
    Id,
    Filename,
    File,
    Other,
}

/// The field of that name.
pub open spec fn kind_of_field(name: Seq<char>) -> FieldKind {
    if name == "id"@ {
        FieldKind::Id
    } else if name == "filename"@ {
        FieldKind::Filename
    } else if name == "file"@ {
        FieldKind::File
    } else {
        FieldKind::Other
    }
}

/// The field of that name.
pub fn field_kind(name: &str) -> (r: FieldKind)
    ensures
        r == kind_of_field(name@),
        r is Id <==> name@ == "id"@,
        r is Filename <==> name@ == "filename"@,
        r is File <==> name@ == "file"@,
{
    proof {
        reveal_strlit("id");
        reveal_strlit("filename");
        reveal_strlit("file");
        assert("id"@.len() == 2 && "filename"@.len() == 8 && "file"@.len() == 4);
    }
    if same(name, "id") {
        FieldKind::Id
    } else if same(name, "filename") {
        FieldKind::Filename
    } else if same(name, "file") {
        FieldKind::File
    } else {
        FieldKind::Other
    }
}

/// What was read of a form.
#[derive(Debug, PartialEq, Eq)]
pub enum FieldRead {
    Id(String),
    Filename(String),
    File(Vec<u8>),
    /// A field that is not looked at.
    Other,
    /// The form, or a field that is looked at, could not be read.
    Unreadable,
}

/// An upload form as far as it was read.
#[derive(Debug, PartialEq, Eq)]
pub struct Form {
    pub id: String,
    pub filename: String,
    pub data: Option<Vec<u8>>,
}

/// The error that what was read of a form ends the upload with.
pub open spec fn field_error(read: FieldRead, max: u64) -> Option<JuicehostError> {
    match read {
        FieldRead::Unreadable => Some(JuicehostError::BadRequest),
        FieldRead::File(data) => if data@.len() > max {
            Some(JuicehostError::PayloadTooLarge)
        } else {
            None
        },
        _ => None,
    }
}

impl Form {
    /// A form of which nothing was read.
    pub fn new() -> (r: Form)
        ensures
            r.id@ == ""@,
            r.filename@ == ""@,
            r.data is None,
    {
        Form { id: "".to_owned(), filename: "".to_owned(), data: None }
    }

    /// Takes what was read of the form. A file may have at most `max` bytes.
    pub fn take(self, read: FieldRead, max: u64) -> (r: Result<Form, JuicehostError>)
        ensures
            match field_error(read, max) {
                Some(e) => r == Err::<Form, JuicehostError>(e),
                None => r == Ok::<Form, JuicehostError>(
                    match read {
                        FieldRead::Id(id) => Form { id, ..self },
                        FieldRead::Filename(filename) => Form { filename, ..self },
                        FieldRead::File(data) => Form { data: Some(data), ..self },
                        _ => self,
                    },
                ),
            },
            r is Err <==> (read is Unreadable || (read matches FieldRead::File(data) && data@.len()
                > max)),
            read is Unreadable ==> r == Err::<Form, JuicehostError>(JuicehostError::BadRequest),
            r is Err && !(read is Unreadable) ==> r == Err::<Form, JuicehostError>(
                JuicehostError::PayloadTooLarge,
            ),
    {
        match read {
            FieldRead::Id(id) => Ok(Form { id, filename: self.filename, data: self.data }),
            FieldRead::Filename(filename) => Ok(Form { id: self.id, filename, data: self.data }),
            FieldRead::File(data) => if data.len() as u64 > max {
                Err(JuicehostError::PayloadTooLarge)
            } else {
                Ok(Form { id: self.id, filename: self.filename, data: Some(data) })
            },
            FieldRead::Other => Ok(self),
            FieldRead::Unreadable => Err(JuicehostError::BadRequest),
        }
    }

    /// The ID, the name and the contents of a complete form.
    pub fn complete(self) -> (r: Result<(String, String, Vec<u8>), JuicehostError>)
        ensures
            r == (if self.data is Some && is_id(self.id@) && self.filename@.len() > 0 {
                Ok::<(String, String, Vec<u8>), JuicehostError>(
                    (self.id, self.filename, self.data->0),
                )
            } else {
                Err(JuicehostError::BadRequest)
            }),
    {
        let data = match self.data {
            Some(data) => data,
            None => return Err(JuicehostError::BadRequest),
        };
        if !is_valid_id(self.id.as_str()) || self.filename.as_str().unicode_len() == 0 {
            return Err(JuicehostError::BadRequest);
        }
        Ok((self.id, self.filename, data))
    }
}

/// The first bytes of an upload, and what came with the last of them.
#[derive(Debug, PartialEq, Eq)]
pub struct Sniff {
    pub prefix: Vec<u8>,
    pub tail: Option<Vec<u8>>,
}

/// What was sniffed.
#[verifier::ext_equal]
pub struct SniffView {
    pub prefix: Seq<u8>,
    pub tail: Option<Seq<u8>>,
}

impl View for Sniff {
    type V = SniffView;

    open spec fn view(&self) -> SniffView {
        SniffView {
            prefix: self.prefix@,
            tail: match self.tail {
                Some(t) => Some(t@),
                None => None,
            },
        }
    }
}

impl SniffView {
    /// Whether more bytes are looked at.
    pub open spec fn wants(self) -> bool {
        self.prefix.len() < SNIFF_BYTES && self.tail is None
    }

    /// All that came.
    pub open spec fn contents(self) -> Seq<u8> {
        match self.tail {
            Some(t) => self.prefix + t,
            None => self.prefix,
        }
    }

    /// What was sniffed after one more chunk came.
    pub open spec fn after(self, chunk: Seq<u8>) -> SniffView {
        let room = SNIFF_BYTES - self.prefix.len();
        if chunk.len() >= room {
            SniffView { prefix: self.prefix + chunk.take(room), tail: Some(chunk.skip(room)) }
        } else {
            SniffView { prefix: self.prefix + chunk, tail: None }
        }
    }
}

/// Nothing was sniffed.
pub open spec fn nothing_sniffed() -> SniffView {
    SniffView { prefix: Seq::empty(), tail: None }
}

impl Sniff {
    pub fn new() -> (r: Sniff)
        ensures
            r@ == nothing_sniffed(),
            r@.wants(),
    {
        Sniff { prefix: Vec::new(), tail: None }
    }

    /// Tells whether more bytes are looked at.
    pub fn wants_more(&self) -> (r: bool)
        ensures
            r == self@.wants(),
    {
        self.prefix.len() < SNIFF_BYTES && self.tail.is_none()
    }

    /// Takes a chunk that came, or the failure of the upload.
    pub fn take(self, chunk: Result<Vec<u8>, String>) -> (r: Result<Sniff, JuicehostError>)
        requires
            self@.wants(),
        ensures
            match (chunk, r) {
                (Ok(bytes), Ok(sniff)) => sniff@ == self@.after(bytes@),
                (Err(_), Err(e)) => e == JuicehostError::InternalServerError,
                _ => false,
            },
    {
        let bytes = match chunk {
            Ok(bytes) => bytes,
            Err(_) => return Err(JuicehostError::InternalServerError),
        };
        let mut prefix = self.prefix;
        let room: usize = SNIFF_BYTES - prefix.len();
        let n: usize = bytes.len();
        let fits: usize = if n >= room {
            room
        } else {
            n
        };
        let ghost before = prefix@;
        let mut i: usize = 0;
        while i < fits
            invariant
                i <= fits <= bytes@.len(),
                prefix@ == before + bytes@.take(i as int),
            decreases fits - i,
        {
            prefix.push(bytes[i]);
            assert(before + bytes@.take(i + 1) =~= (before + bytes@.take(i as int)).push(
                bytes@[i as int],
            ));
            i = i + 1;
        }
        if n >= room {
            let mut tail: Vec<u8> = Vec::new();
            while i < n
                invariant
                    room <= i <= n == bytes@.len(),
                    tail@ == bytes@.subrange(room as int, i as int),
                decreases n - i,
            {
                tail.push(bytes[i]);
                assert(bytes@.subrange(room as int, i + 1) =~= bytes@.subrange(
                    room as int,
                    i as int,
                ).push(bytes@[i as int]));
                i = i + 1;
            }
            assert(tail@ =~= bytes@.skip(room as int));
            Ok(Sniff { prefix, tail: Some(tail) })
        } else {
            assert(bytes@.take(n as int) =~= bytes@);
            Ok(Sniff { prefix, tail: None })
        }
    }
}

/// All bytes of the chunks.
pub open spec fn joined(chunks: Seq<Seq<u8>>) -> Seq<u8>
    decreases chunks.len(),
{
    if chunks.len() == 0 {
        Seq::empty()
    } else {
        joined(chunks.drop_last()) + chunks.last()
    }
}

/// What was sniffed after the chunks came.
pub open spec fn sniffed(chunks: Seq<Seq<u8>>) -> SniffView
    decreases chunks.len(),
{
    if chunks.len() == 0 {
        nothing_sniffed()
    } else {
        sniffed(chunks.drop_last()).after(chunks.last())
    }
}

/// Whether every chunk came while more bytes were looked at.
pub open spec fn wanted(chunks: Seq<Seq<u8>>) -> bool
    decreases chunks.len(),
{
    chunks.len() > 0 ==> wanted(chunks.drop_last()) && sniffed(chunks.drop_last()).wants()
}

/// Sniffing keeps every byte in its place, and what is looked at is the beginning of the upload.
pub proof fn sniffing_keeps_the_upload(chunks: Seq<Seq<u8>>)
    requires
        wanted(chunks),
    ensures
        sniffed(chunks).contents() == joined(chunks),
        sniffed(chunks).prefix.len() <= SNIFF_BYTES,
        sniffed(chunks).prefix == joined(chunks).take(sniffed(chunks).prefix.len() as int),
        !sniffed(chunks).wants() ==> sniffed(chunks).prefix.len() == SNIFF_BYTES,
    decreases chunks.len(),
{
    if chunks.len() > 0 {
        sniffing_keeps_the_upload(chunks.drop_last());
        let before = sniffed(chunks.drop_last());
        let after = before.after(chunks.last());
        assert(after.contents() =~= before.contents() + chunks.last());
        assert(after.prefix =~= after.contents().take(after.prefix.len() as int));
    }
}

/// The size of an upload as it comes in.
#[derive(Debug, Clone, Copy, PartialEq, Eq, Structural)]
pub struct SizedStream {
    pub total: u64,
    /// The most bytes that may come.
    pub max_size: u64,
    /// The number of bytes that must come.
    pub exact_size: Option<u64>,
}

impl SizedStream {
    pub fn new(max_size: u64, exact_size: Option<u64>) -> (r: SizedStream)
        ensures
            r == (SizedStream { total: 0, max_size, exact_size }),
    {
        SizedStream { total: 0, max_size, exact_size }
    }

    /// The stream after a chunk of `len` bytes came.
    pub open spec fn after(self, len: u64) -> Result<SizedStream, StorageError> {
        if self.total + len > u64::MAX {
            Err(StorageError::PayloadTooLarge)
        } else if self.total + len > self.max_size {
            Err(
                if self.exact_size is Some {
                    StorageError::SizeMismatch
                } else {
                    StorageError::PayloadTooLarge
                },
            )
        } else {
            Ok(SizedStream { total: (self.total + len) as u64, ..self })
        }
    }

    /// Whether the stream may end.
    pub open spec fn end(self) -> Result<(), StorageError> {
        if self.exact_size is Some && self.exact_size->0 != self.total {
            Err(StorageError::SizeMismatch)
        } else {
            Ok(())
        }
    }

    /// Takes a chunk of `len` bytes.
    pub fn chunk(self, len: u64) -> (r: Result<SizedStream, StorageError>)
        ensures
            r == self.after(len),
    {
        let next: u64 = match self.total.checked_add(len) {
            Some(next) => next,
            None => return Err(StorageError::PayloadTooLarge),
        };
        if next > self.max_size {
            return match self.exact_size {
                Some(_) => Err(StorageError::SizeMismatch),
                None => Err(StorageError::PayloadTooLarge),
            };
        }
        Ok(SizedStream { total: next, max_size: self.max_size, exact_size: self.exact_size })
    }

    /// Takes the end of the upload.
    pub fn finish(self) -> (r: Result<(), StorageError>)
        ensures
            r == self.end(),
    {
        match self.exact_size {
            Some(expected) => if expected != self.total {
                Err(StorageError::SizeMismatch)
            } else {
                Ok(())
            },
            None => Ok(()),
        }
    }

    /// The error of an upload that broke off.
    pub fn failed(error: String) -> (r: StorageError)
        ensures
            r == StorageError::Io(IoFailure::Failed(Step::RequestBody, error)),
    {
        StorageError::Io(IoFailure::Failed(Step::RequestBody, error))
    }
}

/// The stream after chunks of the given sizes, or the first error.
pub open spec fn stream_after(stream: SizedStream, sizes: Seq<u64>) -> Result<
    SizedStream,
    StorageError,
>
    decreases sizes.len(),
{
    if sizes.len() == 0 {
        Ok(stream)
    } else {
        match stream_after(stream, sizes.drop_last()) {
            Ok(before) => before.after(sizes.last()),
            Err(e) => Err(e),
        }
    }
}

/// The sum of the sizes.
pub open spec fn size_total(sizes: Seq<u64>) -> nat
    decreases sizes.len(),
{
    if sizes.len() == 0 {
        0
    } else {
        size_total(sizes.drop_last()) + sizes.last() as nat
    }
}

/// An upload that comes to its end has no more bytes than allowed, and exactly as many as were
/// announced. One that stays within the limit and has the announced size comes to its end.
pub proof fn accepted_upload_has_its_size(max_size: u64, exact_size: Option<u64>, sizes: Seq<u64>)
    ensures
        ({
            let start = SizedStream { total: 0, max_size, exact_size };
            let accepted = stream_after(start, sizes) matches Ok(s) && s.end() is Ok;
            accepted == (size_total(sizes) <= max_size && (exact_size is Some ==> size_total(sizes)
                == exact_size->0))
        }),
{
    lemma_stream_total(SizedStream { total: 0, max_size, exact_size }, sizes);
}

proof fn lemma_stream_total(start: SizedStream, sizes: Seq<u64>)
    requires
        start.total == 0,
    ensures
        match stream_after(start, sizes) {
            Ok(s) => s == (SizedStream { total: s.total, ..start }) && s.total == size_total(sizes)
                && size_total(sizes) <= start.max_size,
            Err(_) => size_total(sizes) > start.max_size,
        },
    decreases sizes.len(),
{
    if sizes.len() > 0 {
        lemma_stream_total(start, sizes.drop_last());
    }
}

/// The claims of a ticket.
#[derive(Debug, PartialEq, Eq)]
pub struct TicketClaims {
    pub sub: String,
    pub file_id: String,
    pub filename: String,
    pub file_size: u64,
    pub file_capability: Option<String>,
}

/// The claims, as JSON, of the ticket that a request for `id` carries. Whether a ticket has
/// expired depends on the clock.
pub fn ticket_of_request(id: &str, bearer: Option<&str>, secret: &str) -> (r: Result<
    String,
    JuicehostError,
>)
    ensures
        match r {
            Ok(claims) => is_id(id@) && bearer is Some && ticket_claims(bearer->0@, secret@)
                == Some(claims@),
            Err(e) => if is_id(id@) {
                e == JuicehostError::Forbidden
            } else {
                e == JuicehostError::BadRequest
            },
        },
{
    if !is_valid_id(id) {
        return Err(JuicehostError::BadRequest);
    }
    match bearer {
        None => Err(JuicehostError::Forbidden),
        Some(token) => match signed_ticket_claims(token, secret) {
            Ok(claims) => Ok(claims),
            Err(_) => Err(JuicehostError::Forbidden),
        },
    }
}

/// An upload that a ticket allows.
#[derive(Debug, PartialEq, Eq)]
pub struct TicketUpload {
    pub filename: String,
    pub file_size: u64,
    pub capability: Option<String>,
}

/// Why an upload with a ticket is rejected, if it is: the ticket must be for this file and for no
/// larger one than allowed, and an announced length must be that of the ticket. Claims that could
/// not be read are none.
pub open spec fn ticket_error(
    id: Seq<char>,
    headers: Seq<(Seq<char>, Option<Seq<char>>)>,
    claims: Option<TicketClaims>,
    max: u64,
) -> Option<JuicehostError> {
    match claims {
        None => Some(JuicehostError::Forbidden),
        Some(claims) => if claims.file_id@ != id {
            Some(JuicehostError::Forbidden)
        } else if claims.file_size > max {
            Some(JuicehostError::PayloadTooLarge)
        } else if has_header(headers, "content-length"@) {
            match header_text(headers, "content-length"@) {
                None => Some(JuicehostError::BadRequest),
                Some(text) => match unsigned(text, u64::MAX as nat) {
                    None => Some(JuicehostError::BadRequest),
                    Some(declared) => if declared != claims.file_size {
                        Some(JuicehostError::SizeMismatch)
                    } else {
                        None
                    },
                },
            }
        } else {
            None
        },
    }
}

/// The capability that a file is stored with: that of the ticket, else that of the request.
pub open spec fn ticket_capability(
    headers: Seq<(Seq<char>, Option<Seq<char>>)>,
    claims: TicketClaims,
) -> Option<Seq<char>> {
    match claims.file_capability {
        Some(c) => Some(c@),
        None => carried_capability(headers),
    }
}

/// Checks an upload against its ticket.
pub fn admit_ticket(id: &str, headers: &Headers, claims: Option<TicketClaims>, max: u64) -> (r:
    Result<TicketUpload, JuicehostError>)
    ensures
        match r {
            Err(e) => ticket_error(id@, headers@, claims, max) == Some(e),
            Ok(upload) => {
                &&& ticket_error(id@, headers@, claims, max) is None
                &&& claims matches Some(c)
                &&& upload.filename == c.filename
                &&& upload.file_size == c.file_size
                &&& text_view(upload.capability) == ticket_capability(headers@, c)
            },
        },
        r is Ok <==> (claims matches Some(c) && c.file_id@ == id@ && c.file_size <= max && (has_header(
            headers@,
            "content-length"@,
        ) ==> header_text(headers@, "content-length"@) is Some && unsigned(
            header_text(headers@, "content-length"@)->0,
            u64::MAX as nat,
        ) == Some(c.file_size as nat))),
{
    let claims = match claims {
        Some(claims) => claims,
        None => return Err(JuicehostError::Forbidden),
    };
    if !same(claims.file_id.as_str(), id) {
        return Err(JuicehostError::Forbidden);
    }
    if claims.file_size > max {
        return Err(JuicehostError::PayloadTooLarge);
    }
    if headers.contains("content-length") {
        let declared: u64 = match headers.get("content-length") {
            None => return Err(JuicehostError::BadRequest),
            Some(text) => match parse_unsigned(text, u64::MAX) {
                Some(n) => n,
                None => return Err(JuicehostError::BadRequest),
            },
        };
        if declared != claims.file_size {
            return Err(JuicehostError::SizeMismatch);
        }
    }
    let capability = match claims.file_capability {
        Some(c) => Some(c),
        None => optional_file_capability(headers),
    };
    Ok(TicketUpload { filename: claims.filename, file_size: claims.file_size, capability })
}

/// What a request body with deadlines waits for.
#[derive(Debug, Clone, Copy, PartialEq, Eq, Structural)]
pub enum BodyWait {
    /// Nothing: the body has ended.
    Ended,
    /// Nothing: the time of the whole request is over.
    TotalExceeded,
    /// The next chunk, for that many nanoseconds.
    Wait(u128),
}

/// What came of waiting.
#[derive(Debug, PartialEq, Eq)]
pub enum BodyEvent {
    Chunk,
    End,
    Failed(String),
    TimedOut,
    TotalExceeded,
}

/// What a request body with deadlines gives.
#[derive(Debug, PartialEq, Eq)]
pub enum BodyItem {
    Chunk,
    End,
    Failed(String),
}

/// A request body with deadlines.
#[derive(Debug, Clone, Copy, PartialEq, Eq, Structural)]
pub struct DeadlineBody {
    pub open: bool,
}

/// What a request body waits for, where `inactivity` nanoseconds may pass without a chunk and `left`
/// nanoseconds are left for the whole request.
pub open spec fn body_wait(open: bool, inactivity: u128, left: u128) -> BodyWait {
    if !open {
        BodyWait::Ended
    } else if inactivity == 0 || left == 0 {
        BodyWait::TotalExceeded
    } else {
        BodyWait::Wait(
            if inactivity < left {
                inactivity
            } else {
                left
            },
        )
    }
}

/// Whether more of a request body may come after the events.
pub open spec fn body_open(events: Seq<BodyEvent>) -> bool
    decreases events.len(),
{
    events.len() > 0 ==> body_open(events.drop_last()) && events.last() is Chunk
}

impl DeadlineBody {
    pub fn new() -> (r: DeadlineBody)
        ensures
            r.open,
            r.open == body_open(Seq::empty()),
    {
        DeadlineBody { open: true }
    }

    /// What is waited for, where `inactivity` nanoseconds may pass without a chunk and `left`
    /// nanoseconds are left for the whole request.
    pub fn next(&self, inactivity: u128, left: u128) -> (r: BodyWait)
        ensures
            r == (if !self.open {
                BodyWait::Ended
            } else if inactivity == 0 || left == 0 {
                BodyWait::TotalExceeded
            } else if inactivity < left {
                BodyWait::Wait(inactivity)
            } else {
                BodyWait::Wait(left)
            }),
            r == body_wait(self.open, inactivity, left),
    {
        if !self.open {
            BodyWait::Ended
        } else if inactivity == 0 || left == 0 {
            BodyWait::TotalExceeded
        } else if inactivity < left {
            BodyWait::Wait(inactivity)
        } else {
            BodyWait::Wait(left)
        }
    }

    /// What is given after waiting. After an error or the end nothing more comes.
    pub fn step(self, event: BodyEvent) -> (r: (DeadlineBody, BodyItem))
        ensures
            r.0.open == (self.open && event is Chunk),
            self.open ==> match (event, r.1) {
                (BodyEvent::Chunk, BodyItem::Chunk) => true,
                (BodyEvent::End, BodyItem::End) => true,
                (BodyEvent::Failed(a), BodyItem::Failed(b)) => a == b,
                (BodyEvent::TimedOut, BodyItem::Failed(text)) => text@
                    == "request body inactivity deadline exceeded"@,
                (BodyEvent::TotalExceeded, BodyItem::Failed(text)) => text@
                    == "request body total deadline exceeded"@,
                _ => false,
            },
            !self.open ==> r.1 is End,
            forall|events: Seq<BodyEvent>|
                self.open == body_open(events) ==> r.0.open == #[trigger] body_open(
                    events.push(event),
                ),
    {
        proof {
            assert forall|events: Seq<BodyEvent>| self.open == body_open(events) implies (self.open
                && event is Chunk) == #[trigger] body_open(events.push(event)) by {
                assert(events.push(event).drop_last() =~= events);
            }
        }
        if !self.open {
            return (self, BodyItem::End);
        }
        match event {
            BodyEvent::Chunk => (self, BodyItem::Chunk),
            BodyEvent::End => (DeadlineBody { open: false }, BodyItem::End),
            BodyEvent::Failed(e) => (DeadlineBody { open: false }, BodyItem::Failed(e)),
            BodyEvent::TimedOut => (
                DeadlineBody { open: false },
                BodyItem::Failed("request body inactivity deadline exceeded".to_owned()),
            ),
            BodyEvent::TotalExceeded => (
                DeadlineBody { open: false },
                BodyItem::Failed("request body total deadline exceeded".to_owned()),
            ),
        }
    }
}

/// An upload whose ticket is for it and for no larger a file than allowed is admitted where its
/// announced length is exactly the size in the ticket, and also where it announces none. Any other
/// number is a mismatch, and what is no number a bad request.
pub proof fn announced_length_must_be_that_of_the_ticket(
    headers: Seq<(Seq<char>, Option<Seq<char>>)>,
    claims: TicketClaims,
    max: u64,
    announced: u64,
)
    requires
        claims.file_size <= max,
    ensures
        ({
            let error = ticket_error(claims.file_id@, headers, Some(claims), max);
            &&& !has_header(headers, "content-length"@) ==> error is None
            &&& has_header(headers, "content-length"@) && header_text(headers, "content-length"@)
                == Some(decimal(announced as nat)) ==> (if announced == claims.file_size {
                error is None
            } else {
                error == Some(JuicehostError::SizeMismatch)
            })
            &&& has_header(headers, "content-length"@) && header_text(
                headers,
                "content-length"@,
            ) is None ==> error == Some(JuicehostError::BadRequest)
            &&& (has_header(headers, "content-length"@) && (header_text(
                headers,
                "content-length"@,
            ) matches Some(text) && unsigned(text, u64::MAX as nat) is None)) ==> error == Some(
                JuicehostError::BadRequest,
            )
        }),
{
    decimal_round_trip(announced as nat, u64::MAX as nat);
}

/// A ticket is good for the file that it names and for no other, and for no larger a file than the
/// host allows, whatever the request announces. What is no ticket is good for nothing.
pub proof fn ticket_is_for_one_file(
    id: Seq<char>,
    headers: Seq<(Seq<char>, Option<Seq<char>>)>,
    claims: TicketClaims,
    max: u64,
)
    ensures
        ticket_error(id, headers, None, max) == Some(JuicehostError::Forbidden),
        claims.file_id@ != id ==> ticket_error(id, headers, Some(claims), max) == Some(
            JuicehostError::Forbidden,
        ),
        claims.file_id@ == id && claims.file_size > max ==> ticket_error(
            id,
            headers,
            Some(claims),
            max,
        ) == Some(JuicehostError::PayloadTooLarge),
        ticket_error(id, headers, Some(claims), max) is None ==> claims.file_id@ == id
            && claims.file_size <= max,
{
}

/// A ticket that carries a capability decides it; one that carries none leaves it to the request.
pub proof fn ticket_capability_goes_first(
    headers: Seq<(Seq<char>, Option<Seq<char>>)>,
    claims: TicketClaims,
)
    ensures
        claims.file_capability matches Some(c) ==> ticket_capability(headers, claims) == Some(c@),
        claims.file_capability is None ==> ticket_capability(headers, claims) == carried_capability(
            headers,
        ),
{
}

/// An upload that is too long is stopped at the chunk that makes it so. It is told that its size is
/// wrong where one was announced, and that it is too large otherwise.
pub proof fn too_long_upload_is_stopped(
    max_size: u64,
    exact_size: Option<u64>,
    sizes: Seq<u64>,
    len: u64,
)
    requires
        size_total(sizes) <= max_size,
        size_total(sizes) + len > max_size,
    ensures
        ({
            let start = SizedStream { total: 0, max_size, exact_size };
            let end = stream_after(start, sizes.push(len));
            end matches Err(e) && (if exact_size is Some && size_total(sizes) + len <= u64::MAX {
                e == StorageError::SizeMismatch
            } else {
                e == StorageError::PayloadTooLarge
            })
        }),
{
    lemma_stream_total(SizedStream { total: 0, max_size, exact_size }, sizes);
    assert(sizes.push(len).drop_last() =~= sizes);
}

/// An upload within its limit goes on, and its end is accepted exactly where no size was announced or
/// the announced one was reached.
pub proof fn upload_within_its_limit_goes_on(
    max_size: u64,
    exact_size: Option<u64>,
    sizes: Seq<u64>,
)
    requires
        size_total(sizes) <= max_size,
    ensures
        ({
            let start = SizedStream { total: 0, max_size, exact_size };
            stream_after(start, sizes) matches Ok(stream) && stream.total == size_total(sizes) && (
            if exact_size is None || exact_size->0 == size_total(sizes) {
                stream.end() is Ok
            } else {
                stream.end() == Err::<(), StorageError>(StorageError::SizeMismatch)
            })
        }),
{
    lemma_stream_total(SizedStream { total: 0, max_size, exact_size }, sizes);
}

/// Sizes add up chunk by chunk, in whatever order they come.
pub proof fn sizes_add_up(a: Seq<u64>, b: Seq<u64>)
    ensures
        size_total(Seq::<u64>::empty()) == 0,
        size_total(a + b) == size_total(a) + size_total(b),
        size_total(a + b) == size_total(b + a),
        forall|n: u64| #[trigger] size_total(a.push(n)) == size_total(a) + n,
{
    lemma_sizes_add(a, b);
    lemma_sizes_add(b, a);
    assert forall|n: u64| #[trigger] size_total(a.push(n)) == size_total(a) + n by {
        assert(a.push(n).drop_last() =~= a);
    }
}

proof fn lemma_sizes_add(a: Seq<u64>, b: Seq<u64>)
    ensures
        size_total(a + b) == size_total(a) + size_total(b),
    decreases b.len(),
{
    if b.len() == 0 {
        assert(a + b =~= a);
    } else {
        assert((a + b).drop_last() =~= a + b.drop_last());
        assert((a + b).last() == b.last());
        lemma_sizes_add(a, b.drop_last());
    }
}

/// The bytes of an upload do not depend on how it was cut into chunks: what is looked at are its first
/// bytes, at most 512 of them, and all else is kept behind them.
pub proof fn sniffing_looks_at_the_first_bytes(chunks: Seq<Seq<u8>>)
    requires
        wanted(chunks),
    ensures
        ({
            let all = joined(chunks);
            let seen = sniffed(chunks);
            &&& seen.prefix == all.take(
                if all.len() < 512 {
                    all.len() as int
                } else {
                    512
                },
            )
            &&& match seen.tail {
                Some(tail) => seen.prefix + tail == all && seen.prefix.len() == 512,
                None => seen.prefix == all && all.len() < 512,
            }
            &&& seen.wants() == (all.len() < 512)
        }),
    decreases chunks.len(),
{
    sniffing_keeps_the_upload(chunks);
    if chunks.len() > 0 {
        sniffing_looks_at_the_first_bytes(chunks.drop_last());
        let before = sniffed(chunks.drop_last());
        assert(before.tail is None);
        assert(joined(chunks) == before.prefix + chunks.last());
    }
    let all = joined(chunks);
    assert(all.take(all.len() as int) =~= all);
}

/// Waiting never goes beyond either deadline and goes up to the nearer one; where no time is left nothing
/// is waited for, and behind the end of a body nothing either.
pub proof fn waiting_keeps_both_deadlines(open: bool, inactivity: u128, left: u128)
    ensures
        body_wait(open, inactivity, left) is Ended <==> !open,
        open ==> (body_wait(open, inactivity, left) is TotalExceeded <==> inactivity == 0 || left
            == 0),
        body_wait(open, inactivity, left) matches BodyWait::Wait(n) ==> 0 < n <= inactivity && n
            <= left && (n == inactivity || n == left),
{
}

/// More of a body may come exactly as long as nothing but chunks have come: its end, a failure and a
/// deadline each end it for good.
pub proof fn body_ends_for_good(events: Seq<BodyEvent>)
    ensures
        body_open(events) <==> forall|i: int|
            0 <= i < events.len() ==> #[trigger] events[i] is Chunk,
    decreases events.len(),
{
    if events.len() > 0 {
        let fewer = events.drop_last();
        body_ends_for_good(fewer);
        if body_open(events) {
            assert forall|i: int| 0 <= i < events.len() implies #[trigger] events[i] is Chunk by {
                if i < fewer.len() {
                    assert(fewer[i] == events[i]);
                }
            }
        } else if forall|i: int| 0 <= i < events.len() ==> #[trigger] events[i] is Chunk {
            assert(events[events.len() - 1] is Chunk);
            assert forall|i: int| 0 <= i < fewer.len() implies #[trigger] fewer[i] is Chunk by {
                assert(fewer[i] == events[i]);
            }
        }
    }
}

} // verus!
