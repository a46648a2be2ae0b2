//! Uploads, from the request to the reply.
//!
//! An upload is a state machine. Its step says what is to be done next; the outcome is handed back
//! as an event.

use vstd::prelude::*;
use vstd::string::*;

use crate::error::{storage_answer, JuicehostError, StorageError};
use crate::handlers::auth::{carried_capability, optional_file_capability};
use crate::handlers::headers::Headers;
use crate::handlers::reply::{Reply, ReplyView};
use crate::handlers::upload::{
    admit_ticket, field_error, nothing_sniffed, storage_filename, stored, stored_reply,
    ticket_capability, ticket_error, ticket_of_request, validate_or_block, validated, FieldRead,
    FileValidation, Form, SizedStream, Sniff, SniffView, TicketClaims,
};
use crate::storage::content::signature_of;
use crate::storage::names::{is_id, is_valid_id, named_by_content};
use crate::text::text_view;
use crate::ticket::ticket_claims;

verus! {

/// How an upload comes.
#[derive(Debug, Clone, Copy, PartialEq, Eq, Structural)]
pub enum StoreKind {
    /// As a form, all at once.
    Form,
    /// As a stream.
    Stream,
    /// As a stream, with a ticket.
    Ticket,
}

/// What is to be done next for an upload.
#[derive(Debug, PartialEq, Eq)]
pub enum StoreStep {
    /// Read the claims of the ticket, which are JSON.
    ParseClaims { claims: String },
    /// Try to get a permit for an upload.
    Permit,
    /// Read the next field of the form.
    ReadForm { form: Form },
    /// Read the next chunk of the body.
    Sniff { sniff: Sniff },
    /// Check the name and the first bytes of the file.
    Validate { data: Vec<u8>, tail: Option<Vec<u8>> },
    /// Store the bytes that came, and those that come still, under that name.
    Store { name: String, data: Vec<u8>, tail: Option<Vec<u8>> },
    /// Send the reply.
    Finished { result: Result<Reply, JuicehostError> },
}

/// What came of a step.
#[derive(Debug, PartialEq, Eq)]
pub enum StoreEvent {
    /// The claims, where they could be read.
    Claims(Option<TicketClaims>),
    /// Whether there is a permit.
    Permit(bool),
    Field(FieldRead),
    /// A chunk, or why the body broke off.
    Chunk(Result<Vec<u8>, String>),
    /// The form or the body has ended.
    End,
    Validated(FileValidation),
    Stored(Result<(), StorageError>),
}

/// An upload.
#[derive(Debug, PartialEq, Eq)]
pub struct Upload {
    pub kind: StoreKind,
    pub id: String,
    pub filename: String,
    pub capability: Option<String>,
    pub headers: Headers,
    /// The most bytes that may come.
    pub max_size: u64,
    /// The number of bytes that must come.
    pub exact_size: Option<u64>,
    pub step: StoreStep,
}

/// A form as far as it was read.
#[verifier::ext_equal]
pub struct FormView {
    pub id: Seq<char>,
    pub filename: Seq<char>,
    pub data: Option<Seq<u8>>,
}

pub open spec fn bytes_view(bytes: Option<Vec<u8>>) -> Option<Seq<u8>> {
    match bytes {
        Some(b) => Some(b@),
        None => None,
    }
}

pub open spec fn form_view(form: Form) -> FormView {
    FormView { id: form.id@, filename: form.filename@, data: bytes_view(form.data) }
}

/// The form after what was read of it.
pub open spec fn form_after(form: FormView, read: FieldRead) -> FormView {
    match read {
        FieldRead::Id(id) => FormView { id: id@, ..form },
        FieldRead::Filename(filename) => FormView { filename: filename@, ..form },
        FieldRead::File(data) => FormView { data: Some(data@), ..form },
        _ => form,
    }
}

/// What is to be done next for an upload.
pub enum StoreStepView {
    ParseClaims { claims: Seq<char> },
    Permit,
    ReadForm { form: FormView },
    Sniff { sniff: SniffView },
    Validate { data: Seq<u8>, tail: Option<Seq<u8>> },
    Store { name: Seq<char>, data: Seq<u8>, tail: Option<Seq<u8>> },
    Finished { result: Result<ReplyView, JuicehostError> },
}

impl View for StoreStep {
    type V = StoreStepView;

    open spec fn view(&self) -> StoreStepView {
        match self {
            StoreStep::ParseClaims { claims } => StoreStepView::ParseClaims { claims: claims@ },
            StoreStep::Permit => StoreStepView::Permit,
            StoreStep::ReadForm { form } => StoreStepView::ReadForm { form: form_view(*form) },
            StoreStep::Sniff { sniff } => StoreStepView::Sniff { sniff: sniff@ },
            StoreStep::Validate { data, tail } => StoreStepView::Validate {
                data: data@,
                tail: bytes_view(*tail),
            },
            StoreStep::Store { name, data, tail } => StoreStepView::Store {
                name: name@,
                data: data@,
                tail: bytes_view(*tail),
            },
            StoreStep::Finished { result } => StoreStepView::Finished {
                result: match result {
                    Ok(reply) => Ok(reply@),
                    Err(e) => Err(*e),
                },
            },
        }
    }
}

/// An upload as it stands.
pub struct UploadView {
    pub kind: StoreKind,
    pub id: Seq<char>,
    pub filename: Seq<char>,
    pub capability: Option<Seq<char>>,
    pub headers: Seq<(Seq<char>, Option<Seq<char>>)>,
    pub max_size: u64,
    pub exact_size: Option<u64>,
    pub step: StoreStepView,
}

impl View for Upload {
    type V = UploadView;

    open spec fn view(&self) -> UploadView {
        UploadView {
            kind: self.kind,
            id: self.id@,
            filename: self.filename@,
            capability: text_view(self.capability),
            headers: self.headers@,
            max_size: self.max_size,
            exact_size: self.exact_size,
            step: self.step@,
        }
    }
}

impl UploadView {
    /// More bytes are looked at only while they are wanted.
    pub open spec fn valid(self) -> bool {
        self.step matches StoreStepView::Sniff { sniff } ==> sniff.wants()
    }

    /// The upload with another step.
    pub open spec fn at(self, step: StoreStepView) -> UploadView {
        UploadView { step, ..self }
    }

    /// The upload that ended with an error.
    pub open spec fn failed(self, error: JuicehostError) -> UploadView {
        self.at(StoreStepView::Finished { result: Err(error) })
    }

    /// The upload after the event. An event that does not answer the step changes nothing.
    pub open spec fn after(self, event: StoreEvent) -> UploadView {
        match (self.step, event) {
            (StoreStepView::ParseClaims { .. }, StoreEvent::Claims(claims)) => match ticket_error(
                self.id,
                self.headers,
                claims,
                self.max_size,
            ) {
                Some(e) => self.failed(e),
                None => UploadView {
                    filename: claims->0.filename@,
                    capability: ticket_capability(self.headers, claims->0),
                    max_size: claims->0.file_size,
                    exact_size: Some(claims->0.file_size),
                    step: StoreStepView::Permit,
                    ..self
                },
            },
            (StoreStepView::Permit, StoreEvent::Permit(granted)) => if !granted {
                self.failed(JuicehostError::ServiceUnavailable)
            } else if self.kind == StoreKind::Form {
                self.at(
                    StoreStepView::ReadForm {
                        form: FormView { id: ""@, filename: ""@, data: None },
                    },
                )
            } else {
                self.at(StoreStepView::Sniff { sniff: nothing_sniffed() })
            },
            (StoreStepView::ReadForm { form }, StoreEvent::Field(read)) => match field_error(
                read,
                self.max_size,
            ) {
                Some(e) => self.failed(e),
                None => self.at(StoreStepView::ReadForm { form: form_after(form, read) }),
            },
            (StoreStepView::ReadForm { form }, StoreEvent::End) => if form.data is Some && is_id(
                form.id,
            ) && form.filename.len() > 0 {
                UploadView {
                    id: form.id,
                    filename: form.filename,
                    step: StoreStepView::Validate { data: form.data->0, tail: None },
                    ..self
                }
            } else {
                self.failed(JuicehostError::BadRequest)
            },
            (StoreStepView::Sniff { sniff }, StoreEvent::Chunk(chunk)) => match chunk {
                Err(_) => self.failed(JuicehostError::InternalServerError),
                Ok(bytes) => {
                    let next = sniff.after(bytes@);
                    if next.wants() {
                        self.at(StoreStepView::Sniff { sniff: next })
                    } else {
                        self.at(StoreStepView::Validate { data: next.prefix, tail: next.tail })
                    }
                },
            },
            (StoreStepView::Sniff { sniff }, StoreEvent::End) => self.at(
                StoreStepView::Validate { data: sniff.prefix, tail: sniff.tail },
            ),
            (StoreStepView::Validate { data, tail }, StoreEvent::Validated(validation)) =>
            match validated(validation) {
                Err(e) => self.failed(e),
                Ok(_) => self.at(
                    StoreStepView::Store {
                        name: named_by_content(self.filename, signature_of(data)),
                        data,
                        tail,
                    },
                ),
            },
            (StoreStepView::Store { .. }, StoreEvent::Stored(outcome)) => match outcome {
                Ok(_) => self.at(StoreStepView::Finished { result: Ok(stored_reply(self.id)) }),
                Err(e) => self.failed(storage_answer(e)),
            },
            _ => self,
        }
    }
}

/// Starts an upload as a form.
pub fn store_file(headers: Headers, max_size: u64) -> (r: Upload)
    ensures
        r@.valid(),
        r@.kind == StoreKind::Form,
        r@.id == ""@,
        r@.filename == ""@,
        r@.capability == carried_capability(headers@),
        r@.headers == headers@,
        r@.max_size == max_size,
        r@.exact_size is None,
        r@.step == StoreStepView::Permit,
{
    let capability = optional_file_capability(&headers);
    Upload {
        kind: StoreKind::Form,
        id: "".to_owned(),
        filename: "".to_owned(),
        capability,
        headers,
        max_size,
        exact_size: None,
        step: StoreStep::Permit,
    }
}

/// Starts an upload as a stream.
pub fn store_file_streaming(id: &str, filename: &str, headers: Headers, max_size: u64) -> (r:
    Upload)
    ensures
        r@.valid(),
        r@.kind == StoreKind::Stream,
        r@.id == id@,
        r@.filename == filename@,
        r@.capability == carried_capability(headers@),
        r@.headers == headers@,
        r@.max_size == max_size,
        r@.exact_size is None,
        r@.step == (if is_id(id@) {
            StoreStepView::Permit
        } else {
            StoreStepView::Finished { result: Err(JuicehostError::BadRequest) }
        }),
{
    let capability = optional_file_capability(&headers);
    let step = if is_valid_id(id) {
        StoreStep::Permit
    } else {
        StoreStep::Finished { result: Err(JuicehostError::BadRequest) }
    };
    Upload {
        kind: StoreKind::Stream,
        id: id.to_owned(),
        filename: filename.to_owned(),
        capability,
        headers,
        max_size,
        exact_size: None,
        step,
    }
}

/// Starts an upload with a ticket, which is the bearer token of the request. Whether a ticket has
/// expired depends on the clock.
pub fn store_file_ticket(
    id: &str,
    headers: Headers,
    bearer: Option<&str>,
    secret: &str,
    max_size: u64,
) -> (r: Upload)
    ensures
        r@.valid(),
        r@.kind == StoreKind::Ticket,
        r@.id == id@,
        r@.filename == ""@,
        r@.capability is None,
        r@.headers == headers@,
        r@.max_size == max_size,
        r@.exact_size is None,
        match r@.step {
            StoreStepView::ParseClaims { claims } => is_id(id@) && bearer is Some && ticket_claims(
                bearer->0@,
                secret@,
            ) == Some(claims),
            StoreStepView::Finished { result } => result == (if is_id(id@) {
                Err::<ReplyView, JuicehostError>(JuicehostError::Forbidden)
            } else {
                Err(JuicehostError::BadRequest)
            }),
            _ => false,
        },
{
    let step = match ticket_of_request(id, bearer, secret) {
        Ok(claims) => StoreStep::ParseClaims { claims },
        Err(e) => StoreStep::Finished { result: Err(e) },
    };
    Upload {
        kind: StoreKind::Ticket,
        id: id.to_owned(),
        filename: "".to_owned(),
        capability: None,
        headers,
        max_size,
        exact_size: None,
        step,
    }
}

impl Upload {
    /// The size of the body as it comes in.
    pub fn sized_stream(&self) -> (r: SizedStream)
        ensures
            r == (SizedStream {
                total: 0,
                max_size: self@.max_size,
                exact_size: self@.exact_size,
            }),
    {
        SizedStream::new(self.max_size, self.exact_size)
    }

    /// Goes on with what came of the step.
    #[verifier::rlimit(40)]
    pub fn step(self, event: StoreEvent) -> (r: Upload)
        requires
            self@.valid(),
        ensures
            r@.valid(),
            r@ == self@.after(event),
    {
        let Upload { kind, id, filename, capability, headers, max_size, exact_size, step } = self;
        let next = match (step, event) {
            (StoreStep::ParseClaims { .. }, StoreEvent::Claims(claims)) => {
                match admit_ticket(id.as_str(), &headers, claims, max_size) {
                    Ok(upload) => {
                        return Upload {
                            kind,
                            id,
                            filename: upload.filename,
                            capability: upload.capability,
                            headers,
                            max_size: upload.file_size,
                            exact_size: Some(upload.file_size),
                            step: StoreStep::Permit,
                        };
                    },
                    Err(e) => StoreStep::Finished { result: Err(e) },
                }
            },
            (StoreStep::Permit, StoreEvent::Permit(granted)) => if !granted {
                StoreStep::Finished { result: Err(JuicehostError::ServiceUnavailable) }
            } else {
                match kind {
                    StoreKind::Form => StoreStep::ReadForm { form: Form::new() },
                    _ => StoreStep::Sniff { sniff: Sniff::new() },
                }
            },
            (StoreStep::ReadForm { form }, StoreEvent::Field(read)) => match form.take(
                read,
                max_size,
            ) {
                Ok(form) => StoreStep::ReadForm { form },
                Err(e) => StoreStep::Finished { result: Err(e) },
            },
            (StoreStep::ReadForm { form }, StoreEvent::End) => match form.complete() {
                Ok((form_id, form_filename, data)) => {
                    return Upload {
                        kind,
                        id: form_id,
                        filename: form_filename,
                        capability,
                        headers,
                        max_size,
                        exact_size,
                        step: StoreStep::Validate { data, tail: None },
                    };
                },
                Err(e) => StoreStep::Finished { result: Err(e) },
            },
            (StoreStep::Sniff { sniff }, StoreEvent::Chunk(chunk)) => match sniff.take(chunk) {
                Ok(sniff) => if sniff.wants_more() {
                    StoreStep::Sniff { sniff }
                } else {
                    StoreStep::Validate { data: sniff.prefix, tail: sniff.tail }
                },
                Err(e) => StoreStep::Finished { result: Err(e) },
            },
            (StoreStep::Sniff { sniff }, StoreEvent::End) => StoreStep::Validate {
                data: sniff.prefix,
                tail: sniff.tail,
            },
            (StoreStep::Validate { data, tail }, StoreEvent::Validated(validation)) =>
            match validate_or_block(validation) {
                Ok(_) => {
                    let name = storage_filename(filename.as_str(), &data);
                    StoreStep::Store { name, data, tail }
                },
                Err(e) => StoreStep::Finished { result: Err(e) },
            },
            (StoreStep::Store { .. }, StoreEvent::Stored(outcome)) => {
                let result = match outcome {
                    Ok(_) => Ok(stored(id.as_str())),
                    Err(e) => Err(JuicehostError::from(e)),
                };
                StoreStep::Finished { result }
            },
            (step, _) => step,
        };
        Upload { kind, id, filename, capability, headers, max_size, exact_size, step: next }
    }
}

/// An upload together with what it has passed.
pub struct UploadRun {
    pub upload: UploadView,
    /// A permit was got.
    pub permitted: bool,
    /// The name and the first bytes were found to be allowed.
    pub checked: bool,
    /// A ticket was found to be good for the upload.
    pub admitted: bool,
}

/// The run after a sequence of events.
pub open spec fn upload_run(upload: UploadView, events: Seq<StoreEvent>) -> UploadRun
    decreases events.len(),
{
    if events.len() == 0 {
        UploadRun { upload, permitted: false, checked: false, admitted: false }
    } else {
        let before = upload_run(upload, events.drop_last());
        let event = events.last();
        UploadRun {
            upload: before.upload.after(event),
            permitted: before.permitted || (before.upload.step is Permit && event
                == StoreEvent::Permit(true)),
            checked: before.checked || (before.upload.step is Validate && event
                == StoreEvent::Validated(FileValidation::Allowed)),
            admitted: before.admitted || (before.upload.step is ParseClaims && (event matches
                StoreEvent::Claims(claims) && ticket_error(
                before.upload.id,
                before.upload.headers,
                claims,
                before.upload.max_size,
            ) is None)),
        }
    }
}

spec fn upload_holds(run: UploadRun, start: UploadView) -> bool {
    let ticket = start.kind == StoreKind::Ticket;
    &&& run.upload.kind == start.kind
    &&& start.kind != StoreKind::Form ==> run.upload.id == start.id
    &&& match run.upload.step {
        StoreStepView::ParseClaims { .. } => ticket,
        StoreStepView::Permit => ticket ==> run.admitted,
        StoreStepView::ReadForm { .. } => start.kind == StoreKind::Form && run.permitted,
        StoreStepView::Sniff { .. } => start.kind != StoreKind::Form && run.permitted && (ticket
            ==> run.admitted),
        StoreStepView::Validate { .. } => run.permitted && (ticket ==> run.admitted) && (start.kind
            == StoreKind::Form ==> is_id(run.upload.id)),
        StoreStepView::Store { .. } => run.permitted && run.checked && (ticket ==> run.admitted)
            && (start.kind == StoreKind::Form ==> is_id(run.upload.id)),
        StoreStepView::Finished { result } => result is Ok ==> run.permitted && run.checked && (
        ticket ==> run.admitted),
    }
}

proof fn lemma_upload_run(start: UploadView, events: Seq<StoreEvent>)
    requires
        match start.step {
            StoreStepView::ParseClaims { .. } => start.kind == StoreKind::Ticket,
            StoreStepView::Permit => start.kind != StoreKind::Ticket,
            _ => false,
        },
    ensures
        upload_holds(upload_run(start, events), start),
    decreases events.len(),
{
    if events.len() > 0 {
        lemma_upload_run(start, events.drop_last());
    }
}

/// Nothing is stored, and no upload is answered with success, without a permit and a check of the
/// file type, nor, for an upload with a ticket, without a ticket that is good for it.
pub proof fn stored_uploads_were_checked(start: UploadView, events: Seq<StoreEvent>)
    requires
        match start.step {
            StoreStepView::ParseClaims { .. } => start.kind == StoreKind::Ticket,
            StoreStepView::Permit => start.kind != StoreKind::Ticket,
            _ => false,
        },
    ensures
        ({
            let run = upload_run(start, events);
            let success = run.upload.step matches StoreStepView::Finished { result } && result is Ok;
            run.upload.step is Store || success ==> run.permitted && run.checked && (start.kind
                == StoreKind::Ticket ==> run.admitted)
        }),
{
    lemma_upload_run(start, events);
}

/// A ticket decides the name, the size and, where it holds one, the capability of its upload; the
/// request cannot change them.
pub proof fn ticket_decides_upload(
    upload: UploadView,
    claims: TicketClaims,
    events: Seq<StoreEvent>,
)
    requires
        upload.kind == StoreKind::Ticket,
        upload.step is ParseClaims,
        ticket_error(upload.id, upload.headers, Some(claims), upload.max_size) is None,
    ensures
        ({
            let end = upload_run(upload.after(StoreEvent::Claims(Some(claims))), events).upload;
            &&& end.id == claims.file_id@
            &&& end.filename == claims.filename@
            &&& end.exact_size == Some(claims.file_size)
            &&& end.max_size == claims.file_size
            &&& claims.file_capability matches Some(c) ==> end.capability == Some(c@)
        }),
    decreases events.len(),
{
    if events.len() > 0 {
        ticket_decides_upload(upload, claims, events.drop_last());
        lemma_ticket_run(upload, claims, events.drop_last());
    }
}

/// After its ticket was read, an upload reads neither a ticket nor a form.
proof fn lemma_ticket_run(upload: UploadView, claims: TicketClaims, events: Seq<StoreEvent>)
    requires
        upload.kind == StoreKind::Ticket,
        upload.step is ParseClaims,
        ticket_error(upload.id, upload.headers, Some(claims), upload.max_size) is None,
    ensures
        ({
            let end = upload_run(upload.after(StoreEvent::Claims(Some(claims))), events).upload;
            end.kind == StoreKind::Ticket && !(end.step is ParseClaims) && !(end.step is ReadForm)
        }),
    decreases events.len(),
{
    if events.len() > 0 {
        lemma_ticket_run(upload, claims, events.drop_last());
    }
}

/// The bytes that came for an upload as a stream, all chunks one behind the other.
pub open spec fn bytes_that_came(upload: UploadView, events: Seq<StoreEvent>) -> Seq<u8>
    decreases events.len(),
{
    if events.len() == 0 {
        Seq::empty()
    } else {
        let before = bytes_that_came(upload, events.drop_last());
        match (upload_run(upload, events.drop_last()).upload.step, events.last()) {
            (StoreStepView::Sniff { .. }, StoreEvent::Chunk(Ok(chunk))) => before + chunk@,
            _ => before,
        }
    }
}

/// Whether `data` and what follows it are all of `bytes`, and `data` the first 512 of them.
pub open spec fn holds_all(data: Seq<u8>, tail: Option<Seq<u8>>, bytes: Seq<u8>) -> bool {
    &&& match tail {
        Some(rest) => data + rest == bytes && data.len() == 512,
        None => data == bytes && data.len() < 512,
    }
    &&& data == bytes.take(
        if bytes.len() < 512 {
            bytes.len() as int
        } else {
            512
        },
    )
}

spec fn stream_holds(start: UploadView, events: Seq<StoreEvent>) -> bool {
    let upload = upload_run(start, events).upload;
    let bytes = bytes_that_came(start, events);
    &&& upload.kind == start.kind
    &&& upload.id == start.id
    &&& start.kind == StoreKind::Stream ==> upload.filename == start.filename && upload.capability
        == start.capability && upload.max_size == start.max_size && upload.exact_size
        == start.exact_size
    &&& match upload.step {
        StoreStepView::ParseClaims { .. } => start.kind == StoreKind::Ticket && bytes.len() == 0,
        StoreStepView::Permit => bytes.len() == 0,
        StoreStepView::ReadForm { .. } => false,
        StoreStepView::Sniff { sniff } => sniff.tail is None && sniff.prefix == bytes && bytes.len()
            < 512,
        StoreStepView::Validate { data, tail } => holds_all(data, tail, bytes),
        StoreStepView::Store { name, data, tail } => holds_all(data, tail, bytes) && name
            == named_by_content(upload.filename, signature_of(data)),
        StoreStepView::Finished { .. } => true,
    }
}

proof fn lemma_stream_holds(start: UploadView, events: Seq<StoreEvent>)
    requires
        start.kind != StoreKind::Form,
        match start.step {
            StoreStepView::ParseClaims { .. } => start.kind == StoreKind::Ticket,
            StoreStepView::Permit => true,
            _ => false,
        },
    ensures
        stream_holds(start, events),
    decreases events.len(),
{
    if events.len() > 0 {
        lemma_stream_holds(start, events.drop_last());
        let before = upload_run(start, events.drop_last()).upload;
        let bytes = bytes_that_came(start, events.drop_last());
        assert(bytes.take(bytes.len() as int) =~= bytes);
        if bytes.len() == 0 {
            assert(bytes =~= Seq::<u8>::empty());
        }
        match (before.step, events.last()) {
            (StoreStepView::Sniff { sniff }, StoreEvent::Chunk(Ok(chunk))) => {
                let all = bytes + chunk@;
                let next = sniff.after(chunk@);
                let room = 512 - bytes.len();
                if chunk@.len() >= room {
                    assert(next.prefix =~= all.take(512));
                    assert(next.prefix + next.tail->0 =~= all);
                } else {
                    assert(next.prefix =~= all);
                    assert(all.take(all.len() as int) =~= all);
                }
            },
            _ => {},
        }
    }
}

/// Every byte of a streamed upload is stored, with or without a ticket and however it was cut into
/// chunks: what is checked and stored, with what follows it, are all bytes that came, in their order,
/// and what is looked at for the check are the first 512 of them, or all where there are fewer.
pub proof fn streamed_bytes_are_all_stored(start: UploadView, events: Seq<StoreEvent>)
    requires
        start.kind != StoreKind::Form,
        match start.step {
            StoreStepView::ParseClaims { .. } => start.kind == StoreKind::Ticket,
            StoreStepView::Permit => true,
            _ => false,
        },
    ensures
        match upload_run(start, events).upload.step {
            StoreStepView::Sniff { sniff } => sniff.tail is None && sniff.prefix == bytes_that_came(
                start,
                events,
            ),
            StoreStepView::Validate { data, tail } => holds_all(
                data,
                tail,
                bytes_that_came(start, events),
            ),
            StoreStepView::Store { data, tail, .. } => holds_all(
                data,
                tail,
                bytes_that_came(start, events),
            ),
            _ => true,
        },
{
    lemma_stream_holds(start, events);
}

/// A streamed upload is stored under the ID, with the capability and within the size that the request
/// gave, and its name is that of the request with the extension that its first bytes show.
pub proof fn streamed_upload_keeps_its_request(start: UploadView, events: Seq<StoreEvent>)
    requires
        start.kind == StoreKind::Stream,
        start.step is Permit,
    ensures
        ({
            let upload = upload_run(start, events).upload;
            &&& upload.id == start.id
            &&& upload.filename == start.filename
            &&& upload.capability == start.capability
            &&& upload.max_size == start.max_size
            &&& upload.exact_size == start.exact_size
            &&& upload.step matches StoreStepView::Store { name, data, .. } ==> name
                == named_by_content(start.filename, signature_of(data))
        }),
{
    lemma_stream_holds(start, events);
}

/// The events of a streamed upload that goes well up to its check.
pub open spec fn chunks_came(chunks: Seq<Vec<u8>>) -> Seq<StoreEvent>
    decreases chunks.len(),
{
    if chunks.len() == 0 {
        seq![StoreEvent::Permit(true)]
    } else {
        chunks_came(chunks.drop_last()).push(StoreEvent::Chunk(Ok(chunks.last())))
    }
}

/// All bytes of the chunks.
pub open spec fn chunk_bytes(chunks: Seq<Vec<u8>>) -> Seq<u8>
    decreases chunks.len(),
{
    if chunks.len() == 0 {
        Seq::empty()
    } else {
        chunk_bytes(chunks.drop_last()) + chunks.last()@
    }
}

proof fn lemma_chunks_came(start: UploadView, chunks: Seq<Vec<u8>>)
    requires
        start.kind != StoreKind::Form,
        start.step is Permit,
        chunks.len() > 0 ==> chunk_bytes(chunks.drop_last()).len() < 512,
    ensures
        ({
            let step = upload_run(start, chunks_came(chunks)).upload.step;
            &&& bytes_that_came(start, chunks_came(chunks)) == chunk_bytes(chunks)
            &&& if chunk_bytes(chunks).len() < 512 {
                step is Sniff
            } else {
                step is Validate
            }
        }),
    decreases chunks.len(),
{
    let events = chunks_came(chunks);
    let earlier = events.drop_last();
    lemma_stream_holds(start, events);
    lemma_stream_holds(start, earlier);
    if chunks.len() == 0 {
        assert(earlier =~= Seq::empty());
        assert(events.last() == StoreEvent::Permit(true));
        assert(upload_run(start, earlier).upload == start);
    } else {
        let fewer = chunks.drop_last();
        assert(earlier =~= chunks_came(fewer));
        if fewer.len() > 0 {
            assert(chunk_bytes(fewer) == chunk_bytes(fewer.drop_last()) + fewer.last()@);
        }
        lemma_chunks_came(start, fewer);
    }
}

/// A streamed upload with which nothing goes wrong is stored and answered with its ID, whatever its
/// name and its bytes are and however they were cut into chunks, where the chunks are those that came
/// before the check was due.
pub proof fn undisturbed_stream_is_stored(start: UploadView, chunks: Seq<Vec<u8>>)
    requires
        start.kind != StoreKind::Form,
        start.step is Permit,
        chunks.len() > 0 ==> chunk_bytes(chunks.drop_last()).len() < 512,
    ensures
        ({
            let ended = chunks_came(chunks).push(StoreEvent::End);
            let checked = ended.push(StoreEvent::Validated(FileValidation::Allowed));
            let stored = checked.push(StoreEvent::Stored(Ok(())));
            &&& upload_run(start, ended).upload.step matches StoreStepView::Validate { data, tail }
                && holds_all(data, tail, chunk_bytes(chunks))
            &&& upload_run(start, checked).upload.step matches StoreStepView::Store {
                name,
                data,
                tail,
            } && holds_all(data, tail, chunk_bytes(chunks))
            &&& upload_run(start, stored).upload.step matches StoreStepView::Finished {
                result: Ok(reply),
            } && reply.status == 200 && reply.body == crate::handlers::reply::ReplyBodyView::Json(
                seq![
                    ("status"@, crate::handlers::json::JsonValueView::Text("ok"@)),
                    ("id"@, crate::handlers::json::JsonValueView::Text(start.id)),
                ],
            )
        }),
{
    let came = chunks_came(chunks);
    let ended = came.push(StoreEvent::End);
    let checked = ended.push(StoreEvent::Validated(FileValidation::Allowed));
    let stored = checked.push(StoreEvent::Stored(Ok(())));
    lemma_chunks_came(start, chunks);
    assert(ended.drop_last() =~= came);
    assert(checked.drop_last() =~= ended);
    assert(stored.drop_last() =~= checked);
    lemma_stream_holds(start, came);
    lemma_stream_holds(start, ended);
    lemma_stream_holds(start, checked);
    assert(upload_run(start, ended).upload.step is Validate);
    assert(upload_run(start, checked).upload.step is Store);
    assert(bytes_that_came(start, ended) == chunk_bytes(chunks));
    assert(bytes_that_came(start, checked) == chunk_bytes(chunks));
}

/// An upload ends with an error for one of these causes and for no other: a ticket that is not good for
/// it, no permit, a form that cannot be read or lacks something, a file in it that is too large, a body
/// that broke off, a file type that is not allowed, or a storage that failed.
pub proof fn upload_fails_only_for_a_cause(upload: UploadView, event: StoreEvent)
    requires
        !(upload.step is Finished),
    ensures
        ({
            let error = upload.after(event).step;
            let cause = match (upload.step, event) {
                (StoreStepView::ParseClaims { .. }, StoreEvent::Claims(claims)) => ticket_error(
                    upload.id,
                    upload.headers,
                    claims,
                    upload.max_size,
                ),
                (StoreStepView::Permit, StoreEvent::Permit(false)) => Some(
                    JuicehostError::ServiceUnavailable,
                ),
                (StoreStepView::ReadForm { .. }, StoreEvent::Field(FieldRead::Unreadable)) => Some(
                    JuicehostError::BadRequest,
                ),
                (StoreStepView::ReadForm { .. }, StoreEvent::Field(FieldRead::File(data))) => if data@.len()
                    > upload.max_size {
                    Some(JuicehostError::PayloadTooLarge)
                } else {
                    None
                },
                (StoreStepView::ReadForm { form }, StoreEvent::End) => if form.data is None
                    || form.filename.len() == 0 || !is_id(form.id) {
                    Some(JuicehostError::BadRequest)
                } else {
                    None
                },
                (StoreStepView::Sniff { .. }, StoreEvent::Chunk(Err(_))) => Some(
                    JuicehostError::InternalServerError,
                ),
                (StoreStepView::Validate { .. }, StoreEvent::Validated(
                    FileValidation::Blocked(reason),
                )) => Some(
                    JuicehostError::BlockedFileType(crate::error::BlockReason::Kind(reason)),
                ),
                (StoreStepView::Validate { .. }, StoreEvent::Validated(FileValidation::Empty)) => Some(
                    JuicehostError::BlockedFileType(crate::error::BlockReason::Empty),
                ),
                (StoreStepView::Store { .. }, StoreEvent::Stored(Err(e))) => Some(storage_answer(e)),
                _ => None,
            };
            match cause {
                Some(e) => error == (StoreStepView::Finished { result: Err(e) }),
                None => !(error matches StoreStepView::Finished { result } && result is Err),
            }
        }),
{
}

/// A form as it was read: the last field of each kind counts.
pub open spec fn form_read(upload: UploadView, events: Seq<StoreEvent>) -> FormView
    decreases events.len(),
{
    if events.len() == 0 {
        FormView { id: Seq::empty(), filename: Seq::empty(), data: None }
    } else {
        let before = form_read(upload, events.drop_last());
        match (upload_run(upload, events.drop_last()).upload.step, events.last()) {
            (StoreStepView::ReadForm { .. }, StoreEvent::Field(FieldRead::Id(id))) => FormView {
                id: id@,
                ..before
            },
            (StoreStepView::ReadForm { .. }, StoreEvent::Field(FieldRead::Filename(name))) => FormView {
                filename: name@,
                ..before
            },
            (StoreStepView::ReadForm { .. }, StoreEvent::Field(FieldRead::File(data))) => FormView {
                data: Some(data@),
                ..before
            },
            _ => before,
        }
    }
}

/// A form is stored under the ID and the name in it, with all the bytes of the file in it: the last of
/// each where there are several. What else is in a form changes nothing.
pub proof fn form_is_stored_as_it_was_read(start: UploadView, events: Seq<StoreEvent>)
    requires
        start.kind == StoreKind::Form,
        start.step is Permit,
    ensures
        ({
            let upload = upload_run(start, events).upload;
            let read = form_read(start, events);
            &&& upload.kind == StoreKind::Form
            &&& upload.capability == start.capability
            &&& upload.max_size == start.max_size
            &&& upload.exact_size == start.exact_size
            &&& match upload.step {
                StoreStepView::ReadForm { form } => form == read,
                StoreStepView::Validate { data, tail } => upload.id == read.id && upload.filename
                    == read.filename && read.data == Some(data) && tail is None && data.len()
                    <= start.max_size,
                StoreStepView::Store { name, data, tail } => upload.id == read.id && upload.filename
                    == read.filename && read.data == Some(data) && tail is None && data.len()
                    <= start.max_size && name == named_by_content(read.filename, signature_of(data)),
                StoreStepView::Sniff { .. } | StoreStepView::ParseClaims { .. } => false,
                StoreStepView::Permit => read == (FormView {
                    id: Seq::empty(),
                    filename: Seq::empty(),
                    data: None,
                }),
                StoreStepView::Finished { result } => result matches Ok(reply) ==> reply
                    == stored_reply(read.id),
            }
            &&& read.data matches Some(data) ==> (upload.step is ReadForm ==> data.len()
                <= start.max_size)
        }),
    decreases events.len(),
{
    reveal_strlit("");
    assert(""@ =~= Seq::<char>::empty());
    if events.len() > 0 {
        form_is_stored_as_it_was_read(start, events.drop_last());
    }
}

/// A form that holds a valid ID, a name and a file is complete: it is checked, then stored, and then
/// answered with its ID.
pub proof fn complete_form_is_stored(upload: UploadView, form: FormView)
    requires
        upload.step == (StoreStepView::ReadForm { form }),
        form.data is Some,
        is_id(form.id),
        form.filename.len() > 0,
    ensures
        ({
            let read = upload.after(StoreEvent::End);
            let checked = read.after(StoreEvent::Validated(FileValidation::Allowed));
            let stored = checked.after(StoreEvent::Stored(Ok(())));
            &&& read.step == (StoreStepView::Validate { data: form.data->0, tail: None })
            &&& read.id == form.id
            &&& checked.step matches StoreStepView::Store { name, data, tail } && data
                == form.data->0 && tail is None
            &&& stored.step == (StoreStepView::Finished { result: Ok(stored_reply(form.id)) })
        }),
{
}

/// An upload is answered with success only once it was stored, and nothing but an answer to what was
/// asked moves it on.
pub proof fn upload_waits_for_its_answer(upload: UploadView, event: StoreEvent)
    ensures
        upload.step is Finished ==> upload.after(event) == upload,
        upload.step is ParseClaims && !(event is Claims) ==> upload.after(event) == upload,
        upload.step is Permit && !(event is Permit) ==> upload.after(event) == upload,
        upload.step is ReadForm && !(event is Field) && !(event is End) ==> upload.after(event)
            == upload,
        upload.step is Sniff && !(event is Chunk) && !(event is End) ==> upload.after(event)
            == upload,
        upload.step is Validate && !(event is Validated) ==> upload.after(event) == upload,
        upload.step is Store && !(event is Stored) ==> upload.after(event) == upload,
        !(upload.step is Finished) && (upload.after(event).step matches StoreStepView::Finished {
            result,
        } && result is Ok) ==> upload.step is Store && (event matches StoreEvent::Stored(outcome)
            && outcome is Ok),
{
}

/// A good ticket moves its upload on, to be stored under its ID with the name, the size and the
/// capability that the ticket gives.
pub proof fn good_ticket_moves_the_upload_on(upload: UploadView, claims: TicketClaims)
    requires
        upload.step is ParseClaims,
        claims.file_id@ == upload.id,
        claims.file_size <= upload.max_size,
        !crate::handlers::headers::has_header(upload.headers, "content-length"@)
            || crate::handlers::headers::header_text(upload.headers, "content-length"@) == Some(
            crate::text::decimal(claims.file_size as nat),
        ),
    ensures
        ({
            let next = upload.after(StoreEvent::Claims(Some(claims)));
            &&& next.step is Permit
            &&& next.id == upload.id
            &&& next.kind == upload.kind
            &&& next.filename == claims.filename@
            &&& next.max_size == claims.file_size
            &&& next.exact_size == Some(claims.file_size)
            &&& next.capability == (match claims.file_capability {
                Some(c) => Some(c@),
                None => carried_capability(upload.headers),
            })
        }),
{
    crate::handlers::upload::announced_length_must_be_that_of_the_ticket(
        upload.headers,
        claims,
        upload.max_size,
        claims.file_size,
    );
    crate::handlers::headers::read_headers_are_there(upload.headers, "content-length"@);
}

} // verus!
