//! Serving files.

use vstd::prelude::*;
use vstd::string::*;

use crate::error::{storage_answer, JuicehostError, StorageError};
use crate::handlers::headers::{header_text, is_header_value, Headers};
use crate::handlers::json::{json_text, JsonPayload};
use crate::handlers::range::{parse_range, requested_range, served_range_is_bounded, RangeResult};
use crate::handlers::reply::{
    not_found_reply, redirect_reply, sent, Reply, ReplyBody, ReplyBodyView, ReplyView,
};
use crate::storage::content::{guess_mime, mime_of, with_charset};
use crate::storage::local::{etag_of, etags_can_be_sent, FileStat};
use crate::storage::names::{is_id, is_valid_id};
use crate::storage::FileMetadata;
use crate::text::{
    chars_of, decimal, decimal_text, find, find_char, same, text_of, text_view, trim_end_char,
    trim_start_char, without_leading, without_trailing,
};

verus! {

/// What is to be done next to answer a request for a file.
#[derive(Debug, PartialEq, Eq)]
pub enum ServeStep {
    /// Look up the metadata of the file.
    Stat,
    /// Ask the backend whether the file is still being uploaded.
    ProbeStatus,
    /// Ask the backend whether the file has got another ID.
    ProbeAlias,
    /// Try to get a permit for a download.
    Permit { meta: FileMetadata },
    /// Open the stream of a byte range.
    OpenRange { meta: FileMetadata, start: u64, end: u64 },
    /// Open the stream of the whole file.
    OpenWhole { meta: FileMetadata },
    /// Send the reply.
    Finished { result: Result<Reply, JuicehostError> },
}

/// What came of a step.
#[derive(Debug, PartialEq, Eq)]
pub enum ServeEvent {
    Stat(Result<FileMetadata, StorageError>),
    /// The JSON that the backend answered with, where it answered with success and JSON.
    Probe(Option<JsonPayload>),
    /// Whether there is a permit.
    Permit(bool),
    Opened(Result<(), StorageError>),
}

/// A request for a file.
#[derive(Debug, PartialEq, Eq)]
pub struct Serve {
    pub id: String,
    pub backend_url: Option<String>,
    /// The most bytes that a range is answered with.
    pub max_range: u64,
    pub if_none_match: Option<String>,
    pub range: Option<String>,
    pub step: ServeStep,
}

/// What is to be done next.
pub enum ServeStepView {
    Stat,
    ProbeStatus,
    ProbeAlias,
    Permit { meta: (u64, Seq<char>, Seq<char>) },
    OpenRange { meta: (u64, Seq<char>, Seq<char>), start: u64, end: u64 },
    OpenWhole { meta: (u64, Seq<char>, Seq<char>) },
    Finished { result: Result<ReplyView, JuicehostError> },
}

impl View for ServeStep {
    type V = ServeStepView;

    open spec fn view(&self) -> ServeStepView {
        match self {
            ServeStep::Stat => ServeStepView::Stat,
            ServeStep::ProbeStatus => ServeStepView::ProbeStatus,
            ServeStep::ProbeAlias => ServeStepView::ProbeAlias,
            ServeStep::Permit { meta } => ServeStepView::Permit { meta: meta@ },
            ServeStep::OpenRange { meta, start, end } => ServeStepView::OpenRange {
                meta: meta@,
                start: *start,
                end: *end,
            },
            ServeStep::OpenWhole { meta } => ServeStepView::OpenWhole { meta: meta@ },
            ServeStep::Finished { result } => ServeStepView::Finished {
                result: match result {
                    Ok(reply) => Ok(reply@),
                    Err(e) => Err(*e),
                },
            },
        }
    }
}

/// A request for a file as it stands.
pub struct ServeView {
    pub id: Seq<char>,
    pub backend_url: Option<Seq<char>>,
    pub max_range: u64,
    pub if_none_match: Option<Seq<char>>,
    pub range: Option<Seq<char>>,
    pub step: ServeStepView,
}

impl View for Serve {
    type V = ServeView;

    open spec fn view(&self) -> ServeView {
        ServeView {
            id: self.id@,
            backend_url: text_view(self.backend_url),
            max_range: self.max_range,
            if_none_match: text_view(self.if_none_match),
            range: text_view(self.range),
            step: self.step@,
        }
    }
}

/// The ID in the path of a request: what stands before the first dot.
pub open spec fn requested_id(path: Seq<char>) -> Seq<char> {
    match find(path, '.') {
        Some(i) => path.take(i),
        None => path,
    }
}

/// A text without quotes around it.
pub open spec fn unquoted(s: Seq<char>) -> Seq<char> {
    without_trailing(without_leading(s, '"'), '"')
}

/// The MIME type that a file of the given extension is sent with.
pub open spec fn content_type(extension: Seq<char>) -> Seq<char> {
    with_charset(mime_of("file."@ + extension))
}

/// The reply to a client that has the file already.
pub open spec fn not_modified_reply(etag: Seq<char>) -> ReplyView {
    ReplyView {
        status: 304,
        headers: seq![("cache-control"@, "no-store"@), ("etag"@, etag)],
        body: ReplyBodyView::Empty,
    }
}

/// The reply that holds a range of a file.
pub open spec fn partial_reply(
    meta: (u64, Seq<char>, Seq<char>),
    start: u64,
    end: u64,
) -> ReplyView {
    ReplyView {
        status: 206,
        headers: seq![
            ("content-type"@, content_type(meta.2)),
            ("content-length"@, decimal((end - start + 1) as nat)),
            (
                "content-range"@,
                "bytes "@ + decimal(start as nat) + "-"@ + decimal(end as nat) + "/"@ + decimal(
                    meta.0 as nat,
                ),
            ),
            ("cache-control"@, "no-store"@),
            ("etag"@, meta.1),
            ("accept-ranges"@, "bytes"@),
        ],
        body: ReplyBodyView::Range(start, end),
    }
}

/// The reply to a range that a file of `size` bytes does not have.
pub open spec fn unsatisfiable_reply(size: u64) -> ReplyView {
    ReplyView {
        status: 416,
        headers: seq![
            ("content-range"@, "bytes */"@ + decimal(size as nat)),
            ("accept-ranges"@, "bytes"@),
            ("cache-control"@, "no-store"@),
        ],
        body: ReplyBodyView::Empty,
    }
}

/// The reply that holds a whole file.
pub open spec fn whole_reply(meta: (u64, Seq<char>, Seq<char>)) -> ReplyView {
    ReplyView {
        status: 200,
        headers: seq![
            ("content-type"@, content_type(meta.2)),
            ("content-length"@, decimal(meta.0 as nat)),
            ("cache-control"@, "no-store"@),
            ("etag"@, meta.1),
            ("accept-ranges"@, "bytes"@),
        ],
        body: ReplyBodyView::Whole,
    }
}

/// The reply while a file is being uploaded.
pub open spec fn teapot_reply(filename: Seq<char>) -> ReplyView {
    ReplyView {
        status: 418,
        headers: Seq::empty(),
        body: ReplyBodyView::TeapotPage(filename),
    }
}

impl ServeView {
    /// A range is at least one byte long, and an opened one is not empty.
    pub open spec fn valid(self) -> bool {
        &&& self.max_range > 0
        &&& match self.step {
            ServeStepView::OpenRange { meta, start, end } => start <= end < meta.0,
            _ => true,
        }
    }

    /// What is to be done after the event. An event that does not answer the step changes nothing.
    pub open spec fn step_after(self, event: ServeEvent) -> ServeStepView {
        match (self.step, event) {
            (ServeStepView::Stat, ServeEvent::Stat(Ok(meta))) => if self.if_none_match is Some
                && unquoted(self.if_none_match->0) == unquoted(meta.etag@) {
                ServeStepView::Finished { result: sent(not_modified_reply(meta.etag@)) }
            } else {
                ServeStepView::Permit { meta: meta@ }
            },
            (ServeStepView::Stat, ServeEvent::Stat(Err(e))) => if e == StorageError::NotFound
                && self.backend_url is Some {
                ServeStepView::ProbeStatus
            } else {
                ServeStepView::Finished { result: Ok(not_found_reply()) }
            },
            (ServeStepView::ProbeStatus, ServeEvent::Probe(answer)) => match answer {
                Some(body) => if json_text(body, "status"@) == Some("uploading"@) {
                    ServeStepView::Finished {
                        result: Ok(
                            teapot_reply(
                                match json_text(body, "filename"@) {
                                    Some(name) => name,
                                    None => "upload"@,
                                },
                            ),
                        ),
                    }
                } else {
                    ServeStepView::ProbeAlias
                },
                None => ServeStepView::ProbeAlias,
            },
            (ServeStepView::ProbeAlias, ServeEvent::Probe(answer)) => ServeStepView::Finished {
                result: match answer {
                    Some(body) => match json_text(body, "url"@) {
                        Some(url) => sent(redirect_reply(301, url)),
                        None => Ok(not_found_reply()),
                    },
                    None => Ok(not_found_reply()),
                },
            },
            (ServeStepView::Permit { meta }, ServeEvent::Permit(granted)) => if !granted {
                ServeStepView::Finished { result: Err(JuicehostError::ServiceUnavailable) }
            } else {
                match self.range {
                    None => ServeStepView::OpenWhole { meta },
                    Some(header) => match requested_range(header, meta.0, self.max_range) {
                        RangeResult::Satisfiable(start, end) => ServeStepView::OpenRange {
                            meta,
                            start,
                            end,
                        },
                        RangeResult::Unsatisfiable => ServeStepView::Finished {
                            result: sent(unsatisfiable_reply(meta.0)),
                        },
                        RangeResult::Ignore => ServeStepView::OpenWhole { meta },
                    },
                }
            },
            (ServeStepView::OpenRange { meta, start, end }, ServeEvent::Opened(outcome)) =>
            ServeStepView::Finished {
                result: match outcome {
                    Ok(_) => sent(partial_reply(meta, start, end)),
                    Err(e) => Err(storage_answer(e)),
                },
            },
            (ServeStepView::OpenWhole { meta }, ServeEvent::Opened(outcome)) =>
            ServeStepView::Finished {
                result: match outcome {
                    Ok(_) => sent(whole_reply(meta)),
                    Err(e) => Err(storage_answer(e)),
                },
            },
            (step, _) => step,
        }
    }
}

fn unquote(s: &str) -> (r: &str)
    ensures
        r@ == unquoted(s@),
{
    trim_end_char(trim_start_char(s, '"'), '"')
}

fn not_modified(etag: &str) -> (r: Reply)
    ensures
        r@ == not_modified_reply(etag@),
{
    let r = Reply::new(304, ReplyBody::Empty).with("cache-control", "no-store".to_owned()).with(
        "etag",
        etag.to_owned(),
    );
    assert(r@.headers =~= not_modified_reply(etag@).headers);
    r
}

fn partial(meta: &FileMetadata, start: u64, end: u64) -> (r: Reply)
    requires
        start <= end < meta.size,
    ensures
        r@ == partial_reply(meta@, start, end),
{
    let range = "bytes ".to_owned().concat(decimal_text(start).as_str()).concat("-").concat(
        decimal_text(end).as_str(),
    ).concat("/").concat(decimal_text(meta.size).as_str());
    let r = Reply::new(206, ReplyBody::Range(start, end)).with(
        "content-type",
        guess_mime(meta.extension.as_str()),
    ).with("content-length", decimal_text(end - start + 1)).with("content-range", range).with(
        "cache-control",
        "no-store".to_owned(),
    ).with("etag", meta.etag.clone()).with("accept-ranges", "bytes".to_owned());
    assert(r@.headers =~= partial_reply(meta@, start, end).headers);
    r
}

fn unsatisfiable(size: u64) -> (r: Reply)
    ensures
        r@ == unsatisfiable_reply(size),
{
    let range = "bytes */".to_owned().concat(decimal_text(size).as_str());
    let r = Reply::new(416, ReplyBody::Empty).with("content-range", range).with(
        "accept-ranges",
        "bytes".to_owned(),
    ).with("cache-control", "no-store".to_owned());
    assert(r@.headers =~= unsatisfiable_reply(size).headers);
    r
}

fn whole(meta: &FileMetadata) -> (r: Reply)
    ensures
        r@ == whole_reply(meta@),
{
    let r = Reply::new(200, ReplyBody::Whole).with(
        "content-type",
        guess_mime(meta.extension.as_str()),
    ).with("content-length", decimal_text(meta.size)).with(
        "cache-control",
        "no-store".to_owned(),
    ).with("etag", meta.etag.clone()).with("accept-ranges", "bytes".to_owned());
    assert(r@.headers =~= whole_reply(meta@).headers);
    r
}

fn uploading(body: &JsonPayload) -> (r: bool)
    ensures
        r == (json_text(*body, "status"@) == Some("uploading"@)),
{
    match body.text("status") {
        Some(status) => same(status, "uploading"),
        None => false,
    }
}

/// Starts to answer a request for `/f/{path}`; what follows the first dot of the path is not
/// looked at.
pub fn serve_file_wildcard(
    path: &str,
    headers: &Headers,
    backend_url: Option<&str>,
    max_range: u64,
) -> (r: Serve)
    requires
        max_range > 0,
    ensures
        r@.valid(),
        r@.id == requested_id(path@),
        r@.backend_url == (match backend_url {
            Some(url) => Some(url@),
            None => None,
        }),
        r@.max_range == max_range,
        r@.if_none_match == header_text(headers@, "if-none-match"@),
        r@.range == header_text(headers@, "range"@),
        r@.step == (if is_id(requested_id(path@)) {
            ServeStepView::Stat
        } else {
            ServeStepView::Finished { result: Err(JuicehostError::BadRequest) }
        }),
{
    let v = chars_of(path);
    let n: usize = v.len();
    let id = match find_char(&v, '.') {
        Some(i) => text_of(&v, 0, i),
        None => text_of(&v, 0, n),
    };
    assert(id@ =~= requested_id(path@));
    let if_none_match = match headers.get("if-none-match") {
        Some(value) => Some(value.to_owned()),
        None => None,
    };
    let range = match headers.get("range") {
        Some(value) => Some(value.to_owned()),
        None => None,
    };
    let backend_url = match backend_url {
        Some(url) => Some(url.to_owned()),
        None => None,
    };
    let step = if is_valid_id(id.as_str()) {
        ServeStep::Stat
    } else {
        ServeStep::Finished { result: Err(JuicehostError::BadRequest) }
    };
    Serve { id, backend_url, max_range, if_none_match, range, step }
}

impl Serve {
    /// Where the backend tells whether the file is still being uploaded.
    pub fn status_url(&self) -> (r: Option<String>)
        ensures
            text_view(r) == (match self@.backend_url {
                Some(url) => Some(url + "/internal/file/"@ + self@.id + "/status"@),
                None => None,
            }),
    {
        match &self.backend_url {
            Some(url) => Some(
                url.clone().concat("/internal/file/").concat(self.id.as_str()).concat("/status"),
            ),
            None => None,
        }
    }

    /// Where the backend tells whether the file has got another ID.
    pub fn alias_url(&self) -> (r: Option<String>)
        ensures
            text_view(r) == (match self@.backend_url {
                Some(url) => Some(url + "/internal/alias/"@ + self@.id),
                None => None,
            }),
    {
        match &self.backend_url {
            Some(url) => Some(url.clone().concat("/internal/alias/").concat(self.id.as_str())),
            None => None,
        }
    }

    /// Goes on with what came of the step.
    pub fn step(self, event: ServeEvent) -> (r: Serve)
        requires
            self@.valid(),
        ensures
            r@.valid(),
            r@ == (ServeView { step: self@.step_after(event), ..self@ }),
    {
        let Serve { id, backend_url, max_range, if_none_match, range, step } = self;
        let next = match (step, event) {
            (ServeStep::Stat, ServeEvent::Stat(Ok(meta))) => {
                let same_etag = match &if_none_match {
                    Some(value) => same(unquote(value.as_str()), unquote(meta.etag.as_str())),
                    None => false,
                };
                if same_etag {
                    ServeStep::Finished { result: not_modified(meta.etag.as_str()).send() }
                } else {
                    ServeStep::Permit { meta }
                }
            },
            (ServeStep::Stat, ServeEvent::Stat(Err(e))) => match (e, &backend_url) {
                (StorageError::NotFound, Some(_)) => ServeStep::ProbeStatus,
                _ => ServeStep::Finished { result: Ok(Reply::not_found()) },
            },
            (ServeStep::ProbeStatus, ServeEvent::Probe(answer)) => match answer {
                Some(body) => if uploading(&body) {
                    let filename = match body.text("filename") {
                        Some(name) => name.to_owned(),
                        None => "upload".to_owned(),
                    };
                    ServeStep::Finished {
                        result: Ok(Reply::new(418, ReplyBody::TeapotPage(filename))),
                    }
                } else {
                    ServeStep::ProbeAlias
                },
                None => ServeStep::ProbeAlias,
            },
            (ServeStep::ProbeAlias, ServeEvent::Probe(answer)) => {
                let result = match answer {
                    Some(body) => match body.text("url") {
                        Some(url) => Reply::redirect(301, url).send(),
                        None => Ok(Reply::not_found()),
                    },
                    None => Ok(Reply::not_found()),
                };
                ServeStep::Finished { result }
            },
            (ServeStep::Permit { meta }, ServeEvent::Permit(granted)) => if !granted {
                ServeStep::Finished { result: Err(JuicehostError::ServiceUnavailable) }
            } else {
                match &range {
                    None => ServeStep::OpenWhole { meta },
                    Some(header) => {
                        proof {
                            served_range_is_bounded(header@, meta.size, max_range);
                        }
                        match parse_range(header.as_str(), meta.size, max_range) {
                            RangeResult::Satisfiable(start, end) => ServeStep::OpenRange {
                                meta,
                                start,
                                end,
                            },
                            RangeResult::Unsatisfiable => ServeStep::Finished {
                                result: unsatisfiable(meta.size).send(),
                            },
                            RangeResult::Ignore => ServeStep::OpenWhole { meta },
                        }
                    },
                }
            },
            (ServeStep::OpenRange { meta, start, end }, ServeEvent::Opened(outcome)) => {
                let result = match outcome {
                    Ok(_) => partial(&meta, start, end).send(),
                    Err(e) => Err(JuicehostError::from(e)),
                };
                ServeStep::Finished { result }
            },
            (ServeStep::OpenWhole { meta }, ServeEvent::Opened(outcome)) => {
                let result = match outcome {
                    Ok(_) => whole(&meta).send(),
                    Err(e) => Err(JuicehostError::from(e)),
                };
                ServeStep::Finished { result }
            },
            (step, _) => step,
        };
        Serve { id, backend_url, max_range, if_none_match, range, step: next }
    }
}

/// Whether a reply tells that it must not be kept.
pub open spec fn forbids_storing(reply: ReplyView) -> bool {
    reply.headers.contains(("cache-control"@, "no-store"@))
}

/// Every reply about the bytes of a file, and the reply that there is no such file, tell that they
/// must not be kept. The two replies that come from the backend in place of a file say nothing of
/// it: the page while a file is being uploaded (418), and the redirect of an alias (301).
pub proof fn file_replies_forbid_storing(serve: ServeView, event: ServeEvent)
    requires
        !(serve.step is Finished),
    ensures
        serve.step_after(event) matches ServeStepView::Finished { result: Ok(reply) } ==> match serve.step {
            ServeStepView::ProbeStatus => reply.status == 418,
            ServeStepView::ProbeAlias => reply.status == 301 || forbids_storing(reply),
            _ => forbids_storing(reply),
        },
{
    let item = ("cache-control"@, "no-store"@);
    assert(not_found_reply().headers[0] == item);
    match serve.step {
        ServeStepView::Stat => match event {
            ServeEvent::Stat(Ok(meta)) => {
                assert(not_modified_reply(meta.etag@).headers[0] == item);
            },
            _ => {},
        },
        ServeStepView::Permit { meta } => {
            assert(unsatisfiable_reply(meta.0).headers[2] == item);
        },
        ServeStepView::OpenRange { meta, start, end } => {
            assert(partial_reply(meta, start, end).headers[3] == item);
        },
        ServeStepView::OpenWhole { meta } => {
            assert(whole_reply(meta).headers[2] == item);
        },
        _ => {},
    }
}

/// A number can be sent in a header.
proof fn lemma_decimal_can_be_sent(n: nat)
    ensures
        is_header_value(decimal(n)),
    decreases n,
{
    if n >= 10 {
        lemma_decimal_can_be_sent(n / 10);
    }
}

/// What a file is answered with is sent, and no error in its place, where its ETag and its MIME
/// type can be sent. That it has not changed needs the ETag alone, and that it does not have a
/// range needs neither.
pub proof fn file_replies_are_sent(meta: (u64, Seq<char>, Seq<char>), start: u64, end: u64)
    requires
        start <= end,
    ensures
        sent(unsatisfiable_reply(meta.0)) == Ok::<ReplyView, JuicehostError>(
            unsatisfiable_reply(meta.0),
        ),
        is_header_value(meta.1) ==> sent(not_modified_reply(meta.1)) == Ok::<
            ReplyView,
            JuicehostError,
        >(not_modified_reply(meta.1)),
        is_header_value(meta.1) && is_header_value(content_type(meta.2)) ==> {
            &&& sent(whole_reply(meta)) == Ok::<ReplyView, JuicehostError>(whole_reply(meta))
            &&& sent(partial_reply(meta, start, end)) == Ok::<ReplyView, JuicehostError>(
                partial_reply(meta, start, end),
            )
        },
{
    reveal_strlit("no-store");
    reveal_strlit("bytes");
    reveal_strlit("bytes ");
    reveal_strlit("bytes */");
    reveal_strlit("-");
    reveal_strlit("/");
    lemma_decimal_can_be_sent(meta.0 as nat);
    lemma_decimal_can_be_sent(start as nat);
    lemma_decimal_can_be_sent(end as nat);
    lemma_decimal_can_be_sent((end - start + 1) as nat);
    assert(is_header_value("no-store"@));
    assert(is_header_value("bytes"@));
    assert(is_header_value("bytes */"@ + decimal(meta.0 as nat)));
    assert(is_header_value(
        "bytes "@ + decimal(start as nat) + "-"@ + decimal(end as nat) + "/"@ + decimal(
            meta.0 as nat,
        ),
    ));
}

/// A file on the local disk that the client has already is answered so: its ETag can be sent.
pub proof fn unchanged_local_file_is_told(serve: ServeView, meta: FileMetadata, stat: FileStat)
    requires
        serve.step is Stat,
        meta.etag@ == etag_of(stat),
        serve.if_none_match == Some(etag_of(stat)),
    ensures
        serve.step_after(ServeEvent::Stat(Ok(meta))) == (ServeStepView::Finished {
            result: Ok(not_modified_reply(etag_of(stat))),
        }),
{
    etags_can_be_sent(stat);
    file_replies_are_sent((0, etag_of(stat), Seq::empty()), 0, 0);
}

/// A range that is opened is not empty, lies within the file, and is no longer than the limit.
pub proof fn opened_ranges_are_bounded(serve: ServeView, event: ServeEvent)
    requires
        serve.max_range > 0,
        serve.step is Permit,
    ensures
        serve.step_after(event) matches ServeStepView::OpenRange { meta, start, end } ==> start
            <= end < meta.0 && end - start < serve.max_range,
{
    match (serve.step, serve.range) {
        (ServeStepView::Permit { meta }, Some(header)) => {
            served_range_is_bounded(header, meta.0, serve.max_range);
        },
        _ => {},
    }
}

/// A client that sends back the ETag it got, with or without quotes, is told that it has the file.
pub proof fn known_etag_is_not_sent_again(serve: ServeView, meta: FileMetadata)
    requires
        serve.step is Stat,
        serve.if_none_match is Some,
        unquoted(serve.if_none_match->0) == unquoted(meta.etag@),
    ensures
        serve.step_after(ServeEvent::Stat(Ok(meta))) == (ServeStepView::Finished {
            result: sent(not_modified_reply(meta.etag@)),
        }),
{
}

/// A file that was found is not sent exactly where the client has it: where what the client sent back,
/// without the quotes around it, is the ETag of the file without those around it. Any difference
/// between the two, and a client that sent nothing back, gets the file.
pub proof fn unchanged_is_told_only_of_the_same_etag(serve: ServeView, meta: FileMetadata)
    requires
        serve.step is Stat,
    ensures
        ({
            let next = serve.step_after(ServeEvent::Stat(Ok(meta)));
            let known = serve.if_none_match matches Some(tag) && unquoted(tag) == unquoted(
                meta.etag@,
            );
            &&& known ==> next == (ServeStepView::Finished {
                result: sent(not_modified_reply(meta.etag@)),
            })
            &&& !known ==> next == (ServeStepView::Permit { meta: meta@ })
        }),
{
}

/// ETags are compared letter by letter, and the quotes around them do not count: of two tags without
/// quotes in them, each sent with or without quotes around it, the file counts as unchanged exactly
/// where they are the same.
pub proof fn etags_are_compared_whole(
    serve: ServeView,
    meta: FileMetadata,
    sent_back: Seq<char>,
    current: Seq<char>,
)
    requires
        serve.step is Stat,
        !sent_back.contains('"'),
        !current.contains('"'),
        serve.if_none_match == Some(sent_back) || serve.if_none_match == Some(
            seq!['"'] + sent_back + seq!['"'],
        ),
        meta.etag@ == current || meta.etag@ == seq!['"'] + current + seq!['"'],
    ensures
        ({
            let next = serve.step_after(ServeEvent::Stat(Ok(meta)));
            if sent_back == current {
                next == (ServeStepView::Finished { result: sent(not_modified_reply(meta.etag@)) })
            } else {
                next == (ServeStepView::Permit { meta: meta@ })
            }
        }),
{
    lemma_unquoted(sent_back);
    lemma_unquoted(current);
}

proof fn lemma_unquoted(tag: Seq<char>)
    requires
        !tag.contains('"'),
    ensures
        unquoted(tag) == tag,
        unquoted(seq!['"'] + tag + seq!['"']) == tag,
{
    if tag.len() > 0 {
        assert(tag.contains(tag[0]));
        assert(tag.contains(tag[tag.len() - 1]));
    }
    crate::text::only_the_outer_run_is_dropped(tag, '"');
}

/// What a 304 tells: the ETag of the file, and no contents.
pub proof fn unchanged_reply_has_no_contents(etag: Seq<char>)
    ensures
        ({
            let reply = not_modified_reply(etag);
            &&& reply.status == 304
            &&& reply.body is Empty
            &&& reply.headers.contains(("etag"@, etag))
            &&& reply.headers.contains(("cache-control"@, "no-store"@))
        }),
{
    let h = not_modified_reply(etag).headers;
    assert(h.contains(h[0]) && h.contains(h[1]));
}

/// What a 200 tells: the whole file, its size, its MIME type, its ETag, and that ranges can be had.
pub proof fn whole_reply_tells_of_the_file(meta: (u64, Seq<char>, Seq<char>))
    ensures
        ({
            let reply = whole_reply(meta);
            &&& reply.status == 200
            &&& reply.body is Whole
            &&& reply.headers.contains(("content-length"@, decimal(meta.0 as nat)))
            &&& reply.headers.contains(("content-type"@, content_type(meta.2)))
            &&& reply.headers.contains(("etag"@, meta.1))
            &&& reply.headers.contains(("accept-ranges"@, "bytes"@))
            &&& reply.headers.contains(("cache-control"@, "no-store"@))
            &&& reply.headers.len() == 5
        }),
{
    let h = whole_reply(meta).headers;
    assert(h.contains(h[0]) && h.contains(h[1]) && h.contains(h[2]) && h.contains(h[3]) && h.contains(
        h[4],
    ));
}

/// What a 206 tells: exactly the bytes from the first to the last position, how many they are, where in
/// the file they stand, and the ETag and the MIME type of the file.
pub proof fn partial_reply_tells_of_the_range(
    meta: (u64, Seq<char>, Seq<char>),
    start: u64,
    end: u64,
)
    requires
        start <= end,
    ensures
        ({
            let reply = partial_reply(meta, start, end);
            &&& reply.status == 206
            &&& reply.body == ReplyBodyView::Range(start, end)
            &&& reply.headers.contains(("content-length"@, decimal((end - start + 1) as nat)))
            &&& reply.headers.contains(
                (
                    "content-range"@,
                    "bytes "@ + decimal(start as nat) + "-"@ + decimal(end as nat) + "/"@ + decimal(
                        meta.0 as nat,
                    ),
                ),
            )
            &&& reply.headers.contains(("content-type"@, content_type(meta.2)))
            &&& reply.headers.contains(("etag"@, meta.1))
            &&& reply.headers.contains(("accept-ranges"@, "bytes"@))
            &&& reply.headers.contains(("cache-control"@, "no-store"@))
            &&& reply.headers.len() == 6
        }),
{
    let h = partial_reply(meta, start, end).headers;
    assert(h.contains(h[0]) && h.contains(h[1]) && h.contains(h[2]) && h.contains(h[3]) && h.contains(
        h[4],
    ) && h.contains(h[5]));
}

/// What a 416 tells: the size of the file, and no contents.
pub proof fn unsatisfiable_reply_tells_the_size(size: u64)
    ensures
        ({
            let reply = unsatisfiable_reply(size);
            &&& reply.status == 416
            &&& reply.body is Empty
            &&& reply.headers.contains(("content-range"@, "bytes */"@ + decimal(size as nat)))
        }),
{
    let h = unsatisfiable_reply(size).headers;
    assert(h.contains(h[0]));
}

/// A file for which there is a permit is opened: all of it where no range was asked for or the header
/// is ignored, and otherwise the range that was asked for. Without a permit the client is put off.
pub proof fn permitted_file_is_opened(
    serve: ServeView,
    meta: (u64, Seq<char>, Seq<char>),
    granted: bool,
)
    requires
        serve.step == (ServeStepView::Permit { meta }),
        serve.max_range > 0,
    ensures
        ({
            let next = serve.step_after(ServeEvent::Permit(granted));
            if !granted {
                next == (ServeStepView::Finished { result: Err(JuicehostError::ServiceUnavailable) })
            } else if serve.range is None {
                next == (ServeStepView::OpenWhole { meta })
            } else {
                match requested_range(serve.range->0, meta.0, serve.max_range) {
                    RangeResult::Satisfiable(start, end) => next == (ServeStepView::OpenRange {
                        meta,
                        start,
                        end,
                    }),
                    RangeResult::Ignore => next == (ServeStepView::OpenWhole { meta }),
                    RangeResult::Unsatisfiable => next == (ServeStepView::Finished {
                        result: Ok(unsatisfiable_reply(meta.0)),
                    }),
                }
            }
        }),
{
    file_replies_are_sent(meta, 0, 0);
}

/// The range of a file from a position on begins at that position, and is sent so.
pub proof fn range_is_served_from_its_start(
    serve: ServeView,
    meta: (u64, Seq<char>, Seq<char>),
    start: u64,
)
    requires
        serve.step == (ServeStepView::Permit { meta }),
        serve.max_range > 0,
        start < meta.0,
        serve.range == Some("bytes="@ + decimal(start as nat) + seq!['-']),
        is_header_value(meta.1),
        is_header_value(content_type(meta.2)),
    ensures
        ({
            let opened = serve.step_after(ServeEvent::Permit(true));
            opened matches ServeStepView::OpenRange { meta: found, start: from, end } && found
                == meta && from == start && (ServeView { step: opened, ..serve }).step_after(
                ServeEvent::Opened(Ok(())),
            ) == (ServeStepView::Finished { result: Ok(partial_reply(meta, start, end)) }) && end
                < meta.0 && end - start < serve.max_range && (end == meta.0 - 1 || end - start + 1
                == serve.max_range)
        }),
{
    crate::handlers::range::range_begins_where_it_is_asked_for(
        start,
        start,
        meta.0,
        serve.max_range,
    );
    match serve.step_after(ServeEvent::Permit(true)) {
        ServeStepView::OpenRange { start, end, .. } => {
            file_replies_are_sent(meta, start, end);
        },
        _ => {},
    }
}

/// A file that was opened is sent, and one that could not be opened is answered with that error.
pub proof fn opened_file_is_sent(serve: ServeView, outcome: Result<(), StorageError>)
    requires
        serve.step is OpenWhole || serve.step is OpenRange,
    ensures
        match (serve.step, outcome) {
            (ServeStepView::OpenWhole { meta }, Ok(_)) => serve.step_after(
                ServeEvent::Opened(outcome),
            ) == (ServeStepView::Finished { result: sent(whole_reply(meta)) }),
            (ServeStepView::OpenRange { meta, start, end }, Ok(_)) => serve.step_after(
                ServeEvent::Opened(outcome),
            ) == (ServeStepView::Finished { result: sent(partial_reply(meta, start, end)) }),
            (_, Err(e)) => serve.step_after(ServeEvent::Opened(outcome)) == (
            ServeStepView::Finished { result: Err(storage_answer(e)) }),
            _ => true,
        },
{
}

/// A file that is not stored is answered with 404, unless there is a backend to ask: it is asked first
/// whether the file is being uploaded, then whether it has another ID.
pub proof fn missing_file_is_asked_for(serve: ServeView, error: StorageError)
    requires
        serve.step is Stat,
    ensures
        ({
            let next = serve.step_after(ServeEvent::Stat(Err(error)));
            if error is NotFound && serve.backend_url is Some {
                next is ProbeStatus
            } else {
                next matches ServeStepView::Finished { result: Ok(reply) } && reply.status == 404
                    && reply.body is NotFoundPage
            }
        }),
{
}

/// What the backend says of a missing file decides the answer: a file that is being uploaded is waited
/// for, under its name; one with another ID is redirected to; any other is missing.
pub proof fn backend_decides_of_a_missing_file(serve: ServeView, answer: Option<JsonPayload>)
    ensures
        serve.step is ProbeStatus ==> ({
            let next = serve.step_after(ServeEvent::Probe(answer));
            if answer is Some && json_text(answer->0, "status"@) == Some("uploading"@) {
                next matches ServeStepView::Finished { result: Ok(reply) } && reply.status == 418
                    && reply.body == ReplyBodyView::TeapotPage(
                    match json_text(answer->0, "filename"@) {
                        Some(name) => name,
                        None => "upload"@,
                    },
                )
            } else {
                next is ProbeAlias
            }
        }),
        serve.step is ProbeAlias ==> ({
            let next = serve.step_after(ServeEvent::Probe(answer));
            if answer is Some && json_text(answer->0, "url"@) is Some {
                let url = json_text(answer->0, "url"@)->0;
                if is_header_value(url) {
                    next matches ServeStepView::Finished { result: Ok(reply) } && reply.status == 301
                        && reply.headers == seq![("location"@, url)]
                } else {
                    next == (ServeStepView::Finished {
                        result: Err(JuicehostError::InternalServerError),
                    })
                }
            } else {
                next matches ServeStepView::Finished { result: Ok(reply) } && reply.status == 404
                    && reply.body is NotFoundPage
            }
        }),
{
    match (serve.step, answer) {
        (ServeStepView::ProbeAlias, Some(body)) => {
            if json_text(body, "url"@) is Some {
                let url = json_text(body, "url"@)->0;
                let reply = redirect_reply(301, url);
                assert(reply.headers[0].1 == url);
            }
        },
        _ => {},
    }
}

/// What follows the first dot of a path is not looked at: the ID is what stands before it, or all of
/// the path where there is none.
pub proof fn path_is_read_up_to_its_dot(id: Seq<char>, rest: Seq<char>)
    requires
        !id.contains('.'),
    ensures
        requested_id(id) == id,
        requested_id(id + seq!['.'] + rest) == id,
{
    crate::text::lemma_find(id, '.');
    if find(id, '.') is Some {
        assert(id.contains(id[find(id, '.')->0]));
    }
    let path = id + seq!['.'] + rest;
    crate::text::lemma_find(path, '.');
    assert(path[id.len() as int] == '.');
    assert(path.contains(path[id.len() as int]));
    let i = find(path, '.')->0;
    if i < id.len() {
        assert(path[i] == id[i]);
        assert(id.contains(id[i]));
    }
    assert(path.take(id.len() as int) =~= id);
}

/// A request that has ended says no more, and nothing but an answer to what was asked moves it on.
pub proof fn serving_waits_for_its_answer(serve: ServeView, event: ServeEvent)
    ensures
        serve.step is Finished ==> serve.step_after(event) == serve.step,
        serve.step is Stat && !(event is Stat) ==> serve.step_after(event) == serve.step,
        (serve.step is ProbeStatus || serve.step is ProbeAlias) && !(event is Probe)
            ==> serve.step_after(event) == serve.step,
        serve.step is Permit && !(event is Permit) ==> serve.step_after(event) == serve.step,
        (serve.step is OpenWhole || serve.step is OpenRange) && !(event is Opened)
            ==> serve.step_after(event) == serve.step,
{
}

} // verus!
