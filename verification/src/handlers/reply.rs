//! Replies to requests.

use vstd::prelude::*;
use vstd::string::*;

use crate::error::JuicehostError;
use crate::handlers::headers::{is_header_value, valid_header_value};
use crate::handlers::json::{JsonObject, JsonValueView};

verus! {

/// What a reply holds.
#[derive(Debug, PartialEq, Eq)]
pub enum ReplyBody {
    Empty,
    /// The page that says that there is nothing.
    NotFoundPage,
    /// The page that says that the file of this name is still being uploaded.
    TeapotPage(String),
    /// The whole file.
    Whole,
    /// The bytes of the file from the first to the second offset, both included.
    Range(u64, u64),
    Json(JsonObject),
}

/// A reply: its status, its headers and what it holds.
#[derive(Debug, PartialEq, Eq)]
pub struct Reply {
    pub status: u16,
    pub headers: Vec<(&'static str, String)>,
    pub body: ReplyBody,
}

/// What a reply holds.
pub enum ReplyBodyView {
    Empty,
    NotFoundPage,
    TeapotPage(Seq<char>),
    Whole,
    Range(u64, u64),
    Json(Seq<(Seq<char>, JsonValueView)>),
}

/// What a reply says.
#[verifier::ext_equal]
pub struct ReplyView {
    pub status: u16,
    pub headers: Seq<(Seq<char>, Seq<char>)>,
    pub body: ReplyBodyView,
}

impl View for ReplyBody {
    type V = ReplyBodyView;

    open spec fn view(&self) -> ReplyBodyView {
        match self {
            ReplyBody::Empty => ReplyBodyView::Empty,
            ReplyBody::NotFoundPage => ReplyBodyView::NotFoundPage,
            ReplyBody::TeapotPage(name) => ReplyBodyView::TeapotPage(name@),
            ReplyBody::Whole => ReplyBodyView::Whole,
            ReplyBody::Range(start, end) => ReplyBodyView::Range(*start, *end),
            ReplyBody::Json(object) => ReplyBodyView::Json(object@),
        }
    }
}

impl View for Reply {
    type V = ReplyView;

    open spec fn view(&self) -> ReplyView {
        ReplyView {
            status: self.status,
            headers: self.headers@.map_values(|h: (&'static str, String)| (h.0@, h.1@)),
            body: self.body@,
        }
    }
}

/// Whether every header of a reply can be sent.
pub open spec fn sendable(reply: ReplyView) -> bool {
    forall|i: int| 0 <= i < reply.headers.len() ==> is_header_value(#[trigger] reply.headers[i].1)
}

/// A reply, or an error where one of its headers cannot be sent.
pub open spec fn sent(reply: ReplyView) -> Result<ReplyView, JuicehostError> {
    if sendable(reply) {
        Ok(reply)
    } else {
        Err(JuicehostError::InternalServerError)
    }
}

/// Whether a handler answered as a model says.
pub open spec fn answers(
    actual: Result<Reply, JuicehostError>,
    model: Result<ReplyView, JuicehostError>,
) -> bool {
    match (actual, model) {
        (Ok(a), Ok(b)) => a@ == b,
        (Err(a), Err(b)) => a == b,
        _ => false,
    }
}

/// The reply where there is nothing, which is not to be kept.
pub open spec fn not_found_reply() -> ReplyView {
    ReplyView {
        status: 404,
        headers: seq![("cache-control"@, "no-store"@)],
        body: ReplyBodyView::NotFoundPage,
    }
}

/// The reply that sends the client elsewhere.
pub open spec fn redirect_reply(status: u16, url: Seq<char>) -> ReplyView {
    ReplyView { status, headers: seq![("location"@, url)], body: ReplyBodyView::Empty }
}

/// The reply that a JSON object is.
pub open spec fn json_reply(object: Seq<(Seq<char>, JsonValueView)>) -> ReplyView {
    ReplyView { status: 200, headers: Seq::empty(), body: ReplyBodyView::Json(object) }
}

impl Reply {
    /// A reply without headers.
    pub fn new(status: u16, body: ReplyBody) -> (r: Reply)
        ensures
            r@ == (ReplyView { status, headers: Seq::empty(), body: body@ }),
    {
        let r = Reply { status, headers: Vec::new(), body };
        assert(r@.headers =~= Seq::<(Seq<char>, Seq<char>)>::empty());
        r
    }

    /// The reply with one more header.
    pub fn with(self, name: &'static str, value: String) -> (r: Reply)
        ensures
            r@ == (ReplyView { headers: self@.headers.push((name@, value@)), ..self@ }),
    {
        let Reply { status, headers, body } = self;
        let mut headers = headers;
        headers.push((name, value));
        let r = Reply { status, headers, body };
        assert(r@.headers =~= self@.headers.push((name@, value@)));
        r
    }

    /// The reply, or an error where one of its headers cannot be sent.
    pub fn send(self) -> (r: Result<Reply, JuicehostError>)
        ensures
            answers(r, sent(self@)),
            match r {
                Ok(reply) => reply@ == self@ && forall|i: int|
                    0 <= i < self@.headers.len() ==> is_header_value(#[trigger] self@.headers[i].1),
                Err(e) => e == JuicehostError::InternalServerError && exists|i: int|
                    0 <= i < self@.headers.len() && !is_header_value(#[trigger] self@.headers[i].1),
            },
    {
        let mut i: usize = 0;
        while i < self.headers.len()
            invariant
                i <= self.headers@.len(),
                forall|j: int| 0 <= j < i ==> is_header_value(#[trigger] self@.headers[j].1),
            decreases self.headers@.len() - i,
        {
            if !valid_header_value(self.headers[i].1.as_str()) {
                assert(!is_header_value(self@.headers[i as int].1));
                return Err(JuicehostError::InternalServerError);
            }
            i = i + 1;
        }
        Ok(self)
    }

    /// The reply where there is nothing, which is not to be kept.
    pub fn not_found() -> (r: Reply)
        ensures
            r@ == not_found_reply(),
            r@.status == 404,
            r@.headers == seq![("cache-control"@, "no-store"@)],
            r@.body is NotFoundPage,
    {
        let r = Reply::new(404, ReplyBody::NotFoundPage).with("cache-control", "no-store".to_owned());
        assert(r@.headers =~= not_found_reply().headers);
        r
    }

    /// The reply that sends the client elsewhere.
    pub fn redirect(status: u16, url: &str) -> (r: Reply)
        ensures
            r@ == redirect_reply(status, url@),
            r@.status == status,
            r@.headers == seq![("location"@, url@)],
            r@.body is Empty,
    {
        let r = Reply::new(status, ReplyBody::Empty).with("location", url.to_owned());
        assert(r@.headers =~= redirect_reply(status, url@).headers);
        r
    }

    /// The reply that a JSON object is.
    pub fn json(object: JsonObject) -> (r: Reply)
        ensures
            r@ == json_reply(object@),
            r@.status == 200,
            r@.headers.len() == 0,
            r@.body == ReplyBodyView::Json(object@),
    {
        Reply::new(200, ReplyBody::Json(object))
    }
}

} // verus!
