//! Requests to be sent and the replies to them.

use crate::json::json_view;
use crate::json::JsonView;
use crate::text::copy_text;
use crate::text::lossy;
use crate::text::text_from_utf8_lossy;
use vstd::prelude::*;

verus! {

/// The method of a request.
#[derive(Debug, Clone, Copy, PartialEq, Eq, Structural)]
pub enum Method {
    Get,
    Post,
    Put,
    Delete,
}

/// A header of a request, or a field of a form.
#[derive(Debug)]
pub struct Pair {
    pub name: String,
    pub value: String,
}

/// What a request carries.
#[derive(Debug)]
pub enum Body {
    Empty,
    Text(String),
    Form(Vec<Pair>),
    /// A JSON document.
    Json(serde_json::Value),
}

pub enum BodyView {
    Empty,
    Text(Seq<char>),
    Form(Seq<(Seq<char>, Seq<char>)>),
    Json(JsonView),
}

/// A request to be sent.
#[derive(Debug)]
pub struct HttpRequest {
    pub method: Method,
    pub url: String,
    pub headers: Vec<Pair>,
    pub body: Body,
    /// After how many seconds to give up, if at all.
    pub timeout_secs: Option<u64>,
}

pub struct HttpRequestView {
    pub method: Method,
    pub url: Seq<char>,
    pub headers: Seq<(Seq<char>, Seq<char>)>,
    pub body: BodyView,
    pub timeout_secs: Option<u64>,
}

/// A reply: the status, and the body or what went wrong while it was read.
#[derive(Debug)]
pub struct HttpReply {
    pub status: u16,
    pub body: Result<Vec<u8>, String>,
}

pub struct HttpReplyView {
    pub status: u16,
    pub body: Result<Seq<u8>, Seq<char>>,
}

/// The names and values of a list of pairs.
pub open spec fn pairs(list: Seq<Pair>) -> Seq<(Seq<char>, Seq<char>)> {
    Seq::new(list.len(), |i: int| (list[i].name@, list[i].value@))
}

impl View for Body {
    type V = BodyView;

    open spec fn view(&self) -> BodyView {
        match *self {
            Body::Empty => BodyView::Empty,
            Body::Text(text) => BodyView::Text(text@),
            Body::Form(fields) => BodyView::Form(pairs(fields@)),
            Body::Json(document) => BodyView::Json(json_view(document)),
        }
    }
}

impl View for HttpRequest {
    type V = HttpRequestView;

    open spec fn view(&self) -> HttpRequestView {
        HttpRequestView {
            method: self.method,
            url: self.url@,
            headers: pairs(self.headers@),
            body: self.body@,
            timeout_secs: self.timeout_secs,
        }
    }
}

impl View for HttpReply {
    type V = HttpReplyView;

    open spec fn view(&self) -> HttpReplyView {
        HttpReplyView {
            status: self.status,
            body: match self.body {
                Ok(bytes) => Ok(bytes@),
                Err(e) => Err(e@),
            },
        }
    }
}

/// A reply, or why there is none.
pub type Outcome = Result<HttpReply, String>;

/// The contents of an outcome.
pub open spec fn outcome_view(outcome: Outcome) -> Result<HttpReplyView, Seq<char>> {
    match outcome {
        Ok(reply) => Ok(reply@),
        Err(e) => Err(e@),
    }
}

/// Whether a status says that a request succeeded.
pub open spec fn is_success(status: u16) -> bool {
    200 <= status < 300
}

/// The body of a reply as text; empty where it could not be read.
pub open spec fn body_text(reply: HttpReplyView) -> Seq<char> {
    match reply.body {
        Ok(bytes) => lossy(bytes),
        Err(_) => Seq::empty(),
    }
}

/// A pair of a name and a value.
pub fn pair(name: &str, value: &str) -> (r: Pair)
    ensures
        r.name@ == name@,
        r.value@ == value@,
{
    Pair { name: copy_text(name), value: copy_text(value) }
}

/// Adds a pair to a list.
pub fn push_pair(list: &mut Vec<Pair>, name: &str, value: &str)
    ensures
        pairs(final(list)@) == pairs(old(list)@).push((name@, value@)),
{
    let ghost before = list@;
    list.push(pair(name, value));
    assert(pairs(list@) =~= pairs(before).push((name@, value@)));
}

impl HttpReply {
    /// Whether the request succeeded.
    pub fn is_success(&self) -> (r: bool)
        ensures
            r == is_success(self.status),
    {
        200 <= self.status && self.status < 300
    }

    /// The body as text; empty where it could not be read.
    pub fn body_text(&self) -> (r: String)
        ensures
            r@ == body_text(self@),
    {
        match &self.body {
            Ok(bytes) => text_from_utf8_lossy(bytes.as_slice()),
            Err(_) => String::new(),
        }
    }
}

// ---------------------------------------------------------------------------
// Laws
// ---------------------------------------------------------------------------

/// A request succeeds if and only if its status is between 200 and 299.
pub proof fn law_success_has_a_status(status: u16)
    ensures
        is_success(status) <==> 200 <= status <= 299,
{
}

/// The text of a reply is that of its bytes, and empty where they could not be read.
pub proof fn law_replies_have_a_text(status: u16, bytes: Seq<u8>, e: Seq<char>)
    ensures
        body_text(HttpReplyView { status, body: Ok(bytes) }) == lossy(bytes),
        body_text(HttpReplyView { status, body: Err(e) }).len() == 0,
{
}

/// What is said of a request is said of its parts, and what is said of a reply of its
/// status and its body.
pub proof fn law_requests_and_replies_are_seen_whole(r: HttpRequest, reply: HttpReply)
    ensures
        r@.method == r.method,
        r@.url == r.url@,
        r@.timeout_secs == r.timeout_secs,
        r@.headers.len() == r.headers@.len(),
        forall|i: int|
            0 <= i < r.headers@.len() ==> #[trigger] r@.headers[i] == (
                r.headers@[i].name@,
                r.headers@[i].value@,
            ),
        match r.body {
            Body::Empty => r@.body is Empty,
            Body::Text(text) => r@.body == BodyView::Text(text@),
            Body::Form(fields) => r@.body is Form && r@.body->Form_0.len() == fields@.len()
                && forall|i: int|
                0 <= i < fields@.len() ==> #[trigger] r@.body->Form_0[i] == (
                    fields@[i].name@,
                    fields@[i].value@,
                ),
            Body::Json(document) => r@.body == BodyView::Json(json_view(document)),
        },
        reply@.status == reply.status,
        match reply.body {
            Ok(bytes) => reply@.body == Ok::<Seq<u8>, Seq<char>>(bytes@),
            Err(e) => reply@.body == Err::<Seq<u8>, Seq<char>>(e@),
        },
{
}

} // verus!
