//! Requests over HTTP, and what came of them.

use vstd::prelude::*;
use vstd::string::*;

use crate::json::{outcome, parsed, Json, JsonView};

verus! {

/// What a request carries.
#[derive(Debug, PartialEq, Eq)]
pub enum Payload {
    /// Nothing: the request is a GET.
    Nothing,
    /// A form, to be posted.
    Form(String),
    /// A JSON document, to be posted.
    Document(Json),
}

/// A request to send.
#[derive(Debug, PartialEq, Eq)]
pub struct Request {
    pub url: String,
    pub headers: Vec<(String, String)>,
    /// The token by which the request is authorised, where it needs one.
    pub bearer: Option<String>,
    pub payload: Payload,
}

/// What a `Payload` says.
pub ghost enum PayloadView {
    Nothing,
    Form(Seq<char>),
    Document(JsonView),
}

/// What a `Request` says.
pub ghost struct RequestView {
    pub url: Seq<char>,
    pub headers: Seq<(Seq<char>, Seq<char>)>,
    pub bearer: Option<Seq<char>>,
    pub payload: PayloadView,
}

impl View for Payload {
    type V = PayloadView;

    open spec fn view(&self) -> PayloadView {
        match self {
            Payload::Nothing => PayloadView::Nothing,
            Payload::Form(body) => PayloadView::Form(body@),
            Payload::Document(document) => PayloadView::Document(document@),
        }
    }
}

impl View for Request {
    type V = RequestView;

    open spec fn view(&self) -> RequestView {
        RequestView {
            url: self.url@,
            headers: self.headers.deep_view(),
            bearer: self.bearer.deep_view(),
            payload: self.payload@,
        }
    }
}

impl DeepView for Request {
    type V = RequestView;

    open spec fn deep_view(&self) -> RequestView {
        self@
    }
}

/// A GET of `url`.
pub open spec fn fetching(url: Seq<char>, headers: Seq<(Seq<char>, Seq<char>)>) -> RequestView {
    RequestView { url, headers, bearer: None, payload: PayloadView::Nothing }
}

/// A POST of a form to `url`.
pub open spec fn posting_form(url: Seq<char>, body: Seq<char>) -> RequestView {
    RequestView {
        url,
        headers: seq![("Content-Type"@, "application/x-www-form-urlencoded"@)],
        bearer: None,
        payload: PayloadView::Form(body),
    }
}

/// A POST of a document to `url`, authorised by `token`.
pub open spec fn posting_document(
    url: Seq<char>,
    token: Seq<char>,
    document: JsonView,
) -> RequestView {
    RequestView {
        url,
        headers: Seq::empty(),
        bearer: Some(token),
        payload: PayloadView::Document(document),
    }
}

impl Request {
    /// A GET of `url`.
    pub fn fetch(url: String, headers: Vec<(String, String)>) -> (request: Request)
        ensures
            request@ == fetching(url@, headers.deep_view()),
    {
        Request { url, headers, bearer: None, payload: Payload::Nothing }
    }

    /// A POST of a form to `url`.
    pub fn form(url: &str, body: String) -> (request: Request)
        ensures
            request@ == posting_form(url@, body@),
    {
        let mut headers: Vec<(String, String)> = Vec::new();
        headers.push(("Content-Type".to_owned(), "application/x-www-form-urlencoded".to_owned()));
        let request = Request {
            url: url.to_owned(),
            headers,
            bearer: None,
            payload: Payload::Form(body),
        };
        assert(request@.headers =~= posting_form(url@, body@).headers);
        request
    }

    /// A POST of a document to `url`, authorised by `token`.
    pub fn document(url: &str, token: &str, document: Json) -> (request: Request)
        ensures
            request@ == posting_document(url@, token@, document@),
    {
        let request = Request {
            url: url.to_owned(),
            headers: Vec::new(),
            bearer: Some(token.to_owned()),
            payload: Payload::Document(document),
        };
        assert(request@.headers =~= Seq::<(Seq<char>, Seq<char>)>::empty());
        request
    }
}

/// What came of sending a request.
#[derive(Debug, PartialEq, Eq)]
pub enum Exchange {
    /// The request did not get through; why.
    SendFailed(String),
    /// The answer could not be read; why.
    ReadFailed(String),
    /// The answer: whether its status stands for success, the status in words,
    /// and the body.
    Answered { success: bool, status: String, body: String },
}

/// What an `Exchange` says.
pub ghost enum ExchangeView {
    SendFailed(Seq<char>),
    ReadFailed(Seq<char>),
    Answered { success: bool, status: Seq<char>, body: Seq<char> },
}

impl View for Exchange {
    type V = ExchangeView;

    open spec fn view(&self) -> ExchangeView {
        match self {
            Exchange::SendFailed(why) => ExchangeView::SendFailed(why@),
            Exchange::ReadFailed(why) => ExchangeView::ReadFailed(why@),
            Exchange::Answered { success, status, body } => ExchangeView::Answered {
                success: *success,
                status: status@,
                body: body@,
            },
        }
    }
}

/// The text under `key` in a document, where there is a document and it holds one.
pub open spec fn token_in(
    document: Result<JsonView, Seq<char>>,
    key: Seq<char>,
) -> Option<Seq<char>> {
    match document {
        Ok(value) => value.text_member(key),
        Err(_) => None,
    }
}

/// The text under `key` in a document, or `missing` where there is none.
pub fn token_or(document: Result<Json, String>, key: &str, missing: &str) -> (token: Result<
    String,
    String,
>)
    ensures
        outcome(token) == (match token_in(outcome(document), key@) {
            Some(t) => Ok::<Seq<char>, Seq<char>>(t),
            None => Err(missing@),
        }),
{
    match document {
        Ok(value) => match value.text_member(key) {
            Some(t) => Ok(t.to_owned()),
            None => Err(missing.to_owned()),
        },
        Err(_) => Err(missing.to_owned()),
    }
}

/// The body of an answer that stands for success; else a message, which does
/// not depend on the body of any other answer.
pub open spec fn accepted(
    exchange: ExchangeView,
    unsent: Seq<char>,
    unread: Seq<char>,
    refused: Seq<char>,
    advice: Seq<char>,
) -> Result<Seq<char>, Seq<char>> {
    match exchange {
        ExchangeView::SendFailed(why) => Err(unsent + why),
        ExchangeView::ReadFailed(why) => Err(unread + why),
        ExchangeView::Answered { success, status, body } => if success {
            Ok(body)
        } else {
            Err(refused + status + advice)
        },
    }
}

/// The body of an answer that stands for success, or a message.
pub fn body_of<'a>(
    exchange: &'a Exchange,
    unsent: &str,
    unread: &str,
    refused: &str,
    advice: &str,
) -> (body: Result<&'a str, String>)
    ensures
        outcome(body) == accepted(exchange@, unsent@, unread@, refused@, advice@),
{
    match exchange {
        Exchange::SendFailed(why) => Err(unsent.to_owned().concat(why.as_str())),
        Exchange::ReadFailed(why) => Err(unread.to_owned().concat(why.as_str())),
        Exchange::Answered { success, status, body } => if *success {
            Ok(body.as_str())
        } else {
            Err(refused.to_owned().concat(status.as_str()).concat(advice))
        },
    }
}

/// The token under `key` in the document that a body writes down.
pub open spec fn granted(
    body: Result<Seq<char>, Seq<char>>,
    key: Seq<char>,
    missing: Seq<char>,
) -> Result<Seq<char>, Seq<char>> {
    match body {
        Ok(text) => match token_in(parsed(text), key) {
            Some(token) => Ok(token),
            None => Err(missing),
        },
        Err(why) => Err(why),
    }
}

/// The token under `key` in the document that a body writes down.
pub fn token_of(body: Result<&str, String>, key: &str, missing: &str) -> (token: Result<
    String,
    String,
>)
    ensures
        outcome(token) == granted(outcome(body), key@, missing@),
{
    match body {
        Ok(text) => token_or(Json::parse(text), key, missing),
        Err(why) => Err(why),
    }
}

// ------------------------------------------------------------------------ laws

/// A request goes to the URL that it is given and carries what it is given: a GET
/// its headers, a form its body under the type of forms, a document its token.
/// Nothing but a document is authorised by a token.
pub proof fn a_request_carries_what_it_is_given(
    url: Seq<char>,
    headers: Seq<(Seq<char>, Seq<char>)>,
    body: Seq<char>,
    token: Seq<char>,
    document: JsonView,
)
    ensures
        fetching(url, headers).url == url,
        fetching(url, headers).headers == headers,
        fetching(url, headers).bearer is None,
        fetching(url, headers).payload is Nothing,
        posting_form(url, body).url == url,
        posting_form(url, body).headers.contains(
            ("Content-Type"@, "application/x-www-form-urlencoded"@),
        ),
        posting_form(url, body).headers.len() == 1,
        posting_form(url, body).bearer is None,
        posting_form(url, body).payload == PayloadView::Form(body),
        posting_document(url, token, document).url == url,
        posting_document(url, token, document).headers.len() == 0,
        posting_document(url, token, document).bearer == Some(token),
        posting_document(url, token, document).payload == PayloadView::Document(document),
{
    assert(posting_form(url, body).headers[0] == (
        "Content-Type"@,
        "application/x-www-form-urlencoded"@,
    ));
}

/// Only an answer that stands for success gives its body. Any other exchange is
/// told by what kept it from that: why it was not sent, why it was not read, or
/// the status.
pub proof fn a_body_is_given_for_success_only(
    unsent: Seq<char>,
    unread: Seq<char>,
    refused: Seq<char>,
    advice: Seq<char>,
    status: Seq<char>,
    body: Seq<char>,
    why: Seq<char>,
)
    ensures
        accepted(
            ExchangeView::Answered { success: true, status, body },
            unsent,
            unread,
            refused,
            advice,
        ) == Ok::<Seq<char>, Seq<char>>(body),
        accepted(
            ExchangeView::Answered { success: false, status, body },
            unsent,
            unread,
            refused,
            advice,
        ) == Err::<Seq<char>, Seq<char>>(refused + status + advice),
        accepted(ExchangeView::SendFailed(why), unsent, unread, refused, advice) == Err::<
            Seq<char>,
            Seq<char>,
        >(unsent + why),
        accepted(ExchangeView::ReadFailed(why), unsent, unread, refused, advice) == Err::<
            Seq<char>,
            Seq<char>,
        >(unread + why),
{
}

/// A token is the text under its key in the document of a body, and there is none
/// where the body is no document or has no such text.
pub proof fn a_token_stands_under_its_key(
    text: Seq<char>,
    key: Seq<char>,
    missing: Seq<char>,
    value: JsonView,
    why: Seq<char>,
)
    ensures
        parsed(text) == Ok::<JsonView, Seq<char>>(value) ==> granted(Ok(text), key, missing) == (
        match value.member(key) {
            Some(JsonView::Text(token)) => Ok::<Seq<char>, Seq<char>>(token),
            _ => Err(missing),
        }),
        parsed(text) is Err ==> granted(Ok(text), key, missing) == Err::<Seq<char>, Seq<char>>(
            missing,
        ),
        granted(Err(why), key, missing) == Err::<Seq<char>, Seq<char>>(why),
{
}

/// A request and an exchange are told by what they hold, field by field.
pub proof fn exchanges_are_told_by_what_they_hold(request: Request, exchange: Exchange)
    ensures
        request@.url == request.url@,
        request@.headers == request.headers.deep_view(),
        request@.bearer == request.bearer.deep_view(),
        (request.payload matches Payload::Form(body) ==> request@.payload == PayloadView::Form(
            body@,
        )),
        (request.payload matches Payload::Document(document) ==> request@.payload
            == PayloadView::Document(document@)),
        request.payload is Nothing <==> request@.payload is Nothing,
        (match exchange {
            Exchange::SendFailed(why) => exchange@ == ExchangeView::SendFailed(why@),
            Exchange::ReadFailed(why) => exchange@ == ExchangeView::ReadFailed(why@),
            Exchange::Answered { success, status, body } => exchange@ == (ExchangeView::Answered {
                success,
                status: status@,
                body: body@,
            }),
        }),
{
}

} // verus!
