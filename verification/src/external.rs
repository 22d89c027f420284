//! Workload identity federation: credentials of another system, exchanged for
//! Google's.

use vstd::prelude::*;
use vstd::string::*;

use crate::form::{
    a_parameter_begins_a_piece, a_parameter_holds_no_mark, escaped, percent_encode,
};
use crate::http::{
    accepted, body_of, granted, posting_form, token_in, token_of, token_or, Exchange, ExchangeView,
    PayloadView, Request,
};
use crate::json::{outcome, parsed, Json, JsonView};
use crate::redaction::{occurs, occurs_at};
use crate::text::{
    borrowed, owned, pieces, quotation, quoted, same, trim, trimmed,
    without_a_mark_there_is_one_piece,
};

verus! {

/// A workload identity federation credential (`type: external_account`).
///
/// A workload outside Google proves who it is without a downloaded key: some
/// other system issues a *subject token*, and Google STS exchanges it for an
/// access token. No long-lived private key is stored anywhere.
#[derive(Debug, PartialEq, Eq)]
pub struct ExternalAccount {
    pub audience: String,
    pub subject_token_type: String,
    pub token_url: String,
    pub source: SubjectTokenSource,
    /// Present where the federated identity is a stepping stone to a service
    /// account.
    pub impersonation_url: Option<String>,
}

/// Where the subject token comes from: the two sources that need nothing but
/// this process. A token from a command, or one that is signed for AWS, is
/// refused by name.
#[derive(Debug, PartialEq, Eq)]
pub enum SubjectTokenSource {
    /// A file on disk, the shape of Kubernetes projected tokens.
    File { path: String, field: Option<String> },
    /// An HTTP endpoint, the shape of most CI OIDC providers.
    Url { url: String, headers: Vec<(String, String)>, field: Option<String> },
}

/// What a `SubjectTokenSource` says.
pub ghost enum SourceView {
    File { path: Seq<char>, field: Option<Seq<char>> },
    Url { url: Seq<char>, headers: Seq<(Seq<char>, Seq<char>)>, field: Option<Seq<char>> },
}

/// What an `ExternalAccount` says.
pub ghost struct AccountView {
    pub audience: Seq<char>,
    pub subject_token_type: Seq<char>,
    pub token_url: Seq<char>,
    pub source: SourceView,
    pub impersonation_url: Option<Seq<char>>,
}

impl View for SubjectTokenSource {
    type V = SourceView;

    open spec fn view(&self) -> SourceView {
        match self {
            SubjectTokenSource::File { path, field } => SourceView::File {
                path: path@,
                field: field.deep_view(),
            },
            SubjectTokenSource::Url { url, headers, field } => SourceView::Url {
                url: url@,
                headers: headers.deep_view(),
                field: field.deep_view(),
            },
        }
    }
}

impl DeepView for SubjectTokenSource {
    type V = SourceView;

    open spec fn deep_view(&self) -> SourceView {
        self@
    }
}

impl View for ExternalAccount {
    type V = AccountView;

    open spec fn view(&self) -> AccountView {
        AccountView {
            audience: self.audience@,
            subject_token_type: self.subject_token_type@,
            token_url: self.token_url@,
            source: self.source@,
            impersonation_url: self.impersonation_url.deep_view(),
        }
    }
}

impl DeepView for ExternalAccount {
    type V = AccountView;

    open spec fn deep_view(&self) -> AccountView {
        self@
    }
}

// ---------------------------------------------------------------- the document

/// The members of an object that are texts.
pub open spec fn text_members(members: Seq<(Seq<char>, JsonView)>) -> Seq<(Seq<char>, Seq<char>)>
    decreases members.len(),
{
    if members.len() == 0 {
        Seq::empty()
    } else {
        let before = text_members(members.drop_last());
        match members.last().1.as_text() {
            Some(value) => before.push((members.last().0, value)),
            None => before,
        }
    }
}

/// The members of an object that are texts.
fn texts_among(members: &Vec<(String, Json)>) -> (texts: Vec<(String, String)>)
    ensures
        texts.deep_view() == text_members(members.deep_view()),
{
    let ghost all = members.deep_view();
    let mut texts: Vec<(String, String)> = Vec::new();
    let mut i: usize = 0;
    proof {
        assert(all.take(0) =~= Seq::empty());
        assert(texts.deep_view() =~= text_members(all.take(0)));
    }
    while i < members.len()
        invariant
            i <= members.len(),
            all == members.deep_view(),
            texts.deep_view() == text_members(all.take(i as int)),
        decreases members.len() - i,
    {
        proof {
            assert(all.take(i + 1).drop_last() =~= all.take(i as int));
            assert(all.take(i + 1).last() == (members@[i as int].0@, members@[i as int].1@));
        }
        let ghost before = texts.deep_view();
        if let Some(value) = members[i].1.as_text() {
            texts.push((members[i].0.clone(), value.to_owned()));
            assert(texts.deep_view() =~= before.push((members@[i as int].0@, value@)));
        }
        i += 1;
    }
    assert(all.take(all.len() as int) =~= all);
    texts
}

/// The field of a JSON document under which the subject token stands, where
/// `format` says that it stands in one.
pub open spec fn token_field(source: JsonView) -> Option<Seq<char>> {
    match source.member("format"@) {
        Some(format) => if format.text_member("type"@) == Some("json"@) {
            format.text_member("subject_token_field_name"@)
        } else {
            None
        },
        None => None,
    }
}

/// The field of a JSON document under which the subject token stands.
fn token_field_of(source: &Json) -> (field: Option<String>)
    ensures
        field.deep_view() == token_field(source@),
{
    match source.member("format") {
        Some(format) => match format.text_member("type") {
            Some(name) => if same(name, "json") {
                owned(format.text_member("subject_token_field_name"))
            } else {
                None
            },
            None => None,
        },
        None => None,
    }
}

/// The headers with which the subject token is asked for.
pub open spec fn source_headers(source: JsonView) -> Seq<(Seq<char>, Seq<char>)> {
    match source.member("headers"@) {
        Some(value) => match value.as_object() {
            Some(members) => text_members(members),
            None => Seq::empty(),
        },
        None => Seq::empty(),
    }
}

/// The headers with which the subject token is asked for.
fn headers_of(source: &Json) -> (headers: Vec<(String, String)>)
    ensures
        headers.deep_view() == source_headers(source@),
{
    if let Some(value) = source.member("headers") {
        if let Some(members) = value.as_object() {
            return texts_among(members);
        }
    }
    let none: Vec<(String, String)> = Vec::new();
    assert(none.deep_view() =~= Seq::empty());
    none
}

/// The source that a `credential_source` declares: a file before a URL, and
/// nothing else. A command, or AWS, is refused, also where a file or a URL stands
/// beside it: AWS sources carry a URL of their own.
pub open spec fn declared_source(source: JsonView, path: Seq<char>) -> Result<
    SourceView,
    Seq<char>,
> {
    if source.member("executable"@) is Some {
        Err(
            "the credential file at "@ + path
                + " uses an executable-sourced subject token, which runs a command to obtain the credential. This connector does not run it. Point credential_source at a file or url instead."@,
        )
    } else if source.member("environment_id"@) is Some {
        Err(
            "the credential file at "@ + path
                + " federates an AWS identity, which this connector cannot sign for. Use a file- or url-sourced subject token."@,
        )
    } else {
        match (source.text_member("file"@), source.text_member("url"@)) {
            (Some(file), _) => Ok(SourceView::File { path: file, field: token_field(source) }),
            (None, Some(url)) => Ok(
                SourceView::Url {
                    url,
                    headers: source_headers(source),
                    field: token_field(source),
                },
            ),
            (None, None) => Err(
                "the credential file at "@ + path
                    + " has a credential_source this connector does not recognise; it must name a file or a url."@,
            ),
        }
    }
}

impl SubjectTokenSource {
    /// The source that a `credential_source` declares.
    fn from_source(source: &Json, path: &str) -> (result: Result<SubjectTokenSource, String>)
        ensures
            outcome(result) == declared_source(source@, path@),
    {
        let at = "the credential file at ".to_owned().concat(path);
        let field = token_field_of(source);
        if source.member("executable").is_some() {
            Err(
                at.concat(
                    " uses an executable-sourced subject token, which runs a command to obtain the credential. This connector does not run it. Point credential_source at a file or url instead.",
                ),
            )
        } else if source.member("environment_id").is_some() {
            Err(
                at.concat(
                    " federates an AWS identity, which this connector cannot sign for. Use a file- or url-sourced subject token.",
                ),
            )
        } else if let Some(file) = source.text_member("file") {
            Ok(SubjectTokenSource::File { path: file.to_owned(), field })
        } else if let Some(url) = source.text_member("url") {
            Ok(SubjectTokenSource::Url { url: url.to_owned(), headers: headers_of(source), field })
        } else {
            Err(
                at.concat(
                    " has a credential_source this connector does not recognise; it must name a file or a url.",
                ),
            )
        }
    }
}

/// What is said of a credential file in which `name` is missing.
pub open spec fn file_lacks(path: Seq<char>, name: Seq<char>) -> Seq<char> {
    "the credential file at "@ + path + " is missing "@ + name + "."@
}

/// A text that a credential file has to hold.
pub open spec fn required(document: JsonView, path: Seq<char>, name: Seq<char>) -> Result<
    Seq<char>,
    Seq<char>,
> {
    match document.text_member(name) {
        Some(value) => Ok(value),
        None => Err(file_lacks(path, name)),
    }
}

/// A text that a credential file has to hold.
fn require(document: &Json, path: &str, name: &str) -> (value: Result<String, String>)
    ensures
        outcome(value) == required(document@, path@, name@),
{
    match document.text_member(name) {
        Some(value) => Ok(value.to_owned()),
        None => Err(
            "the credential file at ".to_owned().concat(path).concat(" is missing ").concat(
                name,
            ).concat("."),
        ),
    }
}

/// The credential that a document holds, or the first thing that keeps it from
/// holding one.
pub open spec fn declared_account(document: JsonView, path: Seq<char>) -> Result<
    AccountView,
    Seq<char>,
> {
    match document.member("credential_source"@) {
        None => Err(file_lacks(path, "credential_source"@)),
        Some(source) => match declared_source(source, path) {
            Err(why) => Err(why),
            Ok(source) => match required(document, path, "audience"@) {
                Err(why) => Err(why),
                Ok(audience) => match required(document, path, "subject_token_type"@) {
                    Err(why) => Err(why),
                    Ok(subject_token_type) => match required(document, path, "token_url"@) {
                        Err(why) => Err(why),
                        Ok(token_url) => Ok(
                            AccountView {
                                audience,
                                subject_token_type,
                                token_url,
                                source,
                                impersonation_url: document.text_member(
                                    "service_account_impersonation_url"@,
                                ),
                            },
                        ),
                    },
                },
            },
        },
    }
}

impl ExternalAccount {
    /// The credential that a document holds. An error says what is missing: such
    /// files are generated, and go wrong where they are edited by hand.
    pub fn from_document(document: &Json, path: &str) -> (account: Result<ExternalAccount, String>)
        ensures
            outcome(account) == declared_account(document@, path@),
    {
        let source = match document.member("credential_source") {
            Some(source) => source,
            None => {
                return Err(
                    "the credential file at ".to_owned().concat(path).concat(
                        " is missing ",
                    ).concat("credential_source").concat("."),
                );
            },
        };
        let source = match SubjectTokenSource::from_source(source, path) {
            Ok(source) => source,
            Err(why) => return Err(why),
        };
        let audience = match require(document, path, "audience") {
            Ok(value) => value,
            Err(why) => return Err(why),
        };
        let subject_token_type = match require(document, path, "subject_token_type") {
            Ok(value) => value,
            Err(why) => return Err(why),
        };
        let token_url = match require(document, path, "token_url") {
            Ok(value) => value,
            Err(why) => return Err(why),
        };
        let impersonation_url = owned(document.text_member("service_account_impersonation_url"));
        Ok(ExternalAccount { audience, subject_token_type, token_url, source, impersonation_url })
    }
}

// ----------------------------------------------------------- the subject token

impl SourceView {
    /// Where the token was read from.
    pub open spec fn origin(self) -> Seq<char> {
        match self {
            SourceView::File { path, .. } => path,
            SourceView::Url { url, .. } => url,
        }
    }

    /// The field that the token stands under.
    pub open spec fn field(self) -> Option<Seq<char>> {
        match self {
            SourceView::File { field, .. } => field,
            SourceView::Url { field, .. } => field,
        }
    }
}

impl SubjectTokenSource {
    /// Where the token is read from.
    pub fn origin(&self) -> (origin: &str)
        ensures
            origin@ == self@.origin(),
    {
        match self {
            SubjectTokenSource::File { path, field: _ } => path.as_str(),
            SubjectTokenSource::Url { url, headers: _, field: _ } => url.as_str(),
        }
    }

    /// The field that the token stands under.
    pub fn field(&self) -> (field: Option<&str>)
        ensures
            field.deep_view() == self@.field(),
    {
        match self {
            SubjectTokenSource::File { path: _, field } => borrowed(field),
            SubjectTokenSource::Url { url: _, headers: _, field } => borrowed(field),
        }
    }
}

/// What was read from a file, or what is said where it could not be read.
pub open spec fn file_text(path: Seq<char>, read: Result<Seq<char>, Seq<char>>) -> Result<
    Seq<char>,
    Seq<char>,
> {
    match read {
        Ok(raw) => Ok(raw),
        Err(why) => Err(
            "the subject token file at "@ + path + " could not be read: "@ + why,
        ),
    }
}

/// What was read from a file, or what is said where it could not be read.
pub fn subject_from_file(path: &str, read: Result<String, String>) -> (raw: Result<String, String>)
    ensures
        outcome(raw) == file_text(path@, outcome(read)),
{
    match read {
        Ok(raw) => Ok(raw),
        Err(why) => Err(
            "the subject token file at ".to_owned().concat(path).concat(
                " could not be read: ",
            ).concat(why.as_str()),
        ),
    }
}

/// What an endpoint answered, or what is said where it did not.
pub open spec fn endpoint_text(url: Seq<char>, exchange: ExchangeView) -> Result<
    Seq<char>,
    Seq<char>,
> {
    accepted(
        exchange,
        "the subject token request to "@ + url + " failed: "@,
        "the subject token response from "@ + url + " could not be read: "@,
        "the subject token endpoint returned HTTP "@,
        "."@,
    )
}

/// What an endpoint answered, or what is said where it did not.
pub fn subject_from_endpoint(url: &str, exchange: &Exchange) -> (raw: Result<String, String>)
    ensures
        outcome(raw) == endpoint_text(url@, exchange@),
{
    let body = body_of(
        exchange,
        "the subject token request to ".to_owned().concat(url).concat(" failed: ").as_str(),
        "the subject token response from ".to_owned().concat(url).concat(
            " could not be read: ",
        ).as_str(),
        "the subject token endpoint returned HTTP ",
        ".",
    );
    match body {
        Ok(raw) => Ok(raw.to_owned()),
        Err(why) => Err(why),
    }
}

/// The token under a field of a document. `quote` is how the field is shown.
pub open spec fn token_under(
    document: Result<JsonView, Seq<char>>,
    origin: Seq<char>,
    field: Seq<char>,
    quote: Seq<char>,
) -> Result<Seq<char>, Seq<char>> {
    match token_in(document, field) {
        Some(token) => Ok(token),
        None => Err("the subject token from "@ + origin + " has no "@ + quote + " field."@),
    }
}

/// The token under a field of a document. `quote` is how the field is shown.
pub fn subject_under(
    document: Result<Json, String>,
    origin: &str,
    field: &str,
    quote: &str,
) -> (token: Result<String, String>)
    ensures
        outcome(token) == token_under(outcome(document), origin@, field@, quote@),
{
    let missing = "the subject token from ".to_owned().concat(origin).concat(" has no ").concat(
        quote,
    ).concat(" field.");
    token_or(document, field, missing.as_str())
}

/// A subject token, which is never empty.
pub open spec fn not_empty(origin: Seq<char>, token: Result<Seq<char>, Seq<char>>) -> Result<
    Seq<char>,
    Seq<char>,
> {
    match token {
        Ok(t) => if t.len() == 0 {
            Err("the subject token from "@ + origin + " is empty."@)
        } else {
            Ok(t)
        },
        Err(why) => Err(why),
    }
}

/// A subject token, which is never empty.
pub fn filled(origin: &str, token: Result<String, String>) -> (result: Result<String, String>)
    ensures
        outcome(result) == not_empty(origin@, outcome(token)),
{
    match token {
        Ok(t) => if t.as_str().is_empty() {
            Err("the subject token from ".to_owned().concat(origin).concat(" is empty."))
        } else {
            Ok(t)
        },
        Err(why) => Err(why),
    }
}

/// The subject token in what was read: all of it but the white space around it,
/// or what stands under a field of the document that it is.
pub open spec fn subject_token(source: SourceView, raw: Seq<char>) -> Result<Seq<char>, Seq<char>> {
    not_empty(
        source.origin(),
        match source.field() {
            None => Ok(trimmed(raw)),
            Some(field) => token_under(parsed(raw), source.origin(), field, quotation(field)),
        },
    )
}

impl ExternalAccount {
    /// The subject token in what was read from the source.
    pub fn read_subject_token(&self, raw: &str) -> (token: Result<String, String>)
        ensures
            outcome(token) == subject_token(self@.source, raw@),
    {
        let origin = self.source.origin();
        let token: Result<String, String> = match self.source.field() {
            None => Ok(trim(raw)),
            Some(field) => subject_under(Json::parse(raw), origin, field, quoted(field).as_str()),
        };
        filled(origin, token)
    }
}

// ---------------------------------------------------------------- the exchange

/// The scope asked of the exchange: the broad one where an impersonation
/// follows, which narrows it again, else the caller's.
pub open spec fn exchange_scope(account: AccountView, scope: Seq<char>) -> Seq<char> {
    if account.impersonation_url is Some {
        "https://www.googleapis.com/auth/cloud-platform"@
    } else {
        scope
    }
}

/// The form that exchanges a subject token.
pub open spec fn exchange_form(
    account: AccountView,
    scope: Seq<char>,
    subject: Seq<char>,
) -> Seq<char> {
    "grant_type="@ + escaped("urn:ietf:params:oauth:grant-type:token-exchange"@) + "&audience="@
        + escaped(account.audience) + "&scope="@ + escaped(exchange_scope(account, scope))
        + "&requested_token_type="@ + escaped("urn:ietf:params:oauth:token-type:access_token"@)
        + "&subject_token="@ + escaped(subject) + "&subject_token_type="@ + escaped(
        account.subject_token_type,
    )
}

impl ExternalAccount {
    /// The request that exchanges a subject token for a Google access token.
    pub fn fetch_token(&self, scope: &str, subject: &str) -> (request: Request)
        ensures
            request@ == posting_form(
                self@.token_url,
                exchange_form(self@, scope@, subject@),
            ),
    {
        let asked: &str = if self.impersonation_url.is_some() {
            "https://www.googleapis.com/auth/cloud-platform"
        } else {
            scope
        };
        let mut body = "grant_type=".to_owned();
        body.append(percent_encode("urn:ietf:params:oauth:grant-type:token-exchange").as_str());
        body.append("&audience=");
        body.append(percent_encode(self.audience.as_str()).as_str());
        body.append("&scope=");
        body.append(percent_encode(asked).as_str());
        body.append("&requested_token_type=");
        body.append(percent_encode("urn:ietf:params:oauth:token-type:access_token").as_str());
        body.append("&subject_token=");
        body.append(percent_encode(subject).as_str());
        body.append("&subject_token_type=");
        body.append(percent_encode(self.subject_token_type.as_str()).as_str());
        Request::form(self.token_url.as_str(), body)
    }
}

/// The token that answers a subject token. A refusal is reported by its status
/// alone: its body quotes the audience, and can quote the subject token.
pub open spec fn exchange_reply(exchange: ExchangeView) -> Result<Seq<char>, Seq<char>> {
    granted(
        accepted(
            exchange,
            "Google STS token exchange failed: "@,
            "Google STS token response read failed: "@,
            "Google STS returned HTTP "@,
            " for the token exchange."@,
        ),
        "access_token"@,
        "the Google STS response contained no access_token."@,
    )
}

/// The token that answers a subject token.
pub fn federated_token(exchange: &Exchange) -> (token: Result<String, String>)
    ensures
        outcome(token) == exchange_reply(exchange@),
{
    let body = body_of(
        exchange,
        "Google STS token exchange failed: ",
        "Google STS token response read failed: ",
        "Google STS returned HTTP ",
        " for the token exchange.",
    );
    token_of(body, "access_token", "the Google STS response contained no access_token.")
}

// ------------------------------------------------------------------------ laws

/// Whatever a credential file and a subject token hold, the form has exactly the
/// six parameters that it was given: none of them can introduce another.
pub proof fn an_exchange_form_has_six_parameters(
    account: AccountView,
    scope: Seq<char>,
    subject: Seq<char>,
)
    ensures
        pieces(exchange_form(account, scope, subject), '&') == seq![
            "grant_type="@ + escaped("urn:ietf:params:oauth:grant-type:token-exchange"@),
            "audience="@ + escaped(account.audience),
            "scope="@ + escaped(exchange_scope(account, scope)),
            "requested_token_type="@ + escaped("urn:ietf:params:oauth:token-type:access_token"@),
            "subject_token="@ + escaped(subject),
            "subject_token_type="@ + escaped(account.subject_token_type),
        ],
{
    let grant = "urn:ietf:params:oauth:grant-type:token-exchange"@;
    let kind = "urn:ietf:params:oauth:token-type:access_token"@;
    let asked = exchange_scope(account, scope);
    let p1 = "grant_type="@ + escaped(grant);
    let p2 = "audience="@ + escaped(account.audience);
    let p3 = "scope="@ + escaped(asked);
    let p4 = "requested_token_type="@ + escaped(kind);
    let p5 = "subject_token="@ + escaped(subject);
    let p6 = "subject_token_type="@ + escaped(account.subject_token_type);
    let t2 = p1 + "&audience="@ + escaped(account.audience);
    let t3 = t2 + "&scope="@ + escaped(asked);
    let t4 = t3 + "&requested_token_type="@ + escaped(kind);
    let t5 = t4 + "&subject_token="@ + escaped(subject);
    let t6 = t5 + "&subject_token_type="@ + escaped(account.subject_token_type);
    assert(pieces(p1, '&') == seq![p1]) by {
        reveal_strlit("grant_type=");
        a_parameter_holds_no_mark("grant_type="@, grant);
        without_a_mark_there_is_one_piece(p1, '&');
    }
    assert(pieces(t2, '&') == pieces(p1, '&').push(p2)) by {
        reveal_strlit("&audience=");
        reveal_strlit("audience=");
        a_parameter_begins_a_piece(p1, "&audience="@, "audience="@, account.audience);
    }
    assert(pieces(t3, '&') == pieces(t2, '&').push(p3)) by {
        reveal_strlit("&scope=");
        reveal_strlit("scope=");
        a_parameter_begins_a_piece(t2, "&scope="@, "scope="@, asked);
    }
    assert(pieces(t4, '&') == pieces(t3, '&').push(p4)) by {
        reveal_strlit("&requested_token_type=");
        reveal_strlit("requested_token_type=");
        a_parameter_begins_a_piece(
            t3,
            "&requested_token_type="@,
            "requested_token_type="@,
            kind,
        );
    }
    assert(pieces(t5, '&') == pieces(t4, '&').push(p5)) by {
        reveal_strlit("&subject_token=");
        reveal_strlit("subject_token=");
        a_parameter_begins_a_piece(t4, "&subject_token="@, "subject_token="@, subject);
    }
    assert(pieces(t6, '&') == pieces(t5, '&').push(p6)) by {
        reveal_strlit("&subject_token_type=");
        reveal_strlit("subject_token_type=");
        a_parameter_begins_a_piece(
            t5,
            "&subject_token_type="@,
            "subject_token_type="@,
            account.subject_token_type,
        );
    }
    assert(exchange_form(account, scope, subject) == t6);
    assert(pieces(t6, '&') =~= seq![p1, p2, p3, p4, p5, p6]);
}

/// A refused exchange is reported by its status alone: what the body of the
/// answer quotes, be it the subject token, reaches no message.
pub proof fn a_refused_exchange_shows_no_body(status: Seq<char>, left: Seq<char>, right: Seq<char>)
    ensures
        exchange_reply(ExchangeView::Answered { success: false, status, body: left })
            == exchange_reply(ExchangeView::Answered { success: false, status, body: right }),
{
}

/// No exchange is ever tried with an empty subject token.
pub proof fn a_subject_token_is_never_empty(source: SourceView, raw: Seq<char>)
    ensures
        (subject_token(source, raw) matches Ok(token) ==> token.len() > 0),
{
}

/// A document whose `credential_source` names a command, or AWS, is refused,
/// whatever else stands there, and the refusal says so: neither is silently
/// passed over for a file or a URL.
pub proof fn an_unsupported_source_is_refused_by_name(
    document: JsonView,
    source: JsonView,
    path: Seq<char>,
)
    requires
        document.member("credential_source"@) == Some(source),
        source.member("executable"@) is Some || source.member("environment_id"@) is Some,
    ensures
        declared_account(document, path) is Err,
        source.member("executable"@) is Some ==> occurs(
            declared_account(document, path)->Err_0,
            "executable"@,
        ),
        source.member("executable"@) is None ==> occurs(
            declared_account(document, path)->Err_0,
            "AWS"@,
        ),
{
    let why = declared_account(document, path)->Err_0;
    let start = path.len() as int + 23;
    reveal_strlit("the credential file at ");
    if source.member("executable"@) is Some {
        reveal_strlit(
            " uses an executable-sourced subject token, which runs a command to obtain the credential. This connector does not run it. Point credential_source at a file or url instead.",
        );
        reveal_strlit("executable");
        assert(why.subrange(start + 9, start + 19) =~= "executable"@);
        assert(occurs_at(why, "executable"@, start + 9));
    } else {
        reveal_strlit(
            " federates an AWS identity, which this connector cannot sign for. Use a file- or url-sourced subject token.",
        );
        reveal_strlit("AWS");
        assert(why.subrange(start + 14, start + 17) =~= "AWS"@);
        assert(occurs_at(why, "AWS"@, start + 14));
    }
}

/// A credential is read from a document only where its `credential_source` names
/// a file or a URL, and then its subject token comes from there.
pub proof fn only_a_file_or_a_url_is_a_source(document: JsonView, path: Seq<char>)
    ensures
        (declared_account(document, path) matches Ok(account) ==> (document.member(
            "credential_source"@,
        ) matches Some(source) && (match account.source {
            SourceView::File { path: file, .. } => source.text_member("file"@) == Some(file),
            SourceView::Url { url, .. } => source.text_member("url"@) == Some(url),
        }))),
{
}

/// Whatever keeps a document from holding a credential, the message names the
/// file.
pub proof fn a_refusal_names_the_file(document: JsonView, path: Seq<char>)
    ensures
        (declared_account(document, path) matches Err(why) ==> occurs(why, path)),
{
    if let Err(why) = declared_account(document, path) {
        reveal_strlit("the credential file at ");
        let at = "the credential file at "@;
        assert(why.take(at.len() as int + path.len()) =~= at + path);
        assert(why.subrange(at.len() as int, at.len() as int + path.len()) =~= path);
        assert(occurs_at(why, path, at.len() as int));
    }
}

/// A credential holds what its document says, each text from the member of its
/// name: the audience, the type of the subject token, where to exchange it, and
/// whom to impersonate, if anyone; and the source names the field that `format`
/// gives for JSON, if any.
pub proof fn a_credential_holds_what_its_document_says(document: JsonView, path: Seq<char>)
    ensures
        (declared_account(document, path) matches Ok(account) ==> {
            &&& document.text_member("audience"@) == Some(account.audience)
            &&& document.text_member("subject_token_type"@) == Some(account.subject_token_type)
            &&& document.text_member("token_url"@) == Some(account.token_url)
            &&& document.text_member("service_account_impersonation_url"@)
                == account.impersonation_url
            &&& (document.member("credential_source"@) matches Some(source) && {
                let named = match source.member("format"@) {
                    Some(format) => if format.text_member("type"@) == Some("json"@) {
                        format.text_member("subject_token_field_name"@)
                    } else {
                        None
                    },
                    None => None,
                };
                match account.source {
                    SourceView::File { path: file, field } => source.text_member("file"@) == Some(
                        file,
                    ) && field == named,
                    SourceView::Url { url, headers, field } => source.text_member("file"@) is None
                        && source.text_member("url"@) == Some(url) && field == named,
                }
            })
        }),
{
}

/// A document that has all that is asked for yields a credential. One that lacks
/// something is refused with the name of the first thing that it lacks.
pub proof fn a_complete_document_yields_a_credential(document: JsonView, path: Seq<char>)
    ensures
        ({
            let source = document.member("credential_source"@);
            let usable = source is Some && source->0.member("executable"@) is None
                && source->0.member("environment_id"@) is None && (source->0.text_member("file"@)
                is Some || source->0.text_member("url"@) is Some);
            let account = declared_account(document, path);
            let lacks = |name: Seq<char>|
                "the credential file at "@ + path + " is missing "@ + name + "."@;
            &&& usable && document.text_member("audience"@) is Some && document.text_member(
                "subject_token_type"@,
            ) is Some && document.text_member("token_url"@) is Some ==> account is Ok
            &&& source is None ==> account == Err::<AccountView, Seq<char>>(
                lacks("credential_source"@),
            )
            &&& source is Some && source->0.member("executable"@) is None
                && source->0.member("environment_id"@) is None && source->0.text_member("file"@)
                is None && source->0.text_member("url"@) is None ==> account == Err::<
                AccountView,
                Seq<char>,
            >(
                "the credential file at "@ + path
                    + " has a credential_source this connector does not recognise; it must name a file or a url."@,
            )
            &&& usable && document.text_member("audience"@) is None ==> account == Err::<
                AccountView,
                Seq<char>,
            >(lacks("audience"@))
            &&& usable && document.text_member("audience"@) is Some && document.text_member(
                "subject_token_type"@,
            ) is None ==> account == Err::<AccountView, Seq<char>>(lacks("subject_token_type"@))
            &&& usable && document.text_member("audience"@) is Some && document.text_member(
                "subject_token_type"@,
            ) is Some && document.text_member("token_url"@) is None ==> account == Err::<
                AccountView,
                Seq<char>,
            >(lacks("token_url"@))
        }),
{
}

proof fn texts_go_member_by_member(
    before: Seq<(Seq<char>, JsonView)>,
    after: Seq<(Seq<char>, JsonView)>,
)
    ensures
        text_members(before + after) == text_members(before) + text_members(after),
    decreases after.len(),
{
    if after.len() == 0 {
        assert(before + after =~= before);
        assert(text_members(before) + text_members(after) =~= text_members(before));
    } else {
        texts_go_member_by_member(before, after.drop_last());
        assert((before + after).drop_last() =~= before + after.drop_last());
        assert(text_members(before + after) =~= text_members(before) + text_members(after));
    }
}

/// The headers of a source are the texts among the members of `headers`, each
/// under its name and in their order; what is no text is left out.
pub proof fn headers_are_the_texts_among_the_members(
    both: JsonView,
    left: JsonView,
    right: JsonView,
    before: Seq<(Seq<char>, JsonView)>,
    after: Seq<(Seq<char>, JsonView)>,
)
    requires
        left.member("headers"@) == Some(JsonView::Object(before)),
        right.member("headers"@) == Some(JsonView::Object(after)),
        both.member("headers"@) == Some(JsonView::Object(before + after)),
    ensures
        source_headers(both) == source_headers(left) + source_headers(right),
        before.len() == 0 ==> source_headers(left).len() == 0,
        before.len() == 1 ==> source_headers(left) == (match before[0].1 {
            JsonView::Text(value) => seq![(before[0].0, value)],
            _ => Seq::empty(),
        }),
{
    texts_go_member_by_member(before, after);
    if before.len() == 1 {
        assert(text_members(before.drop_last()) =~= Seq::empty());
        assert(before.last() == before[0]);
        assert(source_headers(left) =~= (match before[0].1 {
            JsonView::Text(value) => seq![(before[0].0, value)],
            _ => Seq::empty(),
        }));
    }
}

/// A source that is a URL is asked with its own headers; without an object of
/// them it has none.
pub proof fn a_url_has_the_headers_of_its_source(document: JsonView, path: Seq<char>)
    ensures
        (declared_account(document, path) matches Ok(account) ==> (account.source
            matches SourceView::Url { headers, .. } ==> headers == source_headers(
            document.member("credential_source"@)->0,
        ) && (!(document.member("credential_source"@)->0.member("headers"@) matches Some(
            JsonView::Object(_),
        )) ==> headers.len() == 0))),
{
}

/// The exchange of a credential file asks for the audience and gives the type of
/// the subject token that the file names, and gives the subject token itself.
pub proof fn an_exchange_goes_by_its_document(
    document: JsonView,
    path: Seq<char>,
    scope: Seq<char>,
    subject: Seq<char>,
)
    ensures
        (declared_account(document, path) matches Ok(account) ==> {
            let form = pieces(exchange_form(account, scope, subject), '&');
            &&& form.len() == 6
            &&& form[1] == "audience="@ + escaped(document.text_member("audience"@)->0)
            &&& form[4] == "subject_token="@ + escaped(subject)
            &&& form[5] == "subject_token_type="@ + escaped(
                document.text_member("subject_token_type"@)->0,
            )
        }),
{
    if let Ok(account) = declared_account(document, path) {
        an_exchange_form_has_six_parameters(account, scope, subject);
    }
}

/// A subject token is all that was read but the white space around it, or, where
/// the source names a field, the text under that field of the document that was
/// read, as it stands. A missing one and an empty one are refused, and the refusal
/// says where it was looked for.
pub proof fn a_subject_token_is_what_was_read(
    origin: Seq<char>,
    headers: Seq<(Seq<char>, Seq<char>)>,
    field: Seq<char>,
    raw: Seq<char>,
)
    ensures
        ({
            let empty = "the subject token from "@ + origin + " is empty."@;
            let missing = "the subject token from "@ + origin + " has no "@ + quotation(field)
                + " field."@;
            let plain = if trimmed(raw).len() > 0 {
                Ok::<Seq<char>, Seq<char>>(trimmed(raw))
            } else {
                Err(empty)
            };
            let under = match parsed(raw) {
                Ok(value) => match value.member(field) {
                    Some(JsonView::Text(token)) => if token.len() > 0 {
                        Ok::<Seq<char>, Seq<char>>(token)
                    } else {
                        Err(empty)
                    },
                    _ => Err(missing),
                },
                Err(_) => Err(missing),
            };
            &&& subject_token(SourceView::File { path: origin, field: None }, raw) == plain
            &&& subject_token(SourceView::Url { url: origin, headers, field: None }, raw) == plain
            &&& subject_token(SourceView::File { path: origin, field: Some(field) }, raw) == under
            &&& subject_token(
                SourceView::Url { url: origin, headers, field: Some(field) },
                raw,
            ) == under
        }),
{
}

/// What is read as a subject token is the text of the file, or the body of an
/// answer that stands for success; a failure names the file or the URL.
pub proof fn a_source_gives_what_it_holds(
    origin: Seq<char>,
    text: Seq<char>,
    why: Seq<char>,
    status: Seq<char>,
)
    ensures
        file_text(origin, Ok(text)) == Ok::<Seq<char>, Seq<char>>(text),
        file_text(origin, Err(why)) == Err::<Seq<char>, Seq<char>>(
            "the subject token file at "@ + origin + " could not be read: "@ + why,
        ),
        endpoint_text(origin, ExchangeView::Answered { success: true, status, body: text }) == Ok::<
            Seq<char>,
            Seq<char>,
        >(text),
        endpoint_text(origin, ExchangeView::Answered { success: false, status, body: text })
            == Err::<Seq<char>, Seq<char>>(
            "the subject token endpoint returned HTTP "@ + status + "."@,
        ),
        endpoint_text(origin, ExchangeView::SendFailed(why)) == Err::<Seq<char>, Seq<char>>(
            "the subject token request to "@ + origin + " failed: "@ + why,
        ),
        endpoint_text(origin, ExchangeView::ReadFailed(why)) == Err::<Seq<char>, Seq<char>>(
            "the subject token response from "@ + origin + " could not be read: "@ + why,
        ),
{
}

/// The token that an exchange gives is the one in the answer to it.
pub proof fn an_exchange_gives_the_token_of_its_answer(
    status: Seq<char>,
    body: Seq<char>,
    value: JsonView,
    why: Seq<char>,
)
    ensures
        parsed(body) == Ok::<JsonView, Seq<char>>(value) ==> exchange_reply(
            ExchangeView::Answered { success: true, status, body },
        ) == (match value.member("access_token"@) {
            Some(JsonView::Text(token)) => Ok::<Seq<char>, Seq<char>>(token),
            _ => Err("the Google STS response contained no access_token."@),
        }),
        parsed(body) is Err ==> exchange_reply(
            ExchangeView::Answered { success: true, status, body },
        ) == Err::<Seq<char>, Seq<char>>("the Google STS response contained no access_token."@),
        exchange_reply(ExchangeView::Answered { success: false, status, body }) == Err::<
            Seq<char>,
            Seq<char>,
        >("Google STS returned HTTP "@ + status + " for the token exchange."@),
        exchange_reply(ExchangeView::SendFailed(why)) == Err::<Seq<char>, Seq<char>>(
            "Google STS token exchange failed: "@ + why,
        ),
        exchange_reply(ExchangeView::ReadFailed(why)) == Err::<Seq<char>, Seq<char>>(
            "Google STS token response read failed: "@ + why,
        ),
{
}

/// What is made of a credential document, and of its subject token, is what these
/// laws speak of.
pub proof fn a_federated_account_goes_by_these_laws(
    document: &Json,
    path: &str,
    result: Result<ExternalAccount, String>,
    account: &ExternalAccount,
    raw: &str,
    token: Result<String, String>,
    scope: &str,
    subject: &str,
    request: Request,
    exchange: &Exchange,
)
    ensures
        call_ensures(ExternalAccount::from_document, (document, path), result) ==> outcome(result)
            == declared_account(document@, path@),
        call_ensures(ExternalAccount::read_subject_token, (account, raw), token) ==> outcome(token)
            == subject_token(account@.source, raw@),
        call_ensures(ExternalAccount::fetch_token, (account, scope, subject), request)
            ==> request@.url == account@.token_url && request@.payload == PayloadView::Form(
            exchange_form(account@, scope@, subject@),
        ),
        call_ensures(federated_token, (exchange,), token) ==> outcome(token) == exchange_reply(
            exchange@,
        ),
{
}

/// A federated account is told by what it holds, field by field.
pub proof fn an_account_is_told_by_what_it_holds(account: ExternalAccount)
    ensures
        account@.audience == account.audience@,
        account@.subject_token_type == account.subject_token_type@,
        account@.token_url == account.token_url@,
        account@.impersonation_url == account.impersonation_url.deep_view(),
        (match account.source {
            SubjectTokenSource::File { path, field } => account@.source == (SourceView::File {
                path: path@,
                field: field.deep_view(),
            }),
            SubjectTokenSource::Url { url, headers, field } => account@.source == (
            SourceView::Url {
                url: url@,
                headers: headers.deep_view(),
                field: field.deep_view(),
            }),
        }),
{
}

} // verus!
