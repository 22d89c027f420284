//! How an access token is come by: what to do next, given what came back.

use vstd::prelude::*;
use vstd::string::*;
use vstd::utf8::encode_utf8;

use crate::adc::{
    adc_kind, adc_paths, declared_kind, the_type_tells_the_kind, AdcKind, AdcKindView, Environment,
    EnvironmentView,
};
use crate::base64::decoded;
use crate::external::{
    a_credential_holds_what_its_document_says, a_url_has_the_headers_of_its_source,
    an_exchange_form_has_six_parameters, declared_account, endpoint_text, exchange_form,
    exchange_reply, federated_token, file_text, source_headers, subject_from_endpoint,
    subject_from_file, subject_token, AccountView, ExternalAccount, SourceView,
    SubjectTokenSource,
};
use crate::form::escaped;
use crate::http::{
    fetching, posting_document, posting_form, Exchange, ExchangeView, PayloadView, Request,
    RequestView,
};
use crate::json::{outcome, parsed, Json, JsonView};
use crate::number::decimal;
use crate::oauth::{
    a_refresh_form_has_four_parameters, a_service_account_signs_its_own_claims,
    fetch_metadata_token, fetch_oauth2_token, fetch_refresh_token_grant, generate_access_token,
    impersonated_token, impersonation_document, impersonation_reply, metadata_reply,
    metadata_request, metadata_token, oauth2_reply, oauth2_request, oauth2_token, refresh_form,
    refresh_reply, refreshed_token, GcpServiceAccountKey, KeyView, TOKEN_SECONDS,
};
use crate::redaction::{occurs, occurs_at};
use crate::signing::signature_by;
use crate::text::{borrowed, join, joined, pieces, quotation, quoted};

verus! {

// ----------------------------------------------------------------------- steps

/// What waits for a file.
#[derive(Debug, PartialEq, Eq)]
pub enum FileRun {
    /// The search for a credential file, which has come to `paths[at]`: none of
    /// the files before could be read.
    Search { paths: Vec<String>, at: usize, host: Option<String>, scope: String },
    /// The reading of a subject token.
    Subject { account: ExternalAccount, scope: String },
}

/// What waits for the service account key in the file at `path`.
#[derive(Debug, PartialEq, Eq)]
pub struct KeyRun {
    pub path: String,
}

/// What waits for the answer to a request.
#[derive(Debug, PartialEq, Eq)]
pub enum SendRun {
    /// A signed assertion was sent.
    Assertion,
    /// A refresh token was sent.
    Refresh,
    /// The metadata server was asked, after no file could be read at the paths
    /// in `tried`.
    Metadata { tried: Vec<String> },
    /// A subject token was asked for.
    Subject { account: ExternalAccount, scope: String },
    /// A subject token was sent, and its exchange is followed by an
    /// impersonation where there is a URL for it.
    Exchange { impersonation_url: Option<String>, scope: String },
    /// A token of another service account was asked for.
    Impersonation,
}

/// What to do next for an access token.
#[derive(Debug, PartialEq, Eq)]
pub enum TokenStep {
    /// Read the file at `path`, and resume with its text or with why it could
    /// not be read.
    ReadFile { path: String, file: FileRun },
    /// Read a service account key out of `document`, and resume with it, or with
    /// why it holds none, and with the time.
    ReadKey { document: Json, key: KeyRun },
    /// Send `request`, and resume with what came of it.
    Send { request: Request, run: SendRun },
    /// The token is there, or there will be none.
    Finish(Result<String, String>),
}

/// What a `FileRun` says.
pub ghost enum FileRunView {
    Search { paths: Seq<Seq<char>>, at: nat, host: Option<Seq<char>>, scope: Seq<char> },
    Subject { account: AccountView, scope: Seq<char> },
}

/// What a `SendRun` says.
pub ghost enum SendRunView {
    Assertion,
    Refresh,
    Metadata { tried: Seq<Seq<char>> },
    Subject { account: AccountView, scope: Seq<char> },
    Exchange { impersonation_url: Option<Seq<char>>, scope: Seq<char> },
    Impersonation,
}

/// What a `TokenStep` says. What waits for a key is told by the path of its file.
pub ghost enum TokenStepView {
    ReadFile { path: Seq<char>, file: FileRunView },
    ReadKey { document: JsonView, path: Seq<char> },
    Send { request: RequestView, run: SendRunView },
    Finish(Result<Seq<char>, Seq<char>>),
}

impl View for FileRun {
    type V = FileRunView;

    open spec fn view(&self) -> FileRunView {
        match self {
            FileRun::Search { paths, at, host, scope } => FileRunView::Search {
                paths: paths.deep_view(),
                at: *at as nat,
                host: host.deep_view(),
                scope: scope@,
            },
            FileRun::Subject { account, scope } => FileRunView::Subject {
                account: account@,
                scope: scope@,
            },
        }
    }
}

impl View for SendRun {
    type V = SendRunView;

    open spec fn view(&self) -> SendRunView {
        match self {
            SendRun::Assertion => SendRunView::Assertion,
            SendRun::Refresh => SendRunView::Refresh,
            SendRun::Metadata { tried } => SendRunView::Metadata { tried: tried.deep_view() },
            SendRun::Subject { account, scope } => SendRunView::Subject {
                account: account@,
                scope: scope@,
            },
            SendRun::Exchange { impersonation_url, scope } => SendRunView::Exchange {
                impersonation_url: impersonation_url.deep_view(),
                scope: scope@,
            },
            SendRun::Impersonation => SendRunView::Impersonation,
        }
    }
}

impl View for TokenStep {
    type V = TokenStepView;

    open spec fn view(&self) -> TokenStepView {
        match self {
            TokenStep::ReadFile { path, file } => TokenStepView::ReadFile {
                path: path@,
                file: file@,
            },
            TokenStep::ReadKey { document, key } => TokenStepView::ReadKey {
                document: document@,
                path: key.path@,
            },
            TokenStep::Send { request, run } => TokenStepView::Send {
                request: request@,
                run: run@,
            },
            TokenStep::Finish(token) => TokenStepView::Finish(outcome(*token)),
        }
    }
}

// ---------------------------------------------------------- what follows on what

/// A service account asks for a token.
pub open spec fn asking(email: Seq<char>, private_key: Seq<char>, now: nat) -> TokenStepView {
    match oauth2_request(email, private_key, now) {
        Ok(request) => TokenStepView::Send { request, run: SendRunView::Assertion },
        Err(why) => TokenStepView::Finish(Err(why)),
    }
}

/// A service account asks for a token at the time `now`.
pub fn ask_as(email: &str, private_key: &str, now: u64) -> (step: TokenStep)
    requires
        now + TOKEN_SECONDS <= u64::MAX,
    ensures
        step@ == asking(email@, private_key@, now as nat),
{
    match fetch_oauth2_token(email, private_key, now) {
        Ok(request) => TokenStep::Send { request, run: SendRun::Assertion },
        Err(why) => TokenStep::Finish(Err(why)),
    }
}

/// The subject token of a federated account is read, from where it stands.
pub open spec fn asking_for_subject(account: AccountView, scope: Seq<char>) -> TokenStepView {
    match account.source {
        SourceView::File { path, .. } => TokenStepView::ReadFile {
            path,
            file: FileRunView::Subject { account, scope },
        },
        SourceView::Url { url, headers, .. } => TokenStepView::Send {
            request: fetching(url, headers),
            run: SendRunView::Subject { account, scope },
        },
    }
}

/// A copy of named texts.
fn copies_of(texts: &Vec<(String, String)>) -> (all: Vec<(String, String)>)
    ensures
        all.deep_view() == texts.deep_view(),
{
    let mut all: Vec<(String, String)> = Vec::new();
    let mut i: usize = 0;
    while i < texts.len()
        invariant
            i <= texts.len(),
            all.len() == i,
            forall|j: int|
                0 <= j < i ==> (#[trigger] all@[j]).0@ == texts@[j].0@ && all@[j].1@
                    == texts@[j].1@,
        decreases texts.len() - i,
    {
        all.push((texts[i].0.clone(), texts[i].1.clone()));
        i += 1;
    }
    assert(all.deep_view() =~= texts.deep_view());
    all
}

/// The subject token of a federated account is read, from where it stands.
fn ask_for_subject(account: ExternalAccount, scope: &str) -> (step: TokenStep)
    ensures
        step@ == asking_for_subject(account@, scope@),
{
    let scope = scope.to_owned();
    let asked: Result<String, Request> = match &account.source {
        SubjectTokenSource::File { path, field: _ } => Ok(path.clone()),
        SubjectTokenSource::Url { url, headers, field: _ } => Err(
            Request::fetch(url.clone(), copies_of(headers)),
        ),
    };
    match asked {
        Ok(path) => TokenStep::ReadFile { path, file: FileRun::Subject { account, scope } },
        Err(request) => TokenStep::Send { request, run: SendRun::Subject { account, scope } },
    }
}

/// What was read as the subject token of a federated account is exchanged.
pub open spec fn exchanging(
    account: AccountView,
    scope: Seq<char>,
    raw: Result<Seq<char>, Seq<char>>,
) -> TokenStepView {
    match raw {
        Ok(text) => match subject_token(account.source, text) {
            Ok(subject) => TokenStepView::Send {
                request: posting_form(account.token_url, exchange_form(account, scope, subject)),
                run: SendRunView::Exchange { impersonation_url: account.impersonation_url, scope },
            },
            Err(why) => TokenStepView::Finish(Err(why)),
        },
        Err(why) => TokenStepView::Finish(Err(why)),
    }
}

/// What was read as the subject token of a federated account is exchanged.
fn exchange(account: ExternalAccount, scope: String, raw: Result<String, String>) -> (step:
    TokenStep)
    ensures
        step@ == exchanging(account@, scope@, outcome(raw)),
        step@.sound(),
{
    match raw {
        Ok(text) => match account.read_subject_token(text.as_str()) {
            Ok(subject) => {
                let request = account.fetch_token(scope.as_str(), subject.as_str());
                TokenStep::Send {
                    request,
                    run: SendRun::Exchange { impersonation_url: account.impersonation_url, scope },
                }
            },
            Err(why) => TokenStep::Finish(Err(why)),
        },
        Err(why) => TokenStep::Finish(Err(why)),
    }
}

/// A text of an `authorized_user` file.
pub open spec fn user_field(document: JsonView, path: Seq<char>, name: Seq<char>) -> Result<
    Seq<char>,
    Seq<char>,
> {
    match document.text_member(name) {
        Some(value) => Ok(value),
        None => Err("credential file at "@ + path + " is missing "@ + name + "."@),
    }
}

/// A text of an `authorized_user` file.
fn user_field_of<'a>(document: &'a Json, path: &str, name: &str) -> (value: Result<&'a str, String>)
    ensures
        outcome(value) == user_field(document@, path@, name@),
{
    match document.text_member(name) {
        Some(value) => Ok(value),
        None => Err(
            "credential file at ".to_owned().concat(path).concat(" is missing ").concat(
                name,
            ).concat("."),
        ),
    }
}

/// The refresh token of an `authorized_user` file is sent.
pub open spec fn refreshing(document: JsonView, path: Seq<char>) -> TokenStepView {
    match user_field(document, path, "client_id"@) {
        Err(why) => TokenStepView::Finish(Err(why)),
        Ok(client_id) => match user_field(document, path, "client_secret"@) {
            Err(why) => TokenStepView::Finish(Err(why)),
            Ok(client_secret) => match user_field(document, path, "refresh_token"@) {
                Err(why) => TokenStepView::Finish(Err(why)),
                Ok(refresh_token) => TokenStepView::Send {
                    request: posting_form(
                        "https://oauth2.googleapis.com/token"@,
                        refresh_form(client_id, client_secret, refresh_token),
                    ),
                    run: SendRunView::Refresh,
                },
            },
        },
    }
}

/// The refresh token of an `authorized_user` file is sent.
fn refresh(document: &Json, path: &str) -> (step: TokenStep)
    ensures
        step@ == refreshing(document@, path@),
{
    match user_field_of(document, path, "client_id") {
        Err(why) => TokenStep::Finish(Err(why)),
        Ok(client_id) => match user_field_of(document, path, "client_secret") {
            Err(why) => TokenStep::Finish(Err(why)),
            Ok(client_secret) => match user_field_of(document, path, "refresh_token") {
                Err(why) => TokenStep::Finish(Err(why)),
                Ok(refresh_token) => TokenStep::Send {
                    request: fetch_refresh_token_grant(client_id, client_secret, refresh_token),
                    run: SendRun::Refresh,
                },
            },
        },
    }
}

/// What is said of a credential file of another kind. `quote` is how the kind is
/// shown.
pub open spec fn unrecognised(path: Seq<char>, quote: Seq<char>) -> Seq<char> {
    "the credential file at "@ + path + " has an unrecognised credential type "@ + quote + "."@
}

/// What is said of a credential file of another kind. `quote` is how the kind is
/// shown.
pub fn unrecognised_kind(path: &str, quote: &str) -> (message: String)
    ensures
        message@ == unrecognised(path@, quote@),
{
    "the credential file at ".to_owned().concat(path).concat(
        " has an unrecognised credential type ",
    ).concat(quote).concat(".")
}

/// The credential in the file at `path` is used, whichever of the kinds it is.
pub open spec fn using(
    path: Seq<char>,
    document: Result<JsonView, Seq<char>>,
    scope: Seq<char>,
) -> TokenStepView {
    match document {
        Err(why) => TokenStepView::Finish(
            Err("credential file at "@ + path + " is not valid JSON: "@ + why),
        ),
        Ok(value) => match declared_kind(value) {
            AdcKindView::ServiceAccount => TokenStepView::ReadKey { document: value, path },
            AdcKindView::AuthorizedUser => refreshing(value, path),
            AdcKindView::ExternalAccount => match declared_account(value, path) {
                Ok(account) => asking_for_subject(account, scope),
                Err(why) => TokenStepView::Finish(Err(why)),
            },
            AdcKindView::Unknown(kind) => TokenStepView::Finish(
                Err(unrecognised(path, quotation(kind))),
            ),
        },
    }
}

/// The credential in the file at `path` is used, given the document in it.
pub fn use_credential(path: &str, document: Result<Json, String>, scope: &str) -> (step: TokenStep)
    ensures
        step@ == using(path@, outcome(document), scope@),
        step@.sound(),
{
    match document {
        Err(why) => TokenStep::Finish(
            Err(
                "credential file at ".to_owned().concat(path).concat(" is not valid JSON: ").concat(
                    why.as_str(),
                ),
            ),
        ),
        Ok(value) => match adc_kind(&value) {
            AdcKind::ServiceAccount => TokenStep::ReadKey {
                document: value,
                key: KeyRun { path: path.to_owned() },
            },
            AdcKind::AuthorizedUser => refresh(&value, path),
            AdcKind::ExternalAccount => match ExternalAccount::from_document(&value, path) {
                Ok(account) => ask_for_subject(account, scope),
                Err(why) => TokenStep::Finish(Err(why)),
            },
            AdcKind::Unknown(kind) => TokenStep::Finish(
                Err(unrecognised_kind(path, quoted(kind.as_str()).as_str())),
            ),
        },
    }
}

/// The search for a credential file goes on at `paths[at]`. Where no path is
/// left, the metadata server is asked.
pub open spec fn looking(
    paths: Seq<Seq<char>>,
    at: nat,
    host: Option<Seq<char>>,
    scope: Seq<char>,
) -> TokenStepView {
    if at < paths.len() {
        TokenStepView::ReadFile {
            path: paths[at as int],
            file: FileRunView::Search { paths, at, host, scope },
        }
    } else {
        TokenStepView::Send {
            request: metadata_request(host, scope),
            run: SendRunView::Metadata { tried: paths },
        }
    }
}

/// The search for a credential file goes on at `paths[at]`.
fn look(paths: Vec<String>, at: usize, host: Option<String>, scope: String) -> (step: TokenStep)
    ensures
        step@ == looking(paths.deep_view(), at as nat, host.deep_view(), scope@),
        step@.sound(),
{
    if at < paths.len() {
        TokenStep::ReadFile {
            path: paths[at].clone(),
            file: FileRun::Search { paths, at, host, scope },
        }
    } else {
        TokenStep::Send {
            request: fetch_metadata_token(borrowed(&host), scope.as_str()),
            run: SendRun::Metadata { tried: paths },
        }
    }
}

/// What follows when the file at `paths[at]` was read, or could not be: it is
/// used, or passed over.
pub open spec fn searching(
    paths: Seq<Seq<char>>,
    at: nat,
    host: Option<Seq<char>>,
    scope: Seq<char>,
    read: Result<Seq<char>, Seq<char>>,
) -> TokenStepView {
    match read {
        Ok(text) => using(paths[at as int], parsed(text), scope),
        Err(_) => looking(paths, at + 1, host, scope),
    }
}

/// What follows when the file at `paths[at]` was read, or could not be.
fn search_on(
    paths: Vec<String>,
    at: usize,
    host: Option<String>,
    scope: String,
    read: Result<String, String>,
) -> (step: TokenStep)
    requires
        at < paths@.len(),
    ensures
        step@ == searching(
            paths.deep_view(),
            at as nat,
            host.deep_view(),
            scope@,
            outcome(read),
        ),
        step@.sound(),
{
    match read {
        Ok(text) => use_credential(
            paths[at].as_str(),
            Json::parse(text.as_str()),
            scope.as_str(),
        ),
        Err(_) => {
            let count: usize = paths.len();
            assert(at < count);
            look(paths, at + 1, host, scope)
        },
    }
}

/// A token by Application Default Credentials: from the first credential file
/// that can be read, else from the metadata server.
pub open spec fn by_default(environment: EnvironmentView, scope: Seq<char>) -> TokenStepView {
    looking(environment.paths(), 0, environment.metadata_host, scope)
}

/// A token by Application Default Credentials.
pub fn fetch_adc_token(environment: &Environment, scope: &str) -> (step: TokenStep)
    ensures
        step@ == by_default(environment@, scope@),
        step@.sound(),
{
    let host = match &environment.metadata_host {
        Some(name) => Some(name.clone()),
        None => None,
    };
    look(adc_paths(environment), 0, host, scope.to_owned())
}

impl FileRunView {
    /// A search stands at one of its paths.
    pub open spec fn sound(self) -> bool {
        match self {
            FileRunView::Search { paths, at, .. } => at < paths.len(),
            FileRunView::Subject { .. } => true,
        }
    }

    /// What follows when a file was read, or could not be.
    pub open spec fn resumed(self, read: Result<Seq<char>, Seq<char>>) -> TokenStepView {
        match self {
            FileRunView::Search { paths, at, host, scope } => searching(
                paths,
                at,
                host,
                scope,
                read,
            ),
            FileRunView::Subject { account, scope } => exchanging(
                account,
                scope,
                file_text(account.source.origin(), read),
            ),
        }
    }
}

impl TokenStepView {
    /// What waits for a file can be resumed.
    pub open spec fn sound(self) -> bool {
        match self {
            TokenStepView::ReadFile { file, .. } => file.sound(),
            _ => true,
        }
    }
}

impl FileRun {
    /// What follows when a file was read, or could not be.
    pub fn resume(self, read: Result<String, String>) -> (step: TokenStep)
        requires
            self@.sound(),
        ensures
            step@ == self@.resumed(outcome(read)),
            step@.sound(),
    {
        match self {
            FileRun::Search { paths, at, host, scope } => search_on(paths, at, host, scope, read),
            FileRun::Subject { account, scope } => {
                let raw = subject_from_file(account.source.origin(), read);
                exchange(account, scope, raw)
            },
        }
    }
}

/// What follows when the key in the file at `path` was read, or the file holds
/// none.
pub open spec fn key_read(
    path: Seq<char>,
    key: Result<KeyView, Seq<char>>,
    now: nat,
) -> TokenStepView {
    match key {
        Ok(key) => asking(key.client_email, key.private_key, now),
        Err(why) => TokenStepView::Finish(
            Err("service account file at "@ + path + " is missing fields: "@ + why),
        ),
    }
}

impl KeyRun {
    /// What follows when the key was read, or the file holds none, at the time
    /// `now`.
    pub fn resume(self, key: Result<GcpServiceAccountKey, String>, now: u64) -> (step: TokenStep)
        requires
            now + TOKEN_SECONDS <= u64::MAX,
        ensures
            step@ == key_read(self.path@, outcome(key), now as nat),
            step@.sound(),
    {
        match key {
            Ok(key) => ask_as(key.client_email.as_str(), key.private_key.as_str(), now),
            Err(why) => TokenStep::Finish(
                Err(
                    "service account file at ".to_owned().concat(self.path.as_str()).concat(
                        " is missing fields: ",
                    ).concat(why.as_str()),
                ),
            ),
        }
    }
}

/// A token, or a failure that lists the paths at which no file could be read.
pub open spec fn listing(token: Result<Seq<char>, Seq<char>>, tried: Seq<Seq<char>>) -> Result<
    Seq<char>,
    Seq<char>,
> {
    match token {
        Ok(t) => Ok(t),
        Err(why) => if tried.len() == 0 {
            Err(why)
        } else {
            Err(why + " (no credential file at: "@ + joined(tried, ", "@) + ")"@)
        },
    }
}

/// A token, or a failure that lists the paths at which no file could be read.
fn list(token: Result<String, String>, tried: &Vec<String>) -> (result: Result<String, String>)
    ensures
        outcome(result) == listing(outcome(token), tried.deep_view()),
{
    match token {
        Ok(t) => Ok(t),
        Err(why) => if tried.len() == 0 {
            Err(why)
        } else {
            Err(
                why.concat(" (no credential file at: ").concat(join(tried, ", ").as_str()).concat(
                    ")",
                ),
            )
        },
    }
}

/// What follows when a subject token was exchanged: the impersonation that the
/// credential file asks for, where it asks for one.
pub open spec fn exchanged(
    token: Result<Seq<char>, Seq<char>>,
    impersonation_url: Option<Seq<char>>,
    scope: Seq<char>,
) -> TokenStepView {
    match token {
        Ok(federated) => match impersonation_url {
            Some(url) => TokenStepView::Send {
                request: posting_document(
                    url,
                    federated,
                    impersonation_document(scope, Seq::empty()),
                ),
                run: SendRunView::Impersonation,
            },
            None => TokenStepView::Finish(Ok(federated)),
        },
        Err(why) => TokenStepView::Finish(Err(why)),
    }
}

impl SendRunView {
    /// What follows when a request was answered, or was not.
    pub open spec fn resumed(self, exchange: ExchangeView) -> TokenStepView {
        match self {
            SendRunView::Assertion => TokenStepView::Finish(oauth2_reply(exchange)),
            SendRunView::Refresh => TokenStepView::Finish(refresh_reply(exchange)),
            SendRunView::Metadata { tried } => TokenStepView::Finish(
                listing(metadata_reply(exchange), tried),
            ),
            SendRunView::Subject { account, scope } => exchanging(
                account,
                scope,
                endpoint_text(account.source.origin(), exchange),
            ),
            SendRunView::Exchange { impersonation_url, scope } => exchanged(
                exchange_reply(exchange),
                impersonation_url,
                scope,
            ),
            SendRunView::Impersonation => TokenStepView::Finish(impersonation_reply(exchange)),
        }
    }
}

impl SendRun {
    /// What follows when a request was answered, or was not.
    pub fn resume(self, reply: &Exchange) -> (step: TokenStep)
        ensures
            step@ == self@.resumed(reply@),
            step@.sound(),
    {
        match self {
            SendRun::Assertion => TokenStep::Finish(oauth2_token(reply)),
            SendRun::Refresh => TokenStep::Finish(refreshed_token(reply)),
            SendRun::Metadata { tried } => TokenStep::Finish(list(metadata_token(reply), &tried)),
            SendRun::Subject { account, scope } => {
                let raw = subject_from_endpoint(account.source.origin(), reply);
                exchange(account, scope, raw)
            },
            SendRun::Exchange { impersonation_url, scope } => match federated_token(reply) {
                Ok(federated) => match impersonation_url {
                    Some(url) => {
                        let nobody: Vec<String> = Vec::new();
                        assert(nobody.deep_view() =~= Seq::empty());
                        TokenStep::Send {
                            request: generate_access_token(
                                url.as_str(),
                                federated.as_str(),
                                scope.as_str(),
                                &nobody,
                            ),
                            run: SendRun::Impersonation,
                        }
                    },
                    None => TokenStep::Finish(Ok(federated)),
                },
                Err(why) => TokenStep::Finish(Err(why)),
            },
            SendRun::Impersonation => TokenStep::Finish(impersonated_token(reply)),
        }
    }
}

// ------------------------------------------------------------------------ laws

/// A step once files were read, one result after the other, for as long as the
/// steps ask for files.
pub open spec fn after_reads(
    step: TokenStepView,
    reads: Seq<Result<Seq<char>, Seq<char>>>,
) -> TokenStepView
    decreases reads.len(),
{
    match step {
        TokenStepView::ReadFile { file, .. } => if reads.len() == 0 {
            step
        } else {
            after_reads(file.resumed(reads[0]), reads.drop_first())
        },
        _ => step,
    }
}

/// A search passes over files that cannot be read.
proof fn a_search_goes_on(
    paths: Seq<Seq<char>>,
    at: nat,
    host: Option<Seq<char>>,
    scope: Seq<char>,
    reads: Seq<Result<Seq<char>, Seq<char>>>,
    last: Seq<Result<Seq<char>, Seq<char>>>,
)
    requires
        at + reads.len() <= paths.len(),
        forall|i: int| 0 <= i < reads.len() ==> (#[trigger] reads[i]) is Err,
    ensures
        after_reads(looking(paths, at, host, scope), reads + last) == after_reads(
            looking(paths, at + reads.len(), host, scope),
            last,
        ),
    decreases reads.len(),
{
    if reads.len() == 0 {
        assert(reads + last =~= last);
    } else {
        let rest = reads.drop_first();
        assert((reads + last).drop_first() =~= rest + last);
        assert((reads + last)[0] == reads[0]);
        assert forall|i: int| 0 <= i < rest.len() implies (#[trigger] rest[i]) is Err by {
            assert(rest[i] == reads[i + 1]);
        }
        a_search_goes_on(paths, at + 1, host, scope, rest, last);
    }
}

/// The first credential file that can be read, in the order of the search, is
/// the one that is used, whatever stands at the paths after it.
pub proof fn the_first_readable_file_is_used(
    environment: EnvironmentView,
    scope: Seq<char>,
    unreadable: Seq<Result<Seq<char>, Seq<char>>>,
    text: Seq<char>,
)
    requires
        unreadable.len() < environment.paths().len(),
        forall|i: int| 0 <= i < unreadable.len() ==> (#[trigger] unreadable[i]) is Err,
    ensures
        after_reads(by_default(environment, scope), unreadable.push(Ok(text))) == using(
            environment.paths()[unreadable.len() as int],
            parsed(text),
            scope,
        ),
{
    let found: Seq<Result<Seq<char>, Seq<char>>> = seq![Ok(text)];
    assert(unreadable.push(Ok(text)) =~= unreadable + found);
    a_search_goes_on(
        environment.paths(),
        0,
        environment.metadata_host,
        scope,
        unreadable,
        found,
    );
    let step = using(environment.paths()[unreadable.len() as int], parsed(text), scope);
    assert(found.drop_first() =~= Seq::empty());
    assert(after_reads(step, found.drop_first()) == step);
}

/// Where no credential file can be read, the metadata server is asked. With
/// nothing configured there is no file to look for, and it is asked at once.
pub proof fn without_a_file_the_metadata_server_is_asked(
    environment: EnvironmentView,
    scope: Seq<char>,
    unreadable: Seq<Result<Seq<char>, Seq<char>>>,
)
    requires
        unreadable.len() == environment.paths().len(),
        forall|i: int| 0 <= i < unreadable.len() ==> (#[trigger] unreadable[i]) is Err,
    ensures
        after_reads(by_default(environment, scope), unreadable) == (TokenStepView::Send {
            request: metadata_request(environment.metadata_host, scope),
            run: SendRunView::Metadata { tried: environment.paths() },
        }),
{
    let nothing: Seq<Result<Seq<char>, Seq<char>>> = Seq::empty();
    assert(unreadable + nothing =~= unreadable);
    a_search_goes_on(
        environment.paths(),
        0,
        environment.metadata_host,
        scope,
        unreadable,
        nothing,
    );
}

/// A credential file that was read is not passed over, whatever is wrong with
/// it: neither a file further on nor the metadata server takes its place.
pub proof fn a_file_that_was_read_is_not_passed_over(
    path: Seq<char>,
    document: Result<JsonView, Seq<char>>,
    scope: Seq<char>,
)
    ensures
        (using(path, document, scope) matches TokenStepView::ReadFile { file, .. }
            ==> file is Subject),
        (using(path, document, scope) matches TokenStepView::Send { run, .. } ==> run is Refresh
            || run is Subject),
{
}

/// How many more answers a token may take at most.
pub open spec fn answers_left(step: TokenStepView) -> nat {
    match step {
        TokenStepView::ReadFile { file, .. } => match file {
            FileRunView::Search { paths, at, .. } => (4 + paths.len() - at) as nat,
            FileRunView::Subject { .. } => 3,
        },
        TokenStepView::ReadKey { .. } => 2,
        TokenStepView::Send { run, .. } => match run {
            SendRunView::Subject { .. } => 3,
            SendRunView::Exchange { .. } => 2,
            _ => 1,
        },
        TokenStepView::Finish(_) => 0,
    }
}

/// Each answer brings the token nearer, so that there is an end to asking: after
/// at most four answers more than there are paths to look at, the token is there,
/// or it is settled that there will be none.
pub proof fn every_answer_brings_the_token_nearer(
    step: TokenStepView,
    read: Result<Seq<char>, Seq<char>>,
    key: Result<KeyView, Seq<char>>,
    now: nat,
    exchange: ExchangeView,
)
    requires
        step.sound(),
    ensures
        (step matches TokenStepView::ReadFile { file, .. } ==> file.resumed(read).sound()
            && answers_left(file.resumed(read)) < answers_left(step)),
        (step matches TokenStepView::ReadKey { path, .. } ==> answers_left(
            key_read(path, key, now),
        ) < answers_left(step)),
        (step matches TokenStepView::Send { run, .. } ==> answers_left(run.resumed(exchange))
            < answers_left(step)),
{
}

/// The caller's scope is what the token in the end is good for. Without an
/// impersonation it is asked of the exchange itself; with one, the exchange asks
/// for the broad scope, and the impersonation at the URL of the credential file
/// for the caller's.
pub proof fn the_callers_scope_is_asked_for(
    account: AccountView,
    scope: Seq<char>,
    raw: Seq<char>,
    answer: ExchangeView,
)
    requires
        subject_token(account.source, raw) is Ok,
        exchange_reply(answer) is Ok,
    ensures
        (exchanging(account, scope, Ok(raw)) matches TokenStepView::Send { request, run } && (
        request.payload matches PayloadView::Form(body) && pieces(body, '&')[2] == "scope="@
            + escaped(
            if account.impersonation_url is Some {
                "https://www.googleapis.com/auth/cloud-platform"@
            } else {
                scope
            },
        )) && (match account.impersonation_url {
            Some(url) => run.resumed(answer) == (TokenStepView::Send {
                request: posting_document(
                    url,
                    exchange_reply(answer)->Ok_0,
                    impersonation_document(scope, Seq::empty()),
                ),
                run: SendRunView::Impersonation,
            }),
            None => run.resumed(answer) == TokenStepView::Finish(exchange_reply(answer)),
        })),
{
    an_exchange_form_has_six_parameters(
        account,
        scope,
        subject_token(account.source, raw)->Ok_0,
    );
}

/// A part of joined texts stands in what they make together.
proof fn a_part_stands_in_what_is_joined(parts: Seq<Seq<char>>, mark: Seq<char>, i: int)
    requires
        0 <= i < parts.len(),
    ensures
        occurs(joined(parts, mark), parts[i]),
    decreases parts.len(),
{
    let text = joined(parts, mark);
    if parts.len() == 1 {
        assert(text.subrange(0, text.len() as int) =~= parts[i]);
        assert(occurs_at(text, parts[i], 0));
    } else {
        let before = joined(parts.drop_last(), mark);
        if i == parts.len() - 1 {
            let at = before.len() as int + mark.len();
            assert(text.subrange(at, at + parts[i].len()) =~= parts[i]);
            assert(occurs_at(text, parts[i], at));
        } else {
            assert(parts.drop_last()[i] == parts[i]);
            a_part_stands_in_what_is_joined(parts.drop_last(), mark, i);
            let at = choose|at: int| occurs_at(before, parts[i], at);
            assert(text.subrange(at, at + parts[i].len()) =~= before.subrange(
                at,
                at + parts[i].len(),
            ));
            assert(occurs_at(text, parts[i], at));
        }
    }
}

/// Where the metadata server has no token either, the message names every path
/// at which a credential file was looked for.
pub proof fn a_failure_names_every_path_tried(
    tried: Seq<Seq<char>>,
    exchange: ExchangeView,
    i: int,
)
    requires
        0 <= i < tried.len(),
        metadata_reply(exchange) is Err,
    ensures
        (SendRunView::Metadata { tried }.resumed(exchange) matches TokenStepView::Finish(Err(why))
            && occurs(why, tried[i])),
{
    let why = metadata_reply(exchange)->Err_0;
    let paths = joined(tried, ", "@);
    let message = why + " (no credential file at: "@ + paths + ")"@;
    a_part_stands_in_what_is_joined(tried, ", "@, i);
    let at = choose|at: int| occurs_at(paths, tried[i], at);
    let start = why.len() as int + " (no credential file at: "@.len();
    assert(message.subrange(start + at, start + at + tried[i].len()) =~= paths.subrange(
        at,
        at + tried[i].len(),
    ));
    assert(occurs_at(message, tried[i], start + at));
}

/// A key file asks for a token as the account that it is for: the claims that are
/// sent name the address in the key, and are signed by the key's own private key.
/// The project of the key plays no part.
pub proof fn a_key_file_asks_as_its_account(
    path: Seq<char>,
    key: KeyView,
    project: Seq<char>,
    now: nat,
    why: Seq<char>,
)
    ensures
        (key_read(path, Ok(key), now) matches TokenStepView::Send { request, run } ==> {
            &&& run is Assertion
            &&& request.url == "https://oauth2.googleapis.com/token"@
            &&& (request.payload matches PayloadView::Form(body) && {
                let grant =
                    "grant_type=urn%3Aietf%3Aparams%3Aoauth%3Agrant-type%3Ajwt-bearer&assertion="@;
                let parts = pieces(body.skip(grant.len() as int), '.');
                &&& parts.len() == 3
                &&& decoded(parts[1]) == encode_utf8(
                    "{\"iss\":\""@ + key.client_email
                        + "\",\"scope\":\"https://www.googleapis.com/auth/bigquery\",\"aud\":\"https://oauth2.googleapis.com/token\",\"exp\":"@
                        + decimal(now + 3600) + ",\"iat\":"@ + decimal(now) + "}"@,
                )
                &&& signature_by(
                    key.private_key,
                    encode_utf8(parts[0] + seq!['.'] + parts[1]),
                ) == Ok::<Seq<u8>, Seq<char>>(decoded(parts[2]))
            })
        }),
        key_read(path, Ok(key), now) is Send || key_read(path, Ok(key), now) is Finish,
        (key_read(path, Ok(key), now) matches TokenStepView::Finish(token) ==> token is Err
            && oauth2_request(key.client_email, key.private_key, now) is Err),
        key_read(path, Ok(key), now) == key_read(
            path,
            Ok(KeyView { project_id: project, ..key }),
            now,
        ),
        key_read(path, Err(why), now) == TokenStepView::Finish(
            Err("service account file at "@ + path + " is missing fields: "@ + why),
        ),
{
    a_service_account_signs_its_own_claims(key.client_email, key.private_key, now);
}

/// A credential file is used by its kind. A key is read out of the document
/// itself; a refresh token is sent with the client's name and secret, each from
/// the member of its name; a federated account is asked for its subject token
/// where its source says. Any other kind is refused by name.
pub proof fn a_credential_is_used_by_its_kind(
    path: Seq<char>,
    document: JsonView,
    scope: Seq<char>,
    why: Seq<char>,
)
    ensures
        using(path, Err(why), scope) == TokenStepView::Finish(
            Err("credential file at "@ + path + " is not valid JSON: "@ + why),
        ),
        document.text_member("type"@) == Some("service_account"@) ==> using(
            path,
            Ok(document),
            scope,
        ) == (TokenStepView::ReadKey { document, path }),
        document.text_member("type"@) == Some("authorized_user"@) && document.text_member(
            "client_id"@,
        ) is Some && document.text_member("client_secret"@) is Some && document.text_member(
            "refresh_token"@,
        ) is Some ==> (using(path, Ok(document), scope) matches TokenStepView::Send {
            request,
            run,
        } && run is Refresh && request.url == "https://oauth2.googleapis.com/token"@ && (
        request.payload matches PayloadView::Form(body) && pieces(body, '&') == seq![
            "grant_type=refresh_token"@,
            "client_id="@ + escaped(document.text_member("client_id"@)->0),
            "client_secret="@ + escaped(document.text_member("client_secret"@)->0),
            "refresh_token="@ + escaped(document.text_member("refresh_token"@)->0),
        ])),
        document.text_member("type"@) == Some("external_account"@) ==> (match declared_account(
            document,
            path,
        ) {
            Err(refusal) => using(path, Ok(document), scope) == TokenStepView::Finish(
                Err(refusal),
            ),
            Ok(account) => match document.member("credential_source"@)->0.text_member("file"@) {
                Some(file) => using(path, Ok(document), scope) == (TokenStepView::ReadFile {
                    path: file,
                    file: FileRunView::Subject { account, scope },
                }),
                None => (using(path, Ok(document), scope) matches TokenStepView::Send {
                    request,
                    run,
                } && run == (SendRunView::Subject { account, scope }) && Some(request.url)
                    == document.member("credential_source"@)->0.text_member("url"@)
                    && request.payload is Nothing && request.bearer is None && request.headers
                    == source_headers(document.member("credential_source"@)->0)),
            },
        }),
        (match document.text_member("type"@) {
            Some(kind) => kind != "service_account"@ && kind != "authorized_user"@ && kind
                != "external_account"@ ==> using(path, Ok(document), scope)
                == TokenStepView::Finish(
                Err(
                    "the credential file at "@ + path + " has an unrecognised credential type "@
                        + quotation(kind) + "."@,
                ),
            ),
            None => using(path, Ok(document), scope) == TokenStepView::Finish(
                Err(
                    "the credential file at "@ + path + " has an unrecognised credential type "@
                        + quotation(Seq::empty()) + "."@,
                ),
            ),
        }),
{
    the_type_tells_the_kind(
        document,
        document,
        match document.text_member("type"@) {
            Some(kind) => kind,
            None => Seq::empty(),
        },
    );
    if document.text_member("type"@) == Some("authorized_user"@) && document.text_member(
        "client_id"@,
    ) is Some && document.text_member("client_secret"@) is Some && document.text_member(
        "refresh_token"@,
    ) is Some {
        a_refresh_form_has_four_parameters(
            document.text_member("client_id"@)->0,
            document.text_member("client_secret"@)->0,
            document.text_member("refresh_token"@)->0,
        );
    }
    a_credential_holds_what_its_document_says(document, path);
    a_url_has_the_headers_of_its_source(document, path);
}

/// A user file that lacks one of its three texts is refused with the name of the
/// first that it lacks.
pub proof fn an_incomplete_user_file_is_refused(
    path: Seq<char>,
    document: JsonView,
    scope: Seq<char>,
)
    requires
        document.text_member("type"@) == Some("authorized_user"@),
    ensures
        ({
            let lacks = |name: Seq<char>|
                TokenStepView::Finish(
                    Err("credential file at "@ + path + " is missing "@ + name + "."@),
                );
            let id = document.text_member("client_id"@);
            let secret = document.text_member("client_secret"@);
            let token = document.text_member("refresh_token"@);
            let step = using(path, Ok(document), scope);
            &&& id is None ==> step == lacks("client_id"@)
            &&& id is Some && secret is None ==> step == lacks("client_secret"@)
            &&& id is Some && secret is Some && token is None ==> step == lacks("refresh_token"@)
        }),
{
    the_type_tells_the_kind(document, document, Seq::empty());
}

/// The paths of a search are read one after the other, in their order, for as
/// long as none can be read.
pub proof fn paths_are_read_in_their_order(
    environment: EnvironmentView,
    scope: Seq<char>,
    unreadable: Seq<Result<Seq<char>, Seq<char>>>,
)
    requires
        unreadable.len() < environment.paths().len(),
        forall|i: int| 0 <= i < unreadable.len() ==> (#[trigger] unreadable[i]) is Err,
    ensures
        (after_reads(by_default(environment, scope), unreadable) matches TokenStepView::ReadFile {
            path,
            ..
        } && path == environment.paths()[unreadable.len() as int]),
{
    let nothing: Seq<Result<Seq<char>, Seq<char>>> = Seq::empty();
    assert(unreadable + nothing =~= unreadable);
    a_search_goes_on(
        environment.paths(),
        0,
        environment.metadata_host,
        scope,
        unreadable,
        nothing,
    );
}

/// What was read as a subject token is sent to the account's own exchange; what
/// could not be read, or is none, ends the search with the reason.
pub proof fn a_subject_token_goes_to_the_exchange(
    account: AccountView,
    scope: Seq<char>,
    raw: Seq<char>,
    why: Seq<char>,
)
    ensures
        exchanging(account, scope, Err(why)) == TokenStepView::Finish(Err(why)),
        (match subject_token(account.source, raw) {
            Err(bad) => exchanging(account, scope, Ok(raw)) == TokenStepView::Finish(Err(bad)),
            Ok(subject) => (exchanging(account, scope, Ok(raw)) matches TokenStepView::Send {
                request,
                run,
            } && request.url == account.token_url && request.bearer is None && (request.payload
                matches PayloadView::Form(body) && pieces(body, '&').len() == 6 && pieces(
                body,
                '&',
            )[1] == "audience="@ + escaped(account.audience) && pieces(body, '&')[4]
                == "subject_token="@ + escaped(subject) && pieces(body, '&')[5]
                == "subject_token_type="@ + escaped(account.subject_token_type)) && run == (
            SendRunView::Exchange { impersonation_url: account.impersonation_url, scope })),
        }),
{
    if let Ok(subject) = subject_token(account.source, raw) {
        an_exchange_form_has_six_parameters(account, scope, subject);
    }
}

/// Each answer is read as the answer to what was sent, and ends the way to the
/// token with it, but for a subject token, which is exchanged first.
pub proof fn an_answer_is_read_as_what_was_asked_for(
    exchange: ExchangeView,
    read: Result<Seq<char>, Seq<char>>,
    tried: Seq<Seq<char>>,
    account: AccountView,
    scope: Seq<char>,
)
    ensures
        SendRunView::Assertion.resumed(exchange) == TokenStepView::Finish(oauth2_reply(exchange)),
        SendRunView::Refresh.resumed(exchange) == TokenStepView::Finish(refresh_reply(exchange)),
        SendRunView::Impersonation.resumed(exchange) == TokenStepView::Finish(
            impersonation_reply(exchange),
        ),
        (metadata_reply(exchange) matches Ok(token) ==> SendRunView::Metadata { tried }.resumed(
            exchange,
        ) == TokenStepView::Finish(Ok(token))),
        (metadata_reply(exchange) matches Err(bad) ==> SendRunView::Metadata {
            tried: Seq::empty(),
        }.resumed(exchange) == TokenStepView::Finish(Err(bad))),
        (metadata_reply(exchange) matches Err(bad) ==> (tried.len() > 0 ==> SendRunView::Metadata {
            tried,
        }.resumed(exchange) == TokenStepView::Finish(
            Err(bad + " (no credential file at: "@ + joined(tried, ", "@) + ")"@),
        ))),
        (exchange_reply(exchange) matches Err(bad) ==> SendRunView::Exchange {
            impersonation_url: account.impersonation_url,
            scope,
        }.resumed(exchange) == TokenStepView::Finish(Err(bad))),
        (match account.source {
            SourceView::File { path, .. } => FileRunView::Subject { account, scope }.resumed(read)
                == exchanging(account, scope, file_text(path, read)),
            SourceView::Url { url, .. } => SendRunView::Subject { account, scope }.resumed(exchange)
                == exchanging(account, scope, endpoint_text(url, exchange)),
        }),
{
}

/// The steps on the way to a token are the ones that these laws speak of.
pub proof fn a_token_is_come_by_in_these_steps(
    environment: &Environment,
    scope: &str,
    file: FileRun,
    read: Result<String, String>,
    key: KeyRun,
    account: Result<GcpServiceAccountKey, String>,
    now: u64,
    run: SendRun,
    reply: &Exchange,
    step: TokenStep,
)
    ensures
        call_ensures(fetch_adc_token, (environment, scope), step) ==> step@ == by_default(
            environment@,
            scope@,
        ),
        call_ensures(FileRun::resume, (file, read), step) ==> step@ == file@.resumed(outcome(read)),
        call_ensures(KeyRun::resume, (key, account, now), step) ==> step@ == key_read(
            key.path@,
            outcome(account),
            now as nat,
        ),
        call_ensures(SendRun::resume, (run, reply), step) ==> step@ == run@.resumed(reply@),
{
}

/// The steps on the way to a token, and what waits after them, are told by what
/// they hold, field by field.
pub proof fn a_way_to_a_token_is_told_by_what_it_holds(
    step: TokenStep,
    file: FileRun,
    run: SendRun,
)
    ensures
        (match step {
            TokenStep::ReadFile { path, file: next } => step@ == (TokenStepView::ReadFile {
                path: path@,
                file: next@,
            }),
            TokenStep::ReadKey { document, key } => step@ == (TokenStepView::ReadKey {
                document: document@,
                path: key.path@,
            }),
            TokenStep::Send { request, run: next } => step@ == (TokenStepView::Send {
                request: request@,
                run: next@,
            }),
            TokenStep::Finish(Ok(token)) => step@ == TokenStepView::Finish(Ok(token@)),
            TokenStep::Finish(Err(why)) => step@ == TokenStepView::Finish(Err(why@)),
        }),
        (match file {
            FileRun::Search { paths, at, host, scope } => file@ == (FileRunView::Search {
                paths: paths.deep_view(),
                at: at as nat,
                host: host.deep_view(),
                scope: scope@,
            }),
            FileRun::Subject { account, scope } => file@ == (FileRunView::Subject {
                account: account@,
                scope: scope@,
            }),
        }),
        (match run {
            SendRun::Assertion => run@ is Assertion,
            SendRun::Refresh => run@ is Refresh,
            SendRun::Metadata { tried } => run@ == (SendRunView::Metadata {
                tried: tried.deep_view(),
            }),
            SendRun::Subject { account, scope } => run@ == (SendRunView::Subject {
                account: account@,
                scope: scope@,
            }),
            SendRun::Exchange { impersonation_url, scope } => run@ == (SendRunView::Exchange {
                impersonation_url: impersonation_url.deep_view(),
                scope: scope@,
            }),
            SendRun::Impersonation => run@ is Impersonation,
        }),
{
}

} // verus!
