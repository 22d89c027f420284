//! The exchanges by which Google hands out access tokens.

use vstd::prelude::*;
use vstd::string::*;
use vstd::utf8::encode_utf8;

use crate::base64::{
    base64_url_encode, decoded, encoded, encoding_is_unpadded, encoding_reads_back, in_alphabet,
};
use crate::form::{a_parameter_begins_a_piece, escaped, percent_encode};
use crate::http::{
    accepted, body_of, fetching, granted, posting_document, posting_form, token_of, token_or,
    Exchange, ExchangeView, PayloadView, Request, RequestView,
};
use crate::json::{a_member_is_found_by_its_name, outcome, parsed, Json, JsonView};
use crate::number::{decimal, to_decimal};
use crate::signing::{sign_rs256, signature_by};
use crate::text::{a_mark_begins_a_piece, pieces, without_a_mark_there_is_one_piece};

verus! {

/// How long an access token is asked for, in seconds.
pub const TOKEN_SECONDS: u64 = 3600;

// --------------------------------------------------------- service account key

/// What a service account's key file says of it.
#[derive(Debug, PartialEq, Eq)]
pub struct GcpServiceAccountKey {
    pub project_id: String,
    pub client_email: String,
    pub private_key: String,
}

/// What a `GcpServiceAccountKey` says.
pub ghost struct KeyView {
    pub project_id: Seq<char>,
    pub client_email: Seq<char>,
    pub private_key: Seq<char>,
}

impl View for GcpServiceAccountKey {
    type V = KeyView;

    open spec fn view(&self) -> KeyView {
        KeyView {
            project_id: self.project_id@,
            client_email: self.client_email@,
            private_key: self.private_key@,
        }
    }
}

impl DeepView for GcpServiceAccountKey {
    type V = KeyView;

    open spec fn deep_view(&self) -> KeyView {
        self@
    }
}

/// The header of an assertion.
pub open spec fn assertion_header() -> Seq<char> {
    "{\"alg\":\"RS256\",\"typ\":\"JWT\"}"@
}

/// What a service account claims at the time `now`, in seconds.
pub open spec fn claims(email: Seq<char>, now: nat) -> Seq<char> {
    "{\"iss\":\""@ + email
        + "\",\"scope\":\"https://www.googleapis.com/auth/bigquery\",\"aud\":\"https://oauth2.googleapis.com/token\",\"exp\":"@
        + decimal(now + TOKEN_SECONDS as nat) + ",\"iat\":"@ + decimal(now) + "}"@
}

/// What a service account signs.
pub open spec fn signing_input(email: Seq<char>, now: nat) -> Seq<char> {
    encoded(encode_utf8(assertion_header())) + "."@ + encoded(encode_utf8(claims(email, now)))
}

/// What a service account signs.
fn payload_of(email: &str, now: u64) -> (payload: String)
    requires
        now + TOKEN_SECONDS <= u64::MAX,
    ensures
        payload@ == signing_input(email@, now as nat),
{
    let mut claimed = "{\"iss\":\"".to_owned();
    claimed.append(email);
    claimed.append(
        "\",\"scope\":\"https://www.googleapis.com/auth/bigquery\",\"aud\":\"https://oauth2.googleapis.com/token\",\"exp\":",
    );
    claimed.append(to_decimal((now + TOKEN_SECONDS) as u128).as_str());
    claimed.append(",\"iat\":");
    claimed.append(to_decimal(now as u128).as_str());
    claimed.append("}");
    let header = "{\"alg\":\"RS256\",\"typ\":\"JWT\"}";
    let mut payload = base64_url_encode(header.as_bytes());
    payload.append(".");
    payload.append(base64_url_encode(claimed.as_str().as_bytes()).as_str());
    payload
}

/// What a service account shows for itself: what it signed, and the signature.
pub open spec fn assertion(email: Seq<char>, now: nat, signature: Seq<u8>) -> Seq<char> {
    signing_input(email, now) + "."@ + encoded(signature)
}

/// The request that exchanges a signed assertion for a token.
pub open spec fn assertion_request(
    email: Seq<char>,
    now: nat,
    signature: Result<Seq<u8>, Seq<char>>,
) -> Result<RequestView, Seq<char>> {
    match signature {
        Ok(bytes) => Ok(
            posting_form(
                "https://oauth2.googleapis.com/token"@,
                "grant_type=urn%3Aietf%3Aparams%3Aoauth%3Agrant-type%3Ajwt-bearer&assertion="@
                    + assertion(email, now, bytes),
            ),
        ),
        Err(why) => Err(why),
    }
}

/// The request that exchanges a signed assertion for a token, given the
/// signature.
pub fn assertion_grant(email: &str, now: u64, signature: Result<Vec<u8>, String>) -> (request:
    Result<Request, String>)
    requires
        now + TOKEN_SECONDS <= u64::MAX,
    ensures
        outcome(request) == assertion_request(email@, now as nat, outcome(signature)),
{
    match signature {
        Ok(bytes) => {
            assert(bytes.deep_view() =~= bytes@);
            let mut body =
                "grant_type=urn%3Aietf%3Aparams%3Aoauth%3Agrant-type%3Ajwt-bearer&assertion=".to_owned();
            let mut shown = payload_of(email, now);
            shown.append(".");
            shown.append(base64_url_encode(bytes.as_slice()).as_str());
            body.append(shown.as_str());
            Ok(Request::form("https://oauth2.googleapis.com/token", body))
        },
        Err(why) => Err(why),
    }
}

/// The request by which a service account asks for a token, or why it cannot.
pub open spec fn oauth2_request(email: Seq<char>, private_key: Seq<char>, now: nat) -> Result<
    RequestView,
    Seq<char>,
> {
    assertion_request(
        email,
        now,
        signature_by(private_key, encode_utf8(signing_input(email, now))),
    )
}

/// The request by which a service account asks for a token at the time `now`.
pub fn fetch_oauth2_token(email: &str, private_key: &str, now: u64) -> (request: Result<
    Request,
    String,
>)
    requires
        now + TOKEN_SECONDS <= u64::MAX,
    ensures
        outcome(request) == oauth2_request(email@, private_key@, now as nat),
{
    let payload = payload_of(email, now);
    let signature = sign_rs256(private_key, payload.as_str().as_bytes());
    assertion_grant(email, now, signature)
}

/// The token in the document that answers an assertion.
pub open spec fn oauth2_document(body: Seq<char>, document: Result<JsonView, Seq<char>>) -> Result<
    Seq<char>,
    Seq<char>,
> {
    match document {
        Ok(value) => match value.text_member("access_token"@) {
            Some(token) => Ok(token),
            None => Err("GCP token response missing access_token."@),
        },
        Err(why) => Err("GCP token JSON parse failed: "@ + why + ": "@ + body),
    }
}

/// The token in the document that answers an assertion, given the document.
pub fn oauth2_token_in(body: &str, document: Result<Json, String>) -> (token: Result<
    String,
    String,
>)
    ensures
        outcome(token) == oauth2_document(body@, outcome(document)),
{
    match document {
        Ok(value) => match value.text_member("access_token") {
            Some(token) => Ok(token.to_owned()),
            None => Err("GCP token response missing access_token.".to_owned()),
        },
        Err(why) => Err(
            "GCP token JSON parse failed: ".to_owned().concat(why.as_str()).concat(": ").concat(body),
        ),
    }
}

/// The token that answers an assertion.
pub open spec fn oauth2_reply(exchange: ExchangeView) -> Result<Seq<char>, Seq<char>> {
    match exchange {
        ExchangeView::SendFailed(why) => Err("GCP token request failed: "@ + why),
        ExchangeView::ReadFailed(why) => Err("GCP token response read failed: "@ + why),
        ExchangeView::Answered { success, status, body } => if success {
            oauth2_document(body, parsed(body))
        } else {
            Err("GCP token request returned HTTP "@ + status + ": "@ + body)
        },
    }
}

/// The token that answers an assertion.
pub fn oauth2_token(exchange: &Exchange) -> (token: Result<String, String>)
    ensures
        outcome(token) == oauth2_reply(exchange@),
{
    match exchange {
        Exchange::SendFailed(why) => Err(
            "GCP token request failed: ".to_owned().concat(why.as_str()),
        ),
        Exchange::ReadFailed(why) => Err(
            "GCP token response read failed: ".to_owned().concat(why.as_str()),
        ),
        Exchange::Answered { success, status, body } => if *success {
            oauth2_token_in(body.as_str(), Json::parse(body.as_str()))
        } else {
            Err(
                "GCP token request returned HTTP ".to_owned().concat(status.as_str()).concat(
                    ": ",
                ).concat(body.as_str()),
            )
        },
    }
}

// --------------------------------------------------------------- refresh token

/// The form that exchanges a refresh token for an access token.
pub open spec fn refresh_form(
    client_id: Seq<char>,
    client_secret: Seq<char>,
    refresh_token: Seq<char>,
) -> Seq<char> {
    "grant_type=refresh_token&client_id="@ + escaped(client_id) + "&client_secret="@ + escaped(
        client_secret,
    ) + "&refresh_token="@ + escaped(refresh_token)
}

/// The request that exchanges an `authorized_user` refresh token for an access
/// token.
pub fn fetch_refresh_token_grant(client_id: &str, client_secret: &str, refresh_token: &str) -> (
request: Request)
    ensures
        request@ == posting_form(
            "https://oauth2.googleapis.com/token"@,
            refresh_form(client_id@, client_secret@, refresh_token@),
        ),
{
    let mut body = "grant_type=refresh_token&client_id=".to_owned();
    body.append(percent_encode(client_id).as_str());
    body.append("&client_secret=");
    body.append(percent_encode(client_secret).as_str());
    body.append("&refresh_token=");
    body.append(percent_encode(refresh_token).as_str());
    Request::form("https://oauth2.googleapis.com/token", body)
}

/// The token that answers a refresh token.
pub open spec fn refresh_reply(exchange: ExchangeView) -> Result<Seq<char>, Seq<char>> {
    granted(
        accepted(
            exchange,
            "Google token request failed: "@,
            "Google token response read failed: "@,
            "Google returned HTTP "@,
            " for the token request."@,
        ),
        "access_token"@,
        "Google token response contained no access_token."@,
    )
}

/// The token that answers a refresh token.
pub fn refreshed_token(exchange: &Exchange) -> (token: Result<String, String>)
    ensures
        outcome(token) == refresh_reply(exchange@),
{
    let body = body_of(
        exchange,
        "Google token request failed: ",
        "Google token response read failed: ",
        "Google returned HTTP ",
        " for the token request.",
    );
    token_of(body, "access_token", "Google token response contained no access_token.")
}

// ------------------------------------------------------------- metadata server

/// Where the metadata server hands out tokens.
pub open spec fn metadata_address(host: Option<Seq<char>>, scope: Seq<char>) -> Seq<char> {
    let name = match host {
        Some(given) => given,
        None => "metadata.google.internal"@,
    };
    "http://"@ + name + "/computeMetadata/v1/instance/service-accounts/default/token?scopes="@
        + escaped(scope)
}

/// The request that asks the metadata server for a token.
pub open spec fn metadata_request(host: Option<Seq<char>>, scope: Seq<char>) -> RequestView {
    fetching(metadata_address(host, scope), seq![("Metadata-Flavor"@, "Google"@)])
}

/// The request that asks the metadata server for a token. The server stands at
/// `host`, where the environment names one.
pub fn fetch_metadata_token(host: Option<&str>, scope: &str) -> (request: Request)
    ensures
        request@ == metadata_request(host.deep_view(), scope@),
{
    let name: &str = match host {
        Some(given) => given,
        None => "metadata.google.internal",
    };
    let mut url = "http://".to_owned();
    url.append(name);
    url.append("/computeMetadata/v1/instance/service-accounts/default/token?scopes=");
    url.append(percent_encode(scope).as_str());
    let mut headers: Vec<(String, String)> = Vec::new();
    headers.push(("Metadata-Flavor".to_owned(), "Google".to_owned()));
    assert(headers.deep_view() =~= seq![("Metadata-Flavor"@, "Google"@)]);
    Request::fetch(url, headers)
}

/// The token that the metadata server answers with, whatever its status.
pub open spec fn metadata_reply(exchange: ExchangeView) -> Result<Seq<char>, Seq<char>> {
    match exchange {
        ExchangeView::SendFailed(_) => Err(
            "no Google credentials found: set GOOGLE_APPLICATION_CREDENTIALS, run `gcloud auth application-default login`, or supply a service account key."@,
        ),
        ExchangeView::ReadFailed(why) => Err("metadata token response read failed: "@ + why),
        ExchangeView::Answered { body, .. } => granted(
            Ok(body),
            "access_token"@,
            "the metadata server returned no access_token."@,
        ),
    }
}

/// The token that the metadata server answers with.
pub fn metadata_token(exchange: &Exchange) -> (token: Result<String, String>)
    ensures
        outcome(token) == metadata_reply(exchange@),
{
    match exchange {
        Exchange::SendFailed(_) => Err(
            "no Google credentials found: set GOOGLE_APPLICATION_CREDENTIALS, run `gcloud auth application-default login`, or supply a service account key.".to_owned(),
        ),
        Exchange::ReadFailed(why) => Err(
            "metadata token response read failed: ".to_owned().concat(why.as_str()),
        ),
        Exchange::Answered { body, .. } => token_or(
            Json::parse(body.as_str()),
            "access_token",
            "the metadata server returned no access_token.",
        ),
    }
}

// --------------------------------------------------------------- impersonation

/// The document that asks for a token of another service account.
pub open spec fn impersonation_document(scope: Seq<char>, delegates: Seq<Seq<char>>) -> JsonView {
    JsonView::Object(
        seq![
            ("scope"@, JsonView::Array(seq![JsonView::Text(scope)])),
            (
                "delegates"@,
                JsonView::Array(
                    Seq::new(
                        delegates.len(),
                        |i: int|
                            JsonView::Text("projects/-/serviceAccounts/"@ + delegates[i]),
                    ),
                ),
            ),
        ],
    )
}

/// The request for a token of another service account, at a URL that names the
/// account.
pub fn generate_access_token(
    url: &str,
    source_token: &str,
    scope: &str,
    delegates: &Vec<String>,
) -> (request: Request)
    ensures
        request@ == posting_document(
            url@,
            source_token@,
            impersonation_document(scope@, delegates.deep_view()),
        ),
{
    let ghost named = impersonation_document(
        scope@,
        delegates.deep_view(),
    )->Object_0[1].1->Array_0;
    let mut scopes: Vec<Json> = Vec::new();
    scopes.push(Json::text(scope));
    let mut names: Vec<Json> = Vec::new();
    let mut i: usize = 0;
    while i < delegates.len()
        invariant
            i <= delegates.len(),
            names.len() == i,
            named.len() == delegates.len(),
            forall|j: int|
                0 <= j < delegates.len() ==> #[trigger] named[j] == JsonView::Text(
                    "projects/-/serviceAccounts/"@ + delegates@[j]@,
                ),
            forall|j: int| 0 <= j < i ==> (#[trigger] names@[j])@ == named[j],
        decreases delegates.len() - i,
    {
        names.push(
            Json::text(
                "projects/-/serviceAccounts/".to_owned().concat(delegates[i].as_str()).as_str(),
            ),
        );
        i += 1;
    }
    assert(names.deep_view() =~= named);
    assert(scopes.deep_view() =~= seq![JsonView::Text(scope@)]);
    let mut members: Vec<(String, Json)> = Vec::new();
    members.push(("scope".to_owned(), Json::array(scopes)));
    members.push(("delegates".to_owned(), Json::array(names)));
    assert(members.deep_view() =~= impersonation_document(
        scope@,
        delegates.deep_view(),
    )->Object_0);
    Request::document(url, source_token, Json::object(members))
}

/// Where tokens of the service account `target` are handed out.
pub open spec fn impersonation_address(target: Seq<char>) -> Seq<char> {
    "https://iamcredentials.googleapis.com/v1/projects/-/serviceAccounts/"@ + escaped(target)
        + ":generateAccessToken"@
}

/// The request that exchanges a token for one of another service account.
pub open spec fn impersonation_request(
    source_token: Seq<char>,
    target: Seq<char>,
    scope: Seq<char>,
    delegates: Seq<Seq<char>>,
) -> RequestView {
    posting_document(
        impersonation_address(target),
        source_token,
        impersonation_document(scope, delegates),
    )
}

/// The request that exchanges a token for one of another service account.
///
/// The caller keeps its own identity and borrows the permissions of the target,
/// so that nobody has to hold the target's key.
pub fn impersonate_service_account(
    source_token: &str,
    target: &str,
    scope: &str,
    delegates: &Vec<String>,
) -> (request: Request)
    ensures
        request@ == impersonation_request(source_token@, target@, scope@, delegates.deep_view()),
{
    let mut url = "https://iamcredentials.googleapis.com/v1/projects/-/serviceAccounts/".to_owned();
    url.append(percent_encode(target).as_str());
    url.append(":generateAccessToken");
    generate_access_token(url.as_str(), source_token, scope, delegates)
}

/// The token of the other service account.
pub open spec fn impersonation_reply(exchange: ExchangeView) -> Result<Seq<char>, Seq<char>> {
    granted(
        accepted(
            exchange,
            "impersonation request failed: "@,
            "impersonation response read failed: "@,
            "impersonation failed with HTTP "@,
            ". The caller needs roles/iam.serviceAccountTokenCreator on the target service account."@,
        ),
        "accessToken"@,
        "impersonation response contained no accessToken."@,
    )
}

/// The token of the other service account.
pub fn impersonated_token(exchange: &Exchange) -> (token: Result<String, String>)
    ensures
        outcome(token) == impersonation_reply(exchange@),
{
    let body = body_of(
        exchange,
        "impersonation request failed: ",
        "impersonation response read failed: ",
        "impersonation failed with HTTP ",
        ". The caller needs roles/iam.serviceAccountTokenCreator on the target service account.",
    );
    token_of(body, "accessToken", "impersonation response contained no accessToken.")
}

// ------------------------------------------------------------------------ laws

proof fn no_mark_in_an_encoding(bytes: Seq<u8>)
    ensures
        !encoded(bytes).contains('.'),
{
    encoding_is_unpadded(bytes);
    assert forall|i: int| 0 <= i < encoded(bytes).len() implies encoded(bytes)[i] != '.' by {
        assert(in_alphabet(encoded(bytes)[i]));
    }
}

/// An assertion splits at its dots into exactly three parts, whatever the
/// account is called: the header, the claims and the signature, each of which
/// reads back from its part.
pub proof fn an_assertion_has_three_parts(email: Seq<char>, now: nat, signature: Seq<u8>)
    ensures
        pieces(assertion(email, now, signature), '.') == seq![
            encoded(encode_utf8(assertion_header())),
            encoded(encode_utf8(claims(email, now))),
            encoded(signature),
        ],
        decoded(pieces(assertion(email, now, signature), '.')[0]) == encode_utf8(
            assertion_header(),
        ),
        decoded(pieces(assertion(email, now, signature), '.')[1]) == encode_utf8(
            claims(email, now),
        ),
        decoded(pieces(assertion(email, now, signature), '.')[2]) == signature,
{
    let header = encoded(encode_utf8(assertion_header()));
    let claimed = encoded(encode_utf8(claims(email, now)));
    let proven = encoded(signature);
    reveal_strlit(".");
    assert("."@ =~= seq!['.']);
    no_mark_in_an_encoding(encode_utf8(assertion_header()));
    no_mark_in_an_encoding(encode_utf8(claims(email, now)));
    no_mark_in_an_encoding(signature);
    without_a_mark_there_is_one_piece(header, '.');
    a_mark_begins_a_piece(header, '.', claimed);
    a_mark_begins_a_piece(header + seq!['.'] + claimed, '.', proven);
    assert(pieces(assertion(email, now, signature), '.') =~= seq![header, claimed, proven]);
    encoding_reads_back(encode_utf8(assertion_header()));
    encoding_reads_back(encode_utf8(claims(email, now)));
    encoding_reads_back(signature);
}

/// Whatever a client's name, its secret and its refresh token hold, the form has
/// exactly the four parameters that it was given: none of them can introduce
/// another.
pub proof fn a_refresh_form_has_four_parameters(
    client_id: Seq<char>,
    client_secret: Seq<char>,
    refresh_token: Seq<char>,
)
    ensures
        pieces(refresh_form(client_id, client_secret, refresh_token), '&') == seq![
            "grant_type=refresh_token"@,
            "client_id="@ + escaped(client_id),
            "client_secret="@ + escaped(client_secret),
            "refresh_token="@ + escaped(refresh_token),
        ],
{
    let first = "grant_type=refresh_token"@;
    let second = "client_id="@ + escaped(client_id);
    let third = "client_secret="@ + escaped(client_secret);
    let fourth = "refresh_token="@ + escaped(refresh_token);
    let t2 = "grant_type=refresh_token&client_id="@ + escaped(client_id);
    let t3 = t2 + "&client_secret="@ + escaped(client_secret);
    let t4 = t3 + "&refresh_token="@ + escaped(refresh_token);
    assert(pieces(t2, '&') =~= seq![first, second]) by {
        reveal_strlit("grant_type=refresh_token&client_id=");
        reveal_strlit("grant_type=refresh_token");
        reveal_strlit("client_id=");
        without_a_mark_there_is_one_piece(first, '&');
        a_parameter_begins_a_piece(first, seq!['&'] + "client_id="@, "client_id="@, client_id);
        assert(t2 =~= first + (seq!['&'] + "client_id="@) + escaped(client_id));
    }
    assert(pieces(t3, '&') == pieces(t2, '&').push(third)) by {
        reveal_strlit("&client_secret=");
        reveal_strlit("client_secret=");
        a_parameter_begins_a_piece(t2, "&client_secret="@, "client_secret="@, client_secret);
    }
    assert(pieces(t4, '&') == pieces(t3, '&').push(fourth)) by {
        reveal_strlit("&refresh_token=");
        reveal_strlit("refresh_token=");
        a_parameter_begins_a_piece(t3, "&refresh_token="@, "refresh_token="@, refresh_token);
    }
    assert(refresh_form(client_id, client_secret, refresh_token) == t4);
    assert(pieces(t4, '&') =~= seq![first, second, third, fourth]);
}

/// A refused exchange is reported by its status alone: what the body of the
/// answer quotes reaches no message.
pub proof fn a_refusal_shows_no_body(status: Seq<char>, left: Seq<char>, right: Seq<char>)
    ensures
        refresh_reply(ExchangeView::Answered { success: false, status, body: left })
            == refresh_reply(ExchangeView::Answered { success: false, status, body: right }),
        impersonation_reply(ExchangeView::Answered { success: false, status, body: left })
            == impersonation_reply(
            ExchangeView::Answered { success: false, status, body: right },
        ),
{
}

/// The request by which a service account asks for a token is a form for Google's
/// token endpoint with an assertion. The assertion has three parts: the header,
/// the claims, which name the account, the scope, the endpoint and an hour from
/// `now` on, and the signature by the account's own key of the first two parts.
pub proof fn a_service_account_signs_its_own_claims(
    email: Seq<char>,
    private_key: Seq<char>,
    now: nat,
)
    ensures
        (oauth2_request(email, private_key, now) matches Ok(request) ==> {
            &&& request.url == "https://oauth2.googleapis.com/token"@
            &&& request.bearer is None
            &&& (request.payload matches PayloadView::Form(body) && {
                let grant =
                    "grant_type=urn%3Aietf%3Aparams%3Aoauth%3Agrant-type%3Ajwt-bearer&assertion="@;
                let parts = pieces(body.skip(grant.len() as int), '.');
                &&& body.take(grant.len() as int) == grant
                &&& parts.len() == 3
                &&& decoded(parts[0]) == encode_utf8("{\"alg\":\"RS256\",\"typ\":\"JWT\"}"@)
                &&& decoded(parts[1]) == encode_utf8(
                    "{\"iss\":\""@ + email
                        + "\",\"scope\":\"https://www.googleapis.com/auth/bigquery\",\"aud\":\"https://oauth2.googleapis.com/token\",\"exp\":"@
                        + decimal(now + 3600) + ",\"iat\":"@ + decimal(now) + "}"@,
                )
                &&& signature_by(private_key, encode_utf8(parts[0] + seq!['.'] + parts[1])) == Ok::<
                    Seq<u8>,
                    Seq<char>,
                >(decoded(parts[2]))
            })
        }),
        (oauth2_request(email, private_key, now) matches Err(why) ==> signature_by(
            private_key,
            encode_utf8(signing_input(email, now)),
        ) == Err::<Seq<u8>, Seq<char>>(why)),
{
    if let Ok(request) = oauth2_request(email, private_key, now) {
        let input = signing_input(email, now);
        let signature = signature_by(private_key, encode_utf8(input))->Ok_0;
        let grant =
            "grant_type=urn%3Aietf%3Aparams%3Aoauth%3Agrant-type%3Ajwt-bearer&assertion="@;
        let body = request.payload->Form_0;
        let shown = assertion(email, now, signature);
        assert(body == grant + shown);
        assert(body.take(grant.len() as int) =~= grant);
        assert(body.skip(grant.len() as int) =~= shown);
        an_assertion_has_three_parts(email, now, signature);
        reveal_strlit(".");
        assert("."@ =~= seq!['.']);
        let parts = pieces(shown, '.');
        assert(parts[0] + seq!['.'] + parts[1] =~= input);
    }
}

/// A service account whose key cannot sign asks for nothing.
pub proof fn without_a_signature_nothing_is_asked(
    email: Seq<char>,
    now: nat,
    why: Seq<char>,
    signature: Seq<u8>,
)
    ensures
        assertion_request(email, now, Err(why)) == Err::<RequestView, Seq<char>>(why),
        assertion_request(email, now, Ok(signature)) is Ok,
{
}

/// The token that each exchange gives is the one in the answer to it: under
/// `access_token`, or under `accessToken` for an impersonation. The metadata
/// server is heard whatever its status; the others only where it stands for
/// success.
pub proof fn an_answer_gives_its_token(status: Seq<char>, body: Seq<char>, value: JsonView)
    requires
        parsed(body) == Ok::<JsonView, Seq<char>>(value),
    ensures
        ({
            let success = ExchangeView::Answered { success: true, status, body };
            let refusal = ExchangeView::Answered { success: false, status, body };
            &&& (value.member("access_token"@) matches Some(JsonView::Text(token)) ==> {
                &&& oauth2_reply(success) == Ok::<Seq<char>, Seq<char>>(token)
                &&& refresh_reply(success) == Ok::<Seq<char>, Seq<char>>(token)
                &&& metadata_reply(success) == Ok::<Seq<char>, Seq<char>>(token)
                &&& metadata_reply(refusal) == Ok::<Seq<char>, Seq<char>>(token)
            })
            &&& (value.member("accessToken"@) matches Some(JsonView::Text(token))
                ==> impersonation_reply(success) == Ok::<Seq<char>, Seq<char>>(token))
            &&& value.text_member("access_token"@) is None ==> {
                &&& oauth2_reply(success) == Err::<Seq<char>, Seq<char>>(
                    "GCP token response missing access_token."@,
                )
                &&& refresh_reply(success) == Err::<Seq<char>, Seq<char>>(
                    "Google token response contained no access_token."@,
                )
                &&& metadata_reply(success) == Err::<Seq<char>, Seq<char>>(
                    "the metadata server returned no access_token."@,
                )
            }
            &&& value.text_member("accessToken"@) is None ==> impersonation_reply(success) == Err::<
                Seq<char>,
                Seq<char>,
            >("impersonation response contained no accessToken."@)
            &&& oauth2_reply(refusal) == Err::<Seq<char>, Seq<char>>(
                "GCP token request returned HTTP "@ + status + ": "@ + body,
            )
            &&& refresh_reply(refusal) == Err::<Seq<char>, Seq<char>>(
                "Google returned HTTP "@ + status + " for the token request."@,
            )
            &&& impersonation_reply(refusal) == Err::<Seq<char>, Seq<char>>(
                "impersonation failed with HTTP "@ + status
                    + ". The caller needs roles/iam.serviceAccountTokenCreator on the target service account."@,
            )
        }),
{
}

/// An exchange that gives no document gives no token, and a failure is told by
/// its reason, but for the metadata server, which is simply not there.
pub proof fn a_failed_exchange_gives_no_token(
    status: Seq<char>,
    body: Seq<char>,
    success: bool,
    why: Seq<char>,
)
    ensures
        (parsed(body) matches Err(bad) ==> {
            let answer = ExchangeView::Answered { success: true, status, body };
            &&& oauth2_reply(answer) == Err::<Seq<char>, Seq<char>>(
                "GCP token JSON parse failed: "@ + bad + ": "@ + body,
            )
            &&& refresh_reply(answer) is Err
            &&& impersonation_reply(answer) is Err
            &&& metadata_reply(ExchangeView::Answered { success, status, body }) is Err
        }),
        oauth2_reply(ExchangeView::SendFailed(why)) == Err::<Seq<char>, Seq<char>>(
            "GCP token request failed: "@ + why,
        ),
        oauth2_reply(ExchangeView::ReadFailed(why)) == Err::<Seq<char>, Seq<char>>(
            "GCP token response read failed: "@ + why,
        ),
        refresh_reply(ExchangeView::SendFailed(why)) == Err::<Seq<char>, Seq<char>>(
            "Google token request failed: "@ + why,
        ),
        refresh_reply(ExchangeView::ReadFailed(why)) == Err::<Seq<char>, Seq<char>>(
            "Google token response read failed: "@ + why,
        ),
        impersonation_reply(ExchangeView::SendFailed(why)) == Err::<Seq<char>, Seq<char>>(
            "impersonation request failed: "@ + why,
        ),
        impersonation_reply(ExchangeView::ReadFailed(why)) == Err::<Seq<char>, Seq<char>>(
            "impersonation response read failed: "@ + why,
        ),
        metadata_reply(ExchangeView::SendFailed(why)) == Err::<Seq<char>, Seq<char>>(
            "no Google credentials found: set GOOGLE_APPLICATION_CREDENTIALS, run `gcloud auth application-default login`, or supply a service account key."@,
        ),
        metadata_reply(ExchangeView::ReadFailed(why)) == Err::<Seq<char>, Seq<char>>(
            "metadata token response read failed: "@ + why,
        ),
{
}

/// The metadata server is asked at the host that the environment names, or at its
/// usual name, for the scope, and with the header that it wants to see.
pub proof fn the_metadata_server_is_asked_for_the_scope(
    host: Option<Seq<char>>,
    scope: Seq<char>,
)
    ensures
        ({
            let request = metadata_request(host, scope);
            &&& request.url == "http://"@ + (match host {
                Some(name) => name,
                None => "metadata.google.internal"@,
            }) + "/computeMetadata/v1/instance/service-accounts/default/token?scopes="@ + escaped(
                scope,
            )
            &&& request.headers == seq![("Metadata-Flavor"@, "Google"@)]
            &&& request.bearer is None
            &&& request.payload is Nothing
        }),
{
}

/// An impersonation is asked of the target's own endpoint, authorised by the
/// caller's token, for the scope, and by way of the delegates in their order.
pub proof fn an_impersonation_names_target_scope_and_delegates(
    own: Seq<char>,
    target: Seq<char>,
    scope: Seq<char>,
    delegates: Seq<Seq<char>>,
    i: int,
)
    ensures
        ({
            let request = impersonation_request(own, target, scope, delegates);
            &&& request.url
                == "https://iamcredentials.googleapis.com/v1/projects/-/serviceAccounts/"@
                + escaped(target) + ":generateAccessToken"@
            &&& request.bearer == Some(own)
            &&& (request.payload matches PayloadView::Document(document) && document
                == impersonation_document(scope, delegates))
        }),
        impersonation_document(scope, delegates).array_member("scope"@) == Some(
            seq![JsonView::Text(scope)],
        ),
        (impersonation_document(scope, delegates).array_member("delegates"@) matches Some(names)
            && names.len() == delegates.len() && (0 <= i < delegates.len() ==> names[i]
            == JsonView::Text("projects/-/serviceAccounts/"@ + delegates[i]))),
{
    reveal_strlit("scope");
    reveal_strlit("delegates");
    assert("scope"@.len() == 5 && "delegates"@.len() == 9);
    let members = impersonation_document(scope, delegates)->Object_0;
    a_member_is_found_by_its_name(members, "scope"@, 0);
    a_member_is_found_by_its_name(members, "delegates"@, 1);
}

/// What is asked for, and what is made of the answers, is what these laws speak
/// of.
pub proof fn tokens_are_asked_for_by_these_laws(
    email: &str,
    private_key: &str,
    now: u64,
    result: Result<Request, String>,
    exchange: &Exchange,
    token: Result<String, String>,
)
    ensures
        call_ensures(fetch_oauth2_token, (email, private_key, now), result) ==> outcome(result)
            == oauth2_request(email@, private_key@, now as nat),
        call_ensures(oauth2_token, (exchange,), token) ==> outcome(token) == oauth2_reply(exchange@),
        call_ensures(refreshed_token, (exchange,), token) ==> outcome(token) == refresh_reply(
            exchange@,
        ),
        call_ensures(metadata_token, (exchange,), token) ==> outcome(token) == metadata_reply(
            exchange@,
        ),
        call_ensures(impersonated_token, (exchange,), token) ==> outcome(token)
            == impersonation_reply(exchange@),
{
}

/// A key is told by what it holds, field by field.
pub proof fn a_key_is_told_by_what_it_holds(key: GcpServiceAccountKey)
    ensures
        key@.project_id == key.project_id@,
        key@.client_email == key.client_email@,
        key@.private_key == key.private_key@,
{
}

} // verus!
