use irodori_bigquery::adc::Environment;
use irodori_bigquery::http::{Exchange, Payload, Request};
use irodori_bigquery::json::Json;
use irodori_bigquery::oauth::{
    assertion_grant, fetch_metadata_token, fetch_refresh_token_grant, generate_access_token,
    impersonate_service_account, impersonated_token, metadata_token, oauth2_token_in,
    refreshed_token, GcpServiceAccountKey,
};
use irodori_bigquery::token::{fetch_adc_token, use_credential, SendRun, TokenStep};

const SCOPE: &str = "https://www.googleapis.com/auth/bigquery";

fn environment() -> Environment {
    Environment {
        access_token: None,
        credentials: Some("/a.json".into()),
        cloudsdk_config: Some("/cfg".into()),
        home: None,
        metadata_host: None,
    }
}

fn answered(body: &str) -> Exchange {
    Exchange::Answered { success: true, status: "200 OK".into(), body: body.into() }
}

fn refused(body: &str) -> Exchange {
    Exchange::Answered { success: false, status: "403 Forbidden".into(), body: body.into() }
}

/// Feeds a file to a step that asks for the file at `path`.
fn read(step: TokenStep, path: &str, text: Result<&str, &str>) -> TokenStep {
    match step {
        TokenStep::ReadFile { path: asked, file } => {
            assert_eq!(asked, path);
            file.resume(text.map(str::to_string).map_err(str::to_string))
        }
        other => panic!("{other:?}"),
    }
}

/// The request of a step, and what is fed the answer.
fn sent(step: TokenStep) -> (Request, SendRun) {
    match step {
        TokenStep::Send { request, run } => (request, run),
        other => panic!("{other:?}"),
    }
}

fn form(request: &Request) -> &str {
    match &request.payload {
        Payload::Form(body) => body,
        other => panic!("{other:?}"),
    }
}

fn failed(message: &str) -> TokenStep {
    TokenStep::Finish(Err(message.to_string()))
}

fn found(token: &str) -> TokenStep {
    TokenStep::Finish(Ok(token.to_string()))
}

#[test]
fn a_search_without_files_ends_at_the_metadata_server() {
    let step = fetch_adc_token(&environment(), SCOPE);
    let step = read(step, "/a.json", Err("no such file"));
    let step = read(step, "/cfg/application_default_credentials.json", Err("no such file"));
    let (request, run) = sent(step);
    assert_eq!(
        request.url,
        "http://metadata.google.internal/computeMetadata/v1/instance/service-accounts/default/\
         token?scopes=https%3A%2F%2Fwww.googleapis.com%2Fauth%2Fbigquery"
    );
    assert_eq!(request.headers, vec![("Metadata-Flavor".to_string(), "Google".to_string())]);
    assert_eq!(request.payload, Payload::Nothing);
    assert_eq!(
        run.resume(&Exchange::SendFailed("timeout".into())),
        failed(
            "no Google credentials found: set GOOGLE_APPLICATION_CREDENTIALS, run `gcloud auth \
             application-default login`, or supply a service account key. (no credential file \
             at: /a.json, /cfg/application_default_credentials.json)"
        )
    );
}

#[test]
fn with_nothing_configured_the_metadata_server_is_asked_at_once() {
    let nothing = Environment {
        access_token: None,
        credentials: None,
        cloudsdk_config: None,
        home: None,
        metadata_host: Some("10.0.0.1".into()),
    };
    let (request, run) = sent(fetch_adc_token(&nothing, "s"));
    assert!(request.url.starts_with("http://10.0.0.1/computeMetadata/"), "{}", request.url);
    assert_eq!(
        run.resume(&answered("{}")),
        failed("the metadata server returned no access_token.")
    );
}

#[test]
fn the_metadata_server_is_heard_whatever_its_status() {
    assert_eq!(metadata_token(&answered(r#"{"access_token":"m"}"#)), Ok("m".to_string()));
    assert_eq!(metadata_token(&refused(r#"{"access_token":"m"}"#)), Ok("m".to_string()));
    assert_eq!(
        metadata_token(&Exchange::ReadFailed("cut".into())),
        Err("metadata token response read failed: cut".to_string())
    );
    assert_eq!(
        fetch_metadata_token(Some("h"), "a b").url,
        "http://h/computeMetadata/v1/instance/service-accounts/default/token?scopes=a%20b"
    );
}

#[test]
fn the_first_file_that_is_there_is_the_one_used() {
    let user = r#"{ "type": "authorized_user", "client_id": "id&x", "client_secret": "s",
                    "refresh_token": "1//r" }"#;
    let step = fetch_adc_token(&environment(), SCOPE);
    let step = read(step, "/a.json", Err("no such file"));
    let step = read(step, "/cfg/application_default_credentials.json", Ok(user));
    let (request, run) = sent(step);
    assert_eq!(request.url, "https://oauth2.googleapis.com/token");
    assert_eq!(
        form(&request),
        "grant_type=refresh_token&client_id=id%26x&client_secret=s&refresh_token=1%2F%2Fr"
    );
    assert_eq!(run, SendRun::Refresh);
    assert_eq!(run.resume(&answered(r#"{"access_token":"ya29"}"#)), found("ya29"));
}

#[test]
fn a_file_that_is_wrong_is_not_passed_over() {
    let step = fetch_adc_token(&environment(), SCOPE);
    match read(step, "/a.json", Ok("{")) {
        TokenStep::Finish(Err(why)) => {
            assert!(
                why.starts_with("credential file at /a.json is not valid JSON: EOF"),
                "{why}"
            );
        }
        other => panic!("{other:?}"),
    }
    let step = fetch_adc_token(&environment(), SCOPE);
    assert_eq!(
        read(step, "/a.json", Ok(r#"{ "type": "new\nkind" }"#)),
        failed(
            r#"the credential file at /a.json has an unrecognised credential type "new\nkind"."#
        )
    );
}

#[test]
fn a_document_that_was_not_read_is_reported() {
    assert_eq!(
        use_credential("/p", Err("expected value at line 1 column 1".to_string()), SCOPE),
        failed("credential file at /p is not valid JSON: expected value at line 1 column 1")
    );
}

#[test]
fn each_missing_field_of_a_user_file_has_its_turn() {
    let used = |text: &str| use_credential("/p", Json::parse(text), SCOPE);
    assert_eq!(
        used(r#"{ "type": "authorized_user" }"#),
        failed("credential file at /p is missing client_id.")
    );
    assert_eq!(
        used(r#"{ "type": "authorized_user", "client_id": "i" }"#),
        failed("credential file at /p is missing client_secret.")
    );
    assert_eq!(
        used(r#"{ "type": "authorized_user", "client_id": "i", "client_secret": "s" }"#),
        failed("credential file at /p is missing refresh_token.")
    );
}

#[test]
fn a_service_account_file_is_read_as_a_key() {
    let text = r#"{ "type": "service_account", "client_email": "a@b" }"#;
    let read_key = || match use_credential("/p", Json::parse(text), SCOPE) {
        TokenStep::ReadKey { document, key } => (document, key),
        other => panic!("{other:?}"),
    };
    let (document, key) = read_key();
    assert_eq!(document, Json::parse(text).expect("document"));
    assert_eq!(
        key.resume(Err("missing field `project_id`".to_string()), 0),
        failed("service account file at /p is missing fields: missing field `project_id`")
    );
    let (_, key) = read_key();
    let bad = GcpServiceAccountKey {
        project_id: "p".into(),
        client_email: "a@b".into(),
        private_key: "nonsense".into(),
    };
    assert_eq!(
        key.resume(Ok(bad), 0),
        failed("invalid Google service account private key PEM.")
    );
}

#[test]
fn a_federated_account_goes_from_file_to_token() {
    let text = r#"{ "type": "external_account", "audience": "a", "subject_token_type": "t",
                    "token_url": "https://sts", "credential_source": { "file": "/token" } }"#;
    let step = use_credential("/p", Json::parse(text), SCOPE);
    let (request, run) = sent(read(step, "/token", Ok(" subject \n")));
    assert_eq!(request.url, "https://sts");
    assert!(form(&request).contains("&subject_token=subject&"), "{}", form(&request));
    assert_eq!(run.resume(&answered(r#"{"access_token":"fed"}"#)), found("fed"));

    let step = use_credential("/p", Json::parse(text), SCOPE);
    assert_eq!(
        read(step, "/token", Err("denied")),
        failed("the subject token file at /token could not be read: denied")
    );
}

#[test]
fn a_federated_account_goes_from_url_to_an_impersonated_token() {
    let text = r#"{ "type": "external_account", "audience": "a", "subject_token_type": "t",
                    "token_url": "https://sts",
                    "service_account_impersonation_url": "https://imp",
                    "credential_source": { "url": "https://ci", "headers": { "H": "v" },
                        "format": { "type": "json", "subject_token_field_name": "f" } } }"#;
    let (request, run) = sent(use_credential("/p", Json::parse(text), "https://scope"));
    assert_eq!(request.url, "https://ci");
    assert_eq!(request.headers, vec![("H".to_string(), "v".to_string())]);
    let (request, run) = sent(run.resume(&answered(r#"{"f":"subject"}"#)));
    assert!(form(&request).contains("cloud-platform"), "{}", form(&request));
    let (request, run) = sent(run.resume(&answered(r#"{"access_token":"fed"}"#)));
    assert_eq!(request.url, "https://imp");
    assert_eq!(request.bearer, Some("fed".to_string()));
    assert_eq!(
        request.payload,
        Payload::Document(Json::Object(vec![
            ("scope".into(), Json::Array(vec![Json::text("https://scope")])),
            ("delegates".into(), Json::Array(vec![])),
        ]))
    );
    assert_eq!(run.resume(&answered(r#"{"accessToken":"final"}"#)), found("final"));
}

#[test]
fn an_endpoint_that_fails_is_reported() {
    let text = r#"{ "type": "external_account", "audience": "a", "subject_token_type": "t",
                    "token_url": "https://sts", "credential_source": { "url": "https://ci" } }"#;
    let run = || sent(use_credential("/p", Json::parse(text), SCOPE)).1;
    assert_eq!(
        run().resume(&Exchange::SendFailed("dns".into())),
        failed("the subject token request to https://ci failed: dns")
    );
    assert_eq!(
        run().resume(&Exchange::ReadFailed("cut".into())),
        failed("the subject token response from https://ci could not be read: cut")
    );
    assert_eq!(
        run().resume(&refused("secret")),
        failed("the subject token endpoint returned HTTP 403 Forbidden.")
    );
    assert_eq!(run().resume(&answered("")), failed("the subject token from https://ci is empty."));
}

#[test]
fn a_failed_exchange_ends_the_search() {
    let run = || SendRun::Exchange { impersonation_url: None, scope: "s".into() };
    assert_eq!(
        run().resume(&Exchange::SendFailed("dns".into())),
        failed("Google STS token exchange failed: dns")
    );
    assert_eq!(
        run().resume(&Exchange::ReadFailed("cut".into())),
        failed("Google STS token response read failed: cut")
    );
    assert_eq!(
        run().resume(&answered("[]")),
        failed("the Google STS response contained no access_token.")
    );
}

#[test]
fn a_refresh_token_that_is_refused_shows_no_body() {
    assert_eq!(
        refreshed_token(&refused("secret")),
        Err("Google returned HTTP 403 Forbidden for the token request.".to_string())
    );
    assert_eq!(refreshed_token(&refused("a")), refreshed_token(&refused("b")));
    assert_eq!(
        refreshed_token(&Exchange::SendFailed("dns".into())),
        Err("Google token request failed: dns".to_string())
    );
    assert_eq!(
        refreshed_token(&Exchange::ReadFailed("cut".into())),
        Err("Google token response read failed: cut".to_string())
    );
    assert_eq!(
        refreshed_token(&answered("no document")),
        Err("Google token response contained no access_token.".to_string())
    );
}

#[test]
fn a_refresh_form_has_its_four_parameters_whatever_they_hold() {
    let request = fetch_refresh_token_grant("a&client_secret=x", "b&&", "=&c");
    let parts: Vec<&str> = form(&request).split('&').collect();
    assert_eq!(
        parts,
        vec![
            "grant_type=refresh_token",
            "client_id=a%26client_secret%3Dx",
            "client_secret=b%26%26",
            "refresh_token=%3D%26c",
        ]
    );
}

#[test]
fn another_service_account_is_named_in_the_url() {
    let delegates = vec!["d1@x".to_string(), "d2@x".to_string()];
    let request = impersonate_service_account("own", "t/a@x", "https://scope", &delegates);
    assert_eq!(
        request.url,
        "https://iamcredentials.googleapis.com/v1/projects/-/serviceAccounts/t%2Fa%40x:\
         generateAccessToken"
    );
    assert_eq!(request.bearer, Some("own".to_string()));
    assert_eq!(
        request.payload,
        Payload::Document(Json::Object(vec![
            ("scope".into(), Json::Array(vec![Json::text("https://scope")])),
            (
                "delegates".into(),
                Json::Array(vec![
                    Json::text("projects/-/serviceAccounts/d1@x"),
                    Json::text("projects/-/serviceAccounts/d2@x"),
                ])
            ),
        ]))
    );
    assert_eq!(generate_access_token("https://u", "t", "s", &Vec::new()).url, "https://u");
}

#[test]
fn an_impersonation_that_is_refused_says_what_is_needed() {
    assert_eq!(
        impersonated_token(&refused("secret")),
        Err(
            "impersonation failed with HTTP 403 Forbidden. The caller needs \
             roles/iam.serviceAccountTokenCreator on the target service account."
                .to_string()
        )
    );
    assert_eq!(
        impersonated_token(&Exchange::SendFailed("dns".into())),
        Err("impersonation request failed: dns".to_string())
    );
    assert_eq!(
        impersonated_token(&Exchange::ReadFailed("cut".into())),
        Err("impersonation response read failed: cut".to_string())
    );
    assert_eq!(
        impersonated_token(&answered(r#"{"access_token":"x"}"#)),
        Err("impersonation response contained no accessToken.".to_string())
    );
}

#[test]
fn a_signature_is_all_that_an_assertion_waits_for() {
    let request = assertion_grant("a@b", 5, Ok(vec![1, 2, 3])).expect("request");
    assert!(form(&request).ends_with(".AQID"), "{}", form(&request));
    assert_eq!(form(&request).split('.').count(), 3);
    assert_eq!(
        assertion_grant("a@b", 5, Err("no key".to_string())),
        Err("no key".to_string())
    );
    assert_eq!(
        oauth2_token_in("body", Err("bad".to_string())),
        Err("GCP token JSON parse failed: bad: body".to_string())
    );
}
