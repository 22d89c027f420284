use irodori_bigquery::adc::{adc_kind, adc_paths, adc_paths_from, AdcKind, Environment};
use irodori_bigquery::external::{ExternalAccount, SubjectTokenSource};
use irodori_bigquery::http::{Exchange, Payload};
use irodori_bigquery::json::Json;

fn document(text: &str) -> Json {
    Json::parse(text).expect("document")
}

fn plain_account(field: Option<&str>) -> ExternalAccount {
    ExternalAccount {
        audience: "a".into(),
        subject_token_type: "t".into(),
        token_url: "u".into(),
        source: SubjectTokenSource::File {
            path: "/tmp/token".into(),
            field: field.map(str::to_string),
        },
        impersonation_url: None,
    }
}

#[test]
fn recognises_each_application_default_credential_shape() {
    // ADC is three different files needing three different exchanges, and
    // the `type` field is the only thing that says which.
    assert_eq!(
        adc_kind(&document(r#"{ "type": "service_account", "client_email": "a@b" }"#)),
        AdcKind::ServiceAccount
    );
    assert_eq!(
        adc_kind(&document(r#"{ "type": "authorized_user", "refresh_token": "r" }"#)),
        AdcKind::AuthorizedUser
    );
    assert_eq!(
        adc_kind(&document(r#"{ "type": "external_account" }"#)),
        AdcKind::ExternalAccount
    );
    assert_eq!(
        adc_kind(&document(r#"{ "type": "something_new" }"#)),
        AdcKind::Unknown("something_new".to_string())
    );
    assert_eq!(adc_kind(&document("{}")), AdcKind::Unknown(String::new()));
}

#[test]
fn a_kind_that_is_no_text_is_unknown() {
    assert_eq!(adc_kind(&document(r#"{ "type": 7 }"#)), AdcKind::Unknown(String::new()));
    assert_eq!(adc_kind(&document(r#"["type"]"#)), AdcKind::Unknown(String::new()));
}

#[test]
fn looks_for_credentials_where_gcloud_puts_them() {
    // A machine already set up for `gcloud` needs no configuration here.
    assert_eq!(
        adc_paths_from(
            Some("/keys/explicit.json"),
            Some("/cfg/gcloud"),
            Some("/home/u")
        ),
        vec![
            "/keys/explicit.json".to_string(),
            "/cfg/gcloud/application_default_credentials.json".to_string(),
        ]
    );
    // Without CLOUDSDK_CONFIG the well-known path under HOME is used.
    assert_eq!(
        adc_paths_from(None, None, Some("/home/u")),
        vec!["/home/u/.config/gcloud/application_default_credentials.json".to_string()]
    );
    // Nothing to go on: the caller falls through to the metadata server.
    assert!(adc_paths_from(None, None, None).is_empty());
}

#[test]
fn an_empty_credentials_variable_is_not_a_path() {
    // An exported-but-empty variable is common in shell profiles and would
    // otherwise send the search to "".
    assert_eq!(
        adc_paths_from(Some("   "), Some("/cfg"), None),
        vec!["/cfg/application_default_credentials.json".to_string()]
    );
}

#[test]
fn the_search_goes_by_the_environment() {
    let environment = Environment {
        access_token: None,
        credentials: Some(" /keys/a.json\n".into()),
        cloudsdk_config: None,
        home: Some("/home/u".into()),
        metadata_host: None,
    };
    assert_eq!(
        adc_paths(&environment),
        vec![
            "/keys/a.json".to_string(),
            "/home/u/.config/gcloud/application_default_credentials.json".to_string(),
        ]
    );
}

#[test]
fn a_kubernetes_style_credential_reads_its_token_from_a_file() {
    let account = ExternalAccount::from_document(
        &document(
            r#"{
                "type": "external_account",
                "audience": "//iam.googleapis.com/projects/1/locations/global/workloadIdentityPools/p/providers/v",
                "subject_token_type": "urn:ietf:params:oauth:token-type:jwt",
                "token_url": "https://sts.googleapis.com/v1/token",
                "credential_source": { "file": "/var/run/secrets/token" }
            }"#,
        ),
        "/creds.json",
    )
    .expect("credential");
    assert_eq!(
        account.source,
        SubjectTokenSource::File {
            path: "/var/run/secrets/token".into(),
            field: None
        }
    );
    assert_eq!(account.impersonation_url, None);
}

#[test]
fn a_json_formatted_source_names_the_field_holding_the_token() {
    let account = ExternalAccount::from_document(
        &document(
            r#"{
                "audience": "a", "subject_token_type": "t",
                "token_url": "https://sts.googleapis.com/v1/token",
                "credential_source": {
                    "url": "https://ci.example/token",
                    "headers": { "Authorization": "Bearer ci" },
                    "format": { "type": "json", "subject_token_field_name": "value" }
                }
            }"#,
        ),
        "/creds.json",
    )
    .expect("credential");
    assert_eq!(
        account.source,
        SubjectTokenSource::Url {
            url: "https://ci.example/token".into(),
            headers: vec![("Authorization".into(), "Bearer ci".into())],
            field: Some("value".into()),
        }
    );
}

#[test]
fn a_file_comes_before_a_url_and_only_text_headers_count() {
    let both = document(
        r#"{ "audience": "a", "subject_token_type": "t", "token_url": "u",
             "credential_source": { "file": "/f", "url": "https://x" } }"#,
    );
    let account = ExternalAccount::from_document(&both, "/c").expect("credential");
    assert_eq!(account.source, SubjectTokenSource::File { path: "/f".into(), field: None });

    let url = document(
        r#"{ "audience": "a", "subject_token_type": "t", "token_url": "u",
             "credential_source": { "url": "https://x",
                 "headers": { "A": "1", "B": 2, "C": "3" },
                 "format": { "type": "text", "subject_token_field_name": "value" } } }"#,
    );
    let account = ExternalAccount::from_document(&url, "/c").expect("credential");
    assert_eq!(
        account.source,
        SubjectTokenSource::Url {
            url: "https://x".into(),
            headers: vec![("A".into(), "1".into()), ("C".into(), "3".into())],
            field: None,
        }
    );
    assert_eq!(account.source.origin(), "https://x");
    assert_eq!(account.source.field(), None);
}

#[test]
fn an_executable_source_is_refused_by_name() {
    // Google gates this behind an environment variable because it runs a
    // command from a credential file. Refusing it explicitly is the point:
    // a silent fallback to another credential would be worse.
    let err = ExternalAccount::from_document(
        &document(
            r#"{
                "audience": "a", "subject_token_type": "t", "token_url": "u",
                "credential_source": { "executable": { "command": "/usr/bin/get-token" } }
            }"#,
        ),
        "/creds.json",
    )
    .unwrap_err();
    assert!(err.contains("executable"), "{err}");
    assert!(err.contains("file or url"), "{err}");
    assert_eq!(
        err,
        "the credential file at /creds.json uses an executable-sourced subject token, which runs \
         a command to obtain the credential. This connector does not run it. Point \
         credential_source at a file or url instead."
    );
}

#[test]
fn an_aws_federated_source_is_refused_by_name() {
    let err = ExternalAccount::from_document(
        &document(
            r#"{
                "audience": "a", "subject_token_type": "t", "token_url": "u",
                "credential_source": { "environment_id": "aws1", "region_url": "http://169.254.169.254/x" }
            }"#,
        ),
        "/creds.json",
    )
    .unwrap_err();
    assert!(err.contains("AWS"), "{err}");
    assert_eq!(
        err,
        "the credential file at /creds.json federates an AWS identity, which this connector \
         cannot sign for. Use a file- or url-sourced subject token."
    );
}

#[test]
fn an_unsupported_source_is_refused_though_a_url_or_a_file_stands_beside_it() {
    let refusal = |source: &str| {
        ExternalAccount::from_document(
            &document(&format!(
                r#"{{ "audience": "a", "subject_token_type": "t", "token_url": "u",
                      "credential_source": {source} }}"#
            )),
            "/creds.json",
        )
        .unwrap_err()
    };
    let aws = refusal(
        r#"{ "environment_id": "aws1", "region_url": "http://169.254.169.254/x",
             "url": "http://169.254.169.254/y" }"#,
    );
    assert!(aws.contains("AWS"), "{aws}");
    assert_eq!(refusal(r#"{ "environment_id": "aws1", "file": "/t" }"#), aws);
    let executable = refusal(r#"{ "executable": { "command": "/c" }, "file": "/t" }"#);
    assert!(executable.contains("executable"), "{executable}");
    assert_eq!(refusal(r#"{ "executable": null, "url": "https://x" }"#), executable);
    assert_eq!(refusal(r#"{ "executable": {}, "environment_id": "aws1" }"#), executable);
}

#[test]
fn a_missing_field_is_named_rather_than_defaulted() {
    let err = ExternalAccount::from_document(
        &document(r#"{ "audience": "a", "credential_source": { "file": "/t" } }"#),
        "/creds.json",
    )
    .unwrap_err();
    assert!(err.contains("subject_token_type"), "{err}");
    assert!(err.contains("/creds.json"), "{err}");
    assert_eq!(err, "the credential file at /creds.json is missing subject_token_type.");
}

#[test]
fn each_missing_field_has_its_turn() {
    let missing = |text: &str| ExternalAccount::from_document(&document(text), "/c").unwrap_err();
    assert_eq!(missing("{}"), "the credential file at /c is missing credential_source.");
    assert_eq!(
        missing(r#"{ "credential_source": { "file": "/t" } }"#),
        "the credential file at /c is missing audience."
    );
    assert_eq!(
        missing(
            r#"{ "audience": "a", "subject_token_type": "t", "token_url": 1,
                 "credential_source": { "file": "/t" } }"#
        ),
        "the credential file at /c is missing token_url."
    );
}

#[test]
fn a_credential_source_with_neither_file_nor_url_is_refused() {
    let err = ExternalAccount::from_document(
        &document(
            r#"{
                "audience": "a", "subject_token_type": "t", "token_url": "u",
                "credential_source": { "something_else": true }
            }"#,
        ),
        "/creds.json",
    )
    .unwrap_err();
    assert!(err.contains("file or a url"), "{err}");
}

#[test]
fn impersonation_is_carried_through_when_the_document_asks_for_it() {
    let account = ExternalAccount::from_document(
        &document(
            r#"{
                "audience": "a", "subject_token_type": "t",
                "token_url": "https://sts.googleapis.com/v1/token",
                "service_account_impersonation_url":
                    "https://iamcredentials.googleapis.com/v1/projects/-/serviceAccounts/x@y.iam.gserviceaccount.com:generateAccessToken",
                "credential_source": { "file": "/var/run/secrets/token" }
            }"#,
        ),
        "/creds.json",
    )
    .expect("credential");
    assert!(account
        .impersonation_url
        .as_deref()
        .is_some_and(|url| url.ends_with(":generateAccessToken")));
}

#[test]
fn a_plain_token_file_is_read_whole_and_trimmed() {
    let token = plain_account(None)
        .read_subject_token("  header.payload.signature\n")
        .expect("token");
    assert_eq!(token, "header.payload.signature");
}

#[test]
fn an_empty_token_file_is_an_error_rather_than_an_empty_credential() {
    let err = plain_account(None).read_subject_token("   \n").unwrap_err();
    assert!(err.contains("empty"), "{err}");
    assert_eq!(err, "the subject token from /tmp/token is empty.");
}

#[test]
fn a_token_in_a_document_stands_under_its_field() {
    let account = plain_account(Some("value"));
    assert_eq!(
        account.read_subject_token(r#"{ "value": " kept as it is " }"#),
        Ok(" kept as it is ".to_string())
    );
    for raw in [r#"{ "other": "x" }"#, r#"{ "value": 1 }"#, "no document"] {
        assert_eq!(
            account.read_subject_token(raw),
            Err("the subject token from /tmp/token has no \"value\" field.".to_string())
        );
    }
    assert_eq!(
        account.read_subject_token(r#"{ "value": "" }"#),
        Err("the subject token from /tmp/token is empty.".to_string())
    );
}

#[test]
fn a_field_is_quoted_with_its_escapes() {
    assert_eq!(
        plain_account(Some("a\"b\n")).read_subject_token("{}"),
        Err(r#"the subject token from /tmp/token has no "a\"b\n" field."#.to_string())
    );
}

#[test]
fn a_subject_token_is_exchanged_for_the_scope_that_fits() {
    let mut account = plain_account(None);
    account.audience = "//iam/p&x".into();
    account.token_url = "https://sts.googleapis.com/v1/token".into();
    let request = account.fetch_token("https://scope", "a=b");
    assert_eq!(request.url, "https://sts.googleapis.com/v1/token");
    assert_eq!(request.bearer, None);
    assert_eq!(
        request.headers,
        vec![("Content-Type".to_string(), "application/x-www-form-urlencoded".to_string())]
    );
    assert_eq!(
        request.payload,
        Payload::Form(
            "grant_type=urn%3Aietf%3Aparams%3Aoauth%3Agrant-type%3Atoken-exchange\
             &audience=%2F%2Fiam%2Fp%26x&scope=https%3A%2F%2Fscope\
             &requested_token_type=urn%3Aietf%3Aparams%3Aoauth%3Atoken-type%3Aaccess_token\
             &subject_token=a%3Db&subject_token_type=t"
                .to_string()
        )
    );
    account.impersonation_url = Some("https://imp".into());
    match account.fetch_token("https://scope", "s").payload {
        Payload::Form(body) => {
            assert!(body.contains(
                "&scope=https%3A%2F%2Fwww.googleapis.com%2Fauth%2Fcloud-platform&"
            ));
            assert_eq!(body.split('&').count(), 6);
        }
        other => panic!("{other:?}"),
    }
}

#[test]
fn a_refused_exchange_does_not_quote_the_body() {
    let refused = |body: &str| {
        irodori_bigquery::external::federated_token(&Exchange::Answered {
            success: false,
            status: "400 Bad Request".into(),
            body: body.into(),
        })
    };
    assert_eq!(
        refused("subject token: abc"),
        Err("Google STS returned HTTP 400 Bad Request for the token exchange.".to_string())
    );
    assert_eq!(refused("subject token: abc"), refused(""));
}
