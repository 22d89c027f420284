use irodori_bigquery::adc::Environment;
use irodori_bigquery::config::{
    delegates_in, BigQueryConfig, ConfigRun, ConfigStep, ConnectOptions, Setting,
};
use irodori_bigquery::http::Payload;
use irodori_bigquery::json::Json;
use irodori_bigquery::oauth::GcpServiceAccountKey;
use irodori_bigquery::redaction::{push_sensitive, redact, replace};
use irodori_bigquery::token::{SendRun, TokenStep};

fn nothing() -> Environment {
    Environment {
        access_token: None,
        credentials: None,
        cloudsdk_config: None,
        home: None,
        metadata_host: None,
    }
}

fn no_options() -> ConnectOptions {
    ConnectOptions {
        service_account: None,
        inline_key: None,
        project: None,
        token: None,
        target: None,
        delegates: None,
        location: None,
    }
}

/// The options of a request whose profile holds these texts.
fn options(profile: &[(&str, &str)]) -> ConnectOptions {
    let look = |setting: Setting| {
        setting.names().into_iter().find_map(|name| {
            profile
                .iter()
                .find(|(key, _)| *key == name)
                .map(|(_, value)| value.to_string())
        })
    };
    ConnectOptions {
        service_account: look(Setting::ServiceAccount),
        inline_key: look(Setting::InlineKey),
        project: look(Setting::Project),
        token: look(Setting::Token),
        target: look(Setting::Target),
        delegates: look(Setting::Delegates),
        location: look(Setting::Location),
    }
}

fn done(step: ConfigStep) -> BigQueryConfig {
    match step {
        ConfigStep::Finish(Ok(config)) => config,
        other => panic!("{other:?}"),
    }
}

fn key_text(step: ConfigStep) -> (String, ConfigRun) {
    match step {
        ConfigStep::ReadKey { text, run } => (text, run),
        other => panic!("{other:?}"),
    }
}

#[test]
fn parses_token_config() {
    let request = options(&[
        ("projectId", "project-a"),
        ("token", "ya29.token"),
        ("location", "US"),
    ]);
    let config = done(BigQueryConfig::from_request(request, &nothing()));
    assert_eq!(config.project_id, "project-a");
    assert_eq!(config.location.as_deref(), Some("US"));
    assert_eq!(config.access_token, "ya29.token");
    assert_eq!(config.redaction_values, vec!["ya29.token".to_string()]);
}

#[test]
fn settings_go_by_their_names() {
    assert_eq!(
        Setting::ServiceAccount.names(),
        vec!["serviceAccountJson", "credentialsJson", "serviceAccountKey"]
    );
    assert_eq!(Setting::InlineKey.names(), vec!["password", "privateKey"]);
    assert_eq!(Setting::Project.names(), vec!["projectId", "project", "database", "db", "host"]);
    assert_eq!(
        Setting::Token.names(),
        vec!["token", "accessToken", "oauthAccessToken", "bearerToken", "password"]
    );
    assert_eq!(
        Setting::Target.names(),
        vec!["impersonateServiceAccount", "serviceAccountImpersonation"]
    );
    assert_eq!(Setting::Delegates.names(), vec!["impersonationDelegates"]);
    assert_eq!(Setting::Location.names(), vec!["location", "region"]);
}

#[test]
fn a_project_is_required_where_there_is_no_key() {
    assert_eq!(
        BigQueryConfig::from_request(options(&[("token", "t")]), &nothing()),
        ConfigStep::Finish(Err("BigQuery requires projectId, database, or host.".to_string()))
    );
}

#[test]
fn a_token_in_the_request_comes_before_one_in_the_environment() {
    let mut environment = nothing();
    environment.access_token = Some("env".into());
    let step = BigQueryConfig::from_request(
        options(&[("host", "p"), ("password", "secret")]),
        &environment,
    );
    assert_eq!(done(step).access_token, "secret");
    let step = BigQueryConfig::from_request(options(&[("db", "p")]), &environment);
    assert_eq!(done(step).access_token, "env");
}

#[test]
fn without_a_token_the_default_credentials_are_used() {
    match BigQueryConfig::from_request(options(&[("project", "p")]), &nothing()) {
        ConfigStep::Acquire { step, project_id, run } => {
            assert_eq!(project_id, "p");
            match step {
                TokenStep::Send { request, run } => {
                    assert!(request.url.starts_with("http://metadata.google.internal/"));
                    assert_eq!(run, SendRun::Metadata { tried: vec![] });
                }
                other => panic!("{other:?}"),
            }
            assert_eq!(
                run.obtained(project_id, Err("no token".to_string())),
                ConfigStep::Finish(Err("no token".to_string()))
            );
        }
        other => panic!("{other:?}"),
    }
}

#[test]
fn a_key_in_the_request_comes_first() {
    let request = options(&[
        ("credentialsJson", "{}"),
        ("projectId", "p"),
        ("token", "t"),
        ("region", "EU"),
    ]);
    let (text, run) = key_text(BigQueryConfig::from_request(request, &nothing()));
    assert_eq!(text, "{}");
    assert_eq!(run.location.as_deref(), Some("EU"));
    assert_eq!(
        run.key_read(Err("missing field `project_id` at line 1 column 2".to_string()), 0),
        ConfigStep::Finish(Err(
            "invalid Google service account JSON: missing field `project_id` at line 1 column 2"
                .to_string()
        ))
    );
}

#[test]
fn a_secret_that_looks_like_a_document_is_a_key() {
    let (text, run) = key_text(BigQueryConfig::from_request(
        options(&[("password", " \n{ \"a\": 1 }")]),
        &nothing(),
    ));
    assert_eq!(text, " \n{ \"a\": 1 }");
    let key = GcpServiceAccountKey {
        project_id: "of-the-key".into(),
        client_email: "a@b".into(),
        private_key: "nonsense".into(),
    };
    match run.key_read(Ok(key), 0) {
        ConfigStep::Acquire { step, project_id, .. } => {
            assert_eq!(project_id, "of-the-key");
            assert_eq!(
                step,
                TokenStep::Finish(Err(
                    "invalid Google service account private key PEM.".to_string()
                ))
            );
        }
        other => panic!("{other:?}"),
    }
}

#[test]
fn impersonation_puts_another_token_in_place() {
    let request = options(&[
        ("projectId", "p"),
        ("token", "own"),
        ("impersonateServiceAccount", "svc@x"),
        ("impersonationDelegates", " a@x , ,b@x,"),
    ]);
    match BigQueryConfig::from_request(request, &nothing()) {
        ConfigStep::Acquire { step: TokenStep::Send { request, run: sending }, project_id, run } => {
            assert_eq!(request.bearer.as_deref(), Some("own"));
            assert!(request.url.ends_with("/serviceAccounts/svc%40x:generateAccessToken"));
            assert_eq!(
                request.payload,
                Payload::Document(Json::Object(vec![
                    (
                        "scope".into(),
                        Json::Array(vec![Json::text("https://www.googleapis.com/auth/bigquery")])
                    ),
                    (
                        "delegates".into(),
                        Json::Array(vec![
                            Json::text("projects/-/serviceAccounts/a@x"),
                            Json::text("projects/-/serviceAccounts/b@x"),
                        ])
                    ),
                ]))
            );
            assert_eq!(sending, SendRun::Impersonation);
            let config = done(run.obtained(project_id, Ok("lent".to_string())));
            assert_eq!(config.access_token, "lent");
            assert_eq!(config.redaction_values, vec!["lent".to_string()]);
        }
        other => panic!("{other:?}"),
    }
}

#[test]
fn delegates_are_listed_with_commas() {
    assert!(delegates_in(&None).is_empty());
    assert!(delegates_in(&Some(" , ,".into())).is_empty());
    assert_eq!(
        delegates_in(&Some("a,b , c".into())),
        vec!["a".to_string(), "b".to_string(), "c".to_string()]
    );
}

#[test]
fn an_empty_token_is_nothing_to_hide() {
    let mut request = no_options();
    request.project = Some("p".into());
    request.token = Some(String::new());
    let config = done(BigQueryConfig::from_request(request, &nothing()));
    assert!(config.redaction_values.is_empty());
    assert_eq!(config.redact("as it is"), "as it is");
}

#[test]
fn no_message_shows_the_token_of_a_configuration() {
    let config = done(BigQueryConfig::from_request(
        options(&[("projectId", "p"), ("token", "abab")]),
        &nothing(),
    ));
    assert_eq!(config.redact("token abab, ababab and ab"), "token ***, ***ab and ab");
    assert_eq!(config.redact("nothing to hide"), "nothing to hide");
    assert_eq!(config.clone(), config);
}

#[test]
fn secrets_are_replaced_from_left_to_right() {
    assert_eq!(replace("aaa", "aa", "b"), "aaa".replace("aa", "b"));
    assert_eq!(replace("xayaz", "a", ""), "xyz");
    assert_eq!(replace("same", "", "x"), "same");
    let mut secrets: Vec<String> = Vec::new();
    push_sensitive(&mut secrets, Some("one"));
    push_sensitive(&mut secrets, None);
    push_sensitive(&mut secrets, Some(""));
    push_sensitive(&mut secrets, Some("two"));
    assert_eq!(secrets, vec!["one".to_string(), "two".to_string()]);
    assert_eq!(redact("one two three", &secrets), "*** *** three");
}
