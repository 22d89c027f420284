use irodori_bigquery::config::BigQueryConfig;
use irodori_bigquery::connections::{BigQueryConnection, Connections};
use irodori_bigquery::driver::{
    call_json, configuration_of, connect_failed, document_or_null, invalid_request,
    metadata_reply, prepared_in_vain, probed_in_vain, query_reply, state_poisoned, statement_of,
    Call, Driver, Reply,
};
use irodori_bigquery::json::Json;

fn driver() -> Driver {
    Driver {
        engine: "bigquery".into(),
        abi_version: 1,
        driver_linked: true,
        manifest: r#"{"name":"bigquery"}"#.into(),
        config: "not a document".into(),
    }
}

fn config(token: &str, location: Option<&str>) -> BigQueryConfig {
    BigQueryConfig {
        project_id: "p".into(),
        access_token: token.into(),
        location: location.map(str::to_string),
        redaction_values: vec![token.into()],
    }
}

fn connection(token: &str) -> BigQueryConnection<u8> {
    BigQueryConnection { client: 7, config: config(token, None) }
}

fn failure(code: &str, message: &str) -> Reply {
    Reply::Error { code: code.into(), message: message.into() }
}

fn health() -> Vec<(String, Json)> {
    vec![
        ("engine".into(), Json::text("bigquery")),
        ("abiVersion".into(), Json::Number("1".into())),
        ("driverLinked".into(), Json::Bool(true)),
    ]
}

#[test]
fn a_connector_says_that_it_is_there() {
    for method in ["health", "ping"] {
        assert_eq!(call_json(&driver(), method), Call::Answer(Reply::Done(health())));
    }
}

#[test]
fn a_connector_describes_itself() {
    let mut members = health();
    members.push((
        "manifest".into(),
        Json::Object(vec![("name".into(), Json::text("bigquery"))]),
    ));
    members.push(("config".into(), Json::Null));
    for method in ["describe", "capabilities"] {
        assert_eq!(call_json(&driver(), method), Call::Answer(Reply::Done(members.clone())));
    }
    assert_eq!(document_or_null(Err("bad".into())), Json::Null);
    assert_eq!(document_or_null(Ok(Json::Bool(true))), Json::Bool(true));
}

#[test]
fn the_documents_are_handed_out_as_they_stand() {
    assert_eq!(
        call_json(&driver(), "manifest"),
        Call::Answer(Reply::Raw(r#"{"name":"bigquery"}"#.into()))
    );
    assert_eq!(
        call_json(&driver(), "config"),
        Call::Answer(Reply::Raw("not a document".into()))
    );
}

#[test]
fn the_other_methods_are_told_apart() {
    assert_eq!(call_json(&driver(), "connect"), Call::Connect);
    assert_eq!(call_json(&driver(), "query"), Call::Query);
    assert_eq!(call_json(&driver(), "metadata"), Call::Metadata);
    assert_eq!(call_json(&driver(), "close"), Call::Close);
    for method in ["Connect", "", "drop"] {
        assert_eq!(
            call_json(&driver(), method),
            Call::Answer(failure(
                "connector.unknownMethod",
                &format!("unknown connector method: {method}")
            ))
        );
    }
}

#[test]
fn a_connection_is_opened_found_and_closed() {
    let mut connections: Connections<u8> = Connections::new();
    let reply = connections.connect(
        &driver(),
        "one",
        BigQueryConnection { client: 7, config: config("t", Some("EU")) },
        3,
    );
    assert_eq!(
        reply,
        Reply::Done(vec![
            ("engine".into(), Json::text("bigquery")),
            ("connectionId".into(), Json::text("one")),
            ("driverLinked".into(), Json::Bool(true)),
            ("projectId".into(), Json::text("p")),
            ("datasetCount".into(), Json::Number("3".into())),
            ("serverVersion".into(), Json::text("Google BigQuery v2 API")),
            ("location".into(), Json::text("EU")),
        ])
    );
    assert_eq!(connections.connection("one").expect("open").client, 7);

    let closed = |existed: bool| {
        Reply::Done(vec![
            ("connectionId".into(), Json::text("one")),
            ("closed".into(), Json::Bool(existed)),
        ])
    };
    assert_eq!(connections.close("one"), closed(true));
    assert_eq!(
        connections.connection("one").err(),
        Some(failure("connector.connectionNotFound", "no open connection: one"))
    );
    assert_eq!(connections.close("one"), closed(false));
}

#[test]
fn a_place_is_said_only_where_there_is_one() {
    let mut connections: Connections<u8> = Connections::new();
    match connections.connect(&driver(), "one", connection("t"), 0) {
        Reply::Done(members) => assert_eq!(members.len(), 6),
        other => panic!("{other:?}"),
    }
}

#[test]
fn connections_do_not_disturb_each_other() {
    let mut connections: Connections<u8> = Connections::new();
    for (id, token) in [("a", "ta"), ("b", "tb"), ("c", "tc"), ("b", "again")] {
        connections.insert(id.to_string(), connection(token));
    }
    let token = |connections: &Connections<u8>, id: &str| {
        connections.get(id).map(|c| c.config.access_token.clone())
    };
    assert_eq!(token(&connections, "a").as_deref(), Some("ta"));
    assert_eq!(token(&connections, "b").as_deref(), Some("again"));
    assert!(connections.remove("a"));
    assert!(!connections.remove("a"));
    assert_eq!(token(&connections, "a"), None);
    assert_eq!(token(&connections, "b").as_deref(), Some("again"));
    assert_eq!(token(&connections, "c").as_deref(), Some("tc"));
}

#[test]
fn a_statement_stands_in_one_of_three_fields() {
    let text = |value: &str| Some(value.to_string());
    assert_eq!(statement_of(text("a"), text("b"), text("c")), Ok("a".to_string()));
    assert_eq!(statement_of(None, text("b"), text("c")), Ok("b".to_string()));
    assert_eq!(statement_of(None, None, text("c")), Ok("c".to_string()));
    assert_eq!(
        statement_of(None, None, None),
        Err(failure(
            "connector.invalidRequest",
            "query requires a string sql, query, or statement field."
        ))
    );
}

#[test]
fn a_query_is_answered_with_its_rows() {
    let output = (
        vec!["a".to_string()],
        vec![vec![Json::text("1")], vec![Json::Null]],
        true,
    );
    assert_eq!(
        query_reply("one", &config("t", None), Ok(output)),
        Reply::Done(vec![
            ("connectionId".into(), Json::text("one")),
            ("columns".into(), Json::Array(vec![Json::text("a")])),
            (
                "rows".into(),
                Json::Array(vec![
                    Json::Array(vec![Json::text("1")]),
                    Json::Array(vec![Json::Null]),
                ])
            ),
            ("truncated".into(), Json::Bool(true)),
        ])
    );
}

#[test]
fn metadata_is_answered_as_it_is() {
    assert_eq!(
        metadata_reply("one", &config("t", None), Ok(Json::Bool(true))),
        Reply::Done(vec![
            ("connectionId".into(), Json::text("one")),
            ("metadata".into(), Json::Bool(true)),
        ])
    );
}

#[test]
fn no_failure_quotes_the_token() {
    let config = config("ya29.secret", None);
    let why = "HTTP 401: token ya29.secret is bad".to_string();
    let shown = "HTTP 401: token *** is bad";
    assert_eq!(connect_failed(&config, &why), failure("connector.connectFailed", shown));
    assert_eq!(
        query_reply("one", &config, Err(why.clone())),
        failure("connector.queryFailed", shown)
    );
    assert_eq!(
        metadata_reply("one", &config, Err(why)),
        failure("connector.metadataFailed", shown)
    );
}

#[test]
fn other_failures_have_their_codes() {
    assert_eq!(
        invalid_request("no".to_string()),
        failure("connector.invalidRequest", "no")
    );
    assert_eq!(
        state_poisoned(),
        failure("connector.statePoisoned", "Connector connection state is poisoned.")
    );
}

#[test]
fn a_failed_configuration_is_an_invalid_request() {
    assert_eq!(
        configuration_of(Err("no project".to_string())),
        Err(failure("connector.invalidRequest", "no project"))
    );
    assert_eq!(configuration_of(Ok(config("t", None))), Ok(config("t", None)));
}

#[test]
fn a_failed_probe_opens_nothing() {
    let mut connections: Connections<u8> = Connections::new();
    let refused = failure("connector.connectFailed", "HTTP 401 for ***");
    let why = || Err("HTTP 401 for secret".to_string());
    assert_eq!(connections.probed(&driver(), "one", connection("secret"), why()), refused);
    assert!(connections.get("one").is_none());

    let mut others: Connections<u8> = Connections::new();
    let opened = others.connect(&driver(), "one", connection("old"), 2);
    assert_eq!(connections.probed(&driver(), "one", connection("old"), Ok(2)), opened);
    connections.probed(&driver(), "one", connection("secret"), why());
    assert_eq!(connections.get("one").expect("open").config.access_token, "old");

    assert_eq!(probed_in_vain(&config("secret", None), why()), refused);
    assert_eq!(probed_in_vain(&config("secret", None), Ok(2)), state_poisoned());
}

#[test]
fn a_missing_statement_is_reported_before_a_missing_connection() {
    let mut connections: Connections<u8> = Connections::new();
    let text = |value: &str| Some(value.to_string());
    let no_statement = statement_of(None, None, None).unwrap_err();
    assert_eq!(connections.prepare("one", None, None, None).unwrap_err(), no_statement);
    assert_eq!(
        connections.prepare("one", None, text("q"), None).unwrap_err(),
        failure("connector.connectionNotFound", "no open connection: one")
    );
    connections.insert("one".to_string(), connection("t"));
    assert_eq!(connections.prepare("one", None, None, None).unwrap_err(), no_statement);
    let (sql, found) = connections.prepare("one", None, text("q"), text("s")).expect("ready");
    assert_eq!(sql, "q");
    assert_eq!(found.config.access_token, "t");

    assert_eq!(prepared_in_vain(None, None, None), no_statement);
    assert_eq!(prepared_in_vain(text("q"), None, None), state_poisoned());
}
