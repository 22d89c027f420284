use irodori_bigquery::http::Exchange;
use irodori_bigquery::json::Json;
use irodori_bigquery::metadata::{
    columns_sql, datasets_url, field, probe, probe_url, MetadataRun, MetadataStep,
};
use irodori_bigquery::query::{document_of, parse_query_response, query_error, request_json};
use irodori_bigquery::run::{get_query_results, queries_url, query_payload, QueryRun, QueryStep};

fn document(text: &str) -> Json {
    Json::parse(text).expect("document")
}

fn answer(text: &str) -> Result<Json, String> {
    Ok(document(text))
}

fn texts(items: &[&str]) -> Vec<String> {
    items.iter().map(|item| item.to_string()).collect()
}

fn start(cap: usize) -> QueryRun {
    match QueryRun::run_query("p", Some("EU"), "SELECT 1", cap) {
        QueryStep::Post { url, payload, run } => {
            assert_eq!(url, "https://bigquery.googleapis.com/bigquery/v2/projects/p/queries");
            assert_eq!(payload, query_payload("SELECT 1", cap, Some("EU")));
            run
        }
        other => panic!("{other:?}"),
    }
}

fn page(rows: &[&str], token: Option<&str>) -> Json {
    let rows: Vec<String> =
        rows.iter().map(|row| format!(r#"{{"f":[{{"v":"{row}"}}]}}"#)).collect();
    let token = token.map(|t| format!(r#","pageToken":"{t}""#)).unwrap_or_default();
    document(&format!(
        r#"{{"jobComplete":true,"jobReference":{{"jobId":"j"}},
            "schema":{{"fields":[{{"name":"c"}}]}},"rows":[{}]{token}}}"#,
        rows.join(",")
    ))
}

fn row(value: &str) -> Vec<Json> {
    vec![Json::text(value)]
}

#[test]
fn a_query_is_posted_with_its_limits() {
    assert_eq!(
        queries_url("my-project"),
        "https://bigquery.googleapis.com/bigquery/v2/projects/my-project/queries"
    );
    assert_eq!(
        query_payload("SELECT 1", 50, None),
        Json::Object(vec![
            ("query".into(), Json::text("SELECT 1")),
            ("useLegacySql".into(), Json::Bool(false)),
            ("maxResults".into(), Json::Number("50".into())),
            ("timeoutMs".into(), Json::Number("30000".into())),
        ])
    );
    match query_payload("SELECT 1", 50_000, Some("US")) {
        Json::Object(members) => {
            assert_eq!(members[2], ("maxResults".to_string(), Json::Number("10000".into())));
            assert_eq!(members[4], ("location".to_string(), Json::text("US")));
        }
        other => panic!("{other:?}"),
    }
}

#[test]
fn results_are_asked_for_where_the_job_runs() {
    let job = document(r#"{"jobId":"j","location":"US"}"#);
    assert_eq!(
        get_query_results("p", Some("EU"), Some(&job), Some("t"), 20_000),
        Ok("https://bigquery.googleapis.com/bigquery/v2/projects/p/queries/j?maxResults=10000\
            &location=US&pageToken=t"
            .to_string())
    );
    let job = document(r#"{"jobId":"j"}"#);
    assert_eq!(
        get_query_results("p", Some("EU"), Some(&job), None, 7),
        Ok("https://bigquery.googleapis.com/bigquery/v2/projects/p/queries/j?maxResults=7\
            &location=EU"
            .to_string())
    );
    assert_eq!(
        get_query_results("p", None, Some(&job), None, 7),
        Ok("https://bigquery.googleapis.com/bigquery/v2/projects/p/queries/j?maxResults=7"
            .to_string())
    );
    for job in [None, Some(&document("{}")), Some(&document(r#"{"jobId":1}"#))] {
        assert_eq!(
            get_query_results("p", None, job, None, 7),
            Err("BigQuery response missing jobReference.jobId.".to_string())
        );
    }
}

#[test]
fn an_answer_is_read_as_a_page() {
    let value = document(
        r#"{"schema":{"fields":[{"name":"a"},{"type":"X"},{"name":"b"}]},
            "rows":[{"f":[{"v":"1"},{"v":null}]},{"f":[{"w":1}]},{},{"f":[{"v":{"f":[]}}]}],
            "totalRows":"4"}"#,
    );
    let (columns, rows, truncated, token) = parse_query_response(&value, 10);
    assert_eq!(columns, texts(&["a", "b"]));
    assert_eq!(
        rows,
        vec![
            vec![Json::text("1"), Json::Null],
            vec![Json::Null],
            vec![Json::Null, Json::Null],
            vec![document(r#"{"f":[]}"#)],
        ]
    );
    assert!(!truncated);
    assert_eq!(token, None);

    let (_, rows, truncated, _) = parse_query_response(&value, 2);
    assert_eq!(rows.len(), 2);
    assert!(truncated);
}

#[test]
fn an_answer_without_rows_is_an_empty_page() {
    assert_eq!(parse_query_response(&document("{}"), 5), (vec![], vec![], false, None));
    let paged = document(r#"{"pageToken":"t","totalRows":"x"}"#);
    assert_eq!(
        parse_query_response(&paged, 5),
        (vec![], vec![], true, Some("t".to_string()))
    );
    let odd = document(r#"{"totalRows":"many"}"#);
    assert!(!parse_query_response(&odd, 5).2);
    assert!(parse_query_response(&document(r#"{"totalRows":"1"}"#), 5).2);
}

#[test]
fn the_first_error_counts() {
    assert_eq!(
        query_error(&document(r#"{"errors":[{"message":"one"},{"message":"two"}]}"#)),
        Some("one".to_string())
    );
    for text in ["{}", r#"{"errors":[]}"#, r#"{"errors":[{"reason":"x"},{"message":"y"}]}"#] {
        assert_eq!(query_error(&document(text)), None);
    }
}

#[test]
fn a_complete_job_is_read_at_once() {
    let step = start(10).resume(Ok(page(&["1", "2"], None)));
    assert_eq!(step, QueryStep::Finish(Ok((texts(&["c"]), vec![row("1"), row("2")], false))));
}

#[test]
fn a_job_still_at_work_is_asked_for_again() {
    let working = r#"{"jobComplete":false,"jobReference":{"jobId":"j"}}"#;
    let mut step = start(10).resume(answer(working));
    let mut waits = 0;
    while let QueryStep::Wait { millis, url, run } = step {
        assert_eq!(millis, 500);
        assert_eq!(
            url,
            "https://bigquery.googleapis.com/bigquery/v2/projects/p/queries/j?maxResults=10\
             &location=EU"
        );
        waits += 1;
        step = run.resume(answer(working));
    }
    assert_eq!(waits, 120);
    assert_eq!(step, QueryStep::Finish(Ok((vec![], vec![], false))));

    match start(10).resume(answer(working)) {
        QueryStep::Wait { run, .. } => {
            assert_eq!(
                run.resume(Ok(page(&["1"], None))),
                QueryStep::Finish(Ok((texts(&["c"]), vec![row("1")], false)))
            );
        }
        other => panic!("{other:?}"),
    }
}

#[test]
fn a_job_without_a_name_cannot_be_asked_for() {
    assert_eq!(
        start(10).resume(answer(r#"{"jobComplete":false}"#)),
        QueryStep::GiveUp {
            millis: 500,
            why: "BigQuery response missing jobReference.jobId.".to_string(),
        }
    );
    assert_eq!(
        start(10).resume(answer(r#"{"pageToken":"t"}"#)),
        QueryStep::Finish(Err("BigQuery response missing jobReference.jobId.".to_string()))
    );
}

#[test]
fn pages_are_read_until_there_are_enough_rows() {
    let step = start(3).resume(Ok(page(&["1", "2"], Some("t1"))));
    let (url, run) = match step {
        QueryStep::Get { url, run } => (url, run),
        other => panic!("{other:?}"),
    };
    assert!(url.ends_with("/queries/j?maxResults=3&location=EU&pageToken=t1"), "{url}");
    assert_eq!(
        run.resume(Ok(page(&["3", "4"], Some("t2")))),
        QueryStep::Finish(Ok((texts(&["c"]), vec![row("1"), row("2"), row("3")], true)))
    );

    // The last page leaves none out, but the first said that more were to come.
    let run = match start(10).resume(Ok(page(&["1"], Some("t1")))) {
        QueryStep::Get { run, .. } => run,
        other => panic!("{other:?}"),
    };
    assert_eq!(
        run.resume(Ok(page(&["2"], None))),
        QueryStep::Finish(Ok((texts(&["c"]), vec![row("1"), row("2")], true)))
    );
}

#[test]
fn an_error_ends_a_query_at_any_point() {
    let errors = r#"{"errors":[{"message":"bad"}],"rows":[]}"#;
    let bad = QueryStep::Finish(Err("bad".to_string()));
    assert_eq!(start(5).resume(answer(errors)), bad);
    assert_eq!(start(5).resume(Err("bad".to_string())), bad);
    match start(5).resume(Ok(page(&["1"], Some("t")))) {
        QueryStep::Get { run, .. } => assert_eq!(run.resume(answer(errors)), bad),
        other => panic!("{other:?}"),
    }
    match start(5).resume(answer(r#"{"jobComplete":false,"jobReference":{"jobId":"j"}}"#)) {
        QueryStep::Wait { run, .. } => assert_eq!(run.resume(answer(errors)), bad),
        other => panic!("{other:?}"),
    }
}

#[test]
fn an_exchange_is_read_as_a_document() {
    let answered = |success: bool, body: &str| {
        request_json(&Exchange::Answered {
            success,
            status: "404 Not Found".into(),
            body: body.into(),
        })
    };
    assert_eq!(answered(true, r#"{"a":[1,true,null]}"#), answer(r#"{"a":[1,true,null]}"#));
    assert_eq!(
        answered(false, "gone"),
        Err("BigQuery returned HTTP 404 Not Found: gone".to_string())
    );
    let err = answered(true, "{").unwrap_err();
    assert!(err.starts_with("BigQuery JSON response parse failed: EOF"), "{err}");
    assert!(err.ends_with(": {"), "{err}");
    assert_eq!(
        document_of("body", Err("bad".to_string())),
        Err("BigQuery JSON response parse failed: bad: body".to_string())
    );
    assert_eq!(
        request_json(&Exchange::SendFailed("dns".into())),
        Err("BigQuery request failed: dns".to_string())
    );
    assert_eq!(
        request_json(&Exchange::ReadFailed("cut".into())),
        Err("BigQuery response read failed: cut".to_string())
    );
}

#[test]
fn a_document_keeps_all_that_it_says() {
    let value = document(r#"{"b":1.5,"a":[-7,"x\n",false,{}],"c":12345678901234567890}"#);
    assert_eq!(
        value,
        Json::Object(vec![
            (
                "a".into(),
                Json::Array(vec![
                    Json::Number("-7".into()),
                    Json::text("x\n"),
                    Json::Bool(false),
                    Json::Object(vec![]),
                ])
            ),
            ("b".into(), Json::Number("1.5".into())),
            ("c".into(), Json::Number("12345678901234567890".into())),
        ])
    );
    assert_eq!(value.clone(), value);
    assert_eq!(value.member("b"), Some(&Json::Number("1.5".into())));
    assert_eq!(value.member("d"), None);
    assert_eq!(Json::Null.member("b"), None);
}

#[test]
fn a_project_is_probed_by_listing_one_dataset() {
    assert_eq!(
        probe_url("p"),
        "https://bigquery.googleapis.com/bigquery/v2/projects/p/datasets?maxResults=1"
    );
    assert_eq!(
        datasets_url("p"),
        "https://bigquery.googleapis.com/bigquery/v2/projects/p/datasets"
    );
    assert_eq!(probe(&document(r#"{"datasets":[{},{}]}"#)), 2);
    assert_eq!(probe(&document(r#"{"datasets":{}}"#)), 0);
    assert_eq!(probe(&document("{}")), 0);
}

#[test]
fn a_dataset_name_cannot_leave_its_quotes() {
    assert_eq!(
        columns_sql("a`; DROP `b"),
        "SELECT table_name, column_name, data_type, ordinal_position, is_nullable \
         FROM `a; DROP b`.INFORMATION_SCHEMA.COLUMNS ORDER BY table_name, ordinal_position"
    );
    assert_eq!(columns_sql("``x").split('`').count(), 3);
}

#[test]
fn a_field_is_found_whatever_the_case_of_its_column() {
    let columns = texts(&["A", "Name", "name"]);
    let row = vec![Json::Number("5".into()), Json::text("x"), Json::text("y")];
    assert_eq!(field(&columns, &row, "a"), Some("5".to_string()));
    assert_eq!(field(&columns, &row, "NAME"), Some("x".to_string()));
    assert_eq!(field(&columns, &row, "other"), None);
    let short = vec![Json::Bool(true)];
    assert_eq!(field(&columns, &short, "A"), Some("true".to_string()));
    assert_eq!(field(&columns, &short, "Name"), None);
    assert_eq!(field(&columns, &vec![Json::Null], "A"), None);
    assert_eq!(field(&columns, &vec![Json::Array(vec![])], "A"), None);
}

#[test]
fn a_walk_reports_every_dataset_in_order() {
    let list = answer(
        r#"{"datasets":[{"datasetReference":{"datasetId":"z"}},{},
            {"datasetReference":{"datasetId":"a"}}]}"#,
    );
    let columns =
        texts(&["table_name", "column_name", "data_type", "ordinal_position", "is_nullable"]);
    let column = |table: &str, name: &str, ordinal: Json, nullable: Json| {
        vec![Json::text(table), Json::text(name), Json::text("INT64"), ordinal, nullable]
    };
    let (sql, cap, run) = match MetadataRun::load_metadata(list) {
        MetadataStep::Query { sql, cap, run } => (sql, cap, run),
        other => panic!("{other:?}"),
    };
    assert_eq!(sql, columns_sql("z"));
    assert_eq!(cap, 10_000);
    let rows = vec![
        column("t2", "x", Json::text("7"), Json::text("no")),
        column("t1", "y", Json::text("?"), Json::text("Yes")),
        column("", "lost", Json::Null, Json::Null),
        column("t2", "w", Json::Null, Json::Null),
    ];
    let (sql, run) = match run.resume(Ok((columns, rows, false))) {
        MetadataStep::Query { sql, run, .. } => (sql, run),
        other => panic!("{other:?}"),
    };
    assert_eq!(sql, columns_sql("a"));
    let told = match run.resume(Err("denied".to_string())) {
        MetadataStep::Finish(Ok(told)) => told,
        other => panic!("{other:?}"),
    };
    let expected_column = |name: &str, nullable: bool, ordinal: &str| {
        Json::Object(vec![
            ("name".into(), Json::text(name)),
            ("dataType".into(), Json::text("INT64")),
            ("nullable".into(), Json::Bool(nullable)),
            ("ordinal".into(), Json::Number(ordinal.into())),
        ])
    };
    let table = |name: &str, columns: Vec<Json>| {
        Json::Object(vec![
            ("schema".into(), Json::text("z")),
            ("name".into(), Json::text(name)),
            ("kind".into(), Json::text("table")),
            ("columns".into(), Json::Array(columns)),
            ("indexes".into(), Json::Array(vec![])),
            ("primaryKey".into(), Json::Array(vec![])),
            ("foreignKeys".into(), Json::Array(vec![])),
        ])
    };
    let schema = |name: &str, objects: Vec<Json>| {
        Json::Object(vec![
            ("name".into(), Json::text(name)),
            ("objects".into(), Json::Array(objects)),
        ])
    };
    assert_eq!(
        told,
        Json::Object(vec![(
            "schemas".into(),
            Json::Array(vec![
                schema("a", vec![]),
                schema(
                    "z",
                    vec![
                        table("t1", vec![expected_column("y", true, "1")]),
                        table(
                            "t2",
                            vec![
                                expected_column("x", false, "7"),
                                expected_column("w", true, "2"),
                            ]
                        ),
                    ]
                ),
            ])
        )])
    );
}

#[test]
fn a_list_that_fails_ends_the_walk() {
    assert_eq!(
        MetadataRun::load_metadata(Err("down".to_string())),
        MetadataStep::Finish(Err("down".to_string()))
    );
    assert_eq!(
        MetadataRun::load_metadata(answer("{}")),
        MetadataStep::Finish(Ok(Json::Object(vec![("schemas".into(), Json::Array(vec![]))])))
    );
}
