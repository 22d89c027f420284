//! The calls that the connector answers.

use vstd::prelude::*;
use vstd::string::*;

use crate::config::{no_message_shows_the_token, BigQueryConfig, ConfigView};
use crate::connections::{BigQueryConnection, Connections};
use crate::json::{
    a_member_is_found_by_its_name, outcome, parsed, what_is_not_named_is_not_found, Json, JsonView,
};
use crate::number::decimal;
use crate::query::{QueryOutput, QueryRows};
use crate::redaction::{maskable, masked, occurs};
use crate::run::OutputView;
use crate::text::same;

verus! {

/// What a connector says of itself.
#[derive(Debug, PartialEq, Eq)]
pub struct Driver {
    pub engine: String,
    pub abi_version: u64,
    pub driver_linked: bool,
    /// The manifest, as a JSON document.
    pub manifest: String,
    /// The description of its settings, as a JSON document.
    pub config: String,
}

/// What a `Driver` says.
pub ghost struct DriverView {
    pub engine: Seq<char>,
    pub abi_version: nat,
    pub driver_linked: bool,
    pub manifest: Seq<char>,
    pub config: Seq<char>,
}

impl View for Driver {
    type V = DriverView;

    open spec fn view(&self) -> DriverView {
        DriverView {
            engine: self.engine@,
            abi_version: self.abi_version as nat,
            driver_linked: self.driver_linked,
            manifest: self.manifest@,
            config: self.config@,
        }
    }
}

/// What a call is answered.
#[derive(Debug, PartialEq, Eq)]
pub enum Reply {
    /// The call succeeded, with these members in its answer.
    Done(Vec<(String, Json)>),
    /// The call failed.
    Error { code: String, message: String },
    /// The answer is this text as it stands.
    Raw(String),
}

/// What a `Reply` says.
pub ghost enum ReplyView {
    Done(Seq<(Seq<char>, JsonView)>),
    Error { code: Seq<char>, message: Seq<char> },
    Raw(Seq<char>),
}

impl View for Reply {
    type V = ReplyView;

    open spec fn view(&self) -> ReplyView {
        match self {
            Reply::Done(members) => ReplyView::Done(members.deep_view()),
            Reply::Error { code, message } => ReplyView::Error { code: code@, message: message@ },
            Reply::Raw(text) => ReplyView::Raw(text@),
        }
    }
}

impl DeepView for Reply {
    type V = ReplyView;

    open spec fn deep_view(&self) -> ReplyView {
        self@
    }
}

/// A failure.
pub open spec fn failure(code: Seq<char>, message: Seq<char>) -> ReplyView {
    ReplyView::Error { code, message }
}

fn fail(code: &str, message: String) -> (reply: Reply)
    ensures
        reply@ == failure(code@, message@),
{
    Reply::Error { code: code.to_owned(), message }
}

// ----------------------------------------------------------------------- calls

/// A call, told by its method.
#[derive(Debug, PartialEq, Eq)]
pub enum Call {
    /// It is answered at once.
    Answer(Reply),
    Connect,
    Query,
    Metadata,
    Close,
}

/// What a `Call` says.
pub ghost enum CallView {
    Answer(ReplyView),
    Connect,
    Query,
    Metadata,
    Close,
}

impl View for Call {
    type V = CallView;

    open spec fn view(&self) -> CallView {
        match self {
            Call::Answer(reply) => CallView::Answer(reply@),
            Call::Connect => CallView::Connect,
            Call::Query => CallView::Query,
            Call::Metadata => CallView::Metadata,
            Call::Close => CallView::Close,
        }
    }
}

/// A document, or null where there is none.
pub open spec fn or_null(document: Result<JsonView, Seq<char>>) -> JsonView {
    match document {
        Ok(value) => value,
        Err(_) => JsonView::Null,
    }
}

/// A document, or null where there is none.
pub fn document_or_null(document: Result<Json, String>) -> (value: Json)
    ensures
        value@ == or_null(outcome(document)),
{
    match document {
        Ok(value) => value,
        Err(_) => Json::Null,
    }
}

impl DriverView {
    /// The signs of life of a connector.
    pub open spec fn health(self) -> Seq<(Seq<char>, JsonView)> {
        seq![
            ("engine"@, JsonView::Text(self.engine)),
            ("abiVersion"@, JsonView::Number(decimal(self.abi_version))),
            ("driverLinked"@, JsonView::Bool(self.driver_linked)),
        ]
    }

    /// What a connector says of itself, given its two documents.
    pub open spec fn description(
        self,
        manifest: Result<JsonView, Seq<char>>,
        config: Result<JsonView, Seq<char>>,
    ) -> Seq<(Seq<char>, JsonView)> {
        self.health().push(("manifest"@, or_null(manifest))).push(("config"@, or_null(config)))
    }

    /// What a method asks for.
    pub open spec fn call(self, method: Seq<char>) -> CallView {
        if method == "health"@ || method == "ping"@ {
            CallView::Answer(ReplyView::Done(self.health()))
        } else if method == "describe"@ || method == "capabilities"@ {
            CallView::Answer(
                ReplyView::Done(self.description(parsed(self.manifest), parsed(self.config))),
            )
        } else if method == "manifest"@ {
            CallView::Answer(ReplyView::Raw(self.manifest))
        } else if method == "config"@ {
            CallView::Answer(ReplyView::Raw(self.config))
        } else if method == "connect"@ {
            CallView::Connect
        } else if method == "query"@ {
            CallView::Query
        } else if method == "metadata"@ {
            CallView::Metadata
        } else if method == "close"@ {
            CallView::Close
        } else {
            CallView::Answer(
                failure("connector.unknownMethod"@, "unknown connector method: "@ + method),
            )
        }
    }
}

impl Driver {
    /// The signs of life of a connector.
    pub fn health(&self) -> (members: Vec<(String, Json)>)
        ensures
            members.deep_view() == self@.health(),
    {
        let mut members: Vec<(String, Json)> = Vec::new();
        members.push(("engine".to_owned(), Json::text(self.engine.as_str())));
        members.push(("abiVersion".to_owned(), Json::number(self.abi_version as u128)));
        members.push(("driverLinked".to_owned(), Json::flag(self.driver_linked)));
        assert(members.deep_view() =~= self@.health());
        members
    }

    /// What a connector says of itself, given its two documents.
    pub fn description(&self, manifest: Result<Json, String>, config: Result<Json, String>) -> (
    members: Vec<(String, Json)>)
        ensures
            members.deep_view() == self@.description(outcome(manifest), outcome(config)),
    {
        let ghost told = self@.description(outcome(manifest), outcome(config));
        let mut members = self.health();
        members.push(("manifest".to_owned(), document_or_null(manifest)));
        members.push(("config".to_owned(), document_or_null(config)));
        assert(members.deep_view() =~= told);
        members
    }
}

/// What a method asks for.
pub fn call_json(driver: &Driver, method: &str) -> (call: Call)
    ensures
        call@ == driver@.call(method@),
{
    if same(method, "health") || same(method, "ping") {
        Call::Answer(Reply::Done(driver.health()))
    } else if same(method, "describe") || same(method, "capabilities") {
        let manifest = Json::parse(driver.manifest.as_str());
        let config = Json::parse(driver.config.as_str());
        Call::Answer(Reply::Done(driver.description(manifest, config)))
    } else if same(method, "manifest") {
        Call::Answer(Reply::Raw(driver.manifest.clone()))
    } else if same(method, "config") {
        Call::Answer(Reply::Raw(driver.config.clone()))
    } else if same(method, "connect") {
        Call::Connect
    } else if same(method, "query") {
        Call::Query
    } else if same(method, "metadata") {
        Call::Metadata
    } else if same(method, "close") {
        Call::Close
    } else {
        Call::Answer(
            fail(
                "connector.unknownMethod",
                "unknown connector method: ".to_owned().concat(method),
            ),
        )
    }
}

// -------------------------------------------------------------------- failures

/// A request that cannot be carried out as it stands.
pub open spec fn invalid(message: Seq<char>) -> ReplyView {
    failure("connector.invalidRequest"@, message)
}

/// A request that cannot be carried out as it stands.
pub fn invalid_request(message: String) -> (reply: Reply)
    ensures
        reply@ == invalid(message@),
{
    fail("connector.invalidRequest", message)
}

/// The connections cannot be got at.
pub open spec fn poisoned() -> ReplyView {
    failure("connector.statePoisoned"@, "Connector connection state is poisoned."@)
}

/// The connections cannot be got at.
pub fn state_poisoned() -> (reply: Reply)
    ensures
        reply@ == poisoned(),
{
    fail("connector.statePoisoned", "Connector connection state is poisoned.".to_owned())
}

/// A configuration, or what is answered where there is none.
pub open spec fn configured(config: Result<ConfigView, Seq<char>>) -> Result<
    ConfigView,
    ReplyView,
> {
    match config {
        Ok(c) => Ok(c),
        Err(why) => Err(invalid(why)),
    }
}

/// The configuration that a request asks for, or what is answered where there is
/// none.
pub fn configuration_of(config: Result<BigQueryConfig, String>) -> (result: Result<
    BigQueryConfig,
    Reply,
>)
    ensures
        outcome(result) == configured(outcome(config)),
{
    match config {
        Ok(c) => Ok(c),
        Err(why) => Err(invalid_request(why)),
    }
}

/// There is no connection under an id.
pub open spec fn not_found(id: Seq<char>) -> ReplyView {
    failure("connector.connectionNotFound"@, "no open connection: "@ + id)
}

/// What failed on a connection, as it may be shown.
pub open spec fn failed_on(config: ConfigView, code: Seq<char>, why: Seq<char>) -> ReplyView {
    failure(code, config.shown(why))
}

/// A connection could not be probed.
pub fn connect_failed(config: &BigQueryConfig, why: &str) -> (reply: Reply)
    ensures
        reply@ == failed_on(config@, "connector.connectFailed"@, why@),
{
    fail("connector.connectFailed", config.redact(why))
}

// ------------------------------------------------------------ opening and closing

/// What is said of a connection that was opened.
pub open spec fn opened(
    driver: DriverView,
    id: Seq<char>,
    config: ConfigView,
    dataset_count: nat,
) -> ReplyView {
    let told = seq![
        ("engine"@, JsonView::Text(driver.engine)),
        ("connectionId"@, JsonView::Text(id)),
        ("driverLinked"@, JsonView::Bool(driver.driver_linked)),
        ("projectId"@, JsonView::Text(config.project_id)),
        ("datasetCount"@, JsonView::Number(decimal(dataset_count))),
        ("serverVersion"@, JsonView::Text("Google BigQuery v2 API"@)),
    ];
    match config.location {
        Some(place) => ReplyView::Done(told.push(("location"@, JsonView::Text(place)))),
        None => ReplyView::Done(told),
    }
}

/// What is said of a connection that was closed.
pub open spec fn closed_reply(id: Seq<char>, existed: bool) -> ReplyView {
    ReplyView::Done(
        seq![("connectionId"@, JsonView::Text(id)), ("closed"@, JsonView::Bool(existed))],
    )
}

/// The connection under an id, or what is answered where there is none.
pub open spec fn found<C>(
    connections: Map<Seq<char>, BigQueryConnection<C>>,
    id: Seq<char>,
) -> Result<BigQueryConnection<C>, ReplyView> {
    if connections.contains_key(id) {
        Ok(connections[id])
    } else {
        Err(not_found(id))
    }
}

impl<C> Connections<C> {
    /// Opens a connection that was probed, in place of any under the same id.
    pub fn connect(
        &mut self,
        driver: &Driver,
        id: &str,
        connection: BigQueryConnection<C>,
        dataset_count: usize,
    ) -> (reply: Reply)
        requires
            old(self).wf(),
        ensures
            final(self).wf(),
            final(self)@ == old(self)@.insert(id@, connection),
            reply@ == opened(driver@, id@, connection.config@, dataset_count as nat),
    {
        let ghost told = opened(driver@, id@, connection.config@, dataset_count as nat);
        let mut members: Vec<(String, Json)> = Vec::new();
        members.push(("engine".to_owned(), Json::text(driver.engine.as_str())));
        members.push(("connectionId".to_owned(), Json::text(id)));
        members.push(("driverLinked".to_owned(), Json::flag(driver.driver_linked)));
        members.push(("projectId".to_owned(), Json::text(connection.config.project_id.as_str())));
        members.push(("datasetCount".to_owned(), Json::number(dataset_count as u128)));
        members.push(("serverVersion".to_owned(), Json::text("Google BigQuery v2 API")));
        if let Some(place) = &connection.config.location {
            members.push(("location".to_owned(), Json::text(place.as_str())));
        }
        assert(members.deep_view() =~= told->Done_0);
        self.insert(id.to_owned(), connection);
        Reply::Done(members)
    }

    /// Opens a connection, if the probe of it went well; else nothing changes.
    pub fn probed(
        &mut self,
        driver: &Driver,
        id: &str,
        connection: BigQueryConnection<C>,
        count: Result<usize, String>,
    ) -> (reply: Reply)
        requires
            old(self).wf(),
        ensures
            final(self).wf(),
            match count {
                Ok(n) => final(self)@ == old(self)@.insert(id@, connection) && reply@ == opened(
                    driver@,
                    id@,
                    connection.config@,
                    n as nat,
                ),
                Err(why) => final(self)@ == old(self)@ && reply@ == failed_on(
                    connection.config@,
                    "connector.connectFailed"@,
                    why@,
                ),
            },
    {
        match count {
            Ok(n) => self.connect(driver, id, connection, n),
            Err(why) => connect_failed(&connection.config, why.as_str()),
        }
    }

    /// Closes the connection under an id, where there is one.
    pub fn close(&mut self, id: &str) -> (reply: Reply)
        requires
            old(self).wf(),
        ensures
            final(self).wf(),
            final(self)@ == old(self)@.remove(id@),
            reply@ == closed_reply(id@, old(self)@.contains_key(id@)),
    {
        let existed = self.remove(id);
        let mut members: Vec<(String, Json)> = Vec::new();
        members.push(("connectionId".to_owned(), Json::text(id)));
        members.push(("closed".to_owned(), Json::flag(existed)));
        assert(members.deep_view() =~= closed_reply(id@, existed)->Done_0);
        Reply::Done(members)
    }

    /// The connection under an id, or what is answered where there is none.
    pub fn connection(&self, id: &str) -> (connection: Result<&BigQueryConnection<C>, Reply>)
        requires
            self.wf(),
        ensures
            match connection {
                Ok(c) => found(self@, id@) == Ok::<BigQueryConnection<C>, ReplyView>(*c),
                Err(reply) => found(self@, id@) == Err::<BigQueryConnection<C>, ReplyView>(reply@),
            },
    {
        match self.get(id) {
            Some(connection) => Ok(connection),
            None => Err(
                fail(
                    "connector.connectionNotFound",
                    "no open connection: ".to_owned().concat(id),
                ),
            ),
        }
    }
}

/// What is answered to a probe where the connections cannot be got at. A failed
/// probe is reported first.
pub fn probed_in_vain(config: &BigQueryConfig, count: Result<usize, String>) -> (reply: Reply)
    ensures
        reply@ == (match count {
            Ok(_) => poisoned(),
            Err(why) => failed_on(config@, "connector.connectFailed"@, why@),
        }),
{
    match count {
        Ok(_) => state_poisoned(),
        Err(why) => connect_failed(config, why.as_str()),
    }
}

// --------------------------------------------------------------------- queries

/// The statement in a request, which may stand in any of three fields.
pub open spec fn statement(
    sql: Option<Seq<char>>,
    query: Option<Seq<char>>,
    statement: Option<Seq<char>>,
) -> Result<Seq<char>, ReplyView> {
    match (sql, query, statement) {
        (Some(text), _, _) => Ok(text),
        (None, Some(text), _) => Ok(text),
        (None, None, Some(text)) => Ok(text),
        (None, None, None) => Err(
            invalid("query requires a string sql, query, or statement field."@),
        ),
    }
}

/// The statement in a request, given its fields `sql`, `query` and `statement`.
pub fn statement_of(sql: Option<String>, query: Option<String>, statement: Option<String>) -> (
text: Result<String, Reply>)
    ensures
        outcome(text) == self::statement(
            sql.deep_view(),
            query.deep_view(),
            statement.deep_view(),
        ),
{
    match sql {
        Some(text) => Ok(text),
        None => match query {
            Some(text) => Ok(text),
            None => match statement {
                Some(text) => Ok(text),
                None => Err(
                    invalid_request(
                        "query requires a string sql, query, or statement field.".to_owned(),
                    ),
                ),
            },
        },
    }
}

/// The statement in a request with the connection that it is for. A missing
/// statement is reported before a missing connection.
pub open spec fn prepared<C>(
    connections: Map<Seq<char>, BigQueryConnection<C>>,
    id: Seq<char>,
    text: Result<Seq<char>, ReplyView>,
) -> Result<(Seq<char>, BigQueryConnection<C>), ReplyView> {
    match text {
        Err(reply) => Err(reply),
        Ok(sql) => match found(connections, id) {
            Err(reply) => Err(reply),
            Ok(connection) => Ok((sql, connection)),
        },
    }
}

impl<C> Connections<C> {
    /// The statement in a request with the connection that it is for, given the
    /// fields `sql`, `query` and `statement`.
    pub fn prepare(
        &self,
        id: &str,
        sql: Option<String>,
        query: Option<String>,
        statement: Option<String>,
    ) -> (result: Result<(String, &BigQueryConnection<C>), Reply>)
        requires
            self.wf(),
        ensures
            ({
                let told = prepared(
                    self@,
                    id@,
                    self::statement(sql.deep_view(), query.deep_view(), statement.deep_view()),
                );
                match result {
                    Ok((text, connection)) => told == Ok::<
                        (Seq<char>, BigQueryConnection<C>),
                        ReplyView,
                    >((text@, *connection)),
                    Err(reply) => told == Err::<(Seq<char>, BigQueryConnection<C>), ReplyView>(
                        reply@,
                    ),
                }
            }),
    {
        match statement_of(sql, query, statement) {
            Err(reply) => Err(reply),
            Ok(text) => match self.connection(id) {
                Err(reply) => Err(reply),
                Ok(connection) => Ok((text, connection)),
            },
        }
    }
}

/// What is answered to a query where the connections cannot be got at. A missing
/// statement is reported first.
pub fn prepared_in_vain(sql: Option<String>, query: Option<String>, statement: Option<String>) -> (
reply: Reply)
    ensures
        reply@ == (match self::statement(
            sql.deep_view(),
            query.deep_view(),
            statement.deep_view(),
        ) {
            Ok(_) => poisoned(),
            Err(reply) => reply,
        }),
{
    match statement_of(sql, query, statement) {
        Ok(_) => state_poisoned(),
        Err(reply) => reply,
    }
}

/// What a query is answered.
pub open spec fn answered(
    id: Seq<char>,
    config: ConfigView,
    output: Result<OutputView, Seq<char>>,
) -> ReplyView {
    match output {
        Ok((columns, rows, truncated)) => ReplyView::Done(
            seq![
                ("connectionId"@, JsonView::Text(id)),
                (
                    "columns"@,
                    JsonView::Array(
                        Seq::new(columns.len(), |i: int| JsonView::Text(columns[i])),
                    ),
                ),
                (
                    "rows"@,
                    JsonView::Array(Seq::new(rows.len(), |i: int| JsonView::Array(rows[i]))),
                ),
                ("truncated"@, JsonView::Bool(truncated)),
            ],
        ),
        Err(why) => failed_on(config, "connector.queryFailed"@, why),
    }
}

/// Texts, as an array.
fn texts(items: Vec<String>) -> (json: Json)
    ensures
        json@ == JsonView::Array(
            Seq::new(items@.len(), |i: int| JsonView::Text(items.deep_view()[i])),
        ),
{
    let ghost all = items@;
    let mut values: Vec<Json> = Vec::new();
    for item in it: items
        invariant
            it.seq() == all,
            values.len() == it.index(),
            forall|j: int|
                0 <= j < values.len() ==> (#[trigger] values@[j])@ == JsonView::Text(all[j]@),
    {
        values.push(Json::text(item.as_str()));
    }
    assert(values.deep_view() =~= Seq::new(
        all.len(),
        |i: int| JsonView::Text(items.deep_view()[i]),
    ));
    Json::array(values)
}

/// Rows, as an array of arrays.
fn tables(rows: QueryRows) -> (json: Json)
    ensures
        json@ == JsonView::Array(
            Seq::new(rows@.len(), |i: int| JsonView::Array(rows.deep_view()[i])),
        ),
{
    let ghost all = rows@;
    let mut values: Vec<Json> = Vec::new();
    for row in it: rows
        invariant
            it.seq() == all,
            values.len() == it.index(),
            forall|j: int|
                0 <= j < values.len() ==> (#[trigger] values@[j])@ == JsonView::Array(
                    all[j].deep_view(),
                ),
    {
        values.push(Json::array(row));
    }
    assert(values.deep_view() =~= Seq::new(
        all.len(),
        |i: int| JsonView::Array(rows.deep_view()[i]),
    ));
    Json::array(values)
}

/// What a query is answered.
pub fn query_reply(id: &str, config: &BigQueryConfig, output: Result<QueryOutput, String>) -> (
reply: Reply)
    ensures
        reply@ == answered(id@, config@, outcome(output)),
{
    let ghost told = answered(id@, config@, outcome(output));
    match output {
        Ok((columns, rows, truncated)) => {
            let mut members: Vec<(String, Json)> = Vec::new();
            members.push(("connectionId".to_owned(), Json::text(id)));
            members.push(("columns".to_owned(), texts(columns)));
            members.push(("rows".to_owned(), tables(rows)));
            members.push(("truncated".to_owned(), Json::flag(truncated)));
            assert(members.deep_view() =~= told->Done_0);
            Reply::Done(members)
        },
        Err(why) => fail("connector.queryFailed", config.redact(why.as_str())),
    }
}

/// What a request for metadata is answered.
pub open spec fn described(
    id: Seq<char>,
    config: ConfigView,
    metadata: Result<JsonView, Seq<char>>,
) -> ReplyView {
    match metadata {
        Ok(document) => ReplyView::Done(
            seq![("connectionId"@, JsonView::Text(id)), ("metadata"@, document)],
        ),
        Err(why) => failed_on(config, "connector.metadataFailed"@, why),
    }
}

/// What a request for metadata is answered.
pub fn metadata_reply(id: &str, config: &BigQueryConfig, metadata: Result<Json, String>) -> (reply:
    Reply)
    ensures
        reply@ == described(id@, config@, outcome(metadata)),
{
    let ghost told = described(id@, config@, outcome(metadata));
    match metadata {
        Ok(document) => {
            let mut members: Vec<(String, Json)> = Vec::new();
            members.push(("connectionId".to_owned(), Json::text(id)));
            members.push(("metadata".to_owned(), document));
            assert(members.deep_view() =~= told->Done_0);
            Reply::Done(members)
        },
        Err(why) => fail("connector.metadataFailed", config.redact(why.as_str())),
    }
}

// ------------------------------------------------------------------------ laws

/// A connection that was opened is found under its id, and no other id stands
/// for anything else than before.
pub proof fn an_opened_connection_is_found<C>(
    connections: Map<Seq<char>, BigQueryConnection<C>>,
    id: Seq<char>,
    connection: BigQueryConnection<C>,
    other: Seq<char>,
)
    ensures
        found(connections.insert(id, connection), id) == Ok::<BigQueryConnection<C>, ReplyView>(
            connection,
        ),
        other != id ==> found(connections.insert(id, connection), other) == found(
            connections,
            other,
        ),
{
}

/// A connection that was closed is found no more, closing it again finds nothing
/// to close, and no other id stands for anything else than before.
pub proof fn a_closed_connection_is_gone<C>(
    connections: Map<Seq<char>, BigQueryConnection<C>>,
    id: Seq<char>,
    other: Seq<char>,
)
    ensures
        found(connections.remove(id), id) == Err::<BigQueryConnection<C>, ReplyView>(not_found(id)),
        closed_reply(id, connections.remove(id).contains_key(id)) == closed_reply(id, false),
        other != id ==> found(connections.remove(id), other) == found(connections, other),
{
}

/// No failure on a connection shows its access token, whatever failed: not in
/// the probe, not in a query and not in a request for metadata.
pub proof fn no_failure_shows_the_token(config: ConfigView, id: Seq<char>, why: Seq<char>)
    requires
        config.guarded(),
        maskable(config.access_token),
    ensures
        (failed_on(config, "connector.connectFailed"@, why) matches ReplyView::Error {
            message,
            ..
        } && !occurs(message, config.access_token)),
        (answered(id, config, Err(why)) matches ReplyView::Error { message, .. } && !occurs(
            message,
            config.access_token,
        )),
        (described(id, config, Err(why)) matches ReplyView::Error { message, .. } && !occurs(
            message,
            config.access_token,
        )),
{
    no_message_shows_the_token(config, why);
}

/// Each method asks for what it names, and a method that is not known is refused
/// by name.
pub proof fn a_method_asks_for_what_it_names(driver: DriverView, method: Seq<char>)
    ensures
        method == "connect"@ <==> driver.call(method) is Connect,
        method == "query"@ <==> driver.call(method) is Query,
        method == "metadata"@ <==> driver.call(method) is Metadata,
        method == "close"@ <==> driver.call(method) is Close,
        method == "health"@ || method == "ping"@ ==> driver.call(method) == CallView::Answer(
            ReplyView::Done(driver.health()),
        ),
        method == "describe"@ || method == "capabilities"@ ==> driver.call(method)
            == CallView::Answer(
            ReplyView::Done(driver.description(parsed(driver.manifest), parsed(driver.config))),
        ),
        method == "manifest"@ ==> driver.call(method) == CallView::Answer(
            ReplyView::Raw(driver.manifest),
        ),
        method == "config"@ ==> driver.call(method) == CallView::Answer(
            ReplyView::Raw(driver.config),
        ),
        method != "connect"@ && method != "query"@ && method != "metadata"@ && method != "close"@
            && method != "health"@ && method != "ping"@ && method != "describe"@ && method
            != "capabilities"@ && method != "manifest"@ && method != "config"@ ==> driver.call(
            method,
        ) == CallView::Answer(
            ReplyView::Error {
                code: "connector.unknownMethod"@,
                message: "unknown connector method: "@ + method,
            },
        ),
{
    reveal_strlit("connect");
    reveal_strlit("query");
    reveal_strlit("metadata");
    reveal_strlit("close");
    reveal_strlit("health");
    reveal_strlit("ping");
    reveal_strlit("describe");
    reveal_strlit("capabilities");
    reveal_strlit("manifest");
    reveal_strlit("config");
    assert("connect"@.len() == 7 && "query"@.len() == 5 && "metadata"@.len() == 8);
    assert("close"@.len() == 5 && "health"@.len() == 6 && "ping"@.len() == 4);
    assert("describe"@.len() == 8 && "capabilities"@.len() == 12 && "manifest"@.len() == 8);
    assert("config"@.len() == 6);
    assert("query"@[0] == 'q' && "close"@[0] == 'c');
    assert("health"@[0] == 'h' && "config"@[0] == 'c');
    assert("metadata"@[1] == 'e' && "describe"@[0] == 'd' && "manifest"@[1] == 'a');
    assert("metadata"@[0] == 'm' && "manifest"@[0] == 'm');
}

/// A connector says what it is, and in its description also what its two
/// documents hold, or null for a text that is no document.
pub proof fn a_connector_says_what_it_is(
    driver: DriverView,
    manifest: Result<JsonView, Seq<char>>,
    config: Result<JsonView, Seq<char>>,
)
    ensures
        ({
            let health = JsonView::Object(driver.health());
            let told = JsonView::Object(driver.description(manifest, config));
            &&& health.text_member("engine"@) == Some(driver.engine)
            &&& health.member("abiVersion"@) == Some(JsonView::Number(decimal(driver.abi_version)))
            &&& health.member("driverLinked"@) == Some(JsonView::Bool(driver.driver_linked))
            &&& told.text_member("engine"@) == Some(driver.engine)
            &&& told.member("abiVersion"@) == Some(JsonView::Number(decimal(driver.abi_version)))
            &&& told.member("driverLinked"@) == Some(JsonView::Bool(driver.driver_linked))
            &&& told.member("manifest"@) == Some(
                match manifest {
                    Ok(document) => document,
                    Err(_) => JsonView::Null,
                },
            )
            &&& told.member("config"@) == Some(
                match config {
                    Ok(document) => document,
                    Err(_) => JsonView::Null,
                },
            )
        }),
{
    reveal_strlit("engine");
    reveal_strlit("abiVersion");
    reveal_strlit("driverLinked");
    reveal_strlit("manifest");
    reveal_strlit("config");
    assert("engine"@.len() == 6 && "abiVersion"@.len() == 10 && "driverLinked"@.len() == 12);
    assert("manifest"@.len() == 8 && "config"@.len() == 6);
    assert("engine"@[0] == 'e' && "config"@[0] == 'c');
    let health = driver.health();
    let told = driver.description(manifest, config);
    a_member_is_found_by_its_name(health, "engine"@, 0);
    a_member_is_found_by_its_name(health, "abiVersion"@, 1);
    a_member_is_found_by_its_name(health, "driverLinked"@, 2);
    a_member_is_found_by_its_name(told, "engine"@, 0);
    a_member_is_found_by_its_name(told, "abiVersion"@, 1);
    a_member_is_found_by_its_name(told, "driverLinked"@, 2);
    a_member_is_found_by_its_name(told, "manifest"@, 3);
    a_member_is_found_by_its_name(told, "config"@, 4);
}

/// A connection that was opened is told by its id, its project and its location,
/// where it has one, and by how many datasets its probe listed.
pub proof fn an_opened_connection_is_told_by_its_configuration(
    driver: DriverView,
    id: Seq<char>,
    config: ConfigView,
    count: nat,
)
    ensures
        (opened(driver, id, config, count) matches ReplyView::Done(members) && {
            let told = JsonView::Object(members);
            &&& told.text_member("engine"@) == Some(driver.engine)
            &&& told.text_member("connectionId"@) == Some(id)
            &&& told.member("driverLinked"@) == Some(JsonView::Bool(driver.driver_linked))
            &&& told.text_member("projectId"@) == Some(config.project_id)
            &&& told.member("datasetCount"@) == Some(JsonView::Number(decimal(count)))
            &&& told.text_member("serverVersion"@) == Some("Google BigQuery v2 API"@)
            &&& told.text_member("location"@) == config.location
        }),
{
    reveal_strlit("engine");
    reveal_strlit("connectionId");
    reveal_strlit("driverLinked");
    reveal_strlit("projectId");
    reveal_strlit("datasetCount");
    reveal_strlit("serverVersion");
    reveal_strlit("location");
    assert("engine"@.len() == 6 && "connectionId"@.len() == 12 && "driverLinked"@.len() == 12);
    assert("projectId"@.len() == 9 && "datasetCount"@.len() == 12 && "serverVersion"@.len() == 13);
    assert("location"@.len() == 8);
    assert("connectionId"@[1] == 'o' && "driverLinked"@[1] == 'r' && "datasetCount"@[1] == 'a');
    let members = opened(driver, id, config, count)->Done_0;
    a_member_is_found_by_its_name(members, "engine"@, 0);
    a_member_is_found_by_its_name(members, "connectionId"@, 1);
    a_member_is_found_by_its_name(members, "driverLinked"@, 2);
    a_member_is_found_by_its_name(members, "projectId"@, 3);
    a_member_is_found_by_its_name(members, "datasetCount"@, 4);
    a_member_is_found_by_its_name(members, "serverVersion"@, 5);
    if config.location is Some {
        a_member_is_found_by_its_name(members, "location"@, 6);
    } else {
        what_is_not_named_is_not_found(JsonView::Object(members), "location"@);
    }
}

/// A query is answered with its columns and rows, each in its place, and with
/// whether rows are missing.
pub proof fn a_query_is_answered_with_what_it_gave(
    id: Seq<char>,
    config: ConfigView,
    columns: Seq<Seq<char>>,
    rows: Seq<Seq<JsonView>>,
    truncated: bool,
    i: int,
)
    ensures
        (answered(id, config, Ok((columns, rows, truncated))) matches ReplyView::Done(members) && {
            let told = JsonView::Object(members);
            &&& told.text_member("connectionId"@) == Some(id)
            &&& (told.array_member("columns"@) matches Some(names) && names.len() == columns.len()
                && (0 <= i < columns.len() ==> names[i] == JsonView::Text(columns[i])))
            &&& (told.array_member("rows"@) matches Some(lines) && lines.len() == rows.len() && (0
                <= i < rows.len() ==> lines[i] == JsonView::Array(rows[i])))
            &&& told.member("truncated"@) == Some(JsonView::Bool(truncated))
        }),
{
    reveal_strlit("connectionId");
    reveal_strlit("columns");
    reveal_strlit("rows");
    reveal_strlit("truncated");
    assert("connectionId"@.len() == 12 && "columns"@.len() == 7 && "rows"@.len() == 4);
    assert("truncated"@.len() == 9);
    let members = answered(id, config, Ok((columns, rows, truncated)))->Done_0;
    a_member_is_found_by_its_name(members, "connectionId"@, 0);
    a_member_is_found_by_its_name(members, "columns"@, 1);
    a_member_is_found_by_its_name(members, "rows"@, 2);
    a_member_is_found_by_its_name(members, "truncated"@, 3);
}

/// Metadata is answered as it was found, and a closed connection by whether there
/// was one; both under the id.
pub proof fn the_other_answers_say_what_was_done(
    id: Seq<char>,
    config: ConfigView,
    document: JsonView,
    existed: bool,
)
    ensures
        (described(id, config, Ok(document)) matches ReplyView::Done(members) && JsonView::Object(
            members,
        ).text_member("connectionId"@) == Some(id) && JsonView::Object(members).member(
            "metadata"@,
        ) == Some(document)),
        (closed_reply(id, existed) matches ReplyView::Done(members) && JsonView::Object(
            members,
        ).text_member("connectionId"@) == Some(id) && JsonView::Object(members).member("closed"@)
            == Some(JsonView::Bool(existed))),
{
    reveal_strlit("connectionId");
    reveal_strlit("metadata");
    reveal_strlit("closed");
    assert("connectionId"@.len() == 12 && "metadata"@.len() == 8 && "closed"@.len() == 6);
    let told = described(id, config, Ok(document))->Done_0;
    a_member_is_found_by_its_name(told, "connectionId"@, 0);
    a_member_is_found_by_its_name(told, "metadata"@, 1);
    let closed = closed_reply(id, existed)->Done_0;
    a_member_is_found_by_its_name(closed, "connectionId"@, 0);
    a_member_is_found_by_its_name(closed, "closed"@, 1);
}

/// Each failure has its own code, and says what failed with the secrets of the
/// connection masked.
pub proof fn each_failure_has_its_code(config: ConfigView, id: Seq<char>, why: Seq<char>)
    ensures
        ({
            let shown = masked(why, config.redaction_values);
            &&& invalid(why) == (ReplyView::Error {
                code: "connector.invalidRequest"@,
                message: why,
            })
            &&& configured(Err(why)) == Err::<ConfigView, ReplyView>(
                ReplyView::Error { code: "connector.invalidRequest"@, message: why },
            )
            &&& configured(Ok(config)) == Ok::<ConfigView, ReplyView>(config)
            &&& poisoned() == (ReplyView::Error {
                code: "connector.statePoisoned"@,
                message: "Connector connection state is poisoned."@,
            })
            &&& not_found(id) == (ReplyView::Error {
                code: "connector.connectionNotFound"@,
                message: "no open connection: "@ + id,
            })
            &&& failed_on(config, "connector.connectFailed"@, why) == (ReplyView::Error {
                code: "connector.connectFailed"@,
                message: shown,
            })
            &&& answered(id, config, Err(why)) == (ReplyView::Error {
                code: "connector.queryFailed"@,
                message: shown,
            })
            &&& described(id, config, Err(why)) == (ReplyView::Error {
                code: "connector.metadataFailed"@,
                message: shown,
            })
        }),
{
}

/// A statement is taken from the first of its three fields that is there, and a
/// query without one is refused, before it is asked whether there is a connection
/// for it.
pub proof fn a_statement_comes_from_the_first_field<C>(
    connections: Map<Seq<char>, BigQueryConnection<C>>,
    id: Seq<char>,
    text: Seq<char>,
    second: Option<Seq<char>>,
    third: Option<Seq<char>>,
)
    ensures
        statement(Some(text), second, third) == Ok::<Seq<char>, ReplyView>(text),
        statement(None, Some(text), third) == Ok::<Seq<char>, ReplyView>(text),
        statement(None, None, Some(text)) == Ok::<Seq<char>, ReplyView>(text),
        statement(None, None, None) == Err::<Seq<char>, ReplyView>(
            ReplyView::Error {
                code: "connector.invalidRequest"@,
                message: "query requires a string sql, query, or statement field."@,
            },
        ),
        prepared(connections, id, statement(None, None, None)) == Err::<
            (Seq<char>, BigQueryConnection<C>),
            ReplyView,
        >(
            ReplyView::Error {
                code: "connector.invalidRequest"@,
                message: "query requires a string sql, query, or statement field."@,
            },
        ),
        !connections.contains_key(id) ==> prepared(connections, id, Ok(text)) == Err::<
            (Seq<char>, BigQueryConnection<C>),
            ReplyView,
        >(
            ReplyView::Error {
                code: "connector.connectionNotFound"@,
                message: "no open connection: "@ + id,
            },
        ),
        connections.contains_key(id) ==> prepared(connections, id, Ok(text)) == Ok::<
            (Seq<char>, BigQueryConnection<C>),
            ReplyView,
        >((text, connections[id])),
{
}

/// However a connection is opened, it is then the one that is found under its id,
/// in place of any that was there before; every other id stands for what it stood
/// for.
pub proof fn connecting_puts_the_connection_in_place<C>(
    connections: &mut Connections<C>,
    driver: &Driver,
    id: &str,
    connection: BigQueryConnection<C>,
    count: usize,
    reply: Reply,
    other: Seq<char>,
)
    requires
        call_ensures(
            Connections::<C>::connect,
            (connections, driver, id, connection, count),
            reply,
        ) || call_ensures(
            Connections::<C>::probed,
            (connections, driver, id, connection, Ok(count)),
            reply,
        ),
    ensures
        found(final(connections)@, id@) == Ok::<BigQueryConnection<C>, ReplyView>(connection),
        other != id@ ==> found(final(connections)@, other) == found(old(connections)@, other),
        (reply@ matches ReplyView::Done(members) && JsonView::Object(members).text_member(
            "connectionId"@,
        ) == Some(id@) && JsonView::Object(members).member("datasetCount"@) == Some(
            JsonView::Number(decimal(count as nat)),
        )),
{
    an_opened_connection_is_told_by_its_configuration(
        driver@,
        id@,
        connection.config@,
        count as nat,
    );
}

/// A probe that failed changes no connection, and is reported as such.
pub proof fn a_failed_probe_changes_nothing<C>(
    connections: &mut Connections<C>,
    driver: &Driver,
    id: &str,
    connection: BigQueryConnection<C>,
    why: String,
    reply: Reply,
    other: Seq<char>,
)
    requires
        call_ensures(
            Connections::<C>::probed,
            (connections, driver, id, connection, Err(why)),
            reply,
        ),
    ensures
        found(final(connections)@, other) == found(old(connections)@, other),
        reply@ == (ReplyView::Error {
            code: "connector.connectFailed"@,
            message: masked(why@, connection.config@.redaction_values),
        }),
{
}

/// Closing takes a connection away, leaves every other as it is, and says whether
/// there was one.
pub proof fn closing_takes_the_connection_away<C>(
    connections: &mut Connections<C>,
    id: &str,
    reply: Reply,
    other: Seq<char>,
)
    requires
        call_ensures(Connections::<C>::close, (connections, id), reply),
    ensures
        found(final(connections)@, id@) is Err,
        other != id@ ==> found(final(connections)@, other) == found(old(connections)@, other),
        (reply@ matches ReplyView::Done(members) && JsonView::Object(members).member("closed"@)
            == Some(JsonView::Bool(found(old(connections)@, id@) is Ok))),
{
    the_other_answers_say_what_was_done(
        id@,
        arbitrary(),
        JsonView::Null,
        found(old(connections)@, id@) is Ok,
    );
}

/// What stands under an id is what is found under it.
pub proof fn a_connection_is_found_under_its_id<C>(
    connections: &Connections<C>,
    id: &str,
    result: Result<&BigQueryConnection<C>, Reply>,
)
    requires
        call_ensures(Connections::<C>::connection, (connections, id), result),
    ensures
        (match result {
            Ok(connection) => connections@.contains_key(id@) && connections@[id@] == *connection,
            Err(reply) => !connections@.contains_key(id@) && reply@ == (ReplyView::Error {
                code: "connector.connectionNotFound"@,
                message: "no open connection: "@ + id@,
            }),
        }),
{
}

/// Where the connections cannot be got at, that is what is answered, unless the
/// probe failed before, or the query had no statement.
pub proof fn an_earlier_failure_is_reported_first(
    config: &BigQueryConfig,
    count: usize,
    why: String,
    sql: Option<String>,
    query: Option<String>,
    text: Option<String>,
    reply: Reply,
)
    ensures
        call_ensures(probed_in_vain, (config, Ok(count)), reply) ==> reply@ == poisoned(),
        call_ensures(probed_in_vain, (config, Err(why)), reply) ==> reply@ == (ReplyView::Error {
            code: "connector.connectFailed"@,
            message: masked(why@, config@.redaction_values),
        }),
        call_ensures(prepared_in_vain, (sql, query, text), reply) ==> reply@ == (if sql is None
            && query is None && text is None {
            invalid("query requires a string sql, query, or statement field."@)
        } else {
            poisoned()
        }),
{
}

/// What calls are answered is what these laws speak of.
pub proof fn calls_are_answered_by_these_laws(
    driver: &Driver,
    method: &str,
    call: Call,
    id: &str,
    config: &BigQueryConfig,
    output: Result<QueryOutput, String>,
    metadata: Result<Json, String>,
    reply: Reply,
)
    ensures
        call_ensures(call_json, (driver, method), call) ==> call@ == driver@.call(method@),
        call_ensures(query_reply, (id, config, output), reply) ==> reply@ == answered(
            id@,
            config@,
            outcome(output),
        ),
        call_ensures(metadata_reply, (id, config, metadata), reply) ==> reply@ == described(
            id@,
            config@,
            outcome(metadata),
        ),
{
}

/// A connector and its answers are told by what they hold, field by field.
pub proof fn answers_are_told_by_what_they_hold(driver: Driver, reply: Reply)
    ensures
        driver@.engine == driver.engine@,
        driver@.abi_version == driver.abi_version,
        driver@.driver_linked == driver.driver_linked,
        driver@.manifest == driver.manifest@,
        driver@.config == driver.config@,
        (match reply {
            Reply::Done(members) => reply@ == ReplyView::Done(members.deep_view()),
            Reply::Error { code, message } => reply@ == (ReplyView::Error {
                code: code@,
                message: message@,
            }),
            Reply::Raw(text) => reply@ == ReplyView::Raw(text@),
        }),
{
}

} // verus!
