//! A query in progress: what to send next, given what came back.

use vstd::prelude::*;
use vstd::string::*;

use crate::json::{
    a_member_is_found_by_its_name, outcome, what_is_not_named_is_not_found, Json, JsonView,
};
use crate::number::{decimal, to_decimal};
use crate::query::{
    first_error, page_columns, page_rows, page_token, page_truncated, parse_query_response,
    query_error, QueryOutput, QueryRows,
};
use crate::text::owned;

verus! {

/// How many rows one page may hold at most.
pub const PAGE_LIMIT: usize = 10_000;

/// How often a job that is not complete is asked for again.
pub const POLL_LIMIT: usize = 120;

/// How long to wait before a job is asked for again, in milliseconds.
pub const POLL_MILLIS: u64 = 500;

// ------------------------------------------------------------------ requests

/// How many rows are asked for at once when `cap` are wanted.
pub open spec fn page_size(cap: nat) -> nat {
    if cap < PAGE_LIMIT {
        cap
    } else {
        PAGE_LIMIT as nat
    }
}

fn size_of_page(cap: usize) -> (size: usize)
    ensures
        size == page_size(cap as nat),
{
    if cap < PAGE_LIMIT {
        cap
    } else {
        PAGE_LIMIT
    }
}

/// Where the queries of a project are posted.
pub open spec fn queries_address(project: Seq<char>) -> Seq<char> {
    "https://bigquery.googleapis.com/bigquery/v2/projects/"@ + project + "/queries"@
}

/// Where the queries of a project are posted.
pub fn queries_url(project_id: &str) -> (url: String)
    ensures
        url@ == queries_address(project_id@),
{
    "https://bigquery.googleapis.com/bigquery/v2/projects/".to_owned().concat(project_id).concat(
        "/queries",
    )
}

/// What is posted to run a query.
pub open spec fn query_document(sql: Seq<char>, cap: nat, location: Option<Seq<char>>) -> JsonView {
    let asked = seq![
        ("query"@, JsonView::Text(sql)),
        ("useLegacySql"@, JsonView::Bool(false)),
        ("maxResults"@, JsonView::Number(decimal(page_size(cap)))),
        ("timeoutMs"@, JsonView::Number(decimal(30_000))),
    ];
    match location {
        Some(place) => JsonView::Object(asked.push(("location"@, JsonView::Text(place)))),
        None => JsonView::Object(asked),
    }
}

/// What is posted to run a query.
pub fn query_payload(sql: &str, cap: usize, location: Option<&str>) -> (payload: Json)
    ensures
        payload@ == query_document(sql@, cap as nat, location.deep_view()),
{
    let mut members: Vec<(String, Json)> = Vec::new();
    members.push(("query".to_owned(), Json::text(sql)));
    members.push(("useLegacySql".to_owned(), Json::flag(false)));
    members.push(("maxResults".to_owned(), Json::number(size_of_page(cap) as u128)));
    members.push(("timeoutMs".to_owned(), Json::number(30_000)));
    if let Some(place) = location {
        members.push(("location".to_owned(), Json::text(place)));
    }
    assert(members.deep_view() =~= query_document(
        sql@,
        cap as nat,
        location.deep_view(),
    )->Object_0);
    Json::object(members)
}

/// Where the results of a job are, page by page. A job says where it runs; else
/// the connection does.
pub open spec fn results_address(
    project: Seq<char>,
    location: Option<Seq<char>>,
    job: Option<JsonView>,
    token: Option<Seq<char>>,
    cap: nat,
) -> Result<Seq<char>, Seq<char>> {
    let job_id = match job {
        Some(reference) => reference.text_member("jobId"@),
        None => None,
    };
    let job_place = match job {
        Some(reference) => reference.text_member("location"@),
        None => None,
    };
    match job_id {
        Some(id) => {
            let base = "https://bigquery.googleapis.com/bigquery/v2/projects/"@ + project
                + "/queries/"@ + id + "?maxResults="@ + decimal(page_size(cap));
            let placed = match (job_place, location) {
                (Some(place), _) => base + "&location="@ + place,
                (None, Some(place)) => base + "&location="@ + place,
                (None, None) => base,
            };
            match token {
                Some(t) => Ok(placed + "&pageToken="@ + t),
                None => Ok(placed),
            }
        },
        None => Err("BigQuery response missing jobReference.jobId."@),
    }
}

/// Where the results of a job are, page by page.
pub fn get_query_results(
    project_id: &str,
    location: Option<&str>,
    job: Option<&Json>,
    token: Option<&str>,
    cap: usize,
) -> (url: Result<String, String>)
    ensures
        outcome(url) == results_address(
            project_id@,
            location.deep_view(),
            job.deep_view(),
            token.deep_view(),
            cap as nat,
        ),
{
    let job_id: Option<&str> = match job {
        Some(reference) => reference.text_member("jobId"),
        None => None,
    };
    let job_place: Option<&str> = match job {
        Some(reference) => reference.text_member("location"),
        None => None,
    };
    match job_id {
        Some(id) => {
            let mut url = "https://bigquery.googleapis.com/bigquery/v2/projects/".to_owned();
            url.append(project_id);
            url.append("/queries/");
            url.append(id);
            url.append("?maxResults=");
            url.append(to_decimal(size_of_page(cap) as u128).as_str());
            let place: Option<&str> = if job_place.is_some() {
                job_place
            } else {
                location
            };
            if let Some(place) = place {
                url.append("&location=");
                url.append(place);
            }
            if let Some(t) = token {
                url.append("&pageToken=");
                url.append(t);
            }
            Ok(url)
        },
        None => Err("BigQuery response missing jobReference.jobId.".to_owned()),
    }
}

// --------------------------------------------------------------------- steps

/// How far a query has come.
#[derive(Debug, PartialEq, Eq)]
pub enum QueryPhase {
    /// It was posted.
    Submitted,
    /// Its job was asked for this many times.
    Polling { polls: usize },
    /// These rows were read, and a further page was asked for.
    Paging { columns: Vec<String>, rows: QueryRows, truncated: bool },
}

/// A query that waits for an answer.
#[derive(Debug, PartialEq, Eq)]
pub struct QueryRun {
    pub project_id: String,
    pub location: Option<String>,
    pub cap: usize,
    /// The job that the service runs the query as, once it has said so.
    pub job: Option<Json>,
    pub phase: QueryPhase,
}

/// What to do next for a query.
#[derive(Debug, PartialEq, Eq)]
pub enum QueryStep {
    /// Post `payload` to `url`, and resume with what came back.
    Post { url: String, payload: Json, run: QueryRun },
    /// Wait, then get `url`, and resume with what came back.
    Wait { millis: u64, url: String, run: QueryRun },
    /// Wait, and the query is over with this failure: its job cannot be asked for.
    GiveUp { millis: u64, why: String },
    /// Get `url`, and resume with what came back.
    Get { url: String, run: QueryRun },
    /// The query is over.
    Finish(Result<QueryOutput, String>),
}

/// What a `QueryPhase` says.
pub ghost enum PhaseView {
    Submitted,
    Polling { polls: nat },
    Paging { columns: Seq<Seq<char>>, rows: Seq<Seq<JsonView>>, truncated: bool },
}

/// What a `QueryRun` says.
pub ghost struct RunView {
    pub project: Seq<char>,
    pub location: Option<Seq<char>>,
    pub cap: nat,
    pub job: Option<JsonView>,
    pub phase: PhaseView,
}

/// What a `QueryOutput` says.
pub type OutputView = (Seq<Seq<char>>, Seq<Seq<JsonView>>, bool);

/// What a `QueryStep` says.
pub ghost enum StepView {
    Post { url: Seq<char>, payload: JsonView, run: RunView },
    Wait { millis: nat, url: Seq<char>, run: RunView },
    GiveUp { millis: nat, why: Seq<char> },
    Get { url: Seq<char>, run: RunView },
    Finish(Result<OutputView, Seq<char>>),
}

impl View for QueryPhase {
    type V = PhaseView;

    open spec fn view(&self) -> PhaseView {
        match self {
            QueryPhase::Submitted => PhaseView::Submitted,
            QueryPhase::Polling { polls } => PhaseView::Polling { polls: *polls as nat },
            QueryPhase::Paging { columns, rows, truncated } => PhaseView::Paging {
                columns: columns.deep_view(),
                rows: rows.deep_view(),
                truncated: *truncated,
            },
        }
    }
}

impl View for QueryRun {
    type V = RunView;

    open spec fn view(&self) -> RunView {
        RunView {
            project: self.project_id@,
            location: self.location.deep_view(),
            cap: self.cap as nat,
            job: self.job.deep_view(),
            phase: self.phase@,
        }
    }
}

impl View for QueryStep {
    type V = StepView;

    open spec fn view(&self) -> StepView {
        match self {
            QueryStep::Post { url, payload, run } => StepView::Post {
                url: url@,
                payload: payload@,
                run: run@,
            },
            QueryStep::Wait { millis, url, run } => StepView::Wait {
                millis: *millis as nat,
                url: url@,
                run: run@,
            },
            QueryStep::GiveUp { millis, why } => StepView::GiveUp {
                millis: *millis as nat,
                why: why@,
            },
            QueryStep::Get { url, run } => StepView::Get { url: url@, run: run@ },
            QueryStep::Finish(result) => StepView::Finish(outcome(*result)),
        }
    }
}

/// Whether an answer is that of a job that is done.
pub open spec fn job_complete(value: JsonView) -> bool {
    match value.member("jobComplete"@) {
        Some(flag) => flag.as_bool() != Some(false),
        None => true,
    }
}

impl RunView {
    /// Where the next answer to this query comes from.
    pub open spec fn next_address(self, token: Option<Seq<char>>) -> Result<Seq<char>, Seq<char>> {
        results_address(self.project, self.location, self.job, token, self.cap)
    }

    /// After `rows` were read: the next page, while rows are wanted and there is one.
    pub open spec fn turn_page(
        self,
        columns: Seq<Seq<char>>,
        rows: Seq<Seq<JsonView>>,
        truncated: bool,
        token: Option<Seq<char>>,
    ) -> StepView {
        if token is Some && rows.len() < self.cap {
            match self.next_address(token) {
                Ok(url) => StepView::Get {
                    url,
                    run: RunView { phase: PhaseView::Paging { columns, rows, truncated }, ..self },
                },
                Err(why) => StepView::Finish(Err(why)),
            }
        } else {
            StepView::Finish(Ok((columns, rows, truncated || token is Some)))
        }
    }

    /// After an answer that may be that of a job still at work, asked for `polls` times.
    pub open spec fn settle(self, value: JsonView, polls: nat) -> StepView {
        if !job_complete(value) && polls < POLL_LIMIT {
            match self.next_address(None) {
                Ok(url) => StepView::Wait {
                    millis: POLL_MILLIS as nat,
                    url,
                    run: RunView { phase: PhaseView::Polling { polls: polls + 1 }, ..self },
                },
                Err(why) => StepView::GiveUp { millis: POLL_MILLIS as nat, why },
            }
        } else {
            self.turn_page(
                page_columns(value),
                page_rows(value, self.cap),
                page_truncated(value, self.cap),
                page_token(value),
            )
        }
    }

    /// What follows when an answer comes in, or fails to.
    pub open spec fn resumed(self, reply: Result<JsonView, Seq<char>>) -> StepView {
        match reply {
            Err(why) => StepView::Finish(Err(why)),
            Ok(value) => match first_error(value) {
                Some(message) => StepView::Finish(Err(message)),
                None => match self.phase {
                    PhaseView::Submitted => RunView {
                        job: value.member("jobReference"@),
                        ..self
                    }.settle(value, 0),
                    PhaseView::Polling { polls } => self.settle(value, polls),
                    PhaseView::Paging { columns, rows, truncated } => {
                        let wanted = (self.cap - rows.len()) as nat;
                        self.turn_page(
                            columns,
                            rows + page_rows(value, wanted),
                            truncated || page_truncated(value, wanted),
                            page_token(value),
                        )
                    },
                },
            },
        }
    }

    /// A query that has polled no more often, and read no more rows, than it may.
    pub open spec fn in_bounds(self) -> bool {
        match self.phase {
            PhaseView::Submitted => true,
            PhaseView::Polling { polls } => 0 < polls <= POLL_LIMIT,
            PhaseView::Paging { rows, .. } => rows.len() < self.cap,
        }
    }
}

/// A query as it is submitted.
pub open spec fn submitted(project: Seq<char>, location: Option<Seq<char>>, cap: nat) -> RunView {
    RunView { project, location, cap, job: None, phase: PhaseView::Submitted }
}

/// The first step of a query that wants at most `cap` rows.
pub open spec fn first_step(
    project: Seq<char>,
    location: Option<Seq<char>>,
    sql: Seq<char>,
    cap: nat,
) -> StepView {
    StepView::Post {
        url: queries_address(project),
        payload: query_document(sql, cap, location),
        run: submitted(project, location, cap),
    }
}

impl QueryRun {
    /// The first step of a query that wants at most `cap` rows.
    pub fn run_query(project_id: &str, location: Option<&str>, sql: &str, cap: usize) -> (step:
        QueryStep)
        ensures
            step@ == first_step(project_id@, location.deep_view(), sql@, cap as nat),
            step@.in_bounds(cap as nat),
    {
        let run = QueryRun {
            project_id: project_id.to_owned(),
            location: owned(location),
            cap,
            job: None,
            phase: QueryPhase::Submitted,
        };
        QueryStep::Post {
            url: queries_url(project_id),
            payload: query_payload(sql, cap, location),
            run,
        }
    }

    fn next_url(&self, token: Option<&str>) -> (url: Result<String, String>)
        ensures
            outcome(url) == self@.next_address(token.deep_view()),
    {
        let place: Option<&str> = match &self.location {
            Some(place) => Some(place.as_str()),
            None => None,
        };
        get_query_results(self.project_id.as_str(), place, self.job.as_ref(), token, self.cap)
    }

    fn turn_page(
        self,
        columns: Vec<String>,
        rows: QueryRows,
        truncated: bool,
        token: Option<String>,
    ) -> (step: QueryStep)
        ensures
            step@ == self@.turn_page(
                columns.deep_view(),
                rows.deep_view(),
                truncated,
                token.deep_view(),
            ),
    {
        assert(rows.len() == rows.deep_view().len());
        match token {
            Some(t) => if rows.len() < self.cap {
                match self.next_url(Some(t.as_str())) {
                    Ok(url) => QueryStep::Get {
                        url,
                        run: QueryRun {
                            project_id: self.project_id,
                            location: self.location,
                            cap: self.cap,
                            job: self.job,
                            phase: QueryPhase::Paging { columns, rows, truncated },
                        },
                    },
                    Err(why) => QueryStep::Finish(Err(why)),
                }
            } else {
                QueryStep::Finish(Ok((columns, rows, true)))
            },
            None => QueryStep::Finish(Ok((columns, rows, truncated))),
        }
    }

    fn settle(self, value: &Json, polls: usize) -> (step: QueryStep)
        ensures
            step@ == self@.settle(value@, polls as nat),
    {
        let complete = match value.member("jobComplete") {
            Some(flag) => match flag.as_bool() {
                Some(done) => done,
                None => true,
            },
            None => true,
        };
        if !complete && polls < POLL_LIMIT {
            match self.next_url(None) {
                Ok(url) => QueryStep::Wait {
                    millis: POLL_MILLIS,
                    url,
                    run: QueryRun {
                        project_id: self.project_id,
                        location: self.location,
                        cap: self.cap,
                        job: self.job,
                        phase: QueryPhase::Polling { polls: polls + 1 },
                    },
                },
                Err(why) => QueryStep::GiveUp { millis: POLL_MILLIS, why },
            }
        } else {
            let (columns, rows, truncated, token) = parse_query_response(value, self.cap);
            self.turn_page(columns, rows, truncated, token)
        }
    }

    /// What to do next, now that an answer has come in, or has failed to.
    pub fn resume(self, reply: Result<Json, String>) -> (step: QueryStep)
        requires
            self@.in_bounds(),
        ensures
            step@ == self@.resumed(outcome(reply)),
            step@.in_bounds(self@.cap),
    {
        let value = match reply {
            Ok(value) => value,
            Err(why) => return QueryStep::Finish(Err(why)),
        };
        if let Some(message) = query_error(&value) {
            return QueryStep::Finish(Err(message));
        }
        match self.phase {
            QueryPhase::Submitted => {
                let job: Option<Json> = match value.member("jobReference") {
                    Some(reference) => Some(reference.clone()),
                    None => None,
                };
                let run = QueryRun {
                    project_id: self.project_id,
                    location: self.location,
                    cap: self.cap,
                    job,
                    phase: QueryPhase::Submitted,
                };
                run.settle(&value, 0)
            },
            QueryPhase::Polling { polls } => {
                let run = QueryRun {
                    project_id: self.project_id,
                    location: self.location,
                    cap: self.cap,
                    job: self.job,
                    phase: QueryPhase::Polling { polls },
                };
                run.settle(&value, polls)
            },
            QueryPhase::Paging { columns, rows, truncated } => {
                let mut rows = rows;
                let ghost before = rows.deep_view();
                assert(rows.len() == rows.deep_view().len());
                let wanted: usize = self.cap - rows.len();
                let (_, mut more, also, token) = parse_query_response(&value, wanted);
                let ghost page = more.deep_view();
                rows.append(&mut more);
                assert(rows.deep_view() =~= before + page);
                let run = QueryRun {
                    project_id: self.project_id,
                    location: self.location,
                    cap: self.cap,
                    job: self.job,
                    phase: QueryPhase::Submitted,
                };
                run.turn_page(columns, rows, truncated || also, token)
            },
        }
    }
}

// ---------------------------------------------------------------------- laws

impl StepView {
    /// The query that waits for an answer after this step, if one does.
    pub open spec fn waiting(self) -> Option<RunView> {
        match self {
            StepView::Post { run, .. } => Some(run),
            StepView::Wait { run, .. } => Some(run),
            StepView::Get { run, .. } => Some(run),
            StepView::GiveUp { .. } => None,
            StepView::Finish(_) => None,
        }
    }

    /// Where a query is after these answers, one for each step that waits for one.
    pub open spec fn after(self, replies: Seq<Result<JsonView, Seq<char>>>) -> StepView
        decreases replies.len(),
    {
        match self.waiting() {
            Some(run) => if replies.len() == 0 {
                self
            } else {
                run.resumed(replies[0]).after(replies.drop_first())
            },
            None => self,
        }
    }

    /// How many of the steps that these answers lead through are waits.
    pub open spec fn waits(self, replies: Seq<Result<JsonView, Seq<char>>>) -> nat
        decreases replies.len(),
    {
        let here: nat = if self is Wait || self is GiveUp {
            1
        } else {
            0
        };
        match self.waiting() {
            Some(run) => if replies.len() == 0 {
                here
            } else {
                here + run.resumed(replies[0]).waits(replies.drop_first())
            },
            None => here,
        }
    }

    /// A step of a query for at most `cap` rows that keeps to its bounds.
    pub open spec fn in_bounds(self, cap: nat) -> bool {
        match self {
            StepView::Finish(Ok(output)) => output.1.len() <= cap,
            StepView::Finish(Err(_)) => true,
            StepView::GiveUp { .. } => true,
            StepView::Wait { run, .. } => run.cap == cap && run.in_bounds() && run.phase is Polling,
            StepView::Get { run, .. } => run.cap == cap && run.in_bounds() && run.phase is Paging,
            StepView::Post { run, .. } => run.cap == cap && run.phase is Submitted,
        }
    }
}

/// An answer leads from a query within its bounds to a step within them.
pub proof fn an_answer_keeps_the_bounds(run: RunView, reply: Result<JsonView, Seq<char>>)
    requires
        run.in_bounds(),
    ensures
        run.resumed(reply).in_bounds(run.cap),
{
}

/// Whatever answers come in, a query never reads more than `cap` rows.
pub proof fn a_query_reads_at_most_cap_rows(
    step: StepView,
    cap: nat,
    replies: Seq<Result<JsonView, Seq<char>>>,
)
    requires
        step.in_bounds(cap),
    ensures
        step.after(replies).in_bounds(cap),
    decreases replies.len(),
{
    match step.waiting() {
        Some(run) => {
            if replies.len() > 0 {
                an_answer_keeps_the_bounds(run, replies[0]);
                a_query_reads_at_most_cap_rows(
                    run.resumed(replies[0]),
                    cap,
                    replies.drop_first(),
                );
            }
        },
        None => {},
    }
}

/// How many more times a query may wait.
pub open spec fn waits_left(step: StepView) -> nat {
    match step {
        StepView::Post { .. } => POLL_LIMIT as nat,
        StepView::Wait { run, .. } => match run.phase {
            PhaseView::Polling { polls } => (POLL_LIMIT - polls + 1) as nat,
            _ => 0,
        },
        StepView::GiveUp { .. } => 1,
        _ => 0,
    }
}

/// Whatever answers come in, a query waits for its job a bounded number of times.
pub proof fn a_query_waits_a_bounded_number_of_times(
    step: StepView,
    cap: nat,
    replies: Seq<Result<JsonView, Seq<char>>>,
)
    requires
        step.in_bounds(cap),
    ensures
        step.waits(replies) <= waits_left(step) <= POLL_LIMIT,
    decreases replies.len(),
{
    match step.waiting() {
        Some(run) => {
            if replies.len() > 0 {
                an_answer_keeps_the_bounds(run, replies[0]);
                a_query_waits_a_bounded_number_of_times(
                    run.resumed(replies[0]),
                    cap,
                    replies.drop_first(),
                );
            }
        },
        None => {},
    }
}

/// A failure ends a query with its reason, and an answer that lists errors ends
/// it with the message of the first, however far the query has come.
pub proof fn an_error_ends_a_query(run: RunView, reply: Result<JsonView, Seq<char>>)
    ensures
        (reply matches Err(why) ==> run.resumed(reply) == StepView::Finish(Err(why))),
        (reply matches Ok(value) ==> (first_error(value) matches Some(message) ==> run.resumed(reply)
            == StepView::Finish(Err(message)))),
{
}

/// All rows of an answer.
pub open spec fn every_row(value: JsonView) -> Seq<Seq<JsonView>> {
    match value.array_member("rows"@) {
        Some(rows) => page_rows(value, rows.len()),
        None => Seq::empty(),
    }
}

/// All rows of answers, in order.
pub open spec fn gathered(pages: Seq<JsonView>) -> Seq<Seq<JsonView>>
    decreases pages.len(),
{
    if pages.len() == 0 {
        Seq::empty()
    } else {
        every_row(pages[0]) + gathered(pages.drop_first())
    }
}

/// The first `cap` of some rows, or all of them where there are fewer.
pub open spec fn cut(rows: Seq<Seq<JsonView>>, cap: nat) -> Seq<Seq<JsonView>> {
    if rows.len() < cap {
        rows
    } else {
        rows.take(cap as int)
    }
}

/// Answers without errors, each but the last of which says where the next is.
pub open spec fn chained(pages: Seq<JsonView>) -> bool {
    &&& pages.len() > 0
    &&& forall|i: int| 0 <= i < pages.len() ==> first_error(#[trigger] pages[i]) is None
    &&& forall|i: int|
        0 <= i < pages.len() ==> (page_token(#[trigger] pages[i]) is Some <==> i < pages.len() - 1)
}

/// Answers as they come in.
pub open spec fn arriving(pages: Seq<JsonView>) -> Seq<Result<JsonView, Seq<char>>> {
    Seq::new(pages.len(), |i: int| Ok(pages[i]))
}

proof fn a_page_is_cut_from_its_rows(value: JsonView, cap: nat)
    ensures
        page_rows(value, cap) == cut(every_row(value), cap),
{
    assert(page_rows(value, cap) =~= cut(every_row(value), cap));
}

proof fn rest_of_chain(pages: Seq<JsonView>)
    requires
        chained(pages),
        pages.len() > 1,
    ensures
        chained(pages.drop_first()),
        arriving(pages).drop_first() == arriving(pages.drop_first()),
{
    let rest = pages.drop_first();
    assert forall|i: int| 0 <= i < rest.len() implies first_error(#[trigger] rest[i]) is None by {
        assert(rest[i] == pages[i + 1]);
    }
    assert forall|i: int| 0 <= i < rest.len() implies (page_token(#[trigger] rest[i]) is Some <==> i
        < rest.len() - 1) by {
        assert(rest[i] == pages[i + 1]);
    }
    assert(arriving(pages).drop_first() =~= arriving(rest));
}

/// Paging through the answers that are left.
proof fn paging_gathers(
    url: Seq<char>,
    run: RunView,
    columns: Seq<Seq<char>>,
    rows: Seq<Seq<JsonView>>,
    pages: Seq<JsonView>,
)
    requires
        chained(pages),
        run.phase == (PhaseView::Paging { columns, rows, truncated: true }),
        rows.len() < run.cap,
        forall|t: Seq<char>| #[trigger] run.next_address(Some(t)) is Ok,
    ensures
        (StepView::Get { url, run }).after(arriving(pages)) == StepView::Finish(
            Ok((columns, cut(rows + gathered(pages), run.cap), true)),
        ),
    decreases pages.len(),
{
    let step = StepView::Get { url, run };
    let page = pages[0];
    let wanted = (run.cap - rows.len()) as nat;
    let read = rows + page_rows(page, wanted);
    a_page_is_cut_from_its_rows(page, wanted);
    assert(read =~= cut(rows + every_row(page), run.cap));
    let rest = pages.drop_first();
    assert(rows + gathered(pages) =~= (rows + every_row(page)) + gathered(rest));
    let next = run.resumed(Ok(page));
    assert(arriving(pages)[0] == Ok::<JsonView, Seq<char>>(page));
    assert(step.after(arriving(pages)) == next.after(arriving(pages).drop_first()));
    if pages.len() == 1 {
        assert(gathered(rest) =~= Seq::empty());
        assert(read =~= cut(rows + gathered(pages), run.cap));
    } else if read.len() < run.cap {
        rest_of_chain(pages);
        let token = page_token(page)->0;
        assert(run.next_address(Some(token)) is Ok);
        let further = RunView {
            phase: PhaseView::Paging { columns, rows: read, truncated: true },
            ..run
        };
        assert forall|t: Seq<char>| #[trigger] further.next_address(Some(t)) is Ok by {
            assert(further.next_address(Some(t)) == run.next_address(Some(t)));
        }
        paging_gathers(run.next_address(Some(token))->Ok_0, further, columns, read, rest);
    } else {
        assert(read =~= cut(rows + gathered(pages), run.cap));
    }
}

/// What a query ends with that reads these pages.
pub open spec fn put_together(pages: Seq<JsonView>, cap: nat) -> OutputView {
    (
        page_columns(pages[0]),
        cut(gathered(pages), cap),
        pages.len() > 1 || page_truncated(pages[0], cap),
    )
}

/// From the first page on, a query reads all pages.
proof fn settling_gathers(run: RunView, pages: Seq<JsonView>, polls: nat)
    requires
        chained(pages),
        job_complete(pages[0]) || polls >= POLL_LIMIT,
        forall|t: Seq<char>| #[trigger] run.next_address(Some(t)) is Ok,
    ensures
        run.settle(pages[0], polls).after(arriving(pages).drop_first()) == StepView::Finish(
            Ok(put_together(pages, run.cap)),
        ),
{
    let page = pages[0];
    let read = page_rows(page, run.cap);
    let rest = pages.drop_first();
    a_page_is_cut_from_its_rows(page, run.cap);
    if pages.len() == 1 {
        assert(gathered(rest) =~= Seq::empty());
        assert(gathered(pages) =~= every_row(page));
    } else if read.len() < run.cap {
        rest_of_chain(pages);
        let token = page_token(page)->0;
        let further = RunView {
            phase: PhaseView::Paging {
                columns: page_columns(page),
                rows: read,
                truncated: true,
            },
            ..run
        };
        assert(run.next_address(Some(token)) is Ok);
        assert forall|t: Seq<char>| #[trigger] further.next_address(Some(t)) is Ok by {
            assert(further.next_address(Some(t)) == run.next_address(Some(t)));
        }
        paging_gathers(
            run.next_address(Some(token))->Ok_0,
            further,
            page_columns(page),
            read,
            rest,
        );
        assert(read =~= every_row(page));
    } else {
        assert(read =~= cut(gathered(pages), run.cap));
    }
}

/// Answers of a job that is still at work, without errors.
pub open spec fn still_at_work(answers: Seq<JsonView>) -> bool {
    &&& forall|i: int| 0 <= i < answers.len() ==> first_error(#[trigger] answers[i]) is None
    &&& forall|i: int| 0 <= i < answers.len() ==> !job_complete(#[trigger] answers[i])
}

/// From an answer of a job at work on, a query waits for the pages and reads them.
proof fn waiting_gathers(
    run: RunView,
    idle: Seq<JsonView>,
    pages: Seq<JsonView>,
    polls: nat,
)
    requires
        chained(pages),
        still_at_work(idle),
        polls + idle.len() <= POLL_LIMIT,
        job_complete(pages[0]) || polls + idle.len() == POLL_LIMIT,
        run.next_address(None) is Ok,
        forall|t: Seq<char>| #[trigger] run.next_address(Some(t)) is Ok,
    ensures
        run.settle((idle + pages)[0], polls).after(arriving(idle + pages).drop_first())
            == StepView::Finish(Ok(put_together(pages, run.cap))),
    decreases idle.len(),
{
    if idle.len() == 0 {
        assert(idle + pages =~= pages);
        settling_gathers(run, pages, polls);
    } else {
        let all = idle + pages;
        let rest = idle.drop_first();
        assert(all.drop_first() =~= rest + pages);
        assert(arriving(all).drop_first() =~= arriving(rest + pages));
        assert(all[0] == idle[0]);
        assert forall|i: int| 0 <= i < rest.len() implies first_error(#[trigger] rest[i]) is None
            && !job_complete(rest[i]) by {
            assert(rest[i] == idle[i + 1]);
        }
        let further = RunView { phase: PhaseView::Polling { polls: polls + 1 }, ..run };
        assert(further.next_address(None) == run.next_address(None));
        assert forall|t: Seq<char>| #[trigger] further.next_address(Some(t)) is Ok by {
            assert(further.next_address(Some(t)) == run.next_address(Some(t)));
        }
        waiting_gathers(further, rest, pages, polls + 1);
        let next = (rest + pages)[0];
        assert(first_error(next) is None) by {
            if rest.len() > 0 {
                assert(next == rest[0]);
            } else {
                assert(next == pages[0]);
            }
        }
        assert(arriving(rest + pages)[0] == Ok::<JsonView, Seq<char>>(next));
        let step = StepView::Wait {
            millis: POLL_MILLIS as nat,
            url: run.next_address(None)->Ok_0,
            run: further,
        };
        assert(run.settle(all[0], polls) == step);
        assert(step.after(arriving(rest + pages)) == further.resumed(Ok(next)).after(
            arriving(rest + pages).drop_first(),
        ));
    }
}

/// The pages of a query are read in order and put together, up to `cap` rows.
///
/// The service names its job in its first answer, says in none or more answers,
/// as many as the query may poll for, that the job is still at work, and then
/// answers page after page without an error. Such a query ends with the columns
/// of the first page, with the first `cap` of all the rows, and with the word
/// that rows are missing where there was more than one page, or where the only
/// page says so.
pub proof fn pages_are_put_together(
    project: Seq<char>,
    location: Option<Seq<char>>,
    sql: Seq<char>,
    cap: nat,
    idle: Seq<JsonView>,
    pages: Seq<JsonView>,
)
    requires
        chained(pages),
        still_at_work(idle),
        idle.len() <= POLL_LIMIT,
        job_complete(pages[0]) || idle.len() == POLL_LIMIT,
        ((idle + pages)[0].member("jobReference"@) matches Some(job) && job.text_member(
            "jobId"@,
        ) is Some),
    ensures
        first_step(project, location, sql, cap).after(arriving(idle + pages)) == StepView::Finish(
            Ok(put_together(pages, cap)),
        ),
{
    let first = (idle + pages)[0];
    let run = RunView {
        job: first.member("jobReference"@),
        ..submitted(project, location, cap)
    };
    assert(arriving(idle + pages)[0] == Ok::<JsonView, Seq<char>>(first));
    assert(first_error(first) is None) by {
        if idle.len() > 0 {
            assert(first == idle[0]);
        } else {
            assert(first == pages[0]);
        }
    }
    waiting_gathers(run, idle, pages, 0);
    assert(submitted(project, location, cap).resumed(Ok(first)) == run.settle(first, 0));
}

/// A page that is the only one, without an error, is what its query ends with,
/// though the service names no job.
pub proof fn a_single_page_needs_no_job(
    project: Seq<char>,
    location: Option<Seq<char>>,
    sql: Seq<char>,
    cap: nat,
    page: JsonView,
)
    requires
        first_error(page) is None,
        job_complete(page),
        page_token(page) is None,
    ensures
        first_step(project, location, sql, cap).after(arriving(seq![page])) == StepView::Finish(
            Ok((page_columns(page), page_rows(page, cap), page_truncated(page, cap))),
        ),
{
    reveal_with_fuel(StepView::after, 2);
    assert(arriving(seq![page])[0] == Ok::<JsonView, Seq<char>>(page));
}

/// The steps of a query, one after the other, where each request is answered by
/// what the service has at its URL.
pub open spec fn served(
    step: StepView,
    service: spec_fn(Seq<char>) -> JsonView,
    exchanges: nat,
) -> StepView
    decreases exchanges,
{
    if exchanges == 0 {
        step
    } else {
        match step {
            StepView::Wait { url, run, .. } => served(
                run.resumed(Ok(service(url))),
                service,
                (exchanges - 1) as nat,
            ),
            StepView::Get { url, run } => served(
                run.resumed(Ok(service(url))),
                service,
                (exchanges - 1) as nat,
            ),
            _ => step,
        }
    }
}

/// A query is posted to its project as it was given, for rows up to the limit of
/// a page, and where the connection says.
pub proof fn a_query_is_posted_as_it_was_given(
    project: Seq<char>,
    location: Option<Seq<char>>,
    sql: Seq<char>,
    cap: nat,
)
    ensures
        (first_step(project, location, sql, cap) matches StepView::Post { url, payload, run } && {
            &&& url == "https://bigquery.googleapis.com/bigquery/v2/projects/"@ + project
                + "/queries"@
            &&& payload.text_member("query"@) == Some(sql)
            &&& payload.member("useLegacySql"@) == Some(JsonView::Bool(false))
            &&& payload.member("maxResults"@) == Some(
                JsonView::Number(
                    decimal(
                        if cap <= 10_000 {
                            cap
                        } else {
                            10_000
                        },
                    ),
                ),
            )
            &&& payload.member("timeoutMs"@) == Some(JsonView::Number(decimal(30_000)))
            &&& payload.text_member("location"@) == location
            &&& run.project == project
            &&& run.location == location
            &&& run.cap == cap
        }),
{
    reveal_strlit("query");
    reveal_strlit("useLegacySql");
    reveal_strlit("maxResults");
    reveal_strlit("timeoutMs");
    reveal_strlit("location");
    let payload = query_document(sql, cap, location);
    let members = payload->Object_0;
    assert("maxResults"@.len() == 10 && "useLegacySql"@.len() == 12);
    assert("query"@.len() == 5 && "timeoutMs"@.len() == 9 && "location"@.len() == 8);
    a_member_is_found_by_its_name(members, "query"@, 0);
    a_member_is_found_by_its_name(members, "useLegacySql"@, 1);
    a_member_is_found_by_its_name(members, "maxResults"@, 2);
    a_member_is_found_by_its_name(members, "timeoutMs"@, 3);
    if location is Some {
        a_member_is_found_by_its_name(members, "location"@, 4);
    } else {
        what_is_not_named_is_not_found(payload, "location"@);
    }
}

/// Whenever a query asks for a further page, it does so after an answer that says
/// where that page is, and asks for it by the token of that very answer, be it
/// the first page or a later one: at the results of its job, where the job runs
/// or else where the connection says. What the query wants stays the same.
pub proof fn a_further_page_is_asked_for_by_its_token(run: RunView, value: JsonView)
    ensures
        ({
            let job = if run.phase is Submitted {
                value.member("jobReference"@)
            } else {
                run.job
            };
            run.resumed(Ok(value)) matches StepView::Get { url, run: next } ==> {
                &&& value.text_member("pageToken"@) is Some
                &&& job is Some
                &&& job->0.text_member("jobId"@) is Some
                &&& url == "https://bigquery.googleapis.com/bigquery/v2/projects/"@ + run.project
                    + "/queries/"@ + job->0.text_member("jobId"@)->0 + "?maxResults="@ + decimal(
                    if run.cap <= 10_000 {
                        run.cap
                    } else {
                        10_000
                    },
                ) + (match (job->0.text_member("location"@), run.location) {
                    (Some(place), _) => "&location="@ + place,
                    (None, Some(place)) => "&location="@ + place,
                    (None, None) => Seq::empty(),
                }) + ("&pageToken="@ + value.text_member("pageToken"@)->0)
                &&& next.job == job
                &&& next.project == run.project
                &&& next.location == run.location
                &&& next.cap == run.cap
            }
        }),
{
    let job = if run.phase is Submitted {
        value.member("jobReference"@)
    } else {
        run.job
    };
    if let StepView::Get { url, .. } = run.resumed(Ok(value)) {
        let token = value.text_member("pageToken"@)->0;
        let base = "https://bigquery.googleapis.com/bigquery/v2/projects/"@ + run.project
            + "/queries/"@ + job->0.text_member("jobId"@)->0 + "?maxResults="@ + decimal(
            if run.cap <= 10_000 {
                run.cap
            } else {
                10_000
            },
        );
        match (job->0.text_member("location"@), run.location) {
            (Some(place), _) => {
                assert(url =~= base + ("&location="@ + place) + ("&pageToken="@ + token));
            },
            (None, Some(place)) => {
                assert(url =~= base + ("&location="@ + place) + ("&pageToken="@ + token));
            },
            (None, None) => {
                assert(url =~= base + Seq::empty() + ("&pageToken="@ + token));
            },
        }
    }
}

/// While a job says that it is not complete it is asked for again, half a second
/// later, at its results and without a token, up to the limit; a job that cannot
/// be named cannot be asked for. In every other case the answer is read as a page.
pub proof fn a_job_is_asked_for_until_it_is_complete(run: RunView, value: JsonView)
    requires
        first_error(value) is None,
        !(run.phase is Paging),
    ensures
        ({
            let job = if run.phase is Submitted {
                value.member("jobReference"@)
            } else {
                run.job
            };
            let asked = match run.phase {
                PhaseView::Polling { polls } => polls,
                _ => 0,
            };
            let named = job is Some && job->0.text_member("jobId"@) is Some;
            let at_work = value.member("jobComplete"@) == Some(JsonView::Bool(false)) && asked
                < 120;
            let next = run.resumed(Ok(value));
            &&& at_work && named ==> (next matches StepView::Wait { millis, url, run: further } && {
                &&& millis == 500
                &&& url == "https://bigquery.googleapis.com/bigquery/v2/projects/"@ + run.project
                    + "/queries/"@ + job->0.text_member("jobId"@)->0 + "?maxResults="@ + decimal(
                    if run.cap <= 10_000 {
                        run.cap
                    } else {
                        10_000
                    },
                ) + (match (job->0.text_member("location"@), run.location) {
                    (Some(place), _) => "&location="@ + place,
                    (None, Some(place)) => "&location="@ + place,
                    (None, None) => Seq::empty(),
                })
                &&& further.job == job
                &&& further.project == run.project
                &&& further.location == run.location
                &&& further.cap == run.cap
                &&& further.phase == (PhaseView::Polling { polls: asked + 1 })
            })
            &&& at_work && !named ==> next == (StepView::GiveUp {
                millis: 500,
                why: "BigQuery response missing jobReference.jobId."@,
            })
            &&& !at_work ==> next is Get || next is Finish
        }),
{
    let job = if run.phase is Submitted {
        value.member("jobReference"@)
    } else {
        run.job
    };
    if let StepView::Wait { url, .. } = run.resumed(Ok(value)) {
        let base = "https://bigquery.googleapis.com/bigquery/v2/projects/"@ + run.project
            + "/queries/"@ + job->0.text_member("jobId"@)->0 + "?maxResults="@ + decimal(
            if run.cap <= 10_000 {
                run.cap
            } else {
                10_000
            },
        );
        match (job->0.text_member("location"@), run.location) {
            (Some(place), _) => {
                assert(url =~= base + ("&location="@ + place));
            },
            (None, Some(place)) => {
                assert(url =~= base + ("&location="@ + place));
            },
            (None, None) => {
                assert(url =~= base + Seq::empty());
            },
        }
    }
}

/// A page adds its rows behind those before it, never more than are wanted, and
/// leaves the columns of the first page. A query goes on to the next page while
/// there is one and rows are wanted, and is over otherwise; it says that rows are
/// missing where any of its pages said so, or where a page was left unread.
pub proof fn a_page_adds_its_rows(run: RunView, value: JsonView)
    requires
        first_error(value) is None,
        run.in_bounds(),
        run.phase is Paging || value.member("jobComplete"@) != Some(JsonView::Bool(false))
            || run.phase == (PhaseView::Polling { polls: 120 }),
    ensures
        ({
            let (columns, before, missing) = match run.phase {
                PhaseView::Paging { columns, rows, truncated } => (columns, rows, truncated),
                _ => (page_columns(value), Seq::empty(), false),
            };
            let wanted = (run.cap - before.len()) as nat;
            let rows = before + page_rows(value, wanted);
            let said = missing || page_truncated(value, wanted);
            let token = value.text_member("pageToken"@);
            match run.resumed(Ok(value)) {
                StepView::Get { run: next, .. } => token is Some && rows.len() < run.cap
                    && next.phase == (PhaseView::Paging { columns, rows, truncated: said }),
                StepView::Finish(Ok(output)) => (token is None || rows.len() >= run.cap)
                    && output.0 == columns && output.1 == rows && output.2 == said,
                StepView::Finish(Err(why)) => token is Some && why
                    == "BigQuery response missing jobReference.jobId."@,
                _ => false,
            }
        }),
{
    assert(Seq::<Seq<JsonView>>::empty() + page_rows(value, run.cap) =~= page_rows(
        value,
        run.cap,
    ));
}

/// Where the page after `page` of a query is.
spec fn page_url(run: RunView, job: JsonView, page: JsonView) -> Seq<char> {
    "https://bigquery.googleapis.com/bigquery/v2/projects/"@ + run.project + "/queries/"@
        + job.text_member("jobId"@)->0 + "?maxResults="@ + decimal(
        if run.cap <= 10_000 {
            run.cap
        } else {
            10_000
        },
    ) + (match (job.text_member("location"@), run.location) {
        (Some(place), _) => "&location="@ + place,
        (None, Some(place)) => "&location="@ + place,
        (None, None) => Seq::empty(),
    }) + ("&pageToken="@ + page.text_member("pageToken"@)->0)
}

/// What a service gives page by page is what comes in.
proof fn pages_are_served(
    step: StepView,
    service: spec_fn(Seq<char>) -> JsonView,
    job: JsonView,
    last: JsonView,
    pages: Seq<JsonView>,
    origin: RunView,
)
    requires
        chained(pages),
        (step matches StepView::Get { url, run } && run.phase is Paging && run.job == Some(job)
            && run.project == origin.project && run.location == origin.location && run.cap
            == origin.cap && url == page_url(origin, job, last)),
        service(page_url(origin, job, last)) == pages[0],
        forall|i: int|
            0 <= i < pages.len() - 1 ==> service(page_url(origin, job, #[trigger] pages[i]))
                == pages[i + 1],
    ensures
        served(step, service, pages.len()) == step.after(arriving(pages)),
    decreases pages.len(),
{
    let run = step->Get_run;
    let page = pages[0];
    let next = run.resumed(Ok(page));
    assert(arriving(pages)[0] == Ok::<JsonView, Seq<char>>(page));
    assert(step.after(arriving(pages)) == next.after(arriving(pages).drop_first()));
    assert(served(step, service, pages.len()) == served(
        next,
        service,
        (pages.len() - 1) as nat,
    ));
    if pages.len() > 1 {
        rest_of_chain(pages);
        let rest = pages.drop_first();
        a_further_page_is_asked_for_by_its_token(run, page);
        if next is Get {
            assert forall|i: int| 0 <= i < rest.len() - 1 implies service(
                page_url(origin, job, #[trigger] rest[i]),
            ) == rest[i + 1] by {
                assert(rest[i] == pages[i + 1]);
            }
            assert(service(page_url(origin, job, pages[0])) == pages[1]);
            pages_are_served(next, service, job, page, rest, origin);
        }
    }
}

/// Against a service that has each page under the token of the page before it, a
/// query ends with the rows of all pages in the chain of tokens, each page once
/// and in order, up to `cap` of them.
pub proof fn each_page_is_read_once(
    project: Seq<char>,
    location: Option<Seq<char>>,
    cap: nat,
    service: spec_fn(Seq<char>) -> JsonView,
    pages: Seq<JsonView>,
    id: Seq<char>,
)
    requires
        chained(pages),
        pages[0].member("jobComplete"@) == Some(JsonView::Bool(true)),
        (pages[0].member("jobReference"@) matches Some(job) && job.text_member("jobId"@) == Some(id)
            && job.text_member("location"@) is None),
        forall|i: int|
            0 <= i < pages.len() - 1 ==> service(
                "https://bigquery.googleapis.com/bigquery/v2/projects/"@ + project + "/queries/"@
                    + id + "?maxResults="@ + decimal(
                    if cap <= 10_000 {
                        cap
                    } else {
                        10_000
                    },
                ) + (match location {
                    Some(place) => "&location="@ + place,
                    None => Seq::empty(),
                }) + ("&pageToken="@ + (#[trigger] pages[i]).text_member("pageToken"@)->0),
            ) == pages[i + 1],
    ensures
        (served(submitted(project, location, cap).resumed(Ok(pages[0])), service, pages.len())
            matches StepView::Finish(Ok(output)) && output.0 == page_columns(pages[0]) && output.1
            == cut(gathered(pages), cap)),
{
    let origin = submitted(project, location, cap);
    let page = pages[0];
    let job = page.member("jobReference"@)->0;
    let step = origin.resumed(Ok(page));
    let idle = Seq::<JsonView>::empty();
    assert(idle + pages =~= pages);
    pages_are_put_together(project, location, Seq::empty(), cap, idle, pages);
    assert(arriving(pages)[0] == Ok::<JsonView, Seq<char>>(page));
    let rest = pages.drop_first();
    assert(arriving(pages).drop_first() =~= arriving(rest));
    assert(first_step(project, location, Seq::empty(), cap).after(arriving(pages)) == step.after(
        arriving(rest),
    ));
    if pages.len() > 1 {
        rest_of_chain(pages);
        a_further_page_is_asked_for_by_its_token(origin, page);
        assert(service(page_url(origin, job, pages[0])) == pages[1]);
        assert forall|i: int| 0 <= i < rest.len() - 1 implies service(
            page_url(origin, job, #[trigger] rest[i]),
        ) == rest[i + 1] by {
            assert(rest[i] == pages[i + 1]);
        }
        if step is Get {
            pages_are_served(step, service, job, page, rest, origin);
            served_to_the_end(step, service, rest.len());
        }
    }
}

/// Once a query is over, further exchanges change nothing.
proof fn served_to_the_end(
    step: StepView,
    service: spec_fn(Seq<char>) -> JsonView,
    exchanges: nat,
)
    requires
        served(step, service, exchanges) is Finish,
    ensures
        served(step, service, exchanges + 1) == served(step, service, exchanges),
    decreases exchanges,
{
    if exchanges > 0 {
        match step {
            StepView::Wait { url, run, .. } => {
                served_to_the_end(
                    run.resumed(Ok(service(url))),
                    service,
                    (exchanges - 1) as nat,
                );
            },
            StepView::Get { url, run } => {
                served_to_the_end(
                    run.resumed(Ok(service(url))),
                    service,
                    (exchanges - 1) as nat,
                );
            },
            _ => {},
        }
    }
}

/// The steps that a query takes are the ones that these laws speak of.
pub proof fn a_query_takes_these_steps(
    project: &str,
    location: Option<&str>,
    sql: &str,
    cap: usize,
    run: QueryRun,
    reply: Result<Json, String>,
    step: QueryStep,
)
    ensures
        call_ensures(QueryRun::run_query, (project, location, sql, cap), step) ==> step@
            == first_step(project@, location.deep_view(), sql@, cap as nat),
        call_ensures(QueryRun::resume, (run, reply), step) ==> step@ == run@.resumed(
            outcome(reply),
        ),
{
}

/// A query and its steps are told by what they hold, field by field.
pub proof fn a_query_is_told_by_what_it_holds(run: QueryRun, step: QueryStep)
    ensures
        run@.project == run.project_id@,
        run@.location == run.location.deep_view(),
        run@.cap == run.cap,
        run@.job == run.job.deep_view(),
        (match run.phase {
            QueryPhase::Submitted => run@.phase is Submitted,
            QueryPhase::Polling { polls } => run@.phase == (PhaseView::Polling {
                polls: polls as nat,
            }),
            QueryPhase::Paging { columns, rows, truncated } => run@.phase == (PhaseView::Paging {
                columns: columns.deep_view(),
                rows: rows.deep_view(),
                truncated,
            }),
        }),
        (match step {
            QueryStep::Post { url, payload, run: next } => step@ == (StepView::Post {
                url: url@,
                payload: payload@,
                run: next@,
            }),
            QueryStep::Wait { millis, url, run: next } => step@ == (StepView::Wait {
                millis: millis as nat,
                url: url@,
                run: next@,
            }),
            QueryStep::GiveUp { millis, why } => step@ == (StepView::GiveUp {
                millis: millis as nat,
                why: why@,
            }),
            QueryStep::Get { url, run: next } => step@ == (StepView::Get {
                url: url@,
                run: next@,
            }),
            QueryStep::Finish(Ok(output)) => step@ == StepView::Finish(
                Ok((output.0.deep_view(), output.1.deep_view(), output.2)),
            ),
            QueryStep::Finish(Err(why)) => step@ == StepView::Finish(Err(why@)),
        }),
{
}

} // verus!
