//! What a project holds: its datasets, their tables, and the columns of these.

use vstd::prelude::*;
use vstd::string::*;

use crate::json::{a_member_is_found_by_its_name, outcome, Json, JsonView};
use crate::number::{
    decimal, integer, integer_reads_back, parse_i64, read_integer, to_integer,
};
use crate::order::{lookup, place, place_at, position};
use crate::query::{QueryOutput, QueryRows};
use crate::run::OutputView;
use crate::text::{
    a_mark_begins_a_piece, eq_ignore_ascii_case, lower, pieces, same_letters, stripped, without,
    without_a_mark_there_is_one_piece,
};

verus! {

/// How many columns of a dataset are asked for.
pub const COLUMN_LIMIT: usize = 10_000;

// ------------------------------------------------------------------ requests

/// Where the datasets of a project are listed.
pub open spec fn datasets_address(project: Seq<char>) -> Seq<char> {
    "https://bigquery.googleapis.com/bigquery/v2/projects/"@ + project + "/datasets"@
}

/// Where the datasets of a project are listed.
pub fn datasets_url(project_id: &str) -> (url: String)
    ensures
        url@ == datasets_address(project_id@),
{
    "https://bigquery.googleapis.com/bigquery/v2/projects/".to_owned().concat(project_id).concat(
        "/datasets",
    )
}

/// Where one dataset of a project is listed, to see whether it can be reached.
pub open spec fn probe_address(project: Seq<char>) -> Seq<char> {
    datasets_address(project) + "?maxResults=1"@
}

/// Where one dataset of a project is listed, to see whether it can be reached.
pub fn probe_url(project_id: &str) -> (url: String)
    ensures
        url@ == probe_address(project_id@),
{
    datasets_url(project_id).concat("?maxResults=1")
}

/// How many datasets an answer lists.
pub open spec fn listed(value: JsonView) -> nat {
    match value.array_member("datasets"@) {
        Some(datasets) => datasets.len(),
        None => 0,
    }
}

/// How many datasets an answer lists.
pub fn probe(value: &Json) -> (count: usize)
    ensures
        count == listed(value@),
{
    match value.array_member("datasets") {
        Some(datasets) => {
            assert(datasets.deep_view().len() == datasets.len());
            datasets.len()
        },
        None => 0,
    }
}

/// The identifier of a dataset in a list of datasets.
pub open spec fn dataset_id(dataset: JsonView) -> Option<Seq<char>> {
    match dataset.member("datasetReference"@) {
        Some(reference) => reference.text_member("datasetId"@),
        None => None,
    }
}

/// The identifiers of those datasets that have one, in order.
pub open spec fn ids_of(datasets: Seq<JsonView>) -> Seq<Seq<char>>
    decreases datasets.len(),
{
    if datasets.len() == 0 {
        Seq::empty()
    } else {
        let before = ids_of(datasets.drop_last());
        match dataset_id(datasets.last()) {
            Some(id) => before.push(id),
            None => before,
        }
    }
}

/// The identifiers of the datasets that an answer lists.
pub open spec fn listed_ids(value: JsonView) -> Seq<Seq<char>> {
    match value.array_member("datasets"@) {
        Some(datasets) => ids_of(datasets),
        None => Seq::empty(),
    }
}

/// The identifiers of the datasets that an answer lists.
pub fn dataset_ids(value: &Json) -> (ids: Vec<String>)
    ensures
        ids.deep_view() == listed_ids(value@),
{
    let mut ids: Vec<String> = Vec::new();
    if let Some(datasets) = value.array_member("datasets") {
        let ghost all = datasets.deep_view();
        let mut i: usize = 0;
        assert(ids.deep_view() =~= ids_of(all.take(0)));
        while i < datasets.len()
            invariant
                i <= datasets.len(),
                all == datasets.deep_view(),
                ids.deep_view() == ids_of(all.take(i as int)),
            decreases datasets.len() - i,
        {
            let ghost before = ids.deep_view();
            assert(all.take(i + 1).drop_last() =~= all.take(i as int));
            assert(all.take(i + 1).last() == datasets@[i as int]@);
            if let Some(reference) = datasets[i].member("datasetReference") {
                if let Some(id) = reference.text_member("datasetId") {
                    ids.push(id.to_owned());
                    assert(ids.deep_view() =~= before.push(id@));
                }
            }
            i += 1;
        }
        assert(all.take(all.len() as int) =~= all);
    }
    assert(ids.deep_view() =~= listed_ids(value@));
    ids
}

/// The query for the columns of a dataset. The name is quoted, and a quote in it
/// is dropped.
pub open spec fn columns_query(dataset: Seq<char>) -> Seq<char> {
    "SELECT table_name, column_name, data_type, ordinal_position, is_nullable FROM `"@ + stripped(
        dataset,
        '`',
    ) + "`.INFORMATION_SCHEMA.COLUMNS ORDER BY table_name, ordinal_position"@
}

/// The query for the columns of a dataset.
pub fn columns_sql(dataset: &str) -> (sql: String)
    ensures
        sql@ == columns_query(dataset@),
{
    let name = without(dataset, '`');
    let sql = "SELECT table_name, column_name, data_type, ordinal_position, is_nullable FROM `";
    sql.to_owned().concat(name.as_str()).concat(
        "`.INFORMATION_SCHEMA.COLUMNS ORDER BY table_name, ordinal_position",
    )
}

// -------------------------------------------------------------------- fields

/// Where the first column of a name is, whatever the case of its letters.
pub open spec fn column_index(columns: Seq<Seq<char>>, name: Seq<char>) -> Option<int>
    decreases columns.len(),
{
    if columns.len() == 0 {
        None
    } else if same_letters(columns[0], name) {
        Some(0)
    } else {
        match column_index(columns.drop_first(), name) {
            Some(i) => Some(i + 1),
            None => None,
        }
    }
}

/// The text that a single value is shown as.
pub open spec fn scalar_text(value: JsonView) -> Option<Seq<char>> {
    match value {
        JsonView::Text(t) => Some(t),
        JsonView::Number(n) => Some(n),
        JsonView::Bool(b) => Some(
            if b {
                "true"@
            } else {
                "false"@
            },
        ),
        _ => None,
    }
}

/// The value of a row in the column of a name, as text.
pub open spec fn field_text(
    columns: Seq<Seq<char>>,
    row: Seq<JsonView>,
    name: Seq<char>,
) -> Option<Seq<char>> {
    match column_index(columns, name) {
        Some(i) => if i < row.len() {
            scalar_text(row[i])
        } else {
            None
        },
        None => None,
    }
}

/// The value of a row in the column of a name, as text.
pub fn field(columns: &Vec<String>, row: &Vec<Json>, name: &str) -> (value: Option<String>)
    ensures
        value.deep_view() == field_text(columns.deep_view(), row.deep_view(), name@),
{
    let ghost all = columns.deep_view();
    let mut i: usize = 0;
    assert(all.skip(0) =~= all);
    while i < columns.len()
        invariant
            i <= columns.len(),
            all == columns.deep_view(),
            column_index(all, name@) == (match column_index(all.skip(i as int), name@) {
                Some(k) => Some(k + i),
                None => None,
            }),
        decreases columns.len() - i,
    {
        assert(all.skip(i as int)[0] == columns@[i as int]@);
        assert(all.skip(i as int).drop_first() =~= all.skip(i + 1));
        if eq_ignore_ascii_case(columns[i].as_str(), name) {
            assert(column_index(all, name@) == Some(i as int));
            if i < row.len() {
                assert(row.deep_view()[i as int] == row@[i as int]@);
                return match &row[i] {
                    Json::Text(t) => Some(t.clone()),
                    Json::Number(n) => Some(n.clone()),
                    Json::Bool(b) => Some(
                        if *b {
                            "true".to_owned()
                        } else {
                            "false".to_owned()
                        },
                    ),
                    _ => None,
                };
            }
            return None;
        }
        i += 1;
    }
    None
}

// ------------------------------------------------------------------- columns

/// A text that may be absent, or the empty text.
pub open spec fn or_empty(text: Option<Seq<char>>) -> Seq<char> {
    match text {
        Some(t) => t,
        None => Seq::empty(),
    }
}

/// Whether a text is a word for yes, whatever the case of its letters.
pub open spec fn says_yes(text: Seq<char>) -> bool {
    same_letters(text, "YES"@) || same_letters(text, "true"@)
}

/// Whether the column that a row describes may be null. It may unless the row
/// says otherwise.
pub open spec fn nullable(columns: Seq<Seq<char>>, row: Seq<JsonView>) -> bool {
    match field_text(columns, row, "is_nullable"@) {
        Some(text) => says_yes(text),
        None => true,
    }
}

/// The place of the column that a row describes among those of its table: the
/// one that the row names, or the one after the `count` columns before it.
pub open spec fn ordinal(columns: Seq<Seq<char>>, row: Seq<JsonView>, count: nat) -> int {
    match field_text(columns, row, "ordinal_position"@) {
        Some(text) => match read_integer(text) {
            Some(v) if i64::MIN <= v <= i64::MAX => v,
            _ => count as int + 1,
        },
        None => count as int + 1,
    }
}

/// The column that a row describes, in a table with `count` columns before it.
pub open spec fn column_document(
    columns: Seq<Seq<char>>,
    row: Seq<JsonView>,
    count: nat,
) -> JsonView {
    JsonView::Object(
        seq![
            ("name"@, JsonView::Text(or_empty(field_text(columns, row, "column_name"@)))),
            ("dataType"@, JsonView::Text(or_empty(field_text(columns, row, "data_type"@)))),
            ("nullable"@, JsonView::Bool(nullable(columns, row))),
            ("ordinal"@, JsonView::Number(integer(ordinal(columns, row, count)))),
        ],
    )
}

fn field_or_empty(columns: &Vec<String>, row: &Vec<Json>, name: &str) -> (value: String)
    ensures
        value@ == or_empty(field_text(columns.deep_view(), row.deep_view(), name@)),
{
    match field(columns, row, name) {
        Some(value) => value,
        None => String::new(),
    }
}

/// The column that a row describes, in a table with `count` columns before it.
pub fn column_json(columns: &Vec<String>, row: &Vec<Json>, count: usize) -> (column: Json)
    ensures
        column@ == column_document(columns.deep_view(), row.deep_view(), count as nat),
{
    let may_be_null = match field(columns, row, "is_nullable") {
        Some(text) => eq_ignore_ascii_case(text.as_str(), "YES") || eq_ignore_ascii_case(
            text.as_str(),
            "true",
        ),
        None => true,
    };
    let named: Option<i64> = match field(columns, row, "ordinal_position") {
        Some(text) => parse_i64(text.as_str()),
        None => None,
    };
    let place = match named {
        Some(v) => to_integer(v),
        None => crate::number::to_decimal(count as u128 + 1),
    };
    let place = Json::Number(place);
    assert(place@ == JsonView::Number(
        integer(ordinal(columns.deep_view(), row.deep_view(), count as nat)),
    ));
    let mut members: Vec<(String, Json)> = Vec::new();
    members.push(
        ("name".to_owned(), Json::text(field_or_empty(columns, row, "column_name").as_str())),
    );
    members.push(
        ("dataType".to_owned(), Json::text(field_or_empty(columns, row, "data_type").as_str())),
    );
    members.push(("nullable".to_owned(), Json::flag(may_be_null)));
    members.push(("ordinal".to_owned(), place));
    assert(members.deep_view() =~= column_document(
        columns.deep_view(),
        row.deep_view(),
        count as nat,
    )->Object_0);
    Json::object(members)
}

// ------------------------------------------------------------------- catalog

/// The columns of a table, under its name.
pub type TableView = (Seq<char>, Seq<JsonView>);

/// The tables of a dataset, under its name.
pub type SchemaView = (Seq<char>, Seq<TableView>);

/// The datasets of a project with their tables, each list in the order of the names.
#[derive(Debug, PartialEq, Eq)]
pub struct Catalog {
    pub schemas: Vec<(String, Vec<(String, Vec<Json>)>)>,
}

impl View for Catalog {
    type V = Seq<SchemaView>;

    open spec fn view(&self) -> Seq<SchemaView> {
        self.schemas.deep_view()
    }
}

/// An entry that may be absent, or the empty one.
pub open spec fn or_none<T>(entries: Option<Seq<T>>) -> Seq<T> {
    match entries {
        Some(e) => e,
        None => Seq::empty(),
    }
}

/// A catalog in which a dataset has a place, though it may have no tables.
pub open spec fn with_schema(catalog: Seq<SchemaView>, dataset: Seq<char>) -> Seq<SchemaView> {
    place(catalog, dataset, or_none(lookup(catalog, dataset)))
}

/// A catalog with a column added at the end of a table of a dataset.
pub open spec fn with_column(
    catalog: Seq<SchemaView>,
    dataset: Seq<char>,
    table: Seq<char>,
    columns: Seq<Seq<char>>,
    row: Seq<JsonView>,
) -> Seq<SchemaView> {
    let tables = or_none(lookup(catalog, dataset));
    let known = or_none(lookup(tables, table));
    place(
        catalog,
        dataset,
        place(tables, table, known.push(column_document(columns, row, known.len()))),
    )
}

/// A catalog with the column that a row describes; a row that names no table or
/// no column describes none.
pub open spec fn with_row(
    catalog: Seq<SchemaView>,
    dataset: Seq<char>,
    columns: Seq<Seq<char>>,
    row: Seq<JsonView>,
) -> Seq<SchemaView> {
    let table = or_empty(field_text(columns, row, "table_name"@));
    let column = or_empty(field_text(columns, row, "column_name"@));
    if table.len() == 0 || column.len() == 0 {
        catalog
    } else {
        with_column(catalog, dataset, table, columns, row)
    }
}

/// A catalog with the columns that rows describe, in order.
pub open spec fn with_rows(
    catalog: Seq<SchemaView>,
    dataset: Seq<char>,
    columns: Seq<Seq<char>>,
    rows: Seq<Seq<JsonView>>,
) -> Seq<SchemaView>
    decreases rows.len(),
{
    if rows.len() == 0 {
        catalog
    } else {
        with_row(with_rows(catalog, dataset, columns, rows.drop_last()), dataset, columns, rows.last())
    }
}

/// What there is under a name in a list in order, taken out of it with the place
/// where it stood.
fn take_out<T: DeepView>(entries: &mut Vec<(String, Vec<T>)>, name: &str) -> (taken: (
    usize,
    Vec<T>,
))
    ensures
        taken.0 <= final(entries)@.len(),
        taken.1.deep_view() == or_none(lookup(old(entries).deep_view(), name@)),
        forall|value: Seq<T::V>|
            #[trigger] place(old(entries).deep_view(), name@, value)
                == final(entries).deep_view().insert(taken.0 as int, (name@, value)),
{
    let (at, there) = position(entries, name);
    let ghost before = entries.deep_view();
    if there {
        let (_, found) = entries.remove(at);
        proof {
            assert(entries.deep_view() =~= before.remove(at as int));
            assert forall|value: Seq<T::V>| #[trigger] place(before, name@, value)
                == entries.deep_view().insert(at as int, (name@, value)) by {
                place_at(before, name@, value, at as int);
                assert(before.update(at as int, (name@, value)) =~= entries.deep_view().insert(
                    at as int,
                    (name@, value),
                ));
            }
            place_at(before, name@, found.deep_view(), at as int);
        }
        (at, found)
    } else {
        let none: Vec<T> = Vec::new();
        proof {
            assert(none.deep_view() =~= Seq::empty());
            assert forall|value: Seq<T::V>| #[trigger] place(before, name@, value)
                == entries.deep_view().insert(at as int, (name@, value)) by {
                place_at(before, name@, value, at as int);
            }
            place_at(before, name@, none.deep_view(), at as int);
        }
        (at, none)
    }
}

/// Puts an entry into a list in order, where it was taken out of it.
fn put_in<T: DeepView>(entries: &mut Vec<(String, Vec<T>)>, at: usize, name: &str, value: Vec<T>)
    requires
        at <= old(entries)@.len(),
    ensures
        final(entries).deep_view() == old(entries).deep_view().insert(
            at as int,
            (name@, value.deep_view()),
        ),
{
    entries.insert(at, (name.to_owned(), value));
    assert(entries.deep_view() =~= old(entries).deep_view().insert(
        at as int,
        (name@, value.deep_view()),
    ));
}

impl Catalog {
    /// A catalog of nothing.
    pub fn new() -> (catalog: Catalog)
        ensures
            catalog@ == Seq::<SchemaView>::empty(),
    {
        let catalog = Catalog { schemas: Vec::new() };
        assert(catalog@ =~= Seq::<SchemaView>::empty());
        catalog
    }

    /// Gives a dataset a place, though it may have no tables.
    pub fn add_schema(&mut self, dataset: &str)
        ensures
            final(self)@ == with_schema(old(self)@, dataset@),
    {
        let (at, tables) = take_out(&mut self.schemas, dataset);
        put_in(&mut self.schemas, at, dataset, tables);
    }

    /// Adds the column that a row describes.
    pub fn add_row(&mut self, dataset: &str, columns: &Vec<String>, row: &Vec<Json>)
        ensures
            final(self)@ == with_row(old(self)@, dataset@, columns.deep_view(), row.deep_view()),
    {
        let table = field_or_empty(columns, row, "table_name");
        let column = field_or_empty(columns, row, "column_name");
        if table.as_str().is_empty() || column.as_str().is_empty() {
            return;
        }
        let (at, mut tables) = take_out(&mut self.schemas, dataset);
        let (slot, mut known) = take_out(&mut tables, table.as_str());
        let ghost before = known.deep_view();
        assert(known.len() == before.len());
        let added = column_json(columns, row, known.len());
        known.push(added);
        assert(known.deep_view() =~= before.push(added@));
        put_in(&mut tables, slot, table.as_str(), known);
        put_in(&mut self.schemas, at, dataset, tables);
    }

    /// Adds the columns that rows describe, in order.
    pub fn add_rows(&mut self, dataset: &str, columns: &Vec<String>, rows: &QueryRows)
        ensures
            final(self)@ == with_rows(old(self)@, dataset@, columns.deep_view(), rows.deep_view()),
    {
        let ghost all = rows.deep_view();
        let ghost start = self@;
        let mut i: usize = 0;
        while i < rows.len()
            invariant
                i <= rows.len(),
                all == rows.deep_view(),
                start == old(self)@,
                self@ == with_rows(start, dataset@, columns.deep_view(), all.take(i as int)),
            decreases rows.len() - i,
        {
            assert(all.take(i + 1).drop_last() =~= all.take(i as int));
            assert(all.take(i + 1).last() == rows@[i as int].deep_view());
            self.add_row(dataset, columns, &rows[i]);
            i += 1;
        }
        assert(all.take(all.len() as int) =~= all);
    }
}

// ------------------------------------------------------------------ document

/// A table of a dataset, as it is reported.
pub open spec fn table_document(schema: Seq<char>, table: TableView) -> JsonView {
    JsonView::Object(
        seq![
            ("schema"@, JsonView::Text(schema)),
            ("name"@, JsonView::Text(table.0)),
            ("kind"@, JsonView::Text("table"@)),
            ("columns"@, JsonView::Array(table.1)),
            ("indexes"@, JsonView::Array(Seq::empty())),
            ("primaryKey"@, JsonView::Array(Seq::empty())),
            ("foreignKeys"@, JsonView::Array(Seq::empty())),
        ],
    )
}

/// A dataset, as it is reported.
pub open spec fn schema_document(schema: SchemaView) -> JsonView {
    JsonView::Object(
        seq![
            ("name"@, JsonView::Text(schema.0)),
            (
                "objects"@,
                JsonView::Array(
                    Seq::new(schema.1.len(), |i: int| table_document(schema.0, schema.1[i])),
                ),
            ),
        ],
    )
}

/// A catalog, as it is reported.
pub open spec fn catalog_document(catalog: Seq<SchemaView>) -> JsonView {
    JsonView::Object(
        seq![
            (
                "schemas"@,
                JsonView::Array(Seq::new(catalog.len(), |i: int| schema_document(catalog[i]))),
            ),
        ],
    )
}

fn empty_array() -> (json: Json)
    ensures
        json@ == JsonView::Array(Seq::empty()),
{
    let nothing: Vec<Json> = Vec::new();
    assert(nothing.deep_view() =~= Seq::empty());
    Json::array(nothing)
}

fn table_json(schema: &str, name: &str, columns: &Vec<Json>) -> (json: Json)
    ensures
        json@ == table_document(schema@, (name@, columns.deep_view())),
{
    let mut listed: Vec<Json> = Vec::new();
    let mut i: usize = 0;
    while i < columns.len()
        invariant
            i <= columns.len(),
            listed.len() == i,
            forall|j: int| 0 <= j < i ==> (#[trigger] listed@[j])@ == columns@[j]@,
        decreases columns.len() - i,
    {
        listed.push(columns[i].clone());
        i += 1;
    }
    assert(listed.deep_view() =~= columns.deep_view());
    let mut members: Vec<(String, Json)> = Vec::new();
    members.push(("schema".to_owned(), Json::text(schema)));
    members.push(("name".to_owned(), Json::text(name)));
    members.push(("kind".to_owned(), Json::text("table")));
    members.push(("columns".to_owned(), Json::array(listed)));
    members.push(("indexes".to_owned(), empty_array()));
    members.push(("primaryKey".to_owned(), empty_array()));
    members.push(("foreignKeys".to_owned(), empty_array()));
    assert(members.deep_view() =~= table_document(
        schema@,
        (name@, columns.deep_view()),
    )->Object_0);
    Json::object(members)
}

fn schema_json(name: &str, tables: &Vec<(String, Vec<Json>)>) -> (json: Json)
    ensures
        json@ == schema_document((name@, tables.deep_view())),
{
    let mut objects: Vec<Json> = Vec::new();
    let mut i: usize = 0;
    while i < tables.len()
        invariant
            i <= tables.len(),
            objects.len() == i,
            forall|j: int|
                0 <= j < i ==> (#[trigger] objects@[j])@ == table_document(
                    name@,
                    tables.deep_view()[j],
                ),
        decreases tables.len() - i,
    {
        objects.push(table_json(name, tables[i].0.as_str(), &tables[i].1));
        i += 1;
    }
    let ghost schema = schema_document((name@, tables.deep_view()));
    let mut members: Vec<(String, Json)> = Vec::new();
    members.push(("name".to_owned(), Json::text(name)));
    assert(objects.deep_view() =~= schema->Object_0[1].1->Array_0);
    members.push(("objects".to_owned(), Json::array(objects)));
    assert(members.deep_view() =~= schema->Object_0);
    Json::object(members)
}

impl Catalog {
    /// The catalog as it is reported.
    pub fn to_json(&self) -> (json: Json)
        ensures
            json@ == catalog_document(self@),
    {
        let mut schemas: Vec<Json> = Vec::new();
        let mut i: usize = 0;
        while i < self.schemas.len()
            invariant
                i <= self.schemas.len(),
                schemas.len() == i,
                forall|j: int|
                    0 <= j < i ==> (#[trigger] schemas@[j])@ == schema_document(self@[j]),
            decreases self.schemas.len() - i,
        {
            schemas.push(schema_json(self.schemas[i].0.as_str(), &self.schemas[i].1));
            i += 1;
        }
        let mut members: Vec<(String, Json)> = Vec::new();
        assert(schemas.deep_view() =~= catalog_document(self@)->Object_0[0].1->Array_0);
        members.push(("schemas".to_owned(), Json::array(schemas)));
        assert(members.deep_view() =~= catalog_document(self@)->Object_0);
        Json::object(members)
    }
}

// --------------------------------------------------------------------- steps

/// A walk through the datasets of a project that waits for the columns of one.
#[derive(Debug, PartialEq, Eq)]
pub struct MetadataRun {
    pub datasets: Vec<String>,
    /// The dataset whose columns were asked for.
    pub at: usize,
    /// What was found so far.
    pub catalog: Catalog,
}

/// What to do next for the metadata of a project.
#[derive(Debug, PartialEq, Eq)]
pub enum MetadataStep {
    /// Run `sql` for at most `cap` rows, and resume with what came of it.
    Query { sql: String, cap: usize, run: MetadataRun },
    /// The walk is over.
    Finish(Result<Json, String>),
}

/// What a `MetadataRun` says.
pub ghost struct WalkView {
    pub datasets: Seq<Seq<char>>,
    pub at: nat,
    pub catalog: Seq<SchemaView>,
}

/// What a `MetadataStep` says.
pub ghost enum WalkStepView {
    Query { sql: Seq<char>, cap: nat, run: WalkView },
    Finish(Result<JsonView, Seq<char>>),
}

impl View for MetadataRun {
    type V = WalkView;

    open spec fn view(&self) -> WalkView {
        WalkView {
            datasets: self.datasets.deep_view(),
            at: self.at as nat,
            catalog: self.catalog@,
        }
    }
}

impl View for MetadataStep {
    type V = WalkStepView;

    open spec fn view(&self) -> WalkStepView {
        match self {
            MetadataStep::Query { sql, cap, run } => WalkStepView::Query {
                sql: sql@,
                cap: *cap as nat,
                run: run@,
            },
            MetadataStep::Finish(result) => WalkStepView::Finish(outcome(*result)),
        }
    }
}

impl WalkStepView {
    /// A step that asks for a dataset asks for one that is listed.
    pub open spec fn sound(self) -> bool {
        match self {
            WalkStepView::Query { run, .. } => run.at < run.datasets.len(),
            WalkStepView::Finish(_) => true,
        }
    }
}

/// The dataset at a place is given its place in the catalog and asked for; after
/// the last, the catalog is reported.
pub open spec fn visit(
    datasets: Seq<Seq<char>>,
    at: nat,
    catalog: Seq<SchemaView>,
) -> WalkStepView {
    if at < datasets.len() {
        WalkStepView::Query {
            sql: columns_query(datasets[at as int]),
            cap: COLUMN_LIMIT as nat,
            run: WalkView { datasets, at, catalog: with_schema(catalog, datasets[at as int]) },
        }
    } else {
        WalkStepView::Finish(Ok(catalog_document(catalog)))
    }
}

/// The first step, given the list of datasets, or why there is none.
pub open spec fn first_visit(reply: Result<JsonView, Seq<char>>) -> WalkStepView {
    match reply {
        Ok(value) => visit(listed_ids(value), 0, Seq::empty()),
        Err(why) => WalkStepView::Finish(Err(why)),
    }
}

impl WalkView {
    /// What follows when the columns of a dataset come in. A dataset whose columns
    /// cannot be read keeps its place, without tables.
    pub open spec fn resumed(self, columns: Result<OutputView, Seq<char>>) -> WalkStepView {
        let found = match columns {
            Ok(output) => with_rows(
                self.catalog,
                self.datasets[self.at as int],
                output.0,
                output.1,
            ),
            Err(_) => self.catalog,
        };
        visit(self.datasets, self.at + 1, found)
    }
}

fn next_visit(datasets: Vec<String>, at: usize, catalog: Catalog) -> (step: MetadataStep)
    ensures
        step@ == visit(datasets.deep_view(), at as nat, catalog@),
{
    let mut catalog = catalog;
    if at < datasets.len() {
        assert(datasets.deep_view()[at as int] == datasets@[at as int]@);
        let sql = columns_sql(datasets[at].as_str());
        catalog.add_schema(datasets[at].as_str());
        MetadataStep::Query { sql, cap: COLUMN_LIMIT, run: MetadataRun { datasets, at, catalog } }
    } else {
        MetadataStep::Finish(Ok(catalog.to_json()))
    }
}

impl MetadataRun {
    /// The first step, given the list of datasets, or why there is none.
    pub fn load_metadata(reply: Result<Json, String>) -> (step: MetadataStep)
        ensures
            step@ == first_visit(outcome(reply)),
            step@.sound(),
    {
        match reply {
            Ok(value) => next_visit(dataset_ids(&value), 0, Catalog::new()),
            Err(why) => MetadataStep::Finish(Err(why)),
        }
    }

    /// What to do next, now that the columns of a dataset have come in, or have
    /// failed to.
    pub fn resume(self, columns: Result<QueryOutput, String>) -> (step: MetadataStep)
        requires
            self@.at < self@.datasets.len(),
        ensures
            step@ == self@.resumed(outcome(columns)),
            step@.sound(),
    {
        let mut catalog = self.catalog;
        let count: usize = self.datasets.len();
        assert(self.at < count);
        assert(self.datasets.deep_view()[self.at as int] == self.datasets@[self.at as int]@);
        match columns {
            Ok((names, rows, _)) => {
                catalog.add_rows(self.datasets[self.at].as_str(), &names, &rows);
            },
            Err(_) => {},
        }
        next_visit(self.datasets, self.at + 1, catalog)
    }
}

// ---------------------------------------------------------------------- laws

/// A catalog whose datasets, and whose tables in each, are in the order of their
/// names, each name once.
pub open spec fn in_order(catalog: Seq<SchemaView>) -> bool {
    &&& crate::order::ordered(catalog)
    &&& forall|i: int| 0 <= i < catalog.len() ==> crate::order::ordered((#[trigger] catalog[i]).1)
}

proof fn place_in_order(catalog: Seq<SchemaView>, dataset: Seq<char>, tables: Seq<TableView>)
    requires
        in_order(catalog),
        crate::order::ordered(tables),
    ensures
        in_order(place(catalog, dataset, tables)),
{
    let placed = place(catalog, dataset, tables);
    crate::order::placing_keeps_the_order(catalog, dataset, tables);
    assert forall|i: int| 0 <= i < placed.len() implies crate::order::ordered(
        (#[trigger] placed[i]).1,
    ) by {
        crate::order::placing_adds_nothing_else(catalog, dataset, tables, i);
        if placed[i] != (dataset, tables) {
            let k = choose|k: int| 0 <= k < catalog.len() && catalog[k] == placed[i];
            assert(crate::order::ordered(catalog[k].1));
        }
    }
}

proof fn known_tables_in_order(catalog: Seq<SchemaView>, dataset: Seq<char>)
    requires
        in_order(catalog),
    ensures
        crate::order::ordered(or_none(lookup(catalog, dataset))),
{
    crate::order::lookup_finds_an_entry(catalog, dataset);
    if let Some(tables) = lookup(catalog, dataset) {
        let k = choose|k: int| 0 <= k < catalog.len() && catalog[k] == (dataset, tables);
        assert(crate::order::ordered(catalog[k].1));
    }
}

/// A catalog stays in order when a dataset or a column is added to it, and a
/// dataset that had a place in it keeps it.
pub proof fn a_catalog_stays_in_order(
    catalog: Seq<SchemaView>,
    dataset: Seq<char>,
    columns: Seq<Seq<char>>,
    rows: Seq<Seq<JsonView>>,
    other: Seq<char>,
)
    requires
        in_order(catalog),
    ensures
        in_order(with_schema(catalog, dataset)),
        in_order(with_rows(catalog, dataset, columns, rows)),
        lookup(with_schema(catalog, dataset), dataset) is Some,
        lookup(catalog, other) is Some ==> lookup(with_schema(catalog, dataset), other) is Some,
        lookup(catalog, other) is Some ==> lookup(
            with_rows(catalog, dataset, columns, rows),
            other,
        ) is Some,
    decreases rows.len(),
{
    known_tables_in_order(catalog, dataset);
    place_in_order(catalog, dataset, or_none(lookup(catalog, dataset)));
    crate::order::placing_is_read_back(
        catalog,
        dataset,
        or_none(lookup(catalog, dataset)),
        other,
    );
    if rows.len() > 0 {
        a_catalog_stays_in_order(catalog, dataset, columns, rows.drop_last(), other);
        let before = with_rows(catalog, dataset, columns, rows.drop_last());
        let row = rows.last();
        let table = or_empty(field_text(columns, row, "table_name"@));
        let tables = or_none(lookup(before, dataset));
        let known = or_none(lookup(tables, table));
        let more = place(
            tables,
            table,
            known.push(column_document(columns, row, known.len())),
        );
        known_tables_in_order(before, dataset);
        crate::order::placing_keeps_the_order(
            tables,
            table,
            known.push(column_document(columns, row, known.len())),
        );
        place_in_order(before, dataset, more);
        crate::order::placing_is_read_back(before, dataset, more, other);
    }
}

/// Columns come in table by table in the order of the rows: a row for a table
/// leaves the columns before it as they are and puts its own behind them.
pub proof fn a_column_is_put_last(
    catalog: Seq<SchemaView>,
    dataset: Seq<char>,
    columns: Seq<Seq<char>>,
    row: Seq<JsonView>,
)
    requires
        or_empty(field_text(columns, row, "table_name"@)).len() > 0,
        or_empty(field_text(columns, row, "column_name"@)).len() > 0,
    ensures
        ({
            let table = or_empty(field_text(columns, row, "table_name"@));
            let known = or_none(lookup(or_none(lookup(catalog, dataset)), table));
            let after = with_row(catalog, dataset, columns, row);
            lookup(or_none(lookup(after, dataset)), table) == Some(
                known.push(column_document(columns, row, known.len())),
            )
        }),
{
    let table = or_empty(field_text(columns, row, "table_name"@));
    let tables = or_none(lookup(catalog, dataset));
    let known = or_none(lookup(tables, table));
    let column = column_document(columns, row, known.len());
    crate::order::placing_is_read_back(tables, table, known.push(column), table);
    crate::order::placing_is_read_back(
        catalog,
        dataset,
        place(tables, table, known.push(column)),
        dataset,
    );
}

impl WalkStepView {
    /// Where a walk is after the columns of so many datasets have come in, or have
    /// failed to.
    pub open spec fn after(self, answers: Seq<Result<OutputView, Seq<char>>>) -> WalkStepView
        decreases answers.len(),
    {
        match self {
            WalkStepView::Query { run, .. } => if answers.len() == 0 {
                self
            } else {
                run.resumed(answers[0]).after(answers.drop_first())
            },
            WalkStepView::Finish(_) => self,
        }
    }
}

/// What the first `count` datasets add up to, given what came of asking for each.
pub open spec fn told(
    datasets: Seq<Seq<char>>,
    answers: Seq<Result<OutputView, Seq<char>>>,
    count: nat,
) -> Seq<SchemaView>
    decreases count,
{
    if count == 0 {
        Seq::empty()
    } else {
        let dataset = datasets[count - 1];
        let before = with_schema(told(datasets, answers, (count - 1) as nat), dataset);
        match answers[count - 1] {
            Ok(output) => with_rows(before, dataset, output.0, output.1),
            Err(_) => before,
        }
    }
}

proof fn visits_add_up(
    datasets: Seq<Seq<char>>,
    answers: Seq<Result<OutputView, Seq<char>>>,
    at: nat,
)
    requires
        answers.len() == datasets.len(),
        at <= datasets.len(),
    ensures
        visit(datasets, at, told(datasets, answers, at)).after(answers.skip(at as int))
            == WalkStepView::Finish(
            Ok(catalog_document(told(datasets, answers, datasets.len()))),
        ),
    decreases datasets.len() - at,
{
    if at < datasets.len() {
        let rest = answers.skip(at as int);
        assert(rest[0] == answers[at as int]);
        assert(rest.drop_first() =~= answers.skip(at as int + 1));
        visits_add_up(datasets, answers, at + 1);
    }
}

proof fn told_in_order(
    datasets: Seq<Seq<char>>,
    answers: Seq<Result<OutputView, Seq<char>>>,
    count: nat,
    k: int,
)
    requires
        count <= datasets.len(),
    ensures
        in_order(told(datasets, answers, count)),
        0 <= k < count ==> lookup(told(datasets, answers, count), datasets[k]) is Some,
    decreases count,
{
    if count > 0 {
        told_in_order(datasets, answers, (count - 1) as nat, k);
        let dataset = datasets[count - 1];
        let start = told(datasets, answers, (count - 1) as nat);
        let before = with_schema(start, dataset);
        let other = if 0 <= k < count {
            datasets[k]
        } else {
            dataset
        };
        a_catalog_stays_in_order(start, dataset, Seq::empty(), Seq::empty(), other);
        if let Ok(output) = answers[count - 1] {
            a_catalog_stays_in_order(before, dataset, output.0, output.1, other);
        }
    }
}

/// A walk visits each dataset of the list once, whatever comes of asking for it,
/// and ends by reporting what they add up to: in the order of the names, and
/// with a place for every dataset, also for one whose columns could not be read.
pub proof fn every_dataset_is_reported(
    list: JsonView,
    answers: Seq<Result<OutputView, Seq<char>>>,
    k: int,
)
    requires
        answers.len() == listed_ids(list).len(),
    ensures
        first_visit(Ok(list)).after(answers) == WalkStepView::Finish(
            Ok(catalog_document(told(listed_ids(list), answers, answers.len()))),
        ),
        in_order(told(listed_ids(list), answers, answers.len())),
        0 <= k < answers.len() ==> lookup(
            told(listed_ids(list), answers, answers.len()),
            listed_ids(list)[k],
        ) is Some,
{
    visits_add_up(listed_ids(list), answers, 0);
    assert(answers.skip(0) =~= answers);
    told_in_order(listed_ids(list), answers, answers.len(), k);
}

/// A quote in the name of a dataset cannot end the quoted name in its query: the
/// query has exactly the two quotes around the name.
pub proof fn a_dataset_name_stays_quoted(dataset: Seq<char>)
    ensures
        pieces(columns_query(dataset), '`') == seq![
            "SELECT table_name, column_name, data_type, ordinal_position, is_nullable FROM "@,
            stripped(dataset, '`'),
            ".INFORMATION_SCHEMA.COLUMNS ORDER BY table_name, ordinal_position"@,
        ],
{
    let opening =
        "SELECT table_name, column_name, data_type, ordinal_position, is_nullable FROM "@;
    let name = stripped(dataset, '`');
    let closing = ".INFORMATION_SCHEMA.COLUMNS ORDER BY table_name, ordinal_position"@;
    assert(!name.contains('`')) by {
        broadcast use vstd::seq_lib::group_filter_ensures;

    }
    assert(pieces(opening, '`') == seq![opening]) by {
        reveal_strlit(
            "SELECT table_name, column_name, data_type, ordinal_position, is_nullable FROM ",
        );
        without_a_mark_there_is_one_piece(opening, '`');
    }
    a_mark_begins_a_piece(opening, '`', name);
    assert(!closing.contains('`')) by {
        reveal_strlit(".INFORMATION_SCHEMA.COLUMNS ORDER BY table_name, ordinal_position");
    }
    a_mark_begins_a_piece(opening + seq!['`'] + name, '`', closing);
    assert("SELECT table_name, column_name, data_type, ordinal_position, is_nullable FROM `"@
        =~= opening + seq!['`']) by {
        reveal_strlit(
            "SELECT table_name, column_name, data_type, ordinal_position, is_nullable FROM ",
        );
        reveal_strlit(
            "SELECT table_name, column_name, data_type, ordinal_position, is_nullable FROM `",
        );
    }
    assert("`.INFORMATION_SCHEMA.COLUMNS ORDER BY table_name, ordinal_position"@ =~= seq!['`']
        + closing) by {
        reveal_strlit(".INFORMATION_SCHEMA.COLUMNS ORDER BY table_name, ordinal_position");
        reveal_strlit("`.INFORMATION_SCHEMA.COLUMNS ORDER BY table_name, ordinal_position");
    }
    assert(columns_query(dataset) =~= opening + seq!['`'] + name + seq!['`'] + closing);
    assert(pieces(columns_query(dataset), '`') =~= seq![opening, name, closing]);
}

/// A field of a row is its value in the first column of that name, whatever the
/// case of the letters: a text as it is, a number or a flag as it is written, and
/// nothing else. Where there is no such column, or the row is too short, there is
/// none.
pub proof fn a_field_is_found_by_its_column(
    columns: Seq<Seq<char>>,
    row: Seq<JsonView>,
    name: Seq<char>,
    at: int,
)
    requires
        0 <= at <= columns.len(),
        forall|j: int| 0 <= j < at ==> !same_letters(#[trigger] columns[j], name),
        at < columns.len() ==> same_letters(columns[at], name),
    ensures
        field_text(columns, row, name) == (if at < columns.len() && at < row.len() {
            match row[at] {
                JsonView::Text(text) => Some(text),
                JsonView::Number(number) => Some(number),
                JsonView::Bool(flag) => Some(
                    if flag {
                        "true"@
                    } else {
                        "false"@
                    },
                ),
                _ => None,
            }
        } else {
            None
        }),
{
    first_of_its_name(columns, name, at);
}

proof fn first_of_its_name(columns: Seq<Seq<char>>, name: Seq<char>, at: int)
    requires
        0 <= at <= columns.len(),
        forall|j: int| 0 <= j < at ==> !same_letters(#[trigger] columns[j], name),
        at < columns.len() ==> same_letters(columns[at], name),
    ensures
        column_index(columns, name) == (if at < columns.len() {
            Some(at)
        } else {
            None
        }),
    decreases at,
{
    if at > 0 {
        let rest = columns.drop_first();
        assert(!same_letters(columns[0], name));
        assert forall|j: int| 0 <= j < at - 1 implies !same_letters(#[trigger] rest[j], name) by {
            assert(rest[j] == columns[j + 1]);
        }
        first_of_its_name(rest, name, at - 1);
    }
}

proof fn column_members(columns: Seq<Seq<char>>, row: Seq<JsonView>, count: nat)
    ensures
        ({
            let column = column_document(columns, row, count);
            let members = column->Object_0;
            &&& column.member("name"@) == Some(members[0].1)
            &&& column.member("dataType"@) == Some(members[1].1)
            &&& column.member("nullable"@) == Some(members[2].1)
            &&& column.member("ordinal"@) == Some(members[3].1)
        }),
{
    reveal_strlit("name");
    reveal_strlit("dataType");
    reveal_strlit("nullable");
    reveal_strlit("ordinal");
    let members = column_document(columns, row, count)->Object_0;
    assert("dataType"@[0] == 'd' && "nullable"@[0] == 'n');
    assert("name"@.len() == 4 && "ordinal"@.len() == 7 && "nullable"@.len() == 8);
    a_member_is_found_by_its_name(members, "name"@, 0);
    a_member_is_found_by_its_name(members, "dataType"@, 1);
    a_member_is_found_by_its_name(members, "nullable"@, 2);
    a_member_is_found_by_its_name(members, "ordinal"@, 3);
}

/// A column is reported under its name and with its type as the row gives them.
pub proof fn a_column_is_reported_by_name_and_type(
    columns: Seq<Seq<char>>,
    row: Seq<JsonView>,
    count: nat,
)
    ensures
        column_document(columns, row, count).text_member("name"@) == Some(
            match field_text(columns, row, "column_name"@) {
                Some(text) => text,
                None => Seq::empty(),
            },
        ),
        column_document(columns, row, count).text_member("dataType"@) == Some(
            match field_text(columns, row, "data_type"@) {
                Some(text) => text,
                None => Seq::empty(),
            },
        ),
{
    column_members(columns, row, count);
}

/// A column is reported as nullable exactly where its row says yes or true, in
/// any case, or says nothing; so it is not where the row says no, and rows that
/// say the same in another case are reported alike.
pub proof fn a_column_is_nullable_where_its_row_says_so(
    columns: Seq<Seq<char>>,
    row: Seq<JsonView>,
    other: Seq<JsonView>,
    count: nat,
    text: Seq<char>,
    again: Seq<char>,
)
    ensures
        field_text(columns, row, "is_nullable"@) == Some(text) ==> column_document(
            columns,
            row,
            count,
        ).member("nullable"@) == Some(
            JsonView::Bool(same_letters(text, "YES"@) || same_letters(text, "true"@)),
        ),
        field_text(columns, row, "is_nullable"@) is None ==> column_document(
            columns,
            row,
            count,
        ).member("nullable"@) == Some(JsonView::Bool(true)),
        field_text(columns, row, "is_nullable"@) == Some(text) && same_letters(text, "NO"@)
            ==> column_document(columns, row, count).member("nullable"@) == Some(
            JsonView::Bool(false),
        ),
        field_text(columns, row, "is_nullable"@) == Some(text) && field_text(
            columns,
            other,
            "is_nullable"@,
        ) == Some(again) && same_letters(text, again) ==> column_document(
            columns,
            row,
            count,
        ).member("nullable"@) == column_document(columns, other, count).member("nullable"@),
{
    column_members(columns, row, count);
    column_members(columns, other, count);
    reveal_strlit("YES");
    reveal_strlit("true");
    reveal_strlit("NO");
    assert("YES"@.len() == 3 && "true"@.len() == 4 && "NO"@.len() == 2);
    if same_letters(text, again) {
        alike_to_the_same(text, again, "YES"@);
        alike_to_the_same(text, again, "true"@);
    }
}

proof fn alike_to_the_same(left: Seq<char>, right: Seq<char>, word: Seq<char>)
    requires
        same_letters(left, right),
    ensures
        same_letters(left, word) == same_letters(right, word),
{
    if same_letters(left, word) {
        assert forall|i: int| 0 <= i < right.len() implies lower(#[trigger] right[i]) == lower(
            word[i],
        ) by {
            assert(lower(left[i]) == lower(right[i]));
        }
    }
    if same_letters(right, word) {
        assert forall|i: int| 0 <= i < left.len() implies lower(#[trigger] left[i]) == lower(
            word[i],
        ) by {
            assert(lower(right[i]) == lower(word[i]));
        }
    }
}

/// A column is reported at the place that its row gives, or else at the one
/// behind the columns before it.
pub proof fn a_column_is_reported_at_its_place(
    columns: Seq<Seq<char>>,
    row: Seq<JsonView>,
    count: nat,
    place: i64,
)
    ensures
        field_text(columns, row, "ordinal_position"@) == Some(integer(place as int))
            ==> column_document(columns, row, count).member("ordinal"@) == Some(
            JsonView::Number(integer(place as int)),
        ),
        (match field_text(columns, row, "ordinal_position"@) {
            Some(text) => read_integer(text) is None,
            None => true,
        }) ==> column_document(columns, row, count).member("ordinal"@) == Some(
            JsonView::Number(decimal(count + 1)),
        ),
{
    column_members(columns, row, count);
    integer_reads_back(place as int);
}

/// A row that names no table or no column changes nothing. Any other changes the
/// columns of its own table in its own dataset alone; and rows are added one
/// after the other.
pub proof fn a_row_leaves_the_rest_alone(
    catalog: Seq<SchemaView>,
    dataset: Seq<char>,
    columns: Seq<Seq<char>>,
    rows: Seq<Seq<JsonView>>,
    row: Seq<JsonView>,
    other: Seq<char>,
)
    requires
        in_order(catalog),
    ensures
        field_text(columns, row, "table_name"@) is None ==> with_row(
            catalog,
            dataset,
            columns,
            row,
        ) == catalog,
        field_text(columns, row, "column_name"@) is None ==> with_row(
            catalog,
            dataset,
            columns,
            row,
        ) == catalog,
        other != dataset ==> lookup(with_row(catalog, dataset, columns, row), other) == lookup(
            catalog,
            other,
        ),
        field_text(columns, row, "table_name"@) != Some(other) ==> lookup(
            or_none(lookup(with_row(catalog, dataset, columns, row), dataset)),
            other,
        ) == lookup(or_none(lookup(catalog, dataset)), other),
        with_rows(catalog, dataset, columns, Seq::empty()) == catalog,
        with_rows(catalog, dataset, columns, rows.push(row)) == with_row(
            with_rows(catalog, dataset, columns, rows),
            dataset,
            columns,
            row,
        ),
{
    assert(rows.push(row).drop_last() =~= rows);
    let table = or_empty(field_text(columns, row, "table_name"@));
    let tables = or_none(lookup(catalog, dataset));
    let known = or_none(lookup(tables, table));
    let column = column_document(columns, row, known.len());
    let more = place(tables, table, known.push(column));
    known_tables_in_order(catalog, dataset);
    crate::order::placing_is_read_back(tables, table, known.push(column), other);
    crate::order::placing_is_read_back(catalog, dataset, more, other);
}

/// A dataset that is given its place keeps its tables, and has none where it was
/// new; no other dataset changes.
pub proof fn a_place_changes_no_tables(
    catalog: Seq<SchemaView>,
    dataset: Seq<char>,
    other: Seq<char>,
)
    requires
        in_order(catalog),
    ensures
        lookup(with_schema(catalog, dataset), dataset) == Some(
            match lookup(catalog, dataset) {
                Some(tables) => tables,
                None => Seq::empty(),
            },
        ),
        other != dataset ==> lookup(with_schema(catalog, dataset), other) == lookup(
            catalog,
            other,
        ),
{
    crate::order::placing_is_read_back(
        catalog,
        dataset,
        or_none(lookup(catalog, dataset)),
        other,
    );
}

/// A catalog is reported as it is: dataset by dataset under their names, and in
/// each table by table, under the name of the dataset and its own and with its
/// columns.
pub proof fn a_catalog_is_reported_as_it_is(catalog: Seq<SchemaView>, i: int, j: int)
    ensures
        catalog_document(catalog).array_member("schemas"@) is Some,
        ({
            let schemas = catalog_document(catalog).array_member("schemas"@)->0;
            &&& schemas.len() == catalog.len()
            &&& 0 <= i < catalog.len() ==> {
                &&& schemas[i].text_member("name"@) == Some(catalog[i].0)
                &&& schemas[i].array_member("objects"@) is Some
                &&& schemas[i].array_member("objects"@)->0.len() == catalog[i].1.len()
                &&& 0 <= j < catalog[i].1.len() ==> {
                    let object = schemas[i].array_member("objects"@)->0[j];
                    &&& object.text_member("schema"@) == Some(catalog[i].0)
                    &&& object.text_member("name"@) == Some(catalog[i].1[j].0)
                    &&& object.text_member("kind"@) == Some("table"@)
                    &&& object.array_member("columns"@) == Some(catalog[i].1[j].1)
                    &&& object.array_member("indexes"@) == Some(Seq::<JsonView>::empty())
                    &&& object.array_member("primaryKey"@) == Some(Seq::<JsonView>::empty())
                    &&& object.array_member("foreignKeys"@) == Some(Seq::<JsonView>::empty())
                }
            }
        }),
{
    let all = catalog_document(catalog)->Object_0;
    a_member_is_found_by_its_name(all, "schemas"@, 0);
    if 0 <= i < catalog.len() {
        let schema = schema_document(catalog[i])->Object_0;
        reveal_strlit("name");
        reveal_strlit("objects");
        assert("name"@.len() == 4 && "objects"@.len() == 7);
        a_member_is_found_by_its_name(schema, "name"@, 0);
        a_member_is_found_by_its_name(schema, "objects"@, 1);
        if 0 <= j < catalog[i].1.len() {
            table_members(catalog[i].0, catalog[i].1[j]);
        }
    }
}

proof fn table_members(schema: Seq<char>, table: TableView)
    ensures
        ({
            let object = table_document(schema, table);
            let members = object->Object_0;
            &&& object.member("schema"@) == Some(members[0].1)
            &&& object.member("name"@) == Some(members[1].1)
            &&& object.member("kind"@) == Some(members[2].1)
            &&& object.member("columns"@) == Some(members[3].1)
            &&& object.member("indexes"@) == Some(members[4].1)
            &&& object.member("primaryKey"@) == Some(members[5].1)
            &&& object.member("foreignKeys"@) == Some(members[6].1)
        }),
{
    reveal_strlit("schema");
    reveal_strlit("name");
    reveal_strlit("kind");
    reveal_strlit("columns");
    reveal_strlit("indexes");
    reveal_strlit("primaryKey");
    reveal_strlit("foreignKeys");
    let members = table_document(schema, table)->Object_0;
    assert("schema"@.len() == 6 && "name"@.len() == 4 && "kind"@.len() == 4);
    assert("columns"@.len() == 7 && "indexes"@.len() == 7);
    assert("primaryKey"@.len() == 10 && "foreignKeys"@.len() == 11);
    assert("name"@[0] == 'n' && "kind"@[0] == 'k');
    assert("columns"@[0] == 'c' && "indexes"@[0] == 'i');
    a_member_is_found_by_its_name(members, "schema"@, 0);
    a_member_is_found_by_its_name(members, "name"@, 1);
    a_member_is_found_by_its_name(members, "kind"@, 2);
    a_member_is_found_by_its_name(members, "columns"@, 3);
    a_member_is_found_by_its_name(members, "indexes"@, 4);
    a_member_is_found_by_its_name(members, "primaryKey"@, 5);
    a_member_is_found_by_its_name(members, "foreignKeys"@, 6);
}

proof fn ids_go_piece_by_piece(before: Seq<JsonView>, after: Seq<JsonView>)
    ensures
        ids_of(before + after) == ids_of(before) + ids_of(after),
    decreases after.len(),
{
    if after.len() == 0 {
        assert(before + after =~= before);
        assert(ids_of(before) + ids_of(after) =~= ids_of(before));
    } else {
        ids_go_piece_by_piece(before, after.drop_last());
        assert((before + after).drop_last() =~= before + after.drop_last());
        assert(ids_of(before + after) =~= ids_of(before) + ids_of(after));
    }
}

/// The datasets of an answer are those that it lists, in their order: what is
/// listed behind others follows on them, a dataset goes by the identifier in its
/// reference, and one without is left out.
pub proof fn datasets_go_by_their_references(
    both: JsonView,
    left: JsonView,
    right: JsonView,
    before: Seq<JsonView>,
    after: Seq<JsonView>,
)
    requires
        left.array_member("datasets"@) == Some(before),
        right.array_member("datasets"@) == Some(after),
        both.array_member("datasets"@) == Some(before + after),
    ensures
        listed_ids(both) == listed_ids(left) + listed_ids(right),
        before.len() == 0 ==> listed_ids(left).len() == 0,
        before.len() == 1 ==> listed_ids(left) == (match before[0].member("datasetReference"@) {
            Some(reference) => match reference.text_member("datasetId"@) {
                Some(id) => seq![id],
                None => Seq::empty(),
            },
            None => Seq::empty(),
        }),
        listed(left) == before.len(),
{
    ids_go_piece_by_piece(before, after);
    if before.len() == 1 {
        assert(ids_of(before.drop_last()) =~= Seq::empty());
        assert(before.last() == before[0]);
        assert(listed_ids(left) =~= (match before[0].member("datasetReference"@) {
            Some(reference) => match reference.text_member("datasetId"@) {
                Some(id) => seq![id],
                None => Seq::empty(),
            },
            None => Seq::empty(),
        }));
    }
}

/// An answer without a list of datasets lists none, and a list that could not be
/// got ends the walk with the reason. The lists are those of the project.
pub proof fn a_list_may_be_missing(value: JsonView, why: Seq<char>, project: Seq<char>)
    ensures
        value.array_member("datasets"@) is None ==> listed(value) == 0 && listed_ids(value).len()
            == 0,
        first_visit(Err(why)) == WalkStepView::Finish(Err(why)),
        datasets_address(project) == "https://bigquery.googleapis.com/bigquery/v2/projects/"@
            + project + "/datasets"@,
        probe_address(project) == "https://bigquery.googleapis.com/bigquery/v2/projects/"@ + project
            + "/datasets"@ + "?maxResults=1"@,
{
}

proof fn visits_go_on(
    datasets: Seq<Seq<char>>,
    answers: Seq<Result<OutputView, Seq<char>>>,
    at: nat,
    catalog: Seq<SchemaView>,
)
    requires
        at + answers.len() < datasets.len(),
    ensures
        (visit(datasets, at, catalog).after(answers) matches WalkStepView::Query { sql, cap, run }
            && sql == columns_query(datasets[at as int + answers.len()]) && cap == 10_000 && run.datasets
            == datasets && run.at == at + answers.len()),
    decreases answers.len(),
{
    if answers.len() > 0 {
        let run = visit(datasets, at, catalog)->Query_run;
        let rest = answers.drop_first();
        let found = match answers[0] {
            Ok(output) => with_rows(run.catalog, datasets[at as int], output.0, output.1),
            Err(_) => run.catalog,
        };
        visits_go_on(datasets, rest, at + 1, found);
    }
}

/// The datasets of a list are asked for one after the other, each by its own
/// name, whatever came of those before.
pub proof fn each_dataset_is_asked_for_in_turn(
    list: JsonView,
    answers: Seq<Result<OutputView, Seq<char>>>,
)
    requires
        answers.len() < listed_ids(list).len(),
    ensures
        (first_visit(Ok(list)).after(answers) matches WalkStepView::Query { sql, cap, .. } && cap
            == 10_000 && sql
            == "SELECT table_name, column_name, data_type, ordinal_position, is_nullable FROM `"@
            + stripped(listed_ids(list)[answers.len() as int], '`')
            + "`.INFORMATION_SCHEMA.COLUMNS ORDER BY table_name, ordinal_position"@),
{
    visits_go_on(listed_ids(list), answers, 0, Seq::empty());
}

/// The steps of a walk, and the columns in it, are the ones that these laws speak
/// of.
pub proof fn a_walk_takes_these_steps(
    columns: &Vec<String>,
    row: &Vec<Json>,
    count: usize,
    column: Json,
    reply: Result<Json, String>,
    run: MetadataRun,
    output: Result<QueryOutput, String>,
    step: MetadataStep,
)
    ensures
        call_ensures(column_json, (columns, row, count), column) ==> column@ == column_document(
            columns.deep_view(),
            row.deep_view(),
            count as nat,
        ),
        call_ensures(MetadataRun::load_metadata, (reply,), step) ==> step@ == first_visit(
            outcome(reply),
        ),
        call_ensures(MetadataRun::resume, (run, output), step) ==> step@ == run@.resumed(
            outcome(output),
        ),
{
}

/// A probe counts the datasets that are listed.
pub proof fn a_probe_counts_the_datasets(value: &Json, count: usize)
    ensures
        call_ensures(probe, (value,), count) ==> (match value@.array_member("datasets"@) {
            Some(datasets) => count == datasets.len(),
            None => count == 0,
        }),
{
}

/// A walk and its steps are told by what they hold, field by field.
pub proof fn a_walk_is_told_by_what_it_holds(run: MetadataRun, step: MetadataStep)
    ensures
        run@.datasets == run.datasets.deep_view(),
        run@.at == run.at,
        run@.catalog == run.catalog.schemas.deep_view(),
        (match step {
            MetadataStep::Query { sql, cap, run: next } => step@ == (WalkStepView::Query {
                sql: sql@,
                cap: cap as nat,
                run: next@,
            }),
            MetadataStep::Finish(Ok(document)) => step@ == WalkStepView::Finish(Ok(document@)),
            MetadataStep::Finish(Err(why)) => step@ == WalkStepView::Finish(Err(why@)),
        }),
{
}

} // verus!
