//! What an answer of the service holds: a document, an error, or a page of rows.

use vstd::prelude::*;
use vstd::string::*;

use crate::http::{Exchange, ExchangeView};
use crate::json::{outcome, parsed, Json, JsonView};
use crate::number::{decimal, decimal_reads_back, parse_usize, read_natural};

verus! {

/// The rows of a query, each as wide as its cells.
pub type QueryRows = Vec<Vec<Json>>;

/// The names of the columns, the rows, and whether there may be rows that were
/// not read. The word of any one page that rows are missing from it is enough, so
/// it is also given where several pages were read to the end.
pub type QueryOutput = (Vec<String>, QueryRows, bool);

// ------------------------------------------------------------------- answers

/// The document that a service answered with, or why there is none.
pub open spec fn answer(exchange: ExchangeView) -> Result<JsonView, Seq<char>> {
    match exchange {
        ExchangeView::SendFailed(why) => Err("BigQuery request failed: "@ + why),
        ExchangeView::ReadFailed(why) => Err("BigQuery response read failed: "@ + why),
        ExchangeView::Answered { success, status, body } => if success {
            readable(body, parsed(body))
        } else {
            Err("BigQuery returned HTTP "@ + status + ": "@ + body)
        },
    }
}

/// The document that a body writes down, or a failure that shows the body.
pub open spec fn readable(body: Seq<char>, document: Result<JsonView, Seq<char>>) -> Result<
    JsonView,
    Seq<char>,
> {
    match document {
        Ok(value) => Ok(value),
        Err(why) => Err("BigQuery JSON response parse failed: "@ + why + ": "@ + body),
    }
}

/// The document that was read from a body, or a failure that shows the body.
pub fn document_of(body: &str, document: Result<Json, String>) -> (result: Result<Json, String>)
    ensures
        outcome(result) == readable(body@, outcome(document)),
{
    match document {
        Ok(value) => Ok(value),
        Err(why) => Err(
            "BigQuery JSON response parse failed: ".to_owned().concat(why.as_str()).concat(
                ": ",
            ).concat(body),
        ),
    }
}

/// The document that a service answered with, or why there is none.
pub fn request_json(exchange: &Exchange) -> (result: Result<Json, String>)
    ensures
        outcome(result) == answer(exchange@),
{
    match exchange {
        Exchange::SendFailed(why) => Err(
            "BigQuery request failed: ".to_owned().concat(why.as_str()),
        ),
        Exchange::ReadFailed(why) => Err(
            "BigQuery response read failed: ".to_owned().concat(why.as_str()),
        ),
        Exchange::Answered { success, status, body } => if *success {
            document_of(body.as_str(), Json::parse(body.as_str()))
        } else {
            Err(
                "BigQuery returned HTTP ".to_owned().concat(status.as_str()).concat(": ").concat(
                    body.as_str(),
                ),
            )
        },
    }
}

/// The message of the first of the errors that an answer lists.
pub open spec fn first_error(value: JsonView) -> Option<Seq<char>> {
    match value.array_member("errors"@) {
        Some(errors) => if errors.len() > 0 {
            errors[0].text_member("message"@)
        } else {
            None
        },
        None => None,
    }
}

/// The message of the first of the errors that an answer lists.
pub fn query_error(value: &Json) -> (message: Option<String>)
    ensures
        message.deep_view() == first_error(value@),
{
    match value.array_member("errors") {
        Some(errors) => if errors.len() > 0 {
            assert(errors.deep_view()[0] == errors@[0]@);
            crate::text::owned(errors[0].text_member("message"))
        } else {
            None
        },
        None => None,
    }
}

// --------------------------------------------------------------------- pages

/// The texts under `key` in those of the items that have one, in order.
pub open spec fn texts_under(items: Seq<JsonView>, key: Seq<char>) -> Seq<Seq<char>>
    decreases items.len(),
{
    if items.len() == 0 {
        Seq::empty()
    } else {
        let before = texts_under(items.drop_last(), key);
        match items.last().text_member(key) {
            Some(t) => before.push(t),
            None => before,
        }
    }
}

/// The names of the columns that an answer describes.
pub open spec fn page_columns(value: JsonView) -> Seq<Seq<char>> {
    match value.member("schema"@) {
        Some(schema) => match schema.array_member("fields"@) {
            Some(fields) => texts_under(fields, "name"@),
            None => Seq::empty(),
        },
        None => Seq::empty(),
    }
}

/// What a cell holds.
pub open spec fn cell_value(cell: JsonView) -> JsonView {
    match cell.member("v"@) {
        Some(value) => value,
        None => JsonView::Null,
    }
}

/// The cells of a row; a row without a list of cells is null in each column.
pub open spec fn row_cells(row: JsonView, width: nat) -> Seq<JsonView> {
    match row.array_member("f"@) {
        Some(cells) => Seq::new(cells.len(), |i: int| cell_value(cells[i])),
        None => Seq::new(width, |i: int| JsonView::Null),
    }
}

/// The rows of an answer, at most `cap` of them.
pub open spec fn page_rows(value: JsonView, cap: nat) -> Seq<Seq<JsonView>> {
    match value.array_member("rows"@) {
        Some(rows) => Seq::new(
            if rows.len() < cap {
                rows.len()
            } else {
                cap
            },
            |i: int| row_cells(rows[i], page_columns(value).len()),
        ),
        None => Seq::empty(),
    }
}

/// Where the next page is, if there is one.
pub open spec fn page_token(value: JsonView) -> Option<Seq<char>> {
    value.text_member("pageToken"@)
}

/// Whether an answer says that there are more rows than were read from it.
pub open spec fn page_truncated(value: JsonView, cap: nat) -> bool {
    ||| page_token(value) is Some
    ||| match value.text_member("totalRows"@) {
        Some(total) => match read_natural(total) {
            Some(n) => page_rows(value, cap).len() < n <= usize::MAX,
            None => false,
        },
        None => false,
    }
}

fn texts(items: &Vec<Json>, key: &str) -> (found: Vec<String>)
    ensures
        found.deep_view() == texts_under(items.deep_view(), key@),
{
    let ghost all = items.deep_view();
    let mut found: Vec<String> = Vec::new();
    let mut i: usize = 0;
    assert(found.deep_view() =~= texts_under(all.take(0), key@));
    while i < items.len()
        invariant
            i <= items.len(),
            all == items.deep_view(),
            found.deep_view() == texts_under(all.take(i as int), key@),
        decreases items.len() - i,
    {
        let ghost before = found.deep_view();
        assert(all.take(i + 1).drop_last() =~= all.take(i as int));
        assert(all.take(i + 1).last() == items@[i as int]@);
        match items[i].text_member(key) {
            Some(t) => {
                found.push(t.to_owned());
                assert(found.deep_view() =~= before.push(t@));
            },
            None => {},
        }
        i += 1;
    }
    assert(all.take(all.len() as int) =~= all);
    found
}

fn cells_of(row: &Json, width: usize) -> (values: Vec<Json>)
    ensures
        values.deep_view() == row_cells(row@, width as nat),
{
    let mut values: Vec<Json> = Vec::new();
    match row.array_member("f") {
        Some(cells) => {
            let ghost all = cells.deep_view();
            let mut i: usize = 0;
            while i < cells.len()
                invariant
                    i <= cells.len(),
                    all == cells.deep_view(),
                    values.len() == i,
                    forall|j: int| 0 <= j < i ==> (#[trigger] values@[j])@ == cell_value(all[j]),
                decreases cells.len() - i,
            {
                assert(all[i as int] == cells@[i as int]@);
                match cells[i].member("v") {
                    Some(value) => values.push(value.clone()),
                    None => values.push(Json::Null),
                }
                i += 1;
            }
        },
        None => {
            let mut i: usize = 0;
            while i < width
                invariant
                    i <= width,
                    values.len() == i,
                    forall|j: int| 0 <= j < i ==> (#[trigger] values@[j])@ == JsonView::Null,
                decreases width - i,
            {
                values.push(Json::Null);
                i += 1;
            }
        },
    }
    assert(values.deep_view() =~= row_cells(row@, width as nat));
    values
}

/// What one answer holds of a query: the names of the columns, the rows up to
/// `cap` of them, whether there are more, and where the next page is.
pub fn parse_query_response(value: &Json, cap: usize) -> (page: (
    Vec<String>,
    Vec<Vec<Json>>,
    bool,
    Option<String>,
))
    ensures
        page.0.deep_view() == page_columns(value@),
        page.1.deep_view() == page_rows(value@, cap as nat),
        page.2 == page_truncated(value@, cap as nat),
        page.3.deep_view() == page_token(value@),
{
    let columns: Vec<String> = match value.member("schema") {
        Some(schema) => match schema.array_member("fields") {
            Some(fields) => texts(fields, "name"),
            None => Vec::new(),
        },
        None => Vec::new(),
    };
    assert(columns.deep_view() =~= page_columns(value@));
    let mut rows: Vec<Vec<Json>> = Vec::new();
    if let Some(rowset) = value.array_member("rows") {
        let ghost all = rowset.deep_view();
        let mut i: usize = 0;
        while i < rowset.len() && i < cap
            invariant
                i <= rowset.len(),
                i <= cap,
                all == rowset.deep_view(),
                rows.len() == i,
                columns.deep_view() == page_columns(value@),
                forall|j: int|
                    0 <= j < i ==> (#[trigger] rows@[j]).deep_view() == row_cells(
                        all[j],
                        page_columns(value@).len(),
                    ),
            decreases rowset.len() - i,
        {
            assert(all[i as int] == rowset@[i as int]@);
            assert(columns.len() == columns.deep_view().len());
            rows.push(cells_of(&rowset[i], columns.len()));
            i += 1;
        }
    }
    assert(rows.deep_view() =~= page_rows(value@, cap as nat));
    let token = crate::text::owned(value.text_member("pageToken"));
    let more = match value.text_member("totalRows") {
        Some(total) => match parse_usize(total) {
            Some(n) => n > rows.len(),
            None => false,
        },
        None => false,
    };
    assert(rows.len() == rows.deep_view().len());
    let truncated = token.is_some() || more;
    (columns, rows, truncated, token)
}

// ------------------------------------------------------------------------ laws

/// An exchange gives the document in the body of an answer that stands for
/// success. Every other exchange fails, and its message says all that is known of
/// the failure.
pub proof fn an_exchange_gives_its_document(
    value: JsonView,
    status: Seq<char>,
    body: Seq<char>,
    why: Seq<char>,
)
    ensures
        parsed(body) == Ok::<JsonView, Seq<char>>(value) ==> answer(
            ExchangeView::Answered { success: true, status, body },
        ) == Ok::<JsonView, Seq<char>>(value),
        parsed(body) == Err::<JsonView, Seq<char>>(why) ==> answer(
            ExchangeView::Answered { success: true, status, body },
        ) == Err::<JsonView, Seq<char>>(
            "BigQuery JSON response parse failed: "@ + why + ": "@ + body,
        ),
        answer(ExchangeView::Answered { success: false, status, body }) == Err::<
            JsonView,
            Seq<char>,
        >("BigQuery returned HTTP "@ + status + ": "@ + body),
        answer(ExchangeView::SendFailed(why)) == Err::<JsonView, Seq<char>>(
            "BigQuery request failed: "@ + why,
        ),
        answer(ExchangeView::ReadFailed(why)) == Err::<JsonView, Seq<char>>(
            "BigQuery response read failed: "@ + why,
        ),
{
}

/// Of the errors that an answer lists the first counts, and whatever follows it
/// does not. Without errors there is none to report.
pub proof fn the_first_error_is_reported(
    value: JsonView,
    error: JsonView,
    others: Seq<JsonView>,
)
    ensures
        value.array_member("errors"@) == Some(seq![error] + others) ==> first_error(value)
            == error.text_member("message"@),
        value.array_member("errors"@) == Some(Seq::<JsonView>::empty()) ==> first_error(value)
            is None,
        value.array_member("errors"@) is None ==> first_error(value) is None,
{
    assert((seq![error] + others)[0] == error);
}

/// The fields that an answer describes its columns by.
pub open spec fn described_by(value: JsonView, fields: Seq<JsonView>) -> bool {
    value.member("schema"@) matches Some(schema) && schema.array_member("fields"@) == Some(fields)
}

proof fn texts_go_piece_by_piece(before: Seq<JsonView>, after: Seq<JsonView>, key: Seq<char>)
    ensures
        texts_under(before + after, key) == texts_under(before, key) + texts_under(after, key),
    decreases after.len(),
{
    if after.len() == 0 {
        assert(before + after =~= before);
        assert(texts_under(before, key) + texts_under(after, key) =~= texts_under(before, key));
    } else {
        texts_go_piece_by_piece(before, after.drop_last(), key);
        assert((before + after).drop_last() =~= before + after.drop_last());
        assert(texts_under(before + after, key) =~= texts_under(before, key) + texts_under(
            after,
            key,
        ));
    }
}

/// The columns of an answer are the names of its fields in their order: the
/// columns of fields that follow on others follow on the columns of these, a
/// field with a name is one column of that name, and one without is none.
pub proof fn columns_go_by_the_names_of_the_fields(
    both: JsonView,
    left: JsonView,
    right: JsonView,
    before: Seq<JsonView>,
    after: Seq<JsonView>,
)
    requires
        described_by(left, before),
        described_by(right, after),
        described_by(both, before + after),
    ensures
        page_columns(both) == page_columns(left) + page_columns(right),
        before.len() == 0 ==> page_columns(left).len() == 0,
        before.len() == 1 ==> page_columns(left) == (match before[0].text_member("name"@) {
            Some(name) => seq![name],
            None => Seq::empty(),
        }),
{
    texts_go_piece_by_piece(before, after, "name"@);
    if before.len() == 1 {
        assert(texts_under(before.drop_last(), "name"@) =~= Seq::empty());
        assert(before.last() == before[0]);
        assert(page_columns(left) =~= (match before[0].text_member("name"@) {
            Some(name) => seq![name],
            None => Seq::empty(),
        }));
    }
}

/// The rows of a page are those of the answer in their order, as many as are
/// wanted; each cell is what the answer has under `v`, or null. A row without
/// cells is null in every column.
pub proof fn rows_go_by_the_cells(
    value: JsonView,
    rows: Seq<JsonView>,
    cap: nat,
    i: int,
    j: int,
)
    requires
        value.array_member("rows"@) == Some(rows),
    ensures
        page_rows(value, cap).len() == (if rows.len() <= cap {
            rows.len()
        } else {
            cap
        }),
        0 <= i < page_rows(value, cap).len() ==> (match rows[i].array_member("f"@) {
            Some(cells) => page_rows(value, cap)[i].len() == cells.len() && (0 <= j < cells.len()
                ==> page_rows(value, cap)[i][j] == (match cells[j].member("v"@) {
                Some(held) => held,
                None => JsonView::Null,
            })),
            None => page_rows(value, cap)[i].len() == page_columns(value).len() && (0 <= j
                < page_columns(value).len() ==> page_rows(value, cap)[i][j] == JsonView::Null),
        }),
{
}

/// An answer without rows, or without a description of columns, has none.
pub proof fn a_page_may_be_empty(value: JsonView, cap: nat)
    ensures
        value.array_member("rows"@) is None ==> page_rows(value, cap).len() == 0,
        value.member("schema"@) is None ==> page_columns(value).len() == 0,
        page_token(value) == value.text_member("pageToken"@),
{
}

/// A page says that rows are missing where there is a further page, or where the
/// answer counts more rows than were read from it, and nowhere else.
pub proof fn rows_are_missing_where_more_are_counted(value: JsonView, total: nat, cap: nat)
    ensures
        value.text_member("pageToken"@) is Some ==> page_truncated(value, cap),
        value.text_member("pageToken"@) is None && value.text_member("totalRows"@) is None
            ==> !page_truncated(value, cap),
        value.text_member("pageToken"@) is None && value.text_member("totalRows"@) == Some(
            decimal(total),
        ) && total <= usize::MAX ==> (page_truncated(value, cap) <==> page_rows(value, cap).len()
            < total),
{
    decimal_reads_back(total);
}

/// What is made of an answer is what these laws speak of.
pub proof fn an_answer_is_read_by_these_laws(
    exchange: &Exchange,
    result: Result<Json, String>,
    value: &Json,
    cap: usize,
    page: (Vec<String>, Vec<Vec<Json>>, bool, Option<String>),
    message: Option<String>,
)
    ensures
        call_ensures(request_json, (exchange,), result) ==> outcome(result) == answer(exchange@),
        call_ensures(query_error, (value,), message) ==> message.deep_view() == first_error(value@),
        call_ensures(parse_query_response, (value, cap), page) ==> page.0.deep_view()
            == page_columns(value@) && page.1.deep_view() == page_rows(value@, cap as nat) && page.2
            == page_truncated(value@, cap as nat) && page.3.deep_view() == value@.text_member(
            "pageToken"@,
        ),
{
}

} // verus!
