//! The response normaliser: from one JSON payload and the endpoint it came
//! from to the tables it holds.
//!
//! The normaliser never fails on a payload it does not understand: it hands
//! back fewer tables, or none.

use vstd::prelude::*;
use vstd::string::StringExecFns;
use crate::domain::endpoint::{EndpointName, ShapeCategory};
use crate::domain::schema_table::{SchemaTable, SchemaTableView};
use crate::error::ExplorerError;
use crate::logic::json::{
    cell_text, flatten_nested, key_set, lemma_member_present, listing_of, lookup, member,
    sorted_keys, JsonValue,
};
use crate::sorted::lists;

verus! {

/// The members of an object; none for any other value.
pub open spec fn members_of(value: JsonValue) -> Seq<(String, JsonValue)> {
    match value {
        JsonValue::Object(members) => members@,
        _ => Seq::empty(),
    }
}

/// Every element is an object.
pub open spec fn all_objects(arr: Seq<JsonValue>) -> bool {
    forall|i: int| 0 <= i < arr.len() ==> #[trigger] arr[i] is Object
}

/// The cell of a record under one header: the member of that name as a
/// cell, `N/A` where the record has no such member.
pub open spec fn row_cell(members: Seq<(String, JsonValue)>, header: Seq<char>) -> Seq<char> {
    match member(members, header) {
        Some(v) => cell_text(v),
        None => "N/A"@,
    }
}

/// The row of one array element under the headers given. What is no
/// object has `ERROR` in every cell.
pub open spec fn row_of(item: JsonValue, headers: Seq<Seq<char>>) -> Seq<Seq<char>> {
    match item {
        JsonValue::Object(members) => Seq::new(
            headers.len(),
            |i: int| row_cell(members@, headers[i]),
        ),
        _ => Seq::new(headers.len(), |i: int| "ERROR"@),
    }
}

/// How many of `len` records are shown under the cap given.
pub open spec fn shown_rows(len: nat, cap: Option<usize>) -> nat {
    match cap {
        Some(c) => if c < len {
            c as nat
        } else {
            len
        },
        None => len,
    }
}

/// The table of an array of records: none for an empty array or one that
/// holds anything but objects; else the headers are the names of the first
/// record's members in increasing order, the rows are the first records up
/// to the cap, and all records are counted.
pub open spec fn array_table(title: Seq<char>, arr: Seq<JsonValue>, cap: Option<usize>) -> Option<
    SchemaTableView,
> {
    if arr.len() > 0 && all_objects(arr) {
        let headers = listing_of(key_set(members_of(arr[0])));
        Some(
            SchemaTableView {
                title,
                headers,
                rows: Seq::new(shown_rows(arr.len(), cap), |i: int| row_of(arr[i], headers)),
                total_records: arr.len(),
            },
        )
    } else {
        None
    }
}

/// The rows of a flat record: one per member name, in increasing order of
/// the names, each holding the name and the member as a cell.
pub open spec fn flat_rows(members: Seq<(String, JsonValue)>) -> Seq<Seq<Seq<char>>> {
    let keys = listing_of(key_set(members));
    Seq::new(keys.len(), |i: int| seq![keys[i], row_cell(members, keys[i])])
}

/// The tables of a flat record: one table of the columns `Field` and
/// `Value` for an object, none for any other value.
pub open spec fn flat_tables(title: Seq<char>, json: JsonValue) -> Seq<SchemaTableView> {
    match json {
        JsonValue::Object(members) => seq![
            SchemaTableView {
                title,
                headers: seq!["Field"@, "Value"@],
                rows: flat_rows(members@),
                total_records: flat_rows(members@).len(),
            },
        ],
        _ => Seq::empty(),
    }
}

/// The table of the array that is the member `key`, titled with the
/// endpoint's name and `label`; none where there is no such array or it
/// gives no table.
pub open spec fn named_table(
    prefix: Seq<char>,
    members: Seq<(String, JsonValue)>,
    key: Seq<char>,
    label: Seq<char>,
    cap: Option<usize>,
) -> Option<SchemaTableView> {
    match member(members, key) {
        Some(JsonValue::Array(arr)) => array_table(prefix + " - "@ + label, arr@, cap),
        _ => None,
    }
}

/// `tables`, followed by `table` where there is one.
pub open spec fn with_table(tables: Seq<SchemaTableView>, table: Option<SchemaTableView>) -> Seq<
    SchemaTableView,
> {
    match table {
        Some(t) => tables.push(t),
        None => tables,
    }
}

/// The tables of a collection of reports: one per array that is there, of
/// the annual and quarterly reports and the annual and quarterly earnings,
/// in that order.
pub open spec fn report_tables(prefix: Seq<char>, json: JsonValue, cap: Option<usize>) -> Seq<
    SchemaTableView,
> {
    let m = members_of(json);
    let t1 = named_table(prefix, m, "annualReports"@, "annualReports"@, cap);
    let t2 = named_table(prefix, m, "quarterlyReports"@, "quarterlyReports"@, cap);
    let t3 = named_table(prefix, m, "annualEarnings"@, "annualEarnings"@, cap);
    let t4 = named_table(prefix, m, "quarterlyEarnings"@, "quarterlyEarnings"@, cap);
    with_table(with_table(with_table(with_table(Seq::empty(), t1), t2), t3), t4)
}

/// The tables of a feed: the table of the array `feed`, where it gives one.
pub open spec fn feed_tables(prefix: Seq<char>, json: JsonValue, cap: Option<usize>) -> Seq<
    SchemaTableView,
> {
    with_table(Seq::empty(), named_table(prefix, members_of(json), "feed"@, "Feed"@, cap))
}

/// The tables of the movers: one per array that is there, of the gainers,
/// the losers and the most traded, in that order.
pub open spec fn mover_tables(prefix: Seq<char>, json: JsonValue, cap: Option<usize>) -> Seq<
    SchemaTableView,
> {
    let m = members_of(json);
    let t1 = named_table(prefix, m, "top_gainers"@, "top_gainers"@, cap);
    let t2 = named_table(prefix, m, "top_losers"@, "top_losers"@, cap);
    let t3 = named_table(prefix, m, "most_actively_traded"@, "most_actively_traded"@, cap);
    with_table(with_table(with_table(Seq::empty(), t1), t2), t3)
}

/// The tables of a payload of no known layout: an object is read as a flat
/// record, an array as an array of records, anything else gives nothing.
pub open spec fn generic_tables(title: Seq<char>, json: JsonValue, cap: Option<usize>) -> Seq<
    SchemaTableView,
> {
    match json {
        JsonValue::Object(_) => flat_tables(title, json),
        JsonValue::Array(arr) => with_table(Seq::empty(), array_table(title, arr@, cap)),
        _ => Seq::empty(),
    }
}

/// The tables of a payload of the endpoint given.
pub open spec fn normalize(endpoint: EndpointName, json: JsonValue, cap: Option<usize>) -> Seq<
    SchemaTableView,
> {
    match endpoint.shape_spec() {
        ShapeCategory::FlatRecord => flat_tables(endpoint.name_spec(), json),
        ShapeCategory::ReportCollection => report_tables(endpoint.name_spec(), json, cap),
        ShapeCategory::Feed => feed_tables(endpoint.name_spec(), json, cap),
        ShapeCategory::Movers => mover_tables(endpoint.name_spec(), json, cap),
        ShapeCategory::Generic => generic_tables(endpoint.name_spec(), json, cap),
    }
}

/// The cells of one array element under the headers given.
pub fn extract_row(item: &JsonValue, headers: &Vec<String>) -> (row: Vec<String>)
    ensures
        row.deep_view() == row_of(*item, headers.deep_view()),
{
    let mut row: Vec<String> = Vec::new();
    let mut i: usize = 0;
    match item {
        JsonValue::Object(members) => {
            while i < headers.len()
                invariant
                    i <= headers@.len(),
                    row@.len() == i,
                    forall|k: int|
                        0 <= k < i ==> (#[trigger] row@[k])@ == row_cell(
                            members@,
                            headers.deep_view()[k],
                        ),
                decreases headers@.len() - i,
            {
                assert(headers.deep_view()[i as int] == headers@[i as int]@);
                let cell = match lookup(members, headers[i].as_str()) {
                    Some(v) => flatten_nested(v),
                    None => String::from_str("N/A"),
                };
                row.push(cell);
                i += 1;
            }
            assert(row.deep_view() =~= row_of(*item, headers.deep_view()));
        },
        _ => {
            while i < headers.len()
                invariant
                    i <= headers@.len(),
                    row@.len() == i,
                    forall|k: int| 0 <= k < i ==> (#[trigger] row@[k])@ == "ERROR"@,
                decreases headers@.len() - i,
            {
                row.push(String::from_str("ERROR"));
                i += 1;
            }
            assert(row.deep_view() =~= row_of(*item, headers.deep_view()));
        },
    }
    row
}

/// Whether every element is an object.
fn only_objects(arr: &[JsonValue]) -> (r: bool)
    ensures
        r == all_objects(arr@),
{
    let mut i: usize = 0;
    while i < arr.len()
        invariant
            i <= arr@.len(),
            forall|k: int| 0 <= k < i ==> #[trigger] arr@[k] is Object,
        decreases arr@.len() - i,
    {
        match &arr[i] {
            JsonValue::Object(_) => {},
            _ => {
                return false;
            },
        }
        i += 1;
    }
    true
}

/// Turns an array of records into a table titled `title` that shows
/// `row_cap` rows at most, or all of them where no cap is given.
pub fn parse_array_to_table(title: String, arr: &[JsonValue], row_cap: Option<usize>) -> (table:
    Option<SchemaTable>)
    ensures
        match table {
            Some(t) => array_table(title@, arr@, row_cap) == Some(t@),
            None => array_table(title@, arr@, row_cap) is None,
        },
{
    if arr.len() == 0 {
        return None;
    }
    if !only_objects(arr) {
        return None;
    }
    let headers = match &arr[0] {
        JsonValue::Object(members) => sorted_keys(members),
        _ => {
            return None;
        },
    };
    let total_records = arr.len();
    let shown: usize = match row_cap {
        Some(c) => if c < total_records {
            c
        } else {
            total_records
        },
        None => total_records,
    };
    let mut rows: Vec<Vec<String>> = Vec::new();
    let mut i: usize = 0;
    while i < shown
        invariant
            i <= shown <= arr@.len(),
            rows@.len() == i,
            forall|k: int|
                0 <= k < i ==> (#[trigger] rows@[k]).deep_view() == row_of(
                    arr@[k],
                    headers.deep_view(),
                ),
        decreases shown - i,
    {
        let row = extract_row(&arr[i], &headers);
        rows.push(row);
        i += 1;
    }
    let table = SchemaTable { title, headers, rows, total_records };
    proof {
        let expected = array_table(title@, arr@, row_cap)->0;
        assert(table@.rows =~= expected.rows);
        assert(table@ == expected);
    }
    Some(table)
}

/// Turns an object into the table of its members; any other value gives
/// no table.
pub fn parse_flat_map(title: &str, json: &JsonValue) -> (tables: Vec<SchemaTable>)
    ensures
        tables.deep_view() == flat_tables(title@, *json),
{
    let mut tables: Vec<SchemaTable> = Vec::new();
    match json {
        JsonValue::Object(members) => {
            let keys = sorted_keys(members);
            let mut rows: Vec<Vec<String>> = Vec::new();
            let mut i: usize = 0;
            while i < keys.len()
                invariant
                    i <= keys@.len(),
                    rows@.len() == i,
                    forall|k: int|
                        0 <= k < i ==> (#[trigger] rows@[k]).deep_view() == seq![
                            keys.deep_view()[k],
                            row_cell(members@, keys.deep_view()[k]),
                        ],
                decreases keys@.len() - i,
            {
                assert(keys.deep_view()[i as int] == keys@[i as int]@);
                let cell = match lookup(members, keys[i].as_str()) {
                    Some(v) => flatten_nested(v),
                    None => String::from_str("N/A"),
                };
                let mut row: Vec<String> = Vec::new();
                row.push(keys[i].clone());
                row.push(cell);
                assert(row.deep_view() =~= seq![
                    keys.deep_view()[i as int],
                    row_cell(members@, keys.deep_view()[i as int]),
                ]);
                rows.push(row);
                i += 1;
            }
            let mut headers: Vec<String> = Vec::new();
            headers.push(String::from_str("Field"));
            headers.push(String::from_str("Value"));
            let table = SchemaTable::new(String::from_str(title), headers, rows);
            proof {
                let expected = flat_tables(title@, *json)[0];
                assert(table@.headers =~= expected.headers);
                assert(table@.rows =~= expected.rows);
                assert(table@ == expected);
            }
            tables.push(table);
            assert(tables.deep_view() =~= flat_tables(title@, *json));
        },
        _ => {
            assert(tables.deep_view() =~= flat_tables(title@, *json));
        },
    }
    tables
}

/// Adds to `tables` the table of the array that is the member `key`,
/// where it gives one.
fn push_named_table(
    tables: &mut Vec<SchemaTable>,
    prefix: &str,
    members: &Vec<(String, JsonValue)>,
    key: &str,
    label: &str,
    row_cap: Option<usize>,
)
    ensures
        final(tables).deep_view() == with_table(
            old(tables).deep_view(),
            named_table(prefix@, members@, key@, label@, row_cap),
        ),
{
    let ghost before = tables.deep_view();
    match lookup(members, key) {
        Some(JsonValue::Array(arr)) => {
            let mut title = String::from_str(prefix);
            title.append(" - ");
            title.append(label);
            match parse_array_to_table(title, arr.as_slice(), row_cap) {
                Some(table) => {
                    tables.push(table);
                    assert(tables.deep_view() =~= before.push(table@));
                },
                None => {},
            }
        },
        _ => {},
    }
}

/// Turns a collection of reports into tables.
pub fn parse_financials(endpoint: EndpointName, json: &JsonValue, row_cap: Option<usize>) -> (tables:
    Vec<SchemaTable>)
    ensures
        tables.deep_view() == report_tables(endpoint.name_spec(), *json, row_cap),
{
    let mut tables: Vec<SchemaTable> = Vec::new();
    assert(tables.deep_view() =~= Seq::<SchemaTableView>::empty());
    match json {
        JsonValue::Object(members) => {
            let name = endpoint.function_name();
            push_named_table(&mut tables, name, members, "annualReports", "annualReports", row_cap);
            push_named_table(
                &mut tables,
                name,
                members,
                "quarterlyReports",
                "quarterlyReports",
                row_cap,
            );
            push_named_table(
                &mut tables,
                name,
                members,
                "annualEarnings",
                "annualEarnings",
                row_cap,
            );
            push_named_table(
                &mut tables,
                name,
                members,
                "quarterlyEarnings",
                "quarterlyEarnings",
                row_cap,
            );
        },
        _ => {},
    }
    tables
}

/// Turns a feed into its table.
pub fn parse_news(endpoint: EndpointName, json: &JsonValue, row_cap: Option<usize>) -> (tables: Vec<
    SchemaTable,
>)
    ensures
        tables.deep_view() == feed_tables(endpoint.name_spec(), *json, row_cap),
{
    let mut tables: Vec<SchemaTable> = Vec::new();
    assert(tables.deep_view() =~= Seq::<SchemaTableView>::empty());
    match json {
        JsonValue::Object(members) => {
            push_named_table(&mut tables, endpoint.function_name(), members, "feed", "Feed", row_cap);
        },
        _ => {},
    }
    tables
}

/// Turns the movers into tables.
pub fn parse_top_movers(endpoint: EndpointName, json: &JsonValue, row_cap: Option<usize>) -> (tables:
    Vec<SchemaTable>)
    ensures
        tables.deep_view() == mover_tables(endpoint.name_spec(), *json, row_cap),
{
    let mut tables: Vec<SchemaTable> = Vec::new();
    assert(tables.deep_view() =~= Seq::<SchemaTableView>::empty());
    match json {
        JsonValue::Object(members) => {
            let name = endpoint.function_name();
            push_named_table(&mut tables, name, members, "top_gainers", "top_gainers", row_cap);
            push_named_table(&mut tables, name, members, "top_losers", "top_losers", row_cap);
            push_named_table(
                &mut tables,
                name,
                members,
                "most_actively_traded",
                "most_actively_traded",
                row_cap,
            );
        },
        _ => {},
    }
    tables
}

/// Turns a payload of no known layout into tables.
pub fn parse_generic(title: &str, json: &JsonValue, row_cap: Option<usize>) -> (tables: Vec<
    SchemaTable,
>)
    ensures
        tables.deep_view() == generic_tables(title@, *json, row_cap),
{
    match json {
        JsonValue::Object(_) => parse_flat_map(title, json),
        JsonValue::Array(arr) => {
            let mut tables: Vec<SchemaTable> = Vec::new();
            assert(tables.deep_view() =~= Seq::<SchemaTableView>::empty());
            match parse_array_to_table(String::from_str(title), arr.as_slice(), row_cap) {
                Some(table) => {
                    tables.push(table);
                    assert(tables.deep_view() =~= Seq::<SchemaTableView>::empty().push(table@));
                },
                None => {},
            }
            tables
        },
        _ => {
            let tables: Vec<SchemaTable> = Vec::new();
            assert(tables.deep_view() =~= Seq::<SchemaTableView>::empty());
            tables
        },
    }
}

/// Turns one payload of the endpoint given into tables. Arrays of records
/// show `row_cap` rows at most, or all of them where no cap is given.
///
/// The result is always `Ok`.
pub fn parse_json_to_tables(endpoint: EndpointName, json: &JsonValue, row_cap: Option<usize>) -> (r:
    Result<Vec<SchemaTable>, ExplorerError>)
    ensures
        r matches Ok(tables) && tables.deep_view() == normalize(endpoint, *json, row_cap),
{
    Ok(
        match endpoint.shape() {
            ShapeCategory::FlatRecord => parse_flat_map(endpoint.function_name(), json),
            ShapeCategory::ReportCollection => parse_financials(endpoint, json, row_cap),
            ShapeCategory::Feed => parse_news(endpoint, json, row_cap),
            ShapeCategory::Movers => parse_top_movers(endpoint, json, row_cap),
            ShapeCategory::Generic => parse_generic(endpoint.function_name(), json, row_cap),
        },
    )
}

/// A table of an array shows as many rows as the cap allows and counts all
/// records; its rows are as long as its headers.
pub proof fn lemma_array_table_shape(title: Seq<char>, arr: Seq<JsonValue>, cap: Option<usize>)
    requires
        array_table(title, arr, cap) is Some,
    ensures
        ({
            let t = array_table(title, arr, cap)->0;
            &&& t.total_records == arr.len()
            &&& t.rows.len() == shown_rows(arr.len(), cap)
            &&& t.rows.len() <= t.total_records
            &&& cap is None ==> t.rows.len() == arr.len()
            &&& t.rows_aligned()
        }),
{
    let t = array_table(title, arr, cap)->0;
    assert forall|i: int| 0 <= i < t.rows.len() implies (#[trigger] t.rows[i]).len()
        == t.headers.len() by {
        assert(t.rows[i] == row_of(arr[i], t.headers));
    }
}

/// Every table that the normaliser gives has rows as long as its headers,
/// and counts at least the rows it shows.
pub proof fn lemma_normalized_tables_aligned(
    endpoint: EndpointName,
    json: JsonValue,
    cap: Option<usize>,
)
    ensures
        forall|i: int|
            0 <= i < normalize(endpoint, json, cap).len() ==> (#[trigger] normalize(
                endpoint,
                json,
                cap,
            )[i]).rows_aligned() && normalize(endpoint, json, cap)[i].rows.len() <= normalize(
                endpoint,
                json,
                cap,
            )[i].total_records,
{
    let name = endpoint.name_spec();
    let m = members_of(json);
    assert forall|t: Seq<SchemaTableView>, key: Seq<char>, label: Seq<char>|
        sound(t) implies sound(#[trigger] with_table(t, named_table(name, m, key, label, cap))) by {
        lemma_with_named_sound(t, name, m, key, label, cap);
    }
    assert(sound(Seq::<SchemaTableView>::empty()));
    lemma_flat_sound(name, json);
    match json {
        JsonValue::Array(arr) => {
            lemma_with_array_sound(Seq::empty(), name, arr@, cap);
        },
        _ => {},
    }
    assert(sound(normalize(endpoint, json, cap)));
}

/// Every table has rows as long as its headers and counts at least the
/// rows it shows.
pub open spec fn sound(tables: Seq<SchemaTableView>) -> bool {
    forall|i: int|
        0 <= i < tables.len() ==> (#[trigger] tables[i]).rows_aligned() && tables[i].rows.len()
            <= tables[i].total_records
}

proof fn lemma_with_array_sound(
    tables: Seq<SchemaTableView>,
    title: Seq<char>,
    arr: Seq<JsonValue>,
    cap: Option<usize>,
)
    requires
        sound(tables),
    ensures
        sound(with_table(tables, array_table(title, arr, cap))),
{
    if array_table(title, arr, cap) is Some {
        lemma_array_table_shape(title, arr, cap);
    }
}

proof fn lemma_with_named_sound(
    tables: Seq<SchemaTableView>,
    prefix: Seq<char>,
    members: Seq<(String, JsonValue)>,
    key: Seq<char>,
    label: Seq<char>,
    cap: Option<usize>,
)
    requires
        sound(tables),
    ensures
        sound(with_table(tables, named_table(prefix, members, key, label, cap))),
{
    match member(members, key) {
        Some(JsonValue::Array(arr)) => {
            lemma_with_array_sound(tables, prefix + " - "@ + label, arr@, cap);
        },
        _ => {},
    }
}

proof fn lemma_flat_sound(title: Seq<char>, json: JsonValue)
    ensures
        sound(flat_tables(title, json)),
{
    reveal_strlit("Field");
    reveal_strlit("Value");
    match json {
        JsonValue::Object(members) => {
            let t = flat_tables(title, json)[0];
            assert(t.headers.len() == 2);
            assert forall|i: int| 0 <= i < t.rows.len() implies (#[trigger] t.rows[i]).len()
                == t.headers.len() by {
                assert(t.rows[i].len() == 2);
            }
        },
        _ => {},
    }
}

/// The rows of a flat record are in increasing order of the member names,
/// one per name.
pub proof fn lemma_flat_rows_sorted(members: Seq<(String, JsonValue)>, keys: Seq<Seq<char>>)
    requires
        lists(keys, key_set(members)),
    ensures
        flat_rows(members).len() == keys.len(),
        forall|i: int|
            0 <= i < keys.len() ==> (#[trigger] flat_rows(members)[i]) == seq![
                keys[i],
                cell_text(member(members, keys[i])->0),
            ],
{
    crate::logic::json::lemma_listing_of(keys, key_set(members));
    assert forall|i: int| 0 <= i < keys.len() implies (#[trigger] flat_rows(members)[i]) == seq![
        keys[i],
        cell_text(member(members, keys[i])->0),
    ] by {
        assert(keys.contains(keys[i]));
        lemma_member_present(members, keys[i]);
    }
}

/// Normalising is a function of its input: the same payload gives the
/// same tables, whenever it is normalised.
pub proof fn lemma_normalize_repeatable(
    endpoint: EndpointName,
    json: JsonValue,
    cap: Option<usize>,
    first: Seq<SchemaTableView>,
    second: Seq<SchemaTableView>,
)
    requires
        first == normalize(endpoint, json, cap),
        second == normalize(endpoint, json, cap),
    ensures
        first == second,
{
}

} // verus!
