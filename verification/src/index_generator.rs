//! The index of a run: which fetches succeeded, and where the schemas of
//! the entities differ.

use vstd::prelude::*;
use vstd::string::StringExecFns;
use crate::domain::endpoint::EndpointName;
use crate::logic::json::{lemma_listing_of, listing_of};
use crate::markdown_writer::joined;
use crate::schema_analyzer::{SchemaDiff, SchemaDiffView};
use crate::sorted::{insert_sorted, lists};
use crate::text::{decimal, decimal_string, str_eq, strictly_sorted};
use crate::ticker_map::TickerMap;

verus! {

/// What a run has found.
pub struct ExecutionResults {
    /// Whether the fetch of each market-wide endpoint succeeded.
    pub market_status: Vec<(EndpointName, bool)>,
    /// For each ticker symbol, whether the fetch of each endpoint succeeded.
    pub ticker_status: TickerMap<Vec<(EndpointName, bool)>>,
    /// The diffs of the shapes that show drift.
    pub schema_diffs: Vec<SchemaDiff>,
    /// When the run began, as it is shown.
    pub started: String,
    /// How long the run took in seconds, once it has ended.
    pub duration_secs: Option<i64>,
}

impl ExecutionResults {
    /// The results of a run that began at the time given and has found
    /// nothing yet.
    pub fn new(started: String) -> (results: Self)
        ensures
            results.market_status@.len() == 0,
            results.ticker_status@ == Map::<Seq<char>, Seq<(EndpointName, bool)>>::empty(),
            results.schema_diffs@.len() == 0,
            results.started@ == started@,
            results.duration_secs is None,
    {
        ExecutionResults {
            market_status: Vec::new(),
            ticker_status: TickerMap::new(),
            schema_diffs: Vec::new(),
            started,
            duration_secs: None,
        }
    }
}

/// A whole number in decimal, with a minus sign where it is negative.
pub open spec fn signed_decimal(n: int) -> Seq<char> {
    if n < 0 {
        "-"@ + decimal((-n) as nat)
    } else {
        decimal(n as nat)
    }
}

/// The sign that shows whether a fetch succeeded.
pub open spec fn status_icon(success: bool) -> Seq<char> {
    if success {
        "✅"@
    } else {
        "❌"@
    }
}

/// The head of the index: the title, when the run began and, once it has
/// ended, how long it took.
pub open spec fn head_text(started: Seq<char>, duration_secs: Option<i64>) -> Seq<char> {
    "# Alpha Vantage Explorer Report\n\n**Generated:** "@ + started + "\n"@ + match duration_secs {
        Some(d) => "**Duration:** "@ + signed_decimal(d as int) + "s\n"@,
        None => Seq::empty(),
    } + "\n"@
}

/// The names of the endpoints that have a status.
pub open spec fn status_names(statuses: Seq<(EndpointName, bool)>) -> Set<Seq<char>> {
    Set::new(
        |n: Seq<char>|
            exists|i: int| 0 <= i < statuses.len() && (#[trigger] statuses[i]).0.name_spec() == n,
    )
}

/// The status of the endpoint named `name`: the last that was noted;
/// failure where none was.
pub open spec fn status_of(statuses: Seq<(EndpointName, bool)>, name: Seq<char>) -> bool
    decreases statuses.len(),
{
    if statuses.len() == 0 {
        false
    } else if statuses.last().0.name_spec() == name {
        statuses.last().1
    } else {
        status_of(statuses.drop_last(), name)
    }
}

/// The line of one market-wide endpoint.
pub open spec fn market_line(name: Seq<char>, success: bool) -> Seq<char> {
    "| "@ + name + " | "@ + status_icon(success) + " | [View Report](market_"@ + name + ".md) |\n"@
}

/// The lines of the market-wide endpoints named.
pub open spec fn market_lines(statuses: Seq<(EndpointName, bool)>, names: Seq<Seq<char>>) -> Seq<
    char,
>
    decreases names.len(),
{
    if names.len() == 0 {
        Seq::empty()
    } else {
        market_lines(statuses, names.drop_last()) + market_line(
            names.last(),
            status_of(statuses, names.last()),
        )
    }
}

/// The part of the market-wide endpoints: one line per endpoint, in the
/// order of their names.
pub open spec fn market_text(statuses: Seq<(EndpointName, bool)>) -> Seq<char> {
    "## Market Overview\n| Endpoint | Status | Link |\n|---|---|---|\n"@ + market_lines(
        statuses,
        listing_of(status_names(statuses)),
    ) + "\n"@
}

/// How many of the fetches succeeded.
pub open spec fn passed_count(statuses: Seq<(EndpointName, bool)>) -> nat
    decreases statuses.len(),
{
    if statuses.len() == 0 {
        0
    } else {
        passed_count(statuses.drop_last()) + if statuses.last().1 {
            1nat
        } else {
            0nat
        }
    }
}

/// The line of one ticker symbol.
pub open spec fn ticker_line(ticker: Seq<char>, statuses: Seq<(EndpointName, bool)>) -> Seq<char> {
    "| **"@ + ticker + "** | "@ + decimal(passed_count(statuses)) + "/"@ + decimal(statuses.len())
        + " | [View Report](tickers/"@ + ticker + ".md) |\n"@
}

/// The lines of the ticker symbols named.
pub open spec fn ticker_lines(
    statuses: Map<Seq<char>, Seq<(EndpointName, bool)>>,
    names: Seq<Seq<char>>,
) -> Seq<char>
    decreases names.len(),
{
    if names.len() == 0 {
        Seq::empty()
    } else {
        ticker_lines(statuses, names.drop_last()) + ticker_line(names.last(), statuses[names.last()])
    }
}

/// The part of the ticker symbols: one line per symbol, in the order of
/// the symbols.
pub open spec fn tickers_text(statuses: Map<Seq<char>, Seq<(EndpointName, bool)>>) -> Seq<char> {
    "## Ticker Reports\n| Ticker | Success Rate | Link |\n|---|---|---|\n"@ + ticker_lines(
        statuses,
        listing_of(statuses.dom()),
    ) + "\n"@
}

/// The headers that an entity lacks, separated by commas; a hyphen where
/// it lacks none.
pub open spec fn missing_text(missing: Seq<Seq<char>>) -> Seq<char> {
    if missing.len() == 0 {
        "-"@
    } else {
        joined(missing, ", "@)
    }
}

/// The lines of the entities named in a diff.
pub open spec fn difference_lines(
    differences: Map<Seq<char>, (Seq<Seq<char>>, Seq<Seq<char>>)>,
    names: Seq<Seq<char>>,
) -> Seq<char>
    decreases names.len(),
{
    if names.len() == 0 {
        Seq::empty()
    } else {
        difference_lines(differences, names.drop_last()) + "| "@ + names.last() + " | "@
            + missing_text(differences[names.last()].0) + " |\n"@
    }
}

/// The part of one diff: nothing where no entity lacks a header; else the
/// shape, the number of headers, and one line per entity that lacks some,
/// in the order of the symbols.
pub open spec fn diff_text(d: SchemaDiffView) -> Seq<char> {
    if d.differences.dom() =~= Set::<Seq<char>>::empty() {
        Seq::empty()
    } else {
        "### "@ + d.endpoint.name_spec() + "\n> **Union Headers:** "@ + decimal(
            d.union_headers.len(),
        ) + "\n\n| Ticker | Missing Fields |\n|---|---|\n"@ + difference_lines(
            d.differences,
            listing_of(d.differences.dom()),
        ) + "\n"@
    }
}

/// The parts of the diffs given.
pub open spec fn diffs_text(diffs: Seq<SchemaDiffView>) -> Seq<char>
    decreases diffs.len(),
{
    if diffs.len() == 0 {
        Seq::empty()
    } else {
        diffs_text(diffs.drop_last()) + diff_text(diffs.last())
    }
}

/// The part of the schemas: nothing where there is no diff.
pub open spec fn discrepancies_text(diffs: Seq<SchemaDiffView>) -> Seq<char> {
    if diffs.len() == 0 {
        Seq::empty()
    } else {
        "## Schema Discrepancies\n"@ + diffs_text(diffs)
    }
}

/// The views of diffs.
pub open spec fn diff_views(diffs: Seq<SchemaDiff>) -> Seq<SchemaDiffView> {
    Seq::new(diffs.len(), |i: int| diffs[i]@)
}

/// The index of a run.
pub open spec fn index_text(results: ExecutionResults) -> Seq<char> {
    head_text(results.started@, results.duration_secs) + market_text(
        results.market_status.deep_view(),
    ) + tickers_text(results.ticker_status@) + discrepancies_text(
        diff_views(results.schema_diffs@),
    )
}

/// Renders a whole number.
pub fn signed_decimal_string(n: i64) -> (s: String)
    ensures
        s@ == signed_decimal(n as int),
{
    if n < 0 {
        let magnitude: u64 = if n == i64::MIN {
            9_223_372_036_854_775_808u64
        } else {
            (-n) as u64
        };
        let mut s = String::from_str("-");
        s.append(decimal_string(magnitude).as_str());
        s
    } else {
        decimal_string(n as u64)
    }
}

/// Looks up the status of the endpoint named `name`.
fn find_status(statuses: &Vec<(EndpointName, bool)>, name: &str) -> (r: bool)
    ensures
        r == status_of(statuses.deep_view(), name@),
{
    let ghost views = statuses.deep_view();
    let mut i: usize = statuses.len();
    assert(views.take(i as int) =~= views);
    while i > 0
        invariant
            i <= statuses@.len(),
            views == statuses.deep_view(),
            status_of(views, name@) == status_of(views.take(i as int), name@),
        decreases i,
    {
        i -= 1;
        proof {
            let part = views.take(i + 1);
            assert(part.last() == views[i as int]);
            assert(part.drop_last() =~= views.take(i as int));
            assert(views[i as int] == statuses@[i as int]);
        }
        if str_eq(statuses[i].0.function_name(), name) {
            return statuses[i].1;
        }
    }
    proof {
        assert(views.take(0).len() == 0);
    }
    false
}

/// The names of the endpoints that have a status, in increasing order.
fn sorted_status_names(statuses: &Vec<(EndpointName, bool)>) -> (names: Vec<String>)
    ensures
        names.deep_view() == listing_of(status_names(statuses.deep_view())),
{
    let ghost views = statuses.deep_view();
    let mut names: Vec<String> = Vec::new();
    let mut i: usize = 0;
    while i < statuses.len()
        invariant
            i <= statuses@.len(),
            views == statuses.deep_view(),
            lists(names.deep_view(), status_names(views.take(i as int))),
        decreases statuses@.len() - i,
    {
        let ghost before = names.deep_view();
        insert_sorted(&mut names, statuses[i].0.function_name());
        proof {
            let shorter = views.take(i as int);
            let longer = views.take(i + 1);
            assert(views[i as int] == statuses@[i as int]);
            assert forall|k: Seq<char>| status_names(longer).contains(k) <==> names.deep_view().contains(
                k,
            ) by {
                if status_names(longer).contains(k) {
                    let x = choose|x: int|
                        0 <= x < longer.len() && (#[trigger] longer[x]).0.name_spec() == k;
                    if x < i {
                        assert(shorter[x].0.name_spec() == k);
                        assert(status_names(shorter).contains(k));
                    }
                }
                if before.contains(k) {
                    assert(status_names(shorter).contains(k));
                    let x = choose|x: int|
                        0 <= x < shorter.len() && (#[trigger] shorter[x]).0.name_spec() == k;
                    assert(longer[x].0.name_spec() == k);
                }
                if k == views[i as int].0.name_spec() {
                    assert(longer[i as int].0.name_spec() == k);
                }
            }
        }
        i += 1;
    }
    proof {
        assert(views.take(i as int) =~= views);
        lemma_listing_of(names.deep_view(), status_names(views));
    }
    names
}

/// Counts the fetches that succeeded.
fn count_passed(statuses: &Vec<(EndpointName, bool)>) -> (n: usize)
    ensures
        n == passed_count(statuses.deep_view()),
{
    let ghost views = statuses.deep_view();
    let mut n: usize = 0;
    let mut i: usize = 0;
    assert(views.take(0).len() == 0);
    while i < statuses.len()
        invariant
            i <= statuses@.len(),
            views == statuses.deep_view(),
            n == passed_count(views.take(i as int)),
            n <= i,
        decreases statuses@.len() - i,
    {
        proof {
            assert(views.take(i + 1).drop_last() =~= views.take(i as int));
            assert(views.take(i + 1).last() == statuses@[i as int]);
        }
        if statuses[i].1 {
            n += 1;
        }
        i += 1;
    }
    assert(views.take(i as int) =~= views);
    n
}

/// The symbols of a map, in increasing order.
fn sorted_symbols<V: DeepView>(map: &TickerMap<V>) -> (names: Vec<String>)
    ensures
        names.deep_view() == listing_of(map@.dom()),
        lists(names.deep_view(), map@.dom()),
{
    let n = map.len();
    let ghost keys = map.spec_keys();
    let mut names: Vec<String> = Vec::new();
    let mut i: usize = 0;
    while i < n
        invariant
            i <= n,
            n == keys.len(),
            keys == map.spec_keys(),
            strictly_sorted(names.deep_view()),
            forall|k: Seq<char>| names.deep_view().contains(k) <==> keys.take(i as int).contains(k),
        decreases n - i,
    {
        let ghost before = names.deep_view();
        insert_sorted(&mut names, map.key(i).as_str());
        proof {
            assert forall|k: Seq<char>| names.deep_view().contains(k) <==> keys.take(i + 1).contains(
                k,
            ) by {
                let shorter = keys.take(i as int);
                let longer = keys.take(i + 1);
                if longer.contains(k) {
                    let x = choose|x: int| 0 <= x < longer.len() && longer[x] == k;
                    if x < i {
                        assert(shorter[x] == k);
                    }
                }
                if shorter.contains(k) {
                    let x = choose|x: int| 0 <= x < shorter.len() && shorter[x] == k;
                    assert(longer[x] == k);
                }
                if k == keys[i as int] {
                    assert(longer[i as int] == k);
                }
            }
        }
        i += 1;
    }
    proof {
        assert(keys.take(n as int) =~= keys);
        assert forall|k: Seq<char>| map@.dom().contains(k) <==> names.deep_view().contains(k) by {
            if keys.contains(k) {
                let x = choose|x: int| 0 <= x < keys.len() && keys[x] == k;
                assert(map@.dom().contains(keys[x]));
            }
        }
        lemma_listing_of(names.deep_view(), map@.dom());
    }
    names
}

/// Finds the value kept for the symbol named `name`.
fn value_named<'a, V: DeepView>(map: &'a TickerMap<V>, name: &str) -> (v: &'a V)
    requires
        map@.dom().contains(name@),
    ensures
        v.deep_view() == map@[name@],
{
    let n = map.len();
    let ghost keys = map.spec_keys();
    let mut i: usize = 0;
    while i < n
        invariant
            i <= n,
            n == keys.len(),
            keys == map.spec_keys(),
            map.indexed(),
            map@.dom().contains(name@),
            forall|k: int| 0 <= k < i ==> keys[k] != name@,
        decreases n - i,
    {
        if str_eq(map.key(i).as_str(), name) {
            return map.value(i);
        }
        i += 1;
    }
    proof {
        assert(keys.contains(name@));
        let x = choose|x: int| 0 <= x < keys.len() && keys[x] == name@;
        assert(false);
    }
    map.value(0)
}

/// Appends the part of the market-wide endpoints.
fn append_market(out: &mut String, statuses: &Vec<(EndpointName, bool)>)
    ensures
        final(out)@ == old(out)@ + market_text(statuses.deep_view()),
{
    let ghost start = out@;
    let ghost views = statuses.deep_view();
    out.append("## Market Overview\n| Endpoint | Status | Link |\n|---|---|---|\n");
    let names = sorted_status_names(statuses);
    let ghost head = out@;
    let ghost all = names.deep_view();
    let mut i: usize = 0;
    assert(all.take(0).len() == 0);
    assert(out@ =~= head + market_lines(views, all.take(0)));
    while i < names.len()
        invariant
            i <= names@.len(),
            all == names.deep_view(),
            views == statuses.deep_view(),
            out@ == head + market_lines(views, all.take(i as int)),
        decreases names@.len() - i,
    {
        proof {
            assert(all.take(i + 1).drop_last() =~= all.take(i as int));
            assert(all.take(i + 1).last() == names@[i as int]@);
        }
        let name = names[i].as_str();
        let ghost before = out@;
        out.append("| ");
        out.append(name);
        out.append(" | ");
        if find_status(statuses, name) {
            out.append("✅");
        } else {
            out.append("❌");
        }
        out.append(" | [View Report](market_");
        out.append(name);
        out.append(".md) |\n");
        assert(out@ =~= before + market_line(name@, status_of(views, name@)));
        assert(out@ =~= head + market_lines(views, all.take(i + 1)));
        i += 1;
    }
    out.append("\n");
    proof {
        assert(all.take(i as int) =~= all);
        assert(out@ =~= start + market_text(views));
    }
}

/// Appends the part of the ticker symbols.
fn append_tickers(out: &mut String, statuses: &TickerMap<Vec<(EndpointName, bool)>>)
    ensures
        final(out)@ == old(out)@ + tickers_text(statuses@),
{
    let ghost start = out@;
    let ghost m = statuses@;
    out.append("## Ticker Reports\n| Ticker | Success Rate | Link |\n|---|---|---|\n");
    let names = sorted_symbols(statuses);
    let ghost head = out@;
    let ghost all = names.deep_view();
    let mut i: usize = 0;
    assert(all.take(0).len() == 0);
    assert(out@ =~= head + ticker_lines(m, all.take(0)));
    while i < names.len()
        invariant
            i <= names@.len(),
            all == names.deep_view(),
            m == statuses@,
            lists(all, m.dom()),
            out@ == head + ticker_lines(m, all.take(i as int)),
        decreases names@.len() - i,
    {
        proof {
            assert(all.take(i + 1).drop_last() =~= all.take(i as int));
            assert(all.take(i + 1).last() == names@[i as int]@);
            assert(all.contains(all[i as int]));
        }
        let name = names[i].as_str();
        let entries = value_named(statuses, name);
        let ghost before = out@;
        out.append("| **");
        out.append(name);
        out.append("** | ");
        out.append(decimal_string(count_passed(entries) as u64).as_str());
        out.append("/");
        out.append(decimal_string(entries.len() as u64).as_str());
        out.append(" | [View Report](tickers/");
        out.append(name);
        out.append(".md) |\n");
        assert(out@ =~= before + ticker_line(name@, m[name@]));
        assert(out@ =~= head + ticker_lines(m, all.take(i + 1)));
        i += 1;
    }
    out.append("\n");
    proof {
        assert(all.take(i as int) =~= all);
        assert(out@ =~= start + tickers_text(m));
    }
}

/// Appends the part of one diff.
fn append_diff(out: &mut String, diff: &SchemaDiff)
    ensures
        final(out)@ == old(out)@ + diff_text(diff@),
{
    let ghost start = out@;
    let ghost d = diff@;
    if diff.differences.len() == 0 {
        proof {
            assert(d.differences.dom() =~= Set::<Seq<char>>::empty());
            assert(out@ =~= start + diff_text(d));
        }
        return ;
    }
    proof {
        assert(d.differences.dom().contains(diff.differences.spec_keys()[0]));
        assert(!(d.differences.dom() =~= Set::<Seq<char>>::empty()));
    }
    out.append("### ");
    out.append(diff.endpoint.function_name());
    out.append("\n> **Union Headers:** ");
    out.append(decimal_string(diff.union_headers.len() as u64).as_str());
    out.append("\n\n| Ticker | Missing Fields |\n|---|---|\n");
    let names = sorted_symbols(&diff.differences);
    let ghost head = out@;
    let ghost all = names.deep_view();
    let mut i: usize = 0;
    assert(all.take(0).len() == 0);
    assert(out@ =~= head + difference_lines(d.differences, all.take(0)));
    while i < names.len()
        invariant
            i <= names@.len(),
            all == names.deep_view(),
            d == diff@,
            lists(all, d.differences.dom()),
            out@ == head + difference_lines(d.differences, all.take(i as int)),
        decreases names@.len() - i,
    {
        proof {
            assert(all.take(i + 1).drop_last() =~= all.take(i as int));
            assert(all.take(i + 1).last() == names@[i as int]@);
            assert(all.contains(all[i as int]));
        }
        let name = names[i].as_str();
        let pair = value_named(&diff.differences, name);
        let ghost before = out@;
        out.append("| ");
        out.append(name);
        out.append(" | ");
        if pair.0.len() == 0 {
            out.append("-");
        } else {
            crate::markdown_writer::append_joined(out, &pair.0, ", ");
        }
        out.append(" |\n");
        proof {
            assert(pair.deep_view().0 == pair.0.deep_view());
            assert(out@ =~= before + "| "@ + name@ + " | "@ + missing_text(d.differences[name@].0)
                + " |\n"@);
            assert(out@ =~= head + difference_lines(d.differences, all.take(i + 1)));
        }
        i += 1;
    }
    out.append("\n");
    proof {
        assert(all.take(i as int) =~= all);
        assert(out@ =~= start + diff_text(d));
    }
}

/// Writes the index of a run as markdown: its head, the market-wide
/// endpoints and the ticker symbols with their outcomes, and the shapes
/// whose schemas differ between entities.
pub fn generate_index(results: &ExecutionResults) -> (text: String)
    ensures
        text@ == index_text(*results),
{
    let mut out = String::from_str("# Alpha Vantage Explorer Report\n\n**Generated:** ");
    out.append(results.started.as_str());
    out.append("\n");
    match results.duration_secs {
        Some(d) => {
            out.append("**Duration:** ");
            out.append(signed_decimal_string(d).as_str());
            out.append("s\n");
        },
        None => {},
    }
    out.append("\n");
    assert(out@ =~= head_text(results.started@, results.duration_secs));
    append_market(&mut out, &results.market_status);
    append_tickers(&mut out, &results.ticker_status);
    let ghost head = out@;
    let ghost views = diff_views(results.schema_diffs@);
    if results.schema_diffs.len() > 0 {
        out.append("## Schema Discrepancies\n");
        let ghost top = out@;
        let mut i: usize = 0;
        assert(views.take(0).len() == 0);
        assert(out@ =~= top + diffs_text(views.take(0)));
        while i < results.schema_diffs.len()
            invariant
                i <= results.schema_diffs@.len(),
                views == diff_views(results.schema_diffs@),
                out@ == top + diffs_text(views.take(i as int)),
            decreases results.schema_diffs@.len() - i,
        {
            proof {
                assert(views.take(i + 1).drop_last() =~= views.take(i as int));
                assert(views.take(i + 1).last() == results.schema_diffs@[i as int]@);
            }
            append_diff(&mut out, &results.schema_diffs[i]);
            assert(out@ =~= top + diffs_text(views.take(i + 1)));
            i += 1;
        }
        assert(views.take(i as int) =~= views);
    }
    assert(out@ =~= head + discrepancies_text(views));
    out
}

} // verus!
