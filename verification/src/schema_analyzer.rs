//! The schema-diff analyzer: which entities lack fields that other entities
//! queried with the same request shape have.

use vstd::prelude::*;
use crate::domain::endpoint::EndpointName;
use crate::domain::schema_table::{SchemaTable, SchemaTableView};
use crate::domain::ticker::TickerSymbol;
use crate::sorted::{contains_sorted, insert_sorted, lists};
use crate::text::strictly_sorted;
use crate::ticker_map::TickerMap;

verus! {

/// The findings for one request shape.
#[derive(Debug, Clone)]
pub struct SchemaDiff {
    /// The request shape.
    pub endpoint: EndpointName,
    /// Every header seen for the shape, each once, in increasing order.
    pub union_headers: Vec<String>,
    /// For each entity that lacks a header: the headers it lacks, in
    /// increasing order, and the headers it has beyond the union, of which
    /// there are none.
    pub differences: TickerMap<(Vec<String>, Vec<String>)>,
}

/// What a [`SchemaDiff`] holds, as plain values.
pub struct SchemaDiffView {
    pub endpoint: EndpointName,
    pub union_headers: Seq<Seq<char>>,
    pub differences: Map<Seq<char>, (Seq<Seq<char>>, Seq<Seq<char>>)>,
}

impl View for SchemaDiff {
    type V = SchemaDiffView;

    open spec fn view(&self) -> SchemaDiffView {
        SchemaDiffView {
            endpoint: self.endpoint,
            union_headers: self.union_headers.deep_view(),
            differences: self.differences@,
        }
    }
}

/// Some table among `tables` has the header `h`.
pub open spec fn tables_have(tables: Seq<SchemaTableView>, h: Seq<char>) -> bool {
    exists|t: int| 0 <= t < tables.len() && (#[trigger] tables[t]).headers.contains(h)
}

/// Some entity in `m` has the header `h` in one of its tables.
pub open spec fn shape_has(m: Map<Seq<char>, Seq<SchemaTableView>>, h: Seq<char>) -> bool {
    exists|k: Seq<char>| m.dom().contains(k) && tables_have(#[trigger] m[k], h)
}

/// The headers of all tables of all entities.
pub open spec fn union_of(m: Map<Seq<char>, Seq<SchemaTableView>>) -> Set<Seq<char>> {
    Set::new(|h: Seq<char>| shape_has(m, h))
}

/// The headers that some entity has and the entity `k` has not.
pub open spec fn missing_for(m: Map<Seq<char>, Seq<SchemaTableView>>, k: Seq<char>) -> Set<
    Seq<char>,
> {
    Set::new(|h: Seq<char>| shape_has(m, h) && !tables_have(m[k], h))
}

/// Whether `d` is the diff of the tables `m` for the shape `endpoint`.
pub open spec fn is_diff_of(
    d: SchemaDiffView,
    endpoint: EndpointName,
    m: Map<Seq<char>, Seq<SchemaTableView>>,
) -> bool {
    &&& d.endpoint == endpoint
    &&& lists(d.union_headers, union_of(m))
    &&& forall|k: Seq<char>| #[trigger]
        d.differences.dom().contains(k) <==> m.dom().contains(k) && missing_for(m, k) !== Set::<
            Seq<char>,
        >::empty()
    &&& forall|k: Seq<char>| #[trigger]
        d.differences.dom().contains(k) ==> lists(d.differences[k].0, missing_for(m, k))
            && d.differences[k].1.len() == 0
}

/// The diff is a function of the tables: two diffs of the same tables agree.
pub proof fn lemma_diff_determined(
    a: SchemaDiffView,
    b: SchemaDiffView,
    endpoint: EndpointName,
    m: Map<Seq<char>, Seq<SchemaTableView>>,
)
    requires
        is_diff_of(a, endpoint, m),
        is_diff_of(b, endpoint, m),
    ensures
        a == b,
{
    crate::sorted::lemma_listing_unique(a.union_headers, b.union_headers, union_of(m));
    assert forall|k: Seq<char>| a.differences.dom().contains(k) implies b.differences.dom().contains(
        k,
    ) && a.differences[k] == b.differences[k] by {
        assert(b.differences.dom().contains(k));
        crate::sorted::lemma_listing_unique(
            a.differences[k].0,
            b.differences[k].0,
            missing_for(m, k),
        );
        assert(a.differences[k].1 =~= b.differences[k].1);
    }
    assert forall|k: Seq<char>| b.differences.dom().contains(k) implies a.differences.dom().contains(
        k,
    ) by {
        assert(a.differences.dom().contains(k) <==> m.dom().contains(k) && missing_for(m, k)
            !== Set::<Seq<char>>::empty());
    }
    assert(a.differences =~= b.differences);
}

/// An entity never counts as lacking a header of its own, and lacks
/// nothing when it is the only one.
pub proof fn lemma_missing_excludes_own(m: Map<Seq<char>, Seq<SchemaTableView>>, k: Seq<char>)
    requires
        m.dom().contains(k),
    ensures
        forall|h: Seq<char>| tables_have(m[k], h) ==> !missing_for(m, k).contains(h),
        forall|h: Seq<char>| missing_for(m, k).contains(h) ==> union_of(m).contains(h),
        (forall|j: Seq<char>| m.dom().contains(j) ==> j == k) ==> missing_for(m, k) =~= Set::<
            Seq<char>,
        >::empty(),
{
}

/// Some entity among `values` has the header `h` in one of its tables.
pub open spec fn any_has(values: Seq<Seq<SchemaTableView>>, h: Seq<char>) -> bool {
    exists|e: int| 0 <= e < values.len() && tables_have(#[trigger] values[e], h)
}

/// `acc` holds what `start` held and the members of `part`.
spec fn grown_by(acc: Seq<Seq<char>>, start: Seq<Seq<char>>, part: Seq<Seq<char>>) -> bool {
    forall|h: Seq<char>| acc.contains(h) <==> (start.contains(h) || part.contains(h))
}

/// `acc` holds what `start` held and the headers of `part`.
spec fn grown_by_tables(
    acc: Seq<Seq<char>>,
    start: Seq<Seq<char>>,
    part: Seq<SchemaTableView>,
) -> bool {
    forall|h: Seq<char>| acc.contains(h) <==> (start.contains(h) || tables_have(part, h))
}

/// `acc` holds the headers of the entities `part`.
spec fn holds_all(acc: Seq<Seq<char>>, part: Seq<Seq<SchemaTableView>>) -> bool {
    forall|h: Seq<char>| acc.contains(h) <==> any_has(part, h)
}

/// What one more element adds to the members of a prefix.
proof fn lemma_take_contains<A>(s: Seq<A>, j: int, h: A)
    requires
        0 <= j < s.len(),
    ensures
        s.take(j + 1).contains(h) <==> (s.take(j).contains(h) || s[j] == h),
{
    let longer = s.take(j + 1);
    let shorter = s.take(j);
    if longer.contains(h) {
        let k = choose|k: int| 0 <= k < longer.len() && longer[k] == h;
        if k < j {
            assert(shorter[k] == h);
        }
    }
    if shorter.contains(h) {
        let k = choose|k: int| 0 <= k < shorter.len() && shorter[k] == h;
        assert(longer[k] == h);
    }
    if s[j] == h {
        assert(longer[j] == h);
    }
}

/// What one more table adds to the headers of a prefix of tables.
proof fn lemma_take_tables(s: Seq<SchemaTableView>, t: int, h: Seq<char>)
    requires
        0 <= t < s.len(),
    ensures
        tables_have(s.take(t + 1), h) <==> (tables_have(s.take(t), h) || s[t].headers.contains(h)),
{
    let longer = s.take(t + 1);
    let shorter = s.take(t);
    if tables_have(longer, h) {
        let k = choose|k: int| 0 <= k < longer.len() && (#[trigger] longer[k]).headers.contains(h);
        if k < t {
            assert(shorter[k].headers.contains(h));
        }
    }
    if tables_have(shorter, h) {
        let k = choose|k: int|
            0 <= k < shorter.len() && (#[trigger] shorter[k]).headers.contains(h);
        assert(longer[k].headers.contains(h));
    }
    if s[t].headers.contains(h) {
        assert(longer[t].headers.contains(h));
    }
}

/// What one more entity adds to the headers of a prefix of entities.
proof fn lemma_take_any(s: Seq<Seq<SchemaTableView>>, e: int, h: Seq<char>)
    requires
        0 <= e < s.len(),
    ensures
        any_has(s.take(e + 1), h) <==> (any_has(s.take(e), h) || tables_have(s[e], h)),
{
    let longer = s.take(e + 1);
    let shorter = s.take(e);
    if any_has(longer, h) {
        let k = choose|k: int| 0 <= k < longer.len() && tables_have(#[trigger] longer[k], h);
        if k < e {
            assert(tables_have(shorter[k], h));
        }
    }
    if any_has(shorter, h) {
        let k = choose|k: int| 0 <= k < shorter.len() && tables_have(#[trigger] shorter[k], h);
        assert(tables_have(longer[k], h));
    }
    if tables_have(s[e], h) {
        assert(tables_have(longer[e], h));
    }
}

/// The analyzer. It holds no state.
pub struct SchemaAnalyzerImpl;

/// Adds the headers of `table` to the set `acc`.
fn collect_table(acc: &mut Vec<String>, table: &SchemaTable)
    requires
        strictly_sorted(old(acc).deep_view()),
    ensures
        strictly_sorted(final(acc).deep_view()),
        forall|h: Seq<char>|
            final(acc).deep_view().contains(h) <==> (old(acc).deep_view().contains(h)
                || table@.headers.contains(h)),
{
    let ghost start = acc.deep_view();
    let ghost headers = table@.headers;
    let mut j: usize = 0;
    while j < table.headers.len()
        invariant
            j <= table.headers@.len(),
            headers == table@.headers,
            headers.len() == table.headers@.len(),
            strictly_sorted(acc.deep_view()),
            grown_by(acc.deep_view(), start, headers.take(j as int)),
        decreases table.headers@.len() - j,
    {
        let ghost before = acc.deep_view();
        insert_sorted(acc, table.headers[j].as_str());
        proof {
            assert(headers[j as int] == table.headers@[j as int]@);
            assert forall|h: Seq<char>|
                acc.deep_view().contains(h) <==> (start.contains(h) || headers.take(
                    j + 1,
                ).contains(h)) by {
                lemma_take_contains(headers, j as int, h);
                assert(before.contains(h) <==> (start.contains(h) || headers.take(
                    j as int,
                ).contains(h)));
            }
            assert(grown_by(acc.deep_view(), start, headers.take(j + 1)));
        }
        j += 1;
    }
    proof {
        assert(headers.take(j as int) =~= headers);
    }
}

/// Adds the headers of all of `tables` to the set `acc`.
fn collect_tables(acc: &mut Vec<String>, tables: &Vec<SchemaTable>)
    requires
        strictly_sorted(old(acc).deep_view()),
    ensures
        strictly_sorted(final(acc).deep_view()),
        forall|h: Seq<char>|
            final(acc).deep_view().contains(h) <==> (old(acc).deep_view().contains(h)
                || tables_have(tables.deep_view(), h)),
{
    let ghost start = acc.deep_view();
    let ghost views = tables.deep_view();
    let mut t: usize = 0;
    while t < tables.len()
        invariant
            t <= tables@.len(),
            views == tables.deep_view(),
            views.len() == tables@.len(),
            strictly_sorted(acc.deep_view()),
            grown_by_tables(acc.deep_view(), start, views.take(t as int)),
        decreases tables@.len() - t,
    {
        let ghost before = acc.deep_view();
        collect_table(acc, &tables[t]);
        proof {
            assert(views[t as int] == tables@[t as int]@);
            assert forall|h: Seq<char>|
                acc.deep_view().contains(h) <==> (start.contains(h) || tables_have(
                    views.take(t + 1),
                    h,
                )) by {
                lemma_take_tables(views, t as int, h);
                assert(before.contains(h) <==> (start.contains(h) || tables_have(
                    views.take(t as int),
                    h,
                )));
                assert(acc.deep_view().contains(h) <==> (before.contains(h)
                    || views[t as int].headers.contains(h)));
            }
            assert(grown_by_tables(acc.deep_view(), start, views.take(t + 1)));
        }
        t += 1;
    }
    proof {
        assert(views.take(t as int) =~= views);
    }
}

/// The members of `all` that `own` lacks, in increasing order.
fn difference_sorted(all: &Vec<String>, own: &Vec<String>) -> (missing: Vec<String>)
    requires
        strictly_sorted(all.deep_view()),
        strictly_sorted(own.deep_view()),
    ensures
        strictly_sorted(missing.deep_view()),
        forall|h: Seq<char>|
            missing.deep_view().contains(h) <==> (all.deep_view().contains(h)
                && !own.deep_view().contains(h)),
{
    let mut missing: Vec<String> = Vec::new();
    let ghost mut picked: Seq<int> = Seq::empty();
    let mut i: usize = 0;
    while i < all.len()
        invariant
            i <= all@.len(),
            strictly_sorted(all.deep_view()),
            strictly_sorted(own.deep_view()),
            picked.len() == missing@.len(),
            forall|x: int|
                0 <= x < picked.len() ==> 0 <= #[trigger] picked[x] < i
                    && missing.deep_view()[x] == all.deep_view()[picked[x]]
                    && !own.deep_view().contains(all.deep_view()[picked[x]]),
            forall|x: int, y: int| 0 <= x < y < picked.len() ==> picked[x] < picked[y],
            forall|a: int|
                0 <= a < i && !own.deep_view().contains(#[trigger] all.deep_view()[a])
                    ==> picked.contains(a),
        decreases all@.len() - i,
    {
        assert(all.deep_view()[i as int] == all@[i as int]@);
        if !contains_sorted(own, all[i].as_str()) {
            let ghost before = missing.deep_view();
            let ghost old_picked = picked;
            missing.push(all[i].clone());
            proof {
                picked = picked.push(i as int);
                assert(missing.deep_view() =~= before.push(all.deep_view()[i as int]));
                assert forall|a: int|
                    0 <= a < i + 1 && !own.deep_view().contains(
                        #[trigger] all.deep_view()[a],
                    ) implies picked.contains(a) by {
                    if a < i {
                        let x = choose|x: int| 0 <= x < old_picked.len() && old_picked[x] == a;
                        assert(picked[x] == a);
                    } else {
                        assert(picked[picked.len() - 1] == a);
                    }
                }
            }
        }
        i += 1;
    }
    proof {
        let m = missing.deep_view();
        let a = all.deep_view();
        assert forall|x: int, y: int| 0 <= x < y < m.len() implies crate::text::str_lt(
            #[trigger] m[x],
            #[trigger] m[y],
        ) by {
            assert(picked[x] < picked[y]);
            assert(crate::text::str_lt(a[picked[x]], a[picked[y]]));
        }
        assert forall|h: Seq<char>|
            m.contains(h) <==> (a.contains(h) && !own.deep_view().contains(h)) by {
            if m.contains(h) {
                let x = choose|x: int| 0 <= x < m.len() && m[x] == h;
                assert(a[picked[x]] == h);
            }
            if a.contains(h) && !own.deep_view().contains(h) {
                let k = choose|k: int| 0 <= k < a.len() && a[k] == h;
                assert(picked.contains(k));
                let x = choose|x: int| 0 <= x < picked.len() && picked[x] == k;
                assert(m[x] == h);
            }
        }
    }
    missing
}

impl SchemaAnalyzerImpl {
    /// An analyzer.
    pub fn new() -> (a: Self) {
        SchemaAnalyzerImpl
    }

    /// Compares the tables of the entities queried with one request shape:
    /// the union of their headers, and for each entity that lacks some of
    /// them, which ones. Tables of one entity are taken together, whatever
    /// their titles.
    pub fn compute_schema_diff(
        &self,
        endpoint: EndpointName,
        tables_by_ticker: &TickerMap<Vec<SchemaTable>>,
    ) -> (diff: SchemaDiff)
        ensures
            is_diff_of(diff@, endpoint, tables_by_ticker@),
    {
        let ghost m = tables_by_ticker@;
        let ghost keys = tables_by_ticker.spec_keys();
        let ghost values = tables_by_ticker.spec_values();
        let n = tables_by_ticker.len();

        let mut union_headers: Vec<String> = Vec::new();
        let mut i: usize = 0;
        while i < n
            invariant
                i <= n,
                n == keys.len(),
                n == values.len(),
                keys == tables_by_ticker.spec_keys(),
                values == tables_by_ticker.spec_values(),
                strictly_sorted(union_headers.deep_view()),
                holds_all(union_headers.deep_view(), values.take(i as int)),
            decreases n - i,
        {
            let ghost before = union_headers.deep_view();
            collect_tables(&mut union_headers, tables_by_ticker.value(i));
            proof {
                assert forall|h: Seq<char>|
                    union_headers.deep_view().contains(h) <==> any_has(values.take(i + 1), h) by {
                    lemma_take_any(values, i as int, h);
                    assert(before.contains(h) <==> any_has(values.take(i as int), h));
                    assert(union_headers.deep_view().contains(h) <==> (before.contains(h)
                        || tables_have(values[i as int], h)));
                }
                assert(holds_all(union_headers.deep_view(), values.take(i + 1)));
            }
            i += 1;
        }
        proof {
            assert(values.take(n as int) =~= values);
            assert forall|h: Seq<char>|
                union_headers.deep_view().contains(h) <==> shape_has(m, h) by {
                if any_has(values, h) {
                    let e = choose|e: int|
                        0 <= e < values.len() && tables_have(#[trigger] values[e], h);
                    assert(m.dom().contains(keys[e]) && m[keys[e]] == values[e]);
                }
                if shape_has(m, h) {
                    let k = choose|k: Seq<char>|
                        m.dom().contains(k) && tables_have(#[trigger] m[k], h);
                    assert(keys.contains(k));
                    let e = choose|e: int| 0 <= e < keys.len() && keys[e] == k;
                    assert(m[keys[e]] == values[e]);
                    assert(tables_have(values[e], h));
                }
            }
        }

        let mut differences: TickerMap<(Vec<String>, Vec<String>)> = TickerMap::new();
        let mut i: usize = 0;
        while i < n
            invariant
                i <= n,
                n == keys.len(),
                m == tables_by_ticker@,
                keys == tables_by_ticker.spec_keys(),
                values == tables_by_ticker.spec_values(),
                tables_by_ticker.indexed(),
                strictly_sorted(union_headers.deep_view()),
                forall|h: Seq<char>| union_headers.deep_view().contains(h) <==> shape_has(m, h),
                forall|k: Seq<char>| #[trigger]
                    differences@.dom().contains(k) <==> exists|e: int|
                        0 <= e < i && #[trigger] keys[e] == k && missing_for(m, k) !== Set::<
                            Seq<char>,
                        >::empty(),
                forall|k: Seq<char>| #[trigger]
                    differences@.dom().contains(k) ==> lists(differences@[k].0, missing_for(m, k))
                        && differences@[k].1.len() == 0,
            decreases n - i,
        {
            let ticker = tables_by_ticker.key(i);
            let tables = tables_by_ticker.value(i);
            let mut own: Vec<String> = Vec::new();
            collect_tables(&mut own, tables);
            let missing = difference_sorted(&union_headers, &own);
            let extra: Vec<String> = Vec::new();
            let ghost kv = keys[i as int];
            proof {
                assert(m.dom().contains(kv) && m[kv] == values[i as int]);
                assert forall|h: Seq<char>|
                    missing_for(m, kv).contains(h) <==> missing.deep_view().contains(h) by {
                    assert(own.deep_view().contains(h) <==> tables_have(values[i as int], h));
                }
                if missing.len() == 0 {
                    assert(missing_for(m, kv) =~= Set::<Seq<char>>::empty()) by {
                        assert forall|h: Seq<char>| !missing_for(m, kv).contains(h) by {
                            if missing.deep_view().contains(h) {
                                let x = choose|x: int|
                                    0 <= x < missing.deep_view().len() && missing.deep_view()[x]
                                        == h;
                            }
                        }
                    }
                } else {
                    assert(missing.deep_view().contains(missing.deep_view()[0]));
                    assert(missing_for(m, kv).contains(missing.deep_view()[0]));
                }
            }
            if missing.len() > 0 {
                let ghost before = differences@;
                let ghost pair = (missing.deep_view(), extra.deep_view());
                differences.insert(ticker.duplicate(), (missing, extra));
                proof {
                    assert(differences@ == before.insert(kv, pair));
                    assert(pair.1.len() == 0);
                    assert forall|k: Seq<char>| #[trigger]
                        differences@.dom().contains(k) <==> exists|e: int|
                            0 <= e < i + 1 && #[trigger] keys[e] == k && missing_for(m, k)
                                !== Set::<Seq<char>>::empty() by {
                        if before.dom().contains(k) {
                            let e = choose|e: int|
                                0 <= e < i && #[trigger] keys[e] == k && missing_for(m, k)
                                    !== Set::<Seq<char>>::empty();
                            assert(0 <= e < i + 1 && keys[e] == k);
                        }
                        if exists|e: int|
                            0 <= e < i + 1 && #[trigger] keys[e] == k && missing_for(m, k)
                                !== Set::<Seq<char>>::empty() {
                            let e = choose|e: int|
                                0 <= e < i + 1 && #[trigger] keys[e] == k && missing_for(m, k)
                                    !== Set::<Seq<char>>::empty();
                            if e < i {
                                assert(before.dom().contains(k));
                            }
                        }
                    }
                }
            } else {
                proof {
                    assert forall|k: Seq<char>| #[trigger]
                        differences@.dom().contains(k) <==> exists|e: int|
                            0 <= e < i + 1 && #[trigger] keys[e] == k && missing_for(m, k)
                                !== Set::<Seq<char>>::empty() by {
                        if differences@.dom().contains(k) {
                            let e = choose|e: int|
                                0 <= e < i && #[trigger] keys[e] == k && missing_for(m, k)
                                    !== Set::<Seq<char>>::empty();
                            assert(0 <= e < i + 1 && keys[e] == k);
                        }
                        if exists|e: int|
                            0 <= e < i + 1 && #[trigger] keys[e] == k && missing_for(m, k)
                                !== Set::<Seq<char>>::empty() {
                            let e = choose|e: int|
                                0 <= e < i + 1 && #[trigger] keys[e] == k && missing_for(m, k)
                                    !== Set::<Seq<char>>::empty();
                            if e < i {
                                assert(differences@.dom().contains(k));
                            }
                        }
                    }
                }
            }
            i += 1;
        }
        let diff = SchemaDiff { endpoint, union_headers, differences };
        proof {
            assert forall|k: Seq<char>| #[trigger]
                diff@.differences.dom().contains(k) <==> m.dom().contains(k) && missing_for(m, k)
                    !== Set::<Seq<char>>::empty() by {
                if diff@.differences.dom().contains(k) {
                    let e = choose|e: int|
                        0 <= e < n && #[trigger] keys[e] == k && missing_for(m, k) !== Set::<
                            Seq<char>,
                        >::empty();
                    assert(m.dom().contains(keys[e]));
                }
                if m.dom().contains(k) && missing_for(m, k) !== Set::<Seq<char>>::empty() {
                    assert(keys.contains(k));
                    let e = choose|e: int| 0 <= e < keys.len() && keys[e] == k;
                    assert(0 <= e < n && keys[e] == k);
                }
            }
        }
        diff
    }
}

} // verus!
