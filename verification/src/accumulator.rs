//! Gathering the tables of a run, by request shape and by entity, and
//! diffing them once all entities have been seen.

use vstd::prelude::*;
use crate::domain::endpoint::EndpointName;
use crate::domain::schema_table::{SchemaTable, SchemaTableView};
use crate::domain::ticker::TickerSymbol;
use crate::schema_analyzer::{is_diff_of, missing_for, SchemaAnalyzerImpl, SchemaDiff};
use crate::ticker_map::TickerMap;

verus! {

/// The tables of the entities of one shape.
pub type Tables = Map<Seq<char>, Seq<SchemaTableView>>;

/// The tables gathered so far: per shape, in the order in which the shapes
/// were first seen, the tables of each entity.
pub struct SchemaAccumulator {
    shapes: Vec<(EndpointName, TickerMap<Vec<SchemaTable>>)>,
}

/// No shape occurs twice.
pub open spec fn distinct_shapes(shapes: Seq<(EndpointName, Tables)>) -> bool {
    forall|i: int, j: int|
        0 <= i < j < shapes.len() ==> (#[trigger] shapes[i]).0 != (#[trigger] shapes[j]).0
}

/// Where the shape `endpoint` stands among `shapes`, or their number if it
/// is not among them.
pub open spec fn shape_index(shapes: Seq<(EndpointName, Tables)>, endpoint: EndpointName) -> int
    decreases shapes.len(),
{
    if shapes.len() == 0 {
        0
    } else if shapes[0].0 == endpoint {
        0
    } else {
        1 + shape_index(shapes.drop_first(), endpoint)
    }
}

/// The tables after those of one entity were added for one shape: they
/// take the place of what was kept for that entity and shape before; a new
/// shape comes last.
pub open spec fn accumulated(
    shapes: Seq<(EndpointName, Tables)>,
    endpoint: EndpointName,
    ticker: Seq<char>,
    tables: Seq<SchemaTableView>,
) -> Seq<(EndpointName, Tables)> {
    let i = shape_index(shapes, endpoint);
    if i < shapes.len() {
        shapes.update(i, (endpoint, shapes[i].1.insert(ticker, tables)))
    } else {
        shapes.push((endpoint, Map::<Seq<char>, Seq<SchemaTableView>>::empty().insert(ticker, tables)))
    }
}

/// Whether a shape shows drift: more than one entity was queried, and
/// some entity lacks a header that another has.
pub open spec fn shows_drift(m: Tables) -> bool {
    &&& m.dom().len() > 1
    &&& exists|k: Seq<char>| m.dom().contains(k) && #[trigger] missing_for(m, k) !== Set::<
        Seq<char>,
    >::empty()
}

/// The shapes that show drift, in the order of `shapes`.
pub open spec fn drifting(shapes: Seq<(EndpointName, Tables)>) -> Seq<(EndpointName, Tables)>
    decreases shapes.len(),
{
    if shapes.len() == 0 {
        Seq::empty()
    } else if shows_drift(shapes.last().1) {
        drifting(shapes.drop_last()).push(shapes.last())
    } else {
        drifting(shapes.drop_last())
    }
}

/// The index of a shape is the place where it stands.
pub proof fn lemma_shape_index(shapes: Seq<(EndpointName, Tables)>, endpoint: EndpointName)
    ensures
        0 <= shape_index(shapes, endpoint) <= shapes.len(),
        shape_index(shapes, endpoint) < shapes.len() ==> shapes[shape_index(shapes, endpoint)].0
            == endpoint,
        forall|i: int| 0 <= i < shape_index(shapes, endpoint) ==> (#[trigger] shapes[i]).0 != endpoint,
    decreases shapes.len(),
{
    if shapes.len() > 0 && shapes[0].0 != endpoint {
        let rest = shapes.drop_first();
        lemma_shape_index(rest, endpoint);
        assert forall|i: int| 0 <= i < shape_index(shapes, endpoint) implies (#[trigger] shapes[i]).0
            != endpoint by {
            if i > 0 {
                assert(rest[i - 1].0 != endpoint);
            }
        }
    }
}

/// Adding tables keeps the shapes distinct.
pub proof fn lemma_accumulated_distinct(
    shapes: Seq<(EndpointName, Tables)>,
    endpoint: EndpointName,
    ticker: Seq<char>,
    tables: Seq<SchemaTableView>,
)
    requires
        distinct_shapes(shapes),
    ensures
        distinct_shapes(accumulated(shapes, endpoint, ticker, tables)),
{
    lemma_shape_index(shapes, endpoint);
    let after = accumulated(shapes, endpoint, ticker, tables);
    assert forall|i: int, j: int| 0 <= i < j < after.len() implies (#[trigger] after[i]).0 != (
    #[trigger] after[j]).0 by {
        if j < shapes.len() {
            assert(shapes[i].0 != shapes[j].0);
        } else {
            assert(shapes[i].0 != endpoint);
        }
    }
}

impl SchemaAccumulator {
    #[verifier::type_invariant]
    spec fn inv(&self) -> bool {
        distinct_shapes(self@)
    }

    /// The tables gathered, as plain values.
    pub closed spec fn view(&self) -> Seq<(EndpointName, Tables)> {
        Seq::new(self.shapes@.len(), |i: int| (self.shapes@[i].0, self.shapes@[i].1@))
    }

    /// An accumulator that holds nothing.
    pub fn new() -> (acc: Self)
        ensures
            acc@ == Seq::<(EndpointName, Tables)>::empty(),
    {
        let acc = SchemaAccumulator { shapes: Vec::new() };
        assert(acc@ =~= Seq::<(EndpointName, Tables)>::empty());
        acc
    }

    /// The number of shapes seen.
    pub fn len(&self) -> (n: usize)
        ensures
            n == self@.len(),
            distinct_shapes(self@),
    {
        proof {
            use_type_invariant(self);
        }
        self.shapes.len()
    }

    /// The shape at index `i` and the tables of its entities.
    pub fn shape(&self, i: usize) -> (r: (EndpointName, &TickerMap<Vec<SchemaTable>>))
        requires
            i < self@.len(),
        ensures
            r.0 == self@[i as int].0,
            r.1@ == self@[i as int].1,
    {
        (self.shapes[i].0, &self.shapes[i].1)
    }

    /// Keeps the tables of one entity for one shape.
    pub fn accumulate(&mut self, endpoint: EndpointName, ticker: TickerSymbol, tables: Vec<SchemaTable>)
        ensures
            final(self)@ == accumulated(old(self)@, endpoint, ticker@, tables.deep_view()),
    {
        proof {
            use_type_invariant(&*self);
            lemma_shape_index(self@, endpoint);
            lemma_accumulated_distinct(self@, endpoint, ticker@, tables.deep_view());
        }
        let ghost before = self@;
        let ghost kv = ticker@;
        let ghost tv = tables.deep_view();
        let mut i: usize = 0;
        while i < self.shapes.len() && self.shapes[i].0 != endpoint
            invariant
                i <= self.shapes@.len(),
                before == self@,
                before.len() == self.shapes@.len(),
                forall|k: int| 0 <= k < i ==> (#[trigger] before[k]).0 != endpoint,
            decreases self.shapes@.len() - i,
        {
            assert(before[i as int].0 == self.shapes@[i as int].0);
            i += 1;
        }
        proof {
            assert(shape_index(before, endpoint) == i) by {
                if i < before.len() {
                    assert(before[i as int].0 == self.shapes@[i as int].0);
                }
                let j = shape_index(before, endpoint);
                if j < i {
                    assert(before[j].0 != endpoint);
                }
                if j > i {
                    assert(before[i as int].0 != endpoint);
                }
            }
        }
        let mut shapes = Vec::new();
        std::mem::swap(&mut shapes, &mut self.shapes);
        if i < shapes.len() {
            let mut slot = (endpoint, TickerMap::new());
            std::mem::swap(&mut slot, &mut shapes[i]);
            let (found, mut map) = slot;
            map.insert(ticker, tables);
            let mut filled = (found, map);
            std::mem::swap(&mut filled, &mut shapes[i]);
        } else {
            let mut map = TickerMap::new();
            map.insert(ticker, tables);
            shapes.push((endpoint, map));
        }
        proof {
            let after = Seq::new(shapes@.len(), |k: int| (shapes@[k].0, shapes@[k].1@));
            assert(after =~= accumulated(before, endpoint, kv, tv));
        }
        self.shapes = shapes;
        assert(self@ =~= accumulated(before, endpoint, kv, tv));
    }

    /// Diffs every shape for which more than one entity was queried, and
    /// hands back the diffs that show drift, in the order in which the
    /// shapes were first seen.
    pub fn finalize(&self, analyzer: &SchemaAnalyzerImpl) -> (diffs: Vec<SchemaDiff>)
        ensures
            diffs@.len() == drifting(self@).len(),
            forall|j: int|
                0 <= j < diffs@.len() ==> is_diff_of(
                    (#[trigger] diffs@[j])@,
                    drifting(self@)[j].0,
                    drifting(self@)[j].1,
                ),
    {
        let ghost shapes = self@;
        let mut diffs: Vec<SchemaDiff> = Vec::new();
        let mut i: usize = 0;
        let n = self.len();
        assert(drifting(shapes.take(0)) =~= Seq::<(EndpointName, Tables)>::empty());
        while i < n
            invariant
                i <= n,
                n == shapes.len(),
                shapes == self@,
                diffs@.len() == drifting(shapes.take(i as int)).len(),
                forall|j: int|
                    0 <= j < diffs@.len() ==> is_diff_of(
                        (#[trigger] diffs@[j])@,
                        drifting(shapes.take(i as int))[j].0,
                        drifting(shapes.take(i as int))[j].1,
                    ),
            decreases n - i,
        {
            let (endpoint, map) = self.shape(i);
            let ghost m = shapes[i as int].1;
            proof {
                assert(shapes.take(i + 1).drop_last() =~= shapes.take(i as int));
                assert(shapes.take(i + 1).last() == shapes[i as int]);
            }
            let mut drift = false;
            if map.len() > 1 {
                let diff = analyzer.compute_schema_diff(endpoint, map);
                let found = diff.differences.len();
                proof {
                    let d = diff@.differences;
                    if found > 0 {
                        assert(d.dom().len() > 0);
                        let k = d.dom().choose();
                        assert(d.dom().contains(k));
                        assert(m.dom().contains(k) && missing_for(m, k) !== Set::<Seq<char>>::empty());
                        assert(shows_drift(m));
                    } else {
                        assert(d.dom().len() == 0);
                        assert(d.dom() =~= Set::<Seq<char>>::empty());
                        assert(!shows_drift(m)) by {
                            if shows_drift(m) {
                                let k = choose|k: Seq<char>|
                                    m.dom().contains(k) && #[trigger] missing_for(m, k) !== Set::<
                                        Seq<char>,
                                    >::empty();
                                assert(d.dom().contains(k));
                            }
                        }
                    }
                }
                if found > 0 {
                    drift = true;
                    diffs.push(diff);
                }
            }
            proof {
                assert(drift == shows_drift(m));
                let now = drifting(shapes.take(i + 1));
                let was = drifting(shapes.take(i as int));
                assert forall|j: int| 0 <= j < diffs@.len() implies is_diff_of(
                    (#[trigger] diffs@[j])@,
                    now[j].0,
                    now[j].1,
                ) by {
                    if j < was.len() {
                        assert(now[j] == was[j]);
                    }
                }
            }
            i += 1;
        }
        assert(shapes.take(n as int) =~= shapes);
        diffs
    }
}

} // verus!
