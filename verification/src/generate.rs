//! Random aggregation queries: how the random draws become a query.
use vstd::prelude::*;

use core::ops::Range;

use crate::query::{Dimension, Measure, OrderBy, OrderByDirection, OrderByItem, Query, Syntax};
use crate::random::{choose_multiple, picked_from, random_in_range};
use crate::socrata::Dataset;

verus! {

/// The smaller of two integers.
pub open spec fn min_int(a: int, b: int) -> int {
    if a <= b {
        a
    } else {
        b
    }
}

/// The items of `from` at the positions `idx`, in that order.
pub open spec fn pick<A>(from: Seq<A>, idx: Seq<usize>) -> Seq<A> {
    idx.map_values(|i: usize| from[i as int])
}

/// `idx` holds distinct positions below `n`.
pub open spec fn distinct_below(idx: Seq<usize>, n: int) -> bool {
    &&& idx.no_duplicates()
    &&& forall|j: int| 0 <= j < idx.len() ==> #[trigger] idx[j] < n
}

/// `chosen` holds items of `from` taken at distinct positions.
pub open spec fn is_selection<A>(chosen: Seq<A>, from: Seq<A>) -> bool {
    exists|idx: Seq<usize>| distinct_below(idx, from.len() as int) && chosen == #[trigger] pick(from, idx)
}

/// A draw from `0..2` read as a sort direction: `0` is ascending.
pub open spec fn direction_of(draw: usize) -> OrderByDirection {
    if draw == 0 {
        OrderByDirection::Asc
    } else {
        OrderByDirection::Desc
    }
}

/// The `ORDER BY` entries that a query may use: each measure, then each
/// dimension, the `i`-th of them sorted in direction `dirs[i]`.
pub open spec fn order_by_candidates(
    ms: Seq<Measure>,
    ds: Seq<Dimension>,
    dirs: Seq<OrderByDirection>,
) -> Seq<OrderBy> {
    Seq::new(ms.len(), |i: int| OrderBy { item: OrderByItem::Measure(ms[i]), direction: dirs[i] })
        + Seq::new(
        ds.len(),
        |i: int| OrderBy { item: OrderByItem::Dimension(ds[i]), direction: dirs[ms.len() + i] },
    )
}

/// The positions `0, 1, .., n - 1`.
pub open spec fn positions(n: nat) -> Seq<usize> {
    Seq::new(n, |i: int| i as usize)
}

fn positions_vec(n: usize) -> (v: Vec<usize>)
    ensures
        v@ == positions(n as nat),
{
    let mut v: Vec<usize> = Vec::new();
    for i in 0..n
        invariant
            v@ == positions(i as nat),
    {
        v.push(i);
        assert(v@ =~= positions((i + 1) as nat));
    }
    v
}

/// What `choose_multiple` gives on `0..n`: distinct positions below `n`.
proof fn lemma_picked_positions(r: Seq<usize>, n: nat)
    requires
        n <= usize::MAX,
        exists|idx: Seq<int>| picked_from(r, positions(n), idx),
    ensures
        distinct_below(r, n as int),
{
    let idx = choose|idx: Seq<int>| picked_from(r, positions(n), idx);
    assert forall|j: int| 0 <= j < r.len() implies r[j] == idx[j] && #[trigger] r[j] < n by {
        assert(0 <= idx[j] < n);
        assert(positions(n)[idx[j]] == idx[j] as usize);
    }
    assert forall|a: int, b: int| 0 <= a < r.len() && 0 <= b < r.len() && a != b implies r[a]
        != r[b] by {
        assert(r[a] == idx[a] && r[b] == idx[b]);
    }
}

fn pick_measures(from: &Vec<Measure>, idx: &Vec<usize>) -> (r: Vec<Measure>)
    requires
        forall|j: int| 0 <= j < idx@.len() ==> #[trigger] idx@[j] < from@.len(),
    ensures
        r@ == pick(from@, idx@),
{
    let mut r: Vec<Measure> = Vec::new();
    for j in 0..idx.len()
        invariant
            forall|j: int| 0 <= j < idx@.len() ==> #[trigger] idx@[j] < from@.len(),
            r@ == pick(from@, idx@.take(j as int)),
    {
        r.push(from[idx[j]].clone());
        assert(r@ =~= pick(from@, idx@.take(j + 1)));
    }
    assert(idx@.take(idx.len() as int) == idx@);
    r
}

fn pick_dimensions(from: &Vec<Dimension>, idx: &Vec<usize>) -> (r: Vec<Dimension>)
    requires
        forall|j: int| 0 <= j < idx@.len() ==> #[trigger] idx@[j] < from@.len(),
    ensures
        r@ == pick(from@, idx@),
{
    let mut r: Vec<Dimension> = Vec::new();
    for j in 0..idx.len()
        invariant
            forall|j: int| 0 <= j < idx@.len() ==> #[trigger] idx@[j] < from@.len(),
            r@ == pick(from@, idx@.take(j as int)),
    {
        r.push(from[idx[j]].clone());
        assert(r@ =~= pick(from@, idx@.take(j + 1)));
    }
    assert(idx@.take(idx.len() as int) == idx@);
    r
}

fn pick_order_bys(from: &Vec<OrderBy>, idx: &Vec<usize>) -> (r: Vec<OrderBy>)
    requires
        forall|j: int| 0 <= j < idx@.len() ==> #[trigger] idx@[j] < from@.len(),
    ensures
        r@ == pick(from@, idx@),
{
    let mut r: Vec<OrderBy> = Vec::new();
    for j in 0..idx.len()
        invariant
            forall|j: int| 0 <= j < idx@.len() ==> #[trigger] idx@[j] < from@.len(),
            r@ == pick(from@, idx@.take(j as int)),
    {
        r.push(from[idx[j]].clone());
        assert(r@ =~= pick(from@, idx@.take(j + 1)));
    }
    assert(idx@.take(idx.len() as int) == idx@);
    r
}

fn direction_from_draw(draw: usize) -> (d: OrderByDirection)
    ensures
        d == direction_of(draw),
{
    if draw == 0 {
        OrderByDirection::Asc
    } else {
        OrderByDirection::Desc
    }
}

/// The `ORDER BY` candidates of chosen measures and dimensions, with the
/// directions that the draws give.
fn build_order_by_candidates(
    measures: &Vec<Measure>,
    dimensions: &Vec<Dimension>,
    draws: &Vec<usize>,
) -> (r: Vec<OrderBy>)
    requires
        draws@.len() == measures@.len() + dimensions@.len(),
    ensures
        r@ == order_by_candidates(measures@, dimensions@, draws@.map_values(|d: usize| direction_of(d))),
{
    let ghost dirs = draws@.map_values(|d: usize| direction_of(d));
    let ghost cands = order_by_candidates(measures@, dimensions@, dirs);
    let mut r: Vec<OrderBy> = Vec::new();
    let nm = measures.len();
    for i in 0..nm
        invariant
            nm == measures@.len(),
            draws@.len() == measures@.len() + dimensions@.len(),
            dirs == draws@.map_values(|d: usize| direction_of(d)),
            cands == order_by_candidates(measures@, dimensions@, dirs),
            r@ == cands.take(i as int),
    {
        let o = OrderBy {
            item: OrderByItem::Measure(measures[i].clone()),
            direction: direction_from_draw(draws[i]),
        };
        r.push(o);
        assert(r@ =~= cands.take(i + 1));
    }
    let total = draws.len();
    for i in 0..dimensions.len()
        invariant
            nm == measures@.len(),
            total == draws@.len(),
            draws@.len() == measures@.len() + dimensions@.len(),
            dirs == draws@.map_values(|d: usize| direction_of(d)),
            cands == order_by_candidates(measures@, dimensions@, dirs),
            r@ == cands.take(nm + i),
    {
        let o = OrderBy {
            item: OrderByItem::Dimension(dimensions[i].clone()),
            direction: direction_from_draw(draws[nm + i]),
        };
        r.push(o);
        assert(r@ =~= cands.take(nm + i + 1));
    }
    assert(cands.take(cands.len() as int) == cands);
    r
}

/// Builds the query that a set of random draws stands for: the measures and
/// dimensions at the picked positions, one direction draw per candidate `ORDER BY`
/// entry (chosen measures first, then chosen dimensions), the candidates at the
/// picked positions, and a limit of 100 rows.
pub fn query_from_draws<T: Syntax>(
    dataset: &Dataset,
    measures: &Vec<Measure>,
    dimensions: &Vec<Dimension>,
    measure_picks: &Vec<usize>,
    dimension_picks: &Vec<usize>,
    direction_draws: &Vec<usize>,
    order_by_picks: &Vec<usize>,
    syntax: T,
) -> (q: Query<T>)
    requires
        forall|j: int| 0 <= j < measure_picks@.len() ==> #[trigger] measure_picks@[j] < measures@.len(),
        forall|j: int|
            0 <= j < dimension_picks@.len() ==> #[trigger] dimension_picks@[j] < dimensions@.len(),
        direction_draws@.len() == measure_picks@.len() + dimension_picks@.len(),
        forall|j: int|
            0 <= j < order_by_picks@.len() ==> #[trigger] order_by_picks@[j] < measure_picks@.len()
                + dimension_picks@.len(),
    ensures
        q.dataset.same_as(*dataset),
        q.measures@ == pick(measures@, measure_picks@),
        q.dimensions@ == pick(dimensions@, dimension_picks@),
        q.order_by@ == pick(
            order_by_candidates(
                q.measures@,
                q.dimensions@,
                direction_draws@.map_values(|d: usize| direction_of(d)),
            ),
            order_by_picks@,
        ),
        q.limit == Some(100usize),
        q.syntax == syntax,
{
    let chosen_measures = pick_measures(measures, measure_picks);
    let chosen_dimensions = pick_dimensions(dimensions, dimension_picks);
    let candidates = build_order_by_candidates(&chosen_measures, &chosen_dimensions, direction_draws);
    let chosen_order_bys = pick_order_bys(&candidates, order_by_picks);
    Query::new(
        dataset.clone(),
        chosen_measures,
        chosen_dimensions,
        chosen_order_bys,
        Some(100),
        syntax,
    )
}

/// `q` is a query that `random_query` may give for these arguments: it is on
/// `dataset` with a limit of 100 rows; it has `min(k, available)` distinct
/// dimensions and measures for some `k` drawn from the given ranges; it sorts on
/// `min(k, chosen)` distinct entries, for some `k` drawn from `no_order_bys`,
/// among its chosen measures and dimensions, each with some direction.
pub open spec fn random_query_outcome<T: Syntax>(
    q: Query<T>,
    dataset: Dataset,
    measures: Seq<Measure>,
    dimensions: Seq<Dimension>,
    no_dimensions: Range<usize>,
    no_measures: Range<usize>,
    no_order_bys: Range<usize>,
    syntax: T,
) -> bool {
    &&& q.dataset.same_as(dataset)
    &&& q.limit == Some(100usize)
    &&& q.syntax == syntax
    &&& exists|k: int|
        no_dimensions.start <= k < no_dimensions.end && q.dimensions@.len() == #[trigger] min_int(
            k,
            dimensions.len() as int,
        )
    &&& is_selection(q.dimensions@, dimensions)
    &&& exists|k: int|
        no_measures.start <= k < no_measures.end && q.measures@.len() == #[trigger] min_int(
            k,
            measures.len() as int,
        )
    &&& is_selection(q.measures@, measures)
    &&& exists|k: int|
        no_order_bys.start <= k < no_order_bys.end && q.order_by@.len() == #[trigger] min_int(
            k,
            (q.measures@.len() + q.dimensions@.len()) as int,
        )
    &&& exists|dirs: Seq<OrderByDirection>|
        dirs.len() == q.measures@.len() + q.dimensions@.len() && #[trigger] is_selection(
            q.order_by@,
            order_by_candidates(q.measures@, q.dimensions@, dirs),
        )
}

/// A random query on `dataset`: a number of dimensions drawn from
/// `no_dimensions`, of measures from `no_measures`, of `ORDER BY` entries from
/// `no_order_bys` (at most as many as the dimensions and measures drawn), that
/// many distinct dimensions and measures (all of them when there are fewer), each
/// chosen one sorted on in a random direction, that many distinct sort entries
/// among them, and a limit of 100 rows.
pub fn random_query<T: Syntax>(
    dataset: &Dataset,
    measures: &Vec<Measure>,
    dimensions: &Vec<Dimension>,
    no_dimensions: Range<usize>,
    no_measures: Range<usize>,
    no_order_bys: Range<usize>,
    syntax: T,
) -> (q: Query<T>)
    requires
        no_dimensions.start < no_dimensions.end,
        no_measures.start < no_measures.end,
        no_order_bys.start < no_order_bys.end,
        no_dimensions.end - 1 + no_measures.end - 1 <= usize::MAX,
    ensures
        random_query_outcome(
            q,
            *dataset,
            measures@,
            dimensions@,
            no_dimensions,
            no_measures,
            no_order_bys,
            syntax,
        ),
{
    let n_dimensions = random_in_range(no_dimensions.start, no_dimensions.end);
    let n_measures = random_in_range(no_measures.start, no_measures.end);
    let drawn_order_bys = random_in_range(no_order_bys.start, no_order_bys.end);
    let n_order_bys = if drawn_order_bys <= n_dimensions + n_measures {
        drawn_order_bys
    } else {
        n_dimensions + n_measures
    };

    let measure_positions = positions_vec(measures.len());
    let measure_picks = choose_multiple(measure_positions.as_slice(), n_measures);
    proof {
        lemma_picked_positions(measure_picks@, measures@.len());
    }
    let dimension_positions = positions_vec(dimensions.len());
    let dimension_picks = choose_multiple(dimension_positions.as_slice(), n_dimensions);
    proof {
        lemma_picked_positions(dimension_picks@, dimensions@.len());
    }

    let n_candidates = measure_picks.len() + dimension_picks.len();
    let mut direction_draws: Vec<usize> = Vec::new();
    for i in 0..n_candidates
        invariant
            direction_draws@.len() == i,
    {
        direction_draws.push(random_in_range(0, 2));
    }

    let candidate_positions = positions_vec(n_candidates);
    let order_by_picks = choose_multiple(candidate_positions.as_slice(), n_order_bys);
    proof {
        lemma_picked_positions(order_by_picks@, n_candidates as nat);
    }

    let q = query_from_draws(
        dataset,
        measures,
        dimensions,
        &measure_picks,
        &dimension_picks,
        &direction_draws,
        &order_by_picks,
        syntax,
    );
    proof {
        let dirs = direction_draws@.map_values(|d: usize| direction_of(d));
        assert(dirs.len() == q.measures@.len() + q.dimensions@.len());
        assert(distinct_below(measure_picks@, measures@.len() as int));
        assert(is_selection(q.measures@, measures@));
        assert(is_selection(q.dimensions@, dimensions@));
        assert(is_selection(q.order_by@, order_by_candidates(q.measures@, q.dimensions@, dirs)));
        assert(q.measures@.len() == min_int(n_measures as int, measures@.len() as int));
        assert(q.dimensions@.len() == min_int(n_dimensions as int, dimensions@.len() as int));
        assert(q.order_by@.len() == min_int(
            drawn_order_bys as int,
            (q.measures@.len() + q.dimensions@.len()) as int,
        ));
    }
    q
}

} // verus!
