//! Properties that hold across the library's functions.
use vstd::prelude::*;

use core::ops::Range;

use crate::generate::{is_selection, order_by_candidates, pick, random_query_outcome};
use crate::query::{
    column_measures, dimensions_of, is_dimension_type, measures_of, Dimension, Measure, MeasureType, OrderByDirection, OrderByItem,
    Query, Syntax,
};
use crate::slug::{byte_len, max_slug_len, slug_input_ok, slug_of_cleaned, slug_body, split_words};
use crate::socrata::{Column, Dataset};
use crate::ddn::SplitgraphDDNSyntax;
use crate::query::OrderBy;
use crate::query_state::{control_encoded, control_encoded_char, embed_url};
use crate::slug::{kept_chars, lowercase};
use crate::text::has_infix;

verus! {

/// The measures that a dataset offers start with `COUNT(*)`; every other one
/// aggregates a column of the dataset that is not a derived region column, with
/// `MIN`/`MAX` only on ordered types and `SUM`/`AVG` only on additive ones. So
/// each of them can be written as SQL.
pub proof fn lemma_offered_measures(columns: Seq<Column>)
    ensures
        measures_of(columns).len() >= 1,
        measures_of(columns)[0] == (Measure { type_: MeasureType::Count, column: None }),
        forall|i: int| 0 <= i < measures_of(columns).len() ==> (#[trigger] measures_of(columns)[i]).renderable(),
        forall|i: int|
            1 <= i < measures_of(columns).len() ==> {
                let m = #[trigger] measures_of(columns)[i];
                &&& m.column is Some
                &&& columns.contains(m.column->0)
                &&& !has_infix(m.column->0.pg_name@, ":@computed_region"@)
                &&& (m.type_ is Min || m.type_ is Max) ==> {
                    let t = m.column->0.data_type;
                    t is Money || t is Number || t is Double || t is FloatingTimestamp || t is CalendarDate
                }
                &&& (m.type_ is Sum || m.type_ is Average) ==> {
                    let t = m.column->0.data_type;
                    t is Money || t is Number || t is Double
                }
                &&& !(m.type_ is Count)
            },
    decreases columns.len(),
{
    if columns.len() > 0 {
        let init = columns.drop_last();
        let c = columns.last();
        lemma_offered_measures(init);
        let before = measures_of(init);
        let added = column_measures(c);
        assert(measures_of(columns) == before + added);
        assert forall|i: int| 1 <= i < measures_of(columns).len() implies {
            let m = #[trigger] measures_of(columns)[i];
            &&& m.column is Some
            &&& columns.contains(m.column->0)
            &&& !has_infix(m.column->0.pg_name@, ":@computed_region"@)
            &&& (m.type_ is Min || m.type_ is Max) ==> {
                let t = m.column->0.data_type;
                t is Money || t is Number || t is Double || t is FloatingTimestamp || t is CalendarDate
            }
            &&& (m.type_ is Sum || m.type_ is Average) ==> {
                let t = m.column->0.data_type;
                t is Money || t is Number || t is Double
            }
            &&& !(m.type_ is Count)
        } by {
            if i < before.len() {
                assert(measures_of(columns)[i] == before[i]);
                let x = before[i].column->0;
                assert(init.contains(x));
                let j = choose|j: int| 0 <= j < init.len() && init[j] == x;
                assert(columns[j] == x);
            } else {
                assert(measures_of(columns)[i] == added[i - before.len()]);
                assert(columns[columns.len() - 1] == c);
            }
        }
        assert forall|i: int| 0 <= i < measures_of(columns).len() implies (
        #[trigger] measures_of(columns)[i]).renderable() by {
            if i < before.len() {
                assert(measures_of(columns)[i] == before[i]);
            } else {
                assert(measures_of(columns)[i] == added[i - before.len()]);
            }
        }
    }
}

/// The dimensions that a dataset offers are its text, checkbox and URL columns.
pub proof fn lemma_offered_dimensions(columns: Seq<Column>)
    ensures
        dimensions_of(columns).len() <= columns.len(),
        forall|i: int|
            0 <= i < dimensions_of(columns).len() ==> {
                let d = #[trigger] dimensions_of(columns)[i];
                columns.contains(d.column) && is_dimension_type(d.column.data_type)
            },
    decreases columns.len(),
{
    if columns.len() > 0 {
        let init = columns.drop_last();
        lemma_offered_dimensions(init);
        assert forall|i: int| 0 <= i < dimensions_of(columns).len() implies {
            let d = #[trigger] dimensions_of(columns)[i];
            columns.contains(d.column) && is_dimension_type(d.column.data_type)
        } by {
            if i < dimensions_of(init).len() {
                assert(dimensions_of(columns)[i] == dimensions_of(init)[i]);
                let x = dimensions_of(init)[i].column;
                let j = choose|j: int| 0 <= j < init.len() && init[j] == x;
                assert(columns[j] == x);
            } else {
                assert(columns[columns.len() - 1] == columns.last());
            }
        }
    }
}

/// Items taken from a sequence keep what holds of all of its items.
proof fn lemma_selection_keeps_renderable(chosen: Seq<Measure>, from: Seq<Measure>)
    requires
        is_selection(chosen, from),
        forall|i: int| 0 <= i < from.len() ==> (#[trigger] from[i]).renderable(),
    ensures
        forall|i: int| 0 <= i < chosen.len() ==> (#[trigger] chosen[i]).renderable(),
{
    let idx = choose|idx: Seq<usize>|
        crate::generate::distinct_below(idx, from.len() as int) && chosen == #[trigger] pick(
            from,
            idx,
        );
    assert forall|i: int| 0 <= i < chosen.len() implies (#[trigger] chosen[i]).renderable() by {
        assert(idx[i] < from.len());
        assert(chosen[i] == from[idx[i] as int]);
    }
}

/// A query that `random_query` may give, drawn from measures that can all be
/// written as SQL, can be written as SQL whenever its syntax names its dataset:
/// its measures, and the measures it sorts on, are among those.
pub proof fn lemma_random_query_renderable<T: Syntax>(
    q: Query<T>,
    dataset: Dataset,
    measures: Seq<Measure>,
    dimensions: Seq<Dimension>,
    no_dimensions: Range<usize>,
    no_measures: Range<usize>,
    no_order_bys: Range<usize>,
    syntax: T,
)
    requires
        random_query_outcome(
            q,
            dataset,
            measures,
            dimensions,
            no_dimensions,
            no_measures,
            no_order_bys,
            syntax,
        ),
        forall|i: int| 0 <= i < measures.len() ==> (#[trigger] measures[i]).renderable(),
        q.syntax.names_dataset(q.dataset),
    ensures
        q.renderable(),
{
    lemma_selection_keeps_renderable(q.measures@, measures);
    let dirs = choose|dirs: Seq<OrderByDirection>|
        dirs.len() == q.measures@.len() + q.dimensions@.len() && #[trigger] is_selection(
            q.order_by@,
            order_by_candidates(q.measures@, q.dimensions@, dirs),
        );
    let cands = order_by_candidates(q.measures@, q.dimensions@, dirs);
    let idx = choose|idx: Seq<usize>|
        crate::generate::distinct_below(idx, cands.len() as int) && q.order_by@ == #[trigger] pick(
            cands,
            idx,
        );
    assert forall|i: int| 0 <= i < q.order_by@.len() implies (#[trigger] q.order_by@[i]).renderable() by {
        let k = idx[i] as int;
        assert(q.order_by@[i] == cands[k]);
        if k < q.measures@.len() {
            assert(cands[k].item == OrderByItem::Measure(q.measures@[k]));
        } else {
            assert(cands[k].item is Dimension);
        }
    }
}

/// A random query on a dataset, drawn from the measures and dimensions that the
/// dataset offers, can always be written as SQL when its syntax names the
/// dataset.
pub proof fn lemma_generated_query_renderable<T: Syntax>(
    q: Query<T>,
    dataset: Dataset,
    no_dimensions: Range<usize>,
    no_measures: Range<usize>,
    no_order_bys: Range<usize>,
    syntax: T,
)
    requires
        random_query_outcome(
            q,
            dataset,
            measures_of(dataset.columns@),
            dimensions_of(dataset.columns@),
            no_dimensions,
            no_measures,
            no_order_bys,
            syntax,
        ),
        q.syntax.names_dataset(q.dataset),
    ensures
        q.renderable(),
{
    lemma_offered_measures(dataset.columns@);
    lemma_random_query_renderable(
        q,
        dataset,
        measures_of(dataset.columns@),
        dimensions_of(dataset.columns@),
        no_dimensions,
        no_measures,
        no_order_bys,
        syntax,
    );
}

/// A table name never takes more than 50 bytes.
pub proof fn lemma_slug_within_limit(cleaned: Seq<char>)
    requires
        slug_input_ok(cleaned),
    ensures
        byte_len(slug_of_cleaned(cleaned)) <= max_slug_len(),
{
    let body = slug_body(split_words(cleaned));
    if byte_len(body) > max_slug_len() {
        let k = choose|k: int| 0 <= k <= body.len() && #[trigger] byte_len(body.take(k)) == max_slug_len();
        assert(slug_of_cleaned(cleaned) == body.take(k));
    }
}

/// Every `ORDER BY` entry is written as what it sorts on followed by ` DESC`
/// when its direction is descending and ` ASC` when it is ascending, whether it
/// sorts on a measure or on a dimension.
pub proof fn lemma_order_by_direction<T: Syntax>(q: Query<T>, o: OrderBy)
    ensures
        q.order_by_sql(o) == (match o.item {
            OrderByItem::Measure(m) => q.measure_sql(m, false),
            OrderByItem::Dimension(d) => q.dimension_sql(d),
        }) + if o.direction is Desc {
            " DESC"@
        } else {
            " ASC"@
        },
{
}

/// In the SQL of a query, the `i`-th `ORDER BY` entry is written with the
/// direction of the `i`-th entry of `order_by`.
pub proof fn lemma_query_order_by_directions<T: Syntax>(q: Query<T>, i: int)
    requires
        0 <= i < q.order_by@.len(),
    ensures
        q.order_bys_sql()[i] == (match q.order_by@[i].item {
            OrderByItem::Measure(m) => q.measure_sql(m, false),
            OrderByItem::Dimension(d) => q.dimension_sql(d),
        }) + if q.order_by@[i].direction is Desc {
            " DESC"@
        } else {
            " ASC"@
        },
{
    lemma_order_by_direction(q, q.order_by@[i]);
}

/// Each column that is not a derived region column yields `MIN` and `MAX` when
/// its type is Money, Number, Double, Floating timestamp or Calendar date, and
/// `SUM` and `AVG` when its type is Money, Number or Double.
pub proof fn lemma_measures_complete(columns: Seq<Column>, j: int)
    requires
        0 <= j < columns.len(),
        !has_infix(columns[j].pg_name@, ":@computed_region"@),
    ensures
        ({
            let t = columns[j].data_type;
            t is Money || t is Number || t is Double || t is FloatingTimestamp || t is CalendarDate
        }) ==> measures_of(columns).contains(
            Measure { type_: MeasureType::Min, column: Some(columns[j]) },
        ) && measures_of(columns).contains(
            Measure { type_: MeasureType::Max, column: Some(columns[j]) },
        ),
        ({
            let t = columns[j].data_type;
            t is Money || t is Number || t is Double
        }) ==> measures_of(columns).contains(
            Measure { type_: MeasureType::Sum, column: Some(columns[j]) },
        ) && measures_of(columns).contains(
            Measure { type_: MeasureType::Average, column: Some(columns[j]) },
        ),
    decreases columns.len(),
{
    let init = columns.drop_last();
    let c = columns.last();
    let before = measures_of(init);
    let added = column_measures(c);
    let all = measures_of(columns);
    assert(all == before + added);
    let c_min = Measure { type_: MeasureType::Min, column: Some(columns[j]) };
    let c_max = Measure { type_: MeasureType::Max, column: Some(columns[j]) };
    let c_sum = Measure { type_: MeasureType::Sum, column: Some(columns[j]) };
    let c_avg = Measure { type_: MeasureType::Average, column: Some(columns[j]) };
    if j == columns.len() - 1 {
        let t = c.data_type;
        let ordered = t is Money || t is Number || t is Double || t is FloatingTimestamp || t is CalendarDate;
        let additive = t is Money || t is Number || t is Double;
        let o = if ordered { 2int } else { 0int };
        if ordered {
            assert(all[before.len() as int] == c_min);
            assert(all[before.len() + 1int] == c_max);
        }
        if additive {
            assert(all[before.len() + o] == c_sum);
            assert(all[before.len() + o + 1] == c_avg);
        }
    } else {
        assert(init[j] == columns[j]);
        lemma_measures_complete(init, j);
        assert forall|x: Measure| before.contains(x) implies all.contains(x) by {
            let k = choose|k: int| 0 <= k < before.len() && before[k] == x;
            assert(all[k] == x);
        }
    }
}

/// Every dimension that a dataset offers groups by one of its columns of type
/// Text, Checkbox or Url, and every such column is offered; so a dataset without
/// such columns offers no dimension.
pub proof fn lemma_dimensions_exact(columns: Seq<Column>)
    ensures
        forall|i: int|
            0 <= i < dimensions_of(columns).len() ==> {
                let d = #[trigger] dimensions_of(columns)[i];
                &&& columns.contains(d.column)
                &&& d.column.data_type is Text || d.column.data_type is Checkbox
                    || d.column.data_type is Url
            },
        forall|j: int|
            0 <= j < columns.len() && (columns[j].data_type is Text || columns[j].data_type is Checkbox
                || columns[j].data_type is Url) ==> dimensions_of(columns).contains(
                Dimension { column: #[trigger] columns[j] },
            ),
        (forall|j: int|
            0 <= j < columns.len() ==> !(#[trigger] columns[j].data_type is Text) && !(
            columns[j].data_type is Checkbox) && !(columns[j].data_type is Url)) ==> dimensions_of(
            columns,
        ).len() == 0,
    decreases columns.len(),
{
    lemma_offered_dimensions(columns);
    if columns.len() > 0 {
        let init = columns.drop_last();
        lemma_dimensions_exact(init);
        let before = dimensions_of(init);
        let all = dimensions_of(columns);
        assert forall|x: Dimension| before.contains(x) implies all.contains(x) by {
            let k = choose|k: int| 0 <= k < before.len() && before[k] == x;
            assert(all[k] == x);
        }
        assert forall|j: int|
            0 <= j < columns.len() && (columns[j].data_type is Text || columns[j].data_type
                is Checkbox || columns[j].data_type is Url) implies all.contains(
            Dimension { column: #[trigger] columns[j] },
        ) by {
            if j < columns.len() - 1 {
                assert(init[j] == columns[j]);
            } else {
                assert(all[before.len() as int] == Dimension { column: columns[j] });
            }
        }
        if all.len() > 0 {
            let d = all[0];
            let k = choose|k: int| 0 <= k < columns.len() && columns[k] == d.column;
            assert(columns[k].data_type is Text || columns[k].data_type is Checkbox
                || columns[k].data_type is Url);
        }
    }
}

/// Splitgraph's delivery network names the table of every dataset whose name,
/// lowercased and stripped of all but whitespace and ASCII letters and digits,
/// still has a word, however long the name is; and of no other dataset.
pub proof fn lemma_splitgraph_names_worded_datasets(s: SplitgraphDDNSyntax, d: Dataset)
    ensures
        s.names_dataset(d) <==> split_words(kept_chars(lowercase(d.name@))).len() > 0,
{
}

/// A query in the delivery network's dialect can be written as SQL when its
/// measures can and its dataset's name has a word, whatever the name's length.
pub proof fn lemma_splitgraph_query_renderable(q: Query<SplitgraphDDNSyntax>)
    requires
        forall|i: int| 0 <= i < q.measures@.len() ==> (#[trigger] q.measures@[i]).renderable(),
        forall|i: int| 0 <= i < q.order_by@.len() ==> (#[trigger] q.order_by@[i]).renderable(),
        split_words(kept_chars(lowercase(q.dataset.name@))).len() > 0,
    ensures
        q.renderable(),
{
    lemma_splitgraph_names_worded_datasets(q.syntax, q.dataset);
}

/// Percent-encoding works character by character: the encoding of a
/// concatenation is the concatenation of the encodings.
pub proof fn lemma_control_encoded_concat(a: Seq<char>, b: Seq<char>)
    ensures
        control_encoded(a + b) == control_encoded(a) + control_encoded(b),
    decreases b.len(),
{
    if b.len() == 0 {
        assert(a + b == a);
        assert(control_encoded(b) == Seq::<char>::empty());
        assert(control_encoded(a) + control_encoded(b) == control_encoded(a));
    } else {
        assert((a + b).drop_last() == a + b.drop_last());
        assert((a + b).last() == b.last());
        lemma_control_encoded_concat(a, b.drop_last());
        assert(control_encoded(a + b) == control_encoded(a + b.drop_last()) + control_encoded_char(
            b.last(),
        ));
        assert(control_encoded(a) + control_encoded(b) == control_encoded(a) + control_encoded(
            b.drop_last(),
        ) + control_encoded_char(b.last()));
    }
}

/// Every character of the input gives at least one character of the encoding.
pub proof fn lemma_control_encoded_len(s: Seq<char>)
    ensures
        control_encoded(s).len() >= s.len(),
    decreases s.len(),
{
    if s.len() > 0 {
        lemma_control_encoded_len(s.drop_last());
        let c = s.last();
        let u = c as int;
        if !(u < 0x20 || u == 0x7F) && u >= 0x80 {
            let bs = crate::query_state::utf8_bytes(c);
            assert(bs.len() >= 1);
            assert(crate::query_state::percent_bytes(bs) == crate::query_state::percent_bytes(
                bs.drop_last(),
            ) + crate::query_state::percent_byte(bs.last()));
        }
        assert(control_encoded_char(c).len() >= 1);
    }
}

/// The embedded workspace is opened on the whole query, of any length: the
/// address of `a + b` is the address of `a` followed by the encoding of `b`, and
/// the address is longer than the query by at least its fixed prefix.
pub proof fn lemma_embed_url_whole_query(a: Seq<char>, b: Seq<char>)
    ensures
        embed_url(a + b) == embed_url(a) + control_encoded(b),
        embed_url(a).len() >= a.len() + "https://www.splitgraph.com/embed/workspace/ddn?layout=hsplit&query="@.len(),
{
    lemma_control_encoded_concat(a, b);
    lemma_control_encoded_len(a);
    let p = "https://www.splitgraph.com/embed/workspace/ddn?layout=hsplit&query="@;
    assert(embed_url(a + b) == p + (control_encoded(a) + control_encoded(b)));
    assert(p + (control_encoded(a) + control_encoded(b)) == p + control_encoded(a) + control_encoded(b));
}

} // verus!
