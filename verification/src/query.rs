//! Aggregation queries over a dataset, and their rendering as SQL text.
use vstd::prelude::*;

use crate::socrata::{Column, DataType, Dataset};
use crate::text::{
    contains_str, decimal, decimal_string, has_infix, join_strings, lemma_string_views_push, seq_join,
    string_views,
};

verus! {

/// An aggregate function.
#[derive(PartialEq, Eq, Debug)]
pub enum MeasureType {
    Count,
    Sum,
    Average,
    Min,
    Max,
}

impl Clone for MeasureType {
    fn clone(&self) -> (r: Self)
        ensures
            r == *self,
    {
        match self {
            MeasureType::Count => MeasureType::Count,
            MeasureType::Sum => MeasureType::Sum,
            MeasureType::Average => MeasureType::Average,
            MeasureType::Min => MeasureType::Min,
            MeasureType::Max => MeasureType::Max,
        }
    }
}

/// An aggregate over a column; `COUNT` needs no column.
#[derive(PartialEq, Eq, Debug)]
pub struct Measure {
    pub type_: MeasureType,
    pub column: Option<Column>,
}

impl Clone for Measure {
    fn clone(&self) -> (r: Self)
        ensures
            r == *self,
    {
        let column = match &self.column {
            Some(c) => Some(c.clone()),
            None => None,
        };
        Measure { type_: self.type_.clone(), column }
    }
}

impl Measure {
    /// A measure can be written as SQL: it counts rows, or it names its column.
    pub open spec fn renderable(self) -> bool {
        self.type_ is Count || self.column is Some
    }
}

/// A column to group by.
#[derive(PartialEq, Eq, Debug)]
pub struct Dimension {
    pub column: Column,
}

impl Clone for Dimension {
    fn clone(&self) -> (r: Self)
        ensures
            r == *self,
    {
        Dimension { column: self.column.clone() }
    }
}

/// What an `ORDER BY` entry sorts on.
#[derive(PartialEq, Eq, Debug)]
pub enum OrderByItem {
    Measure(Measure),
    Dimension(Dimension),
}

impl Clone for OrderByItem {
    fn clone(&self) -> (r: Self)
        ensures
            r == *self,
    {
        match self {
            OrderByItem::Measure(m) => OrderByItem::Measure(m.clone()),
            OrderByItem::Dimension(d) => OrderByItem::Dimension(d.clone()),
        }
    }
}

/// Sort direction.
#[derive(PartialEq, Eq, Debug)]
pub enum OrderByDirection {
    Asc,
    Desc,
}

impl Clone for OrderByDirection {
    fn clone(&self) -> (r: Self)
        ensures
            r == *self,
    {
        match self {
            OrderByDirection::Asc => OrderByDirection::Asc,
            OrderByDirection::Desc => OrderByDirection::Desc,
        }
    }
}

/// One `ORDER BY` entry.
#[derive(PartialEq, Eq, Debug)]
pub struct OrderBy {
    pub item: OrderByItem,
    pub direction: OrderByDirection,
}

impl Clone for OrderBy {
    fn clone(&self) -> (r: Self)
        ensures
            r == *self,
    {
        OrderBy { item: self.item.clone(), direction: self.direction.clone() }
    }
}

impl OrderBy {
    /// An entry can be written as SQL when the measure it sorts on can.
    pub open spec fn renderable(self) -> bool {
        match self.item {
            OrderByItem::Measure(m) => m.renderable(),
            OrderByItem::Dimension(_) => true,
        }
    }
}

/// How datasets and columns are named in the SQL dialect of a query engine.
pub trait Syntax {
    /// The SQL text that names `dataset`.
    spec fn dataset_sql(&self, dataset: Dataset) -> Seq<char>;

    /// The SQL text that names `column`.
    spec fn column_sql(&self, column: Column) -> Seq<char>;

    /// Whether this syntax can name `dataset` at all.
    spec fn names_dataset(&self, dataset: Dataset) -> bool;

    /// Tells whether `get_dataset_sql` may be called on `dataset`.
    fn can_name_dataset(&self, dataset: &Dataset) -> (r: bool)
        ensures
            r == self.names_dataset(*dataset),
    ;

    /// Get an SQL identifier for a dataset
    fn get_dataset_sql(&self, dataset: &Dataset) -> (r: String)
        requires
            self.names_dataset(*dataset),
        ensures
            r@ == self.dataset_sql(*dataset),
    ;

    /// Get an SQL identifier for a column
    fn get_column_sql(&self, column: &Column) -> (r: String)
        ensures
            r@ == self.column_sql(*column),
    ;
}

/// Names a dataset by its Socrata id and a column by its field name, as they are.
pub struct DefaultSyntax {}

impl Syntax for DefaultSyntax {
    open spec fn dataset_sql(&self, dataset: Dataset) -> Seq<char> {
        dataset.socrata_id@
    }

    open spec fn column_sql(&self, column: Column) -> Seq<char> {
        column.pg_name@
    }

    open spec fn names_dataset(&self, dataset: Dataset) -> bool {
        true
    }

    fn can_name_dataset(&self, dataset: &Dataset) -> (r: bool) {
        true
    }

    fn get_dataset_sql(&self, dataset: &Dataset) -> (r: String) {
        dataset.socrata_id.clone()
    }

    fn get_column_sql(&self, column: &Column) -> (r: String) {
        column.pg_name.clone()
    }
}

/// An aggregation query: grouped dimensions, measures, sort order and row limit.
#[derive(Debug, Eq, PartialEq)]
pub struct Query<T: Syntax> {
    pub dataset: Dataset,
    pub measures: Vec<Measure>,
    pub dimensions: Vec<Dimension>,
    pub order_by: Vec<OrderBy>,
    pub limit: Option<usize>,
    pub syntax: T,
}

/// The SQL name of an aggregate function.
pub open spec fn function_name(t: MeasureType) -> Seq<char> {
    match t {
        MeasureType::Count => "COUNT"@,
        MeasureType::Sum => "SUM"@,
        MeasureType::Average => "AVG"@,
        MeasureType::Min => "MIN"@,
        MeasureType::Max => "MAX"@,
    }
}

/// The SQL name of an aggregate function in lower case, as used in column aliases.
pub open spec fn alias_prefix(t: MeasureType) -> Seq<char> {
    match t {
        MeasureType::Count => "count"@,
        MeasureType::Sum => "sum"@,
        MeasureType::Average => "avg"@,
        MeasureType::Min => "min"@,
        MeasureType::Max => "max"@,
    }
}

/// The separator between the entries of a SQL list.
pub open spec fn list_separator() -> Seq<char> {
    ",\n  "@
}

impl<T: Syntax> Query<T> {
    /// The SQL text of a measure; `alias` adds `AS <function>_<column>`.
    pub open spec fn measure_sql(&self, m: Measure, alias: bool) -> Seq<char> {
        match m.type_ {
            MeasureType::Count => "COUNT(*)"@,
            _ => {
                let c = m.column->0;
                function_name(m.type_) + "("@ + self.syntax.column_sql(c) + ")"@ + if alias {
                    " AS "@ + alias_prefix(m.type_) + "_"@ + c.pg_name@
                } else {
                    Seq::empty()
                }
            },
        }
    }

    /// The SQL text of a dimension.
    pub open spec fn dimension_sql(&self, d: Dimension) -> Seq<char> {
        self.syntax.column_sql(d.column)
    }

    /// The SQL text of an `ORDER BY` entry.
    pub open spec fn order_by_sql(&self, o: OrderBy) -> Seq<char> {
        (match o.item {
            OrderByItem::Measure(m) => self.measure_sql(m, false),
            OrderByItem::Dimension(d) => self.dimension_sql(d),
        }) + match o.direction {
            OrderByDirection::Asc => " ASC"@,
            OrderByDirection::Desc => " DESC"@,
        }
    }

    /// The SQL of each dimension, in order.
    pub open spec fn dimensions_sql(&self) -> Seq<Seq<char>> {
        self.dimensions@.map_values(|d: Dimension| self.dimension_sql(d))
    }

    /// The SQL of each measure with its alias, in order.
    pub open spec fn measures_sql(&self) -> Seq<Seq<char>> {
        self.measures@.map_values(|m: Measure| self.measure_sql(m, true))
    }

    /// The SQL of each `ORDER BY` entry, in order.
    pub open spec fn order_bys_sql(&self) -> Seq<Seq<char>> {
        self.order_by@.map_values(|o: OrderBy| self.order_by_sql(o))
    }

    /// The whole query as SQL text.
    pub open spec fn sql(&self) -> Seq<char> {
        "SELECT\n  "@ + seq_join(self.dimensions_sql() + self.measures_sql(), list_separator())
            + "\nFROM "@ + self.syntax.dataset_sql(self.dataset) + (if self.dimensions@.len()
            > 0 {
            "\nGROUP BY\n  "@ + seq_join(self.dimensions_sql(), list_separator())
        } else {
            Seq::empty()
        }) + (if self.order_by@.len() > 0 {
            "\nORDER BY\n  "@ + seq_join(self.order_bys_sql(), list_separator())
        } else {
            Seq::empty()
        }) + match self.limit {
            Some(l) => "\nLIMIT "@ + decimal(l as nat),
            None => Seq::empty(),
        }
    }

    /// The query can be written as SQL: every measure, also those sorted on, can
    /// be, and the syntax can name the dataset.
    pub open spec fn renderable(&self) -> bool {
        &&& forall|i: int| 0 <= i < self.measures@.len() ==> (#[trigger] self.measures@[i]).renderable()
        &&& forall|i: int| 0 <= i < self.order_by@.len() ==> (#[trigger] self.order_by@[i]).renderable()
        &&& self.syntax.names_dataset(self.dataset)
    }

    fn emit_measure(&self, measure: &Measure, include_alias: bool) -> (r: String)
        requires
            measure.renderable(),
        ensures
            r@ == self.measure_sql(*measure, include_alias),
    {
        let (func, alias): (&str, &str) = match measure.type_ {
            MeasureType::Count => ("COUNT", "count"),
            MeasureType::Sum => ("SUM", "sum"),
            MeasureType::Average => ("AVG", "avg"),
            MeasureType::Min => ("MIN", "min"),
            MeasureType::Max => ("MAX", "max"),
        };
        if let MeasureType::Count = measure.type_ {
            return "COUNT(*)".to_owned();
        }
        let column = match &measure.column {
            Some(c) => c,
            None => {
                assert(false);
                return String::new();
            },
        };
        let column_sql = self.syntax.get_column_sql(column);
        let mut result = func.to_owned();
        result.append("(");
        result.append(column_sql.as_str());
        result.append(")");
        if include_alias {
            result.append(" AS ");
            result.append(alias);
            result.append("_");
            result.append(column.pg_name.as_str());
        }
        result
    }

    fn emit_dimension(&self, dimension: &Dimension) -> (r: String)
        ensures
            r@ == self.dimension_sql(*dimension),
    {
        self.syntax.get_column_sql(&dimension.column)
    }

    fn emit_order_by(&self, order_by: &OrderBy) -> (r: String)
        requires
            order_by.renderable(),
        ensures
            r@ == self.order_by_sql(*order_by),
    {
        let mut result = String::new();
        let item = match &order_by.item {
            OrderByItem::Measure(m) => self.emit_measure(m, false),
            OrderByItem::Dimension(d) => self.emit_dimension(d),
        };
        result.append(item.as_str());
        result.append(
            match &order_by.direction {
                OrderByDirection::Asc => " ASC",
                OrderByDirection::Desc => " DESC",
            },
        );
        result
    }

    fn emit_dimensions(&self) -> (r: Vec<String>)
        ensures
            string_views(r@) == self.dimensions_sql(),
    {
        let mut r: Vec<String> = Vec::new();
        for i in 0..self.dimensions.len()
            invariant
                string_views(r@) == self.dimensions_sql().take(i as int),
        {
            let s = self.emit_dimension(&self.dimensions[i]);
            proof {
                lemma_string_views_push(r@, s);
            }
            r.push(s);
            assert(self.dimensions_sql().take(i + 1) =~= self.dimensions_sql().take(i as int).push(
                self.dimension_sql(self.dimensions@[i as int]),
            ));
        }
        assert(self.dimensions_sql().take(self.dimensions.len() as int) == self.dimensions_sql());
        r
    }

    /// Tells whether the query can be written as SQL, so that `to_sql` may be called.
    pub fn can_render(&self) -> (r: bool)
        ensures
            r == self.renderable(),
    {
        let mut ok = true;
        for i in 0..self.measures.len()
            invariant
                ok == forall|k: int| 0 <= k < i ==> (#[trigger] self.measures@[k]).renderable(),
        {
            let m = &self.measures[i];
            let this_ok = match (&m.type_, &m.column) {
                (MeasureType::Count, _) => true,
                (_, Some(_)) => true,
                _ => false,
            };
            ok = ok && this_ok;
        }
        let measures_ok = ok;
        let mut ok = true;
        for i in 0..self.order_by.len()
            invariant
                ok == forall|k: int| 0 <= k < i ==> (#[trigger] self.order_by@[k]).renderable(),
        {
            let this_ok = match &self.order_by[i].item {
                OrderByItem::Measure(m) => match (&m.type_, &m.column) {
                    (MeasureType::Count, _) => true,
                    (_, Some(_)) => true,
                    _ => false,
                },
                OrderByItem::Dimension(_) => true,
            };
            ok = ok && this_ok;
        }
        measures_ok && ok && self.syntax.can_name_dataset(&self.dataset)
    }

    /// The query as SQL text.
    pub fn to_sql(&self) -> (r: String)
        requires
            self.renderable(),
        ensures
            r@ == self.sql(),
    {
        let mut result = String::new();
        result.append("SELECT\n  ");

        let mut select = self.emit_dimensions();
        let ghost dims = string_views(select@);
        for i in 0..self.measures.len()
            invariant
                self.renderable(),
                dims == self.dimensions_sql(),
                string_views(select@) == dims + self.measures_sql().take(i as int),
        {
            let s = self.emit_measure(&self.measures[i], true);
            proof {
                lemma_string_views_push(select@, s);
            }
            select.push(s);
            assert(self.measures_sql().take(i + 1) =~= self.measures_sql().take(i as int).push(
                self.measure_sql(self.measures@[i as int], true),
            ));
            assert(dims + self.measures_sql().take(i + 1) =~= (dims + self.measures_sql().take(
                i as int,
            )).push(self.measure_sql(self.measures@[i as int], true)));
        }
        assert(self.measures_sql().take(self.measures.len() as int) == self.measures_sql());
        let select_sql = join_strings(&select, ",\n  ");
        result.append(select_sql.as_str());

        result.append("\nFROM ");
        let dataset_sql = self.syntax.get_dataset_sql(&self.dataset);
        result.append(dataset_sql.as_str());

        if self.dimensions.len() > 0 {
            result.append("\nGROUP BY\n  ");
            let dims_exec = self.emit_dimensions();
            let group_sql = join_strings(&dims_exec, ",\n  ");
            result.append(group_sql.as_str());
        }

        if self.order_by.len() > 0 {
            result.append("\nORDER BY\n  ");
            let mut orders: Vec<String> = Vec::new();
            for i in 0..self.order_by.len()
                invariant
                    self.renderable(),
                    string_views(orders@) == self.order_bys_sql().take(i as int),
            {
                let s = self.emit_order_by(&self.order_by[i]);
                proof {
                    lemma_string_views_push(orders@, s);
                }
                orders.push(s);
                assert(self.order_bys_sql().take(i + 1) =~= self.order_bys_sql().take(i as int).push(
                    self.order_by_sql(self.order_by@[i as int]),
                ));
            }
            assert(self.order_bys_sql().take(self.order_by.len() as int) == self.order_bys_sql());
            let order_sql = join_strings(&orders, ",\n  ");
            result.append(order_sql.as_str());
        }

        if let Some(l) = self.limit {
            result.append("\nLIMIT ");
            let digits = decimal_string(l);
            result.append(digits.as_str());
        }
        result
    }

    /// The query as SQL text, when it can be written as SQL.
    pub fn try_to_sql(&self) -> (r: Option<String>)
        ensures
            r is Some <==> self.renderable(),
            r matches Some(s) ==> s@ == self.sql(),
    {
        if self.can_render() {
            Some(self.to_sql())
        } else {
            None
        }
    }

    /// Builds a query out of its parts.
    pub fn new(
        dataset: Dataset,
        measures: Vec<Measure>,
        dimensions: Vec<Dimension>,
        order_by: Vec<OrderBy>,
        limit: Option<usize>,
        syntax: T,
    ) -> (q: Self)
        ensures
            q.dataset == dataset,
            q.measures == measures,
            q.dimensions == dimensions,
            q.order_by == order_by,
            q.limit == limit,
            q.syntax == syntax,
    {
        Query { dataset, measures, dimensions, order_by, limit, syntax }
    }
}

/// Column types that can be aggregated with `MIN` and `MAX`.
pub open spec fn is_ordered_type(t: DataType) -> bool {
    t is Money || t is Number || t is Double || t is FloatingTimestamp || t is CalendarDate
}

/// Column types that can be aggregated with `SUM` and `AVG`.
pub open spec fn is_additive_type(t: DataType) -> bool {
    t is Money || t is Number || t is Double
}

/// Column types that can be grouped by.
pub open spec fn is_dimension_type(t: DataType) -> bool {
    t is Text || t is Checkbox || t is Url
}

/// Whether a column is one that Socrata derives from geographic regions.
pub open spec fn is_computed_region(c: Column) -> bool {
    has_infix(c.pg_name@, ":@computed_region"@)
}

/// The measures that one column contributes, in order: `MIN`, `MAX` for ordered
/// types, then `SUM`, `AVG` for additive types; none for derived region columns.
pub open spec fn column_measures(c: Column) -> Seq<Measure> {
    if is_computed_region(c) {
        Seq::empty()
    } else {
        (if is_ordered_type(c.data_type) {
            seq![
                Measure { type_: MeasureType::Min, column: Some(c) },
                Measure { type_: MeasureType::Max, column: Some(c) },
            ]
        } else {
            Seq::empty()
        }) + (if is_additive_type(c.data_type) {
            seq![
                Measure { type_: MeasureType::Sum, column: Some(c) },
                Measure { type_: MeasureType::Average, column: Some(c) },
            ]
        } else {
            Seq::empty()
        })
    }
}

/// `COUNT(*)` followed by the measures of each column in turn.
pub open spec fn measures_of(columns: Seq<Column>) -> Seq<Measure>
    decreases columns.len(),
{
    if columns.len() == 0 {
        seq![Measure { type_: MeasureType::Count, column: None }]
    } else {
        measures_of(columns.drop_last()) + column_measures(columns.last())
    }
}

/// A dimension for each column of a groupable type, in column order.
pub open spec fn dimensions_of(columns: Seq<Column>) -> Seq<Dimension>
    decreases columns.len(),
{
    if columns.len() == 0 {
        Seq::empty()
    } else if is_dimension_type(columns.last().data_type) {
        dimensions_of(columns.drop_last()).push(Dimension { column: columns.last() })
    } else {
        dimensions_of(columns.drop_last())
    }
}

fn is_ordered(t: &DataType) -> (r: bool)
    ensures
        r == is_ordered_type(*t),
{
    match t {
        DataType::Money | DataType::Number | DataType::Double | DataType::FloatingTimestamp
        | DataType::CalendarDate => true,
        _ => false,
    }
}

fn is_additive(t: &DataType) -> (r: bool)
    ensures
        r == is_additive_type(*t),
{
    match t {
        DataType::Money | DataType::Number | DataType::Double => true,
        _ => false,
    }
}

/// All the measures that a dataset offers: `COUNT(*)`, then per column
/// `MIN`/`MAX` of ordered columns and `SUM`/`AVG` of additive ones.
pub fn build_measures(dataset: &Dataset) -> (r: Vec<Measure>)
    ensures
        r@ == measures_of(dataset.columns@),
{
    let mut measures: Vec<Measure> = vec![Measure { type_: MeasureType::Count, column: None }];
    let columns = &dataset.columns;
    assert(measures@ == measures_of(columns@.take(0)));
    for i in 0..columns.len()
        invariant
            columns == &dataset.columns,
            measures@ == measures_of(columns@.take(i as int)),
    {
        let column = &columns[i];
        let ghost before = measures@;
        assert(columns@.take(i + 1).drop_last() == columns@.take(i as int));
        assert(columns@.take(i + 1).last() == *column);
        if !contains_str(column.pg_name.as_str(), ":@computed_region") {
            if is_ordered(&column.data_type) {
                measures.push(Measure { type_: MeasureType::Min, column: Some(column.clone()) });
                measures.push(Measure { type_: MeasureType::Max, column: Some(column.clone()) });
            }
            if is_additive(&column.data_type) {
                measures.push(Measure { type_: MeasureType::Sum, column: Some(column.clone()) });
                measures.push(
                    Measure { type_: MeasureType::Average, column: Some(column.clone()) },
                );
            }
        }
        assert(measures@ =~= before + column_measures(*column));
    }
    assert(columns@.take(columns.len() as int) == columns@);
    measures
}

/// The dimensions that a dataset offers: its text, checkbox and URL columns.
pub fn build_dimensions(dataset: &Dataset) -> (r: Vec<Dimension>)
    ensures
        r@ == dimensions_of(dataset.columns@),
{
    let mut dimensions: Vec<Dimension> = Vec::new();
    let columns = &dataset.columns;
    for i in 0..columns.len()
        invariant
            columns == &dataset.columns,
            dimensions@ == dimensions_of(columns@.take(i as int)),
    {
        let column = &columns[i];
        assert(columns@.take(i + 1).drop_last() == columns@.take(i as int));
        assert(columns@.take(i + 1).last() == *column);
        match column.data_type {
            DataType::Text | DataType::Checkbox | DataType::Url => {
                dimensions.push(Dimension { column: column.clone() });
            },
            _ => {},
        }
    }
    assert(columns@.take(columns.len() as int) == columns@);
    dimensions
}

} // verus!
