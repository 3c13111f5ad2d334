//! Splitgraph's data delivery network: naming Socrata tables in its SQL, the
//! request that draws a random dataset, and what is read from the replies.
use vstd::prelude::*;

use crate::generate::{random_query, random_query_outcome};
use crate::query::{build_dimensions, build_measures, dimensions_of, measures_of, Query, Syntax};
use crate::random::random_u32;
use crate::slug::{slugifiable, slugify_table, table_slug, try_slugify_table};
use crate::socrata::{parse_dataset, parses_to, Column, Dataset, RawDatasetResource};
use crate::text::{decimal, decimal_string, double_quotes, doubled_quotes, quoted_identifier};

verus! {

/// Where Splitgraph keeps a Socrata dataset: a namespace and a repository.
#[derive(PartialEq, Eq, Debug)]
pub struct SplitgraphInfo {
    pub namespace: String,
    pub repository: String,
}

impl Clone for SplitgraphInfo {
    fn clone(&self) -> (r: Self)
        ensures
            r == *self,
    {
        SplitgraphInfo { namespace: self.namespace.clone(), repository: self.repository.clone() }
    }
}

/// The SQL dialect of Splitgraph's data delivery network, for datasets of one
/// repository: quoted identifiers, tables named as Splitgraph's loader names them.
pub struct SplitgraphDDNSyntax {
    pub repository: SplitgraphInfo,
}

impl Syntax for SplitgraphDDNSyntax {
    /// `"<namespace>/<repository>"."<table>"`, inner double quotes doubled.
    open spec fn dataset_sql(&self, dataset: Dataset) -> Seq<char> {
        seq!['"'] + doubled_quotes(self.repository.namespace@) + seq!['/'] + doubled_quotes(
            self.repository.repository@,
        ) + seq!['"', '.'] + quoted_identifier(table_slug(dataset.name@))
    }

    open spec fn column_sql(&self, column: Column) -> Seq<char> {
        quoted_identifier(column.pg_name@)
    }

    open spec fn names_dataset(&self, dataset: Dataset) -> bool {
        slugifiable(dataset.name@)
    }

    fn can_name_dataset(&self, dataset: &Dataset) -> (r: bool) {
        try_slugify_table(dataset.name.as_str()).is_ok()
    }

    fn get_dataset_sql(&self, dataset: &Dataset) -> (r: String) {
        let mut r = String::new();
        r.append("\"");
        r.append(double_quotes(self.repository.namespace.as_str()).as_str());
        r.append("/");
        r.append(double_quotes(self.repository.repository.as_str()).as_str());
        r.append("\".\"");
        let table = slugify_table(dataset.name.as_str());
        r.append(double_quotes(table.as_str()).as_str());
        r.append("\"");
        proof {
            reveal_strlit("\"");
            reveal_strlit("/");
            reveal_strlit("\".\"");
        }
        assert(r@ =~= self.dataset_sql(*dataset));
        r
    }

    fn get_column_sql(&self, column: &Column) -> (r: String) {
        let mut r = String::new();
        r.append("\"");
        r.append(double_quotes(column.pg_name.as_str()).as_str());
        r.append("\"");
        proof {
            reveal_strlit("\"");
        }
        assert(r@ =~= self.column_sql(*column));
        r
    }
}

/// The query that draws one dataset at random from the index; `cache_bust`
/// makes each request text different.
pub open spec fn dataset_request_sql(cache_bust: u32) -> Seq<char> {
    "SELECT * FROM \"splitgraph/socrata\".datasets WHERE "@ + decimal(cache_bust as nat) + " = "@
        + decimal(cache_bust as nat) + " ORDER BY random() DESC LIMIT 1"@
}

/// The query that draws one dataset at random, for a given `cache_bust`.
pub fn dataset_request_sql_for(cache_bust: u32) -> (r: String)
    ensures
        r@ == dataset_request_sql(cache_bust),
{
    let n = decimal_string(cache_bust as usize);
    let mut r = String::new();
    r.append("SELECT * FROM \"splitgraph/socrata\".datasets WHERE ");
    r.append(n.as_str());
    r.append(" = ");
    r.append(n.as_str());
    r.append(" ORDER BY random() DESC LIMIT 1");
    r
}

/// The query that draws one dataset at random, with a random `cache_bust`.
pub fn random_dataset_request_sql() -> (r: String)
    ensures
        exists|cache_bust: u32| r@ == #[trigger] dataset_request_sql(cache_bust),
{
    let cache_bust = random_u32();
    dataset_request_sql_for(cache_bust)
}

/// A row of the index's reply: a dataset and the Socrata domain that hosts it.
pub struct DdnResponseRow {
    pub domain: String,
    pub resource: RawDatasetResource,
}

/// The dataset of the index's reply: the first row's, when the query succeeded
/// and returned a row.
pub fn dataset_from_response(success: bool, rows: &Vec<DdnResponseRow>) -> (r: Option<Dataset>)
    ensures
        r is Some <==> success && rows@.len() > 0,
        r matches Some(d) ==> parses_to(rows@[0].domain@, rows@[0].resource, d),
{
    if success && rows.len() > 0 {
        Some(parse_dataset(rows[0].domain.as_str(), &rows[0].resource))
    } else {
        None
    }
}

/// Where Splitgraph keeps a dataset, from the reply to the repository lookup:
/// the first repository, when the reply carries no errors and names one.
pub fn splitgraph_info_from_response(has_errors: bool, repositories: &Vec<SplitgraphInfo>) -> (r:
    Option<SplitgraphInfo>)
    ensures
        r is Some <==> !has_errors && repositories@.len() > 0,
        r matches Some(info) ==> info == repositories@[0],
{
    if !has_errors && repositories.len() > 0 {
        Some(repositories[0].clone())
    } else {
        None
    }
}

/// A random query on `dataset`, in the dialect of the delivery network for the
/// repository `info`: one or two dimensions, one to three measures, up to two
/// sort entries, among the dimensions and measures that the dataset offers.
pub fn query_on_dataset(dataset: &Dataset, info: &SplitgraphInfo) -> (q: Query<SplitgraphDDNSyntax>)
    ensures
        random_query_outcome(
            q,
            *dataset,
            measures_of(dataset.columns@),
            dimensions_of(dataset.columns@),
            1..3,
            1..4,
            0..3,
            SplitgraphDDNSyntax { repository: *info },
        ),
{
    let measures = build_measures(dataset);
    let dimensions = build_dimensions(dataset);
    random_query(
        dataset,
        &measures,
        &dimensions,
        1..3,
        1..4,
        0..3,
        SplitgraphDDNSyntax { repository: info.clone() },
    )
}

} // verus!
