//! Socrata dataset descriptions: column types, columns and datasets.
use vstd::prelude::*;

verus! {

/// The type of a Socrata column.
#[derive(PartialEq, Eq, Debug)]
pub enum DataType {
    Checkbox,
    Double,
    FloatingTimestamp,
    CalendarDate,
    Money,
    Number,
    Text,
    Url,
    Line,
    Location,
    Multiline,
    Multipoint,
    Multipolygon,
    Point,
    /// Any type name not listed above, kept as it was given.
    Other(String),
}

impl Clone for DataType {
    fn clone(&self) -> (r: Self)
        ensures
            r == *self,
    {
        match self {
            DataType::Checkbox => DataType::Checkbox,
            DataType::Double => DataType::Double,
            DataType::FloatingTimestamp => DataType::FloatingTimestamp,
            DataType::CalendarDate => DataType::CalendarDate,
            DataType::Money => DataType::Money,
            DataType::Number => DataType::Number,
            DataType::Text => DataType::Text,
            DataType::Url => DataType::Url,
            DataType::Line => DataType::Line,
            DataType::Location => DataType::Location,
            DataType::Multiline => DataType::Multiline,
            DataType::Multipoint => DataType::Multipoint,
            DataType::Multipolygon => DataType::Multipolygon,
            DataType::Point => DataType::Point,
            DataType::Other(s) => DataType::Other(s.clone()),
        }
    }
}

/// A column of a dataset.
#[derive(PartialEq, Eq, Debug)]
pub struct Column {
    pub human_name: String,
    pub pg_name: String,
    pub data_type: DataType,
}

impl Clone for Column {
    fn clone(&self) -> (r: Self)
        ensures
            r == *self,
    {
        Column {
            human_name: self.human_name.clone(),
            pg_name: self.pg_name.clone(),
            data_type: self.data_type.clone(),
        }
    }
}

/// A Socrata dataset: where it lives, its id, its name and its columns.
#[derive(PartialEq, Eq, Debug)]
pub struct Dataset {
    pub domain: String,
    pub socrata_id: String,
    pub name: String,
    pub columns: Vec<Column>,
}

/// Clones a vector of columns, element by element.
pub fn clone_columns(v: &Vec<Column>) -> (r: Vec<Column>)
    ensures
        r@ == v@,
{
    let mut r: Vec<Column> = Vec::new();
    for i in 0..v.len()
        invariant
            r@ == v@.take(i as int),
    {
        r.push(v[i].clone());
        assert(r@ == v@.take(i + 1));
    }
    assert(v@.take(v.len() as int) == v@);
    r
}

impl Dataset {
    /// Field-by-field equality, the columns compared as sequences.
    pub open spec fn same_as(self, other: Dataset) -> bool {
        &&& self.domain == other.domain
        &&& self.socrata_id == other.socrata_id
        &&& self.name == other.name
        &&& self.columns@ == other.columns@
    }
}

impl Clone for Dataset {
    fn clone(&self) -> (r: Self)
        ensures
            r.same_as(*self),
    {
        let columns = clone_columns(&self.columns);
        assert(columns@ == self.columns@);
        Dataset {
            domain: self.domain.clone(),
            socrata_id: self.socrata_id.clone(),
            name: self.name.clone(),
            columns,
        }
    }
}

/// A dataset as the search index describes it: the column attributes come as
/// three parallel lists.
pub struct RawDatasetResource {
    pub name: String,
    pub id: String,
    pub description: String,
    pub columns_name: Vec<String>,
    pub columns_field_name: Vec<String>,
    pub columns_datatype: Vec<DataType>,
}

/// How many columns the three parallel lists describe: the length of the shortest.
pub open spec fn zipped_len(r: RawDatasetResource) -> nat {
    let a = r.columns_name@.len();
    let b = r.columns_field_name@.len();
    let c = r.columns_datatype@.len();
    if a <= b && a <= c {
        a
    } else if b <= c {
        b
    } else {
        c
    }
}

/// The `i`-th column that the three parallel lists describe.
pub open spec fn zipped_column(r: RawDatasetResource, i: int) -> Column {
    Column {
        human_name: r.columns_name@[i],
        pg_name: r.columns_field_name@[i],
        data_type: r.columns_datatype@[i],
    }
}

/// `d` is the dataset hosted at `domain` that `resource` describes.
pub open spec fn parses_to(domain: Seq<char>, resource: RawDatasetResource, d: Dataset) -> bool {
    &&& d.domain@ == domain
    &&& d.socrata_id == resource.id
    &&& d.name == resource.name
    &&& d.columns@.len() == zipped_len(resource)
    &&& forall|i: int| 0 <= i < d.columns@.len() ==> #[trigger] d.columns@[i] == zipped_column(resource, i)
}

/// Builds a dataset hosted at `domain` out of its search-index description.
/// Column `i` takes the `i`-th entry of each of the three lists; entries past the
/// end of the shortest list are ignored.
pub fn parse_dataset(domain: &str, resource: &RawDatasetResource) -> (d: Dataset)
    ensures
        parses_to(domain@, *resource, d),
{
    let n1 = resource.columns_name.len();
    let n2 = resource.columns_field_name.len();
    let n3 = resource.columns_datatype.len();
    let n = if n1 <= n2 && n1 <= n3 {
        n1
    } else if n2 <= n3 {
        n2
    } else {
        n3
    };
    let mut columns: Vec<Column> = Vec::new();
    for i in 0..n
        invariant
            n == zipped_len(*resource),
            columns@.len() == i,
            forall|k: int| 0 <= k < i ==> #[trigger] columns@[k] == zipped_column(*resource, k),
    {
        columns.push(Column {
            human_name: resource.columns_name[i].clone(),
            pg_name: resource.columns_field_name[i].clone(),
            data_type: resource.columns_datatype[i].clone(),
        });
    }
    Dataset {
        domain: domain.to_owned(),
        socrata_id: resource.id.clone(),
        name: resource.name.clone(),
        columns,
    }
}

} // verus!
