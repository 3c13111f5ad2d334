//! What the page shows: the generated query with its dataset, the state of the
//! generation, and the links and texts derived from them.
use vstd::prelude::*;

use crate::ddn::SplitgraphInfo;
use crate::query::{Query, Syntax};
use crate::socrata::Dataset;

verus! {

/// A generated query as the page keeps it (and as it travels in the URL).
#[derive(Eq, PartialEq, Debug)]
pub struct QueryState {
    pub query: String,
    pub dataset_id: String,
    pub dataset_name: String,
    pub dataset_domain: String,
    pub sg_namespace: String,
    pub sg_repository: String,
}

impl Clone for QueryState {
    fn clone(&self) -> (r: Self)
        ensures
            r == *self,
    {
        QueryState {
            query: self.query.clone(),
            dataset_id: self.dataset_id.clone(),
            dataset_name: self.dataset_name.clone(),
            dataset_domain: self.dataset_domain.clone(),
            sg_namespace: self.sg_namespace.clone(),
            sg_repository: self.sg_repository.clone(),
        }
    }
}

impl QueryState {
    /// The page state of a query on `dataset`, kept by Splitgraph at `splitgraph`.
    pub fn from_query_dataset<T: Syntax>(
        query: &Query<T>,
        dataset: &Dataset,
        splitgraph: &SplitgraphInfo,
    ) -> (r: Self)
        requires
            query.renderable(),
        ensures
            r.query@ == query.sql(),
            r.dataset_id == dataset.socrata_id,
            r.dataset_name == dataset.name,
            r.dataset_domain == dataset.domain,
            r.sg_namespace == splitgraph.namespace,
            r.sg_repository == splitgraph.repository,
    {
        QueryState {
            query: query.to_sql(),
            dataset_id: dataset.socrata_id.clone(),
            dataset_name: dataset.name.clone(),
            dataset_domain: dataset.domain.clone(),
            sg_namespace: splitgraph.namespace.clone(),
            sg_repository: splitgraph.repository.clone(),
        }
    }
}

/// Where the generation of a query stands.
#[derive(Eq, PartialEq, Debug)]
pub enum QueryGenerationState {
    Idle,
    GeneratingQuery,
    Ready,
}

impl Clone for QueryGenerationState {
    fn clone(&self) -> (r: Self)
        ensures
            r == *self,
    {
        match self {
            QueryGenerationState::Idle => QueryGenerationState::Idle,
            QueryGenerationState::GeneratingQuery => QueryGenerationState::GeneratingQuery,
            QueryGenerationState::Ready => QueryGenerationState::Ready,
        }
    }
}

/// What the page's components show.
#[derive(Eq, PartialEq, Debug)]
pub enum ComponentQueryState {
    Idle,
    GeneratingQuery,
    Ready(QueryState),
}

impl Clone for ComponentQueryState {
    fn clone(&self) -> (r: Self)
        ensures
            r == *self,
    {
        match self {
            ComponentQueryState::Idle => ComponentQueryState::Idle,
            ComponentQueryState::GeneratingQuery => ComponentQueryState::GeneratingQuery,
            ComponentQueryState::Ready(q) => ComponentQueryState::Ready(q.clone()),
        }
    }
}

/// What the components show, given where generation stands and the query read
/// from the page's URL (`None` when it could not be read): a query is shown
/// while none is being generated and one was read; "generating" while one is
/// being generated; nothing otherwise.
pub open spec fn shown_state(state: QueryGenerationState, from_location: Option<QueryState>) -> ComponentQueryState {
    match state {
        QueryGenerationState::GeneratingQuery => ComponentQueryState::GeneratingQuery,
        _ => match from_location {
            Some(qs) => ComponentQueryState::Ready(qs),
            None => ComponentQueryState::Idle,
        },
    }
}

/// What the components show; see `shown_state`.
pub fn component_state(state: &QueryGenerationState, from_location: Option<QueryState>) -> (r:
    ComponentQueryState)
    ensures
        r == shown_state(*state, from_location),
{
    match (state, from_location) {
        (QueryGenerationState::GeneratingQuery, _) => ComponentQueryState::GeneratingQuery,
        (_, Some(qs)) => ComponentQueryState::Ready(qs),
        (_, None) => ComponentQueryState::Idle,
    }
}

/// The caption of the generate button in each state.
pub open spec fn button_caption(state: ComponentQueryState) -> Seq<char> {
    match state {
        ComponentQueryState::Idle => "I'm feeling lucky!"@,
        ComponentQueryState::GeneratingQuery => "Generating..."@,
        ComponentQueryState::Ready(_) => "Another!"@,
    }
}

/// The caption of the generate button, and whether it takes clicks: it does not
/// while a query is being generated.
pub fn query_button(state: &ComponentQueryState) -> (r: (&'static str, bool))
    ensures
        r.0@ == button_caption(*state),
        r.1 == !(*state is GeneratingQuery),
{
    match state {
        ComponentQueryState::Idle => ("I'm feeling lucky!", true),
        ComponentQueryState::GeneratingQuery => ("Generating...", false),
        ComponentQueryState::Ready(_) => ("Another!", true),
    }
}

/// The links shown under a query.
#[derive(Eq, PartialEq, Debug)]
pub struct DatasetLinks {
    pub domain_url: String,
    pub splitgraph_url: String,
    pub dataset_url: String,
    pub socrata_button_text: String,
}

/// The links shown under a query: the Socrata portal, the Splitgraph repository,
/// the dataset's Socrata permalink, and the caption of the latter.
pub fn dataset_links(q: &QueryState) -> (r: DatasetLinks)
    ensures
        r.domain_url@ == "https://"@ + q.dataset_domain@,
        r.splitgraph_url@ == "https://www.splitgraph.com/"@ + q.sg_namespace@ + "/"@ + q.sg_repository@,
        r.dataset_url@ == "https://"@ + q.dataset_domain@ + "/d/"@ + q.dataset_id@,
        r.socrata_button_text@ == "Socrata: "@ + q.dataset_id@,
{
    let mut domain_url = "https://".to_owned();
    domain_url.append(q.dataset_domain.as_str());
    let mut splitgraph_url = "https://www.splitgraph.com/".to_owned();
    splitgraph_url.append(q.sg_namespace.as_str());
    splitgraph_url.append("/");
    splitgraph_url.append(q.sg_repository.as_str());
    let mut dataset_url = "https://".to_owned();
    dataset_url.append(q.dataset_domain.as_str());
    dataset_url.append("/d/");
    dataset_url.append(q.dataset_id.as_str());
    let mut socrata_button_text = "Socrata: ".to_owned();
    socrata_button_text.append(q.dataset_id.as_str());
    DatasetLinks { domain_url, splitgraph_url, dataset_url, socrata_button_text }
}

/// The hexadecimal digit (upper case) for `d < 16`.
pub open spec fn hex_digit(d: int) -> char {
    if d < 10 {
        (48 + d) as char
    } else {
        (55 + d) as char
    }
}

/// `%` and the two hexadecimal digits of the byte `b`.
pub open spec fn percent_byte(b: int) -> Seq<char> {
    seq!['%', hex_digit(b / 16), hex_digit(b % 16)]
}

/// The bytes of the UTF-8 encoding of `c`.
pub open spec fn utf8_bytes(c: char) -> Seq<int> {
    let u = c as int;
    if u < 0x80 {
        seq![u]
    } else if u < 0x800 {
        seq![0xC0 + u / 64, 0x80 + u % 64]
    } else if u < 0x10000 {
        seq![0xE0 + u / 4096, 0x80 + (u / 64) % 64, 0x80 + u % 64]
    } else {
        seq![0xF0 + u / 262144, 0x80 + (u / 4096) % 64, 0x80 + (u / 64) % 64, 0x80 + u % 64]
    }
}

/// Each byte of `bs` percent-encoded.
pub open spec fn percent_bytes(bs: Seq<int>) -> Seq<char>
    decreases bs.len(),
{
    if bs.len() == 0 {
        Seq::empty()
    } else {
        percent_bytes(bs.drop_last()) + percent_byte(bs.last())
    }
}

/// `c` percent-encoded with the `CONTROLS` set: ASCII control characters and
/// every byte of a non-ASCII character are encoded, other characters kept.
pub open spec fn control_encoded_char(c: char) -> Seq<char> {
    let u = c as int;
    if u < 0x20 || u == 0x7F {
        percent_byte(u)
    } else if u < 0x80 {
        seq![c]
    } else {
        percent_bytes(utf8_bytes(c))
    }
}

/// `s` percent-encoded with the `CONTROLS` set, character by character.
pub open spec fn control_encoded(s: Seq<char>) -> Seq<char>
    decreases s.len(),
{
    if s.len() == 0 {
        Seq::empty()
    } else {
        control_encoded(s.drop_last()) + control_encoded_char(s.last())
    }
}

/// `percent_encoding::utf8_percent_encode(s, CONTROLS)`, written out. The crate
/// encodes each UTF-8 byte that is not ASCII or that `CONTROLS` holds (0x00 to
/// 0x1F and 0x7F) as `%` and two upper-case hexadecimal digits, and keeps the
/// other bytes; the contract says this character by character.
#[verifier::external_body]
fn percent_encode_controls(s: &str) -> (r: String)
    ensures
        r@ == control_encoded(s@),
{
    percent_encoding::utf8_percent_encode(s, percent_encoding::CONTROLS).to_string()
}

/// The address of Splitgraph's embedded workspace, opened on `query`.
pub open spec fn embed_url(query: Seq<char>) -> Seq<char> {
    "https://www.splitgraph.com/embed/workspace/ddn?layout=hsplit&query="@ + control_encoded(query)
}

/// What the query panel shows: a placeholder text, or a frame at an address.
#[derive(Eq, PartialEq, Debug)]
pub enum EmbedView {
    Placeholder(&'static str),
    Frame(String),
}

/// What the query panel shows: "Ready to go!" before any query, "Please wait..."
/// while one is generated, and Splitgraph's workspace opened on the query.
pub fn embed_view(state: &ComponentQueryState) -> (r: EmbedView)
    ensures
        match *state {
            ComponentQueryState::Idle => r matches EmbedView::Placeholder(t) && t@ == "Ready to go!"@,
            ComponentQueryState::GeneratingQuery => r matches EmbedView::Placeholder(t) && t@
                == "Please wait..."@,
            ComponentQueryState::Ready(q) => r matches EmbedView::Frame(u) && u@ == embed_url(q.query@),
        },
{
    match state {
        ComponentQueryState::Idle => EmbedView::Placeholder("Ready to go!"),
        ComponentQueryState::GeneratingQuery => EmbedView::Placeholder("Please wait..."),
        ComponentQueryState::Ready(q) => {
            let mut url = "https://www.splitgraph.com/embed/workspace/ddn?layout=hsplit&query=".to_owned();
            let encoded = percent_encode_controls(q.query.as_str());
            url.append(encoded.as_str());
            EmbedView::Frame(url)
        },
    }
}

} // verus!
