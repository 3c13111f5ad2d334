use socrata_roulette::ddn::{
    dataset_from_response, dataset_request_sql_for, query_on_dataset, random_dataset_request_sql,
    splitgraph_info_from_response, DdnResponseRow, SplitgraphDDNSyntax, SplitgraphInfo,
};
use socrata_roulette::generate::{query_from_draws, random_query};
use socrata_roulette::query::{
    build_dimensions, build_measures, DefaultSyntax, Dimension, Measure, MeasureType, OrderBy,
    OrderByDirection, OrderByItem, Query, Syntax,
};
use socrata_roulette::query_state::{
    component_state, dataset_links, embed_view, query_button, ComponentQueryState, EmbedView,
    QueryGenerationState, QueryState,
};
use socrata_roulette::socrata::{parse_dataset, Column, DataType, Dataset, RawDatasetResource};

fn column(name: &str, pg: &str, t: DataType) -> Column {
    Column { human_name: name.to_string(), pg_name: pg.to_string(), data_type: t }
}

fn small_dataset(name: &str) -> Dataset {
    Dataset {
        domain: "data.example.org".to_string(),
        socrata_id: "abcd-1234".to_string(),
        name: name.to_string(),
        columns: vec![
            column("City", "city", DataType::Text),
            column("Amount", "amount", DataType::Money),
            column("When", "when", DataType::FloatingTimestamp),
            column("Region", ":@computed_region_abc", DataType::Number),
            column("Open", "open", DataType::Checkbox),
            column("Site", "site", DataType::Url),
            column("Shape", "shape", DataType::Point),
            column("Odd", "odd", DataType::Other("Blob".to_string())),
        ],
    }
}

fn info() -> SplitgraphInfo {
    SplitgraphInfo { namespace: "cityofchicago".to_string(), repository: "crimes-ijzp".to_string() }
}

#[test]
fn measures_skip_region_columns_and_follow_types() {
    let d = small_dataset("x");
    let ms = build_measures(&d);
    let kinds: Vec<(MeasureType, Option<String>)> =
        ms.iter().map(|m| (m.type_.clone(), m.column.as_ref().map(|c| c.pg_name.clone()))).collect();
    assert_eq!(
        kinds,
        vec![
            (MeasureType::Count, None),
            (MeasureType::Min, Some("amount".to_string())),
            (MeasureType::Max, Some("amount".to_string())),
            (MeasureType::Sum, Some("amount".to_string())),
            (MeasureType::Average, Some("amount".to_string())),
            (MeasureType::Min, Some("when".to_string())),
            (MeasureType::Max, Some("when".to_string())),
        ]
    );
    let dims: Vec<String> = build_dimensions(&d).iter().map(|x| x.column.pg_name.clone()).collect();
    assert_eq!(dims, vec!["city".to_string(), "open".to_string(), "site".to_string()]);
    let empty = Dataset { columns: vec![], ..small_dataset("x") };
    assert_eq!(build_measures(&empty), vec![Measure { type_: MeasureType::Count, column: None }]);
    assert_eq!(build_dimensions(&empty), vec![]);
}

#[test]
fn parse_dataset_stops_at_shortest_list() {
    let r = RawDatasetResource {
        name: "N".to_string(),
        id: "i".to_string(),
        description: String::new(),
        columns_name: vec!["A".to_string(), "B".to_string(), "C".to_string()],
        columns_field_name: vec!["a".to_string(), "b".to_string()],
        columns_datatype: vec![DataType::Text, DataType::Number, DataType::Url],
    };
    let d = parse_dataset("dom", &r);
    assert_eq!(d.domain, "dom");
    assert_eq!(d.columns, vec![column("A", "a", DataType::Text), column("B", "b", DataType::Number)]);
}

#[test]
fn splitgraph_syntax_quotes_identifiers() {
    let s = SplitgraphDDNSyntax {
        repository: SplitgraphInfo { namespace: "ns\"x".to_string(), repository: "repo".to_string() },
    };
    let d = small_dataset("Crimes - 2001 to \"Present\"");
    assert!(s.can_name_dataset(&d));
    assert_eq!(s.get_dataset_sql(&d), "\"ns\"\"x/repo\".\"crimes_2001_to_present\"");
    assert_eq!(s.get_column_sql(&column("A", "we\"ird", DataType::Text)), "\"we\"\"ird\"");
    assert!(!s.can_name_dataset(&small_dataset("???")));
}

#[test]
fn query_with_no_dimensions_and_no_limit() {
    let d = small_dataset("x");
    let q = Query::new(
        d,
        vec![Measure { type_: MeasureType::Count, column: None }],
        vec![],
        vec![],
        None,
        DefaultSyntax {},
    );
    assert_eq!(q.to_sql(), "SELECT\n  COUNT(*)\nFROM abcd-1234");
}

#[test]
fn splitgraph_query_sql() {
    let d = small_dataset("Some Table");
    let q = Query::new(
        small_dataset("Some Table"),
        vec![Measure { type_: MeasureType::Sum, column: Some(column("Amount", "amount", DataType::Money)) }],
        vec![Dimension { column: column("City", "city", DataType::Text) }],
        vec![OrderBy {
            item: OrderByItem::Measure(Measure {
                type_: MeasureType::Sum,
                column: Some(column("Amount", "amount", DataType::Money)),
            }),
            direction: OrderByDirection::Desc,
        }],
        Some(7),
        SplitgraphDDNSyntax { repository: info() },
    );
    assert_eq!(
        q.to_sql(),
        "SELECT\n  \"city\",\n  SUM(\"amount\") AS sum_amount\nFROM \"cityofchicago/crimes-ijzp\".\"some_table\"\nGROUP BY\n  \"city\"\nORDER BY\n  SUM(\"amount\") DESC\nLIMIT 7"
    );
    let state = QueryState::from_query_dataset(&q, &d, &info());
    assert_eq!(state.query, q.to_sql());
    assert_eq!(state.dataset_id, "abcd-1234");
    assert_eq!(state.dataset_name, "Some Table");
    assert_eq!(state.dataset_domain, "data.example.org");
    assert_eq!(state.sg_namespace, "cityofchicago");
    assert_eq!(state.sg_repository, "crimes-ijzp");
}

#[test]
fn query_from_draws_is_exact() {
    let d = small_dataset("x");
    let ms = build_measures(&d);
    let ds = build_dimensions(&d);
    let q = query_from_draws(&d, &ms, &ds, &vec![3, 0], &vec![2], &vec![0, 1, 1], &vec![2, 0], DefaultSyntax {});
    assert_eq!(q.measures, vec![ms[3].clone(), ms[0].clone()]);
    assert_eq!(q.dimensions, vec![ds[2].clone()]);
    assert_eq!(
        q.order_by,
        vec![
            OrderBy { item: OrderByItem::Dimension(ds[2].clone()), direction: OrderByDirection::Desc },
            OrderBy { item: OrderByItem::Measure(ms[3].clone()), direction: OrderByDirection::Asc },
        ]
    );
    assert_eq!(q.limit, Some(100));
    assert_eq!(q.dataset, d);
}

fn distinct_members<T: PartialEq + Clone>(chosen: &[T], from: &[T]) -> bool {
    let mut used = vec![false; from.len()];
    for c in chosen {
        match (0..from.len()).find(|&i| !used[i] && from[i] == *c) {
            Some(i) => used[i] = true,
            None => return false,
        }
    }
    true
}

#[test]
fn random_queries_draw_within_ranges() {
    let d = small_dataset("x");
    let ms = build_measures(&d);
    let ds = build_dimensions(&d);
    for _ in 0..200 {
        let q = random_query(&d, &ms, &ds, 1..3, 1..4, 0..3, DefaultSyntax {});
        assert!((1..3).contains(&q.dimensions.len()));
        assert!((1..4).contains(&q.measures.len()));
        assert!(q.order_by.len() <= 2);
        assert!(distinct_members(&q.measures, &ms));
        assert!(distinct_members(&q.dimensions, &ds));
        for o in &q.order_by {
            match &o.item {
                OrderByItem::Measure(m) => assert!(q.measures.contains(m)),
                OrderByItem::Dimension(x) => assert!(q.dimensions.contains(x)),
            }
        }
        assert_eq!(q.limit, Some(100));
        assert!(q.to_sql().ends_with("\nLIMIT 100"));
    }
    // Ranges larger than what is available: everything is taken.
    let q = random_query(&d, &ms, &ds, 10..11, 20..21, 50..51, DefaultSyntax {});
    assert_eq!(q.measures.len(), ms.len());
    assert_eq!(q.dimensions.len(), ds.len());
    assert_eq!(q.order_by.len(), ms.len() + ds.len());
    // No measures available at all but COUNT(*).
    let q = random_query(&d, &ms[..1].to_vec(), &vec![], 0..1, 3..4, 0..1, DefaultSyntax {});
    assert_eq!(q.measures, vec![Measure { type_: MeasureType::Count, column: None }]);
    assert_eq!(q.to_sql(), "SELECT\n  COUNT(*)\nFROM abcd-1234\nLIMIT 100");
}

#[test]
fn query_on_dataset_uses_delivery_network_syntax() {
    let d = small_dataset("Some Table");
    for _ in 0..50 {
        let q = query_on_dataset(&d, &info());
        assert_eq!(q.syntax.repository, info());
        assert!((1..3).contains(&q.dimensions.len()));
        assert!((1..4).contains(&q.measures.len()));
        assert!(q.to_sql().contains("FROM \"cityofchicago/crimes-ijzp\".\"some_table\""));
    }
}

#[test]
fn request_sql() {
    assert_eq!(
        dataset_request_sql_for(42),
        "SELECT * FROM \"splitgraph/socrata\".datasets WHERE 42 = 42 ORDER BY random() DESC LIMIT 1"
    );
    let sql = random_dataset_request_sql();
    let rest = sql.strip_prefix("SELECT * FROM \"splitgraph/socrata\".datasets WHERE ").unwrap();
    let rest = rest.strip_suffix(" ORDER BY random() DESC LIMIT 1").unwrap();
    let (a, b) = rest.split_once(" = ").unwrap();
    assert_eq!(a, b);
    assert!(a.parse::<u32>().is_ok());
}

#[test]
fn responses() {
    let row = DdnResponseRow {
        domain: "d.org".to_string(),
        resource: RawDatasetResource {
            name: "N".to_string(),
            id: "i".to_string(),
            description: String::new(),
            columns_name: vec![],
            columns_field_name: vec![],
            columns_datatype: vec![],
        },
    };
    assert!(dataset_from_response(false, &vec![]).is_none());
    let rows = vec![row];
    assert!(dataset_from_response(false, &rows).is_none());
    let d = dataset_from_response(true, &rows).unwrap();
    assert_eq!(d.domain, "d.org");
    assert_eq!(d.socrata_id, "i");
    assert!(dataset_from_response(true, &vec![]).is_none());

    assert_eq!(splitgraph_info_from_response(false, &vec![info()]), Some(info()));
    assert_eq!(splitgraph_info_from_response(true, &vec![info()]), None);
    assert_eq!(splitgraph_info_from_response(false, &vec![]), None);
}

fn state() -> QueryState {
    QueryState {
        query: "SELECT\n  x\tFROM \"t\" é".to_string(),
        dataset_id: "abcd-1234".to_string(),
        dataset_name: "Name".to_string(),
        dataset_domain: "data.example.org".to_string(),
        sg_namespace: "ns".to_string(),
        sg_repository: "repo".to_string(),
    }
}

#[test]
fn page_state() {
    let qs = state();
    assert_eq!(component_state(&QueryGenerationState::Idle, Some(qs.clone())), ComponentQueryState::Ready(qs.clone()));
    assert_eq!(component_state(&QueryGenerationState::Ready, Some(qs.clone())), ComponentQueryState::Ready(qs.clone()));
    assert_eq!(component_state(&QueryGenerationState::GeneratingQuery, Some(qs.clone())), ComponentQueryState::GeneratingQuery);
    assert_eq!(component_state(&QueryGenerationState::GeneratingQuery, None), ComponentQueryState::GeneratingQuery);
    assert_eq!(component_state(&QueryGenerationState::Ready, None), ComponentQueryState::Idle);
    assert_eq!(component_state(&QueryGenerationState::Idle, None), ComponentQueryState::Idle);

    assert_eq!(query_button(&ComponentQueryState::Idle), ("I'm feeling lucky!", true));
    assert_eq!(query_button(&ComponentQueryState::GeneratingQuery), ("Generating...", false));
    assert_eq!(query_button(&ComponentQueryState::Ready(qs.clone())), ("Another!", true));

    let links = dataset_links(&qs);
    assert_eq!(links.domain_url, "https://data.example.org");
    assert_eq!(links.splitgraph_url, "https://www.splitgraph.com/ns/repo");
    assert_eq!(links.dataset_url, "https://data.example.org/d/abcd-1234");
    assert_eq!(links.socrata_button_text, "Socrata: abcd-1234");

    assert_eq!(embed_view(&ComponentQueryState::Idle), EmbedView::Placeholder("Ready to go!"));
    assert_eq!(embed_view(&ComponentQueryState::GeneratingQuery), EmbedView::Placeholder("Please wait..."));
    assert_eq!(
        embed_view(&ComponentQueryState::Ready(qs)),
        EmbedView::Frame(
            "https://www.splitgraph.com/embed/workspace/ddn?layout=hsplit&query=SELECT%0A  x%09FROM \"t\" %C3%A9"
                .to_string()
        )
    );
}

#[test]
fn embed_encodes_delete_and_wide_characters() {
    let mut qs = state();
    qs.query = "a\u{7f}b\u{20ac}\u{1F600}".to_string();
    assert_eq!(
        embed_view(&ComponentQueryState::Ready(qs)),
        EmbedView::Frame(
            "https://www.splitgraph.com/embed/workspace/ddn?layout=hsplit&query=a%7Fb%E2%82%AC%F0%9F%98%80"
                .to_string()
        )
    );
}

#[test]
fn try_to_sql_checks_first() {
    let ok = Query::new(
        small_dataset("Some Table"),
        vec![Measure { type_: MeasureType::Count, column: None }],
        vec![],
        vec![],
        Some(100),
        SplitgraphDDNSyntax { repository: info() },
    );
    assert_eq!(
        ok.try_to_sql(),
        Some("SELECT\n  COUNT(*)\nFROM \"cityofchicago/crimes-ijzp\".\"some_table\"\nLIMIT 100".to_string())
    );
    let unnamed = Query::new(
        small_dataset("???"),
        vec![Measure { type_: MeasureType::Count, column: None }],
        vec![],
        vec![],
        Some(100),
        SplitgraphDDNSyntax { repository: info() },
    );
    assert!(!unnamed.can_render());
    assert_eq!(unnamed.try_to_sql(), None);
    let columnless = Query::new(
        small_dataset("x"),
        vec![Measure { type_: MeasureType::Min, column: None }],
        vec![],
        vec![],
        None,
        DefaultSyntax {},
    );
    assert_eq!(columnless.try_to_sql(), None);
}
