use ngl::kind::{Kind, NGLDataKind};
use ngl::query::{group_by_provider, plan_query, resolve_source, ExampleHosts, KindFilter, NGLRequest};
use ngl::refresh::KindSet;

fn request(term: Option<&str>, providers: Option<Vec<&str>>, kinds: Option<Vec<NGLDataKind>>) -> NGLRequest {
    NGLRequest {
        search_term: term.map(|s| s.to_string()),
        providers: providers.map(|v| v.into_iter().map(|s| s.to_string()).collect()),
        kinds,
    }
}

#[test]
fn default_kinds_exclude_examples() {
    let p = plan_query(&request(Some("map"), None, None));
    assert_eq!(p.kind_filter, KindFilter::NotExample);
    assert!(p.include_examples);
    assert!(!p.examples_stitched);
    let q = plan_query(&request(Some("map"), None, Some(vec![])));
    assert_eq!(q.kind_filter, KindFilter::NotExample);
    assert!(!q.include_examples);
    assert!(!q.examples_stitched);
    assert_eq!(
        q.to_sql(),
        "SELECT entity_id, kind, provider_name FROM ngl_search WHERE ngl_search MATCH '\"map\"*' AND kind != 'Example' ORDER BY rank"
    );
}

#[test]
fn example_with_host_is_stitched() {
    let p = plan_query(&request(Some("map"), None, Some(vec![NGLDataKind::Function, NGLDataKind::Example])));
    assert!(p.examples_stitched);
    assert!(p.include_examples);
    assert_eq!(
        p.to_sql(),
        "SELECT entity_id, kind, provider_name FROM ngl_search WHERE ngl_search MATCH '\"map\"*' AND kind IN ('Function') ORDER BY rank"
    );
}

#[test]
fn only_examples_are_standalone() {
    let p = plan_query(&request(None, None, Some(vec![NGLDataKind::Example])));
    assert!(!p.examples_stitched);
    assert!(p.include_examples);
    let only = KindSet { function: false, example: true, guide: false, option: false, package: false, type_: false };
    assert_eq!(p.kind_filter, KindFilter::AnyOf(only));
    assert_eq!(
        p.to_sql(),
        "SELECT entity_id, kind, provider_name FROM ngl_search WHERE ngl_search MATCH '*' AND kind IN ('Example') ORDER BY rank"
    );
}

#[test]
fn host_without_examples_strips() {
    let p = plan_query(&request(Some("x"), None, Some(vec![NGLDataKind::Guide, NGLDataKind::Option])));
    assert!(!p.include_examples);
    assert!(!p.examples_stitched);
}

#[test]
fn search_filter_by_provider() {
    let p = plan_query(&request(Some("hello"), Some(vec!["P"]), None));
    assert_eq!(
        p.to_sql(),
        "SELECT entity_id, kind, provider_name FROM ngl_search WHERE ngl_search MATCH '\"hello\"*' AND kind != 'Example' AND provider_name IN ('P') ORDER BY rank"
    );
}

#[test]
fn quotes_are_escaped() {
    let p = plan_query(&request(Some("a\"b'c"), Some(vec!["o'k", "q"]), None));
    assert_eq!(p.match_expr, "\"a\"\"b'c\"*");
    assert_eq!(
        p.to_sql(),
        "SELECT entity_id, kind, provider_name FROM ngl_search WHERE ngl_search MATCH '\"a\"\"b''c\"*' AND kind != 'Example' AND provider_name IN ('o''k','q') ORDER BY rank"
    );
}

#[test]
fn source_prefers_guide_then_function() {
    let hosts = ExampleHosts { guide: Some((4, "/a#s".to_string())), function: Some(9), option: None, package: None, type_: None };
    let s = resolve_source(&hosts, &Some("own".to_string())).unwrap();
    assert_eq!(s.kind, NGLDataKind::Guide);
    assert_eq!(s.host_id, 4);
    assert_eq!(s.link, Some("/a#s".to_string()));
    let hosts2 = ExampleHosts { guide: None, function: Some(9), option: None, package: Some(1), type_: None };
    let t = resolve_source(&hosts2, &Some("own".to_string())).unwrap();
    assert_eq!(t.kind, NGLDataKind::Function);
    assert_eq!(t.link, Some("own".to_string()));
    let none = ExampleHosts { guide: None, function: None, option: None, package: None, type_: None };
    assert!(resolve_source(&none, &None).is_none());
}

#[test]
fn kind_names_round_trip() {
    for k in [NGLDataKind::Function, NGLDataKind::Example, NGLDataKind::Guide, NGLDataKind::Option, NGLDataKind::Package, NGLDataKind::Type] {
        assert_eq!(k.name(), format!("{:?}", k));
    }
}

#[test]
fn cli_kind_names() {
    assert_eq!(Kind::from_name("type"), Some(Kind::Type));
    assert_eq!(Kind::from_name("example"), Some(Kind::Example));
    assert_eq!(Kind::from_name("types"), None);
    assert_eq!(NGLDataKind::from(Kind::Option), NGLDataKind::Option);
}

#[test]
fn results_grouped_by_provider() {
    let hits = vec![
        ("P".to_string(), 1),
        ("Q".to_string(), 2),
        ("P".to_string(), 3),
    ];
    let g = group_by_provider(hits);
    assert_eq!(g, vec![("P".to_string(), vec![1, 3]), ("Q".to_string(), vec![2])]);
    assert!(group_by_provider::<u8>(vec![]).is_empty());
}

#[test]
fn empty_provider_list_matches_nothing() {
    let p = plan_query(&request(Some("hello"), Some(vec![]), None));
    assert_eq!(
        p.to_sql(),
        "SELECT entity_id, kind, provider_name FROM ngl_search WHERE ngl_search MATCH '\"hello\"*' AND kind != 'Example' AND provider_name IN () ORDER BY rank"
    );
}
