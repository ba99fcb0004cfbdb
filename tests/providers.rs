use ngl::fetch::{next_fetch_step, FetchOutcome, FetchStep};
use ngl::entities::{ConsumerAction, EntityRow, ExampleRow, FunctionRow, LinkedExample, ProviderEvent, example_links};
use ngl::channel::Batcher;
use ngl::kind::{DocumentationFormat, NGLDataKind};
use ngl::nixpkgs::{package_row, source_code_url, License, Meta};
use ngl::providers::{
    is_url, MetaProvider, MetaProviderConfig, NdgSearchOptionProvider, ProviderRegistry, Template,
    TemplateProviderConfig,
};
use ngl::refresh::SyncOutcome;

fn cfg(template: &str, kinds: &[&str]) -> TemplateProviderConfig {
    TemplateProviderConfig {
        template: template.to_string(),
        name: "p".to_string(),
        source: "https://example.org/x.json".to_string(),
        kinds: kinds.iter().map(|s| s.to_string()).collect(),
    }
}

#[test]
fn urls() {
    assert!(is_url("http://a"));
    assert!(is_url("https://a"));
    assert!(!is_url("/nix/store/x"));
    assert!(!is_url("ftp://a"));
}

#[test]
fn config_kinds_case_and_unknown() {
    let info = cfg("renderdocs", &["Options", "example", "bogus", "GUIDES", "function"]).to_provider_info(&None);
    assert_eq!(info.kinds, vec![NGLDataKind::Option, NGLDataKind::Example, NGLDataKind::Guide, NGLDataKind::Function]);
    assert_eq!(info.sync_interval_hours, Some(24));
    assert_eq!(info.name, "p");
}

#[test]
fn ndg_search_options_accepts_only_options() {
    let p = NdgSearchOptionProvider::from_config(&cfg("ndg_search_options", &["option", "example"]));
    assert_eq!(p.info.kinds, vec![NGLDataKind::Option]);
    let row = p.option_row("Option: services.&lt;name&gt;", "text &amp; more").unwrap();
    assert_eq!(row.name, "services.<name>");
    assert_eq!(row.data, "text & more");
    assert_eq!(row.provider_name, "p");
    assert!(p.option_row("Section: x", "y").is_none());
}

#[test]
fn meta_provider_skips_unknown_templates() {
    let meta = MetaProvider::new(MetaProviderConfig {
        template_providers: vec![cfg("renderdocs", &["guide"]), cfg("nope", &["option"]), cfg("options_json", &["options", "guide"])],
    });
    let built = meta.build_providers();
    assert_eq!(built.len(), 2);
    assert_eq!(built[0].template, Template::RenderDocs);
    assert_eq!(built[1].template, Template::OptionsJson);
    assert_eq!(built[1].info.kinds, vec![NGLDataKind::Option]);
}

#[test]
fn registry_decisions() {
    let declared = vec![NGLDataKind::Package];
    assert!(ProviderRegistry::selects(&None, &declared));
    assert!(ProviderRegistry::selects(&Some(vec![NGLDataKind::Package, NGLDataKind::Type]), &declared));
    assert!(!ProviderRegistry::selects(&Some(vec![NGLDataKind::Type]), &declared));
    assert!(ProviderRegistry::reindex_after(&vec![SyncOutcome::NoWork, SyncOutcome::Synced]));
    assert!(!ProviderRegistry::reindex_after(&vec![SyncOutcome::NoWork, SyncOutcome::Failed]));
    assert!(ProviderRegistry::cycle_fails(&vec![SyncOutcome::Failed, SyncOutcome::Failed]));
    assert!(!ProviderRegistry::cycle_fails(&vec![SyncOutcome::Failed, SyncOutcome::NoWork]));
    assert!(!ProviderRegistry::cycle_fails(&vec![]));
}

#[test]
fn package_projection() {
    assert_eq!(source_code_url("pkgs/a/default.nix:12"), "https://github.com/NixOS/nixpkgs/blob/master/pkgs/a/default.nix#L12");
    assert_eq!(source_code_url("pkgs/a/default.nix"), "https://github.com/NixOS/nixpkgs/blob/master/pkgs/a/default.nix#L1");
    let meta = Meta {
        description: "hi".to_string(),
        long_description: String::new(),
        main_program: String::new(),
        homepage: vec!["https://h".to_string(), "https://i".to_string()],
        license: vec![License::Struct { free: true, full_name: "MIT License".to_string(), spd_id: "MIT".to_string() }],
        broken: false,
        unfree: true,
        name: "hello-2.12".to_string(),
        position: String::new(),
        platforms: vec![],
    };
    let row = package_row("nixpkgs", "hello", "2.12", &meta, "{}".to_string());
    assert_eq!(row.name, "hello");
    assert_eq!(row.version, Some("2.12".to_string()));
    assert_eq!(row.homepage, Some("https://h".to_string()));
    assert_eq!(row.license, Some("MIT".to_string()));
    assert_eq!(row.description, Some("hi".to_string()));
    assert_eq!(row.source_code_url, None);
    assert!(row.unfree && !row.broken);
}

fn function(name: &str) -> FunctionRow {
    FunctionRow {
        provider_name: "p".to_string(),
        name: name.to_string(),
        signature: None,
        format: DocumentationFormat::Markdown,
        data: "{{NGL_EX:ex0}}".to_string(),
        source_url: None,
        source_code_url: None,
        aliases: None,
    }
}

#[test]
fn fresh_ingest_function_with_one_example() {
    let ex = ExampleRow { provider_name: "p".to_string(), language: None, data: "map (x:x+1) [1 2]".to_string(), source_kind: Some(NGLDataKind::Function), source_link: None };
    let linked = vec![LinkedExample { placeholder_key: "ex0".to_string(), model: ex }];
    let mut b: Batcher<EntityRow> = Batcher::new();
    match b.consume(ProviderEvent::FunctionWithExamples(function("map"), linked)) {
        ConsumerAction::WriteLinked(EntityRow::Function(f), xs) => {
            assert_eq!(f.name, "map");
            assert_eq!(xs.len(), 1);
            let links = example_links(7, &xs, &vec![11]);
            assert_eq!(links.len(), 1);
            assert_eq!(links[0].host_id, 7);
            assert_eq!(links[0].example_id, 11);
            assert_eq!(links[0].placeholder_key, "ex0");
        }
        _ => panic!("expected a linked write"),
    }
    match b.consume(ProviderEvent::Function(function("f"))) {
        ConsumerAction::Wait => {}
        _ => panic!("a single row waits for its batch"),
    }
    match b.consume(ProviderEvent::GuideXref("/a".to_string(), "/a#s".to_string())) {
        ConsumerAction::Wait => {}
        _ => panic!("cross-references are deferred"),
    }
    let (rest, xrefs) = b.finish();
    assert_eq!(rest.len(), 1);
    assert_eq!(rest[0].kind, NGLDataKind::Function);
    assert_eq!(xrefs.len(), 1);
}

#[test]
fn options_json_default_prefers_text() {
    let r = ngl::providers::options_json_row("p", "a.b".to_string(), Some("bool".to_string()), Some("false".to_string()), Some("{\"text\":\"false\"}".to_string()), "{}".to_string());
    assert_eq!(r.default_value, Some("false".to_string()));
    let s = ngl::providers::options_json_row("p", "a.b".to_string(), None, None, Some("3".to_string()), "{}".to_string());
    assert_eq!(s.default_value, Some("3".to_string()));
    assert_eq!(s.provider_name, "p");
}

#[test]
fn fetch_retry_policy() {
    assert_eq!(next_fetch_step(0, FetchOutcome::Body), FetchStep::Done);
    assert_eq!(next_fetch_step(0, FetchOutcome::Unreachable), FetchStep::Retry { delay_secs: 2 });
    assert_eq!(next_fetch_step(1, FetchOutcome::Status(503)), FetchStep::Retry { delay_secs: 4 });
    assert_eq!(next_fetch_step(2, FetchOutcome::Unreachable), FetchStep::Fail);
    assert_eq!(next_fetch_step(0, FetchOutcome::Status(404)), FetchStep::Fail);
}
