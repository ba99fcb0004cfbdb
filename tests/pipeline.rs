use ngl::channel::{split_into_statements, Batcher, SyncCounts, BATCH_SIZE};
use ngl::kind::NGLDataKind;
use ngl::refresh::{
    delete_provider_kind_data, determine_kinds_to_sync, plan_refresh, DeleteStep, KindCache,
    RefreshPlan,
};

const HOUR: i64 = 3600;

fn statements(n: usize) -> Vec<Vec<usize>> {
    split_into_statements((0..n).collect())
}

#[test]
fn statements_for_150_rows() {
    assert_eq!(statements(150).len(), 1);
}

#[test]
fn statements_for_151_rows() {
    let s = statements(151);
    assert_eq!(s.len(), 2);
    assert_eq!(s[0].len(), 150);
    assert_eq!(s[1], vec![150]);
}

#[test]
fn statements_for_300_rows() {
    assert_eq!(statements(300).len(), 2);
}

#[test]
fn statements_for_451_rows_take_four_slices_of_at_most_150() {
    let s = statements(451);
    assert_eq!(s.len(), 4);
    assert_eq!(s[3], vec![450]);
}

#[test]
fn statements_for_no_rows() {
    assert!(statements(0).is_empty());
}

#[test]
fn batch_boundary_601_functions() {
    let mut b: Batcher<u32> = Batcher::new();
    let mut written: Vec<u64> = Vec::new();
    for i in 0..601u32 {
        if let Some(batch) = b.push(NGLDataKind::Function, i) {
            assert_eq!(batch.len(), BATCH_SIZE);
            b.record_written(NGLDataKind::Function, batch.len() as u64);
            written.push(b.snapshot().functions);
        }
    }
    let (rest, xrefs) = b.finish();
    assert_eq!(rest.len(), 1);
    assert_eq!(rest[0].kind, NGLDataKind::Function);
    assert_eq!(rest[0].rows, vec![600]);
    assert!(xrefs.is_empty());
    assert_eq!(written, vec![300, 600]);
    let mut c = SyncCounts { functions: 600, examples: 0, guides: 0, options: 0, packages: 0, types: 0 };
    c.add(NGLDataKind::Function, 1);
    assert_eq!(c.functions, 601);
}

#[test]
fn guide_xrefs_are_deferred_until_close() {
    let mut b: Batcher<&str> = Batcher::new();
    assert!(b.push(NGLDataKind::Guide, "g1").is_none());
    b.defer_xref("/a".to_string(), "/a#s".to_string());
    assert!(b.push(NGLDataKind::Guide, "g2").is_none());
    let (rest, xrefs) = b.finish();
    assert_eq!(rest.len(), 1);
    assert_eq!(rest[0].kind, NGLDataKind::Guide);
    assert_eq!(rest[0].rows, vec!["g1", "g2"]);
    assert_eq!(xrefs, vec![("/a".to_string(), "/a#s".to_string())]);
    assert_eq!(ngl::channel::xref_row(Some(1), Some(2)), Some((1, 2)));
    assert_eq!(ngl::channel::xref_row(Some(1), None), None);
}

#[test]
fn residual_batches_come_in_kind_order() {
    let mut b: Batcher<u8> = Batcher::new();
    b.push(NGLDataKind::Type, 1);
    b.push(NGLDataKind::Function, 2);
    b.push(NGLDataKind::Example, 3);
    let (rest, _) = b.finish();
    let kinds: Vec<NGLDataKind> = rest.iter().map(|r| r.kind).collect();
    assert_eq!(kinds, vec![NGLDataKind::Function, NGLDataKind::Example, NGLDataKind::Type]);
}

#[test]
fn counts_format() {
    let zero = SyncCounts { functions: 0, examples: 0, guides: 0, options: 0, packages: 0, types: 0 };
    assert_eq!(zero.format(), "syncing...");
    let c = SyncCounts { functions: 300, examples: 0, guides: 2, options: 0, packages: 0, types: 10 };
    assert_eq!(c.format(), "300 functions, 2 guides, 10 types");
    let d = SyncCounts { functions: 0, examples: 1, guides: 0, options: 0, packages: 0, types: 0 };
    assert_eq!(d.format(), "1 examples");
}

#[test]
fn fresh_ingest_syncs_everything_requested() {
    let req = vec![NGLDataKind::Function, NGLDataKind::Example];
    let dec = vec![NGLDataKind::Function, NGLDataKind::Example];
    let r = determine_kinds_to_sync(&req, &dec, &KindCache::empty(), 0, 24);
    assert_eq!(r, vec![NGLDataKind::Function, NGLDataKind::Example]);
}

#[test]
fn resync_cascade_timing() {
    let kinds = vec![NGLDataKind::Function, NGLDataKind::Example];
    let t0: i64 = 1_700_000_000;
    let mut cache = KindCache::empty();
    cache.record_sync(&kinds, t0);
    let one_second = plan_refresh(&Some(kinds.clone()), &kinds, &cache, t0 + 1, None);
    assert_eq!(one_second, RefreshPlan::NoWork);
    let later = plan_refresh(&Some(kinds.clone()), &kinds, &cache, t0 + 25 * HOUR, None);
    match later {
        RefreshPlan::Sync { kinds: k, deletions } => {
            assert_eq!(k, vec![NGLDataKind::Function, NGLDataKind::Example]);
            assert!(deletions.contains(&DeleteStep::Rows(NGLDataKind::Function)));
            assert!(deletions.contains(&DeleteStep::Rows(NGLDataKind::Example)));
        }
        RefreshPlan::NoWork => panic!("expected a sync"),
    }
}

#[test]
fn host_sync_pulls_cached_examples() {
    let dec = vec![NGLDataKind::Function, NGLDataKind::Example];
    let mut cache = KindCache::empty();
    cache.set(NGLDataKind::Example, 100);
    let r = determine_kinds_to_sync(&vec![NGLDataKind::Function], &dec, &cache, 200, 24);
    assert_eq!(r, vec![NGLDataKind::Function, NGLDataKind::Example]);
}

#[test]
fn example_sync_pulls_cached_hosts() {
    let dec = vec![NGLDataKind::Guide, NGLDataKind::Option, NGLDataKind::Example];
    let mut cache = KindCache::empty();
    cache.set(NGLDataKind::Guide, 100);
    let r = determine_kinds_to_sync(&vec![NGLDataKind::Example], &dec, &cache, 200, 24);
    assert_eq!(r, vec![NGLDataKind::Example, NGLDataKind::Guide]);
}

#[test]
fn undeclared_kinds_are_never_synced() {
    let r = determine_kinds_to_sync(
        &vec![NGLDataKind::Package],
        &vec![NGLDataKind::Function],
        &KindCache::empty(),
        0,
        24,
    );
    assert!(r.is_empty());
}

#[test]
fn stale_exactly_at_interval() {
    let mut cache = KindCache::empty();
    cache.set(NGLDataKind::Type, 0);
    let ks = vec![NGLDataKind::Type];
    assert_eq!(determine_kinds_to_sync(&ks, &ks, &cache, 24 * HOUR - 1, 24), vec![]);
    assert_eq!(determine_kinds_to_sync(&ks, &ks, &cache, 24 * HOUR, 24), ks);
}

#[test]
fn cascades() {
    assert_eq!(
        delete_provider_kind_data(NGLDataKind::Guide),
        vec![
            DeleteStep::GuideXrefs,
            DeleteStep::ExampleLinks(NGLDataKind::Guide),
            DeleteStep::Rows(NGLDataKind::Guide)
        ]
    );
    let ex = delete_provider_kind_data(NGLDataKind::Example);
    assert_eq!(ex.len(), 6);
    assert_eq!(ex[5], DeleteStep::Rows(NGLDataKind::Example));
    assert_eq!(
        delete_provider_kind_data(NGLDataKind::Package),
        vec![DeleteStep::ExampleLinks(NGLDataKind::Package), DeleteStep::Rows(NGLDataKind::Package)]
    );
}

#[test]
fn cache_record_keeps_other_kinds() {
    let mut cache = KindCache::empty();
    cache.set(NGLDataKind::Guide, 5);
    cache.record_sync(&vec![NGLDataKind::Function], 9);
    assert_eq!(cache.get(NGLDataKind::Guide), Some(5));
    assert_eq!(cache.get(NGLDataKind::Function), Some(9));
    assert_eq!(cache.get(NGLDataKind::Type), None);
}
