use vstd::prelude::*;

use crate::kind::{contains_kind, is_host, NGLDataKind};

verus! {

/// The interval, in hours, after which a cached kind counts as stale when the
/// provider names none.
pub const DEFAULT_SYNC_INTERVAL_HOURS: u32 = 24;

/// A set of kinds, one flag per kind.
#[derive(Debug, Clone, Copy, PartialEq, Eq, Structural)]
pub struct KindSet {
    pub function: bool,
    pub example: bool,
    pub guide: bool,
    pub option: bool,
    pub package: bool,
    pub type_: bool,
}

impl KindSet {
    pub open spec fn has(self, k: NGLDataKind) -> bool {
        match k {
            NGLDataKind::Function => self.function,
            NGLDataKind::Example => self.example,
            NGLDataKind::Guide => self.guide,
            NGLDataKind::Option => self.option,
            NGLDataKind::Package => self.package,
            NGLDataKind::Type => self.type_,
        }
    }

    pub fn contains(&self, k: NGLDataKind) -> (r: bool)
        ensures
            r == self.has(k),
    {
        match k {
            NGLDataKind::Function => self.function,
            NGLDataKind::Example => self.example,
            NGLDataKind::Guide => self.guide,
            NGLDataKind::Option => self.option,
            NGLDataKind::Package => self.package,
            NGLDataKind::Type => self.type_,
        }
    }

    /// The set of the kinds listed in `ks`.
    pub fn from_kinds(ks: &Vec<NGLDataKind>) -> (r: KindSet)
        ensures
            forall|k: NGLDataKind| #[trigger] r.has(k) == ks@.contains(k),
            r == KindSet::from_kinds_spec(ks@),
    {
        let r = KindSet {
            function: contains_kind(ks, NGLDataKind::Function),
            example: contains_kind(ks, NGLDataKind::Example),
            guide: contains_kind(ks, NGLDataKind::Guide),
            option: contains_kind(ks, NGLDataKind::Option),
            package: contains_kind(ks, NGLDataKind::Package),
            type_: contains_kind(ks, NGLDataKind::Type),
        };
        assert forall|k: NGLDataKind| #[trigger] r.has(k) == ks@.contains(k) by {
            match k {
                NGLDataKind::Function => {},
                NGLDataKind::Example => {},
                NGLDataKind::Guide => {},
                NGLDataKind::Option => {},
                NGLDataKind::Package => {},
                NGLDataKind::Type => {},
            }
        }
        proof {
            KindSet::lemma_from_kinds(ks@, r);
        }
        r
    }

    /// The kinds of the set in the order `Function, Example, Guide, Option, Package, Type`.
    pub open spec fn in_order(self) -> Seq<NGLDataKind> {
        if_kind(self.function, NGLDataKind::Function) + if_kind(self.example, NGLDataKind::Example)
            + if_kind(self.guide, NGLDataKind::Guide) + if_kind(self.option, NGLDataKind::Option)
            + if_kind(self.package, NGLDataKind::Package) + if_kind(self.type_, NGLDataKind::Type)
    }

    /// The kinds of the set, each once, in the order
    /// `Function, Example, Guide, Option, Package, Type`.
    pub fn to_vec(&self) -> (r: Vec<NGLDataKind>)
        ensures
            r@ == self.in_order(),
            r@.no_duplicates(),
            forall|k: NGLDataKind| #[trigger] r@.contains(k) == self.has(k),
    {
        let mut r: Vec<NGLDataKind> = Vec::new();
        push_if(&mut r, NGLDataKind::Function, self.function);
        push_if(&mut r, NGLDataKind::Example, self.example);
        push_if(&mut r, NGLDataKind::Guide, self.guide);
        push_if(&mut r, NGLDataKind::Option, self.option);
        push_if(&mut r, NGLDataKind::Package, self.package);
        push_if(&mut r, NGLDataKind::Type, self.type_);
        assert(r@ =~= self.in_order());
        r
    }
}

/// `k` alone where `b` holds, nothing otherwise.
pub open spec fn if_kind(b: bool, k: NGLDataKind) -> Seq<NGLDataKind> {
    if b {
        seq![k]
    } else {
        Seq::empty()
    }
}

fn push_if(r: &mut Vec<NGLDataKind>, k: NGLDataKind, b: bool)
    requires
        old(r)@.no_duplicates(),
        !old(r)@.contains(k),
    ensures
        final(r)@ == old(r)@ + if_kind(b, k),
        final(r)@.no_duplicates(),
        forall|j: NGLDataKind| #[trigger]
            final(r)@.contains(j) == (old(r)@.contains(j) || (b && j == k)),
{
    let ghost before = r@;
    assert(before + if_kind(false, k) =~= before);
    if b {
        r.push(k);
        assert(r@ =~= before + if_kind(b, k));
        proof {
            assert(r@ == before.push(k));
            assert forall|j: NGLDataKind| #[trigger]
                r@.contains(j) == (before.contains(j) || j == k) by {
                vstd::seq_lib::lemma_seq_contains_after_push(before, k, j);
            }
            assert forall|x: int, y: int| 0 <= x < r@.len() && 0 <= y < r@.len() && x != y implies r@[x]
                != r@[y] by {
                if x == before.len() {
                    assert(before[y] == r@[y]);
                } else if y == before.len() {
                    assert(before[x] == r@[x]);
                }
            }
        }
    }
}

/// When each kind of one provider was last synced, in seconds since the epoch.
#[derive(Debug, Clone, Copy, PartialEq, Eq, Structural)]
pub struct KindCache {
    pub function: Option<i64>,
    pub example: Option<i64>,
    pub guide: Option<i64>,
    pub option: Option<i64>,
    pub package: Option<i64>,
    pub type_: Option<i64>,
}

impl KindCache {
    pub open spec fn at(self, k: NGLDataKind) -> Option<i64> {
        match k {
            NGLDataKind::Function => self.function,
            NGLDataKind::Example => self.example,
            NGLDataKind::Guide => self.guide,
            NGLDataKind::Option => self.option,
            NGLDataKind::Package => self.package,
            NGLDataKind::Type => self.type_,
        }
    }

    /// A cache that holds no kind.
    pub fn empty() -> (r: KindCache)
        ensures
            forall|k: NGLDataKind| #[trigger] r.at(k) is None,
    {
        KindCache {
            function: None,
            example: None,
            guide: None,
            option: None,
            package: None,
            type_: None,
        }
    }

    pub fn get(&self, k: NGLDataKind) -> (r: Option<i64>)
        ensures
            r == self.at(k),
    {
        match k {
            NGLDataKind::Function => self.function,
            NGLDataKind::Example => self.example,
            NGLDataKind::Guide => self.guide,
            NGLDataKind::Option => self.option,
            NGLDataKind::Package => self.package,
            NGLDataKind::Type => self.type_,
        }
    }

    /// Sets the time at which `k` was last synced.
    pub fn set(&mut self, k: NGLDataKind, t: i64)
        ensures
            forall|j: NGLDataKind| #[trigger]
                final(self).at(j) == if j == k {
                    Some(t)
                } else {
                    old(self).at(j)
                },
    {
        match k {
            NGLDataKind::Function => self.function = Some(t),
            NGLDataKind::Example => self.example = Some(t),
            NGLDataKind::Guide => self.guide = Some(t),
            NGLDataKind::Option => self.option = Some(t),
            NGLDataKind::Package => self.package = Some(t),
            NGLDataKind::Type => self.type_ = Some(t),
        }
    }

    /// The cache after every kind in `kinds` finished a sync at time `now`.
    pub open spec fn recorded(self, kinds: Seq<NGLDataKind>, now: i64) -> KindCache {
        KindCache {
            function: if kinds.contains(NGLDataKind::Function) { Some(now) } else { self.function },
            example: if kinds.contains(NGLDataKind::Example) { Some(now) } else { self.example },
            guide: if kinds.contains(NGLDataKind::Guide) { Some(now) } else { self.guide },
            option: if kinds.contains(NGLDataKind::Option) { Some(now) } else { self.option },
            package: if kinds.contains(NGLDataKind::Package) { Some(now) } else { self.package },
            type_: if kinds.contains(NGLDataKind::Type) { Some(now) } else { self.type_ },
        }
    }

    /// Records that every kind in `kinds` finished a sync at time `now`.
    pub fn record_sync(&mut self, kinds: &Vec<NGLDataKind>, now: i64)
        ensures
            *final(self) == old(self).recorded(kinds@, now),
    {
        let mut i: usize = 0;
        while i < kinds.len()
            invariant
                0 <= i <= kinds@.len(),
                forall|k: NGLDataKind| #[trigger]
                    self.at(k) == if kinds@.subrange(0, i as int).contains(k) {
                        Some(now)
                    } else {
                        old(self).at(k)
                    },
            decreases kinds@.len() - i,
        {
            let k = kinds[i];
            self.set(k, now);
            proof {
                assert(kinds@.subrange(0, i + 1) =~= kinds@.subrange(0, i as int).push(k));
                assert forall|j: NGLDataKind| #[trigger]
                    kinds@.subrange(0, i as int).push(k).contains(j) == (kinds@.subrange(
                        0,
                        i as int,
                    ).contains(j) || j == k) by {
                    vstd::seq_lib::lemma_seq_contains_after_push(kinds@.subrange(0, i as int), k, j);
                }
            }
            i = i + 1;
        }
        assert(kinds@.subrange(0, kinds@.len() as int) =~= kinds@);
        proof {
            let want = old(self).recorded(kinds@, now);
            assert(self.at(NGLDataKind::Function) == want.at(NGLDataKind::Function));
            assert(self.at(NGLDataKind::Example) == want.at(NGLDataKind::Example));
            assert(self.at(NGLDataKind::Guide) == want.at(NGLDataKind::Guide));
            assert(self.at(NGLDataKind::Option) == want.at(NGLDataKind::Option));
            assert(self.at(NGLDataKind::Package) == want.at(NGLDataKind::Package));
            assert(self.at(NGLDataKind::Type) == want.at(NGLDataKind::Type));
        }
    }
}

/// A completed sync leaves a cache entry exactly for the kinds that had one before and
/// the kinds it synced; where the clock has not gone back, no entry moves back in time.
pub proof fn law_cache_tracks_completed_syncs(before: KindCache, kinds: Seq<NGLDataKind>, now: i64)
    ensures
        forall|k: NGLDataKind| #[trigger]
            before.recorded(kinds, now).at(k) is Some <==> (before.at(k) is Some || kinds.contains(
                k,
            )),
        forall|k: NGLDataKind|
            before.at(k) is Some && before.at(k)->0 <= now ==> #[trigger] before.recorded(
                kinds,
                now,
            ).at(k)->0 >= before.at(k)->0,
{
}

/// Whether a kind last synced at `last` is due again at `now`, with the interval in hours.
pub open spec fn is_stale(last: Option<i64>, now: i64, interval_hours: u32) -> bool {
    match last {
        None => true,
        Some(t) => now - t >= interval_hours * 3600,
    }
}

/// Step one of the refresh: the kind is requested, declared, and stale.
pub open spec fn due(
    requested: KindSet,
    declared: KindSet,
    cache: KindCache,
    now: i64,
    interval_hours: u32,
    k: NGLDataKind,
) -> bool {
    requested.has(k) && declared.has(k) && is_stale(cache.at(k), now, interval_hours)
}

/// Whether step one selects some host kind.
pub open spec fn due_host(
    requested: KindSet,
    declared: KindSet,
    cache: KindCache,
    now: i64,
    interval_hours: u32,
) -> bool {
    due(requested, declared, cache, now, interval_hours, NGLDataKind::Guide) || due(
        requested,
        declared,
        cache,
        now,
        interval_hours,
        NGLDataKind::Function,
    ) || due(requested, declared, cache, now, interval_hours, NGLDataKind::Option) || due(
        requested,
        declared,
        cache,
        now,
        interval_hours,
        NGLDataKind::Package,
    ) || due(requested, declared, cache, now, interval_hours, NGLDataKind::Type)
}

/// Step two, first half: a host kind is due, the provider declares `Example`, step one
/// did not select it, and examples were synced before.
pub open spec fn example_pulled(
    requested: KindSet,
    declared: KindSet,
    cache: KindCache,
    now: i64,
    interval_hours: u32,
) -> bool {
    due_host(requested, declared, cache, now, interval_hours) && declared.has(NGLDataKind::Example)
        && !due(requested, declared, cache, now, interval_hours, NGLDataKind::Example) && cache.at(
        NGLDataKind::Example,
    ) is Some
}

/// Whether `Example` is synced after the first half of step two.
pub open spec fn example_synced(
    requested: KindSet,
    declared: KindSet,
    cache: KindCache,
    now: i64,
    interval_hours: u32,
) -> bool {
    due(requested, declared, cache, now, interval_hours, NGLDataKind::Example) || example_pulled(
        requested,
        declared,
        cache,
        now,
        interval_hours,
    )
}

/// The kinds that a refresh syncs: those due, `Example` where hosts are due and
/// examples were synced before, and every declared and cached host kind where
/// `Example` is synced.
pub open spec fn to_sync(
    requested: KindSet,
    declared: KindSet,
    cache: KindCache,
    now: i64,
    interval_hours: u32,
    k: NGLDataKind,
) -> bool {
    ||| due(requested, declared, cache, now, interval_hours, k)
    ||| (k == NGLDataKind::Example && example_pulled(
        requested,
        declared,
        cache,
        now,
        interval_hours,
    ))
    ||| (is_host(k) && example_synced(requested, declared, cache, now, interval_hours)
        && declared.has(k) && cache.at(k) is Some)
}

fn is_stale_exec(last: Option<i64>, now: i64, interval_hours: u32) -> (r: bool)
    ensures
        r == is_stale(last, now, interval_hours),
{
    match last {
        None => true,
        Some(t) => (now as i128) - (t as i128) >= (interval_hours as i128) * 3600,
    }
}

fn due_exec(
    requested: &KindSet,
    declared: &KindSet,
    cache: &KindCache,
    now: i64,
    interval_hours: u32,
    k: NGLDataKind,
) -> (r: bool)
    ensures
        r == due(*requested, *declared, *cache, now, interval_hours, k),
{
    requested.contains(k) && declared.contains(k) && is_stale_exec(cache.get(k), now, interval_hours)
}

/// The set of kinds that a refresh syncs (steps one and two of the refresh).
pub fn kinds_to_sync(
    requested: &KindSet,
    declared: &KindSet,
    cache: &KindCache,
    now: i64,
    interval_hours: u32,
) -> (r: KindSet)
    ensures
        forall|k: NGLDataKind| #[trigger]
            r.has(k) == to_sync(*requested, *declared, *cache, now, interval_hours, k),
{
    let f = due_exec(requested, declared, cache, now, interval_hours, NGLDataKind::Function);
    let e = due_exec(requested, declared, cache, now, interval_hours, NGLDataKind::Example);
    let g = due_exec(requested, declared, cache, now, interval_hours, NGLDataKind::Guide);
    let o = due_exec(requested, declared, cache, now, interval_hours, NGLDataKind::Option);
    let p = due_exec(requested, declared, cache, now, interval_hours, NGLDataKind::Package);
    let t = due_exec(requested, declared, cache, now, interval_hours, NGLDataKind::Type);
    let host_due = g || f || o || p || t;
    let pulled = host_due && declared.example && !e && cache.example.is_some();
    let ex = e || pulled;
    let r = KindSet {
        function: f || (ex && declared.function && cache.function.is_some()),
        example: ex,
        guide: g || (ex && declared.guide && cache.guide.is_some()),
        option: o || (ex && declared.option && cache.option.is_some()),
        package: p || (ex && declared.package && cache.package.is_some()),
        type_: t || (ex && declared.type_ && cache.type_.is_some()),
    };
    assert forall|k: NGLDataKind| #[trigger]
        r.has(k) == to_sync(*requested, *declared, *cache, now, interval_hours, k) by {
        match k {
            NGLDataKind::Function => {},
            NGLDataKind::Example => {},
            NGLDataKind::Guide => {},
            NGLDataKind::Option => {},
            NGLDataKind::Package => {},
            NGLDataKind::Type => {},
        }
    }
    r
}

/// Steps one and two of the refresh over listed kinds: the kinds to sync, each once.
pub fn determine_kinds_to_sync(
    requested: &Vec<NGLDataKind>,
    declared: &Vec<NGLDataKind>,
    cache: &KindCache,
    now: i64,
    interval_hours: u32,
) -> (r: Vec<NGLDataKind>)
    ensures
        r@.no_duplicates(),
        forall|k: NGLDataKind| #[trigger]
            r@.contains(k) == to_sync(
                KindSet::from_kinds_spec(requested@),
                KindSet::from_kinds_spec(declared@),
                *cache,
                now,
                interval_hours,
                k,
            ),
{
    let req = KindSet::from_kinds(requested);
    let dec = KindSet::from_kinds(declared);
    let set = kinds_to_sync(&req, &dec, cache, now, interval_hours);
    set.to_vec()
}

impl KindSet {
    /// The set of the kinds listed in `ks`.
    pub open spec fn from_kinds_spec(ks: Seq<NGLDataKind>) -> KindSet {
        KindSet {
            function: ks.contains(NGLDataKind::Function),
            example: ks.contains(NGLDataKind::Example),
            guide: ks.contains(NGLDataKind::Guide),
            option: ks.contains(NGLDataKind::Option),
            package: ks.contains(NGLDataKind::Package),
            type_: ks.contains(NGLDataKind::Type),
        }
    }

    proof fn lemma_from_kinds(ks: Seq<NGLDataKind>, s: KindSet)
        requires
            forall|k: NGLDataKind| #[trigger] s.has(k) == ks.contains(k),
        ensures
            s == KindSet::from_kinds_spec(ks),
    {
        assert(s.has(NGLDataKind::Function) == ks.contains(NGLDataKind::Function));
        assert(s.has(NGLDataKind::Example) == ks.contains(NGLDataKind::Example));
        assert(s.has(NGLDataKind::Guide) == ks.contains(NGLDataKind::Guide));
        assert(s.has(NGLDataKind::Option) == ks.contains(NGLDataKind::Option));
        assert(s.has(NGLDataKind::Package) == ks.contains(NGLDataKind::Package));
        assert(s.has(NGLDataKind::Type) == ks.contains(NGLDataKind::Type));
    }
}

/// The cache of a provider that starts empty and records each completed sync of
/// `history`, in order: each entry is the kinds synced and the time it completed.
pub open spec fn replayed(history: Seq<(Seq<NGLDataKind>, i64)>) -> KindCache
    decreases history.len(),
{
    if history.len() == 0 {
        KindCache {
            function: None,
            example: None,
            guide: None,
            option: None,
            package: None,
            type_: None,
        }
    } else {
        replayed(history.drop_last()).recorded(history.last().0, history.last().1)
    }
}

/// A kind has a cache entry exactly when some completed sync synced it; and where the
/// syncs completed in time order, its entry is no earlier than any of them.
pub proof fn law_cache_reflects_history(history: Seq<(Seq<NGLDataKind>, i64)>, k: NGLDataKind)
    ensures
        replayed(history).at(k) is Some <==> exists|i: int|
            0 <= i < history.len() && (#[trigger] history[i]).0.contains(k),
        (forall|i: int, j: int| 0 <= i < j < history.len() ==> history[i].1 <= history[j].1)
            ==> forall|i: int|
            0 <= i < history.len() && (#[trigger] history[i]).0.contains(k) ==> replayed(
                history,
            ).at(k)->0 >= history[i].1,
    decreases history.len(),
{
    if history.len() > 0 {
        let h = history.drop_last();
        law_cache_reflects_history(h, k);
        let last = history.len() - 1;
        assert(history[last] == history.last());
        assert forall|i: int| 0 <= i < h.len() implies #[trigger] h[i] == history[i] by {}
        if replayed(h).at(k) is Some {
            let i = choose|i: int| 0 <= i < h.len() && (#[trigger] h[i]).0.contains(k);
            assert(history[i] == h[i]);
        }
        if exists|i: int| 0 <= i < history.len() && (#[trigger] history[i]).0.contains(k) {
            let i = choose|i: int| 0 <= i < history.len() && (#[trigger] history[i]).0.contains(k);
            if i < last {
                assert(h[i] == history[i]);
            }
        }
        if forall|i: int, j: int| 0 <= i < j < history.len() ==> history[i].1 <= history[j].1 {
            assert forall|i: int, j: int| 0 <= i < j < h.len() implies h[i].1 <= h[j].1 by {
                assert(h[i] == history[i]);
                assert(h[j] == history[j]);
            }
            assert forall|i: int|
                0 <= i < history.len() && (#[trigger] history[i]).0.contains(k) implies replayed(
                history,
            ).at(k)->0 >= history[i].1 by {
                if i < last {
                    assert(h[i] == history[i]);
                    if !history.last().0.contains(k) {
                        assert(replayed(h).at(k)->0 >= h[i].1);
                    }
                }
            }
        }
    }
}

/// One deletion that invalidation performs, scoped to the provider being refreshed.
#[derive(Debug, Clone, Copy, PartialEq, Eq, Structural)]
pub enum DeleteStep {
    /// The join rows between the provider's hosts of this kind and their examples.
    ExampleLinks(NGLDataKind),
    /// The cross-references that touch the provider's guides, as parent or as child.
    GuideXrefs,
    /// The provider's rows of this kind.
    Rows(NGLDataKind),
}

/// What invalidating kind `k` deletes, in order. A host kind takes its own example
/// links with it, so that no join row outlives its host.
pub open spec fn cascade(k: NGLDataKind) -> Seq<DeleteStep> {
    match k {
        NGLDataKind::Example => seq![
            DeleteStep::ExampleLinks(NGLDataKind::Guide),
            DeleteStep::ExampleLinks(NGLDataKind::Function),
            DeleteStep::ExampleLinks(NGLDataKind::Option),
            DeleteStep::ExampleLinks(NGLDataKind::Package),
            DeleteStep::ExampleLinks(NGLDataKind::Type),
            DeleteStep::Rows(NGLDataKind::Example),
        ],
        NGLDataKind::Guide => seq![
            DeleteStep::GuideXrefs,
            DeleteStep::ExampleLinks(NGLDataKind::Guide),
            DeleteStep::Rows(NGLDataKind::Guide),
        ],
        _ => seq![DeleteStep::ExampleLinks(k), DeleteStep::Rows(k)],
    }
}

/// The deletions for a list of kinds: each kind's cascade, in the list's order.
pub open spec fn invalidation(kinds: Seq<NGLDataKind>) -> Seq<DeleteStep>
    decreases kinds.len(),
{
    if kinds.len() == 0 {
        Seq::empty()
    } else {
        invalidation(kinds.drop_last()) + cascade(kinds.last())
    }
}

/// The deletions that invalidating kind `k` performs, in order.
pub fn delete_provider_kind_data(k: NGLDataKind) -> (r: Vec<DeleteStep>)
    ensures
        r@ == cascade(k),
{
    let r = match k {
        NGLDataKind::Example => vec![
            DeleteStep::ExampleLinks(NGLDataKind::Guide),
            DeleteStep::ExampleLinks(NGLDataKind::Function),
            DeleteStep::ExampleLinks(NGLDataKind::Option),
            DeleteStep::ExampleLinks(NGLDataKind::Package),
            DeleteStep::ExampleLinks(NGLDataKind::Type),
            DeleteStep::Rows(NGLDataKind::Example),
        ],
        NGLDataKind::Guide => vec![
            DeleteStep::GuideXrefs,
            DeleteStep::ExampleLinks(NGLDataKind::Guide),
            DeleteStep::Rows(NGLDataKind::Guide),
        ],
        _ => vec![DeleteStep::ExampleLinks(k), DeleteStep::Rows(k)],
    };
    assert(r@ =~= cascade(k));
    r
}

/// The deletions for all of `kinds`, each kind's cascade in turn.
pub fn invalidation_plan(kinds: &Vec<NGLDataKind>) -> (r: Vec<DeleteStep>)
    ensures
        r@ == invalidation(kinds@),
{
    let mut r: Vec<DeleteStep> = Vec::new();
    let mut i: usize = 0;
    assert(kinds@.subrange(0, 0) =~= Seq::<NGLDataKind>::empty());
    while i < kinds.len()
        invariant
            0 <= i <= kinds@.len(),
            r@ == invalidation(kinds@.subrange(0, i as int)),
        decreases kinds@.len() - i,
    {
        let mut steps = delete_provider_kind_data(kinds[i]);
        r.append(&mut steps);
        proof {
            let next = kinds@.subrange(0, i + 1);
            assert(next.drop_last() =~= kinds@.subrange(0, i as int));
            assert(next.last() == kinds@[i as int]);
        }
        i = i + 1;
    }
    assert(kinds@.subrange(0, kinds@.len() as int) =~= kinds@);
    r
}

/// What a refresh of one provider does.
#[derive(Debug, Clone, PartialEq, Eq)]
pub enum RefreshPlan {
    /// Every requested kind is fresh: nothing is deleted, synced or reindexed.
    NoWork,
    /// Delete `deletions` in order, sync `kinds`, then record them in the cache.
    Sync { kinds: Vec<NGLDataKind>, deletions: Vec<DeleteStep> },
}

/// The kinds a request asks for: those it names, or every kind where it names none.
pub open spec fn requested_set(requested: Option<Seq<NGLDataKind>>) -> KindSet {
    match requested {
        Some(ks) => KindSet::from_kinds_spec(ks),
        None => KindSet {
            function: true,
            example: true,
            guide: true,
            option: true,
            package: true,
            type_: true,
        },
    }
}

/// The sync interval a provider uses: the one it names, or the default.
pub open spec fn interval_of(hours: Option<u32>) -> u32 {
    match hours {
        Some(h) => h,
        None => DEFAULT_SYNC_INTERVAL_HOURS,
    }
}

/// Plans the refresh of one provider: which kinds to sync and what to delete first,
/// or no work where nothing is due.
pub fn plan_refresh(
    requested: &Option<Vec<NGLDataKind>>,
    declared: &Vec<NGLDataKind>,
    cache: &KindCache,
    now: i64,
    sync_interval_hours: Option<u32>,
) -> (r: RefreshPlan)
    ensures
        ({
            let req = requested_set(
                match requested {
                    Some(v) => Some(v@),
                    None => None,
                },
            );
            let dec = KindSet::from_kinds_spec(declared@);
            let interval = interval_of(sync_interval_hours);
            match r {
                RefreshPlan::NoWork => forall|k: NGLDataKind|
                    !#[trigger] to_sync(req, dec, *cache, now, interval, k),
                RefreshPlan::Sync { kinds, deletions } => {
                    &&& kinds@.len() > 0
                    &&& kinds@.no_duplicates()
                    &&& forall|k: NGLDataKind| #[trigger]
                        kinds@.contains(k) == to_sync(req, dec, *cache, now, interval, k)
                    &&& deletions@ == invalidation(kinds@)
                },
            }
        }),
{
    let req = match requested {
        Some(v) => KindSet::from_kinds(v),
        None => KindSet {
            function: true,
            example: true,
            guide: true,
            option: true,
            package: true,
            type_: true,
        },
    };
    let dec = KindSet::from_kinds(declared);
    let interval = match sync_interval_hours {
        Some(h) => h,
        None => DEFAULT_SYNC_INTERVAL_HOURS,
    };
    let set = kinds_to_sync(&req, &dec, cache, now, interval);
    let kinds = set.to_vec();
    if kinds.len() == 0 {
        assert forall|k: NGLDataKind| !#[trigger] to_sync(req, dec, *cache, now, interval, k) by {
            assert(!kinds@.contains(k));
        }
        RefreshPlan::NoWork
    } else {
        let deletions = invalidation_plan(&kinds);
        RefreshPlan::Sync { kinds, deletions }
    }
}

/// How the refresh of one provider ended.
#[derive(Debug, Clone, Copy, PartialEq, Eq, Structural)]
pub enum SyncOutcome {
    /// Kinds were synced.
    Synced,
    /// Every requested kind was fresh.
    NoWork,
    /// The refresh failed.
    Failed,
}

/// Whether two lists of kinds have a kind in common.
pub open spec fn shares_kind(a: Seq<NGLDataKind>, b: Seq<NGLDataKind>) -> bool {
    exists|k: NGLDataKind| #[trigger] a.contains(k) && b.contains(k)
}

/// Whether a provider that declares `declared` takes part in a request for `requested`:
/// it declares a requested kind, or the request names no kinds.
pub fn provider_selected(requested: &Option<Vec<NGLDataKind>>, declared: &Vec<NGLDataKind>) -> (r:
    bool)
    ensures
        requested is None ==> r,
        requested is Some ==> r == shares_kind(requested->0@, declared@),
{
    match requested {
        None => true,
        Some(v) => {
            let mut i: usize = 0;
            while i < declared.len()
                invariant
                    requested->0@ == v@,
                    requested is Some,
                    0 <= i <= declared@.len(),
                    forall|j: int| 0 <= j < i ==> !v@.contains(#[trigger] declared@[j]),
                decreases declared@.len() - i,
            {
                if contains_kind(v, declared[i]) {
                    proof {
                        let k = declared@[i as int];
                        assert(declared@.contains(k));
                        assert(v@.contains(k) && declared@.contains(k));
                        assert(shares_kind(v@, declared@));
                    }
                    return true;
                }
                i = i + 1;
            }
            assert forall|k: NGLDataKind| !(#[trigger] v@.contains(k) && declared@.contains(k)) by {
                if declared@.contains(k) {
                    let j = choose|j: int| 0 <= j < declared@.len() && declared@[j] == k;
                    assert(!v@.contains(declared@[j]));
                }
            }
            false
        },
    }
}

/// Whether the search index is rebuilt after a cycle: some provider synced kinds.
pub fn needs_reindex(outcomes: &Vec<SyncOutcome>) -> (r: bool)
    ensures
        r == outcomes@.contains(SyncOutcome::Synced),
{
    let mut i: usize = 0;
    while i < outcomes.len()
        invariant
            0 <= i <= outcomes@.len(),
            forall|j: int| 0 <= j < i ==> outcomes@[j] != SyncOutcome::Synced,
        decreases outcomes@.len() - i,
    {
        if outcomes[i] == SyncOutcome::Synced {
            return true;
        }
        i = i + 1;
    }
    false
}

/// Whether a cycle fails as a whole: providers ran and every one of them failed.
pub fn cycle_failed(outcomes: &Vec<SyncOutcome>) -> (r: bool)
    ensures
        r == (outcomes@.len() > 0 && forall|j: int|
            0 <= j < outcomes@.len() ==> outcomes@[j] == SyncOutcome::Failed),
{
    if outcomes.len() == 0 {
        return false;
    }
    let mut i: usize = 0;
    while i < outcomes.len()
        invariant
            0 <= i <= outcomes@.len(),
            forall|j: int| 0 <= j < i ==> outcomes@[j] == SyncOutcome::Failed,
        decreases outcomes@.len() - i,
    {
        if outcomes[i] != SyncOutcome::Failed {
            return false;
        }
        i = i + 1;
    }
    true
}

} // verus!
