use vstd::prelude::*;

use crate::kind::{is_host, NGLDataKind};
use crate::refresh::{cascade, invalidation, DeleteStep};

verus! {

/// The rows of the store as the invalidation rules see them: which rows exist, with
/// their owners, which hosts are linked to which examples, and which guides are
/// cross-referenced.
pub struct StoreModel {
    /// `(kind, id, provider)` for each content row.
    pub rows: Set<(NGLDataKind, int, Seq<char>)>,
    /// `(host kind, host id, example id)` for each join row.
    pub links: Set<(NGLDataKind, int, int)>,
    /// `(guide id, sub-guide id)` for each cross-reference.
    pub xrefs: Set<(int, int)>,
}

/// Whether a row of kind `k` with id `id` exists.
pub open spec fn has_row(s: StoreModel, k: NGLDataKind, id: int) -> bool {
    exists|p: Seq<char>| #[trigger] s.rows.contains((k, id, p))
}

/// Every join row joins an existing host with an existing example of the same
/// provider, and every cross-reference joins two existing guides.
pub open spec fn links_whole(s: StoreModel) -> bool {
    &&& forall|l: (NGLDataKind, int, int)| #[trigger]
        s.links.contains(l) ==> is_host(l.0) && exists|p: Seq<char>|
            #[trigger] s.rows.contains((l.0, l.1, p)) && s.rows.contains(
                (NGLDataKind::Example, l.2, p),
            )
    &&& forall|x: (int, int)| #[trigger]
        s.xrefs.contains(x) ==> has_row(s, NGLDataKind::Guide, x.0) && has_row(
            s,
            NGLDataKind::Guide,
            x.1,
        )
}

/// The store after one deletion scoped to provider `p`.
pub open spec fn apply_step(s: StoreModel, p: Seq<char>, step: DeleteStep) -> StoreModel {
    match step {
        DeleteStep::Rows(k) => StoreModel {
            rows: s.rows.filter(|r: (NGLDataKind, int, Seq<char>)| !(r.0 == k && r.2 == p)),
            ..s
        },
        DeleteStep::ExampleLinks(h) => StoreModel {
            links: s.links.filter(
                |l: (NGLDataKind, int, int)| !(l.0 == h && s.rows.contains((h, l.1, p))),
            ),
            ..s
        },
        DeleteStep::GuideXrefs => StoreModel {
            xrefs: s.xrefs.filter(
                |x: (int, int)|
                    !(s.rows.contains((NGLDataKind::Guide, x.0, p)) || s.rows.contains(
                        (NGLDataKind::Guide, x.1, p),
                    )),
            ),
            ..s
        },
    }
}

/// The store after a list of deletions, in order.
pub open spec fn apply_steps(s: StoreModel, p: Seq<char>, steps: Seq<DeleteStep>) -> StoreModel
    decreases steps.len(),
{
    if steps.len() == 0 {
        s
    } else {
        apply_steps(apply_step(s, p, steps[0]), p, steps.drop_first())
    }
}

proof fn lemma_apply_steps_concat(s: StoreModel, p: Seq<char>, a: Seq<DeleteStep>, b: Seq<DeleteStep>)
    ensures
        apply_steps(s, p, a + b) == apply_steps(apply_steps(s, p, a), p, b),
    decreases a.len(),
{
    if a.len() == 0 {
        assert(a + b =~= b);
    } else {
        assert((a + b).drop_first() =~= a.drop_first() + b);
        lemma_apply_steps_concat(apply_step(s, p, a[0]), p, a.drop_first(), b);
    }
}

/// Whether no join row with a host of kind `h` points at a host of provider `p`.
pub open spec fn no_links_of(s: StoreModel, p: Seq<char>, h: NGLDataKind) -> bool {
    forall|l: (NGLDataKind, int, int)| #[trigger]
        s.links.contains(l) && l.0 == h ==> !s.rows.contains((h, l.1, p))
}

proof fn lemma_unlink(s: StoreModel, p: Seq<char>, h: NGLDataKind)
    requires
        links_whole(s),
    ensures
        links_whole(apply_step(s, p, DeleteStep::ExampleLinks(h))),
        no_links_of(apply_step(s, p, DeleteStep::ExampleLinks(h)), p, h),
        forall|j: NGLDataKind| no_links_of(s, p, j) ==> #[trigger] no_links_of(
            apply_step(s, p, DeleteStep::ExampleLinks(h)),
            p,
            j,
        ),
{
    let t = apply_step(s, p, DeleteStep::ExampleLinks(h));
    assert(t.rows == s.rows);
    assert(t.xrefs == s.xrefs);
    assert forall|l: (NGLDataKind, int, int)| #[trigger]
        t.links.contains(l) implies is_host(l.0) && exists|q: Seq<char>|
            #[trigger] t.rows.contains((l.0, l.1, q)) && t.rows.contains(
                (NGLDataKind::Example, l.2, q),
            ) by {
        assert(s.links.contains(l));
        let q = choose|q: Seq<char>|
            #[trigger] s.rows.contains((l.0, l.1, q)) && s.rows.contains(
                (NGLDataKind::Example, l.2, q),
            );
        assert(t.rows.contains((l.0, l.1, q)));
    }
    assert forall|x: (int, int)| #[trigger] t.xrefs.contains(x) implies has_row(
        t,
        NGLDataKind::Guide,
        x.0,
    ) && has_row(t, NGLDataKind::Guide, x.1) by {
        assert(s.xrefs.contains(x));
        let a = choose|a: Seq<char>| #[trigger] s.rows.contains((NGLDataKind::Guide, x.0, a));
        let b = choose|b: Seq<char>| #[trigger] s.rows.contains((NGLDataKind::Guide, x.1, b));
        assert(t.rows.contains((NGLDataKind::Guide, x.0, a)));
        assert(t.rows.contains((NGLDataKind::Guide, x.1, b)));
    }
}

proof fn lemma_drop_rows(s: StoreModel, p: Seq<char>, k: NGLDataKind)
    requires
        links_whole(s),
        is_host(k) ==> no_links_of(s, p, k),
        k == NGLDataKind::Example ==> forall|h: NGLDataKind| is_host(h) ==> #[trigger] no_links_of(s, p, h),
        k == NGLDataKind::Guide ==> forall|x: (int, int)| #[trigger]
            s.xrefs.contains(x) ==> !s.rows.contains((NGLDataKind::Guide, x.0, p)) && !s.rows.contains(
                (NGLDataKind::Guide, x.1, p),
            ),
    ensures
        links_whole(apply_step(s, p, DeleteStep::Rows(k))),
        forall|j: NGLDataKind| no_links_of(s, p, j) ==> #[trigger] no_links_of(
            apply_step(s, p, DeleteStep::Rows(k)),
            p,
            j,
        ),
{
    let t = apply_step(s, p, DeleteStep::Rows(k));
    assert forall|l: (NGLDataKind, int, int)| #[trigger]
        t.links.contains(l) implies is_host(l.0) && exists|q: Seq<char>|
            #[trigger] t.rows.contains((l.0, l.1, q)) && t.rows.contains(
                (NGLDataKind::Example, l.2, q),
            ) by {
        let q = choose|q: Seq<char>|
            #[trigger] s.rows.contains((l.0, l.1, q)) && s.rows.contains(
                (NGLDataKind::Example, l.2, q),
            );
        if q == p {
            if l.0 == k {
                assert(no_links_of(s, p, k));
            } else if k == NGLDataKind::Example {
                assert(no_links_of(s, p, l.0));
            }
        }
        assert(t.rows.contains((l.0, l.1, q)));
        assert(t.rows.contains((NGLDataKind::Example, l.2, q)));
    }
    assert forall|x: (int, int)| #[trigger] t.xrefs.contains(x) implies has_row(
        t,
        NGLDataKind::Guide,
        x.0,
    ) && has_row(t, NGLDataKind::Guide, x.1) by {
        let a = choose|a: Seq<char>| #[trigger] s.rows.contains((NGLDataKind::Guide, x.0, a));
        let b = choose|b: Seq<char>| #[trigger] s.rows.contains((NGLDataKind::Guide, x.1, b));
        assert(t.rows.contains((NGLDataKind::Guide, x.0, a)));
        assert(t.rows.contains((NGLDataKind::Guide, x.1, b)));
    }
}

proof fn lemma_cascade(s: StoreModel, p: Seq<char>, k: NGLDataKind)
    requires
        links_whole(s),
    ensures
        links_whole(apply_steps(s, p, cascade(k))),
{
    let steps = cascade(k);
    reveal_with_fuel(apply_steps, 7);
    match k {
        NGLDataKind::Example => {
            let s1 = apply_step(s, p, DeleteStep::ExampleLinks(NGLDataKind::Guide));
            lemma_unlink(s, p, NGLDataKind::Guide);
            let s2 = apply_step(s1, p, DeleteStep::ExampleLinks(NGLDataKind::Function));
            lemma_unlink(s1, p, NGLDataKind::Function);
            let s3 = apply_step(s2, p, DeleteStep::ExampleLinks(NGLDataKind::Option));
            lemma_unlink(s2, p, NGLDataKind::Option);
            let s4 = apply_step(s3, p, DeleteStep::ExampleLinks(NGLDataKind::Package));
            lemma_unlink(s3, p, NGLDataKind::Package);
            let s5 = apply_step(s4, p, DeleteStep::ExampleLinks(NGLDataKind::Type));
            lemma_unlink(s4, p, NGLDataKind::Type);
            assert forall|h: NGLDataKind| is_host(h) implies #[trigger] no_links_of(s5, p, h) by {
                match h {
                    NGLDataKind::Guide => {},
                    NGLDataKind::Function => {},
                    NGLDataKind::Option => {},
                    NGLDataKind::Package => {},
                    NGLDataKind::Type => {},
                    NGLDataKind::Example => {},
                }
            }
            lemma_drop_rows(s5, p, NGLDataKind::Example);
            assert(steps.drop_first().drop_first().drop_first().drop_first().drop_first().drop_first().len() == 0);
        },
        NGLDataKind::Guide => {
            let s1 = apply_step(s, p, DeleteStep::GuideXrefs);
            assert(s1.rows == s.rows);
            assert(s1.links == s.links);
            assert(links_whole(s1)) by {
                assert forall|l: (NGLDataKind, int, int)| #[trigger]
                    s1.links.contains(l) implies is_host(l.0) && exists|q: Seq<char>|
                        #[trigger] s1.rows.contains((l.0, l.1, q)) && s1.rows.contains(
                            (NGLDataKind::Example, l.2, q),
                        ) by {
                    let q = choose|q: Seq<char>|
                        #[trigger] s.rows.contains((l.0, l.1, q)) && s.rows.contains(
                            (NGLDataKind::Example, l.2, q),
                        );
                    assert(s1.rows.contains((l.0, l.1, q)));
                }
                assert forall|x: (int, int)| #[trigger] s1.xrefs.contains(x) implies has_row(
                    s1,
                    NGLDataKind::Guide,
                    x.0,
                ) && has_row(s1, NGLDataKind::Guide, x.1) by {
                    assert(s.xrefs.contains(x));
                    let a = choose|a: Seq<char>| #[trigger] s.rows.contains((NGLDataKind::Guide, x.0, a));
                    let b = choose|b: Seq<char>| #[trigger] s.rows.contains((NGLDataKind::Guide, x.1, b));
                    assert(s1.rows.contains((NGLDataKind::Guide, x.0, a)));
                    assert(s1.rows.contains((NGLDataKind::Guide, x.1, b)));
                }
            }
            let s2 = apply_step(s1, p, DeleteStep::ExampleLinks(NGLDataKind::Guide));
            lemma_unlink(s1, p, NGLDataKind::Guide);
            lemma_drop_rows(s2, p, NGLDataKind::Guide);
        },
        _ => {
            let s1 = apply_step(s, p, DeleteStep::ExampleLinks(k));
            lemma_unlink(s, p, k);
            lemma_drop_rows(s1, p, k);
        },
    }
}

/// Invalidation never orphans a row: where every join row and cross-reference points
/// at existing rows before a provider's kinds are invalidated, that still holds after
/// their cascades have run, in any order and for any list of kinds.
pub proof fn law_invalidation_keeps_links_whole(
    s: StoreModel,
    p: Seq<char>,
    kinds: Seq<NGLDataKind>,
)
    requires
        links_whole(s),
    ensures
        links_whole(apply_steps(s, p, invalidation(kinds))),
    decreases kinds.len(),
{
    if kinds.len() > 0 {
        law_invalidation_keeps_links_whole(s, p, kinds.drop_last());
        lemma_apply_steps_concat(s, p, invalidation(kinds.drop_last()), cascade(kinds.last()));
        lemma_cascade(apply_steps(s, p, invalidation(kinds.drop_last())), p, kinds.last());
    }
}

/// A host written with its examples and their join rows keeps every link whole.
pub proof fn law_linked_insert_keeps_links_whole(
    s: StoreModel,
    p: Seq<char>,
    host: (NGLDataKind, int),
    example_ids: Set<int>,
)
    requires
        links_whole(s),
        is_host(host.0),
    ensures
        ({
            let t = StoreModel {
                rows: s.rows.insert((host.0, host.1, p)).union(
                    example_ids.map(|e: int| (NGLDataKind::Example, e, p)),
                ),
                links: s.links.union(example_ids.map(|e: int| (host.0, host.1, e))),
                xrefs: s.xrefs,
            };
            links_whole(t)
        }),
{
    let t = StoreModel {
        rows: s.rows.insert((host.0, host.1, p)).union(
            example_ids.map(|e: int| (NGLDataKind::Example, e, p)),
        ),
        links: s.links.union(example_ids.map(|e: int| (host.0, host.1, e))),
        xrefs: s.xrefs,
    };
    assert forall|l: (NGLDataKind, int, int)| #[trigger]
        t.links.contains(l) implies is_host(l.0) && exists|q: Seq<char>|
            #[trigger] t.rows.contains((l.0, l.1, q)) && t.rows.contains(
                (NGLDataKind::Example, l.2, q),
            ) by {
        if s.links.contains(l) {
            let q = choose|q: Seq<char>|
                #[trigger] s.rows.contains((l.0, l.1, q)) && s.rows.contains(
                    (NGLDataKind::Example, l.2, q),
                );
            assert(t.rows.contains((l.0, l.1, q)));
            assert(t.rows.contains((NGLDataKind::Example, l.2, q)));
        } else {
            let e = choose|e: int| example_ids.contains(e) && (host.0, host.1, e) == l;
            assert(t.rows.contains((host.0, host.1, p)));
            assert(example_ids.map(|e: int| (NGLDataKind::Example, e, p)).contains(
                (NGLDataKind::Example, e, p),
            ));
            assert(t.rows.contains((NGLDataKind::Example, l.2, p)));
        }
    }
    assert forall|x: (int, int)| #[trigger] t.xrefs.contains(x) implies has_row(
        t,
        NGLDataKind::Guide,
        x.0,
    ) && has_row(t, NGLDataKind::Guide, x.1) by {
        let a = choose|a: Seq<char>| #[trigger] s.rows.contains((NGLDataKind::Guide, x.0, a));
        let b = choose|b: Seq<char>| #[trigger] s.rows.contains((NGLDataKind::Guide, x.1, b));
        assert(t.rows.contains((NGLDataKind::Guide, x.0, a)));
        assert(t.rows.contains((NGLDataKind::Guide, x.1, b)));
    }
}

} // verus!
