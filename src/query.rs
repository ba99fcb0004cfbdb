use vstd::prelude::*;

use crate::kind::{is_host, kind_name, NGLDataKind};
use crate::refresh::KindSet;
use crate::text::{join_strings, joined, replace_all, replace_all_str, str_eq, strings_view};

verus! {

/// A search request: an optional term, optional provider names, optional kinds.
#[derive(Debug, Clone)]
pub struct NGLRequest {
    pub search_term: Option<String>,
    pub providers: Option<Vec<String>>,
    pub kinds: Option<Vec<NGLDataKind>>,
}

/// The kinds a request names, where it names at least one.
pub open spec fn named_kinds(kinds: Option<Seq<NGLDataKind>>) -> Option<Seq<NGLDataKind>> {
    match kinds {
        Some(ks) => if ks.len() > 0 {
            Some(ks)
        } else {
            None
        },
        None => None,
    }
}

/// Examples are stitched into their hosts when the request names `Example` together
/// with a host kind.
pub open spec fn stitched(kinds: Option<Seq<NGLDataKind>>) -> bool {
    match named_kinds(kinds) {
        Some(ks) => ks.contains(NGLDataKind::Example) && exists|k: NGLDataKind|
            #[trigger] ks.contains(k) && is_host(k),
        None => false,
    }
}

/// Examples are included in host bodies when the request's kinds include `Example`,
/// or when it gives no list of kinds at all; an empty list includes none.
pub open spec fn includes_examples(kinds: Option<Seq<NGLDataKind>>) -> bool {
    match kinds {
        Some(ks) => ks.contains(NGLDataKind::Example),
        None => true,
    }
}

/// Which kinds a query admits.
#[derive(Debug, Clone, Copy, PartialEq, Eq, Structural)]
pub enum KindFilter {
    /// Every kind but `Example`: the default where a request names no kinds.
    NotExample,
    /// The kinds of the set.
    AnyOf(KindSet),
}

/// The kind filter of a request: `NotExample` where it names no kinds, else the kinds
/// it names, less `Example` where examples are stitched.
pub open spec fn kind_filter_of(kinds: Option<Seq<NGLDataKind>>) -> KindFilter {
    match named_kinds(kinds) {
        None => KindFilter::NotExample,
        Some(ks) => {
            let s = KindSet::from_kinds_spec(ks);
            KindFilter::AnyOf(
                if stitched(kinds) {
                    KindSet { example: false, ..s }
                } else {
                    s
                },
            )
        },
    }
}

/// The full-text expression of a request: the term in double quotes, inner double
/// quotes doubled, followed by `*` for a prefix match; `*` alone without a term.
pub open spec fn match_expr_of(term: Option<Seq<char>>) -> Seq<char> {
    match term {
        Some(t) => seq!['"'] + replace_all(t, seq!['"'], seq!['"', '"']) + seq!['"', '*'],
        None => seq!['*'],
    }
}

/// What a request asks of the search table and of result assembly.
#[derive(Debug, Clone)]
pub struct QueryPlan {
    pub match_expr: String,
    pub kind_filter: KindFilter,
    pub providers: Option<Vec<String>>,
    pub include_examples: bool,
    pub examples_stitched: bool,
}

pub open spec fn opt_view<T: View>(o: Option<T>) -> Option<T::V> {
    match o {
        Some(v) => Some(v@),
        None => None,
    }
}

fn has_host_kind(ks: &Vec<NGLDataKind>) -> (r: bool)
    ensures
        r == exists|k: NGLDataKind| #[trigger] ks@.contains(k) && is_host(k),
{
    let mut i: usize = 0;
    while i < ks.len()
        invariant
            0 <= i <= ks@.len(),
            forall|j: int| 0 <= j < i ==> !is_host(#[trigger] ks@[j]),
        decreases ks@.len() - i,
    {
        if ks[i].is_host_kind() {
            assert(ks@.contains(ks@[i as int]));
            return true;
        }
        i = i + 1;
    }
    assert forall|k: NGLDataKind| !(#[trigger] ks@.contains(k) && is_host(k)) by {
        if ks@.contains(k) {
            let j = choose|j: int| 0 <= j < ks@.len() && ks@[j] == k;
            assert(!is_host(ks@[j]));
        }
    }
    false
}

fn match_expr(term: &Option<String>) -> (r: String)
    ensures
        r@ == match_expr_of(opt_view(*term)),
{
    match term {
        Some(t) => {
            proof {
                reveal_strlit("\"");
                reveal_strlit("\"\"");
                reveal_strlit("\"*");
                assert("\""@ =~= seq!['"']);
                assert("\"\""@ =~= seq!['"', '"']);
                assert("\"*"@ =~= seq!['"', '*']);
            }
            let escaped = replace_all_str(t.as_str(), "\"", "\"\"");
            let mut r = "\"".to_owned();
            r.append(escaped.as_str());
            r.append("\"*");
            proof {
                assert(r@ =~= match_expr_of(opt_view(*term)));
            }
            r
        },
        None => {
            let r = "*".to_owned();
            proof {
                reveal_strlit("*");
                assert(r@ =~= match_expr_of(opt_view(*term)));
            }
            r
        },
    }
}

/// Turns a request into a query plan.
pub fn plan_query(request: &NGLRequest) -> (r: QueryPlan)
    ensures
        r.match_expr@ == match_expr_of(opt_view(request.search_term)),
        r.kind_filter == kind_filter_of(opt_view(request.kinds)),
        r.include_examples == includes_examples(opt_view(request.kinds)),
        r.examples_stitched == stitched(opt_view(request.kinds)),
        opt_view(r.providers) == opt_view(request.providers),
{
    let m = match_expr(&request.search_term);
    let providers = match &request.providers {
        Some(ps) => Some(ps.clone()),
        None => None,
    };
    proof {
        if request.providers is Some {
            assert(providers->0@ =~= request.providers->0@);
        }
    }
    match &request.kinds {
        Some(ks) => {
            if ks.len() > 0 {
                let s = KindSet::from_kinds(ks);
                let has_example = s.example;
                let stitch = has_example && has_host_kind(ks);
                let filter = if stitch {
                    KindSet { example: false, ..s }
                } else {
                    s
                };
                QueryPlan {
                    match_expr: m,
                    kind_filter: KindFilter::AnyOf(filter),
                    providers,
                    include_examples: has_example,
                    examples_stitched: stitch,
                }
            } else {
                QueryPlan {
                    match_expr: m,
                    kind_filter: KindFilter::NotExample,
                    providers,
                    include_examples: false,
                    examples_stitched: false,
                }
            }
        },
        None => QueryPlan {
            match_expr: m,
            kind_filter: KindFilter::NotExample,
            providers,
            include_examples: true,
            examples_stitched: false,
        },
    }
}

/// A request that names no kinds, or an empty list of them, searches every kind
/// but `Example`.
pub proof fn law_default_kinds_exclude_examples(kinds: Option<Seq<NGLDataKind>>)
    requires
        kinds is None || kinds->0.len() == 0,
    ensures
        kind_filter_of(kinds) == KindFilter::NotExample,
{
}

/// A request that names `Example` together with a host kind stitches examples into
/// their hosts: standalone examples leave the kind filter, the host kind stays, and
/// host bodies carry their examples.
pub proof fn law_examples_with_host_are_stitched(ks: Seq<NGLDataKind>, host: NGLDataKind)
    requires
        ks.contains(NGLDataKind::Example),
        ks.contains(host),
        is_host(host),
    ensures
        stitched(Some(ks)),
        includes_examples(Some(ks)),
        match kind_filter_of(Some(ks)) {
            KindFilter::AnyOf(s) => !s.has(NGLDataKind::Example) && s.has(host),
            KindFilter::NotExample => false,
        },
{
    assert(ks.contains(host) && is_host(host));
}

/// A request that names only `Example` returns standalone examples: the filter admits
/// `Example` and nothing else, and nothing is stitched.
pub proof fn law_only_examples_are_standalone(ks: Seq<NGLDataKind>)
    requires
        ks.len() > 0,
        forall|i: int| 0 <= i < ks.len() ==> ks[i] == NGLDataKind::Example,
    ensures
        !stitched(Some(ks)),
        kind_filter_of(Some(ks)) == KindFilter::AnyOf(
            KindSet {
                function: false,
                example: true,
                guide: false,
                option: false,
                package: false,
                type_: false,
            },
        ),
{
    assert(ks[0] == NGLDataKind::Example);
    assert(ks.contains(NGLDataKind::Example));
    assert forall|k: NGLDataKind| k != NGLDataKind::Example implies !#[trigger] ks.contains(k) by {
        if ks.contains(k) {
            let j = choose|j: int| 0 <= j < ks.len() && ks[j] == k;
            assert(ks[j] == NGLDataKind::Example);
        }
    }
    assert(!ks.contains(NGLDataKind::Function));
    assert(!ks.contains(NGLDataKind::Guide));
    assert(!ks.contains(NGLDataKind::Option));
    assert(!ks.contains(NGLDataKind::Package));
    assert(!ks.contains(NGLDataKind::Type));
}

/// A standalone example gets a source exactly where some host references it, and
/// then the host kind is the first of guide, function, option, package, type that does.
pub proof fn law_source_resolved_where_possible(hosts: ExampleHosts, own_link: Option<Seq<char>>)
    ensures
        source_of(hosts, own_link) is None <==> (hosts.guide is None && hosts.function is None
            && hosts.option is None && hosts.package is None && hosts.type_ is None),
        hosts.guide is None && hosts.function is Some ==> source_of(hosts, own_link) == Some(
            (NGLDataKind::Function, hosts.function->0, own_link),
        ),
{
}

/// `s` as an SQL string literal: in single quotes, inner single quotes doubled.
pub open spec fn sql_quoted(s: Seq<char>) -> Seq<char> {
    seq!['\''] + replace_all(s, seq!['\''], seq!['\'', '\'']) + seq!['\'']
}

/// The `kind` condition of a filter.
pub open spec fn kind_clause(f: KindFilter) -> Seq<char> {
    match f {
        KindFilter::NotExample => " AND kind != 'Example'"@,
        KindFilter::AnyOf(s) => if s.in_order().len() == 0 {
            Seq::empty()
        } else {
            " AND kind IN ("@ + joined(
                s.in_order().map_values(|k: NGLDataKind| sql_quoted(kind_name(k))),
                ","@,
            ) + ")"@
        },
    }
}

/// The `provider_name` condition: present wherever a list of providers is given, so
/// that an empty list matches no row.
pub open spec fn provider_clause(ps: Option<Seq<Seq<char>>>) -> Seq<char> {
    match ps {
        Some(ps) => " AND provider_name IN ("@ + joined(
            ps.map_values(|p: Seq<char>| sql_quoted(p)),
            ","@,
        ) + ")"@,
        None => Seq::empty(),
    }
}

/// The statement that a plan runs against the search table.
pub open spec fn search_sql(
    match_expr: Seq<char>,
    filter: KindFilter,
    providers: Option<Seq<Seq<char>>>,
) -> Seq<char> {
    "SELECT entity_id, kind, provider_name FROM ngl_search WHERE ngl_search MATCH "@ + sql_quoted(
        match_expr,
    ) + kind_clause(filter) + provider_clause(providers) + " ORDER BY rank"@
}

fn sql_quote(s: &str) -> (r: String)
    ensures
        r@ == sql_quoted(s@),
{
    proof {
        reveal_strlit("'");
        reveal_strlit("''");
        assert("'"@ =~= seq!['\'']);
        assert("''"@ =~= seq!['\'', '\'']);
    }
    let escaped = replace_all_str(s, "'", "''");
    let mut r = "'".to_owned();
    r.append(escaped.as_str());
    r.append("'");
    assert(r@ =~= sql_quoted(s@));
    r
}

fn kind_clause_sql(f: &KindFilter) -> (r: String)
    ensures
        r@ == kind_clause(*f),
{
    match f {
        KindFilter::NotExample => " AND kind != 'Example'".to_owned(),
        KindFilter::AnyOf(s) => {
            let kinds = s.to_vec();
            if kinds.len() == 0 {
                return String::new();
            }
            let mut quoted: Vec<String> = Vec::new();
            let mut i: usize = 0;
            while i < kinds.len()
                invariant
                    0 <= i <= kinds@.len(),
                    quoted@.len() == i,
                    forall|j: int|
                        0 <= j < i ==> #[trigger] quoted@[j]@ == sql_quoted(kind_name(kinds@[j])),
                decreases kinds@.len() - i,
            {
                let name = kinds[i].name();
                quoted.push(sql_quote(name.as_str()));
                i = i + 1;
            }
            let body = join_strings(&quoted, ",");
            let mut r = " AND kind IN (".to_owned();
            r.append(body.as_str());
            r.append(")");
            proof {
                assert(strings_view(quoted@) =~= s.in_order().map_values(
                    |k: NGLDataKind| sql_quoted(kind_name(k)),
                ));
                assert(r@ =~= kind_clause(*f));
            }
            r
        },
    }
}

fn provider_clause_sql(ps: &Option<Vec<String>>) -> (r: String)
    ensures
        r@ == provider_clause(
            match ps {
                Some(v) => Some(strings_view(v@)),
                None => None,
            },
        ),
{
    match ps {
        None => String::new(),
        Some(v) => {
            let mut quoted: Vec<String> = Vec::new();
            let mut i: usize = 0;
            while i < v.len()
                invariant
                    0 <= i <= v@.len(),
                    quoted@.len() == i,
                    forall|j: int| 0 <= j < i ==> #[trigger] quoted@[j]@ == sql_quoted(v@[j]@),
                decreases v@.len() - i,
            {
                quoted.push(sql_quote(v[i].as_str()));
                i = i + 1;
            }
            let body = join_strings(&quoted, ",");
            let mut r = " AND provider_name IN (".to_owned();
            r.append(body.as_str());
            r.append(")");
            proof {
                assert(strings_view(quoted@) =~= strings_view(v@).map_values(
                    |p: Seq<char>| sql_quoted(p),
                ));
                assert(r@ =~= provider_clause(Some(strings_view(v@))));
            }
            r
        },
    }
}

impl QueryPlan {
    /// The statement to run against the search table, ranked by relevance.
    pub fn to_sql(&self) -> (r: String)
        ensures
            r@ == search_sql(
                self.match_expr@,
                self.kind_filter,
                match self.providers {
                    Some(v) => Some(strings_view(v@)),
                    None => None,
                },
            ),
    {
        let mut r = "SELECT entity_id, kind, provider_name FROM ngl_search WHERE ngl_search MATCH ".to_owned();
        let m = sql_quote(self.match_expr.as_str());
        r.append(m.as_str());
        let k = kind_clause_sql(&self.kind_filter);
        r.append(k.as_str());
        let p = provider_clause_sql(&self.providers);
        r.append(p.as_str());
        r.append(" ORDER BY rank");
        r
    }
}

/// Where a standalone example came from: the host kind, the host's id, and a link.
#[derive(Debug, Clone, PartialEq, Eq)]
pub struct SourceRef {
    pub kind: NGLDataKind,
    pub host_id: i32,
    pub link: Option<String>,
}

/// The join rows that reference one example, at most one per host kind: the guide
/// with its link, and the ids of the other hosts.
#[derive(Debug, Clone)]
pub struct ExampleHosts {
    pub guide: Option<(i32, String)>,
    pub function: Option<i32>,
    pub option: Option<i32>,
    pub package: Option<i32>,
    pub type_: Option<i32>,
}

/// The source of a standalone example: the first host found, in the order guide,
/// function, option, package, type. A guide lends its own link; any other host, the
/// example's stored link.
pub open spec fn source_of(hosts: ExampleHosts, own_link: Option<Seq<char>>) -> Option<
    (NGLDataKind, i32, Option<Seq<char>>),
> {
    if hosts.guide is Some {
        let (id, link) = hosts.guide->0;
        Some((NGLDataKind::Guide, id, Some(link@)))
    } else if hosts.function is Some {
        Some((NGLDataKind::Function, hosts.function->0, own_link))
    } else if hosts.option is Some {
        Some((NGLDataKind::Option, hosts.option->0, own_link))
    } else if hosts.package is Some {
        Some((NGLDataKind::Package, hosts.package->0, own_link))
    } else if hosts.type_ is Some {
        Some((NGLDataKind::Type, hosts.type_->0, own_link))
    } else {
        None
    }
}

/// Finds where a standalone example came from.
pub fn resolve_source(hosts: &ExampleHosts, own_link: &Option<String>) -> (r: Option<SourceRef>)
    ensures
        match (r, source_of(*hosts, opt_view(*own_link))) {
            (Some(s), Some(t)) => s.kind == t.0 && s.host_id == t.1 && opt_view(s.link) == t.2,
            (None, None) => true,
            _ => false,
        },
{
    let own = match own_link {
        Some(l) => Some(l.clone()),
        None => None,
    };
    if let Some((id, link)) = &hosts.guide {
        Some(SourceRef { kind: NGLDataKind::Guide, host_id: *id, link: Some(link.clone()) })
    } else if let Some(id) = hosts.function {
        Some(SourceRef { kind: NGLDataKind::Function, host_id: id, link: own })
    } else if let Some(id) = hosts.option {
        Some(SourceRef { kind: NGLDataKind::Option, host_id: id, link: own })
    } else if let Some(id) = hosts.package {
        Some(SourceRef { kind: NGLDataKind::Package, host_id: id, link: own })
    } else if let Some(id) = hosts.type_ {
        Some(SourceRef { kind: NGLDataKind::Type, host_id: id, link: own })
    } else {
        None
    }
}

/// The items of `hits` whose provider is `key`, in order.
pub open spec fn matches_of<T>(hits: Seq<(String, T)>, key: Seq<char>) -> Seq<T>
    decreases hits.len(),
{
    if hits.len() == 0 {
        Seq::empty()
    } else {
        let rest = matches_of(hits.drop_last(), key);
        if hits.last().0@ == key {
            rest.push(hits.last().1)
        } else {
            rest
        }
    }
}

/// Whether `groups` groups `hits` by provider: one group per provider that occurs, each
/// holding that provider's items in order.
pub open spec fn grouped<T>(groups: Seq<(String, Vec<T>)>, hits: Seq<(String, T)>) -> bool {
    &&& forall|a: int, b: int|
        0 <= a < b < groups.len() ==> (#[trigger] groups[a]).0@ != (#[trigger] groups[b]).0@
    &&& forall|a: int|
        0 <= a < groups.len() ==> (#[trigger] groups[a]).1@ == matches_of(hits, groups[a].0@)
    &&& forall|i: int| 0 <= i < hits.len() ==> #[trigger] has_group(groups, hits[i].0@)
}

/// The keys of the groups, in order.
pub open spec fn group_keys<T>(groups: Seq<(String, Vec<T>)>) -> Seq<Seq<char>> {
    groups.map_values(|g: (String, Vec<T>)| g.0@)
}

/// The providers of `hits`, each once, in order of their first hit.
pub open spec fn providers_in_order<T>(hits: Seq<(String, T)>) -> Seq<Seq<char>>
    decreases hits.len(),
{
    if hits.len() == 0 {
        Seq::empty()
    } else {
        let rest = providers_in_order(hits.drop_last());
        if rest.contains(hits.last().0@) {
            rest
        } else {
            rest.push(hits.last().0@)
        }
    }
}

/// Whether some group is keyed by `key`.
pub open spec fn has_group<T>(groups: Seq<(String, Vec<T>)>, key: Seq<char>) -> bool {
    exists|a: int| 0 <= a < groups.len() && (#[trigger] groups[a]).0@ == key
}

fn find_group<T>(groups: &Vec<(String, Vec<T>)>, key: &str) -> (r: Option<usize>)
    ensures
        r is Some ==> r->0 < groups@.len() && groups@[r->0 as int].0@ == key@,
        r is None ==> forall|a: int| 0 <= a < groups@.len() ==> (#[trigger] groups@[a]).0@ != key@,
{
    let mut a: usize = 0;
    while a < groups.len()
        invariant
            0 <= a <= groups@.len(),
            forall|b: int| 0 <= b < a ==> (#[trigger] groups@[b]).0@ != key@,
        decreases groups@.len() - a,
    {
        if str_eq(groups[a].0.as_str(), key) {
            return Some(a);
        }
        a = a + 1;
    }
    None
}

/// Groups search results by provider, providers in order of their first result and
/// each provider's results in order.
pub fn group_by_provider<T>(hits: Vec<(String, T)>) -> (r: Vec<(String, Vec<T>)>)
    ensures
        grouped(r@, hits@),
        group_keys(r@) == providers_in_order(hits@),
        forall|a: int| 0 <= a < r@.len() ==> (#[trigger] r@[a]).1@.len() > 0,
{
    let ghost all = hits@;
    let mut groups: Vec<(String, Vec<T>)> = Vec::new();
    let mut rest = hits;
    let mut taken: usize = 0;
    let n = rest.len();
    // `rev` holds the items last first, so that each pop takes the next one in order.
    let mut rev: Vec<(String, T)> = Vec::new();
    while rest.len() > 0
        invariant
            rev@.len() + rest@.len() == n,
            n == all.len(),
            forall|i: int| 0 <= i < rest@.len() ==> rest@[i] == all[i],
            forall|i: int| 0 <= i < rev@.len() ==> rev@[i] == all[n - 1 - i],
        decreases rest@.len(),
    {
        let x = rest.pop().unwrap();
        rev.push(x);
    }
    assert(all.subrange(0, 0).len() == 0);
    while rev.len() > 0
        invariant
            n == all.len(),
            taken + rev@.len() == n,
            forall|i: int| 0 <= i < rev@.len() ==> rev@[i] == all[n - 1 - i],
            grouped(groups@, all.subrange(0, taken as int)),
            group_keys(groups@) == providers_in_order(all.subrange(0, taken as int)),
            forall|a: int| 0 <= a < groups@.len() ==> (#[trigger] groups@[a]).1@.len() > 0,
        decreases rev@.len(),
    {
        let (key, item) = rev.pop().unwrap();
        let ghost prefix = all.subrange(0, taken as int);
        let ghost next = all.subrange(0, taken + 1);
        assert(all[taken as int] == (key, item));
        assert(next.drop_last() =~= prefix);
        assert(next.last() == (key, item));
        let ghost before = groups@;
        match find_group(&groups, key.as_str()) {
            Some(a) => {
                let (k, mut items) = groups.remove(a);
                items.push(item);
                groups.insert(a, (k, items));
                proof {
                    assert(group_keys(before).contains(key@)) by {
                        assert(group_keys(before)[a as int] == key@);
                    }
                    assert(group_keys(groups@) =~= group_keys(before)) by {
                        assert forall|b: int| 0 <= b < groups@.len() implies groups@[b].0@ == before[b].0@ by {
                            if b != a {
                                assert(groups@[b] == before[b]);
                            }
                        }
                    }
                    assert forall|b: int| 0 <= b < groups@.len() implies (#[trigger] groups@[b]).1@.len() > 0 by {
                        if b != a {
                            assert(groups@[b] == before[b]);
                        }
                    }
                    assert forall|b: int| 0 <= b < groups@.len() implies (#[trigger] groups@[b]).1@
                        == matches_of(next, groups@[b].0@) by {
                        if b != a {
                            assert(groups@[b] == before[b]);
                            assert(before[b].0@ != key@);
                        }
                    }
                    assert forall|i: int| 0 <= i < next.len() implies #[trigger] has_group(groups@, next[i].0@) by {
                        if i < prefix.len() {
                            assert(next[i] == prefix[i]);
                            assert(has_group(before, prefix[i].0@));
                            let c = choose|c: int| 0 <= c < before.len() && (#[trigger] before[c]).0@ == prefix[i].0@;
                            assert(groups@[c].0@ == before[c].0@);
                        } else {
                            assert(groups@[a as int].0@ == next[i].0@);
                        }
                    }
                    assert forall|b: int, c: int| 0 <= b < c < groups@.len() implies (#[trigger] groups@[b]).0@
                        != (#[trigger] groups@[c]).0@ by {
                        assert(groups@[b].0@ == before[b].0@);
                        assert(groups@[c].0@ == before[c].0@);
                    }
                }
            },
            None => {
                let mut items: Vec<T> = Vec::new();
                items.push(item);
                groups.push((key, items));
                proof {
                    assert(!group_keys(before).contains(key@)) by {
                        if group_keys(before).contains(key@) {
                            let b = choose|b: int| 0 <= b < group_keys(before).len() && group_keys(before)[b] == key@;
                            assert(before[b].0@ != key@);
                        }
                    }
                    assert(group_keys(groups@) =~= group_keys(before).push(key@));
                    assert forall|b: int| 0 <= b < groups@.len() implies (#[trigger] groups@[b]).1@.len() > 0 by {
                        if b < before.len() {
                            assert(groups@[b] == before[b]);
                        }
                    }
                    assert(matches_of(prefix, key@).len() == 0) by {
                        lemma_no_matches(prefix, key@, before);
                    }
                    assert forall|b: int| 0 <= b < groups@.len() implies (#[trigger] groups@[b]).1@
                        == matches_of(next, groups@[b].0@) by {
                        if b < before.len() {
                            assert(groups@[b] == before[b]);
                        } else {
                            assert(groups@[b].1@ =~= matches_of(prefix, key@).push(item));
                        }
                    }
                    assert forall|i: int| 0 <= i < next.len() implies #[trigger] has_group(groups@, next[i].0@) by {
                        if i < prefix.len() {
                            assert(next[i] == prefix[i]);
                            assert(has_group(before, prefix[i].0@));
                            let c = choose|c: int| 0 <= c < before.len() && (#[trigger] before[c]).0@ == prefix[i].0@;
                            assert(groups@[c] == before[c]);
                        } else {
                            assert(groups@[before.len() as int].0@ == next[i].0@);
                        }
                    }
                    assert forall|b: int, c: int| 0 <= b < c < groups@.len() implies (#[trigger] groups@[b]).0@
                        != (#[trigger] groups@[c]).0@ by {
                        if c == before.len() {
                            assert(groups@[b] == before[b]);
                        } else {
                            assert(groups@[b] == before[b]);
                            assert(groups@[c] == before[c]);
                        }
                    }
                }
            },
        }
        taken = taken + 1;
    }
    assert(all.subrange(0, n as int) =~= all);
    groups
}

proof fn lemma_no_matches<T>(hits: Seq<(String, T)>, key: Seq<char>, groups: Seq<(String, Vec<T>)>)
    requires
        forall|i: int| 0 <= i < hits.len() ==> #[trigger] has_group(groups, hits[i].0@),
        forall|a: int| 0 <= a < groups.len() ==> (#[trigger] groups[a]).0@ != key,
    ensures
        matches_of(hits, key).len() == 0,
    decreases hits.len(),
{
    if hits.len() > 0 {
        let h = hits.drop_last();
        assert forall|i: int| 0 <= i < h.len() implies #[trigger] has_group(groups, h[i].0@) by {
            assert(h[i] == hits[i]);
        }
        lemma_no_matches(h, key, groups);
        let last = hits.len() - 1;
        assert(hits[last] == hits.last());
        assert(has_group(groups, hits[last].0@));
    }
}

} // verus!
