use vstd::prelude::*;

use crate::kind::NGLDataKind;
use crate::text::{decimal, decimal_string, join_strings, joined, strings_view};

verus! {

/// The number of rows of one kind that the consumer gathers before it writes them.
pub const BATCH_SIZE: usize = 300;

/// The number of events the channel holds before a producer has to wait.
pub const CHANNEL_CAPACITY: usize = 600;

/// The largest number of rows that one insert statement carries.
pub const STATEMENT_ROWS: usize = 150;

/// The number of statements that inserting `n` rows takes: `n / 150` rounded up.
pub open spec fn statement_count(n: nat) -> nat {
    ((n + STATEMENT_ROWS - 1) / STATEMENT_ROWS as int) as nat
}

/// The rows of statement `i` when `n` rows are split.
pub open spec fn statement_end(n: nat, i: int) -> int {
    if (i + 1) * STATEMENT_ROWS <= n {
        (i + 1) * STATEMENT_ROWS
    } else {
        n as int
    }
}

/// Splits rows into insert statements of at most 150 rows each: consecutive slices of
/// 150 rows, the last one holding what remains.
pub fn split_into_statements<T>(rows: Vec<T>) -> (r: Vec<Vec<T>>)
    ensures
        r@.len() == statement_count(rows@.len()),
        forall|i: int|
            0 <= i < r@.len() ==> #[trigger] r@[i]@ == rows@.subrange(
                i * STATEMENT_ROWS,
                statement_end(rows@.len(), i),
            ),
{
    let ghost all = rows@;
    let n = rows.len();
    let mut rest = rows;
    let mut out: Vec<Vec<T>> = Vec::new();
    let mut start: usize = 0;
    while rest.len() > STATEMENT_ROWS
        invariant
            n == all.len(),
            start == out@.len() * STATEMENT_ROWS,
            start <= n,
            rest@ == all.subrange(start as int, n as int),
            forall|i: int|
                0 <= i < out@.len() ==> #[trigger] out@[i]@ == all.subrange(
                    i * STATEMENT_ROWS,
                    statement_end(n as nat, i),
                ),
        decreases rest@.len(),
    {
        let tail = rest.split_off(STATEMENT_ROWS);
        proof {
            assert(rest@ =~= all.subrange(start as int, start + STATEMENT_ROWS));
            assert(tail@ =~= all.subrange(start + STATEMENT_ROWS, n as int));
            assert(statement_end(n as nat, out@.len() as int) == start + STATEMENT_ROWS);
        }
        out.push(rest);
        rest = tail;
        start = start + STATEMENT_ROWS;
    }
    if rest.len() > 0 {
        proof {
            assert(statement_end(n as nat, out@.len() as int) == n);
        }
        out.push(rest);
        assert(statement_count(n as nat) == out@.len()) by {
            assert(n - (out@.len() - 1) * STATEMENT_ROWS <= STATEMENT_ROWS);
            assert(n - (out@.len() - 1) * STATEMENT_ROWS > 0);
            assert(((n + STATEMENT_ROWS - 1) / STATEMENT_ROWS as int) == out@.len()) by (
            nonlinear_arith)
                requires
                    n <= out@.len() * STATEMENT_ROWS,
                    n > (out@.len() - 1) * STATEMENT_ROWS,
            ;
        }
    } else {
        assert(statement_count(n as nat) == out@.len()) by {
            assert(((n + STATEMENT_ROWS - 1) / STATEMENT_ROWS as int) == out@.len()) by (
            nonlinear_arith)
                requires
                    n == out@.len() * STATEMENT_ROWS,
            ;
        }
    }
    out
}

/// Progress of one provider's sync: how many rows of each kind were written.
#[derive(Debug, Clone, Copy, PartialEq, Eq, Structural)]
pub struct SyncCounts {
    pub functions: u64,
    pub examples: u64,
    pub guides: u64,
    pub options: u64,
    pub packages: u64,
    pub types: u64,
}

impl SyncCounts {
    pub open spec fn of(self, k: NGLDataKind) -> u64 {
        match k {
            NGLDataKind::Function => self.functions,
            NGLDataKind::Example => self.examples,
            NGLDataKind::Guide => self.guides,
            NGLDataKind::Option => self.options,
            NGLDataKind::Package => self.packages,
            NGLDataKind::Type => self.types,
        }
    }

    /// All six counters at zero.
    pub fn zero() -> (r: SyncCounts)
        ensures
            forall|k: NGLDataKind| #[trigger] r.of(k) == 0,
    {
        SyncCounts { functions: 0, examples: 0, guides: 0, options: 0, packages: 0, types: 0 }
    }

    /// Adds `n` written rows to the counter of `k`; a counter stops at `u64::MAX`.
    pub fn add(&mut self, k: NGLDataKind, n: u64)
        ensures
            forall|j: NGLDataKind| #[trigger]
                final(self).of(j) == if j == k {
                    old(self).of(j).saturating_add(n)
                } else {
                    old(self).of(j)
                },
    {
        match k {
            NGLDataKind::Function => self.functions = self.functions.saturating_add(n),
            NGLDataKind::Example => self.examples = self.examples.saturating_add(n),
            NGLDataKind::Guide => self.guides = self.guides.saturating_add(n),
            NGLDataKind::Option => self.options = self.options.saturating_add(n),
            NGLDataKind::Package => self.packages = self.packages.saturating_add(n),
            NGLDataKind::Type => self.types = self.types.saturating_add(n),
        }
    }
}

/// The phrase for one counter, where it is above zero: its count, a space, its noun.
pub open spec fn count_part(n: u64, noun: Seq<char>) -> Seq<Seq<char>> {
    if n > 0 {
        seq![decimal(n as nat) + noun]
    } else {
        Seq::empty()
    }
}

/// The phrases of all counters above zero, in kind order.
pub open spec fn count_parts(c: SyncCounts) -> Seq<Seq<char>> {
    count_part(c.functions, " functions"@) + count_part(c.examples, " examples"@) + count_part(
        c.guides,
        " guides"@,
    ) + count_part(c.options, " options"@) + count_part(c.packages, " packages"@) + count_part(
        c.types,
        " types"@,
    )
}

/// The progress line for a snapshot: the phrases joined by `, `, or `syncing...`
/// while every counter is zero.
pub open spec fn progress_line(c: SyncCounts) -> Seq<char> {
    if count_parts(c).len() == 0 {
        "syncing..."@
    } else {
        joined(count_parts(c), ", "@)
    }
}

fn push_part(parts: &mut Vec<String>, n: u64, noun: &str)
    ensures
        strings_view(final(parts)@) == strings_view(old(parts)@) + count_part(n, noun@),
{
    let ghost before = parts@;
    if n > 0 {
        let mut p = decimal_string(n);
        p.append(noun);
        parts.push(p);
    }
    assert(strings_view(parts@) =~= strings_view(before) + count_part(n, noun@));
}

impl SyncCounts {
    /// The progress line for these counts, such as `300 functions, 2 guides`.
    pub fn format(&self) -> (r: String)
        ensures
            r@ == progress_line(*self),
    {
        let mut parts: Vec<String> = Vec::new();
        assert(strings_view(parts@) =~= Seq::<Seq<char>>::empty());
        push_part(&mut parts, self.functions, " functions");
        push_part(&mut parts, self.examples, " examples");
        push_part(&mut parts, self.guides, " guides");
        push_part(&mut parts, self.options, " options");
        push_part(&mut parts, self.packages, " packages");
        push_part(&mut parts, self.types, " types");
        assert(strings_view(parts@) =~= count_parts(*self));
        if parts.len() == 0 {
            "syncing...".to_owned()
        } else {
            join_strings(&parts, ", ")
        }
    }
}

/// Rows of one kind that are written together.
pub struct Batch<T> {
    pub kind: NGLDataKind,
    pub rows: Vec<T>,
}

/// The plain-value view of a list of batches.
pub open spec fn batches_view<T>(bs: Seq<Batch<T>>) -> Seq<(NGLDataKind, Seq<T>)> {
    bs.map_values(|b: Batch<T>| (b.kind, b.rows@))
}

/// The consumer's state: rows waiting per kind, deferred guide cross-references,
/// and the counters.
pub struct Batcher<T> {
    functions: Vec<T>,
    examples: Vec<T>,
    guides: Vec<T>,
    options: Vec<T>,
    packages: Vec<T>,
    types: Vec<T>,
    xrefs: Vec<(String, String)>,
    counts: SyncCounts,
}

fn push_batch<T>(buf: &mut Vec<T>, item: T) -> (r: Option<Vec<T>>)
    requires
        old(buf)@.len() < BATCH_SIZE,
    ensures
        final(buf)@.len() < BATCH_SIZE,
        old(buf)@.len() + 1 == BATCH_SIZE ==> r is Some && r->0@ == old(buf)@.push(item)
            && final(buf)@.len() == 0,
        old(buf)@.len() + 1 < BATCH_SIZE ==> r is None && final(buf)@ == old(buf)@.push(item),
{
    buf.push(item);
    if buf.len() >= BATCH_SIZE {
        let mut out: Vec<T> = Vec::new();
        std::mem::swap(buf, &mut out);
        Some(out)
    } else {
        None
    }
}

impl<T> Batcher<T> {
    /// The rows of kind `k` that wait to be written.
    pub closed spec fn pending(self, k: NGLDataKind) -> Seq<T> {
        match k {
            NGLDataKind::Function => self.functions@,
            NGLDataKind::Example => self.examples@,
            NGLDataKind::Guide => self.guides@,
            NGLDataKind::Option => self.options@,
            NGLDataKind::Package => self.packages@,
            NGLDataKind::Type => self.types@,
        }
    }

    /// The guide cross-references `(parent link, child link)` deferred so far.
    pub closed spec fn deferred(self) -> Seq<(Seq<char>, Seq<char>)> {
        self.xrefs@.map_values(|x: (String, String)| (x.0@, x.1@))
    }

    pub closed spec fn counters(self) -> SyncCounts {
        self.counts
    }

    /// No kind holds a full batch.
    pub open spec fn wf(self) -> bool {
        forall|k: NGLDataKind| #[trigger] self.pending(k).len() < BATCH_SIZE
    }

    /// A consumer with nothing pending and every counter at zero.
    pub fn new() -> (r: Batcher<T>)
        ensures
            r.wf(),
            forall|k: NGLDataKind| #[trigger] r.pending(k).len() == 0,
            r.deferred().len() == 0,
            forall|k: NGLDataKind| #[trigger] r.counters().of(k) == 0,
    {
        let r = Batcher {
            functions: Vec::new(),
            examples: Vec::new(),
            guides: Vec::new(),
            options: Vec::new(),
            packages: Vec::new(),
            types: Vec::new(),
            xrefs: Vec::new(),
            counts: SyncCounts::zero(),
        };
        assert(r.deferred() =~= Seq::<(Seq<char>, Seq<char>)>::empty());
        r
    }

    /// Takes one row of kind `k`. Where that fills the kind's batch, the full batch is
    /// handed back to be written and the kind starts empty.
    pub fn push(&mut self, k: NGLDataKind, item: T) -> (r: Option<Vec<T>>)
        requires
            old(self).wf(),
        ensures
            final(self).wf(),
            old(self).pending(k).len() + 1 == BATCH_SIZE ==> r is Some && r->0@ == old(
                self,
            ).pending(k).push(item) && final(self).pending(k).len() == 0,
            old(self).pending(k).len() + 1 < BATCH_SIZE ==> r is None && final(self).pending(k)
                == old(self).pending(k).push(item),
            forall|j: NGLDataKind| j != k ==> #[trigger] final(self).pending(j) == old(self).pending(j),
            final(self).deferred() == old(self).deferred(),
            final(self).counters() == old(self).counters(),
    {
        proof {
            assert(self.pending(k).len() < BATCH_SIZE);
        }
        let r = match k {
            NGLDataKind::Function => push_batch(&mut self.functions, item),
            NGLDataKind::Example => push_batch(&mut self.examples, item),
            NGLDataKind::Guide => push_batch(&mut self.guides, item),
            NGLDataKind::Option => push_batch(&mut self.options, item),
            NGLDataKind::Package => push_batch(&mut self.packages, item),
            NGLDataKind::Type => push_batch(&mut self.types, item),
        };
        proof {
            assert forall|j: NGLDataKind| #[trigger] self.pending(j).len() < BATCH_SIZE by {
                assert(old(self).pending(j).len() < BATCH_SIZE);
            }
        }
        r
    }

    /// Defers a guide cross-reference until every guide has been written.
    pub fn defer_xref(&mut self, parent_link: String, child_link: String)
        ensures
            final(self).deferred() == old(self).deferred().push((parent_link@, child_link@)),
            forall|j: NGLDataKind| #[trigger] final(self).pending(j) == old(self).pending(j),
            final(self).counters() == old(self).counters(),
    {
        let ghost before = self.xrefs@;
        self.xrefs.push((parent_link, child_link));
        proof {
            assert(self.xrefs@ == before.push((parent_link, child_link)));
            assert(self.deferred() =~= old(self).deferred().push((parent_link@, child_link@)));
        }
    }

    /// Records that `n` rows of kind `k` were written.
    pub fn record_written(&mut self, k: NGLDataKind, n: u64)
        ensures
            forall|j: NGLDataKind| #[trigger]
                final(self).counters().of(j) == if j == k {
                    old(self).counters().of(j).saturating_add(n)
                } else {
                    old(self).counters().of(j)
                },
            forall|j: NGLDataKind| #[trigger] final(self).pending(j) == old(self).pending(j),
            final(self).deferred() == old(self).deferred(),
    {
        self.counts.add(k, n);
    }

    /// The counters as they stand.
    pub fn snapshot(&self) -> (r: SyncCounts)
        ensures
            r == self.counters(),
    {
        self.counts
    }

    /// Closes the consumer: the rows still waiting, as one batch per non-empty kind in
    /// the order `Function, Example, Guide, Option, Package, Type`, then the deferred
    /// cross-references in the order they came.
    pub fn finish(self) -> (r: (Vec<Batch<T>>, Vec<(String, String)>))
        ensures
            batches_view(r.0@) == residual(NGLDataKind::Function, self.pending(NGLDataKind::Function))
                + residual(NGLDataKind::Example, self.pending(NGLDataKind::Example)) + residual(
                NGLDataKind::Guide,
                self.pending(NGLDataKind::Guide),
            ) + residual(NGLDataKind::Option, self.pending(NGLDataKind::Option)) + residual(
                NGLDataKind::Package,
                self.pending(NGLDataKind::Package),
            ) + residual(NGLDataKind::Type, self.pending(NGLDataKind::Type)),
            r.1@.map_values(|x: (String, String)| (x.0@, x.1@)) == self.deferred(),
    {
        let ghost me = self;
        let Batcher { functions, examples, guides, options, packages, types, xrefs, counts: _ } =
            self;
        let mut out: Vec<Batch<T>> = Vec::new();
        push_residual(&mut out, NGLDataKind::Function, functions);
        push_residual(&mut out, NGLDataKind::Example, examples);
        push_residual(&mut out, NGLDataKind::Guide, guides);
        push_residual(&mut out, NGLDataKind::Option, options);
        push_residual(&mut out, NGLDataKind::Package, packages);
        push_residual(&mut out, NGLDataKind::Type, types);
        proof {
            assert(batches_view(out@) =~= residual(NGLDataKind::Function, me.pending(NGLDataKind::Function))
                + residual(NGLDataKind::Example, me.pending(NGLDataKind::Example)) + residual(
                NGLDataKind::Guide,
                me.pending(NGLDataKind::Guide),
            ) + residual(NGLDataKind::Option, me.pending(NGLDataKind::Option)) + residual(
                NGLDataKind::Package,
                me.pending(NGLDataKind::Package),
            ) + residual(NGLDataKind::Type, me.pending(NGLDataKind::Type)));
        }
        (out, xrefs)
    }
}

/// The batch left for kind `k` at close: one batch where rows wait, none otherwise.
pub open spec fn residual<T>(k: NGLDataKind, rows: Seq<T>) -> Seq<(NGLDataKind, Seq<T>)> {
    if rows.len() > 0 {
        seq![(k, rows)]
    } else {
        Seq::empty()
    }
}

fn push_residual<T>(out: &mut Vec<Batch<T>>, k: NGLDataKind, rows: Vec<T>)
    ensures
        batches_view(final(out)@) == batches_view(old(out)@) + residual(k, rows@),
{
    let ghost before = out@;
    if rows.len() > 0 {
        out.push(Batch { kind: k, rows });
        assert(batches_view(out@) =~= batches_view(before) + residual(k, rows@));
    } else {
        assert(batches_view(out@) =~= batches_view(before) + residual(k, rows@));
    }
}

/// The cross-reference row for a deferred `(parent, child)` pair, given the ids that
/// the two links resolved to; none where either link names no guide.
pub fn xref_row(parent: Option<i32>, child: Option<i32>) -> (r: Option<(i32, i32)>)
    ensures
        r == match (parent, child) {
            (Some(p), Some(c)) => Some((p, c)),
            _ => None::<(i32, i32)>,
        },
{
    match (parent, child) {
        (Some(p), Some(c)) => Some((p, c)),
        _ => None,
    }
}

} // verus!
