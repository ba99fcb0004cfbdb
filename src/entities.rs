use vstd::prelude::*;

use crate::channel::{Batch, Batcher};
use crate::kind::{DocumentationFormat, Language, NGLDataKind};

verus! {

/// A function's documentation, as a provider emits it.
#[derive(Debug, Clone)]
pub struct FunctionRow {
    pub provider_name: String,
    pub name: String,
    pub signature: Option<String>,
    pub format: DocumentationFormat,
    pub data: String,
    pub source_url: Option<String>,
    pub source_code_url: Option<String>,
    /// Alternative names, as a JSON list of strings.
    pub aliases: Option<String>,
}

/// A code example, standalone or extracted from a host.
#[derive(Debug, Clone)]
pub struct ExampleRow {
    pub provider_name: String,
    pub language: Option<Language>,
    pub data: String,
    pub source_kind: Option<NGLDataKind>,
    pub source_link: Option<String>,
}

/// A guide or a section of one.
#[derive(Debug, Clone)]
pub struct GuideRow {
    pub provider_name: String,
    pub link: String,
    pub title: String,
    pub format: DocumentationFormat,
    pub data: String,
}

/// A configuration option.
#[derive(Debug, Clone)]
pub struct OptionRow {
    pub provider_name: String,
    pub name: String,
    pub type_signature: Option<String>,
    pub default_value: Option<String>,
    pub format: DocumentationFormat,
    pub data: String,
}

/// A package.
#[derive(Debug, Clone)]
pub struct PackageRow {
    pub provider_name: String,
    pub name: String,
    pub version: Option<String>,
    pub format: DocumentationFormat,
    pub data: String,
    pub description: Option<String>,
    pub homepage: Option<String>,
    pub license: Option<String>,
    pub source_code_url: Option<String>,
    pub broken: bool,
    pub unfree: bool,
}

/// A type.
#[derive(Debug, Clone)]
pub struct TypeRow {
    pub provider_name: String,
    pub name: String,
    pub format: DocumentationFormat,
    pub data: String,
}

/// A row of any of the six kinds.
#[derive(Debug, Clone)]
pub enum EntityRow {
    Function(FunctionRow),
    Example(ExampleRow),
    Guide(GuideRow),
    Option(OptionRow),
    Package(PackageRow),
    Type(TypeRow),
}

/// The kind of a row.
pub open spec fn row_kind(r: EntityRow) -> NGLDataKind {
    match r {
        EntityRow::Function(_) => NGLDataKind::Function,
        EntityRow::Example(_) => NGLDataKind::Example,
        EntityRow::Guide(_) => NGLDataKind::Guide,
        EntityRow::Option(_) => NGLDataKind::Option,
        EntityRow::Package(_) => NGLDataKind::Package,
        EntityRow::Type(_) => NGLDataKind::Type,
    }
}

impl EntityRow {
    pub fn kind(&self) -> (r: NGLDataKind)
        ensures
            r == row_kind(*self),
    {
        match self {
            EntityRow::Function(_) => NGLDataKind::Function,
            EntityRow::Example(_) => NGLDataKind::Example,
            EntityRow::Guide(_) => NGLDataKind::Guide,
            EntityRow::Option(_) => NGLDataKind::Option,
            EntityRow::Package(_) => NGLDataKind::Package,
            EntityRow::Type(_) => NGLDataKind::Type,
        }
    }
}

/// An example attached to a host, with the key of the placeholder that stands for it
/// in the host's body.
#[derive(Debug, Clone)]
pub struct LinkedExample {
    pub placeholder_key: String,
    pub model: ExampleRow,
}

/// What a provider sends down its channel.
#[derive(Debug, Clone)]
pub enum ProviderEvent {
    Function(FunctionRow),
    FunctionWithExamples(FunctionRow, Vec<LinkedExample>),
    Example(ExampleRow),
    Guide(GuideRow),
    GuideWithExamples(GuideRow, Vec<LinkedExample>),
    /// Links a child guide to its parent, by their links: `(parent, child)`.
    GuideXref(String, String),
    Option(OptionRow),
    OptionWithExamples(OptionRow, Vec<LinkedExample>),
    Package(PackageRow),
    PackageWithExamples(PackageRow, Vec<LinkedExample>),
    Type(TypeRow),
    TypeWithExamples(TypeRow, Vec<LinkedExample>),
}

/// What the writer does with one event.
pub enum ConsumerAction {
    /// The event was gathered or deferred; nothing is written yet.
    Wait,
    /// Write this full batch.
    Write(Batch<EntityRow>),
    /// Write the host, then each example with a join row that carries its key.
    WriteLinked(EntityRow, Vec<LinkedExample>),
}

/// The row that a plain event carries, if it is plain.
pub open spec fn plain_row(e: ProviderEvent) -> Option<EntityRow> {
    match e {
        ProviderEvent::Function(m) => Some(EntityRow::Function(m)),
        ProviderEvent::Example(m) => Some(EntityRow::Example(m)),
        ProviderEvent::Guide(m) => Some(EntityRow::Guide(m)),
        ProviderEvent::Option(m) => Some(EntityRow::Option(m)),
        ProviderEvent::Package(m) => Some(EntityRow::Package(m)),
        ProviderEvent::Type(m) => Some(EntityRow::Type(m)),
        _ => None,
    }
}

/// The host and examples that a composite event carries, if it is composite.
pub open spec fn linked_parts(e: ProviderEvent) -> Option<(EntityRow, Seq<LinkedExample>)> {
    match e {
        ProviderEvent::FunctionWithExamples(m, xs) => Some((EntityRow::Function(m), xs@)),
        ProviderEvent::GuideWithExamples(m, xs) => Some((EntityRow::Guide(m), xs@)),
        ProviderEvent::OptionWithExamples(m, xs) => Some((EntityRow::Option(m), xs@)),
        ProviderEvent::PackageWithExamples(m, xs) => Some((EntityRow::Package(m), xs@)),
        ProviderEvent::TypeWithExamples(m, xs) => Some((EntityRow::Type(m), xs@)),
        _ => None,
    }
}

impl Batcher<EntityRow> {
    /// Takes one event: a plain row is gathered into its kind's batch, and a full batch
    /// is handed out to be written; a composite event is handed out to be written at
    /// once; a cross-reference is deferred until the channel closes.
    pub fn consume(&mut self, event: ProviderEvent) -> (r: ConsumerAction)
        requires
            old(self).wf(),
        ensures
            final(self).wf(),
            final(self).counters() == old(self).counters(),
            plain_row(event) is Some ==> ({
                let row = plain_row(event)->0;
                let k = row_kind(row);
                &&& final(self).deferred() == old(self).deferred()
                &&& forall|j: NGLDataKind| j != k ==> #[trigger] final(self).pending(j) == old(
                    self,
                ).pending(j)
                &&& old(self).pending(k).len() + 1 == crate::channel::BATCH_SIZE ==> (match r {
                    ConsumerAction::Write(b) => b.kind == k && b.rows@ == old(self).pending(k).push(
                        row,
                    ) && final(self).pending(k).len() == 0,
                    _ => false,
                })
                &&& old(self).pending(k).len() + 1 < crate::channel::BATCH_SIZE ==> r is Wait
                    && final(self).pending(k) == old(self).pending(k).push(row)
            }),
            linked_parts(event) is Some ==> ({
                &&& final(self).deferred() == old(self).deferred()
                &&& forall|j: NGLDataKind| #[trigger] final(self).pending(j) == old(self).pending(j)
                &&& match (r, linked_parts(event)) {
                    (ConsumerAction::WriteLinked(h, xs), Some((host, linked))) => h == host && xs@
                        == linked,
                    _ => false,
                }
            }),
            (match event {
                ProviderEvent::GuideXref(p, c) => {
                    &&& r is Wait
                    &&& final(self).deferred() == old(self).deferred().push((p@, c@))
                    &&& forall|j: NGLDataKind| #[trigger] final(self).pending(j) == old(
                        self,
                    ).pending(j)
                },
                _ => true,
            }),
    {
        match event {
            ProviderEvent::GuideXref(p, c) => {
                self.defer_xref(p, c);
                ConsumerAction::Wait
            },
            ProviderEvent::FunctionWithExamples(m, xs) => ConsumerAction::WriteLinked(
                EntityRow::Function(m),
                xs,
            ),
            ProviderEvent::GuideWithExamples(m, xs) => ConsumerAction::WriteLinked(
                EntityRow::Guide(m),
                xs,
            ),
            ProviderEvent::OptionWithExamples(m, xs) => ConsumerAction::WriteLinked(
                EntityRow::Option(m),
                xs,
            ),
            ProviderEvent::PackageWithExamples(m, xs) => ConsumerAction::WriteLinked(
                EntityRow::Package(m),
                xs,
            ),
            ProviderEvent::TypeWithExamples(m, xs) => ConsumerAction::WriteLinked(
                EntityRow::Type(m),
                xs,
            ),
            ProviderEvent::Function(m) => self.gather(EntityRow::Function(m)),
            ProviderEvent::Example(m) => self.gather(EntityRow::Example(m)),
            ProviderEvent::Guide(m) => self.gather(EntityRow::Guide(m)),
            ProviderEvent::Option(m) => self.gather(EntityRow::Option(m)),
            ProviderEvent::Package(m) => self.gather(EntityRow::Package(m)),
            ProviderEvent::Type(m) => self.gather(EntityRow::Type(m)),
        }
    }

    fn gather(&mut self, row: EntityRow) -> (r: ConsumerAction)
        requires
            old(self).wf(),
        ensures
            final(self).wf(),
            final(self).counters() == old(self).counters(),
            final(self).deferred() == old(self).deferred(),
            forall|j: NGLDataKind| j != row_kind(row) ==> #[trigger] final(self).pending(j) == old(
                self,
            ).pending(j),
            old(self).pending(row_kind(row)).len() + 1 == crate::channel::BATCH_SIZE ==> (match r {
                ConsumerAction::Write(b) => b.kind == row_kind(row) && b.rows@ == old(self).pending(
                    row_kind(row),
                ).push(row) && final(self).pending(row_kind(row)).len() == 0,
                _ => false,
            }),
            old(self).pending(row_kind(row)).len() + 1 < crate::channel::BATCH_SIZE ==> r is Wait
                && final(self).pending(row_kind(row)) == old(self).pending(row_kind(row)).push(row),
    {
        let k = row.kind();
        match self.push(k, row) {
            Some(rows) => ConsumerAction::Write(Batch { kind: k, rows }),
            None => ConsumerAction::Wait,
        }
    }
}

/// A join row between a host and one of its examples.
#[derive(Debug, Clone, PartialEq, Eq)]
pub struct ExampleLink {
    pub host_id: i32,
    pub example_id: i32,
    pub placeholder_key: String,
}

/// The join rows for a host written with its examples: the `i`-th example, written
/// under id `example_ids[i]`, is linked under its own placeholder key.
pub fn example_links(host_id: i32, examples: &Vec<LinkedExample>, example_ids: &Vec<i32>) -> (r:
    Vec<ExampleLink>)
    requires
        examples@.len() == example_ids@.len(),
    ensures
        r@.len() == examples@.len(),
        forall|i: int|
            0 <= i < r@.len() ==> #[trigger] r@[i].host_id == host_id && r@[i].example_id
                == example_ids@[i] && r@[i].placeholder_key@ == examples@[i].placeholder_key@,
{
    let mut r: Vec<ExampleLink> = Vec::new();
    let mut i: usize = 0;
    while i < examples.len()
        invariant
            examples@.len() == example_ids@.len(),
            0 <= i <= examples@.len(),
            r@.len() == i,
            forall|j: int|
                0 <= j < i ==> #[trigger] r@[j].host_id == host_id && r@[j].example_id
                    == example_ids@[j] && r@[j].placeholder_key@ == examples@[j].placeholder_key@,
        decreases examples@.len() - i,
    {
        let key = examples[i].placeholder_key.clone();
        assert(key@ == examples@[i as int].placeholder_key@);
        let ghost before = r@;
        r.push(ExampleLink { host_id, example_id: example_ids[i], placeholder_key: key });
        assert(r@ == before.push(ExampleLink { host_id, example_id: example_ids@[i as int], placeholder_key: key }));
        i = i + 1;
    }
    r
}

} // verus!
