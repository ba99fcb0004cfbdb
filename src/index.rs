use vstd::prelude::*;

use crate::kind::{kind_name, NGLDataKind};

verus! {

/// The table that holds the rows of a kind.
pub open spec fn table_of(k: NGLDataKind) -> Seq<char> {
    match k {
        NGLDataKind::Function => "functions"@,
        NGLDataKind::Example => "examples"@,
        NGLDataKind::Guide => "guides"@,
        NGLDataKind::Option => "options"@,
        NGLDataKind::Package => "packages"@,
        NGLDataKind::Type => "types"@,
    }
}

/// The columns a kind's rows give the search table's `title` and `content`.
pub open spec fn projection(k: NGLDataKind) -> (Seq<char>, Seq<char>) {
    match k {
        NGLDataKind::Function => ("name"@, "''"@),
        NGLDataKind::Example => ("''"@, "data"@),
        NGLDataKind::Guide => ("title"@, "''"@),
        NGLDataKind::Option => ("name"@, "''"@),
        NGLDataKind::Package => ("name"@, "name"@),
        NGLDataKind::Type => ("name"@, "data"@),
    }
}

/// The statement that copies a kind's rows into the search table.
pub open spec fn copy_statement(k: NGLDataKind) -> Seq<char> {
    "INSERT INTO ngl_search (entity_id, kind, provider_name, title, content) SELECT id, '"@
        + kind_name(k) + "', provider_name, "@ + projection(k).0 + ", "@ + projection(k).1
        + " FROM "@ + table_of(k)
}

/// The kinds in the order the search table is rebuilt.
pub open spec fn index_order() -> Seq<NGLDataKind> {
    seq![
        NGLDataKind::Function,
        NGLDataKind::Example,
        NGLDataKind::Guide,
        NGLDataKind::Option,
        NGLDataKind::Package,
        NGLDataKind::Type,
    ]
}

fn table_name(k: NGLDataKind) -> (r: &'static str)
    ensures
        r@ == table_of(k),
{
    match k {
        NGLDataKind::Function => "functions",
        NGLDataKind::Example => "examples",
        NGLDataKind::Guide => "guides",
        NGLDataKind::Option => "options",
        NGLDataKind::Package => "packages",
        NGLDataKind::Type => "types",
    }
}

fn projected_columns(k: NGLDataKind) -> (r: (&'static str, &'static str))
    ensures
        (r.0@, r.1@) == projection(k),
{
    match k {
        NGLDataKind::Function => ("name", "''"),
        NGLDataKind::Example => ("''", "data"),
        NGLDataKind::Guide => ("title", "''"),
        NGLDataKind::Option => ("name", "''"),
        NGLDataKind::Package => ("name", "name"),
        NGLDataKind::Type => ("name", "data"),
    }
}

/// The statement that copies the rows of kind `k` into the search table.
pub fn copy_into_index(k: NGLDataKind) -> (r: String)
    ensures
        r@ == copy_statement(k),
{
    let mut r = "INSERT INTO ngl_search (entity_id, kind, provider_name, title, content) SELECT id, '".to_owned();
    let name = k.name();
    r.append(name.as_str());
    r.append("', provider_name, ");
    let (title, content) = projected_columns(k);
    r.append(title);
    r.append(", ");
    r.append(content);
    r.append(" FROM ");
    r.append(table_name(k));
    r
}

/// The statements that rebuild the search table: empty it, then copy each kind's rows
/// in the order `Function, Example, Guide, Option, Package, Type`.
pub fn populate_fts5() -> (r: Vec<String>)
    ensures
        r@.len() == 7,
        r@[0]@ == "DELETE FROM ngl_search"@,
        forall|i: int| 0 <= i < 6 ==> #[trigger] r@[i + 1]@ == copy_statement(index_order()[i]),
{
    let r = vec![
        "DELETE FROM ngl_search".to_owned(),
        copy_into_index(NGLDataKind::Function),
        copy_into_index(NGLDataKind::Example),
        copy_into_index(NGLDataKind::Guide),
        copy_into_index(NGLDataKind::Option),
        copy_into_index(NGLDataKind::Package),
        copy_into_index(NGLDataKind::Type),
    ];
    assert forall|i: int| 0 <= i < 6 implies #[trigger] r@[i + 1]@ == copy_statement(index_order()[i]) by {
        if i == 0 {} else if i == 1 {} else if i == 2 {} else if i == 3 {} else if i == 4 {} else {}
    }
    r
}

/// One row of a content table, with the columns the search table draws on.
pub struct RowModel {
    pub id: int,
    pub provider: Seq<char>,
    pub name: Seq<char>,
    pub title: Seq<char>,
    pub data: Seq<char>,
}

/// One row of the search table: `(entity_id, kind, provider_name, title, content)`.
pub type SearchRow = (int, NGLDataKind, Seq<char>, Seq<char>, Seq<char>);

/// The value a projected column takes for a row.
pub open spec fn column_value(col: Seq<char>, r: RowModel) -> Seq<char> {
    if col == "name"@ {
        r.name
    } else if col == "title"@ {
        r.title
    } else if col == "data"@ {
        r.data
    } else {
        Seq::empty()
    }
}

/// The search row that a content row of kind `k` becomes.
pub open spec fn search_row(k: NGLDataKind, r: RowModel) -> SearchRow {
    (r.id, k, r.provider, column_value(projection(k).0, r), column_value(projection(k).1, r))
}

/// The search table after a rebuild from `tables`: each kind's rows, projected, in
/// rebuild order.
pub open spec fn rebuilt(tables: Map<NGLDataKind, Seq<RowModel>>, kinds: Seq<NGLDataKind>) -> Seq<
    SearchRow,
>
    decreases kinds.len(),
{
    if kinds.len() == 0 {
        Seq::empty()
    } else {
        rebuilt(tables, kinds.drop_last()) + tables[kinds.last()].map_values(
            |r: RowModel| search_row(kinds.last(), r),
        )
    }
}

/// The number of rows of the given kinds' tables.
pub open spec fn row_total(tables: Map<NGLDataKind, Seq<RowModel>>, kinds: Seq<NGLDataKind>) -> int
    decreases kinds.len(),
{
    if kinds.len() == 0 {
        0
    } else {
        row_total(tables, kinds.drop_last()) + tables[kinds.last()].len()
    }
}

proof fn lemma_rebuilt_len(tables: Map<NGLDataKind, Seq<RowModel>>, kinds: Seq<NGLDataKind>)
    ensures
        rebuilt(tables, kinds).len() == row_total(tables, kinds),
    decreases kinds.len(),
{
    if kinds.len() > 0 {
        lemma_rebuilt_len(tables, kinds.drop_last());
    }
}

/// After a rebuild the search table holds exactly as many rows as the six content
/// tables together.
pub proof fn law_reindex_row_count(tables: Map<NGLDataKind, Seq<RowModel>>)
    ensures
        rebuilt(tables, index_order()).len() == tables[NGLDataKind::Function].len()
            + tables[NGLDataKind::Example].len() + tables[NGLDataKind::Guide].len()
            + tables[NGLDataKind::Option].len() + tables[NGLDataKind::Package].len()
            + tables[NGLDataKind::Type].len(),
{
    lemma_rebuilt_len(tables, index_order());
    reveal_with_fuel(row_total, 7);
    let o = index_order();
    assert(o.drop_last().drop_last().drop_last().drop_last().drop_last().drop_last().len() == 0);
}

} // verus!
