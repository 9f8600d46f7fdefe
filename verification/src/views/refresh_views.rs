//! The refresh of the logical views: for the present context, the statements
//! that drop or rebuild each view with its triggers.

use vstd::prelude::*;

use crate::context::sec_ctx::SecurityContext;
use crate::label::define::{is_visible, visible, LabelRowView, LabelTable};
use crate::label::LevelTable;
use crate::table::StrTable;
use crate::text::{str_eq, views};
use crate::views::register_table::Catalog;
use crate::views::write_triggers::{
    column_update_policy_guards, create_write_triggers, denied_guards, join_pieces, pieces, quote,
    quoted, write_triggers_sql, Piece,
};
use crate::views::{column_views, table_views, SecColumn, SecColumnView, SecTable, SecTableView};

verus! {

/// A registered table has no primary key, so no triggers can be written for
/// it.
#[derive(Debug)]
pub struct RefreshError {
    /// The logical name of the table.
    pub table: String,
}

/// The statement that drops a logical view.
pub open spec fn drop_view_sql(logical: Seq<char>) -> Seq<char> {
    "DROP VIEW IF EXISTS "@ + quoted(logical)
}

/// The statements that rebuild a logical view: the visible columns of the
/// physical table, for the rows whose label the context satisfies, and only
/// while the views are fresh.
pub open spec fn view_sql(table: SecTableView, visible_cols: Seq<Seq<char>>) -> Seq<char> {
    "DROP VIEW IF EXISTS "@ + quoted(table.logical_name) + ";\nCREATE TEMP VIEW "@ + quoted(
        table.logical_name,
    ) + " AS\nSELECT "@ + pieces(Piece::Quoted, visible_cols, ", "@) + "\nFROM "@ + quoted(
        table.physical_name,
    ) + "\nWHERE sec_assert_fresh()\n  AND sec_label_visible("@ + quoted(table.row_label_col)
        + ");"@
}

/// The statements that end a refresh: the views are as new as the context,
/// and they exist.
pub open spec fn meta_sql() -> Seq<char> {
    "INSERT OR REPLACE INTO sec_meta (key, value) VALUES ('last_refresh_generation', (SELECT value FROM sec_meta WHERE key = 'generation'));\nINSERT OR REPLACE INTO sec_meta (key, value) VALUES ('views_initialized', 1);"@
}

/// Whether the context may read a column of the table `logical`.
pub open spec fn readable(
    column: SecColumnView,
    logical: Seq<char>,
    labels: Seq<LabelRowView>,
    levels: Map<Seq<char>, Map<Seq<char>, i64>>,
    ctx: Map<Seq<char>, Set<Seq<char>>>,
) -> bool {
    column.logical_table == logical && visible(labels, levels, column.read_label_id, ctx)
}

/// The names of the columns of `logical`, in order, that the context may
/// read.
pub open spec fn visible_columns(
    columns: Seq<SecColumnView>,
    logical: Seq<char>,
    labels: Seq<LabelRowView>,
    levels: Map<Seq<char>, Map<Seq<char>, i64>>,
    ctx: Map<Seq<char>, Set<Seq<char>>>,
) -> Seq<Seq<char>>
    decreases columns.len(),
{
    if columns.len() == 0 {
        Seq::empty()
    } else if readable(columns.last(), logical, labels, levels, ctx) {
        visible_columns(columns.drop_last(), logical, labels, levels, ctx).push(
            columns.last().column_name,
        )
    } else {
        visible_columns(columns.drop_last(), logical, labels, levels, ctx)
    }
}

/// A column name is among the visible columns exactly when the registry holds
/// it for the table with a read label that the context satisfies.
pub proof fn lemma_visible_columns(
    columns: Seq<SecColumnView>,
    logical: Seq<char>,
    labels: Seq<LabelRowView>,
    levels: Map<Seq<char>, Map<Seq<char>, i64>>,
    ctx: Map<Seq<char>, Set<Seq<char>>>,
    name: Seq<char>,
)
    ensures
        visible_columns(columns, logical, labels, levels, ctx).contains(name) <==> exists|i: int|
            0 <= i < columns.len() && (#[trigger] columns[i]).column_name == name && readable(
                columns[i],
                logical,
                labels,
                levels,
                ctx,
            ),
    decreases columns.len(),
{
    if columns.len() > 0 {
        let rest = columns.drop_last();
        let got = visible_columns(columns, logical, labels, levels, ctx);
        let prev = visible_columns(rest, logical, labels, levels, ctx);
        lemma_visible_columns(rest, logical, labels, levels, ctx, name);
        if got.contains(name) {
            let x = got.index_of(name);
            if x < prev.len() {
                assert(prev[x] == name);
                let i = choose|i: int|
                    0 <= i < rest.len() && (#[trigger] rest[i]).column_name == name && readable(
                        rest[i],
                        logical,
                        labels,
                        levels,
                        ctx,
                    );
                assert(columns[i] == rest[i]);
            } else {
                assert(columns[columns.len() - 1].column_name == name);
            }
        }
        if exists|i: int|
            0 <= i < columns.len() && (#[trigger] columns[i]).column_name == name && readable(
                columns[i],
                logical,
                labels,
                levels,
                ctx,
            ) {
            let i = choose|i: int|
                0 <= i < columns.len() && (#[trigger] columns[i]).column_name == name && readable(
                    columns[i],
                    logical,
                    labels,
                    levels,
                    ctx,
                );
            if i < rest.len() {
                assert(rest[i] == columns[i]);
                let x = prev.index_of(name);
                assert(got[x] == name);
            } else {
                assert(got[got.len() - 1] == name);
            }
        }
    }
}

/// The statements for one table under the context, or nothing if the table
/// needs triggers and has no primary key.
///
/// A table whose label the context does not satisfy, or none of whose columns
/// it may read, loses its view. Any other gets its view rebuilt over the
/// readable columns, and its three triggers.
pub open spec fn view_statements(
    table: SecTableView,
    columns: Seq<SecColumnView>,
    pk_cols: Seq<Seq<char>>,
    labels: Seq<LabelRowView>,
    levels: Map<Seq<char>, Map<Seq<char>, i64>>,
    ctx: Map<Seq<char>, Set<Seq<char>>>,
) -> Option<Seq<Seq<char>>> {
    let cols = visible_columns(columns, table.logical_name, labels, levels, ctx);
    if !visible(labels, levels, table.table_label_id, ctx) || cols.len() == 0 {
        Some(seq![drop_view_sql(table.logical_name)])
    } else if pk_cols.len() == 0 {
        None
    } else {
        Some(
            seq![view_sql(table, cols)] + write_triggers_sql(
                table,
                cols,
                pk_cols,
                crate::text::joined(
                    denied_guards(columns, table.logical_name, labels, levels, ctx),
                    "\n"@,
                ),
            ),
        )
    }
}

fn drop_view(logical: &str) -> (r: String)
    ensures
        r@ == drop_view_sql(logical@),
{
    let mut s = String::from_str("DROP VIEW IF EXISTS ");
    s.append(quote(logical).as_str());
    s
}

fn create_view(table: &SecTable, visible_cols: &Vec<String>) -> (r: String)
    ensures
        r@ == view_sql(table@, views(visible_cols@)),
{
    let q = quote(table.logical_name.as_str());
    let p = quote(table.physical_name.as_str());
    let l = quote(table.row_label_col.as_str());
    let mut s = String::from_str("DROP VIEW IF EXISTS ");
    s.append(q.as_str());
    s.append(";\nCREATE TEMP VIEW ");
    s.append(q.as_str());
    s.append(" AS\nSELECT ");
    s.append(join_pieces(Piece::Quoted, visible_cols, ", ").as_str());
    s.append("\nFROM ");
    s.append(p.as_str());
    s.append("\nWHERE sec_assert_fresh()\n  AND sec_label_visible(");
    s.append(l.as_str());
    s.append(");");
    s
}

fn readable_columns(
    columns: &Vec<SecColumn>,
    logical: &str,
    labels: &LabelTable,
    levels: &LevelTable,
    ctx: &SecurityContext,
) -> (r: Vec<String>)
    ensures
        views(r@) == visible_columns(column_views(columns@), logical@, labels@, levels@, ctx@),
{
    let mut out: Vec<String> = Vec::new();
    let mut i: usize = 0;
    assert(column_views(columns@).take(0) =~= Seq::<SecColumnView>::empty());
    assert(views(out@) =~= Seq::<Seq<char>>::empty());
    while i < columns.len()
        invariant
            i <= columns@.len(),
            views(out@) == visible_columns(
                column_views(columns@).take(i as int),
                logical@,
                labels@,
                levels@,
                ctx@,
            ),
        decreases columns@.len() - i,
    {
        let col = &columns[i];
        proof {
            let next = column_views(columns@).take(i as int + 1);
            assert(next.drop_last() =~= column_views(columns@).take(i as int));
            assert(next.last() == col@);
        }
        let ghost before = views(out@);
        if str_eq(col.logical_table.as_str(), logical) && is_visible(
            labels,
            levels,
            col.read_label_id,
            ctx,
        ) {
            out.push(col.column_name.clone());
            assert(views(out@) =~= before.push(col@.column_name));
        }
        i += 1;
    }
    assert(column_views(columns@).take(columns@.len() as int) =~= column_views(columns@));
    out
}

/// The statements that bring one table's view and triggers in line with the
/// context.
pub fn refresh_single_view(
    table: &SecTable,
    columns: &Vec<SecColumn>,
    pk_cols: &Vec<String>,
    labels: &LabelTable,
    levels: &LevelTable,
    ctx: &SecurityContext,
) -> (r: Option<Vec<String>>)
    ensures
        match view_statements(
            table@,
            column_views(columns@),
            views(pk_cols@),
            labels@,
            levels@,
            ctx@,
        ) {
            Some(stmts) => r is Some && views(r->0@) == stmts,
            None => r is None,
        },
{
    let mut out: Vec<String> = Vec::new();
    if !is_visible(labels, levels, table.table_label_id, ctx) {
        out.push(drop_view(table.logical_name.as_str()));
        assert(views(out@) =~= seq![drop_view_sql(table@.logical_name)]);
        return Some(out);
    }
    let cols = readable_columns(columns, table.logical_name.as_str(), labels, levels, ctx);
    if cols.len() == 0 {
        out.push(drop_view(table.logical_name.as_str()));
        assert(views(out@) =~= seq![drop_view_sql(table@.logical_name)]);
        return Some(out);
    }
    let guards = column_update_policy_guards(
        columns,
        table.logical_name.as_str(),
        labels,
        levels,
        ctx,
    );
    let mut triggers = match create_write_triggers(table, &cols, pk_cols, guards.as_str()) {
        Some(t) => t,
        None => { return None; },
    };
    let ghost tv = views(triggers@);
    out.push(create_view(table, &cols));
    let ghost first = views(out@);
    out.append(&mut triggers);
    assert(views(out@) =~= first + tv);
    Some(out)
}

/// The primary key of the physical table `physical`, as `keys` holds it; no
/// columns where it holds none.
pub open spec fn key_of(keys: Map<Seq<char>, Vec<String>>, physical: Seq<char>) -> Seq<Seq<char>> {
    if keys.contains_key(physical) {
        views(keys[physical]@)
    } else {
        Seq::empty()
    }
}

/// The statements for the first `count` tables, in order; or the position of
/// the first table that needs triggers and has no primary key.
pub open spec fn tables_statements(
    tables: Seq<SecTableView>,
    count: nat,
    columns: Seq<SecColumnView>,
    keys: Map<Seq<char>, Vec<String>>,
    labels: Seq<LabelRowView>,
    levels: Map<Seq<char>, Map<Seq<char>, i64>>,
    ctx: Map<Seq<char>, Set<Seq<char>>>,
) -> Result<Seq<Seq<char>>, int>
    decreases count,
{
    if count == 0 {
        Ok(Seq::empty())
    } else {
        match tables_statements(tables, (count - 1) as nat, columns, keys, labels, levels, ctx) {
            Err(at) => Err(at),
            Ok(done) => match view_statements(
                tables[count - 1],
                columns,
                key_of(keys, tables[count - 1].physical_name),
                labels,
                levels,
                ctx,
            ) {
                Some(stmts) => Ok(done + stmts),
                None => Err(count - 1),
            },
        }
    }
}

/// What a refresh runs: the statements of every table, then the statements
/// that mark the views as fresh; or the position of the first table without
/// the primary key it needs.
pub open spec fn refresh_statements(
    tables: Seq<SecTableView>,
    columns: Seq<SecColumnView>,
    keys: Map<Seq<char>, Vec<String>>,
    labels: Seq<LabelRowView>,
    levels: Map<Seq<char>, Map<Seq<char>, i64>>,
    ctx: Map<Seq<char>, Set<Seq<char>>>,
) -> Result<Seq<Seq<char>>, int> {
    match tables_statements(tables, tables.len(), columns, keys, labels, levels, ctx) {
        Ok(stmts) => Ok(stmts.push(meta_sql())),
        Err(at) => Err(at),
    }
}

/// The statements that bring every view and trigger in line with the context,
/// to be run in one transaction.
///
/// `keys` holds the primary key of each physical table, in key order. The
/// refresh fails, naming the table, if a table that keeps its view has no
/// primary key there.
pub fn refresh_views(
    catalog: &Catalog,
    keys: &StrTable<Vec<String>>,
    labels: &LabelTable,
    levels: &LevelTable,
    ctx: &SecurityContext,
) -> (r: Result<Vec<String>, RefreshError>)
    ensures
        match refresh_statements(
            table_views(catalog.tables@),
            column_views(catalog.columns@),
            keys.map(),
            labels@,
            levels@,
            ctx@,
        ) {
            Ok(stmts) => r is Ok && views(r->Ok_0@) == stmts,
            Err(at) => r is Err && 0 <= at < catalog.tables@.len() && r->Err_0.table@
                == catalog.tables@[at]@.logical_name,
        },
{
    let mut out: Vec<String> = Vec::new();
    let no_key: Vec<String> = Vec::new();
    let mut i: usize = 0;
    assert(views(out@) =~= Seq::<Seq<char>>::empty());
    while i < catalog.tables.len()
        invariant
            i <= catalog.tables@.len(),
            no_key@.len() == 0,
            tables_statements(
                table_views(catalog.tables@),
                i as nat,
                column_views(catalog.columns@),
                keys.map(),
                labels@,
                levels@,
                ctx@,
            ) == Ok::<Seq<Seq<char>>, int>(views(out@)),
        decreases catalog.tables@.len() - i,
    {
        let table = &catalog.tables[i];
        let pk: &Vec<String> = match keys.get(table.physical_name.as_str()) {
            Some(k) => k,
            None => &no_key,
        };
        assert(views(pk@) =~= key_of(keys.map(), table@.physical_name));
        assert(table_views(catalog.tables@)[i as int] == table@);
        match refresh_single_view(table, &catalog.columns, pk, labels, levels, ctx) {
            None => {
                proof {
                    lemma_failure_stays(
                        table_views(catalog.tables@),
                        (i + 1) as nat,
                        catalog.tables@.len(),
                        column_views(catalog.columns@),
                        keys.map(),
                        labels@,
                        levels@,
                        ctx@,
                    );
                }
                return Err(RefreshError { table: table.logical_name.clone() });
            },
            Some(mut stmts) => {
                let ghost before = views(out@);
                let ghost added = views(stmts@);
                out.append(&mut stmts);
                assert(views(out@) =~= before + added);
            },
        }
        i += 1;
    }
    let ghost before = views(out@);
    out.push(
        String::from_str(
            "INSERT OR REPLACE INTO sec_meta (key, value) VALUES ('last_refresh_generation', (SELECT value FROM sec_meta WHERE key = 'generation'));\nINSERT OR REPLACE INTO sec_meta (key, value) VALUES ('views_initialized', 1);",
        ),
    );
    assert(views(out@) =~= before.push(meta_sql()));
    Ok(out)
}

proof fn lemma_failure_stays(
    tables: Seq<SecTableView>,
    failed: nat,
    count: nat,
    columns: Seq<SecColumnView>,
    keys: Map<Seq<char>, Vec<String>>,
    labels: Seq<LabelRowView>,
    levels: Map<Seq<char>, Map<Seq<char>, i64>>,
    ctx: Map<Seq<char>, Set<Seq<char>>>,
)
    requires
        failed <= count,
        tables_statements(tables, failed, columns, keys, labels, levels, ctx) is Err,
    ensures
        tables_statements(tables, count, columns, keys, labels, levels, ctx) == tables_statements(
            tables,
            failed,
            columns,
            keys,
            labels,
            levels,
            ctx,
        ),
    decreases count,
{
    if failed < count {
        lemma_failure_stays(tables, failed, (count - 1) as nat, columns, keys, labels, levels, ctx);
    }
}

} // verus!
