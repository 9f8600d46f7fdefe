//! The INSTEAD OF triggers through which a logical view is written.
//!
//! The triggers are the policy: every guard on a write is text generated
//! here and run by the database engine.

use vstd::prelude::*;

use crate::context::sec_ctx::SecurityContext;
use crate::label::define::{is_visible, visible, LabelRowView, LabelTable};
use crate::label::LevelTable;
use crate::text::{decimal, decimal_of, join, joined, views};
use crate::views::{column_views, SecColumn, SecColumnView, SecTable, SecTableView};

verus! {

/// The shapes in which a column's name enters a statement.
#[derive(Debug, Clone, Copy, PartialEq, Eq, Structural)]
pub enum Piece {
    /// `"c"`
    Quoted,
    /// `NEW."c"`
    New,
    /// `"c" = NEW."c"`
    Assign,
    /// `"c" = OLD."c"`
    MatchOld,
    /// `OLD."c" IS NOT NEW."c"`: true also where one of the two is NULL
    Changed,
}

/// A name in double quotes.
pub open spec fn quoted(name: Seq<char>) -> Seq<char> {
    "\""@ + name + "\""@
}

/// A column's name in the shape `kind`.
pub open spec fn piece(kind: Piece, name: Seq<char>) -> Seq<char> {
    match kind {
        Piece::Quoted => quoted(name),
        Piece::New => "NEW."@ + quoted(name),
        Piece::Assign => quoted(name) + " = NEW."@ + quoted(name),
        Piece::MatchOld => quoted(name) + " = OLD."@ + quoted(name),
        Piece::Changed => "OLD."@ + quoted(name) + " IS NOT NEW."@ + quoted(name),
    }
}

/// Each of the names in the shape `kind`, with `sep` between them.
pub open spec fn pieces(kind: Piece, names: Seq<Seq<char>>, sep: Seq<char>) -> Seq<char> {
    joined(Seq::new(names.len(), |i: int| piece(kind, names[i])), sep)
}

pub(crate) fn quote(name: &str) -> (r: String)
    ensures
        r@ == quoted(name@),
{
    let mut s = String::from_str("\"");
    s.append(name);
    s.append("\"");
    s
}

fn one_piece(kind: Piece, name: &str) -> (r: String)
    ensures
        r@ == piece(kind, name@),
{
    let q = quote(name);
    match kind {
        Piece::Quoted => q,
        Piece::New => {
            let mut s = String::from_str("NEW.");
            s.append(q.as_str());
            s
        },
        Piece::Assign => {
            let mut s = quote(name);
            s.append(" = NEW.");
            s.append(q.as_str());
            s
        },
        Piece::MatchOld => {
            let mut s = quote(name);
            s.append(" = OLD.");
            s.append(q.as_str());
            s
        },
        Piece::Changed => {
            let mut s = String::from_str("OLD.");
            s.append(q.as_str());
            s.append(" IS NOT NEW.");
            s.append(q.as_str());
            s
        },
    }
}

/// Each of the names in the shape `kind`, with `sep` between them.
pub fn join_pieces(kind: Piece, names: &Vec<String>, sep: &str) -> (r: String)
    ensures
        r@ == pieces(kind, views(names@), sep@),
{
    let mut parts: Vec<String> = Vec::new();
    let mut i: usize = 0;
    while i < names.len()
        invariant
            i <= names@.len(),
            parts@.len() == i,
            forall|j: int| 0 <= j < i ==> (#[trigger] parts@[j])@ == piece(kind, names@[j]@),
        decreases names@.len() - i,
    {
        parts.push(one_piece(kind, names[i].as_str()));
        i += 1;
    }
    assert(views(parts@) =~= Seq::new(
        views(names@).len(),
        |i: int| piece(kind, views(names@)[i]),
    ));
    join(&parts, sep)
}

/// The guard that every trigger begins with: abort unless the views were
/// built under the present context.
pub open spec fn refresh_guard_sql() -> Seq<char> {
    "SELECT CASE WHEN (SELECT value FROM sec_meta WHERE key = 'generation') != (SELECT value FROM sec_meta WHERE key = 'last_refresh_generation') THEN RAISE(ABORT, 'security views are stale: call sec_refresh_views()') END;"@
}

/// The freshness guard.
pub fn refresh_guard() -> (r: String)
    ensures
        r@ == refresh_guard_sql(),
{
    String::from_str(
        "SELECT CASE WHEN (SELECT value FROM sec_meta WHERE key = 'generation') != (SELECT value FROM sec_meta WHERE key = 'last_refresh_generation') THEN RAISE(ABORT, 'security views are stale: call sec_refresh_views()') END;",
    )
}

/// The guard against changing a primary key: abort if any key column's new
/// value differs from its old one.
pub open spec fn update_pk_guard_sql(pk_cols: Seq<Seq<char>>) -> Seq<char> {
    "SELECT CASE WHEN "@ + pieces(Piece::Changed, pk_cols, " OR "@)
        + " THEN RAISE(ABORT, 'cannot update primary key') END;"@
}

/// The primary-key guard of an UPDATE trigger.
pub fn update_pk_guard(pk_cols: &Vec<String>) -> (r: String)
    ensures
        r@ == update_pk_guard_sql(views(pk_cols@)),
{
    let mut s = String::from_str("SELECT CASE WHEN ");
    s.append(join_pieces(Piece::Changed, pk_cols, " OR ").as_str());
    s.append(" THEN RAISE(ABORT, 'cannot update primary key') END;");
    s
}

/// The guard on a row label that the user supplies: abort if the context
/// does not satisfy it.
pub open spec fn label_visible_guard_sql(row_label_col: Seq<char>) -> Seq<char> {
    "SELECT CASE WHEN NEW."@ + quoted(row_label_col) + " IS NOT NULL AND NOT sec_label_visible(NEW."@
        + quoted(row_label_col) + ") THEN RAISE(ABORT, 'row_label_col "@ + row_label_col
        + " not visible') END;"@
}

/// The visibility guard of an INSERT trigger.
pub fn label_visible_guard(row_label_col: &str) -> (r: String)
    ensures
        r@ == label_visible_guard_sql(row_label_col@),
{
    let q = quote(row_label_col);
    let mut s = String::from_str("SELECT CASE WHEN NEW.");
    s.append(q.as_str());
    s.append(" IS NOT NULL AND NOT sec_label_visible(NEW.");
    s.append(q.as_str());
    s.append(") THEN RAISE(ABORT, 'row_label_col ");
    s.append(row_label_col);
    s.append(" not visible') END;");
    s
}

/// The guard against changing a row's label: abort if the new label differs
/// from the old one.
pub open spec fn update_label_guard_sql(row_label_col: Seq<char>) -> Seq<char> {
    "SELECT CASE WHEN NEW."@ + quoted(row_label_col) + " IS NOT OLD."@ + quoted(row_label_col)
        + " THEN RAISE(ABORT, 'cannot update row_label_col "@ + row_label_col + "') END;"@
}

/// The row-label guard of an UPDATE trigger.
pub fn update_label_guard(row_label_col: &str) -> (r: String)
    ensures
        r@ == update_label_guard_sql(row_label_col@),
{
    let q = quote(row_label_col);
    let mut s = String::from_str("SELECT CASE WHEN NEW.");
    s.append(q.as_str());
    s.append(" IS NOT OLD.");
    s.append(q.as_str());
    s.append(" THEN RAISE(ABORT, 'cannot update row_label_col ");
    s.append(row_label_col);
    s.append("') END;");
    s
}

/// The guard against rows without a label of their own: abort if the user
/// supplied none and the table does not allow that.
pub open spec fn implicit_label_guard_sql(logical: Seq<char>, row_label_col: Seq<char>) -> Seq<char> {
    "SELECT CASE WHEN NEW."@ + quoted(row_label_col)
        + " IS NULL AND (SELECT allow_implicit_label FROM sec_tables WHERE logical_name = '"@
        + logical + "') = 0 THEN RAISE(ABORT, 'implicit row_label_col "@ + row_label_col
        + " not allowed') END;"@
}

/// The implicit-label guard of an INSERT trigger.
pub fn implicit_label_guard(logical: &str, row_label_col: &str) -> (r: String)
    ensures
        r@ == implicit_label_guard_sql(logical@, row_label_col@),
{
    let mut s = String::from_str("SELECT CASE WHEN NEW.");
    s.append(quote(row_label_col).as_str());
    s.append(" IS NULL AND (SELECT allow_implicit_label FROM sec_tables WHERE logical_name = '");
    s.append(logical);
    s.append("') = 0 THEN RAISE(ABORT, 'implicit row_label_col ");
    s.append(row_label_col);
    s.append(" not allowed') END;");
    s
}

/// The condition that picks the row a trigger acts on: every key column
/// equal to its old value.
pub open spec fn pk_where_old_sql(pk_cols: Seq<Seq<char>>) -> Seq<char> {
    pieces(Piece::MatchOld, pk_cols, " AND "@)
}

/// The row condition of an UPDATE or DELETE trigger.
pub fn pk_where_old(pk_cols: &Vec<String>) -> (r: String)
    ensures
        r@ == pk_where_old_sql(views(pk_cols@)),
{
    join_pieces(Piece::MatchOld, pk_cols, " AND ")
}

/// The guard on one column that the context may not update: abort if its
/// value would change.
pub open spec fn column_guard_sql(column: Seq<char>) -> Seq<char> {
    "SELECT CASE WHEN OLD."@ + quoted(column) + " IS NOT NEW."@ + quoted(column)
        + " THEN RAISE(ABORT, 'update denied on column "@ + column + "') END;"@
}

fn column_guard(column: &str) -> (r: String)
    ensures
        r@ == column_guard_sql(column@),
{
    let q = quote(column);
    let mut s = String::from_str("SELECT CASE WHEN OLD.");
    s.append(q.as_str());
    s.append(" IS NOT NEW.");
    s.append(q.as_str());
    s.append(" THEN RAISE(ABORT, 'update denied on column ");
    s.append(column);
    s.append("') END;");
    s
}

/// Whether a column of the table `logical` is guarded against update under
/// the context: it has an update label, and the context does not satisfy it.
pub open spec fn update_denied(
    column: SecColumnView,
    logical: Seq<char>,
    labels: Seq<LabelRowView>,
    levels: Map<Seq<char>, Map<Seq<char>, i64>>,
    ctx: Map<Seq<char>, Set<Seq<char>>>,
) -> bool {
    column.logical_table == logical && column.update_label_id is Some && !visible(
        labels,
        levels,
        column.update_label_id,
        ctx,
    )
}

/// The guards of the columns, in order, that may not be updated.
pub open spec fn denied_guards(
    columns: Seq<SecColumnView>,
    logical: Seq<char>,
    labels: Seq<LabelRowView>,
    levels: Map<Seq<char>, Map<Seq<char>, i64>>,
    ctx: Map<Seq<char>, Set<Seq<char>>>,
) -> Seq<Seq<char>>
    decreases columns.len(),
{
    if columns.len() == 0 {
        Seq::empty()
    } else if update_denied(columns.last(), logical, labels, levels, ctx) {
        denied_guards(columns.drop_last(), logical, labels, levels, ctx).push(
            column_guard_sql(columns.last().column_name),
        )
    } else {
        denied_guards(columns.drop_last(), logical, labels, levels, ctx)
    }
}

/// The column-update-policy guards of the table `logical`: one for each of
/// its columns whose update label the context does not satisfy.
pub fn column_update_policy_guards(
    columns: &Vec<SecColumn>,
    logical: &str,
    labels: &LabelTable,
    levels: &LevelTable,
    ctx: &SecurityContext,
) -> (r: String)
    ensures
        r@ == joined(denied_guards(column_views(columns@), logical@, labels@, levels@, ctx@), "\n"@),
{
    let mut guards: Vec<String> = Vec::new();
    let mut i: usize = 0;
    assert(column_views(columns@).take(0) =~= Seq::<SecColumnView>::empty());
    assert(views(guards@) =~= Seq::<Seq<char>>::empty());
    while i < columns.len()
        invariant
            i <= columns@.len(),
            views(guards@) == denied_guards(
                column_views(columns@).take(i as int),
                logical@,
                labels@,
                levels@,
                ctx@,
            ),
        decreases columns@.len() - i,
    {
        let col = &columns[i];
        proof {
            let next = column_views(columns@).take(i as int + 1);
            assert(next.drop_last() =~= column_views(columns@).take(i as int));
            assert(next.last() == col@);
        }
        let ghost before = views(guards@);
        if crate::text::str_eq(col.logical_table.as_str(), logical) && col.update_label_id.is_some()
            && !is_visible(labels, levels, col.update_label_id, ctx) {
            guards.push(column_guard(col.column_name.as_str()));
            assert(views(guards@) =~= before.push(column_guard_sql(col@.column_name)));
        }
        i += 1;
    }
    assert(column_views(columns@).take(columns@.len() as int) =~= column_views(columns@));
    join(&guards, "\n")
}

/// The label that an inserted row gets: the one the user supplied; else the
/// table's insert label if the context satisfies it; else the table's label;
/// else the label that is always true.
pub open spec fn row_label_sql(table: SecTableView) -> Seq<char> {
    if table.insert_label_id is Some {
        "COALESCE(NEW."@ + quoted(table.row_label_col)
            + ", (SELECT insert_label_id FROM sec_tables WHERE logical_name = '"@
            + table.logical_name
            + "' AND insert_label_id IS NOT NULL AND sec_label_visible(insert_label_id)), (SELECT table_label_id FROM sec_tables WHERE logical_name = '"@
            + table.logical_name + "'), 1)"@
    } else if table.table_label_id is Some {
        "COALESCE(NEW."@ + quoted(table.row_label_col) + ", "@ + decimal_of(
            table.table_label_id->0 as int,
        ) + ")"@
    } else {
        "COALESCE(NEW."@ + quoted(table.row_label_col) + ", 1)"@
    }
}

fn row_label(table: &SecTable) -> (r: String)
    ensures
        r@ == row_label_sql(table@),
{
    let mut s = String::from_str("COALESCE(NEW.");
    s.append(quote(table.row_label_col.as_str()).as_str());
    if table.insert_label_id.is_some() {
        s.append(", (SELECT insert_label_id FROM sec_tables WHERE logical_name = '");
        s.append(table.logical_name.as_str());
        s.append(
            "' AND insert_label_id IS NOT NULL AND sec_label_visible(insert_label_id)), (SELECT table_label_id FROM sec_tables WHERE logical_name = '",
        );
        s.append(table.logical_name.as_str());
        s.append("'), 1)");
    } else {
        match table.table_label_id {
            Some(id) => {
                s.append(", ");
                s.append(decimal(id).as_str());
                s.append(")");
            },
            None => {
                s.append(", 1)");
            },
        }
    }
    s
}

/// The columns that an INSERT trigger passes on: the visible ones but for the
/// row-label column, which the trigger sets itself.
pub open spec fn insertable(visible_cols: Seq<Seq<char>>, row_label_col: Seq<char>) -> Seq<Seq<char>> {
    visible_cols.filter(|c: Seq<char>| c != row_label_col)
}

fn without(names: &Vec<String>, name: &str) -> (r: Vec<String>)
    ensures
        views(r@) == insertable(views(names@), name@),
{
    let mut out: Vec<String> = Vec::new();
    let mut i: usize = 0;
    let ghost keep = |c: Seq<char>| c != name@;
    assert(views(names@).take(0) =~= Seq::<Seq<char>>::empty());
    assert(views(out@) =~= views(names@).take(0).filter(keep));
    while i < names.len()
        invariant
            i <= names@.len(),
            keep == (|c: Seq<char>| c != name@),
            views(out@) == views(names@).take(i as int).filter(keep),
        decreases names@.len() - i,
    {
        proof {
            let next = views(names@).take(i as int + 1);
            assert(next.drop_last() =~= views(names@).take(i as int));
            assert(next.last() == names@[i as int]@);
            reveal(Seq::filter);
        }
        let ghost before = views(out@);
        if !crate::text::str_eq(names[i].as_str(), name) {
            out.push(names[i].clone());
            assert(views(out@) =~= before.push(names@[i as int]@));
        }
        i += 1;
    }
    assert(views(names@).take(names@.len() as int) =~= views(names@));
    out
}

/// The INSTEAD OF INSERT trigger of a table. Its guards, in order:
/// freshness, implicit label, visibility of a supplied label. Then the row is
/// inserted into the physical table under the label of `row_label_sql`.
pub open spec fn insert_trigger_sql(table: SecTableView, visible_cols: Seq<Seq<char>>) -> Seq<char> {
    let cols = insertable(visible_cols, table.row_label_col);
    "DROP TRIGGER IF EXISTS "@ + quoted(table.logical_name + "_sec_ins"@) + ";\nCREATE TEMP TRIGGER "@
        + quoted(table.logical_name + "_sec_ins"@) + "\nINSTEAD OF INSERT ON "@ + quoted(
        table.logical_name,
    ) + "\nBEGIN\n"@ + refresh_guard_sql() + "\n"@ + implicit_label_guard_sql(
        table.logical_name,
        table.row_label_col,
    ) + "\n"@ + label_visible_guard_sql(table.row_label_col) + "\nINSERT INTO "@ + quoted(
        table.physical_name,
    ) + " ("@ + pieces(Piece::Quoted, seq![table.row_label_col] + cols, ", "@) + ")\nVALUES ("@
        + row_label_sql(table) + (if cols.len() == 0 {
        ""@
    } else {
        ", "@ + pieces(Piece::New, cols, ", "@)
    }) + ");\nEND;"@
}

fn trigger_name(logical: &str, suffix: &str) -> (r: String)
    ensures
        r@ == quoted(logical@ + suffix@),
{
    let mut n = String::from_str(logical);
    n.append(suffix);
    quote(n.as_str())
}

/// The INSTEAD OF INSERT trigger of a table.
pub fn create_insert_trigger(table: &SecTable, visible_cols: &Vec<String>) -> (r: String)
    ensures
        r@ == insert_trigger_sql(table@, views(visible_cols@)),
{
    let cols = without(visible_cols, table.row_label_col.as_str());
    let name = trigger_name(table.logical_name.as_str(), "_sec_ins");
    let mut all: Vec<String> = Vec::new();
    all.push(table.row_label_col.clone());
    let mut i: usize = 0;
    while i < cols.len()
        invariant
            i <= cols@.len(),
            views(all@) == seq![table.row_label_col@] + views(cols@).take(i as int),
        decreases cols@.len() - i,
    {
        let ghost before = views(all@);
        all.push(cols[i].clone());
        assert(views(all@) =~= before.push(cols@[i as int]@));
        assert(views(cols@).take(i as int + 1) =~= views(cols@).take(i as int).push(
            cols@[i as int]@,
        ));
        i += 1;
    }
    assert(views(cols@).take(cols@.len() as int) =~= views(cols@));
    let mut s = String::from_str("DROP TRIGGER IF EXISTS ");
    s.append(name.as_str());
    s.append(";\nCREATE TEMP TRIGGER ");
    s.append(name.as_str());
    s.append("\nINSTEAD OF INSERT ON ");
    s.append(quote(table.logical_name.as_str()).as_str());
    s.append("\nBEGIN\n");
    s.append(refresh_guard().as_str());
    s.append("\n");
    s.append(
        implicit_label_guard(table.logical_name.as_str(), table.row_label_col.as_str()).as_str(),
    );
    s.append("\n");
    s.append(label_visible_guard(table.row_label_col.as_str()).as_str());
    s.append("\nINSERT INTO ");
    s.append(quote(table.physical_name.as_str()).as_str());
    s.append(" (");
    s.append(join_pieces(Piece::Quoted, &all, ", ").as_str());
    s.append(")\nVALUES (");
    s.append(row_label(table).as_str());
    if cols.len() == 0 {
        proof {
            reveal_strlit("");
        }
        s.append("");
    } else {
        let mut rest = String::from_str(", ");
        rest.append(join_pieces(Piece::New, &cols, ", ").as_str());
        s.append(rest.as_str());
    }
    s.append(");\nEND;");
    s
}

/// The INSTEAD OF UPDATE trigger of a table. Its guards, in order: freshness,
/// primary key unchanged, row label unchanged, then `column_guards`. Then the
/// visible columns of the row with the old key are set, if the context
/// satisfies the row's label.
pub open spec fn update_trigger_sql(
    table: SecTableView,
    visible_cols: Seq<Seq<char>>,
    pk_cols: Seq<Seq<char>>,
    column_guards: Seq<char>,
) -> Seq<char> {
    "DROP TRIGGER IF EXISTS "@ + quoted(table.logical_name + "_sec_upd"@) + ";\nCREATE TEMP TRIGGER "@
        + quoted(table.logical_name + "_sec_upd"@) + "\nINSTEAD OF UPDATE ON "@ + quoted(
        table.logical_name,
    ) + "\nBEGIN\n"@ + refresh_guard_sql() + "\n"@ + update_pk_guard_sql(pk_cols) + "\n"@
        + update_label_guard_sql(table.row_label_col) + "\n"@ + column_guards + "\nUPDATE "@
        + quoted(table.physical_name) + "\nSET "@ + pieces(Piece::Assign, visible_cols, ", "@)
        + "\nWHERE "@ + pk_where_old_sql(pk_cols) + "\n  AND sec_label_visible("@ + quoted(
        table.row_label_col,
    ) + ");\nEND;"@
}

/// The INSTEAD OF UPDATE trigger of a table.
pub fn create_update_trigger(
    table: &SecTable,
    visible_cols: &Vec<String>,
    pk_cols: &Vec<String>,
    column_guards: &str,
) -> (r: String)
    ensures
        r@ == update_trigger_sql(table@, views(visible_cols@), views(pk_cols@), column_guards@),
{
    let name = trigger_name(table.logical_name.as_str(), "_sec_upd");
    let mut s = String::from_str("DROP TRIGGER IF EXISTS ");
    s.append(name.as_str());
    s.append(";\nCREATE TEMP TRIGGER ");
    s.append(name.as_str());
    s.append("\nINSTEAD OF UPDATE ON ");
    s.append(quote(table.logical_name.as_str()).as_str());
    s.append("\nBEGIN\n");
    s.append(refresh_guard().as_str());
    s.append("\n");
    s.append(update_pk_guard(pk_cols).as_str());
    s.append("\n");
    s.append(update_label_guard(table.row_label_col.as_str()).as_str());
    s.append("\n");
    s.append(column_guards);
    s.append("\nUPDATE ");
    s.append(quote(table.physical_name.as_str()).as_str());
    s.append("\nSET ");
    s.append(join_pieces(Piece::Assign, visible_cols, ", ").as_str());
    s.append("\nWHERE ");
    s.append(pk_where_old(pk_cols).as_str());
    s.append("\n  AND sec_label_visible(");
    s.append(quote(table.row_label_col.as_str()).as_str());
    s.append(");\nEND;");
    s
}

/// The INSTEAD OF DELETE trigger of a table: the freshness guard, then the
/// row with the old key is deleted, if the context satisfies its label.
pub open spec fn delete_trigger_sql(table: SecTableView, pk_cols: Seq<Seq<char>>) -> Seq<char> {
    "DROP TRIGGER IF EXISTS "@ + quoted(table.logical_name + "_sec_del"@) + ";\nCREATE TEMP TRIGGER "@
        + quoted(table.logical_name + "_sec_del"@) + "\nINSTEAD OF DELETE ON "@ + quoted(
        table.logical_name,
    ) + "\nBEGIN\n"@ + refresh_guard_sql() + "\nDELETE FROM "@ + quoted(table.physical_name)
        + "\nWHERE "@ + pk_where_old_sql(pk_cols) + "\n  AND sec_label_visible("@ + quoted(
        table.row_label_col,
    ) + ");\nEND;"@
}

/// The INSTEAD OF DELETE trigger of a table.
pub fn create_delete_trigger(table: &SecTable, pk_cols: &Vec<String>) -> (r: String)
    ensures
        r@ == delete_trigger_sql(table@, views(pk_cols@)),
{
    let name = trigger_name(table.logical_name.as_str(), "_sec_del");
    let mut s = String::from_str("DROP TRIGGER IF EXISTS ");
    s.append(name.as_str());
    s.append(";\nCREATE TEMP TRIGGER ");
    s.append(name.as_str());
    s.append("\nINSTEAD OF DELETE ON ");
    s.append(quote(table.logical_name.as_str()).as_str());
    s.append("\nBEGIN\n");
    s.append(refresh_guard().as_str());
    s.append("\nDELETE FROM ");
    s.append(quote(table.physical_name.as_str()).as_str());
    s.append("\nWHERE ");
    s.append(pk_where_old(pk_cols).as_str());
    s.append("\n  AND sec_label_visible(");
    s.append(quote(table.row_label_col.as_str()).as_str());
    s.append(");\nEND;");
    s
}

/// The three triggers of a table, in the order they are created: INSERT,
/// UPDATE, DELETE.
pub open spec fn write_triggers_sql(
    table: SecTableView,
    visible_cols: Seq<Seq<char>>,
    pk_cols: Seq<Seq<char>>,
    column_guards: Seq<char>,
) -> Seq<Seq<char>> {
    seq![
        insert_trigger_sql(table, visible_cols),
        update_trigger_sql(table, visible_cols, pk_cols, column_guards),
        delete_trigger_sql(table, pk_cols),
    ]
}

/// The three triggers of a table.
///
/// A table without a primary key has no triggers: the answer is then `None`.
pub fn create_write_triggers(
    table: &SecTable,
    visible_cols: &Vec<String>,
    pk_cols: &Vec<String>,
    column_guards: &str,
) -> (r: Option<Vec<String>>)
    ensures
        pk_cols@.len() == 0 ==> r is None,
        pk_cols@.len() > 0 ==> r is Some && views(r->0@) == write_triggers_sql(
            table@,
            views(visible_cols@),
            views(pk_cols@),
            column_guards@,
        ),
{
    if pk_cols.len() == 0 {
        return None;
    }
    let mut out: Vec<String> = Vec::new();
    out.push(create_insert_trigger(table, visible_cols));
    out.push(create_update_trigger(table, visible_cols, pk_cols, column_guards));
    out.push(create_delete_trigger(table, pk_cols));
    assert(views(out@) =~= write_triggers_sql(
        table@,
        views(visible_cols@),
        views(pk_cols@),
        column_guards@,
    ));
    Some(out)
}

} // verus!
