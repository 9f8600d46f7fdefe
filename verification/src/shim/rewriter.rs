//! The statements that take the place of the extended dialect's.

use vstd::prelude::*;

use crate::shim::{
    CreatePolicyStmt, CreateSecureViewStmt, CustomStatement, DefineLabelStmt, DefineLevelStmt,
    DropPolicyStmt, PolicyOperation, RegisterSecureTableStmt, SetColumnSecurityStmt,
    SetContextStmt,
};
use crate::text::{decimal, decimal_of, double_quotes, escaped};

verus! {

/// A text between single quotes, its own single quotes doubled.
pub open spec fn literal(s: Seq<char>) -> Seq<char> {
    "'"@ + escaped(s) + "'"@
}

/// A text as a string literal of SQL.
pub fn sql_literal(s: &str) -> (r: String)
    ensures
        r@ == literal(s@),
{
    let mut out = String::from_str("'");
    out.append(escape_sql_string(s).as_str());
    out.append("'");
    out
}

/// A text with every single quote doubled.
pub fn escape_sql_string(s: &str) -> (r: String)
    ensures
        r@ == escaped(s@),
{
    double_quotes(s)
}

/// The label expression of a policy: the expression as written.
pub fn policy_expr_to_label(expr: &str) -> (r: String)
    ensures
        r@ == expr@,
{
    expr.to_owned()
}

/// The name of an operation; where none is given, all are meant.
pub open spec fn operation_name(op: Option<PolicyOperation>) -> Seq<char> {
    match op {
        Some(PolicyOperation::Select) => "SELECT"@,
        Some(PolicyOperation::Insert) => "INSERT"@,
        Some(PolicyOperation::Update) => "UPDATE"@,
        Some(PolicyOperation::Delete) => "DELETE"@,
        _ => "ALL"@,
    }
}

/// The call that defines the label `expr` and yields its id.
pub open spec fn define_label_call(expr: Seq<char>) -> Seq<char> {
    "sec_define_label("@ + literal(expr) + ")"@
}

fn label_call(expr: &str) -> (r: String)
    ensures
        r@ == define_label_call(expr@),
{
    let mut s = String::from_str("sec_define_label(");
    s.append(sql_literal(expr).as_str());
    s.append(")");
    s
}

/// What takes the place of `CREATE POLICY`: the policy is stored, with the id
/// of its label, in a table made for the purpose.
pub open spec fn create_policy_sql(p: CreatePolicyStmt) -> Seq<char> {
    "CREATE TABLE IF NOT EXISTS __lazysql_policies (name TEXT NOT NULL, table_name TEXT NOT NULL, operation TEXT NOT NULL, label_id INTEGER NOT NULL, expr TEXT NOT NULL, PRIMARY KEY (name, table_name));\nINSERT OR REPLACE INTO __lazysql_policies (name, table_name, operation, label_id, expr) VALUES ("@
        + literal(p.name@) + ", "@ + literal(p.table@) + ", '"@ + operation_name(p.operation)
        + "', "@ + define_label_call(p.using_expr@) + ", "@ + literal(p.using_expr@) + ");"@
}

/// What takes the place of `CREATE POLICY`.
pub fn rewrite_create_policy(p: CreatePolicyStmt) -> (r: String)
    ensures
        r@ == create_policy_sql(p),
{
    let label_expr = policy_expr_to_label(p.using_expr.as_str());
    let op: &str = match p.operation {
        Some(PolicyOperation::Select) => "SELECT",
        Some(PolicyOperation::Insert) => "INSERT",
        Some(PolicyOperation::Update) => "UPDATE",
        Some(PolicyOperation::Delete) => "DELETE",
        _ => "ALL",
    };
    let mut s = String::from_str(
        "CREATE TABLE IF NOT EXISTS __lazysql_policies (name TEXT NOT NULL, table_name TEXT NOT NULL, operation TEXT NOT NULL, label_id INTEGER NOT NULL, expr TEXT NOT NULL, PRIMARY KEY (name, table_name));\nINSERT OR REPLACE INTO __lazysql_policies (name, table_name, operation, label_id, expr) VALUES (",
    );
    s.append(sql_literal(p.name.as_str()).as_str());
    s.append(", ");
    s.append(sql_literal(p.table.as_str()).as_str());
    s.append(", '");
    s.append(op);
    s.append("', ");
    s.append(label_call(label_expr.as_str()).as_str());
    s.append(", ");
    s.append(sql_literal(label_expr.as_str()).as_str());
    s.append(");");
    s
}

/// What takes the place of `DROP POLICY`.
pub open spec fn drop_policy_sql(p: DropPolicyStmt) -> Seq<char> {
    "DELETE FROM __lazysql_policies WHERE name = "@ + literal(p.name@) + " AND table_name = "@
        + literal(p.table@) + ";"@
}

/// What takes the place of `DROP POLICY`.
pub fn rewrite_drop_policy(p: DropPolicyStmt) -> (r: String)
    ensures
        r@ == drop_policy_sql(p),
{
    let mut s = String::from_str("DELETE FROM __lazysql_policies WHERE name = ");
    s.append(sql_literal(p.name.as_str()).as_str());
    s.append(" AND table_name = ");
    s.append(sql_literal(p.table.as_str()).as_str());
    s.append(";");
    s
}

/// What takes the place of `SET CONTEXT`: the attribute is set, and the views
/// are rebuilt at once.
pub open spec fn set_context_sql(c: SetContextStmt) -> Seq<char> {
    "SELECT sec_set_attr("@ + literal(c.key@) + ", "@ + literal(c.value@)
        + "); SELECT sec_refresh_views();"@
}

/// What takes the place of `SET CONTEXT`.
pub fn rewrite_set_context(c: SetContextStmt) -> (r: String)
    ensures
        r@ == set_context_sql(c),
{
    let mut s = String::from_str("SELECT sec_set_attr(");
    s.append(sql_literal(c.key.as_str()).as_str());
    s.append(", ");
    s.append(sql_literal(c.value.as_str()).as_str());
    s.append("); SELECT sec_refresh_views();");
    s
}

/// A label argument: the call that defines the label, or `NULL` for none.
pub open spec fn label_argument(label: Option<String>) -> Seq<char> {
    match label {
        Some(l) => define_label_call(l@),
        None => "NULL"@,
    }
}

fn label_arg(label: &Option<String>) -> (r: String)
    ensures
        r@ == label_argument(*label),
{
    match label {
        Some(l) => label_call(l.as_str()),
        None => String::from_str("NULL"),
    }
}

/// What takes the place of `REGISTER SECURE TABLE`.
pub open spec fn register_secure_table_sql(t: RegisterSecureTableStmt) -> Seq<char> {
    "SELECT sec_register_table("@ + literal(t.logical_name@) + ", "@ + literal(t.physical_name@)
        + ", "@ + literal(t.row_label_column@) + ", "@ + label_argument(t.table_label) + ", "@
        + label_argument(t.insert_label) + ");"@
}

/// What takes the place of `REGISTER SECURE TABLE`.
pub fn rewrite_register_secure_table(t: RegisterSecureTableStmt) -> (r: String)
    ensures
        r@ == register_secure_table_sql(t),
{
    let mut s = String::from_str("SELECT sec_register_table(");
    s.append(sql_literal(t.logical_name.as_str()).as_str());
    s.append(", ");
    s.append(sql_literal(t.physical_name.as_str()).as_str());
    s.append(", ");
    s.append(sql_literal(t.row_label_column.as_str()).as_str());
    s.append(", ");
    s.append(label_arg(&t.table_label).as_str());
    s.append(", ");
    s.append(label_arg(&t.insert_label).as_str());
    s.append(");");
    s
}

/// What takes the place of `DEFINE LABEL`.
pub open spec fn define_label_sql(d: DefineLabelStmt) -> Seq<char> {
    "SELECT "@ + define_label_call(d.expr@) + ";"@
}

/// What takes the place of `DEFINE LABEL`.
pub fn rewrite_define_label(d: DefineLabelStmt) -> (r: String)
    ensures
        r@ == define_label_sql(d),
{
    let mut s = String::from_str("SELECT ");
    s.append(label_call(d.expr.as_str()).as_str());
    s.append(";");
    s
}

/// What takes the place of `DEFINE LEVEL`.
pub open spec fn define_level_sql(d: DefineLevelStmt) -> Seq<char> {
    "SELECT sec_define_level("@ + literal(d.attribute@) + ", "@ + literal(d.name@) + ", "@
        + decimal_of(d.value as int) + ");"@
}

/// What takes the place of `DEFINE LEVEL`.
pub fn rewrite_define_level(d: DefineLevelStmt) -> (r: String)
    ensures
        r@ == define_level_sql(d),
{
    let mut s = String::from_str("SELECT sec_define_level(");
    s.append(sql_literal(d.attribute.as_str()).as_str());
    s.append(", ");
    s.append(sql_literal(d.name.as_str()).as_str());
    s.append(", ");
    s.append(decimal(d.value).as_str());
    s.append(");");
    s
}

/// The statement that sets one label of a column.
pub open spec fn column_label_sql(
    field: Seq<char>,
    label: Seq<char>,
    table: Seq<char>,
    column: Seq<char>,
) -> Seq<char> {
    "UPDATE sec_columns SET "@ + field + " = "@ + define_label_call(label)
        + "\nWHERE logical_table = "@ + literal(table) + " AND column_name = "@ + literal(column)
        + ";"@
}

fn column_label(field: &str, label: &str, table: &str, column: &str) -> (r: String)
    ensures
        r@ == column_label_sql(field@, label@, table@, column@),
{
    let mut s = String::from_str("UPDATE sec_columns SET ");
    s.append(field);
    s.append(" = ");
    s.append(label_call(label).as_str());
    s.append("\nWHERE logical_table = ");
    s.append(sql_literal(table).as_str());
    s.append(" AND column_name = ");
    s.append(sql_literal(column).as_str());
    s.append(";");
    s
}

/// What takes the place of `SET COLUMN SECURITY`: one statement for each
/// label given, the read label first; a statement that does nothing where
/// none is given.
pub open spec fn set_column_security_sql(c: SetColumnSecurityStmt) -> Seq<char> {
    match (c.read_label, c.update_label) {
        (Some(r), Some(u)) => column_label_sql("read_label_id"@, r@, c.table@, c.column@) + "\n"@
            + column_label_sql("update_label_id"@, u@, c.table@, c.column@),
        (Some(r), None) => column_label_sql("read_label_id"@, r@, c.table@, c.column@),
        (None, Some(u)) => column_label_sql("update_label_id"@, u@, c.table@, c.column@),
        (None, None) => "SELECT 1;"@,
    }
}

/// What takes the place of `SET COLUMN SECURITY`.
pub fn rewrite_set_column_security(c: SetColumnSecurityStmt) -> (r: String)
    ensures
        r@ == set_column_security_sql(c),
{
    let table = c.table.as_str();
    let column = c.column.as_str();
    match (&c.read_label, &c.update_label) {
        (Some(r), Some(u)) => {
            let mut s = column_label("read_label_id", r.as_str(), table, column);
            s.append("\n");
            s.append(column_label("update_label_id", u.as_str(), table, column).as_str());
            s
        },
        (Some(r), None) => column_label("read_label_id", r.as_str(), table, column),
        (None, Some(u)) => column_label("update_label_id", u.as_str(), table, column),
        (None, None) => String::from_str("SELECT 1;"),
    }
}

/// What takes the place of `CREATE SECURE VIEW`: a view over the query that
/// can be read only while the views are fresh.
pub open spec fn create_secure_view_sql(v: CreateSecureViewStmt) -> Seq<char> {
    "CREATE VIEW "@ + escaped(v.name@) + " AS\nSELECT * FROM ("@ + escaped(v.query@)
        + ")\nWHERE sec_assert_fresh();"@
}

/// What takes the place of `CREATE SECURE VIEW`.
pub fn rewrite_create_secure_view(v: CreateSecureViewStmt) -> (r: String)
    ensures
        r@ == create_secure_view_sql(v),
{
    let mut s = String::from_str("CREATE VIEW ");
    s.append(escape_sql_string(v.name.as_str()).as_str());
    s.append(" AS\nSELECT * FROM (");
    s.append(escape_sql_string(v.query.as_str()).as_str());
    s.append(")\nWHERE sec_assert_fresh();");
    s
}

/// What a statement without an implementation is answered with: one row that
/// names the statement.
pub open spec fn unsupported_sql(what: Seq<char>) -> Seq<char> {
    "SELECT '"@ + what + " is not supported' AS stub;"@
}

fn unsupported(what: &str) -> (r: String)
    ensures
        r@ == unsupported_sql(what@),
{
    let mut s = String::from_str("SELECT '");
    s.append(what);
    s.append(" is not supported' AS stub;");
    s
}

/// The statement that takes the place of `stmt`.
pub open spec fn rewrite_sql(stmt: CustomStatement) -> Seq<char> {
    match stmt {
        CustomStatement::CreatePolicy(p) => create_policy_sql(p),
        CustomStatement::DropPolicy(p) => drop_policy_sql(p),
        CustomStatement::SetContext(s) => set_context_sql(s),
        CustomStatement::ClearContext => "SELECT sec_clear_context();"@,
        CustomStatement::PushContext => "SELECT sec_push_context();"@,
        CustomStatement::PopContext => "SELECT sec_pop_context();"@,
        CustomStatement::RefreshSecurityViews => "SELECT sec_refresh_views();"@,
        CustomStatement::RegisterSecureTable(r) => register_secure_table_sql(r),
        CustomStatement::DefineLabel(d) => define_label_sql(d),
        CustomStatement::DefineLevelStmt(d) => define_level_sql(d),
        CustomStatement::SetColumnSecurity(s) => set_column_security_sql(s),
        CustomStatement::CreateSecureView(v) => create_secure_view_sql(v),
        CustomStatement::CreateTenantTable(_) => unsupported_sql("CREATE TENANT TABLE"@),
        CustomStatement::SetTenant(_) => unsupported_sql("SET TENANT"@),
        CustomStatement::ExportTenant(_) => unsupported_sql("EXPORT TENANT"@),
        CustomStatement::ImportTenant(_) => unsupported_sql("IMPORT TENANT"@),
        CustomStatement::CreateTemporalTable(_) => unsupported_sql("CREATE TEMPORAL TABLE"@),
        CustomStatement::AsOfQuery(_) => unsupported_sql("AS OF"@),
        CustomStatement::HistoryQuery(_) => unsupported_sql("HISTORY"@),
        CustomStatement::RestoreTable(_) => unsupported_sql("RESTORE"@),
        CustomStatement::CreateChangefeed(_) => unsupported_sql("CREATE CHANGEFEED"@),
        CustomStatement::DropChangefeed(_) => unsupported_sql("DROP CHANGEFEED"@),
        CustomStatement::EncryptColumn(_) => unsupported_sql("ENCRYPT COLUMN"@),
        CustomStatement::RotateEncryptionKey(_) => unsupported_sql("ROTATE ENCRYPTION KEY"@),
        CustomStatement::EnableAudit(_) => unsupported_sql("ENABLE AUDIT"@),
        CustomStatement::ExplainPolicy(_) => unsupported_sql("EXPLAIN POLICY"@),
    }
}

/// The statement that takes the place of `stmt`.
pub fn rewrite(stmt: CustomStatement) -> (r: String)
    ensures
        r@ == rewrite_sql(stmt),
{
    match stmt {
        CustomStatement::CreatePolicy(p) => rewrite_create_policy(p),
        CustomStatement::DropPolicy(p) => rewrite_drop_policy(p),
        CustomStatement::SetContext(s) => rewrite_set_context(s),
        CustomStatement::ClearContext => String::from_str("SELECT sec_clear_context();"),
        CustomStatement::PushContext => String::from_str("SELECT sec_push_context();"),
        CustomStatement::PopContext => String::from_str("SELECT sec_pop_context();"),
        CustomStatement::RefreshSecurityViews => String::from_str("SELECT sec_refresh_views();"),
        CustomStatement::RegisterSecureTable(r) => rewrite_register_secure_table(r),
        CustomStatement::DefineLabel(d) => rewrite_define_label(d),
        CustomStatement::DefineLevelStmt(d) => rewrite_define_level(d),
        CustomStatement::SetColumnSecurity(s) => rewrite_set_column_security(s),
        CustomStatement::CreateSecureView(v) => rewrite_create_secure_view(v),
        CustomStatement::CreateTenantTable(_) => unsupported("CREATE TENANT TABLE"),
        CustomStatement::SetTenant(_) => unsupported("SET TENANT"),
        CustomStatement::ExportTenant(_) => unsupported("EXPORT TENANT"),
        CustomStatement::ImportTenant(_) => unsupported("IMPORT TENANT"),
        CustomStatement::CreateTemporalTable(_) => unsupported("CREATE TEMPORAL TABLE"),
        CustomStatement::AsOfQuery(_) => unsupported("AS OF"),
        CustomStatement::HistoryQuery(_) => unsupported("HISTORY"),
        CustomStatement::RestoreTable(_) => unsupported("RESTORE"),
        CustomStatement::CreateChangefeed(_) => unsupported("CREATE CHANGEFEED"),
        CustomStatement::DropChangefeed(_) => unsupported("DROP CHANGEFEED"),
        CustomStatement::EncryptColumn(_) => unsupported("ENCRYPT COLUMN"),
        CustomStatement::RotateEncryptionKey(_) => unsupported("ROTATE ENCRYPTION KEY"),
        CustomStatement::EnableAudit(_) => unsupported("ENABLE AUDIT"),
        CustomStatement::ExplainPolicy(_) => unsupported("EXPLAIN POLICY"),
    }
}

} // verus!
