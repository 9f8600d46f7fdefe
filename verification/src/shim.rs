//! The statement shim: statements of the extended dialect, recognized and
//! rewritten into calls of the policy engine.

pub mod parser;
pub mod plugin;
pub mod rewriter;

use vstd::prelude::*;

verus! {

/// Every statement of the extended dialect.
#[derive(Debug, Clone)]
pub enum CustomStatement {
    /// `CREATE POLICY name ON table [FOR operation] USING (expr)`
    CreatePolicy(CreatePolicyStmt),
    /// `DROP POLICY name ON table`
    DropPolicy(DropPolicyStmt),
    /// `SET CONTEXT key = 'value'`
    SetContext(SetContextStmt),
    /// `CLEAR CONTEXT`
    ClearContext,
    /// `PUSH CONTEXT`
    PushContext,
    /// `POP CONTEXT`
    PopContext,
    /// `REFRESH SECURITY VIEWS`
    RefreshSecurityViews,
    /// `CREATE SECURE VIEW name AS SELECT ...`
    CreateSecureView(CreateSecureViewStmt),
    /// `REGISTER SECURE TABLE logical ON physical WITH ROW LABEL column
    /// [TABLE LABEL 'expr'] [INSERT LABEL 'expr']`
    RegisterSecureTable(RegisterSecureTableStmt),
    /// `DEFINE LABEL 'expr'`
    DefineLabel(DefineLabelStmt),
    /// `DEFINE LEVEL attr 'name' = value`
    DefineLevelStmt(DefineLevelStmt),
    /// `SET COLUMN SECURITY table.column [READ 'expr'] [UPDATE 'expr']`
    SetColumnSecurity(SetColumnSecurityStmt),
    /// `CREATE TENANT TABLE name (...)`
    CreateTenantTable(CreateTenantTableStmt),
    /// `SET TENANT = 'value'`
    SetTenant(SetTenantStmt),
    /// `EXPORT TENANT 'name' [TO 'path']`
    ExportTenant(ExportTenantStmt),
    /// `IMPORT TENANT 'name' [FROM 'path']`
    ImportTenant(ImportTenantStmt),
    /// `CREATE TEMPORAL TABLE name (...)`
    CreateTemporalTable(CreateTemporalTableStmt),
    /// `SELECT ... FROM table AS OF 'timestamp'`
    AsOfQuery(AsOfQueryStmt),
    /// `SELECT ... FROM table HISTORY [WHERE ...]`
    HistoryQuery(HistoryQueryStmt),
    /// `RESTORE table TO 'timestamp' [WHERE ...]`
    RestoreTable(RestoreTableStmt),
    /// `CREATE CHANGEFEED name ON table [WHERE ...]`
    CreateChangefeed(CreateChangefeedStmt),
    /// `DROP CHANGEFEED name`
    DropChangefeed(DropChangefeedStmt),
    /// `ENCRYPT COLUMN table.column WITH KEY('keyname')`
    EncryptColumn(EncryptColumnStmt),
    /// `ROTATE ENCRYPTION KEY [FOR table]`
    RotateEncryptionKey(RotateKeyStmt),
    /// `ENABLE AUDIT ON table [FOR operations]`
    EnableAudit(EnableAuditStmt),
    /// `EXPLAIN POLICY ON table FOR USER = 'name'`
    ExplainPolicy(ExplainPolicyStmt),
}

#[derive(Debug, Clone)]
pub struct CreatePolicyStmt {
    pub name: String,
    pub table: String,
    pub operation: Option<PolicyOperation>,
    pub using_expr: String,
}

/// What a policy applies to.
#[derive(Debug, Clone, Copy, PartialEq, Eq, Structural)]
pub enum PolicyOperation {
    Select,
    Insert,
    Update,
    Delete,
    All,
}

#[derive(Debug, Clone)]
pub struct DropPolicyStmt {
    pub name: String,
    pub table: String,
}

#[derive(Debug, Clone)]
pub struct SetContextStmt {
    pub key: String,
    pub value: String,
}

#[derive(Debug, Clone)]
pub struct CreateSecureViewStmt {
    pub name: String,
    pub query: String,
}

#[derive(Debug, Clone)]
pub struct RegisterSecureTableStmt {
    pub logical_name: String,
    pub physical_name: String,
    pub row_label_column: String,
    pub table_label: Option<String>,
    pub insert_label: Option<String>,
}

#[derive(Debug, Clone)]
pub struct DefineLabelStmt {
    pub expr: String,
}

#[derive(Debug, Clone)]
pub struct DefineLevelStmt {
    pub attribute: String,
    pub name: String,
    pub value: i64,
}

#[derive(Debug, Clone)]
pub struct SetColumnSecurityStmt {
    pub table: String,
    pub column: String,
    pub read_label: Option<String>,
    pub update_label: Option<String>,
}

#[derive(Debug, Clone)]
pub struct CreateTenantTableStmt {
    pub name: String,
    /// The column definitions, as written.
    pub columns: String,
}

#[derive(Debug, Clone)]
pub struct SetTenantStmt {
    pub tenant_id: String,
}

#[derive(Debug, Clone)]
pub struct ExportTenantStmt {
    pub tenant_id: String,
    pub path: Option<String>,
}

#[derive(Debug, Clone)]
pub struct ImportTenantStmt {
    pub tenant_id: String,
    pub path: Option<String>,
}

#[derive(Debug, Clone)]
pub struct CreateTemporalTableStmt {
    pub name: String,
    pub columns: String,
}

#[derive(Debug, Clone)]
pub struct AsOfQueryStmt {
    pub original_sql: String,
    pub table: String,
    pub timestamp: String,
}

#[derive(Debug, Clone)]
pub struct HistoryQueryStmt {
    pub table: String,
    pub where_clause: Option<String>,
}

#[derive(Debug, Clone)]
pub struct RestoreTableStmt {
    pub table: String,
    pub timestamp: String,
    pub where_clause: Option<String>,
}

#[derive(Debug, Clone)]
pub struct CreateChangefeedStmt {
    pub name: String,
    pub table: String,
    pub filter: Option<String>,
}

#[derive(Debug, Clone)]
pub struct DropChangefeedStmt {
    pub name: String,
}

#[derive(Debug, Clone)]
pub struct EncryptColumnStmt {
    pub table: String,
    pub column: String,
    pub key_name: String,
}

#[derive(Debug, Clone)]
pub struct RotateKeyStmt {
    pub table: Option<String>,
}

#[derive(Debug, Clone)]
pub struct EnableAuditStmt {
    pub table: String,
    pub operations: Vec<PolicyOperation>,
}

#[derive(Debug, Clone)]
pub struct ExplainPolicyStmt {
    pub table: String,
    pub user: String,
}

/// The statement that takes the place of `sql`, if `sql` is a statement of
/// the extended dialect; nothing for a statement the engine reads itself.
pub fn rewrite(sql: &str) -> (r: Option<String>)
    ensures
        match parser::first_match(sql@, 0) {
            Some(found) => r is Some && exists|stmt: CustomStatement| #[trigger]
                parser::describes(stmt, found.0, found.1) && r->0@ == rewriter::rewrite_sql(stmt),
            None => r is None,
        },
{
    match parser::parse(sql) {
        Some(stmt) => {
            let r = rewriter::rewrite(stmt);
            proof {
                let found = parser::first_match(sql@, 0)->0;
                assert(parser::describes(stmt, found.0, found.1));
            }
            Some(r)
        },
        None => None,
    }
}

/// The statement that takes the place of `sql`, as `rewrite` gives it, found
/// with patterns that were compiled before.
pub fn rewrite_with(patterns: &parser::Patterns, sql: &str) -> (r: Option<String>)
    ensures
        match parser::first_match(sql@, 0) {
            Some(found) => r is Some && exists|stmt: CustomStatement| #[trigger]
                parser::describes(stmt, found.0, found.1) && r->0@ == rewriter::rewrite_sql(stmt),
            None => r is None,
        },
{
    match patterns.parse(sql) {
        Some(stmt) => {
            let r = rewriter::rewrite(stmt);
            proof {
                let found = parser::first_match(sql@, 0)->0;
                assert(parser::describes(stmt, found.0, found.1));
            }
            Some(r)
        },
        None => None,
    }
}

} // verus!
