//! Recognition of the extended dialect's statements.
//!
//! Each statement has a pattern. The patterns are tried in a fixed order, and
//! the first that matches decides what the statement is.

use regex::Regex;
use vstd::prelude::*;

use crate::shim::{
    CreateChangefeedStmt, CreatePolicyStmt, CreateTemporalTableStmt, CreateTenantTableStmt,
    CustomStatement, DefineLabelStmt, DefineLevelStmt, DropChangefeedStmt, DropPolicyStmt,
    EnableAuditStmt, EncryptColumnStmt, ExplainPolicyStmt, ExportTenantStmt, ImportTenantStmt,
    PolicyOperation, RegisterSecureTableStmt, RestoreTableStmt, RotateKeyStmt,
    SetColumnSecurityStmt, SetContextStmt, SetTenantStmt,
};
use crate::text::{parse_i64, parsed_i64, str_eq, to_upper, trim_text, trimmed, uppercase};

verus! {

/// The statements that have a pattern.
#[derive(Debug, Clone, Copy, PartialEq, Eq, Structural)]
pub enum Kind {
    CreatePolicy,
    DropPolicy,
    SetContext,
    ClearContext,
    PushContext,
    PopContext,
    RefreshSecurityViews,
    RegisterSecureTable,
    DefineLabel,
    DefineLevel,
    SetColumnSecurity,
    CreateTenantTable,
    SetTenant,
    ExportTenant,
    ImportTenant,
    CreateTemporalTable,
    RestoreTable,
    CreateChangefeed,
    DropChangefeed,
    EncryptColumn,
    RotateEncryptionKey,
    EnableAudit,
    ExplainPolicy,
}

/// The groups that the leftmost match of `pattern` in `text` captured, the
/// whole match first; nothing where `Regex::new` refuses the pattern or the
/// pattern matches nowhere. A group that took no part in the match is `None`.
pub uninterp spec fn regex_captures(pattern: Seq<char>, text: Seq<char>) -> Option<
    Seq<Option<Seq<char>>>,
>;

/// The texts of captured groups.
pub open spec fn groups_view(groups: Seq<Option<String>>) -> Seq<Option<Seq<char>>> {
    Seq::new(
        groups.len(),
        |i: int|
            match groups[i] {
                Some(s) => Some(s@),
                None => None,
            },
    )
}

/// A compiled regular expression of the regex crate.
#[verifier::external_type_specification]
#[verifier::external_body]
pub struct ExRegex(Regex);

/// The pattern from which `Regex::new` made a compiled expression: what
/// `Regex::as_str` returns. Expressions are made here by `Regex::new` alone,
/// with no option set, so the pattern says all there is to say of one.
pub uninterp spec fn source_of(re: Regex) -> Seq<char>;

/// Whether `slot` is what compiling `pattern` gave: the compiled expression
/// of that pattern, or nothing for a pattern that was refused and so matches
/// nowhere.
pub open spec fn compiled_from(slot: Option<Regex>, pattern: Seq<char>) -> bool {
    match slot {
        Some(re) => source_of(re) == pattern,
        None => forall|text: Seq<char>| #[trigger] regex_captures(pattern, text) is None,
    }
}

/// Calls `Regex::new`.
///
/// Trusted: a compiled expression is that of the pattern it was made from,
/// and a pattern that was refused captures nothing in any text.
#[verifier::external_body]
fn compile(pattern: &str) -> (r: Option<Regex>)
    ensures
        r is Some ==> source_of(r->0) == pattern@,
        r is None ==> forall|text: Seq<char>| #[trigger] regex_captures(pattern@, text) is None,
{
    Regex::new(pattern).ok()
}

/// Calls `Regex::captures`.
///
/// Trusted: for an expression that `Regex::new` made, the result is what the
/// regex crate captures, which depends on the expression's pattern and the
/// text alone.
#[verifier::external_body]
fn captures(re: &Regex, text: &str) -> (r: Option<Vec<Option<String>>>)
    ensures
        match r {
            Some(groups) => regex_captures(source_of(*re), text@) == Some(groups_view(groups@)),
            None => regex_captures(source_of(*re), text@) is None,
        },
{
    let caps = re.captures(text)?;
    Some(caps.iter().map(|m| m.map(|m| m.as_str().to_string())).collect())
}

/// The patterns' number.
pub const KINDS: usize = 23;

/// The kinds in the order in which their patterns are tried.
pub open spec fn kind_at(i: int) -> Kind {
    if i == 0 {
        Kind::CreatePolicy
    } else if i == 1 {
        Kind::DropPolicy
    } else if i == 2 {
        Kind::SetContext
    } else if i == 3 {
        Kind::ClearContext
    } else if i == 4 {
        Kind::PushContext
    } else if i == 5 {
        Kind::PopContext
    } else if i == 6 {
        Kind::RefreshSecurityViews
    } else if i == 7 {
        Kind::RegisterSecureTable
    } else if i == 8 {
        Kind::DefineLabel
    } else if i == 9 {
        Kind::DefineLevel
    } else if i == 10 {
        Kind::SetColumnSecurity
    } else if i == 11 {
        Kind::CreateTenantTable
    } else if i == 12 {
        Kind::SetTenant
    } else if i == 13 {
        Kind::ExportTenant
    } else if i == 14 {
        Kind::ImportTenant
    } else if i == 15 {
        Kind::CreateTemporalTable
    } else if i == 16 {
        Kind::RestoreTable
    } else if i == 17 {
        Kind::CreateChangefeed
    } else if i == 18 {
        Kind::DropChangefeed
    } else if i == 19 {
        Kind::EncryptColumn
    } else if i == 20 {
        Kind::RotateEncryptionKey
    } else if i == 21 {
        Kind::EnableAudit
    } else {
        Kind::ExplainPolicy
    }
}

fn kind_of(i: usize) -> (r: Kind)
    ensures
        r == kind_at(i as int),
{
    if i == 0 {
        Kind::CreatePolicy
    } else if i == 1 {
        Kind::DropPolicy
    } else if i == 2 {
        Kind::SetContext
    } else if i == 3 {
        Kind::ClearContext
    } else if i == 4 {
        Kind::PushContext
    } else if i == 5 {
        Kind::PopContext
    } else if i == 6 {
        Kind::RefreshSecurityViews
    } else if i == 7 {
        Kind::RegisterSecureTable
    } else if i == 8 {
        Kind::DefineLabel
    } else if i == 9 {
        Kind::DefineLevel
    } else if i == 10 {
        Kind::SetColumnSecurity
    } else if i == 11 {
        Kind::CreateTenantTable
    } else if i == 12 {
        Kind::SetTenant
    } else if i == 13 {
        Kind::ExportTenant
    } else if i == 14 {
        Kind::ImportTenant
    } else if i == 15 {
        Kind::CreateTemporalTable
    } else if i == 16 {
        Kind::RestoreTable
    } else if i == 17 {
        Kind::CreateChangefeed
    } else if i == 18 {
        Kind::DropChangefeed
    } else if i == 19 {
        Kind::EncryptColumn
    } else if i == 20 {
        Kind::RotateEncryptionKey
    } else if i == 21 {
        Kind::EnableAudit
    } else {
        Kind::ExplainPolicy
    }
}

/// The pattern of each kind of statement. Case is ignored, and a statement
/// may end in a semicolon and be surrounded by white space.
pub open spec fn pattern_of(kind: Kind) -> Seq<char> {
    match kind {
        Kind::CreatePolicy => r"(?is)^\s*CREATE\s+POLICY\s+(\w+)\s+ON\s+(\w+)(?:\s+FOR\s+(SELECT|INSERT|UPDATE|DELETE|ALL))?\s+USING\s*\((.+)\)\s*;?\s*$"@,
        Kind::DropPolicy => r"(?is)^\s*DROP\s+POLICY\s+(\w+)\s+ON\s+(\w+)\s*;?\s*$"@,
        Kind::SetContext => r"(?is)^\s*SET\s+CONTEXT\s+(\w+)\s*=\s*'([^']+)'\s*;?\s*$"@,
        Kind::ClearContext => r"(?is)^\s*CLEAR\s+CONTEXT\s*;?\s*$"@,
        Kind::PushContext => r"(?is)^\s*PUSH\s+CONTEXT\s*;?\s*$"@,
        Kind::PopContext => r"(?is)^\s*POP\s+CONTEXT\s*;?\s*$"@,
        Kind::RefreshSecurityViews => r"(?is)^\s*REFRESH\s+SECURITY\s+VIEWS\s*;?\s*$"@,
        Kind::RegisterSecureTable => r"(?is)^\s*REGISTER\s+SECURE\s+TABLE\s+(\w+)\s+ON\s+(\w+)\s+WITH\s+ROW\s+LABEL\s+(\w+)(?:\s+TABLE\s+LABEL\s+'([^']+)')?(?:\s+INSERT\s+LABEL\s+'([^']+)')?\s*;?\s*$"@,
        Kind::DefineLabel => r"(?is)^\s*DEFINE\s+LABEL\s+'([^']+)'\s*;?\s*$"@,
        Kind::DefineLevel => r"(?is)^\s*DEFINE\s+LEVEL\s+(\w+)\s+'([^']+)'\s*=\s*(\d+)\s*;?\s*$"@,
        Kind::SetColumnSecurity => r"(?is)^\s*SET\s+COLUMN\s+SECURITY\s+(\w+)\.(\w+)(?:\s+READ\s+'([^']+)')?(?:\s+UPDATE\s+'([^']+)')?\s*;?\s*$"@,
        Kind::CreateTenantTable => r"(?is)^\s*CREATE\s+TENANT\s+TABLE\s+(\w+)\s*\((.+)\)\s*;?\s*$"@,
        Kind::SetTenant => r"(?is)^\s*SET\s+TENANT\s*=\s*'([^']+)'\s*;?\s*$"@,
        Kind::ExportTenant => r"(?is)^\s*EXPORT\s+TENANT\s+'([^']+)'(?:\s+TO\s+'([^']+)')?\s*;?\s*$"@,
        Kind::ImportTenant => r"(?is)^\s*IMPORT\s+TENANT\s+'([^']+)'(?:\s+FROM\s+'([^']+)')?\s*;?\s*$"@,
        Kind::CreateTemporalTable => r"(?is)^\s*CREATE\s+TEMPORAL\s+TABLE\s+(\w+)\s*\((.+)\)\s*;?\s*$"@,
        Kind::RestoreTable => r"(?is)^\s*RESTORE\s+(\w+)\s+TO\s+'([^']+)'(?:\s+WHERE\s+(.+))?\s*;?\s*$"@,
        Kind::CreateChangefeed => r"(?is)^\s*CREATE\s+CHANGEFEED\s+(\w+)\s+ON\s+(\w+)(?:\s+WHERE\s+(.+))?\s*;?\s*$"@,
        Kind::DropChangefeed => r"(?is)^\s*DROP\s+CHANGEFEED\s+(\w+)\s*;?\s*$"@,
        Kind::EncryptColumn => r"(?is)^\s*ENCRYPT\s+COLUMN\s+(\w+)\.(\w+)\s+WITH\s+KEY\s*\(\s*'([^']+)'\s*\)\s*;?\s*$"@,
        Kind::RotateEncryptionKey => r"(?is)^\s*ROTATE\s+ENCRYPTION\s+KEY(?:\s+FOR\s+(\w+))?\s*;?\s*$"@,
        Kind::EnableAudit => r"(?is)^\s*ENABLE\s+AUDIT\s+ON\s+(\w+)(?:\s+FOR\s+(SELECT|INSERT|UPDATE|DELETE|ALL)(?:\s*,\s*(SELECT|INSERT|UPDATE|DELETE|ALL))*)?\s*;?\s*$"@,
        Kind::ExplainPolicy => r"(?is)^\s*EXPLAIN\s+POLICY\s+ON\s+(\w+)\s+FOR\s+USER\s*=\s*'([^']+)'\s*;?\s*$"@,
    }
}

/// The pattern of a kind of statement.
pub fn pattern(kind: Kind) -> (r: &'static str)
    ensures
        r@ == pattern_of(kind),
{
    match kind {
        Kind::CreatePolicy => r"(?is)^\s*CREATE\s+POLICY\s+(\w+)\s+ON\s+(\w+)(?:\s+FOR\s+(SELECT|INSERT|UPDATE|DELETE|ALL))?\s+USING\s*\((.+)\)\s*;?\s*$",
        Kind::DropPolicy => r"(?is)^\s*DROP\s+POLICY\s+(\w+)\s+ON\s+(\w+)\s*;?\s*$",
        Kind::SetContext => r"(?is)^\s*SET\s+CONTEXT\s+(\w+)\s*=\s*'([^']+)'\s*;?\s*$",
        Kind::ClearContext => r"(?is)^\s*CLEAR\s+CONTEXT\s*;?\s*$",
        Kind::PushContext => r"(?is)^\s*PUSH\s+CONTEXT\s*;?\s*$",
        Kind::PopContext => r"(?is)^\s*POP\s+CONTEXT\s*;?\s*$",
        Kind::RefreshSecurityViews => r"(?is)^\s*REFRESH\s+SECURITY\s+VIEWS\s*;?\s*$",
        Kind::RegisterSecureTable => r"(?is)^\s*REGISTER\s+SECURE\s+TABLE\s+(\w+)\s+ON\s+(\w+)\s+WITH\s+ROW\s+LABEL\s+(\w+)(?:\s+TABLE\s+LABEL\s+'([^']+)')?(?:\s+INSERT\s+LABEL\s+'([^']+)')?\s*;?\s*$",
        Kind::DefineLabel => r"(?is)^\s*DEFINE\s+LABEL\s+'([^']+)'\s*;?\s*$",
        Kind::DefineLevel => r"(?is)^\s*DEFINE\s+LEVEL\s+(\w+)\s+'([^']+)'\s*=\s*(\d+)\s*;?\s*$",
        Kind::SetColumnSecurity => r"(?is)^\s*SET\s+COLUMN\s+SECURITY\s+(\w+)\.(\w+)(?:\s+READ\s+'([^']+)')?(?:\s+UPDATE\s+'([^']+)')?\s*;?\s*$",
        Kind::CreateTenantTable => r"(?is)^\s*CREATE\s+TENANT\s+TABLE\s+(\w+)\s*\((.+)\)\s*;?\s*$",
        Kind::SetTenant => r"(?is)^\s*SET\s+TENANT\s*=\s*'([^']+)'\s*;?\s*$",
        Kind::ExportTenant => r"(?is)^\s*EXPORT\s+TENANT\s+'([^']+)'(?:\s+TO\s+'([^']+)')?\s*;?\s*$",
        Kind::ImportTenant => r"(?is)^\s*IMPORT\s+TENANT\s+'([^']+)'(?:\s+FROM\s+'([^']+)')?\s*;?\s*$",
        Kind::CreateTemporalTable => r"(?is)^\s*CREATE\s+TEMPORAL\s+TABLE\s+(\w+)\s*\((.+)\)\s*;?\s*$",
        Kind::RestoreTable => r"(?is)^\s*RESTORE\s+(\w+)\s+TO\s+'([^']+)'(?:\s+WHERE\s+(.+))?\s*;?\s*$",
        Kind::CreateChangefeed => r"(?is)^\s*CREATE\s+CHANGEFEED\s+(\w+)\s+ON\s+(\w+)(?:\s+WHERE\s+(.+))?\s*;?\s*$",
        Kind::DropChangefeed => r"(?is)^\s*DROP\s+CHANGEFEED\s+(\w+)\s*;?\s*$",
        Kind::EncryptColumn => r"(?is)^\s*ENCRYPT\s+COLUMN\s+(\w+)\.(\w+)\s+WITH\s+KEY\s*\(\s*'([^']+)'\s*\)\s*;?\s*$",
        Kind::RotateEncryptionKey => r"(?is)^\s*ROTATE\s+ENCRYPTION\s+KEY(?:\s+FOR\s+(\w+))?\s*;?\s*$",
        Kind::EnableAudit => r"(?is)^\s*ENABLE\s+AUDIT\s+ON\s+(\w+)(?:\s+FOR\s+(SELECT|INSERT|UPDATE|DELETE|ALL)(?:\s*,\s*(SELECT|INSERT|UPDATE|DELETE|ALL))*)?\s*;?\s*$",
        Kind::ExplainPolicy => r"(?is)^\s*EXPLAIN\s+POLICY\s+ON\s+(\w+)\s+FOR\s+USER\s*=\s*'([^']+)'\s*;?\s*$",
    }
}

/// Group `i` of a match, if it took part in it.
pub open spec fn group(groups: Seq<Option<Seq<char>>>, i: int) -> Option<Seq<char>> {
    if 0 <= i < groups.len() {
        groups[i]
    } else {
        None
    }
}

/// The operation that a word names: `SELECT`, `INSERT`, `UPDATE` or `DELETE`
/// in any case; every other word means all of them.
pub open spec fn operation_of(word: Seq<char>) -> PolicyOperation {
    operation_named(uppercase(word))
}

/// The operation with this name, in upper case; all operations for any other
/// text.
pub open spec fn operation_named(upper: Seq<char>) -> PolicyOperation {
    if upper == "SELECT"@ {
        PolicyOperation::Select
    } else if upper == "INSERT"@ {
        PolicyOperation::Insert
    } else if upper == "UPDATE"@ {
        PolicyOperation::Update
    } else if upper == "DELETE"@ {
        PolicyOperation::Delete
    } else {
        PolicyOperation::All
    }
}

/// The operation that a word names.
pub fn parse_operation(s: &str) -> (r: PolicyOperation)
    ensures
        r == operation_of(s@),
{
    operation_by_name(to_upper(s).as_str())
}

/// The operation with this name, in upper case.
pub fn operation_by_name(upper: &str) -> (r: PolicyOperation)
    ensures
        r == operation_named(upper@),
{
    if str_eq(upper, "SELECT") {
        PolicyOperation::Select
    } else if str_eq(upper, "INSERT") {
        PolicyOperation::Insert
    } else if str_eq(upper, "UPDATE") {
        PolicyOperation::Update
    } else if str_eq(upper, "DELETE") {
        PolicyOperation::Delete
    } else {
        PolicyOperation::All
    }
}

/// How many of the groups from the first on a statement of this kind cannot
/// do without.
pub open spec fn required_groups(kind: Kind) -> int {
    match kind {
        Kind::CreatePolicy => 2,
        Kind::DropPolicy => 2,
        Kind::SetContext => 2,
        Kind::ClearContext => 0,
        Kind::PushContext => 0,
        Kind::PopContext => 0,
        Kind::RefreshSecurityViews => 0,
        Kind::RegisterSecureTable => 3,
        Kind::DefineLabel => 1,
        Kind::DefineLevel => 3,
        Kind::SetColumnSecurity => 2,
        Kind::CreateTenantTable => 2,
        Kind::SetTenant => 1,
        Kind::ExportTenant => 1,
        Kind::ImportTenant => 1,
        Kind::CreateTemporalTable => 2,
        Kind::RestoreTable => 2,
        Kind::CreateChangefeed => 2,
        Kind::DropChangefeed => 1,
        Kind::EncryptColumn => 3,
        Kind::RotateEncryptionKey => 0,
        Kind::EnableAudit => 1,
        Kind::ExplainPolicy => 2,
    }
}

/// Whether a match holds every group that a statement of this kind cannot do
/// without. (A policy also needs its fourth group, the expression.)
pub open spec fn complete(kind: Kind, groups: Seq<Option<Seq<char>>>) -> bool {
    (forall|i: int| 1 <= i <= required_groups(kind) ==> (#[trigger] group(groups, i)) is Some) && (
    kind == Kind::CreatePolicy ==> group(groups, 4) is Some)
}

/// The text of an optional string.
pub open spec fn text_of(s: Option<String>) -> Option<Seq<char>> {
    match s {
        Some(t) => Some(t@),
        None => None,
    }
}

/// The operations that an audit statement names: those of its second, third
/// and fourth groups, or all operations where it names none.
pub open spec fn audit_operations(groups: Seq<Option<Seq<char>>>) -> Seq<PolicyOperation> {
    let named = (if group(groups, 2) is Some {
        seq![operation_of(group(groups, 2)->0)]
    } else {
        Seq::<PolicyOperation>::empty()
    }) + (if group(groups, 3) is Some {
        seq![operation_of(group(groups, 3)->0)]
    } else {
        Seq::<PolicyOperation>::empty()
    }) + (if group(groups, 4) is Some {
        seq![operation_of(group(groups, 4)->0)]
    } else {
        Seq::<PolicyOperation>::empty()
    });
    if named.len() == 0 {
        seq![PolicyOperation::All]
    } else {
        named
    }
}

/// Whether `stmt` is the statement of kind `kind` that a match with these
/// groups stands for: each field is the text of its group.
pub open spec fn describes(
    stmt: CustomStatement,
    kind: Kind,
    groups: Seq<Option<Seq<char>>>,
) -> bool {
    match stmt {
        CustomStatement::CreatePolicy(p) => kind == Kind::CreatePolicy && Some(p.name@) == group(
            groups,
            1,
        ) && Some(p.table@) == group(groups, 2) && p.operation == (match group(groups, 3) {
            Some(w) => Some(operation_of(w)),
            None => None,
        }) && group(groups, 4) is Some && p.using_expr@ == trimmed(group(groups, 4)->0),
        CustomStatement::DropPolicy(p) => kind == Kind::DropPolicy && Some(p.name@) == group(
            groups,
            1,
        ) && Some(p.table@) == group(groups, 2),
        CustomStatement::SetContext(s) => kind == Kind::SetContext && Some(s.key@) == group(
            groups,
            1,
        ) && Some(s.value@) == group(groups, 2),
        CustomStatement::ClearContext => kind == Kind::ClearContext,
        CustomStatement::PushContext => kind == Kind::PushContext,
        CustomStatement::PopContext => kind == Kind::PopContext,
        CustomStatement::RefreshSecurityViews => kind == Kind::RefreshSecurityViews,
        CustomStatement::RegisterSecureTable(r) => kind == Kind::RegisterSecureTable && Some(
            r.logical_name@,
        ) == group(groups, 1) && Some(r.physical_name@) == group(groups, 2) && Some(
            r.row_label_column@,
        ) == group(groups, 3) && text_of(r.table_label) == group(groups, 4) && text_of(
            r.insert_label,
        ) == group(groups, 5),
        CustomStatement::DefineLabel(d) => kind == Kind::DefineLabel && Some(d.expr@) == group(
            groups,
            1,
        ),
        CustomStatement::DefineLevelStmt(d) => kind == Kind::DefineLevel && Some(d.attribute@)
            == group(groups, 1) && Some(d.name@) == group(groups, 2) && group(groups, 3) is Some
            && d.value == (match parsed_i64(group(groups, 3)->0) {
            Some(v) => v,
            None => 0,
        }),
        CustomStatement::SetColumnSecurity(s) => kind == Kind::SetColumnSecurity && Some(s.table@)
            == group(groups, 1) && Some(s.column@) == group(groups, 2) && text_of(s.read_label)
            == group(groups, 3) && text_of(s.update_label) == group(groups, 4),
        CustomStatement::CreateTenantTable(t) => kind == Kind::CreateTenantTable && Some(t.name@)
            == group(groups, 1) && Some(t.columns@) == group(groups, 2),
        CustomStatement::SetTenant(t) => kind == Kind::SetTenant && Some(t.tenant_id@) == group(
            groups,
            1,
        ),
        CustomStatement::ExportTenant(e) => kind == Kind::ExportTenant && Some(e.tenant_id@)
            == group(groups, 1) && text_of(e.path) == group(groups, 2),
        CustomStatement::ImportTenant(e) => kind == Kind::ImportTenant && Some(e.tenant_id@)
            == group(groups, 1) && text_of(e.path) == group(groups, 2),
        CustomStatement::CreateTemporalTable(t) => kind == Kind::CreateTemporalTable && Some(
            t.name@,
        ) == group(groups, 1) && Some(t.columns@) == group(groups, 2),
        CustomStatement::CreateSecureView(_) => false,
        CustomStatement::AsOfQuery(_) => false,
        CustomStatement::HistoryQuery(_) => false,
        CustomStatement::RestoreTable(r) => kind == Kind::RestoreTable && Some(r.table@) == group(
            groups,
            1,
        ) && Some(r.timestamp@) == group(groups, 2) && text_of(r.where_clause) == group(groups, 3),
        CustomStatement::CreateChangefeed(c) => kind == Kind::CreateChangefeed && Some(c.name@)
            == group(groups, 1) && Some(c.table@) == group(groups, 2) && text_of(c.filter) == group(
            groups,
            3,
        ),
        CustomStatement::DropChangefeed(d) => kind == Kind::DropChangefeed && Some(d.name@)
            == group(groups, 1),
        CustomStatement::EncryptColumn(e) => kind == Kind::EncryptColumn && Some(e.table@)
            == group(groups, 1) && Some(e.column@) == group(groups, 2) && Some(e.key_name@)
            == group(groups, 3),
        CustomStatement::RotateEncryptionKey(r) => kind == Kind::RotateEncryptionKey && text_of(
            r.table,
        ) == group(groups, 1),
        CustomStatement::EnableAudit(a) => kind == Kind::EnableAudit && Some(a.table@) == group(
            groups,
            1,
        ) && a.operations@ == audit_operations(groups),
        CustomStatement::ExplainPolicy(e) => kind == Kind::ExplainPolicy && Some(e.table@)
            == group(groups, 1) && Some(e.user@) == group(groups, 2),
    }
}

fn optional(groups: &Vec<Option<String>>, i: usize) -> (r: Option<String>)
    ensures
        text_of(r) == group(groups_view(groups@), i as int),
{
    if i < groups.len() {
        match &groups[i] {
            Some(s) => Some(s.clone()),
            None => None,
        }
    } else {
        None
    }
}

fn has_groups(groups: &Vec<Option<String>>, upto: usize) -> (r: bool)
    requires
        upto < usize::MAX,
    ensures
        r == (forall|i: int| 1 <= i <= upto ==> (#[trigger] group(groups_view(groups@), i)) is Some),
{
    let mut i: usize = 1;
    while i <= upto
        invariant
            1 <= i <= upto + 1,
            upto < usize::MAX,
            forall|j: int| 1 <= j < i ==> (#[trigger] group(groups_view(groups@), j)) is Some,
        decreases upto + 1 - i,
    {
        if optional(groups, i).is_none() {
            return false;
        }
        i += 1;
    }
    true
}

fn take(groups: &Vec<Option<String>>, i: usize) -> (r: String)
    requires
        group(groups_view(groups@), i as int) is Some,
    ensures
        Some(r@) == group(groups_view(groups@), i as int),
{
    match optional(groups, i) {
        Some(s) => s,
        None => String::new(),
    }
}

fn required_count(kind: Kind) -> (r: usize)
    ensures
        r == required_groups(kind),
{
    match kind {
        Kind::CreatePolicy => 2,
        Kind::DropPolicy => 2,
        Kind::SetContext => 2,
        Kind::ClearContext => 0,
        Kind::PushContext => 0,
        Kind::PopContext => 0,
        Kind::RefreshSecurityViews => 0,
        Kind::RegisterSecureTable => 3,
        Kind::DefineLabel => 1,
        Kind::DefineLevel => 3,
        Kind::SetColumnSecurity => 2,
        Kind::CreateTenantTable => 2,
        Kind::SetTenant => 1,
        Kind::ExportTenant => 1,
        Kind::ImportTenant => 1,
        Kind::CreateTemporalTable => 2,
        Kind::RestoreTable => 2,
        Kind::CreateChangefeed => 2,
        Kind::DropChangefeed => 1,
        Kind::EncryptColumn => 3,
        Kind::RotateEncryptionKey => 0,
        Kind::EnableAudit => 1,
        Kind::ExplainPolicy => 2,
    }
}

fn audit_ops(groups: &Vec<Option<String>>) -> (r: Vec<PolicyOperation>)
    ensures
        r@ == audit_operations(groups_view(groups@)),
{
    let mut ops: Vec<PolicyOperation> = Vec::new();
    match optional(groups, 2) {
        Some(w) => {
            ops.push(parse_operation(w.as_str()));
        },
        None => {},
    }
    match optional(groups, 3) {
        Some(w) => {
            ops.push(parse_operation(w.as_str()));
        },
        None => {},
    }
    match optional(groups, 4) {
        Some(w) => {
            ops.push(parse_operation(w.as_str()));
        },
        None => {},
    }
    if ops.len() == 0 {
        ops.push(PolicyOperation::All);
    }
    assert(ops@ =~= audit_operations(groups_view(groups@)));
    ops
}

/// The statement of kind `kind` that a match with these groups stands for;
/// nothing where the match lacks a group that the statement cannot do
/// without.
pub fn statement_from(kind: Kind, groups: &Vec<Option<String>>) -> (r: Option<CustomStatement>)
    ensures
        complete(kind, groups_view(groups@)) <==> r is Some,
        r is Some ==> describes(r->0, kind, groups_view(groups@)),
{
    if !has_groups(groups, required_count(kind)) {
        return None;
    }
    let stmt = match kind {
        Kind::CreatePolicy => {
            let expr = match optional(groups, 4) {
                Some(e) => e,
                None => { return None; },
            };
            let operation = match optional(groups, 3) {
                Some(w) => Some(parse_operation(w.as_str())),
                None => None,
            };
            CustomStatement::CreatePolicy(
                CreatePolicyStmt {
                    name: take(groups, 1),
                    table: take(groups, 2),
                    operation,
                    using_expr: trim_text(expr.as_str()).to_owned(),
                },
            )
        },
        Kind::DropPolicy => CustomStatement::DropPolicy(
            DropPolicyStmt { name: take(groups, 1), table: take(groups, 2) },
        ),
        Kind::SetContext => CustomStatement::SetContext(
            SetContextStmt { key: take(groups, 1), value: take(groups, 2) },
        ),
        Kind::ClearContext => CustomStatement::ClearContext,
        Kind::PushContext => CustomStatement::PushContext,
        Kind::PopContext => CustomStatement::PopContext,
        Kind::RefreshSecurityViews => CustomStatement::RefreshSecurityViews,
        Kind::RegisterSecureTable => CustomStatement::RegisterSecureTable(
            RegisterSecureTableStmt {
                logical_name: take(groups, 1),
                physical_name: take(groups, 2),
                row_label_column: take(groups, 3),
                table_label: optional(groups, 4),
                insert_label: optional(groups, 5),
            },
        ),
        Kind::DefineLabel => CustomStatement::DefineLabel(DefineLabelStmt { expr: take(groups, 1) }),
        Kind::DefineLevel => {
            let digits = take(groups, 3);
            let value = match parse_i64(digits.as_str()) {
                Some(v) => v,
                None => 0,
            };
            CustomStatement::DefineLevelStmt(
                DefineLevelStmt { attribute: take(groups, 1), name: take(groups, 2), value },
            )
        },
        Kind::SetColumnSecurity => CustomStatement::SetColumnSecurity(
            SetColumnSecurityStmt {
                table: take(groups, 1),
                column: take(groups, 2),
                read_label: optional(groups, 3),
                update_label: optional(groups, 4),
            },
        ),
        Kind::CreateTenantTable => CustomStatement::CreateTenantTable(
            CreateTenantTableStmt { name: take(groups, 1), columns: take(groups, 2) },
        ),
        Kind::SetTenant => CustomStatement::SetTenant(SetTenantStmt { tenant_id: take(groups, 1) }),
        Kind::ExportTenant => CustomStatement::ExportTenant(
            ExportTenantStmt { tenant_id: take(groups, 1), path: optional(groups, 2) },
        ),
        Kind::ImportTenant => CustomStatement::ImportTenant(
            ImportTenantStmt { tenant_id: take(groups, 1), path: optional(groups, 2) },
        ),
        Kind::CreateTemporalTable => CustomStatement::CreateTemporalTable(
            CreateTemporalTableStmt { name: take(groups, 1), columns: take(groups, 2) },
        ),
        Kind::RestoreTable => CustomStatement::RestoreTable(
            RestoreTableStmt {
                table: take(groups, 1),
                timestamp: take(groups, 2),
                where_clause: optional(groups, 3),
            },
        ),
        Kind::CreateChangefeed => CustomStatement::CreateChangefeed(
            CreateChangefeedStmt {
                name: take(groups, 1),
                table: take(groups, 2),
                filter: optional(groups, 3),
            },
        ),
        Kind::DropChangefeed => CustomStatement::DropChangefeed(
            DropChangefeedStmt { name: take(groups, 1) },
        ),
        Kind::EncryptColumn => CustomStatement::EncryptColumn(
            EncryptColumnStmt {
                table: take(groups, 1),
                column: take(groups, 2),
                key_name: take(groups, 3),
            },
        ),
        Kind::RotateEncryptionKey => CustomStatement::RotateEncryptionKey(
            RotateKeyStmt { table: optional(groups, 1) },
        ),
        Kind::EnableAudit => CustomStatement::EnableAudit(
            EnableAuditStmt { table: take(groups, 1), operations: audit_ops(groups) },
        ),
        Kind::ExplainPolicy => CustomStatement::ExplainPolicy(
            ExplainPolicyStmt { table: take(groups, 1), user: take(groups, 2) },
        ),
    };
    Some(stmt)
}

/// The first kind, from position `from` on, whose pattern matches `sql` with
/// every group that the kind cannot do without, and the groups of that match.
pub open spec fn first_match(sql: Seq<char>, from: int) -> Option<(Kind, Seq<Option<Seq<char>>>)>
    decreases KINDS - from,
{
    if from < 0 || from >= KINDS {
        None
    } else {
        let kind = kind_at(from);
        match regex_captures(pattern_of(kind), sql) {
            Some(groups) => if complete(kind, groups) {
                Some((kind, groups))
            } else {
                first_match(sql, from + 1)
            },
            None => first_match(sql, from + 1),
        }
    }
}

/// The statement that the groups captured for `kind` describe, where the
/// pattern of that kind, compiled into `slot`, matches `sql` with every group
/// the kind cannot do without.
fn match_kind(slot: &Option<Regex>, kind: Kind, sql: &str) -> (r: Option<CustomStatement>)
    requires
        compiled_from(*slot, pattern_of(kind)),
    ensures
        match regex_captures(pattern_of(kind), sql@) {
            Some(groups) => if complete(kind, groups) {
                r is Some && describes(r->0, kind, groups)
            } else {
                r is None
            },
            None => r is None,
        },
{
    match slot {
        Some(re) => match captures(re, sql) {
            Some(groups) => statement_from(kind, &groups),
            None => None,
        },
        None => None,
    }
}

/// Recognizes a statement of the extended dialect; nothing for a statement
/// that the engine reads itself. Each pattern is compiled as it is tried: a
/// caller with many statements keeps a `Patterns` instead.
pub fn parse(sql: &str) -> (r: Option<CustomStatement>)
    ensures
        match first_match(sql@, 0) {
            Some(found) => r is Some && describes(r->0, found.0, found.1),
            None => r is None,
        },
{
    let mut i: usize = 0;
    while i < KINDS
        invariant
            i <= KINDS,
            first_match(sql@, 0) == first_match(sql@, i as int),
        decreases KINDS - i,
    {
        let kind = kind_of(i);
        let slot = compile(pattern(kind));
        match match_kind(&slot, kind, sql) {
            Some(stmt) => {
                return Some(stmt);
            },
            None => {},
        }
        i += 1;
    }
    None
}

/// The patterns of all kinds, compiled once, in the order in which they are
/// tried.
pub struct Patterns {
    compiled: Vec<Option<Regex>>,
}

impl Patterns {
    #[verifier::type_invariant]
    spec fn well_formed(&self) -> bool {
        &&& self.compiled@.len() == KINDS
        &&& forall|i: int|
            0 <= i < KINDS ==> compiled_from(#[trigger] self.compiled@[i], pattern_of(kind_at(i)))
    }

    /// Compiles the pattern of every kind.
    pub fn new() -> (r: Patterns) {
        let mut compiled: Vec<Option<Regex>> = Vec::new();
        let mut i: usize = 0;
        while i < KINDS
            invariant
                i <= KINDS,
                compiled@.len() == i,
                forall|j: int|
                    0 <= j < i ==> compiled_from(#[trigger] compiled@[j], pattern_of(kind_at(j))),
            decreases KINDS - i,
        {
            let slot = compile(pattern(kind_of(i)));
            compiled.push(slot);
            i += 1;
        }
        Patterns { compiled }
    }

    /// Recognizes a statement of the extended dialect, as `parse` does, with
    /// the patterns that were compiled before.
    pub fn parse(&self, sql: &str) -> (r: Option<CustomStatement>)
        ensures
            match first_match(sql@, 0) {
                Some(found) => r is Some && describes(r->0, found.0, found.1),
                None => r is None,
            },
    {
        proof {
            use_type_invariant(self);
        }
        let mut i: usize = 0;
        while i < KINDS
            invariant
                i <= KINDS,
                self.well_formed(),
                first_match(sql@, 0) == first_match(sql@, i as int),
            decreases KINDS - i,
        {
            match match_kind(&self.compiled[i], kind_of(i), sql) {
                Some(stmt) => {
                    return Some(stmt);
                },
                None => {},
            }
            i += 1;
        }
        None
    }
}

} // verus!
