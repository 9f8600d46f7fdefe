use lazysql::shim::parser::{
    operation_by_name, parse, parse_operation, pattern, statement_from, Kind,
};
use lazysql::shim::rewrite;
use lazysql::shim::rewriter::{escape_sql_string, rewrite as rewrite_statement, sql_literal};
use lazysql::shim::{
    CreateSecureViewStmt, CustomStatement, DefineLevelStmt, HistoryQueryStmt, PolicyOperation,
    SetColumnSecurityStmt,
};

#[test]
fn test_parse_create_policy() {
    let sql = "CREATE POLICY test_pol ON users FOR SELECT USING (role='admin');";
    let stmt = parse(sql).unwrap();
    match stmt {
        CustomStatement::CreatePolicy(p) => {
            assert_eq!(p.name, "test_pol");
            assert_eq!(p.table, "users");
            assert_eq!(p.operation, Some(PolicyOperation::Select));
            assert_eq!(p.using_expr, "role='admin'");
        }
        _ => panic!("Expected CreatePolicy"),
    }
}

#[test]
fn test_parse_set_context() {
    let sql = "SET CONTEXT role = 'admin';";
    let stmt = parse(sql).unwrap();
    match stmt {
        CustomStatement::SetContext(s) => {
            assert_eq!(s.key, "role");
            assert_eq!(s.value, "admin");
        }
        _ => panic!("Expected SetContext"),
    }
}

#[test]
fn test_parse_define_label() {
    let sql = "DEFINE LABEL 'role=admin&team=finance';";
    let stmt = parse(sql).unwrap();
    match stmt {
        CustomStatement::DefineLabel(d) => {
            assert_eq!(d.expr, "role=admin&team=finance");
        }
        _ => panic!("Expected DefineLabel"),
    }
}

#[test]
fn test_parse_create_tenant_table() {
    let sql = "CREATE TENANT TABLE invoices (id INTEGER PRIMARY KEY, amount REAL);";
    let stmt = parse(sql).unwrap();
    match stmt {
        CustomStatement::CreateTenantTable(t) => {
            assert_eq!(t.name, "invoices");
            assert!(t.columns.contains("id INTEGER PRIMARY KEY"));
        }
        _ => panic!("Expected CreateTenantTable"),
    }
}

#[test]
fn test_rewrite_create_policy() {
    let sql = "CREATE POLICY inv_pol ON invoices USING (has_role('finance'));";
    let rewritten = rewrite(sql).unwrap();
    assert!(rewritten.contains("__lazysql_policies"));
    assert!(rewritten.contains("sec_define_label"));
}

#[test]
fn test_passthrough_normal_sql() {
    let sql = "SELECT * FROM users WHERE id = 1;";
    assert!(rewrite(sql).is_none());
}

#[test]
fn rewrite_create_policy_exactly() {
    let sql = "create policy p1 on t1 for update using ( role='admin' ) ;";
    assert_eq!(
        rewrite(sql).unwrap(),
        "CREATE TABLE IF NOT EXISTS __lazysql_policies (name TEXT NOT NULL, table_name TEXT NOT NULL, operation TEXT NOT NULL, label_id INTEGER NOT NULL, expr TEXT NOT NULL, PRIMARY KEY (name, table_name));\nINSERT OR REPLACE INTO __lazysql_policies (name, table_name, operation, label_id, expr) VALUES ('p1', 't1', 'UPDATE', sec_define_label('role=''admin'''), 'role=''admin''');"
    );
}

#[test]
fn rewrite_context_statements() {
    assert_eq!(
        rewrite("SET CONTEXT role = 'admin'").unwrap(),
        "SELECT sec_set_attr('role', 'admin'); SELECT sec_refresh_views();"
    );
    assert_eq!(rewrite(" clear context ; ").unwrap(), "SELECT sec_clear_context();");
    assert_eq!(rewrite("PUSH CONTEXT").unwrap(), "SELECT sec_push_context();");
    assert_eq!(rewrite("POP CONTEXT;").unwrap(), "SELECT sec_pop_context();");
    assert_eq!(rewrite("REFRESH SECURITY VIEWS").unwrap(), "SELECT sec_refresh_views();");
    assert_eq!(
        rewrite("DROP POLICY p ON t").unwrap(),
        "DELETE FROM __lazysql_policies WHERE name = 'p' AND table_name = 't';"
    );
}

#[test]
fn rewrite_definitions() {
    assert_eq!(
        rewrite("DEFINE LABEL 'role=admin'").unwrap(),
        "SELECT sec_define_label('role=admin');"
    );
    assert_eq!(
        rewrite("DEFINE LEVEL clearance 'secret' = 2;").unwrap(),
        "SELECT sec_define_level('clearance', 'secret', 2);"
    );
    assert_eq!(
        rewrite("REGISTER SECURE TABLE customers ON __sec_customers WITH ROW LABEL row_label_id")
            .unwrap(),
        "SELECT sec_register_table('customers', '__sec_customers', 'row_label_id', NULL, NULL);"
    );
    assert_eq!(
        rewrite(
            "REGISTER SECURE TABLE c ON p WITH ROW LABEL l TABLE LABEL 'role=admin' INSERT LABEL 'true'"
        )
        .unwrap(),
        "SELECT sec_register_table('c', 'p', 'l', sec_define_label('role=admin'), sec_define_label('true'));"
    );
}

#[test]
fn rewrite_column_security() {
    assert_eq!(
        rewrite("SET COLUMN SECURITY customers.ssn READ 'role=admin' UPDATE 'role=root'").unwrap(),
        "UPDATE sec_columns SET read_label_id = sec_define_label('role=admin')\nWHERE logical_table = 'customers' AND column_name = 'ssn';\nUPDATE sec_columns SET update_label_id = sec_define_label('role=root')\nWHERE logical_table = 'customers' AND column_name = 'ssn';"
    );
    assert_eq!(
        rewrite("SET COLUMN SECURITY customers.ssn UPDATE 'role=root'").unwrap(),
        "UPDATE sec_columns SET update_label_id = sec_define_label('role=root')\nWHERE logical_table = 'customers' AND column_name = 'ssn';"
    );
    assert_eq!(rewrite("SET COLUMN SECURITY customers.ssn").unwrap(), "SELECT 1;");
    let none = SetColumnSecurityStmt {
        table: "t".to_string(),
        column: "c".to_string(),
        read_label: None,
        update_label: None,
    };
    assert_eq!(rewrite_statement(CustomStatement::SetColumnSecurity(none)), "SELECT 1;");
}

#[test]
fn rewrite_statements_without_a_pattern() {
    let view = CreateSecureViewStmt { name: "v".to_string(), query: "SELECT 'x'".to_string() };
    assert_eq!(
        rewrite_statement(CustomStatement::CreateSecureView(view)),
        "CREATE VIEW v AS\nSELECT * FROM (SELECT ''x'')\nWHERE sec_assert_fresh();"
    );
    let history = HistoryQueryStmt { table: "t".to_string(), where_clause: None };
    assert_eq!(
        rewrite_statement(CustomStatement::HistoryQuery(history)),
        "SELECT 'HISTORY is not supported' AS stub;"
    );
    let level = DefineLevelStmt { attribute: "a".to_string(), name: "n".to_string(), value: -12 };
    assert_eq!(
        rewrite_statement(CustomStatement::DefineLevelStmt(level)),
        "SELECT sec_define_level('a', 'n', -12);"
    );
}

#[test]
fn unsupported_statements_are_recognized() {
    assert_eq!(
        rewrite("SET TENANT = 'acme'").unwrap(),
        "SELECT 'SET TENANT is not supported' AS stub;"
    );
    match parse("ENABLE AUDIT ON orders FOR insert").unwrap() {
        CustomStatement::EnableAudit(a) => {
            assert_eq!(a.table, "orders");
            assert_eq!(a.operations, vec![PolicyOperation::Insert]);
        }
        _ => panic!("Expected EnableAudit"),
    }
    match parse("ENABLE AUDIT ON orders").unwrap() {
        CustomStatement::EnableAudit(a) => assert_eq!(a.operations, vec![PolicyOperation::All]),
        _ => panic!("Expected EnableAudit"),
    }
    match parse("ROTATE ENCRYPTION KEY FOR orders").unwrap() {
        CustomStatement::RotateEncryptionKey(r) => assert_eq!(r.table.as_deref(), Some("orders")),
        _ => panic!("Expected RotateEncryptionKey"),
    }
    match parse("RESTORE orders TO '2024-01-01' WHERE id = 1").unwrap() {
        CustomStatement::RestoreTable(r) => {
            assert_eq!(r.table, "orders");
            assert_eq!(r.timestamp, "2024-01-01");
            assert_eq!(r.where_clause.as_deref(), Some("id = 1"));
        }
        _ => panic!("Expected RestoreTable"),
    }
    match parse("ENCRYPT COLUMN t.c WITH KEY('k')").unwrap() {
        CustomStatement::EncryptColumn(e) => {
            assert_eq!((e.table.as_str(), e.column.as_str(), e.key_name.as_str()), ("t", "c", "k"))
        }
        _ => panic!("Expected EncryptColumn"),
    }
    match parse("EXPLAIN POLICY ON t FOR USER = 'bob'").unwrap() {
        CustomStatement::ExplainPolicy(e) => assert_eq!(e.user, "bob"),
        _ => panic!("Expected ExplainPolicy"),
    }
}

#[test]
fn define_level_value_out_of_range_is_zero() {
    match parse("DEFINE LEVEL a 'n' = 99999999999999999999").unwrap() {
        CustomStatement::DefineLevelStmt(d) => assert_eq!(d.value, 0),
        _ => panic!("Expected DefineLevel"),
    }
    match parse("DEFINE LEVEL a 'n' = 17").unwrap() {
        CustomStatement::DefineLevelStmt(d) => assert_eq!(d.value, 17),
        _ => panic!("Expected DefineLevel"),
    }
}

#[test]
fn statement_from_needs_its_groups() {
    let groups = vec![Some("x".to_string()), Some("n".to_string()), None];
    assert!(statement_from(Kind::DropPolicy, &groups).is_none());
    assert!(statement_from(Kind::DropChangefeed, &groups).is_some());
    assert!(statement_from(Kind::ClearContext, &Vec::new()).is_some());
    let full = vec![
        Some("whole".to_string()),
        Some("p".to_string()),
        Some("t".to_string()),
        None,
        Some("  a=b  ".to_string()),
    ];
    match statement_from(Kind::CreatePolicy, &full).unwrap() {
        CustomStatement::CreatePolicy(p) => {
            assert_eq!(p.operation, None);
            assert_eq!(p.using_expr, "a=b");
        }
        _ => panic!("Expected CreatePolicy"),
    }
}

#[test]
fn operations_by_name() {
    assert_eq!(parse_operation("select"), PolicyOperation::Select);
    assert_eq!(parse_operation("Insert"), PolicyOperation::Insert);
    assert_eq!(parse_operation("UPDATE"), PolicyOperation::Update);
    assert_eq!(parse_operation("delete"), PolicyOperation::Delete);
    assert_eq!(parse_operation("all"), PolicyOperation::All);
    assert_eq!(parse_operation("other"), PolicyOperation::All);
    assert_eq!(operation_by_name("SELECT"), PolicyOperation::Select);
    assert_eq!(operation_by_name("select"), PolicyOperation::All);
    assert_eq!(operation_by_name("DELETE"), PolicyOperation::Delete);
}

#[test]
fn literals_double_single_quotes() {
    assert_eq!(escape_sql_string("it's"), "it''s");
    assert_eq!(escape_sql_string("''"), "''''");
    assert_eq!(escape_sql_string("plain"), "plain");
    assert_eq!(sql_literal("o'k"), "'o''k'");
    assert!(pattern(Kind::PopContext).starts_with("(?is)"));
}
