use std::collections::HashSet;
use std::sync::{Arc, Mutex};

use rusqlite::functions::FunctionFlags;
use rusqlite::{Connection, Error, Result};

use lazysql::init::schema;
use lazysql::register::{PolicyError, Session};
use lazysql::table::StrTable;
use lazysql::views::primary_key::ColumnInfo;
use lazysql::views::register_table::{PhysicalTable, ValidationError};

/// A connection with the policy engine behind it: the engine decides, the
/// database stores and runs what the engine writes.
struct Engine {
    conn: Connection,
    session: Arc<Mutex<Session>>,
}

fn user_error(message: &str) -> Error {
    Error::UserFunctionError(message.to_string().into())
}

fn init_test_db() -> Result<Engine> {
    let conn = Connection::open_in_memory()?;
    conn.execute_batch(&schema())?;
    let session = Arc::new(Mutex::new(Session::new()));

    let shared = session.clone();
    conn.create_scalar_function("sec_assert_fresh", 0, FunctionFlags::SQLITE_UTF8, move |_| {
        match shared.lock().unwrap().assert_fresh() {
            Ok(v) => Ok(v),
            Err(_) => Err(user_error("security views are stale: call sec_refresh_views()")),
        }
    })?;
    let shared = session.clone();
    conn.create_scalar_function("sec_label_visible", 1, FunctionFlags::SQLITE_UTF8, move |ctx| {
        let id: Option<i64> = ctx.get(0)?;
        Ok(shared.lock().unwrap().label_visible(id))
    })?;
    Ok(Engine { conn, session })
}

impl Engine {
    fn sync_meta(&self) -> Result<()> {
        let session = self.session.lock().unwrap();
        self.conn.execute(
            "UPDATE sec_meta SET value = ?1 WHERE key = 'generation'",
            [session.meta.generation()],
        )?;
        Ok(())
    }

    fn set_attr(&self, key: &str, value: &str) -> Result<()> {
        self.session.lock().unwrap().set_attr(key, value).unwrap();
        self.sync_meta()
    }

    fn clear_context(&self) -> Result<()> {
        self.session.lock().unwrap().clear_context().unwrap();
        self.sync_meta()
    }

    fn define_label(&self, expr: &str) -> Result<i64> {
        let id = self.session.lock().unwrap().define_label(expr).unwrap();
        self.conn.execute(
            "INSERT OR IGNORE INTO sec_labels (id, expr) VALUES (?1, ?2)",
            (id, expr),
        )?;
        Ok(id)
    }

    fn describe(&self, physical: &str) -> Result<PhysicalTable> {
        let mut stmt = self.conn.prepare(&format!("PRAGMA table_info(\"{}\")", physical))?;
        let rows = stmt
            .query_map([], |row| Ok(ColumnInfo { name: row.get(1)?, pk: row.get(5)? }))?
            .collect::<Result<Vec<_>>>()?;
        let sql = self
            .conn
            .query_row("SELECT sql FROM sqlite_master WHERE type='table' AND name=?1", [physical], |r| {
                r.get::<_, Option<String>>(0)
            })
            .unwrap_or(None);
        Ok(PhysicalTable::from_columns(&rows, sql))
    }

    fn register_table(
        &self,
        logical: &str,
        physical: &str,
        row_label_col: &str,
        table_label_id: Option<i64>,
        insert_label_id: Option<i64>,
    ) -> std::result::Result<i64, PolicyError> {
        let found = self.describe(physical).unwrap();
        let done = self.session.lock().unwrap().register_table(
            logical,
            physical,
            row_label_col,
            table_label_id,
            insert_label_id,
            &found,
        )?;
        self.conn
            .execute(
                "INSERT OR REPLACE INTO sec_tables (logical_name, physical_name, row_label_col, table_label_id, insert_label_id) VALUES (?1, ?2, ?3, ?4, ?5)",
                (logical, physical, row_label_col, table_label_id, insert_label_id),
            )
            .unwrap();
        Ok(done)
    }

    fn set_column_labels(&self, logical: &str, column: &str, read: Option<i64>, update: Option<i64>) {
        assert!(self.session.lock().unwrap().catalog.set_column_security(logical, column, read, update));
    }

    fn allow_implicit_label(&self, logical: &str, allow: bool) -> Result<()> {
        self.conn.execute(
            "UPDATE sec_tables SET allow_implicit_label = ?1 WHERE logical_name = ?2",
            (allow as i64, logical),
        )?;
        Ok(())
    }

    fn refresh_views(&self) -> Result<()> {
        let mut session = self.session.lock().unwrap();
        let mut keys: StrTable<Vec<String>> = StrTable::new();
        let physical: Vec<String> =
            session.catalog.tables.iter().map(|t| t.physical_name.clone()).collect();
        drop(session);
        for name in physical {
            keys.insert(&name, self.describe(&name)?.primary_key);
        }
        session = self.session.lock().unwrap();
        let statements = session.refresh_views(&keys).map_err(|_| user_error("refresh failed"))?;
        drop(session);
        self.conn.execute_batch("BEGIN")?;
        for statement in &statements {
            if let Err(e) = self.conn.execute_batch(statement) {
                self.conn.execute_batch("ROLLBACK")?;
                return Err(e);
            }
        }
        self.conn.execute_batch("COMMIT")
    }
}

fn setup_test_data(engine: &Engine) -> Result<(i64, i64, i64)> {
    // Create private base table
    engine.conn.execute_batch(
        r#"
        CREATE TABLE __sec_customers (
            id            INTEGER PRIMARY KEY,
            row_label_id  INTEGER NOT NULL,
            name          TEXT,
            email         TEXT,
            ssn           TEXT
        );
        "#,
    )?;

    // Define labels
    let label_everyone = engine.define_label("true")?;
    let label_admin = engine.define_label("role=admin")?;
    let label_admin_or_auditor = engine.define_label("(role=admin|role=auditor)")?;

    // Insert test data with different row labels
    engine.conn.execute(
        "INSERT INTO __sec_customers VALUES (1, ?1, 'Alice', 'alice@example.com', '111-11-1111')",
        [label_everyone],
    )?;
    engine.conn.execute(
        "INSERT INTO __sec_customers VALUES (2, ?1, 'Bob', 'bob@example.com', '222-22-2222')",
        [label_admin],
    )?;
    engine.conn.execute(
        "INSERT INTO __sec_customers VALUES (3, ?1, 'Charlie', 'charlie@example.com', '333-33-3333')",
        [label_admin_or_auditor],
    )?;

    // Register secure table
    engine.register_table("customers", "__sec_customers", "row_label_id", None, None).unwrap();

    // Set column labels
    engine.set_column_labels("customers", "ssn", Some(label_admin), None);
    engine.set_column_labels("customers", "email", Some(label_admin_or_auditor), None);

    Ok((label_everyone, label_admin, label_admin_or_auditor))
}

fn get_visible_rows(conn: &Connection) -> Result<Vec<(i64, String)>> {
    let mut stmt = conn.prepare("SELECT id, name FROM customers")?;
    let rows =
        stmt.query_map([], |row| Ok((row.get(0)?, row.get(1)?)))?.collect::<Result<Vec<_>>>()?;
    Ok(rows)
}

fn get_visible_columns(conn: &Connection) -> Result<Vec<String>> {
    let mut stmt = conn.prepare("PRAGMA table_info(customers)")?;
    let cols = stmt.query_map([], |row| row.get::<_, String>(1))?.collect::<Result<Vec<_>>>()?;
    Ok(cols)
}

fn message(e: Error) -> String {
    format!("{}", e)
}

#[test]
fn test_regular_user_sees_limited_data() {
    let engine = init_test_db().unwrap();
    setup_test_data(&engine).unwrap();

    // Set context as regular user
    engine.set_attr("role", "user").unwrap();
    engine.refresh_views().unwrap();

    // Check visible rows
    let rows = get_visible_rows(&engine.conn).unwrap();
    assert_eq!(rows.len(), 1, "regular user should see only 1 row");
    assert_eq!(rows[0], (1, "Alice".to_string()));

    // Check visible columns
    let cols = get_visible_columns(&engine.conn).unwrap();
    let col_set: HashSet<_> = cols.iter().map(|s| s.as_str()).collect();

    assert!(col_set.contains("id"), "should see id");
    assert!(col_set.contains("name"), "should see name");
    assert!(!col_set.contains("email"), "should NOT see email");
    assert!(!col_set.contains("ssn"), "should NOT see ssn");
}

#[test]
fn test_auditor_sees_more_data() {
    let engine = init_test_db().unwrap();
    setup_test_data(&engine).unwrap();

    engine.set_attr("role", "auditor").unwrap();
    engine.refresh_views().unwrap();

    let rows = get_visible_rows(&engine.conn).unwrap();
    assert_eq!(rows.len(), 2, "auditor should see 2 rows");

    let names: HashSet<_> = rows.iter().map(|(_, n)| n.as_str()).collect();
    assert!(names.contains("Alice"));
    assert!(names.contains("Charlie"));
    assert!(!names.contains("Bob"), "Bob requires admin");

    let cols = get_visible_columns(&engine.conn).unwrap();
    let col_set: HashSet<_> = cols.iter().map(|s| s.as_str()).collect();

    assert!(col_set.contains("id"));
    assert!(col_set.contains("name"));
    assert!(col_set.contains("email"), "auditor should see email");
    assert!(!col_set.contains("ssn"), "auditor should NOT see ssn");
}

#[test]
fn test_admin_sees_everything() {
    let engine = init_test_db().unwrap();
    setup_test_data(&engine).unwrap();

    engine.set_attr("role", "admin").unwrap();
    engine.refresh_views().unwrap();

    let rows = get_visible_rows(&engine.conn).unwrap();
    assert_eq!(rows.len(), 3, "admin should see all 3 rows");

    let cols = get_visible_columns(&engine.conn).unwrap();
    let col_set: HashSet<_> = cols.iter().map(|s| s.as_str()).collect();

    assert!(col_set.contains("id"));
    assert!(col_set.contains("name"));
    assert!(col_set.contains("email"));
    assert!(col_set.contains("ssn"), "admin should see ssn");
}

#[test]
fn test_context_switching() {
    let engine = init_test_db().unwrap();
    setup_test_data(&engine).unwrap();

    engine.set_attr("role", "user").unwrap();
    engine.refresh_views().unwrap();

    let rows = get_visible_rows(&engine.conn).unwrap();
    assert_eq!(rows.len(), 1);

    engine.clear_context().unwrap();
    engine.set_attr("role", "admin").unwrap();
    engine.refresh_views().unwrap();

    let rows = get_visible_rows(&engine.conn).unwrap();
    assert_eq!(rows.len(), 3, "after switching to admin");

    engine.clear_context().unwrap();
    engine.set_attr("role", "user").unwrap();
    engine.refresh_views().unwrap();

    let rows = get_visible_rows(&engine.conn).unwrap();
    assert_eq!(rows.len(), 1, "after switching back to user");
}

#[test]
fn test_multiple_attributes() {
    let engine = init_test_db().unwrap();

    engine
        .conn
        .execute_batch(
            r#"
        CREATE TABLE __sec_secrets (
            id            INTEGER PRIMARY KEY,
            row_label_id  INTEGER NOT NULL,
            data          TEXT
        );
        "#,
        )
        .unwrap();

    let label = engine.define_label("role=admin&team=finance").unwrap();

    engine
        .conn
        .execute("INSERT INTO __sec_secrets VALUES (1, ?1, 'secret data')", [label])
        .unwrap();

    engine.register_table("secrets", "__sec_secrets", "row_label_id", None, None).unwrap();

    engine.clear_context().unwrap();
    engine.set_attr("role", "admin").unwrap();
    engine.refresh_views().unwrap();

    let count: i64 =
        engine.conn.query_row("SELECT COUNT(*) FROM secrets", [], |r| r.get(0)).unwrap();
    assert_eq!(count, 0, "admin alone should not see AND-protected row");

    engine.set_attr("team", "finance").unwrap();
    engine.refresh_views().unwrap();

    let count: i64 =
        engine.conn.query_row("SELECT COUNT(*) FROM secrets", [], |r| r.get(0)).unwrap();
    assert_eq!(count, 1, "admin+finance should see the row");
}

#[test]
fn test_insert_through_view() {
    let engine = init_test_db().unwrap();
    setup_test_data(&engine).unwrap();

    // As admin
    engine.set_attr("role", "admin").unwrap();
    engine.refresh_views().unwrap();

    // Insert through view
    engine
        .conn
        .execute(
            "INSERT INTO customers (id, name, email, ssn) VALUES (99, 'Test', 'test@test.com', '999-99-9999')",
            [],
        )
        .unwrap();

    // Verify it landed in base table
    let count: i64 = engine
        .conn
        .query_row("SELECT COUNT(*) FROM __sec_customers WHERE id = 99", [], |r| r.get(0))
        .unwrap();
    assert_eq!(count, 1);
}

#[test]
fn test_hidden_columns_not_queryable() {
    let engine = init_test_db().unwrap();
    setup_test_data(&engine).unwrap();

    // As regular user
    engine.set_attr("role", "user").unwrap();
    engine.refresh_views().unwrap();

    // Trying to select hidden column should fail
    let result = engine.conn.prepare("SELECT ssn FROM customers");
    assert!(result.is_err(), "selecting hidden column should error");
}

#[test]
fn reads_are_stale_between_a_change_and_the_refresh() {
    let engine = init_test_db().unwrap();
    setup_test_data(&engine).unwrap();
    engine.set_attr("role", "user").unwrap();
    engine.refresh_views().unwrap();
    assert_eq!(get_visible_rows(&engine.conn).unwrap().len(), 1);

    engine.set_attr("role", "admin").unwrap();
    let err = get_visible_rows(&engine.conn).unwrap_err();
    assert!(message(err).contains("security views are stale"));
    let err = engine
        .conn
        .execute("INSERT INTO customers (id, name) VALUES (50, 'x')", [])
        .unwrap_err();
    assert!(message(err).contains("security views are stale"));
    let err = engine.conn.execute("DELETE FROM customers WHERE id = 1", []).unwrap_err();
    assert!(message(err).contains("security views are stale"));

    engine.refresh_views().unwrap();
    assert_eq!(get_visible_rows(&engine.conn).unwrap().len(), 3);
}

#[test]
fn each_role_sees_its_rows_and_columns() {
    let engine = init_test_db().unwrap();
    setup_test_data(&engine).unwrap();

    engine.set_attr("role", "user").unwrap();
    engine.refresh_views().unwrap();
    assert_eq!(get_visible_columns(&engine.conn).unwrap(), vec!["id", "row_label_id", "name"]);
    assert_eq!(get_visible_rows(&engine.conn).unwrap(), vec![(1, "Alice".to_string())]);

    engine.clear_context().unwrap();
    engine.set_attr("role", "auditor").unwrap();
    engine.refresh_views().unwrap();
    assert_eq!(
        get_visible_columns(&engine.conn).unwrap(),
        vec!["id", "row_label_id", "name", "email"]
    );
    assert_eq!(
        get_visible_rows(&engine.conn).unwrap(),
        vec![(1, "Alice".to_string()), (3, "Charlie".to_string())]
    );

    engine.clear_context().unwrap();
    engine.set_attr("role", "admin").unwrap();
    engine.refresh_views().unwrap();
    assert_eq!(
        get_visible_columns(&engine.conn).unwrap(),
        vec!["id", "row_label_id", "name", "email", "ssn"]
    );
    assert_eq!(get_visible_rows(&engine.conn).unwrap().len(), 3);
}

#[test]
fn update_may_change_neither_key_nor_label() {
    let engine = init_test_db().unwrap();
    let (_, label_admin, _) = setup_test_data(&engine).unwrap();
    engine.set_attr("role", "admin").unwrap();
    engine.refresh_views().unwrap();

    let err = engine.conn.execute("UPDATE customers SET id = 10 WHERE id = 1", []).unwrap_err();
    assert!(message(err).contains("cannot update primary key"));
    let err = engine
        .conn
        .execute("UPDATE customers SET row_label_id = ?1 WHERE id = 1", [label_admin])
        .unwrap_err();
    assert!(message(err).contains("cannot update row_label_col row_label_id"));
    let unchanged: (i64, i64) = engine
        .conn
        .query_row("SELECT id, row_label_id FROM __sec_customers WHERE name = 'Alice'", [], |r| {
            Ok((r.get(0)?, r.get(1)?))
        })
        .unwrap();
    assert_eq!(unchanged, (1, 1));

    engine.conn.execute("UPDATE customers SET name = 'Alicia' WHERE id = 1", []).unwrap();
    let name: String = engine
        .conn
        .query_row("SELECT name FROM __sec_customers WHERE id = 1", [], |r| r.get(0))
        .unwrap();
    assert_eq!(name, "Alicia");
}

#[test]
fn writes_reach_only_the_rows_that_are_visible() {
    let engine = init_test_db().unwrap();
    setup_test_data(&engine).unwrap();
    engine.set_attr("role", "auditor").unwrap();
    engine.refresh_views().unwrap();

    // Bob's row needs an admin.
    engine.conn.execute("UPDATE customers SET name = 'Robert' WHERE id = 2", []).unwrap();
    engine.conn.execute("DELETE FROM customers WHERE id = 2", []).unwrap();
    let bob: String = engine
        .conn
        .query_row("SELECT name FROM __sec_customers WHERE id = 2", [], |r| r.get(0))
        .unwrap();
    assert_eq!(bob, "Bob");

    engine.conn.execute("DELETE FROM customers WHERE id = 3", []).unwrap();
    let left: i64 =
        engine.conn.query_row("SELECT COUNT(*) FROM __sec_customers", [], |r| r.get(0)).unwrap();
    assert_eq!(left, 2);
}

#[test]
fn insert_guards_and_row_labels() {
    let engine = init_test_db().unwrap();
    let (everyone, label_admin, _) = setup_test_data(&engine).unwrap();
    engine.set_attr("role", "auditor").unwrap();
    engine.refresh_views().unwrap();

    // A label that the context does not satisfy cannot be given to a row.
    let err = engine
        .conn
        .execute("INSERT INTO customers (id, row_label_id, name) VALUES (20, ?1, 'x')", [label_admin])
        .unwrap_err();
    assert!(message(err).contains("row_label_col row_label_id not visible"));
    // One that it satisfies can.
    engine
        .conn
        .execute("INSERT INTO customers (id, row_label_id, name) VALUES (21, 3, 'y')", [])
        .unwrap();
    // Without a label the row gets the label that is always true.
    engine.conn.execute("INSERT INTO customers (id, name) VALUES (22, 'z')", []).unwrap();
    let labels: Vec<i64> = engine
        .conn
        .prepare("SELECT row_label_id FROM __sec_customers WHERE id > 20 ORDER BY id")
        .unwrap()
        .query_map([], |r| r.get(0))
        .unwrap()
        .collect::<Result<Vec<_>>>()
        .unwrap();
    assert_eq!(labels, vec![3, everyone]);

    // Where implicit labels are not allowed, a row without one is refused.
    engine.allow_implicit_label("customers", false).unwrap();
    let err =
        engine.conn.execute("INSERT INTO customers (id, name) VALUES (23, 'w')", []).unwrap_err();
    assert!(message(err).contains("implicit row_label_col row_label_id not allowed"));
}

#[test]
fn table_and_insert_labels() {
    let engine = init_test_db().unwrap();
    engine
        .conn
        .execute_batch("CREATE TABLE __sec_docs (id INTEGER PRIMARY KEY, lbl INTEGER, body TEXT);")
        .unwrap();
    engine.define_label("true").unwrap();
    let staff = engine.define_label("role=staff").unwrap();
    let editors = engine.define_label("role=editor").unwrap();
    engine.register_table("docs", "__sec_docs", "lbl", Some(staff), Some(editors)).unwrap();

    // Without the table's label there is no view at all.
    engine.set_attr("role", "guest").unwrap();
    engine.refresh_views().unwrap();
    assert!(engine.conn.prepare("SELECT * FROM docs").is_err());

    // Staff insert under the table's label, editors under the insert label.
    engine.clear_context().unwrap();
    engine.set_attr("role", "staff").unwrap();
    engine.refresh_views().unwrap();
    engine.conn.execute("INSERT INTO docs (id, body) VALUES (1, 'a')", []).unwrap();
    engine.set_attr("role", "editor").unwrap();
    engine.refresh_views().unwrap();
    engine.conn.execute("INSERT INTO docs (id, body) VALUES (2, 'b')", []).unwrap();
    let labels: Vec<i64> = engine
        .conn
        .prepare("SELECT lbl FROM __sec_docs ORDER BY id")
        .unwrap()
        .query_map([], |r| r.get(0))
        .unwrap()
        .collect::<Result<Vec<_>>>()
        .unwrap();
    assert_eq!(labels, vec![staff, editors]);
}

#[test]
fn columns_guarded_against_update() {
    let engine = init_test_db().unwrap();
    let (_, label_admin, _) = setup_test_data(&engine).unwrap();
    engine.set_column_labels("customers", "name", None, Some(label_admin));
    engine.set_attr("role", "auditor").unwrap();
    engine.refresh_views().unwrap();

    let err =
        engine.conn.execute("UPDATE customers SET name = 'A.' WHERE id = 1", []).unwrap_err();
    assert!(message(err).contains("update denied on column name"));
    engine.conn.execute("UPDATE customers SET email = 'a@b.c' WHERE id = 1", []).unwrap();

    engine.set_attr("role", "admin").unwrap();
    engine.refresh_views().unwrap();
    engine.conn.execute("UPDATE customers SET name = 'A.' WHERE id = 1", []).unwrap();
    let row: (String, String) = engine
        .conn
        .query_row("SELECT name, email FROM __sec_customers WHERE id = 1", [], |r| {
            Ok((r.get(0)?, r.get(1)?))
        })
        .unwrap();
    assert_eq!(row, ("A.".to_string(), "a@b.c".to_string()));
}

#[test]
fn tables_that_cannot_be_registered() {
    let engine = init_test_db().unwrap();
    engine
        .conn
        .execute_batch(
            "CREATE TABLE nokey (a INTEGER, lbl INTEGER);
             CREATE TABLE norowid (a INTEGER PRIMARY KEY, lbl INTEGER) WITHOUT ROWID;
             CREATE TABLE fine (a INTEGER, b TEXT, lbl INTEGER, PRIMARY KEY (b, a));",
        )
        .unwrap();
    let failed = |r: std::result::Result<i64, PolicyError>| r.unwrap_err();
    assert_eq!(
        failed(engine.register_table("x", "missing", "lbl", None, None)),
        PolicyError::Validation(ValidationError::MissingTable)
    );
    assert_eq!(
        failed(engine.register_table("x", "fine", "label", None, None)),
        PolicyError::Validation(ValidationError::MissingRowLabelColumn)
    );
    assert_eq!(
        failed(engine.register_table("x", "nokey", "lbl", None, None)),
        PolicyError::Validation(ValidationError::NoPrimaryKey)
    );
    assert_eq!(
        failed(engine.register_table("x", "norowid", "lbl", None, None)),
        PolicyError::Validation(ValidationError::WithoutRowid)
    );
    assert_eq!(engine.session.lock().unwrap().catalog.tables.len(), 0);
    assert_eq!(engine.register_table("x", "fine", "lbl", None, None), Ok(1));
    assert_eq!(engine.describe("fine").unwrap().primary_key, vec!["b", "a"]);

    // A composite key is matched column by column.
    engine.define_label("true").unwrap();
    engine.conn.execute("INSERT INTO fine VALUES (1, 'k', 1)", []).unwrap();
    engine.conn.execute("INSERT INTO fine VALUES (2, 'k', 1)", []).unwrap();
    engine.refresh_views().unwrap();
    engine.conn.execute("DELETE FROM x WHERE a = 2", []).unwrap();
    let left: Vec<i64> = engine
        .conn
        .prepare("SELECT a FROM fine")
        .unwrap()
        .query_map([], |r| r.get(0))
        .unwrap()
        .collect::<Result<Vec<_>>>()
        .unwrap();
    assert_eq!(left, vec![1]);
}

#[test]
fn a_key_may_not_change_to_or_from_null() {
    let engine = init_test_db().unwrap();
    engine
        .conn
        .execute_batch(
            "CREATE TABLE parts (code TEXT PRIMARY KEY, lbl INTEGER, note TEXT);
             INSERT INTO parts VALUES (NULL, 1, 'unnamed');
             INSERT INTO parts VALUES ('a', 1, 'named');",
        )
        .unwrap();
    engine.define_label("true").unwrap();
    assert_eq!(engine.register_table("stock", "parts", "lbl", None, None), Ok(1));
    engine.refresh_views().unwrap();

    let err = engine
        .conn
        .execute("UPDATE stock SET code = 'x' WHERE note = 'unnamed'", [])
        .unwrap_err();
    assert!(message(err).contains("cannot update primary key"));
    let err = engine.conn.execute("UPDATE stock SET code = NULL WHERE code = 'a'", []).unwrap_err();
    assert!(message(err).contains("cannot update primary key"));
    let codes: Vec<Option<String>> = engine
        .conn
        .prepare("SELECT code FROM parts ORDER BY note")
        .unwrap()
        .query_map([], |r| r.get(0))
        .unwrap()
        .collect::<Result<Vec<_>>>()
        .unwrap();
    assert_eq!(codes, vec![Some("a".to_string()), None]);

    // A key that stays as it is lets the other columns change.
    engine.conn.execute("UPDATE stock SET note = 'renamed' WHERE code = 'a'", []).unwrap();
    let note: String = engine
        .conn
        .query_row("SELECT note FROM parts WHERE code = 'a'", [], |r| r.get(0))
        .unwrap();
    assert_eq!(note, "renamed");
}
