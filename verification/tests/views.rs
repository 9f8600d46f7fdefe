use lazysql::context::sec_ctx::SecurityContext;
use lazysql::label::define::{define_label, LabelTable};
use lazysql::label::LevelTable;
use lazysql::text::{contains_text, decimal, join, str_eq};
use lazysql::views::refresh_views::refresh_single_view;
use lazysql::views::write_triggers::{
    column_update_policy_guards, create_delete_trigger, create_insert_trigger,
    create_update_trigger, create_write_triggers, implicit_label_guard, join_pieces,
    label_visible_guard, pk_where_old, refresh_guard, update_label_guard, update_pk_guard, Piece,
};
use lazysql::views::{SecColumn, SecTable};

const FRESH: &str = "SELECT CASE WHEN (SELECT value FROM sec_meta WHERE key = 'generation') != (SELECT value FROM sec_meta WHERE key = 'last_refresh_generation') THEN RAISE(ABORT, 'security views are stale: call sec_refresh_views()') END;";

fn names(list: &[&str]) -> Vec<String> {
    list.iter().map(|s| s.to_string()).collect()
}

fn table(table_label_id: Option<i64>, insert_label_id: Option<i64>) -> SecTable {
    SecTable {
        logical_name: "docs".to_string(),
        physical_name: "__sec_docs".to_string(),
        row_label_col: "lbl".to_string(),
        table_label_id,
        insert_label_id,
        allow_implicit_label: true,
    }
}

fn column(name: &str, read: Option<i64>, update: Option<i64>) -> SecColumn {
    SecColumn {
        logical_table: "docs".to_string(),
        column_name: name.to_string(),
        read_label_id: read,
        update_label_id: update,
    }
}

#[test]
fn guards_exactly() {
    assert_eq!(refresh_guard(), FRESH);
    assert_eq!(
        update_pk_guard(&names(&["a", "b"])),
        "SELECT CASE WHEN OLD.\"a\" IS NOT NEW.\"a\" OR OLD.\"b\" IS NOT NEW.\"b\" THEN RAISE(ABORT, 'cannot update primary key') END;"
    );
    assert_eq!(
        label_visible_guard("lbl"),
        "SELECT CASE WHEN NEW.\"lbl\" IS NOT NULL AND NOT sec_label_visible(NEW.\"lbl\") THEN RAISE(ABORT, 'row_label_col lbl not visible') END;"
    );
    assert_eq!(
        update_label_guard("lbl"),
        "SELECT CASE WHEN NEW.\"lbl\" IS NOT OLD.\"lbl\" THEN RAISE(ABORT, 'cannot update row_label_col lbl') END;"
    );
    assert_eq!(
        implicit_label_guard("docs", "lbl"),
        "SELECT CASE WHEN NEW.\"lbl\" IS NULL AND (SELECT allow_implicit_label FROM sec_tables WHERE logical_name = 'docs') = 0 THEN RAISE(ABORT, 'implicit row_label_col lbl not allowed') END;"
    );
    assert_eq!(pk_where_old(&names(&["a", "b"])), "\"a\" = OLD.\"a\" AND \"b\" = OLD.\"b\"");
    assert_eq!(pk_where_old(&names(&["id"])), "\"id\" = OLD.\"id\"");
}

#[test]
fn pieces_in_every_shape() {
    let cols = names(&["x", "y"]);
    assert_eq!(join_pieces(Piece::Quoted, &cols, ", "), "\"x\", \"y\"");
    assert_eq!(join_pieces(Piece::New, &cols, ", "), "NEW.\"x\", NEW.\"y\"");
    assert_eq!(join_pieces(Piece::Assign, &cols, ", "), "\"x\" = NEW.\"x\", \"y\" = NEW.\"y\"");
    assert_eq!(join_pieces(Piece::MatchOld, &cols, " AND "), "\"x\" = OLD.\"x\" AND \"y\" = OLD.\"y\"");
    assert_eq!(join_pieces(Piece::Changed, &cols, " OR "), "OLD.\"x\" IS NOT NEW.\"x\" OR OLD.\"y\" IS NOT NEW.\"y\"");
    assert_eq!(join_pieces(Piece::Quoted, &Vec::new(), ", "), "");
}

#[test]
fn insert_trigger_exactly() {
    let sql = create_insert_trigger(&table(None, None), &names(&["id", "lbl", "body"]));
    assert_eq!(
        sql,
        format!(
            "DROP TRIGGER IF EXISTS \"docs_sec_ins\";\nCREATE TEMP TRIGGER \"docs_sec_ins\"\nINSTEAD OF INSERT ON \"docs\"\nBEGIN\n{}\n{}\n{}\nINSERT INTO \"__sec_docs\" (\"lbl\", \"id\", \"body\")\nVALUES (COALESCE(NEW.\"lbl\", 1), NEW.\"id\", NEW.\"body\");\nEND;",
            FRESH,
            implicit_label_guard("docs", "lbl"),
            label_visible_guard("lbl")
        )
    );
    let with_table_label = create_insert_trigger(&table(Some(-7), None), &names(&["lbl"]));
    assert!(with_table_label.ends_with(
        "INSERT INTO \"__sec_docs\" (\"lbl\")\nVALUES (COALESCE(NEW.\"lbl\", -7));\nEND;"
    ));
    let with_insert_label = create_insert_trigger(&table(Some(3), Some(4)), &names(&["id"]));
    assert!(with_insert_label.ends_with(
        "VALUES (COALESCE(NEW.\"lbl\", (SELECT insert_label_id FROM sec_tables WHERE logical_name = 'docs' AND insert_label_id IS NOT NULL AND sec_label_visible(insert_label_id)), (SELECT table_label_id FROM sec_tables WHERE logical_name = 'docs'), 1), NEW.\"id\");\nEND;"
    ));
}

#[test]
fn update_and_delete_triggers_exactly() {
    let t = table(None, None);
    let update = create_update_trigger(&t, &names(&["id", "body"]), &names(&["id"]), "GUARDS");
    assert_eq!(
        update,
        format!(
            "DROP TRIGGER IF EXISTS \"docs_sec_upd\";\nCREATE TEMP TRIGGER \"docs_sec_upd\"\nINSTEAD OF UPDATE ON \"docs\"\nBEGIN\n{}\n{}\n{}\nGUARDS\nUPDATE \"__sec_docs\"\nSET \"id\" = NEW.\"id\", \"body\" = NEW.\"body\"\nWHERE \"id\" = OLD.\"id\"\n  AND sec_label_visible(\"lbl\");\nEND;",
            FRESH,
            update_pk_guard(&names(&["id"])),
            update_label_guard("lbl")
        )
    );
    let delete = create_delete_trigger(&t, &names(&["a", "b"]));
    assert_eq!(
        delete,
        format!(
            "DROP TRIGGER IF EXISTS \"docs_sec_del\";\nCREATE TEMP TRIGGER \"docs_sec_del\"\nINSTEAD OF DELETE ON \"docs\"\nBEGIN\n{}\nDELETE FROM \"__sec_docs\"\nWHERE \"a\" = OLD.\"a\" AND \"b\" = OLD.\"b\"\n  AND sec_label_visible(\"lbl\");\nEND;",
            FRESH
        )
    );
    let all = create_write_triggers(&t, &names(&["id"]), &names(&["id"]), "").unwrap();
    assert_eq!(all.len(), 3);
    assert!(all[0].contains("INSTEAD OF INSERT"));
    assert!(all[1].contains("INSTEAD OF UPDATE"));
    assert!(all[2].contains("INSTEAD OF DELETE"));
    assert!(create_write_triggers(&t, &names(&["id"]), &Vec::new(), "").is_none());
}

#[test]
fn one_view_under_different_contexts() {
    let mut labels = LabelTable::new();
    let admin = define_label(&mut labels, "role=admin").unwrap();
    let staff = define_label(&mut labels, "(role=admin|role=staff)").unwrap();
    let levels = LevelTable::new();
    let t = table(Some(staff), None);
    let mut other = column("secret", None, None);
    other.logical_table = "elsewhere".to_string();
    let columns = vec![
        column("id", None, None),
        column("lbl", None, None),
        column("body", Some(staff), Some(admin)),
        column("ssn", Some(admin), Some(admin)),
        other,
    ];
    let key = names(&["id"]);

    let guest = SecurityContext::new();
    assert_eq!(
        refresh_single_view(&t, &columns, &key, &labels, &levels, &guest).unwrap(),
        vec!["DROP VIEW IF EXISTS \"docs\"".to_string()]
    );

    let mut ctx = SecurityContext::new();
    ctx.set_attr("role", "staff");
    let statements = refresh_single_view(&t, &columns, &key, &labels, &levels, &ctx).unwrap();
    assert_eq!(statements.len(), 4);
    assert_eq!(
        statements[0],
        "DROP VIEW IF EXISTS \"docs\";\nCREATE TEMP VIEW \"docs\" AS\nSELECT \"id\", \"lbl\", \"body\"\nFROM \"__sec_docs\"\nWHERE sec_assert_fresh()\n  AND sec_label_visible(\"lbl\");"
    );
    let guards = column_update_policy_guards(&columns, "docs", &labels, &levels, &ctx);
    assert_eq!(
        guards,
        "SELECT CASE WHEN OLD.\"body\" IS NOT NEW.\"body\" THEN RAISE(ABORT, 'update denied on column body') END;\nSELECT CASE WHEN OLD.\"ssn\" IS NOT NEW.\"ssn\" THEN RAISE(ABORT, 'update denied on column ssn') END;"
    );
    assert_eq!(statements[1], create_insert_trigger(&t, &names(&["id", "lbl", "body"])));
    assert_eq!(
        statements[2],
        create_update_trigger(&t, &names(&["id", "lbl", "body"]), &key, &guards)
    );
    assert_eq!(statements[3], create_delete_trigger(&t, &key));
    assert!(refresh_single_view(&t, &columns, &Vec::new(), &labels, &levels, &ctx).is_none());

    ctx.set_attr("role", "admin");
    assert_eq!(column_update_policy_guards(&columns, "docs", &labels, &levels, &ctx), "");
    let statements = refresh_single_view(&t, &columns, &key, &labels, &levels, &ctx).unwrap();
    assert!(statements[0].contains("SELECT \"id\", \"lbl\", \"body\", \"ssn\"\n"));

    // A table none of whose columns can be read loses its view.
    let hidden = vec![column("id", Some(admin), None)];
    let mut staff_only = SecurityContext::new();
    staff_only.set_attr("role", "staff");
    assert_eq!(
        refresh_single_view(&t, &hidden, &key, &labels, &levels, &staff_only).unwrap(),
        vec!["DROP VIEW IF EXISTS \"docs\"".to_string()]
    );
}

#[test]
fn text_helpers() {
    assert_eq!(decimal(0), "0");
    assert_eq!(decimal(7), "7");
    assert_eq!(decimal(10), "10");
    assert_eq!(decimal(-1), "-1");
    assert_eq!(decimal(1234567890), "1234567890");
    assert_eq!(decimal(i64::MAX), "9223372036854775807");
    assert_eq!(decimal(i64::MIN), "-9223372036854775808");
    assert_eq!(join(&names(&["a", "b", "c"]), ", "), "a, b, c");
    assert_eq!(join(&names(&["a"]), ", "), "a");
    assert_eq!(join(&Vec::new(), ", "), "");
    assert_eq!(join(&names(&["", ""]), "-"), "-");
    assert!(str_eq("abc", "abc"));
    assert!(!str_eq("abc", "abd"));
    assert!(!str_eq("abc", "ab"));
    assert!(str_eq("", ""));
    assert!(str_eq("\u{00e9}", "\u{00e9}"));
    let hay: Vec<char> = "a WITHOUT ROWID b".chars().collect();
    let needle: Vec<char> = "WITHOUT ROWID".chars().collect();
    assert!(contains_text(&hay, &needle));
    assert!(contains_text(&hay, &Vec::new()));
    assert!(!contains_text(&needle, &hay));
    assert!(!contains_text(&hay, &"ROWIDS".chars().collect()));
    assert!(contains_text(&hay, &hay));
}
