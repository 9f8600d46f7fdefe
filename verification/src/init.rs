//! The metadata tables that the policy engine keeps in the database.

use vstd::prelude::*;

verus! {

/// The statements that create the metadata tables and set the generation of
/// a new database to zero. They change nothing where the tables exist.
pub open spec fn schema_sql() -> Seq<char> {
    "CREATE TABLE IF NOT EXISTS sec_labels (id INTEGER PRIMARY KEY, expr TEXT NOT NULL UNIQUE);\nCREATE TABLE IF NOT EXISTS sec_levels (attr_name TEXT NOT NULL, level_name TEXT NOT NULL, level_value INTEGER NOT NULL, PRIMARY KEY (attr_name, level_name));\nCREATE TABLE IF NOT EXISTS sec_tables (logical_name TEXT PRIMARY KEY, physical_name TEXT NOT NULL, row_label_col TEXT NOT NULL, table_label_id INTEGER REFERENCES sec_labels(id), insert_label_id INTEGER REFERENCES sec_labels(id), allow_implicit_label INTEGER DEFAULT 1);\nCREATE TABLE IF NOT EXISTS sec_columns (logical_table TEXT NOT NULL, column_name TEXT NOT NULL, read_label_id INTEGER REFERENCES sec_labels(id), update_label_id INTEGER REFERENCES sec_labels(id), PRIMARY KEY (logical_table, column_name));\nCREATE TABLE IF NOT EXISTS sec_meta (key TEXT PRIMARY KEY, value INTEGER);\nINSERT OR IGNORE INTO sec_meta VALUES ('generation', 0);\nINSERT OR IGNORE INTO sec_meta VALUES ('last_refresh_generation', 0);\nINSERT OR IGNORE INTO sec_meta VALUES ('views_initialized', 0);"@
}

/// The statements that create the metadata tables.
pub fn schema() -> (r: String)
    ensures
        r@ == schema_sql(),
{
    String::from_str(
        "CREATE TABLE IF NOT EXISTS sec_labels (id INTEGER PRIMARY KEY, expr TEXT NOT NULL UNIQUE);\nCREATE TABLE IF NOT EXISTS sec_levels (attr_name TEXT NOT NULL, level_name TEXT NOT NULL, level_value INTEGER NOT NULL, PRIMARY KEY (attr_name, level_name));\nCREATE TABLE IF NOT EXISTS sec_tables (logical_name TEXT PRIMARY KEY, physical_name TEXT NOT NULL, row_label_col TEXT NOT NULL, table_label_id INTEGER REFERENCES sec_labels(id), insert_label_id INTEGER REFERENCES sec_labels(id), allow_implicit_label INTEGER DEFAULT 1);\nCREATE TABLE IF NOT EXISTS sec_columns (logical_table TEXT NOT NULL, column_name TEXT NOT NULL, read_label_id INTEGER REFERENCES sec_labels(id), update_label_id INTEGER REFERENCES sec_labels(id), PRIMARY KEY (logical_table, column_name));\nCREATE TABLE IF NOT EXISTS sec_meta (key TEXT PRIMARY KEY, value INTEGER);\nINSERT OR IGNORE INTO sec_meta VALUES ('generation', 0);\nINSERT OR IGNORE INTO sec_meta VALUES ('last_refresh_generation', 0);\nINSERT OR IGNORE INTO sec_meta VALUES ('views_initialized', 0);",
    )
}

} // verus!
