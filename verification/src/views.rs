//! The view projector: the registry of secured tables and the definitions of
//! the views and triggers that stand between users and physical tables.

pub mod bump_generation;
pub mod primary_key;
pub mod refresh_views;
pub mod register_table;
pub mod write_triggers;

use vstd::prelude::*;

verus! {

/// One registered table: the logical name users see, the physical table
/// behind it, and its labels.
#[derive(Debug)]
pub struct SecTable {
    pub logical_name: String,
    pub physical_name: String,
    pub row_label_col: String,
    pub table_label_id: Option<i64>,
    pub insert_label_id: Option<i64>,
    /// Whether a row may be inserted without a label of its own.
    pub allow_implicit_label: bool,
}

/// One column of a registered table, with the labels that guard reading and
/// updating it.
#[derive(Debug)]
pub struct SecColumn {
    pub logical_table: String,
    pub column_name: String,
    pub read_label_id: Option<i64>,
    pub update_label_id: Option<i64>,
}

/// A registered table as mathematics.
pub struct SecTableView {
    pub logical_name: Seq<char>,
    pub physical_name: Seq<char>,
    pub row_label_col: Seq<char>,
    pub table_label_id: Option<i64>,
    pub insert_label_id: Option<i64>,
    pub allow_implicit_label: bool,
}

/// A column as mathematics.
pub struct SecColumnView {
    pub logical_table: Seq<char>,
    pub column_name: Seq<char>,
    pub read_label_id: Option<i64>,
    pub update_label_id: Option<i64>,
}

impl View for SecTable {
    type V = SecTableView;

    open spec fn view(&self) -> SecTableView {
        SecTableView {
            logical_name: self.logical_name@,
            physical_name: self.physical_name@,
            row_label_col: self.row_label_col@,
            table_label_id: self.table_label_id,
            insert_label_id: self.insert_label_id,
            allow_implicit_label: self.allow_implicit_label,
        }
    }
}

impl View for SecColumn {
    type V = SecColumnView;

    open spec fn view(&self) -> SecColumnView {
        SecColumnView {
            logical_table: self.logical_table@,
            column_name: self.column_name@,
            read_label_id: self.read_label_id,
            update_label_id: self.update_label_id,
        }
    }
}

impl Clone for SecTable {
    fn clone(&self) -> (r: Self)
        ensures
            r@ == self@,
    {
        SecTable {
            logical_name: self.logical_name.clone(),
            physical_name: self.physical_name.clone(),
            row_label_col: self.row_label_col.clone(),
            table_label_id: self.table_label_id,
            insert_label_id: self.insert_label_id,
            allow_implicit_label: self.allow_implicit_label,
        }
    }
}

impl Clone for SecColumn {
    fn clone(&self) -> (r: Self)
        ensures
            r@ == self@,
    {
        SecColumn {
            logical_table: self.logical_table.clone(),
            column_name: self.column_name.clone(),
            read_label_id: self.read_label_id,
            update_label_id: self.update_label_id,
        }
    }
}

/// The tables as mathematics.
pub open spec fn table_views(tables: Seq<SecTable>) -> Seq<SecTableView> {
    Seq::new(tables.len(), |i: int| tables[i]@)
}

/// The columns as mathematics.
pub open spec fn column_views(columns: Seq<SecColumn>) -> Seq<SecColumnView> {
    Seq::new(columns.len(), |i: int| columns[i]@)
}

} // verus!
