//! Registration of a physical table as a secured table.

use vstd::prelude::*;

use crate::text::{
    chars_of, contains_text, lowercase, occurs_in, str_eq, to_lower, to_upper, uppercase, views,
};
use crate::views::{column_views, table_views, SecColumn, SecColumnView, SecTable, SecTableView};

verus! {

/// Why a table cannot be registered.
#[derive(Debug, Clone, Copy, PartialEq, Eq, Structural)]
pub enum ValidationError {
    /// The physical table does not exist.
    MissingTable,
    /// The physical table lacks the declared row-label column.
    MissingRowLabelColumn,
    /// The physical table has no primary key.
    NoPrimaryKey,
    /// The physical table is stored without row ids.
    WithoutRowid,
    /// Two columns of the physical table differ in case alone.
    DuplicateColumn,
}

/// What the database engine reports of a physical table: its columns in
/// order, the columns of its primary key in key order, and the statement
/// that created it. A table that does not exist has no columns.
#[derive(Debug)]
pub struct PhysicalTable {
    pub columns: Vec<String>,
    pub primary_key: Vec<String>,
    pub sql: Option<String>,
}

/// The registry: the secured tables and their columns, in the order they
/// were stored.
#[derive(Debug)]
pub struct Catalog {
    pub tables: Vec<SecTable>,
    pub columns: Vec<SecColumn>,
}

/// Whether the creating statement says that the table has no row ids.
pub open spec fn without_rowid(sql: Option<Seq<char>>) -> bool {
    match sql {
        Some(s) => occurs_in("WITHOUT ROWID"@, uppercase(s)),
        None => false,
    }
}

/// Whether two of the names, taken in lower case, are the same.
pub open spec fn has_duplicate(names: Seq<Seq<char>>) -> bool {
    has_repeat(Seq::new(names.len(), |i: int| lowercase(names[i])))
}

/// Whether a text occurs twice in a list.
pub open spec fn has_repeat(items: Seq<Seq<char>>) -> bool {
    exists|i: int, j: int| 0 <= i < j < items.len() && #[trigger] items[i] == #[trigger] items[j]
}

/// What the checks before registration find, in the order they are made.
pub open spec fn check_result(
    columns: Seq<Seq<char>>,
    primary_key: Seq<Seq<char>>,
    sql: Option<Seq<char>>,
    row_label_col: Seq<char>,
) -> Result<(), ValidationError> {
    if columns.len() == 0 {
        Err(ValidationError::MissingTable)
    } else if !columns.contains(row_label_col) {
        Err(ValidationError::MissingRowLabelColumn)
    } else if primary_key.len() == 0 {
        Err(ValidationError::NoPrimaryKey)
    } else if without_rowid(sql) {
        Err(ValidationError::WithoutRowid)
    } else if has_duplicate(columns) {
        Err(ValidationError::DuplicateColumn)
    } else {
        Ok(())
    }
}

/// Whether a creating statement, in upper case, says that the table has no
/// row ids.
pub fn says_without_rowid(upper: &str) -> (r: bool)
    ensures
        r == occurs_in("WITHOUT ROWID"@, upper@),
{
    let hay = chars_of(upper);
    let needle = chars_of("WITHOUT ROWID");
    contains_text(&hay, &needle)
}

/// Whether the creating statement says that the table has no row ids.
pub fn is_without_rowid(sql: Option<&str>) -> (r: bool)
    ensures
        r == without_rowid(
            match sql {
                Some(s) => Some(s@),
                None => None,
            },
        ),
{
    match sql {
        None => false,
        Some(s) => says_without_rowid(to_upper(s).as_str()),
    }
}

fn contains_name(names: &Vec<String>, name: &str) -> (r: bool)
    ensures
        r == views(names@).contains(name@),
{
    let mut i: usize = 0;
    while i < names.len()
        invariant
            i <= names@.len(),
            forall|j: int| 0 <= j < i ==> views(names@)[j] != name@,
        decreases names@.len() - i,
    {
        if str_eq(names[i].as_str(), name) {
            assert(views(names@)[i as int] == name@);
            return true;
        }
        i += 1;
    }
    false
}

/// Whether a text occurs twice in a list.
pub fn repeats(items: &Vec<String>) -> (r: bool)
    ensures
        r == has_repeat(views(items@)),
{
    let mut i: usize = 0;
    while i < items.len()
        invariant
            i <= items@.len(),
            forall|a: int, b: int|
                0 <= a < b < i ==> #[trigger] views(items@)[a] != #[trigger] views(items@)[b],
        decreases items@.len() - i,
    {
        let mut j: usize = 0;
        while j < i
            invariant
                j <= i,
                i < items@.len(),
                forall|x: int| 0 <= x < j ==> #[trigger] views(items@)[x] != views(items@)[i as int],
            decreases i - j,
        {
            if str_eq(items[j].as_str(), items[i].as_str()) {
                assert(views(items@)[j as int] == views(items@)[i as int]);
                return true;
            }
            j += 1;
        }
        i += 1;
    }
    false
}

fn duplicate_names(names: &Vec<String>) -> (r: bool)
    ensures
        r == has_duplicate(views(names@)),
{
    let mut lowered: Vec<String> = Vec::new();
    let mut i: usize = 0;
    while i < names.len()
        invariant
            i <= names@.len(),
            lowered@.len() == i,
            forall|j: int| 0 <= j < i ==> (#[trigger] lowered@[j])@ == lowercase(names@[j]@),
        decreases names@.len() - i,
    {
        lowered.push(to_lower(names[i].as_str()));
        i += 1;
    }
    assert(views(lowered@) =~= Seq::new(
        views(names@).len(),
        |i: int| lowercase(views(names@)[i]),
    ));
    repeats(&lowered)
}

/// Checks that a physical table can be registered under `row_label_col`.
pub fn check_registration(found: &PhysicalTable, row_label_col: &str) -> (r: Result<
    (),
    ValidationError,
>)
    ensures
        r == check_result(
            views(found.columns@),
            views(found.primary_key@),
            match found.sql {
                Some(s) => Some(s@),
                None => None,
            },
            row_label_col@,
        ),
{
    if found.columns.len() == 0 {
        return Err(ValidationError::MissingTable);
    }
    if !contains_name(&found.columns, row_label_col) {
        return Err(ValidationError::MissingRowLabelColumn);
    }
    if found.primary_key.len() == 0 {
        return Err(ValidationError::NoPrimaryKey);
    }
    let sql: Option<&str> = match &found.sql {
        Some(s) => Some(s.as_str()),
        None => None,
    };
    if is_without_rowid(sql) {
        return Err(ValidationError::WithoutRowid);
    }
    if duplicate_names(&found.columns) {
        return Err(ValidationError::DuplicateColumn);
    }
    Ok(())
}

/// Whether the registry holds the column `name` of the table `logical`.
pub open spec fn has_column(columns: Seq<SecColumnView>, logical: Seq<char>, name: Seq<char>) -> bool {
    exists|i: int|
        0 <= i < columns.len() && (#[trigger] columns[i]).logical_table == logical
            && columns[i].column_name == name
}

/// The registry's columns after those of a table were added: each name that
/// the registry lacks for this table is added, in order, with no labels; the
/// others keep the labels they have.
pub open spec fn with_columns(
    columns: Seq<SecColumnView>,
    logical: Seq<char>,
    names: Seq<Seq<char>>,
) -> Seq<SecColumnView>
    decreases names.len(),
{
    if names.len() == 0 {
        columns
    } else {
        let so_far = with_columns(columns, logical, names.drop_last());
        if has_column(so_far, logical, names.last()) {
            so_far
        } else {
            so_far.push(
                SecColumnView {
                    logical_table: logical,
                    column_name: names.last(),
                    read_label_id: None,
                    update_label_id: None,
                },
            )
        }
    }
}

/// The registry's tables after `row` was stored: it replaces the table of
/// its logical name, if there is one, and comes last.
pub open spec fn with_table(tables: Seq<SecTableView>, row: SecTableView) -> Seq<SecTableView> {
    tables.filter(|t: SecTableView| t.logical_name != row.logical_name).push(row)
}

impl Catalog {
    /// The empty registry.
    pub fn new() -> (r: Self)
        ensures
            r.tables@.len() == 0,
            r.columns@.len() == 0,
    {
        Catalog { tables: Vec::new(), columns: Vec::new() }
    }

    fn holds_column(&self, logical: &str, name: &str) -> (r: bool)
        ensures
            r == has_column(column_views(self.columns@), logical@, name@),
    {
        let mut i: usize = 0;
        while i < self.columns.len()
            invariant
                i <= self.columns@.len(),
                forall|j: int|
                    0 <= j < i ==> !((#[trigger] column_views(self.columns@)[j]).logical_table
                        == logical@ && column_views(self.columns@)[j].column_name == name@),
            decreases self.columns@.len() - i,
        {
            if str_eq(self.columns[i].logical_table.as_str(), logical) && str_eq(
                self.columns[i].column_name.as_str(),
                name,
            ) {
                assert(column_views(self.columns@)[i as int] == self.columns@[i as int]@);
                return true;
            }
            assert(column_views(self.columns@)[i as int] == self.columns@[i as int]@);
            i += 1;
        }
        false
    }

    fn store_table(&mut self, row: SecTable)
        ensures
            table_views(final(self).tables@) == with_table(table_views(old(self).tables@), row@),
            final(self).columns == old(self).columns,
    {
        let ghost before = table_views(self.tables@);
        let ghost keep = |t: SecTableView| t.logical_name != row@.logical_name;
        let mut kept: Vec<SecTable> = Vec::new();
        let mut i: usize = 0;
        assert(before.take(0) =~= Seq::<SecTableView>::empty());
        assert(table_views(kept@) =~= before.take(0).filter(keep));
        while i < self.tables.len()
            invariant
                i <= self.tables@.len(),
                before == table_views(self.tables@),
                keep == (|t: SecTableView| t.logical_name != row@.logical_name),
                table_views(kept@) == before.take(i as int).filter(keep),
                self.columns == old(self).columns,
            decreases self.tables@.len() - i,
        {
            proof {
                let next = before.take(i as int + 1);
                assert(next.drop_last() =~= before.take(i as int));
                assert(next.last() == self.tables@[i as int]@);
                reveal(Seq::filter);
            }
            let ghost had = table_views(kept@);
            if !str_eq(self.tables[i].logical_name.as_str(), row.logical_name.as_str()) {
                kept.push(self.tables[i].clone());
                assert(table_views(kept@) =~= had.push(self.tables@[i as int]@));
            }
            i += 1;
        }
        assert(before.take(before.len() as int) =~= before);
        let ghost had = table_views(kept@);
        kept.push(row);
        assert(table_views(kept@) =~= had.push(row@));
        self.tables = kept;
    }

    fn store_columns(&mut self, logical: &str, names: &Vec<String>)
        ensures
            column_views(final(self).columns@) == with_columns(
                column_views(old(self).columns@),
                logical@,
                views(names@),
            ),
            final(self).tables == old(self).tables,
    {
        let ghost before = column_views(self.columns@);
        let mut i: usize = 0;
        assert(views(names@).take(0) =~= Seq::<Seq<char>>::empty());
        while i < names.len()
            invariant
                i <= names@.len(),
                self.tables == old(self).tables,
                column_views(self.columns@) == with_columns(
                    before,
                    logical@,
                    views(names@).take(i as int),
                ),
            decreases names@.len() - i,
        {
            proof {
                let next = views(names@).take(i as int + 1);
                assert(next.drop_last() =~= views(names@).take(i as int));
                assert(next.last() == names@[i as int]@);
            }
            let ghost had = column_views(self.columns@);
            if !self.holds_column(logical, names[i].as_str()) {
                let col = SecColumn {
                    logical_table: logical.to_owned(),
                    column_name: names[i].clone(),
                    read_label_id: None,
                    update_label_id: None,
                };
                self.columns.push(col);
                assert(column_views(self.columns@) =~= had.push(
                    SecColumnView {
                        logical_table: logical@,
                        column_name: names@[i as int]@,
                        read_label_id: None,
                        update_label_id: None,
                    },
                ));
            }
            i += 1;
        }
        assert(views(names@).take(names@.len() as int) =~= views(names@));
    }

    /// Sets the labels that guard reading and updating a column. A label that
    /// is not given keeps its value. Returns whether the registry holds the
    /// column.
    pub fn set_column_security(
        &mut self,
        logical: &str,
        column: &str,
        read_label_id: Option<i64>,
        update_label_id: Option<i64>,
    ) -> (r: bool)
        ensures
            r == has_column(column_views(old(self).columns@), logical@, column@),
            final(self).tables == old(self).tables,
            final(self).columns@.len() == old(self).columns@.len(),
            forall|i: int|
                0 <= i < old(self).columns@.len() ==> (#[trigger] final(self).columns@[i])@ == (if old(self).columns@[i]@.logical_table == logical@ && old(self).columns@[i]@.column_name
                    == column@ {
                    SecColumnView {
                        read_label_id: if read_label_id is Some {
                            read_label_id
                        } else {
                            old(self).columns@[i]@.read_label_id
                        },
                        update_label_id: if update_label_id is Some {
                            update_label_id
                        } else {
                            old(self).columns@[i]@.update_label_id
                        },
                        ..old(self).columns@[i]@
                    }
                } else {
                    old(self).columns@[i]@
                }),
    {
        let held = self.holds_column(logical, column);
        let ghost before = self.columns@;
        let mut i: usize = 0;
        while i < self.columns.len()
            invariant
                i <= self.columns@.len(),
                self.tables == old(self).tables,
                self.columns@.len() == before.len(),
                forall|j: int| i <= j < before.len() ==> self.columns@[j] == before[j],
                forall|j: int|
                    0 <= j < i ==> (#[trigger] self.columns@[j])@ == (if before[j]@.logical_table
                        == logical@ && before[j]@.column_name == column@ {
                        SecColumnView {
                            read_label_id: if read_label_id is Some {
                                read_label_id
                            } else {
                                before[j]@.read_label_id
                            },
                            update_label_id: if update_label_id is Some {
                                update_label_id
                            } else {
                                before[j]@.update_label_id
                            },
                            ..before[j]@
                        }
                    } else {
                        before[j]@
                    }),
            decreases self.columns@.len() - i,
        {
            if str_eq(self.columns[i].logical_table.as_str(), logical) && str_eq(
                self.columns[i].column_name.as_str(),
                column,
            ) {
                let mut col = self.columns[i].clone();
                if read_label_id.is_some() {
                    col.read_label_id = read_label_id;
                }
                if update_label_id.is_some() {
                    col.update_label_id = update_label_id;
                }
                self.columns.set(i, col);
            }
            i += 1;
        }
        held
    }
}

/// Registers the physical table `physical`, as the engine reports it in
/// `found`, under the logical name `logical`.
///
/// The checks of `check_registration` come first; if one fails, nothing
/// changes. Otherwise the table's row replaces any row of the same logical
/// name, implicit labels allowed, and each of its columns that the registry
/// lacks is added without labels.
pub fn register_table(
    catalog: &mut Catalog,
    logical: &str,
    physical: &str,
    row_label_col: &str,
    table_label_id: Option<i64>,
    insert_label_id: Option<i64>,
    found: &PhysicalTable,
) -> (r: Result<(), ValidationError>)
    ensures
        r == check_result(
            views(found.columns@),
            views(found.primary_key@),
            match found.sql {
                Some(s) => Some(s@),
                None => None,
            },
            row_label_col@,
        ),
        r is Err ==> *final(catalog) == *old(catalog),
        r is Ok ==> table_views(final(catalog).tables@) == with_table(
            table_views(old(catalog).tables@),
            SecTableView {
                logical_name: logical@,
                physical_name: physical@,
                row_label_col: row_label_col@,
                table_label_id,
                insert_label_id,
                allow_implicit_label: true,
            },
        ),
        r is Ok ==> column_views(final(catalog).columns@) == with_columns(
            column_views(old(catalog).columns@),
            logical@,
            views(found.columns@),
        ),
{
    match check_registration(found, row_label_col) {
        Err(e) => { return Err(e); },
        Ok(()) => {},
    }
    catalog.store_table(
        SecTable {
            logical_name: logical.to_owned(),
            physical_name: physical.to_owned(),
            row_label_col: row_label_col.to_owned(),
            table_label_id,
            insert_label_id,
            allow_implicit_label: true,
        },
    );
    catalog.store_columns(logical, &found.columns);
    Ok(())
}

} // verus!
