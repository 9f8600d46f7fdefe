//! The authorizer: which tables a statement may touch directly.
//!
//! Physical tables, whose names begin with `__sec_`, are out of reach. The
//! metadata tables may be read, and nothing else.

use vstd::prelude::*;

use crate::text::{chars_of, str_eq};

verus! {

/// The engine's code for reading a column of a table.
pub const ACTION_READ: i32 = 20;

/// The engine's code for updating a column of a table.
pub const ACTION_UPDATE: i32 = 23;

/// The engine's code for inserting into a table.
pub const ACTION_INSERT: i32 = 18;

/// The engine's code for deleting from a table.
pub const ACTION_DELETE: i32 = 9;

/// What the authorizer answers.
#[derive(Debug, Clone, Copy, PartialEq, Eq, Structural)]
pub enum Decision {
    Allow,
    Deny,
}

/// Whether an action is one on a table's rows.
pub open spec fn is_table_action(action: i32) -> bool {
    action == ACTION_READ || action == ACTION_UPDATE || action == ACTION_INSERT || action
        == ACTION_DELETE
}

/// Whether a name begins with the prefix of physical tables.
pub open spec fn is_private(table: Seq<char>) -> bool {
    table.len() >= "__sec_"@.len() && table.subrange(0, "__sec_"@.len() as int) == "__sec_"@
}

/// Whether a name is that of a metadata table.
pub open spec fn is_metadata(table: Seq<char>) -> bool {
    table == "sec_labels"@ || table == "sec_levels"@ || table == "sec_tables"@ || table
        == "sec_columns"@ || table == "sec_meta"@
}

/// What the authorizer answers to `action` on `table`.
pub open spec fn decision(action: i32, table: Option<Seq<char>>) -> Decision {
    match table {
        None => Decision::Allow,
        Some(name) => if !is_table_action(action) {
            Decision::Allow
        } else if is_private(name) {
            Decision::Deny
        } else if action != ACTION_READ && is_metadata(name) {
            Decision::Deny
        } else {
            Decision::Allow
        },
    }
}

fn starts_with_private(table: &str) -> (r: bool)
    ensures
        r == is_private(table@),
{
    let name = chars_of(table);
    let prefix = chars_of("__sec_");
    if name.len() < prefix.len() {
        return false;
    }
    let mut i: usize = 0;
    while i < prefix.len()
        invariant
            i <= prefix@.len() <= name@.len(),
            name@ == table@,
            prefix@ == "__sec_"@,
            forall|j: int| 0 <= j < i ==> name@[j] == prefix@[j],
        decreases prefix@.len() - i,
    {
        if name[i] != prefix[i] {
            assert(name@.subrange(0, prefix@.len() as int)[i as int] != prefix@[i as int]);
            return false;
        }
        i += 1;
    }
    assert(name@.subrange(0, prefix@.len() as int) =~= prefix@);
    true
}

/// Decides whether a statement may perform `action` on `table`.
pub fn authorize(action: i32, table: Option<&str>) -> (r: Decision)
    ensures
        r == decision(
            action,
            match table {
                Some(t) => Some(t@),
                None => None,
            },
        ),
{
    let name = match table {
        None => { return Decision::Allow; },
        Some(t) => t,
    };
    if !(action == ACTION_READ || action == ACTION_UPDATE || action == ACTION_INSERT || action
        == ACTION_DELETE) {
        return Decision::Allow;
    }
    if starts_with_private(name) {
        return Decision::Deny;
    }
    let metadata = str_eq(name, "sec_labels") || str_eq(name, "sec_levels") || str_eq(
        name,
        "sec_tables",
    ) || str_eq(name, "sec_columns") || str_eq(name, "sec_meta");
    if action != ACTION_READ && metadata {
        return Decision::Deny;
    }
    Decision::Allow
}

} // verus!
