//! Security contexts: what a connection claims to be, and the stack of such
//! claims that each connection keeps.

pub mod ctx_stack;
pub mod sec_ctx;

use std::collections::HashMap;
use vstd::prelude::*;

use crate::context::ctx_stack::{ContextStack, FrameView};
use crate::context::sec_ctx::SecurityContext;

verus! {

broadcast use vstd::std_specs::hash::group_hash_axioms;

/// The context stack of every connection, by the connection's identity.
pub struct ContextTable {
    stacks: HashMap<usize, ContextStack>,
}

impl ContextTable {
    /// The stack of connection `db_ptr`: a fresh stack, with an empty base
    /// frame, for a connection that has none yet.
    pub closed spec fn stack_of(&self, db_ptr: usize) -> Seq<FrameView> {
        if self.stacks@.contains_key(db_ptr) {
            self.stacks@[db_ptr]@
        } else {
            ContextStack::fresh()
        }
    }

    /// A table in which no connection has a stack yet.
    pub fn new() -> (r: Self)
        ensures
            forall|db_ptr: usize| #[trigger] r.stack_of(db_ptr) == ContextStack::fresh(),
    {
        ContextTable { stacks: HashMap::new() }
    }
}

/// The stack of connection `db_ptr`, made on first use.
pub fn get_context_stack(table: &mut ContextTable, db_ptr: usize) -> (r: ContextStack)
    ensures
        r@ == old(table).stack_of(db_ptr),
        forall|p: usize| #[trigger] final(table).stack_of(p) == old(table).stack_of(p),
{
    match table.stacks.get(&db_ptr) {
        Some(stack) => stack.clone(),
        None => {
            let stack = ContextStack::default();
            let copy = stack.clone();
            table.stacks.insert(db_ptr, stack);
            copy
        },
    }
}

/// Makes `ctx` the stack of connection `db_ptr`.
pub fn set_context_stack(table: &mut ContextTable, db_ptr: usize, ctx: ContextStack)
    ensures
        final(table).stack_of(db_ptr) == ctx@,
        forall|p: usize| p != db_ptr ==> #[trigger] final(table).stack_of(p) == old(table).stack_of(p),
{
    table.stacks.insert(db_ptr, ctx);
}

/// The context that decides access for connection `db_ptr`: the top frame of
/// its stack.
pub fn effective_context(table: &mut ContextTable, db_ptr: usize) -> (r: SecurityContext)
    ensures
        r@ == old(table).stack_of(db_ptr).last().ctx,
        forall|p: usize| #[trigger] final(table).stack_of(p) == old(table).stack_of(p),
{
    let stack = get_context_stack(table, db_ptr);
    stack.effective().clone()
}

} // verus!
