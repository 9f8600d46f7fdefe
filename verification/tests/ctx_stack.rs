use lazysql::context::ctx_stack::ContextStack;
use lazysql::context::sec_ctx::SecurityContext;
use lazysql::context::{effective_context, get_context_stack, set_context_stack, ContextTable};

#[test]
fn default_stack_has_base_context() {
    let stack = ContextStack::default();

    // Should always start with exactly one base context
    assert_eq!(stack.depth(), 1);

    // Base context name should be None
    assert!(stack.frame_name(0).is_none());
}

#[test]
fn push_adds_new_context_layer() {
    let mut stack = ContextStack::default();

    stack.push(None);

    // Now should have 2 contexts
    assert_eq!(stack.depth(), 2);

    // Top context should have no name
    assert!(stack.top_name().is_none());
}

#[test]
fn push_clones_current_context() {
    let mut stack = ContextStack::default();

    let before = stack.current().clone();
    stack.push(None);

    let after = stack.current();

    // New context should be identical to previous
    assert_eq!(&before, after);
}

#[test]
fn pop_removes_top_context_but_not_base() {
    let mut stack = ContextStack::default();

    stack.push(None);
    assert_eq!(stack.depth(), 2);

    let popped = stack.pop();
    assert!(popped.is_some());
    assert_eq!(stack.depth(), 1);

    // Base context cannot be popped
    let popped_again = stack.pop();
    assert!(popped_again.is_none());
    assert_eq!(stack.depth(), 1);
}

#[test]
fn push_named_sets_name_correctly() {
    let mut stack = ContextStack::default();

    stack.push_named("admin");

    assert_eq!(stack.depth(), 2);
    assert_eq!(stack.top_name(), Some("admin"));
}

#[test]
fn pop_named_removes_correct_context() {
    let mut stack = ContextStack::default();

    stack.push_named("first");
    stack.push_named("second");
    stack.push_named("third");

    assert_eq!(stack.depth(), 4);

    // Remove "second" from the middle
    let removed = stack.pop_named("second");
    assert!(removed.is_some());

    // Stack should shrink
    assert_eq!(stack.depth(), 3);

    // Ensure "second" no longer exists
    assert!(stack.pop_named("second").is_none());

    // Ensure top is still "third"
    assert_eq!(stack.top_name(), Some("third"));
}

#[test]
fn pop_named_returns_none_if_not_found() {
    let mut stack = ContextStack::default();

    stack.push_named("exists");

    let result = stack.pop_named("missing");
    assert!(result.is_none());
}

#[test]
fn effective_is_same_as_current() {
    let mut stack = ContextStack::default();

    stack.push_named("layer1");

    assert_eq!(stack.effective(), stack.current());
}

#[test]
fn pop_named_takes_the_topmost_of_two() {
    let mut stack = ContextStack::default();
    stack.push_named("a");
    stack.current_mut().set_attr("n", "1");
    stack.push_named("b");
    stack.push_named("a");
    stack.current_mut().set_attr("n", "2");
    let removed = stack.pop_named("a").unwrap();
    assert!(removed.has("n", "2"));
    assert_eq!(stack.depth(), 3);
    assert_eq!(stack.top_name(), Some("b"));
    assert_eq!(stack.frame_name(1), Some("a"));
    let removed = stack.pop_named("a").unwrap();
    assert!(removed.has("n", "1"));
    assert!(!removed.has("n", "2"));
}

#[test]
fn set_attr_changes_the_top_frame_only() {
    let mut stack = ContextStack::default();
    stack.set_attr("role", "user");
    stack.push(Some("elevated".to_string()));
    stack.set_attr("role", "admin");
    assert!(stack.effective().has("role", "admin"));
    assert!(stack.effective().has("role", "user"));
    let (name, top) = stack.pop().unwrap();
    assert_eq!(name.as_deref(), Some("elevated"));
    assert!(top.has("role", "admin"));
    assert!(!stack.effective().has("role", "admin"));
    assert!(stack.effective().has("role", "user"));
    assert!(stack.is_base());
}

#[test]
fn clear_leaves_a_fresh_base() {
    let mut stack = ContextStack::default();
    stack.set_attr("role", "user");
    stack.push_named("x");
    stack.clear();
    assert_eq!(stack.depth(), 1);
    assert!(stack.effective().is_empty());
    assert!(stack.frame_name(0).is_none());
}

#[test]
fn set_current_replaces_the_top_context() {
    let mut stack = ContextStack::default();
    stack.push_named("x");
    let mut ctx = SecurityContext::new();
    ctx.set_attr("team", "blue");
    stack.set_current(ctx);
    assert!(stack.current().has("team", "blue"));
    assert_eq!(stack.top_name(), Some("x"));
}

#[test]
fn context_table_keeps_one_stack_per_connection() {
    let mut table = ContextTable::new();
    let mut a = get_context_stack(&mut table, 1);
    assert_eq!(a.depth(), 1);
    a.set_attr("role", "admin");
    set_context_stack(&mut table, 1, a);
    assert!(effective_context(&mut table, 1).has("role", "admin"));
    assert!(effective_context(&mut table, 2).is_empty());
    let again = get_context_stack(&mut table, 1);
    assert!(again.effective().has("role", "admin"));
}
