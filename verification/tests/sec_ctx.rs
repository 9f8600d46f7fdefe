use lazysql::context::sec_ctx::SecurityContext;

#[test]
fn default_context_is_empty() {
    let ctx = SecurityContext::default();
    assert!(ctx.is_empty());
}

#[test]
fn set_attr_inserts_value() {
    let mut ctx = SecurityContext::default();

    ctx.set_attr("role", "admin");

    assert!(ctx.has("role", "admin"));
}

#[test]
fn set_attr_allows_multiple_values_for_same_key() {
    let mut ctx = SecurityContext::default();

    ctx.set_attr("role", "admin");
    ctx.set_attr("role", "user");

    assert!(ctx.has("role", "admin"));
    assert!(ctx.has("role", "user"));
}

#[test]
fn set_attr_does_not_duplicate_values() {
    let mut ctx = SecurityContext::default();

    ctx.set_attr("role", "admin");
    ctx.set_attr("role", "admin"); // insert same value again

    let values = ctx.get_attrs("role");
    assert_eq!(values.len(), 1);
}

#[test]
fn clear_attr_removes_key_entirely() {
    let mut ctx = SecurityContext::default();

    ctx.set_attr("role", "admin");
    assert!(ctx.has("role", "admin"));

    ctx.clear_attr("role");

    assert!(!ctx.has("role", "admin"));
    assert!(!ctx.has_key("role"));
}

#[test]
fn has_returns_false_for_missing_key() {
    let ctx = SecurityContext::default();

    assert!(!ctx.has("missing", "value"));
}

#[test]
fn merge_adds_other_context_values() {
    let mut ctx1 = SecurityContext::default();
    ctx1.set_attr("role", "admin");

    let mut ctx2 = SecurityContext::default();
    ctx2.set_attr("role", "user");
    ctx2.set_attr("team", "blue");

    ctx1.merge(&ctx2);

    // role should now contain both values
    assert!(ctx1.has("role", "admin"));
    assert!(ctx1.has("role", "user"));

    // new key should appear
    assert!(ctx1.has("team", "blue"));
}

#[test]
fn merge_does_not_remove_existing_values() {
    let mut ctx1 = SecurityContext::default();
    ctx1.set_attr("role", "admin");

    let mut ctx2 = SecurityContext::default();
    ctx2.set_attr("role", "user");

    ctx1.merge(&ctx2);

    // original still present
    assert!(ctx1.has("role", "admin"));
}

#[test]
fn merge_with_empty_context_changes_nothing() {
    let mut ctx1 = SecurityContext::default();
    ctx1.set_attr("role", "admin");

    let ctx2 = SecurityContext::default();

    ctx1.merge(&ctx2);

    assert!(ctx1.has("role", "admin"));
    assert_eq!(ctx1.len(), 1);
}

#[test]
fn clone_and_equality_work() {
    let mut ctx1 = SecurityContext::default();
    ctx1.set_attr("role", "admin");

    let ctx2 = ctx1.clone();

    assert_eq!(ctx1, ctx2);
}

#[test]
fn equality_ignores_the_order_of_claims() {
    let mut a = SecurityContext::new();
    a.set_attr("role", "admin");
    a.set_attr("team", "blue");
    a.set_attr("role", "user");
    let mut b = SecurityContext::new();
    b.set_attr("role", "user");
    b.set_attr("role", "admin");
    b.set_attr("team", "blue");
    assert_eq!(a, b);
    b.set_attr("team", "red");
    assert_ne!(a, b);
    assert_ne!(b, a);
    b.clear_attr("team");
    assert_ne!(a, b);
}

#[test]
fn get_attrs_lists_each_value_once() {
    let mut ctx = SecurityContext::new();
    assert!(ctx.get_attrs("role").is_empty());
    ctx.set_attr("role", "admin");
    ctx.set_attr("role", "auditor");
    ctx.set_attr("role", "admin");
    assert_eq!(ctx.get_attrs("role"), vec!["admin", "auditor"]);
    assert!(ctx.get_attrs("team").is_empty());
}

#[test]
fn merge_unites_the_values_of_each_attribute() {
    let mut a = SecurityContext::new();
    a.set_attr("role", "admin");
    a.set_attr("zone", "eu");
    let mut b = SecurityContext::new();
    b.set_attr("role", "admin");
    b.set_attr("role", "user");
    b.set_attr("team", "blue");
    a.merge(&b);
    assert_eq!(a.len(), 3);
    assert_eq!(a.get_attrs("role").len(), 2);
    assert!(a.has("zone", "eu"));
    assert!(a.has("team", "blue"));
    assert!(!a.has("team", "eu"));
}
