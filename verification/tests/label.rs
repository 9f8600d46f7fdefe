use lazysql::context::sec_ctx::SecurityContext;
use lazysql::label::define::{
    define_label, evaluate_by_id, is_visible, DefineError, LabelError, LabelTable,
};
use lazysql::label::evaluate::{evaluate_comparison as compare_by_rank, evaluate_label_expr};
use lazysql::label::parse::{parse, ParseError};
use lazysql::label::{CompareOp, LevelTable};
use lazysql::text::trim_text;

fn clearance() -> LevelTable {
    let mut levels = LevelTable::new();
    levels.define_level("clearance", "public", 0);
    levels.define_level("clearance", "confidential", 1);
    levels.define_level("clearance", "secret", 2);
    levels.define_level("clearance", "top_secret", 3);
    levels
}

#[test]
fn parse_parse_simple() {
    let label = parse("role=admin").unwrap();
    assert_eq!(label.clauses.len(), 1);
    assert_eq!(label.clauses[0].len(), 1);
    assert_eq!(label.clauses[0][0].op, CompareOp::Eq);
}

#[test]
fn parse_comparison() {
    let label = parse("clearance>=secret").unwrap();
    assert_eq!(label.clauses.len(), 1);
    assert_eq!(label.clauses[0][0].key, "clearance");
    assert_eq!(label.clauses[0][0].op, CompareOp::Ge);
    assert_eq!(label.clauses[0][0].value, "secret");
}

#[test]
fn parse_or_with_comparisons() {
    let label = parse("(clearance>=secret|role=admin)").unwrap();
    assert_eq!(label.clauses.len(), 1);
    assert_eq!(label.clauses[0].len(), 2);
}

#[test]
fn parse_parse_and_of_ors() {
    let label = parse("(role=admin|role=auditor)&clearance>=confidential").unwrap();
    assert_eq!(label.clauses.len(), 2);
}

#[test]
fn parse_parse_or_group() {
    let label = parse("(role=admin|role=auditor)").unwrap();
    assert_eq!(label.clauses.len(), 1);
    assert_eq!(label.clauses[0].len(), 2);
}

#[test]
fn label_parse_simple() {
    let label = parse("role=admin").unwrap();
    assert_eq!(label.clauses.len(), 1);
    assert_eq!(label.clauses[0].len(), 1);
}

#[test]
fn label_parse_or_group() {
    let label = parse("(role=admin|role=auditor)").unwrap();
    assert_eq!(label.clauses.len(), 1);
    assert_eq!(label.clauses[0].len(), 2);
}

#[test]
fn label_parse_and_of_ors() {
    let label = parse("(role=admin|role=auditor)&team=finance").unwrap();
    assert_eq!(label.clauses.len(), 2);
}

#[test]
fn evaluate_evaluate_simple() {
    let label = parse("role=admin").unwrap();
    let mut ctx = SecurityContext::default();
    let levels = LevelTable::new();

    assert!(!label.evaluate(&ctx, &levels));

    ctx.set_attr("role", "admin");
    assert!(label.evaluate(&ctx, &levels));
}

#[test]
fn evaluate_comparison() {
    let levels = clearance();

    let label = parse("clearance>=confidential").unwrap();

    let mut ctx = SecurityContext::default();
    ctx.set_attr("clearance", "public");
    assert!(!label.evaluate(&ctx, &levels)); // 0 >= 1 is false

    ctx.set_attr("clearance", "confidential");
    assert!(label.evaluate(&ctx, &levels)); // 1 >= 1

    ctx.set_attr("clearance", "secret");
    assert!(label.evaluate(&ctx, &levels)); // 2 >= 1

    ctx.set_attr("clearance", "top_secret");
    assert!(label.evaluate(&ctx, &levels)); // 3 >= 1
}

#[test]
fn evaluate_evaluate_or() {
    let label = parse("(role=admin|role=auditor)").unwrap();
    let mut ctx = SecurityContext::default();

    ctx.set_attr("role", "auditor");
    assert!(label.evaluate(&ctx, &LevelTable::new()));
}

#[test]
fn evaluate_evaluate_and() {
    let label = parse("role=admin&team=finance").unwrap();
    let mut ctx = SecurityContext::default();
    let levels = LevelTable::new();

    ctx.set_attr("role", "admin");
    assert!(!label.evaluate(&ctx, &levels));

    ctx.set_attr("team", "finance");
    assert!(label.evaluate(&ctx, &levels));
}

#[test]
fn label_evaluate_simple() {
    let label = parse("role=admin").unwrap();
    let mut ctx = SecurityContext::default();
    let levels = LevelTable::new();

    assert!(!label.evaluate(&ctx, &levels));

    ctx.set_attr("role", "admin");
    assert!(label.evaluate(&ctx, &levels));
}

#[test]
fn label_evaluate_or() {
    let label = parse("(role=admin|role=auditor)").unwrap();
    let mut ctx = SecurityContext::default();

    ctx.set_attr("role", "auditor");
    assert!(label.evaluate(&ctx, &LevelTable::new()));
}

#[test]
fn label_evaluate_and() {
    let label = parse("role=admin&team=finance").unwrap();
    let mut ctx = SecurityContext::default();
    let levels = LevelTable::new();

    ctx.set_attr("role", "admin");
    assert!(!label.evaluate(&ctx, &levels));

    ctx.set_attr("team", "finance");
    assert!(label.evaluate(&ctx, &levels));
}

#[test]
fn levels_compare_by_rank() {
    let levels = clearance();
    let label = parse("clearance>=confidential").unwrap();
    let mut public = SecurityContext::new();
    public.set_attr("clearance", "public");
    assert!(!label.evaluate(&public, &levels));
    let mut secret = SecurityContext::new();
    secret.set_attr("clearance", "secret");
    assert!(label.evaluate(&secret, &levels));
}

#[test]
fn every_operator_compares_by_rank() {
    let levels = clearance();
    let mut ctx = SecurityContext::new();
    ctx.set_attr("clearance", "secret");
    let cases = [
        ("clearance>secret", false),
        ("clearance>confidential", true),
        ("clearance>=secret", true),
        ("clearance>=top_secret", false),
        ("clearance<secret", false),
        ("clearance<top_secret", true),
        ("clearance<=secret", true),
        ("clearance<=confidential", false),
        ("clearance=secret", true),
        ("clearance=public", false),
    ];
    for (expr, expected) in cases {
        assert_eq!(parse(expr).unwrap().evaluate(&ctx, &levels), expected, "{}", expr);
    }
}

#[test]
fn unknown_levels_never_satisfy() {
    let levels = clearance();
    let mut ctx = SecurityContext::new();
    ctx.set_attr("clearance", "cosmic");
    assert!(!parse("clearance>=public").unwrap().evaluate(&ctx, &levels));
    assert!(!parse("clearance<=top_secret").unwrap().evaluate(&ctx, &levels));
    ctx.set_attr("clearance", "secret");
    assert!(!parse("clearance>=cosmic").unwrap().evaluate(&ctx, &levels));
    assert!(!parse("rank>=public").unwrap().evaluate(&ctx, &levels));
    assert!(!compare_by_rank(&ctx, &LevelTable::new(), "clearance", CompareOp::Ge, "public"));
    assert!(compare_by_rank(&ctx, &levels, "clearance", CompareOp::Gt, "public"));
}

#[test]
fn true_is_always_satisfied() {
    let label = parse("true").unwrap();
    assert!(label.always_true);
    assert!(label.clauses.is_empty());
    assert!(label.evaluate(&SecurityContext::new(), &LevelTable::new()));
    assert!(parse("  true\n").unwrap().always_true);
}

#[test]
fn evaluation_is_repeatable() {
    let label = parse("(role=admin|clearance>=secret)&team=finance").unwrap();
    let levels = clearance();
    let mut ctx = SecurityContext::new();
    ctx.set_attr("team", "finance");
    ctx.set_attr("clearance", "top_secret");
    let first = label.evaluate(&ctx, &levels);
    assert!(first);
    for _ in 0..3 {
        assert_eq!(label.evaluate(&ctx, &levels), first);
    }
    assert_eq!(label.clone().evaluate(&ctx.clone(), &levels), first);
}

#[test]
fn parse_reads_operators_keys_and_values() {
    let label = parse(" (a_1<=B2|c<d|e>f)&g=h ").unwrap();
    assert!(!label.always_true);
    assert_eq!(label.clauses.len(), 2);
    let first = &label.clauses[0];
    assert_eq!(first.len(), 3);
    assert_eq!((first[0].key.as_str(), first[0].op, first[0].value.as_str()), ("a_1", CompareOp::Le, "B2"));
    assert_eq!((first[1].key.as_str(), first[1].op, first[1].value.as_str()), ("c", CompareOp::Lt, "d"));
    assert_eq!((first[2].key.as_str(), first[2].op, first[2].value.as_str()), ("e", CompareOp::Gt, "f"));
    let second = &label.clauses[1];
    assert_eq!((second[0].key.as_str(), second[0].op, second[0].value.as_str()), ("g", CompareOp::Eq, "h"));
}

#[test]
fn parse_refuses_what_is_no_label() {
    for expr in [
        "",
        "   ",
        "role",
        "role=",
        "=admin",
        "role==admin",
        "role=admin&",
        "&role=admin",
        "role=admin|role=user",
        "(role=admin",
        "role=admin)",
        "()",
        "(role=admin|)",
        "role = admin",
        "role=admin & team=x",
        "role=ad-min",
        "r\u{00f4}le=admin",
        "true&role=admin",
        "((role=admin))",
        "role=>admin",
    ] {
        assert_eq!(parse(expr).err(), Some(ParseError::InvalidExpression), "{:?}", expr);
    }
}

#[test]
fn trim_text_removes_unicode_white_space() {
    assert_eq!(trim_text("\u{00a0}\t a b \u{2003}\n"), "a b");
    assert_eq!(trim_text(" \u{3000} "), "");
    assert_eq!(trim_text("x"), "x");
    assert!(parse("\u{00a0}role=admin\u{2028}").is_ok());
}

#[test]
fn evaluate_label_expr_answers_one_or_nothing() {
    let mut ctx = SecurityContext::new();
    ctx.set_attr("role", "admin");
    let levels = LevelTable::new();
    assert_eq!(evaluate_label_expr("role=admin", &ctx, &levels), Some(1));
    assert_eq!(evaluate_label_expr("role=user", &ctx, &levels), None);
    assert_eq!(evaluate_label_expr("role=", &ctx, &levels), None);
}

#[test]
fn a_label_needs_every_clause() {
    let label = parse("role=admin&team=finance").unwrap();
    let mut ctx = SecurityContext::new();
    ctx.set_attr("role", "admin");
    assert!(!label.evaluate(&ctx, &LevelTable::new()));
    ctx.set_attr("team", "finance");
    assert!(label.evaluate(&ctx, &LevelTable::new()));
}

#[test]
fn define_label_gives_stable_ids() {
    let mut labels = LabelTable::new();
    assert_eq!(define_label(&mut labels, "true"), Ok(1));
    assert_eq!(define_label(&mut labels, "role=admin"), Ok(2));
    assert_eq!(define_label(&mut labels, "true"), Ok(1));
    assert_eq!(define_label(&mut labels, "role=admin"), Ok(2));
    assert_eq!(
        define_label(&mut labels, "role="),
        Err(DefineError::Parse(ParseError::InvalidExpression))
    );
    assert_eq!(labels.len(), 2);
    assert_eq!(labels.row(1), (2, "role=admin"));
    labels.insert_row(40, "team=blue");
    assert_eq!(define_label(&mut labels, "team=red"), Ok(41));
    labels.insert_row(i64::MAX, "zone=eu");
    assert_eq!(define_label(&mut labels, "zone=us"), Err(DefineError::NoFreeId));
    assert_eq!(define_label(&mut labels, "zone=eu"), Ok(i64::MAX));
}

#[test]
fn visibility_by_label_id() {
    let mut labels = LabelTable::new();
    let admin = define_label(&mut labels, "role=admin").unwrap();
    labels.insert_row(7, "not a label");
    let levels = LevelTable::new();
    let mut ctx = SecurityContext::new();
    assert!(is_visible(&labels, &levels, None, &ctx));
    assert!(!is_visible(&labels, &levels, Some(admin), &ctx));
    assert!(!is_visible(&labels, &levels, Some(99), &ctx));
    assert!(!is_visible(&labels, &levels, Some(7), &ctx));
    assert_eq!(evaluate_by_id(&labels, &levels, 99, &ctx), Err(LabelError::UnknownLabel));
    assert_eq!(evaluate_by_id(&labels, &levels, 7, &ctx), Err(LabelError::InvalidLabel));
    assert_eq!(evaluate_by_id(&labels, &levels, admin, &ctx), Ok(false));
    ctx.set_attr("role", "admin");
    assert_eq!(evaluate_by_id(&labels, &levels, admin, &ctx), Ok(true));
    assert!(is_visible(&labels, &levels, Some(admin), &ctx));
    labels.clear();
    assert!(!is_visible(&labels, &levels, Some(admin), &ctx));
}

#[test]
fn levels_can_be_redefined_and_cleared() {
    let mut levels = LevelTable::new();
    assert_eq!(levels.rank("clearance", "secret"), None);
    assert_eq!(levels.define_level("clearance", "secret", 2), 2);
    assert_eq!(levels.define_level("clearance", "public", 0), 0);
    assert_eq!(levels.define_level("tier", "secret", 9), 9);
    assert_eq!(levels.rank("clearance", "secret"), Some(2));
    assert_eq!(levels.rank("tier", "secret"), Some(9));
    assert_eq!(levels.define_level("clearance", "secret", -5), -5);
    assert_eq!(levels.rank("clearance", "secret"), Some(-5));
    assert_eq!(levels.rank("clearance", "public"), Some(0));
    levels.clear();
    assert_eq!(levels.rank("clearance", "public"), None);
}

#[test]
fn parse_simple() {
    let label = parse("role=admin").unwrap();
    assert_eq!(label.clauses.len(), 1);
    assert_eq!(label.clauses[0].len(), 1);
}

#[test]
fn parse_and_of_ors() {
    let label = parse("(role=admin|role=auditor)&team=finance").unwrap();
    assert_eq!(label.clauses.len(), 2);
}

#[test]
fn evaluate_simple() {
    let label = parse("role=admin").unwrap();
    let mut ctx = SecurityContext::default();
    let levels = LevelTable::new();

    assert!(!label.evaluate(&ctx, &levels));

    ctx.set_attr("role", "admin");
    assert!(label.evaluate(&ctx, &levels));
}

#[test]
fn evaluate_or() {
    let label = parse("(role=admin|role=auditor)").unwrap();
    let mut ctx = SecurityContext::default();

    ctx.set_attr("role", "auditor");
    assert!(label.evaluate(&ctx, &LevelTable::new()));
}

#[test]
fn evaluate_and() {
    let label = parse("role=admin&team=finance").unwrap();
    let mut ctx = SecurityContext::default();
    let levels = LevelTable::new();

    ctx.set_attr("role", "admin");
    assert!(!label.evaluate(&ctx, &levels));

    ctx.set_attr("team", "finance");
    assert!(label.evaluate(&ctx, &levels));
}
