//! Evaluation of labels against a security context.

use vstd::prelude::*;

use crate::context::sec_ctx::{values_of, SecurityContext};
use crate::label::parse::{parse, parse_spec};
use crate::label::{rank_of, AttrReq, AttrReqView, Clause, CompareOp, Label, LabelView, LevelTable, clause_view};

verus! {

/// Whether a context's rank stands in relation `op` to the required rank.
pub open spec fn op_holds(op: CompareOp, user: i64, required: i64) -> bool {
    match op {
        CompareOp::Eq => user == required,
        CompareOp::Ge => user >= required,
        CompareOp::Gt => user > required,
        CompareOp::Le => user <= required,
        CompareOp::Lt => user < required,
    }
}

/// Whether some value that the context claims for `key` is a defined level
/// whose rank stands in relation `op` to the rank of `required`, itself a
/// defined level. An undefined level on either side never satisfies.
pub open spec fn comparison_holds(
    ctx: Map<Seq<char>, Set<Seq<char>>>,
    levels: Map<Seq<char>, Map<Seq<char>, i64>>,
    key: Seq<char>,
    op: CompareOp,
    required: Seq<char>,
) -> bool {
    rank_of(levels, key, required) is Some && exists|v: Seq<char>|
        #![trigger values_of(ctx, key).contains(v)]
        values_of(ctx, key).contains(v) && rank_of(levels, key, v) is Some && op_holds(
            op,
            rank_of(levels, key, v)->0,
            rank_of(levels, key, required)->0,
        )
}

/// Whether the context meets one requirement: for `=`, it claims the value;
/// for the ordered operators, by rank.
pub open spec fn atom_holds(
    req: AttrReqView,
    ctx: Map<Seq<char>, Set<Seq<char>>>,
    levels: Map<Seq<char>, Map<Seq<char>, i64>>,
) -> bool {
    match req.op {
        CompareOp::Eq => values_of(ctx, req.key).contains(req.value),
        _ => comparison_holds(ctx, levels, req.key, req.op, req.value),
    }
}

/// Whether the context meets at least one requirement of the clause.
pub open spec fn clause_holds(
    clause: Seq<AttrReqView>,
    ctx: Map<Seq<char>, Set<Seq<char>>>,
    levels: Map<Seq<char>, Map<Seq<char>, i64>>,
) -> bool {
    exists|i: int| 0 <= i < clause.len() && atom_holds(#[trigger] clause[i], ctx, levels)
}

/// Whether the context satisfies the label: always, or every clause.
pub open spec fn label_holds(
    label: LabelView,
    ctx: Map<Seq<char>, Set<Seq<char>>>,
    levels: Map<Seq<char>, Map<Seq<char>, i64>>,
) -> bool {
    label.always_true || forall|i: int|
        0 <= i < label.clauses.len() ==> clause_holds(#[trigger] label.clauses[i], ctx, levels)
}

/// Evaluation is a function of the label, the context and the levels: two
/// evaluations of one label against one context under the same levels agree.
pub proof fn lemma_evaluation_is_deterministic(
    label: LabelView,
    ctx: Map<Seq<char>, Set<Seq<char>>>,
    levels: Map<Seq<char>, Map<Seq<char>, i64>>,
    first: bool,
    second: bool,
)
    requires
        first == label_holds(label, ctx, levels),
        second == label_holds(label, ctx, levels),
    ensures
        first == second,
{
}

fn holds(op: CompareOp, user: i64, required: i64) -> (r: bool)
    ensures
        r == op_holds(op, user, required),
{
    match op {
        CompareOp::Eq => user == required,
        CompareOp::Ge => user >= required,
        CompareOp::Gt => user > required,
        CompareOp::Le => user <= required,
        CompareOp::Lt => user < required,
    }
}

/// Compares the context's values for `key` with the level `required`, by
/// rank.
pub fn evaluate_comparison(
    ctx: &SecurityContext,
    levels: &LevelTable,
    key: &str,
    op: CompareOp,
    required: &str,
) -> (r: bool)
    ensures
        r == comparison_holds(ctx@, levels@, key@, op, required@),
{
    let required_level = match levels.rank(key, required) {
        Some(l) => l,
        None => { return false; },
    };
    let values = ctx.get_attrs(key);
    let mut i: usize = 0;
    while i < values.len()
        invariant
            i <= values@.len(),
            rank_of(levels@, key@, required@) == Some(required_level),
            forall|v: Seq<char>|
                values_of(ctx@, key@).contains(v) <==> exists|x: int|
                    0 <= x < values@.len() && (#[trigger] values@[x])@ == v,
            forall|j: int|
                0 <= j < i ==> !(rank_of(levels@, key@, (#[trigger] values@[j])@) is Some
                    && op_holds(op, rank_of(levels@, key@, values@[j]@)->0, required_level)),
        decreases values@.len() - i,
    {
        match levels.rank(key, values[i]) {
            Some(user_level) => {
                if holds(op, user_level, required_level) {
                    assert(values_of(ctx@, key@).contains(values@[i as int]@));
                    return true;
                }
            },
            None => {},
        }
        i += 1;
    }
    proof {
        if comparison_holds(ctx@, levels@, key@, op, required@) {
            let v = choose|v: Seq<char>|
                #![trigger values_of(ctx@, key@).contains(v)]
                values_of(ctx@, key@).contains(v) && rank_of(levels@, key@, v) is Some && op_holds(
                    op,
                    rank_of(levels@, key@, v)->0,
                    rank_of(levels@, key@, required@)->0,
                );
            let j = choose|j: int| 0 <= j < values@.len() && (#[trigger] values@[j])@ == v;
            assert(values@[j]@ == v);
        }
    }
    false
}

fn atom_evaluate(req: &AttrReq, ctx: &SecurityContext, levels: &LevelTable) -> (r: bool)
    ensures
        r == atom_holds(req@, ctx@, levels@),
{
    match req.op {
        CompareOp::Eq => ctx.has(req.key.as_str(), req.value.as_str()),
        _ => evaluate_comparison(ctx, levels, req.key.as_str(), req.op, req.value.as_str()),
    }
}

fn clause_evaluate(clause: &Clause, ctx: &SecurityContext, levels: &LevelTable) -> (r: bool)
    ensures
        r == clause_holds(clause_view(*clause), ctx@, levels@),
{
    let mut i: usize = 0;
    while i < clause.len()
        invariant
            i <= clause@.len(),
            forall|j: int|
                0 <= j < i ==> !atom_holds(#[trigger] clause_view(*clause)[j], ctx@, levels@),
        decreases clause@.len() - i,
    {
        if atom_evaluate(&clause[i], ctx, levels) {
            assert(clause_view(*clause)[i as int] == clause@[i as int]@);
            return true;
        }
        assert(clause_view(*clause)[i as int] == clause@[i as int]@);
        i += 1;
    }
    false
}

impl Label {
    /// Whether the context satisfies the label, given the levels that the
    /// ordered operators compare by.
    ///
    /// The answer depends on the label, the context and the levels alone:
    /// asking twice gives the same answer.
    pub fn evaluate(&self, ctx: &SecurityContext, levels: &LevelTable) -> (r: bool)
        ensures
            r == label_holds(self@, ctx@, levels@),
    {
        if self.always_true {
            return true;
        }
        let mut i: usize = 0;
        while i < self.clauses.len()
            invariant
                i <= self.clauses@.len(),
                !self.always_true,
                forall|j: int| 0 <= j < i ==> clause_holds(#[trigger] self@.clauses[j], ctx@, levels@),
            decreases self.clauses@.len() - i,
        {
            assert(self@.clauses[i as int] == clause_view(self.clauses@[i as int]));
            if !clause_evaluate(&self.clauses[i], ctx, levels) {
                return false;
            }
            i += 1;
        }
        true
    }
}

/// Whether an expression, read as a label, is satisfied: `Some(1)` if it is a
/// label and the context satisfies it, nothing otherwise.
pub fn evaluate_label_expr(expr: &str, ctx: &SecurityContext, levels: &LevelTable) -> (r: Option<
    i64,
>)
    ensures
        r == if parse_spec(expr@) is Some && label_holds(parse_spec(expr@)->0, ctx@, levels@) {
            Some(1i64)
        } else {
            None
        },
{
    match parse(expr) {
        Ok(label) => {
            if label.evaluate(ctx, levels) {
                Some(1)
            } else {
                None
            }
        },
        Err(_) => None,
    }
}

} // verus!
