//! The label table: each distinct expression under a stable integer id.

use vstd::prelude::*;

use crate::context::sec_ctx::SecurityContext;
use crate::label::evaluate::label_holds;
use crate::label::parse::{parse, parse_spec, ParseError};
use crate::label::{Label, LabelView, LevelTable};
use crate::text::str_eq;

verus! {

/// Why a label could not be defined.
#[derive(Debug, Clone, Copy, PartialEq, Eq, Structural)]
pub enum DefineError {
    /// The expression is not a label.
    Parse(ParseError),
    /// Every id is taken.
    NoFreeId,
}

/// Why a label could not be evaluated by its id.
#[derive(Debug, Clone, Copy, PartialEq, Eq, Structural)]
pub enum LabelError {
    /// No label has this id.
    UnknownLabel,
    /// The expression stored under this id is not a label.
    InvalidLabel,
}

#[derive(Debug)]
struct LabelRow {
    id: i64,
    expr: String,
    label: Option<Label>,
}

/// One row of the label table, as mathematics. `label` is what the row's
/// expression denotes.
pub struct LabelRowView {
    pub id: i64,
    pub expr: Seq<char>,
    pub label: Option<LabelView>,
}

/// The label table. Of two rows with one expression, or with one id, the
/// earlier is the one that counts.
#[derive(Debug)]
pub struct LabelTable {
    rows: Vec<LabelRow>,
}

/// The first row, if any, that holds `expr`.
pub open spec fn find_expr(rows: Seq<LabelRowView>, expr: Seq<char>) -> Option<int>
    decreases rows.len(),
{
    if rows.len() == 0 {
        None
    } else if find_expr(rows.drop_last(), expr) is Some {
        find_expr(rows.drop_last(), expr)
    } else if rows.last().expr == expr {
        Some(rows.len() - 1)
    } else {
        None
    }
}

/// The first row, if any, with the id `id`.
pub open spec fn find_id(rows: Seq<LabelRowView>, id: i64) -> Option<int>
    decreases rows.len(),
{
    if rows.len() == 0 {
        None
    } else if find_id(rows.drop_last(), id) is Some {
        find_id(rows.drop_last(), id)
    } else if rows.last().id == id {
        Some(rows.len() - 1)
    } else {
        None
    }
}

/// The greatest id in the table, or zero for a table whose ids are all below
/// one.
pub open spec fn max_id(rows: Seq<LabelRowView>) -> i64
    decreases rows.len(),
{
    if rows.len() == 0 {
        0
    } else if rows.last().id > max_id(rows.drop_last()) {
        rows.last().id
    } else {
        max_id(rows.drop_last())
    }
}

/// Whether the label with id `label_id` lets the context through: no id lets
/// everything through; an id without a label, or with an expression that is
/// no label, lets nothing through.
pub open spec fn visible(
    rows: Seq<LabelRowView>,
    levels: Map<Seq<char>, Map<Seq<char>, i64>>,
    label_id: Option<i64>,
    ctx: Map<Seq<char>, Set<Seq<char>>>,
) -> bool {
    match label_id {
        None => true,
        Some(id) => match find_id(rows, id) {
            None => false,
            Some(i) => rows[i].label is Some && label_holds(rows[i].label->0, ctx, levels),
        },
    }
}

proof fn lemma_find_expr(rows: Seq<LabelRowView>, expr: Seq<char>)
    ensures
        match find_expr(rows, expr) {
            Some(i) => 0 <= i < rows.len() && rows[i].expr == expr && find_expr(
                rows.take(i),
                expr,
            ) is None,
            None => forall|j: int| 0 <= j < rows.len() ==> (#[trigger] rows[j]).expr != expr,
        },
    decreases rows.len(),
{
    if rows.len() > 0 {
        lemma_find_expr(rows.drop_last(), expr);
        match find_expr(rows.drop_last(), expr) {
            Some(i) => {
                assert(rows.drop_last().take(i) =~= rows.take(i));
            },
            None => {
                if rows.last().expr == expr {
                    assert(rows.take(rows.len() - 1) =~= rows.drop_last());
                } else {
                    assert forall|j: int| 0 <= j < rows.len() implies (#[trigger] rows[j]).expr
                        != expr by {
                        if j < rows.len() - 1 {
                            assert(rows.drop_last()[j].expr != expr);
                        }
                    }
                }
            },
        }
    }
}

proof fn lemma_find_id(rows: Seq<LabelRowView>, id: i64)
    ensures
        match find_id(rows, id) {
            Some(i) => 0 <= i < rows.len() && rows[i].id == id && find_id(rows.take(i), id) is None,
            None => forall|j: int| 0 <= j < rows.len() ==> (#[trigger] rows[j]).id != id,
        },
    decreases rows.len(),
{
    if rows.len() > 0 {
        lemma_find_id(rows.drop_last(), id);
        match find_id(rows.drop_last(), id) {
            Some(i) => {
                assert(rows.drop_last().take(i) =~= rows.take(i));
            },
            None => {
                if rows.last().id == id {
                    assert(rows.take(rows.len() - 1) =~= rows.drop_last());
                } else {
                    assert forall|j: int| 0 <= j < rows.len() implies (#[trigger] rows[j]).id
                        != id by {
                        if j < rows.len() - 1 {
                            assert(rows.drop_last()[j].id != id);
                        }
                    }
                }
            },
        }
    }
}

/// No row's id is above the greatest id.
pub proof fn lemma_max_id(rows: Seq<LabelRowView>)
    ensures
        max_id(rows) >= 0,
        forall|j: int| 0 <= j < rows.len() ==> (#[trigger] rows[j]).id <= max_id(rows),
    decreases rows.len(),
{
    if rows.len() > 0 {
        lemma_max_id(rows.drop_last());
        assert forall|j: int| 0 <= j < rows.len() implies (#[trigger] rows[j]).id <= max_id(
            rows,
        ) by {
            if j < rows.len() - 1 {
                assert(rows.drop_last()[j].id <= max_id(rows.drop_last()));
            }
        }
    }
}

/// The id after the greatest is no row's id.
pub proof fn lemma_next_id_is_free(rows: Seq<LabelRowView>)
    requires
        max_id(rows) < i64::MAX,
    ensures
        find_id(rows, (max_id(rows) + 1) as i64) is None,
{
    lemma_max_id(rows);
    lemma_find_id(rows, (max_id(rows) + 1) as i64);
}

/// A row that is added behind the others is found by its expression unless
/// an earlier row holds the same expression, and by its id unless an earlier
/// row has the same id.
pub proof fn lemma_added_row_is_found(rows: Seq<LabelRowView>, row: LabelRowView)
    ensures
        find_expr(rows, row.expr) is None ==> find_expr(rows.push(row), row.expr) == Some(
            rows.len() as int,
        ),
        find_id(rows, row.id) is None ==> find_id(rows.push(row), row.id) == Some(
            rows.len() as int,
        ),
        forall|e: Seq<char>|
            find_expr(rows, e) is Some ==> #[trigger] find_expr(rows.push(row), e) == find_expr(
                rows,
                e,
            ),
        forall|i: i64|
            find_id(rows, i) is Some ==> #[trigger] find_id(rows.push(row), i) == find_id(rows, i),
{
    assert(rows.push(row).drop_last() =~= rows);
}

impl LabelRow {
    spec fn view(&self) -> LabelRowView {
        LabelRowView {
            id: self.id,
            expr: self.expr@,
            label: match self.label {
                Some(l) => Some(l@),
                None => None,
            },
        }
    }
}

impl View for LabelTable {
    type V = Seq<LabelRowView>;

    closed spec fn view(&self) -> Seq<LabelRowView> {
        Seq::new(self.rows@.len(), |i: int| self.rows@[i].view())
    }
}

impl LabelTable {
    /// The empty table.
    pub fn new() -> (r: Self)
        ensures
            r@ == Seq::<LabelRowView>::empty(),
    {
        let r = LabelTable { rows: Vec::new() };
        assert(r@ =~= Seq::<LabelRowView>::empty());
        r
    }

    /// Forgets every label.
    pub fn clear(&mut self)
        ensures
            final(self)@ == Seq::<LabelRowView>::empty(),
    {
        self.rows.clear();
        assert(self@ =~= Seq::<LabelRowView>::empty());
    }

    /// How many rows the table holds.
    pub fn len(&self) -> (r: usize)
        ensures
            r == self@.len(),
    {
        self.rows.len()
    }

    /// The id and expression of row `i`.
    pub fn row(&self, i: usize) -> (r: (i64, &str))
        requires
            i < self@.len(),
        ensures
            r.0 == self@[i as int].id,
            r.1@ == self@[i as int].expr,
    {
        (self.rows[i].id, self.rows[i].expr.as_str())
    }

    fn position_of_expr(&self, expr: &str) -> (r: Option<usize>)
        ensures
            match find_expr(self@, expr@) {
                Some(i) => r is Some && r->0 == i && 0 <= i < self@.len(),
                None => r is None,
            },
    {
        let mut i: usize = 0;
        while i < self.rows.len()
            invariant
                i <= self.rows@.len(),
                forall|j: int| 0 <= j < i ==> (#[trigger] self@[j]).expr != expr@,
            decreases self.rows@.len() - i,
        {
            if str_eq(self.rows[i].expr.as_str(), expr) {
                proof {
                    lemma_find_expr(self@, expr@);
                    let found = find_expr(self@, expr@);
                    assert(self@[i as int].expr == expr@);
                    if found->0 > i {
                        lemma_find_expr(self@.take(found->0), expr@);
                        assert(self@.take(found->0)[i as int].expr == expr@);
                    }
                }
                return Some(i);
            }
            i += 1;
        }
        proof {
            lemma_find_expr(self@, expr@);
        }
        None
    }

    fn position_of_id(&self, id: i64) -> (r: Option<usize>)
        ensures
            match find_id(self@, id) {
                Some(i) => r is Some && r->0 == i && 0 <= i < self@.len(),
                None => r is None,
            },
    {
        let mut i: usize = 0;
        while i < self.rows.len()
            invariant
                i <= self.rows@.len(),
                forall|j: int| 0 <= j < i ==> (#[trigger] self@[j]).id != id,
            decreases self.rows@.len() - i,
        {
            if self.rows[i].id == id {
                proof {
                    lemma_find_id(self@, id);
                    let found = find_id(self@, id);
                    assert(self@[i as int].id == id);
                    if found->0 > i {
                        lemma_find_id(self@.take(found->0), id);
                        assert(self@.take(found->0)[i as int].id == id);
                    }
                }
                return Some(i);
            }
            i += 1;
        }
        proof {
            lemma_find_id(self@, id);
        }
        None
    }

    fn greatest_id(&self) -> (r: i64)
        ensures
            r == max_id(self@),
    {
        let mut best: i64 = 0;
        let mut i: usize = 0;
        assert(self@.take(0) =~= Seq::<LabelRowView>::empty());
        while i < self.rows.len()
            invariant
                i <= self.rows@.len(),
                best == max_id(self@.take(i as int)),
            decreases self.rows@.len() - i,
        {
            proof {
                assert(self@.take(i as int + 1).drop_last() =~= self@.take(i as int));
                assert(self@.take(i as int + 1).last() == self@[i as int]);
            }
            if self.rows[i].id > best {
                best = self.rows[i].id;
            }
            i += 1;
        }
        assert(self@.take(self@.len() as int) =~= self@);
        best
    }

    /// Adds a row as it was stored elsewhere: `expr` under `id`, whether or
    /// not `expr` is a label.
    pub fn insert_row(&mut self, id: i64, expr: &str)
        ensures
            final(self)@ == old(self)@.push(
                LabelRowView { id, expr: expr@, label: parse_spec(expr@) },
            ),
    {
        let ghost before = self@;
        let label = match parse(expr) {
            Ok(l) => Some(l),
            Err(_) => None,
        };
        self.rows.push(LabelRow { id, expr: expr.to_owned(), label });
        assert(self@ =~= before.push(LabelRowView { id, expr: expr@, label: parse_spec(expr@) }));
    }
}

/// Defines the label `expr` and returns its id.
///
/// An expression that is no label is refused and nothing changes. One that
/// the table holds keeps its id. A new one gets the id after the greatest.
pub fn define_label(labels: &mut LabelTable, expr: &str) -> (r: Result<i64, DefineError>)
    ensures
        parse_spec(expr@) is None ==> r == Err::<i64, DefineError>(
            DefineError::Parse(ParseError::InvalidExpression),
        ) && final(labels)@ == old(labels)@,
        r is Ok ==> find_expr(final(labels)@, expr@) is Some && final(labels)@[find_expr(
            final(labels)@,
            expr@,
        )->0].id == r->Ok_0,
        parse_spec(expr@) is Some ==> match find_expr(old(labels)@, expr@) {
            Some(i) => r == Ok::<i64, DefineError>(old(labels)@[i].id) && final(labels)@ == old(labels)@,
            None => if max_id(old(labels)@) == i64::MAX {
                r == Err::<i64, DefineError>(DefineError::NoFreeId) && final(labels)@ == old(labels)@
            } else {
                r == Ok::<i64, DefineError>((max_id(old(labels)@) + 1) as i64) && final(labels)@
                    == old(labels)@.push(
                    LabelRowView {
                        id: (max_id(old(labels)@) + 1) as i64,
                        expr: expr@,
                        label: parse_spec(expr@),
                    },
                )
            },
        },
{
    let label = match parse(expr) {
        Ok(l) => l,
        Err(e) => { return Err(DefineError::Parse(e)); },
    };
    match labels.position_of_expr(expr) {
        Some(i) => {
            assert(labels@[i as int].id == labels.rows@[i as int].id);
            proof {
                lemma_find_expr(labels@, expr@);
            }
            return Ok(labels.rows[i].id);
        },
        None => {},
    }
    let top = labels.greatest_id();
    if top == i64::MAX {
        return Err(DefineError::NoFreeId);
    }
    let id = top + 1;
    let ghost before = labels@;
    labels.rows.push(LabelRow { id, expr: expr.to_owned(), label: Some(label) });
    proof {
        let row = LabelRowView { id, expr: expr@, label: parse_spec(expr@) };
        assert(labels@ =~= before.push(row));
        lemma_added_row_is_found(before, row);
    }
    Ok(id)
}

/// Evaluates the label with id `label_id` against the context.
pub fn evaluate_by_id(
    labels: &LabelTable,
    levels: &LevelTable,
    label_id: i64,
    ctx: &SecurityContext,
) -> (r: Result<bool, LabelError>)
    ensures
        match find_id(labels@, label_id) {
            None => r == Err::<bool, LabelError>(LabelError::UnknownLabel),
            Some(i) => match labels@[i].label {
                None => r == Err::<bool, LabelError>(LabelError::InvalidLabel),
                Some(l) => r == Ok::<bool, LabelError>(label_holds(l, ctx@, levels@)),
            },
        },
{
    match labels.position_of_id(label_id) {
        None => Err(LabelError::UnknownLabel),
        Some(i) => {
            assert(labels@[i as int] == labels.rows@[i as int].view());
            match &labels.rows[i].label {
                None => Err(LabelError::InvalidLabel),
                Some(l) => Ok(l.evaluate(ctx, levels)),
            }
        },
    }
}

/// Whether the label with id `label_id` lets the context through.
pub fn is_visible(
    labels: &LabelTable,
    levels: &LevelTable,
    label_id: Option<i64>,
    ctx: &SecurityContext,
) -> (r: bool)
    ensures
        r == visible(labels@, levels@, label_id, ctx@),
{
    match label_id {
        None => true,
        Some(id) => match evaluate_by_id(labels, levels, id, ctx) {
            Ok(b) => b,
            Err(_) => false,
        },
    }
}

} // verus!
