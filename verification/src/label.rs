//! Labels: boolean conditions on a security context, in conjunctive normal
//! form.
//!
//! A label is a conjunction of clauses; a clause is a disjunction of
//! requirements; a requirement compares one attribute with one value.

pub mod define;
pub mod evaluate;
pub mod parse;

use vstd::prelude::*;

use crate::table::StrTable;

verus! {

/// How a requirement compares the context's value with its own.
#[derive(Debug, Clone, Copy, PartialEq, Eq, Structural)]
pub enum CompareOp {
    /// `=`
    Eq,
    /// `>=`
    Ge,
    /// `>`
    Gt,
    /// `<=`
    Le,
    /// `<`
    Lt,
}

/// One requirement, such as `role=admin` or `clearance>=secret`.
#[derive(Debug)]
pub struct AttrReq {
    pub key: String,
    pub op: CompareOp,
    pub value: String,
}

/// A disjunction: any one of its requirements satisfies it.
pub type Clause = Vec<AttrReq>;

/// A conjunction of clauses, or the label that is always true.
#[derive(Debug)]
pub struct Label {
    pub clauses: Vec<Clause>,
    pub always_true: bool,
}

/// A requirement as mathematics.
pub struct AttrReqView {
    pub key: Seq<char>,
    pub op: CompareOp,
    pub value: Seq<char>,
}

/// A label as mathematics.
pub struct LabelView {
    pub clauses: Seq<Seq<AttrReqView>>,
    pub always_true: bool,
}

impl View for AttrReq {
    type V = AttrReqView;

    open spec fn view(&self) -> AttrReqView {
        AttrReqView { key: self.key@, op: self.op, value: self.value@ }
    }
}

/// A clause as mathematics.
pub open spec fn clause_view(clause: Clause) -> Seq<AttrReqView> {
    Seq::new(clause@.len(), |i: int| clause@[i]@)
}

impl View for Label {
    type V = LabelView;

    open spec fn view(&self) -> LabelView {
        LabelView {
            clauses: Seq::new(self.clauses@.len(), |i: int| clause_view(self.clauses@[i])),
            always_true: self.always_true,
        }
    }
}

impl Clone for AttrReq {
    fn clone(&self) -> (r: Self)
        ensures
            r@ == self@,
    {
        AttrReq { key: self.key.clone(), op: self.op, value: self.value.clone() }
    }
}

/// A copy of a clause.
pub fn clone_clause(clause: &Clause) -> (r: Clause)
    ensures
        clause_view(r) == clause_view(*clause),
{
    let mut out: Vec<AttrReq> = Vec::new();
    let mut i: usize = 0;
    while i < clause.len()
        invariant
            i <= clause@.len(),
            out@.len() == i,
            forall|j: int| 0 <= j < i ==> (#[trigger] out@[j])@ == clause@[j]@,
        decreases clause@.len() - i,
    {
        out.push(clause[i].clone());
        i += 1;
    }
    assert(clause_view(out) =~= clause_view(*clause));
    out
}

impl Clone for Label {
    fn clone(&self) -> (r: Self)
        ensures
            r@ == self@,
    {
        let mut clauses: Vec<Clause> = Vec::new();
        let mut i: usize = 0;
        while i < self.clauses.len()
            invariant
                i <= self.clauses@.len(),
                clauses@.len() == i,
                forall|j: int|
                    0 <= j < i ==> clause_view(#[trigger] clauses@[j]) == clause_view(
                        self.clauses@[j],
                    ),
            decreases self.clauses@.len() - i,
        {
            clauses.push(clone_clause(&self.clauses[i]));
            i += 1;
        }
        let r = Label { clauses, always_true: self.always_true };
        assert(r@.clauses =~= self@.clauses);
        r
    }
}

/// The named levels of each attribute: `clearance -> {public: 0, secret: 2}`.
#[derive(Debug)]
pub struct LevelTable {
    levels: StrTable<StrTable<i64>>,
}

/// The rank of level `name` of attribute `attr`, where it is defined.
pub open spec fn rank_of(
    levels: Map<Seq<char>, Map<Seq<char>, i64>>,
    attr: Seq<char>,
    name: Seq<char>,
) -> Option<i64> {
    if levels.contains_key(attr) && levels[attr].contains_key(name) {
        Some(levels[attr][name])
    } else {
        None
    }
}

impl View for LevelTable {
    type V = Map<Seq<char>, Map<Seq<char>, i64>>;

    closed spec fn view(&self) -> Map<Seq<char>, Map<Seq<char>, i64>> {
        Map::new(|a: Seq<char>| self.levels.contains(a), |a: Seq<char>| self.levels.value(a).map())
    }
}

impl LevelTable {
    /// A table with no level defined.
    pub fn new() -> (r: Self)
        ensures
            r@ == Map::<Seq<char>, Map<Seq<char>, i64>>::empty(),
    {
        let r = LevelTable { levels: StrTable::new() };
        assert(r@ =~= Map::<Seq<char>, Map<Seq<char>, i64>>::empty());
        r
    }

    /// Forgets every level.
    pub fn clear(&mut self)
        ensures
            final(self)@ == Map::<Seq<char>, Map<Seq<char>, i64>>::empty(),
    {
        self.levels = StrTable::new();
        assert(self@ =~= Map::<Seq<char>, Map<Seq<char>, i64>>::empty());
    }

    /// The rank of level `name` of attribute `attr`, where it is defined.
    pub fn rank(&self, attr: &str, name: &str) -> (r: Option<i64>)
        ensures
            r == rank_of(self@, attr@, name@),
    {
        match self.levels.get(attr) {
            None => None,
            Some(names) => match names.get(name) {
                None => None,
                Some(v) => Some(*v),
            },
        }
    }

    /// Gives level `name` of attribute `attr` the rank `value`, replacing the
    /// rank it had.
    pub fn define_level(&mut self, attr: &str, name: &str, value: i64) -> (r: i64)
        ensures
            r == value,
            rank_of(final(self)@, attr@, name@) == Some(value),
            forall|a: Seq<char>, n: Seq<char>|
                a != attr@ || n != name@ ==> #[trigger] rank_of(final(self)@, a, n) == rank_of(
                    old(self)@,
                    a,
                    n,
                ),
    {
        let ghost before = *self;
        let mut names = match self.levels.remove(attr) {
            Some(t) => t,
            None => StrTable::new(),
        };
        let ghost had = names;
        names.insert(name, value);
        self.levels.insert(attr, names);
        proof {
            assert(self.levels.map() == before.levels.map().remove(attr@).insert(attr@, names));
            assert forall|a: Seq<char>| self@.contains_key(a) == (a == attr@
                || before@.contains_key(a)) by {
                assert(self.levels.map().dom().contains(a) == self.levels.contains(a));
                assert(before.levels.map().dom().contains(a) == before.levels.contains(a));
            }
            assert forall|a: Seq<char>| self@.contains_key(a) && a != attr@ implies self@[a]
                == before@[a] by {
                assert(self.levels.map()[a] == self.levels.value(a));
                assert(before.levels.map()[a] == before.levels.value(a));
            }
            assert(self.levels.map()[attr@] == self.levels.value(attr@));
            assert(self@[attr@] == had.map().insert(name@, value));
            if before@.contains_key(attr@) {
                assert(before.levels.map()[attr@] == before.levels.value(attr@));
                assert(had.map() == before@[attr@]);
            } else {
                assert(had.map() =~= Map::<Seq<char>, i64>::empty());
            }
        }
        value
    }
}

} // verus!
