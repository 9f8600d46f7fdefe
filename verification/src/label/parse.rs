//! The label language.
//!
//! ```text
//! label  := "true" | clause ("&" clause)*
//! clause := "(" atom ("|" atom)* ")" | atom
//! atom   := ident op ident
//! op     := "=" | ">=" | "<=" | ">" | "<"
//! ident  := [A-Za-z0-9_]+
//! ```
//!
//! White space around an expression is ignored; inside one it is an error.

use vstd::prelude::*;

use crate::label::{clause_view, AttrReq, AttrReqView, Clause, CompareOp, Label, LabelView};
use crate::text::{chars_of, str_eq, trim_text, trimmed};

verus! {

/// Why an expression is not a label.
#[derive(Debug, Clone, Copy, PartialEq, Eq, Structural)]
pub enum ParseError {
    /// The expression does not follow the grammar of labels.
    InvalidExpression,
}

/// Whether `c` may stand in an identifier: a letter of the Latin alphabet, a
/// digit, or an underscore.
pub open spec fn is_ident_char(c: char) -> bool {
    ('A' <= c && c <= 'Z') || ('a' <= c && c <= 'z') || ('0' <= c && c <= '9') || c == '_'
}

/// Where the identifier that begins at `i` ends: the first position from `i`
/// on that holds no identifier character.
pub open spec fn ident_end(s: Seq<char>, i: int) -> int
    decreases s.len() - i,
{
    if 0 <= i < s.len() && is_ident_char(s[i]) {
        ident_end(s, i + 1)
    } else {
        i
    }
}

/// The operator that begins at `i`, and its length. Of two operators that
/// begin alike, the longer is meant.
pub open spec fn op_at(s: Seq<char>, i: int) -> Option<(CompareOp, int)> {
    if 0 <= i && i + 1 < s.len() && s[i] == '>' && s[i + 1] == '=' {
        Some((CompareOp::Ge, 2))
    } else if 0 <= i && i + 1 < s.len() && s[i] == '<' && s[i + 1] == '=' {
        Some((CompareOp::Le, 2))
    } else if 0 <= i < s.len() && s[i] == '>' {
        Some((CompareOp::Gt, 1))
    } else if 0 <= i < s.len() && s[i] == '<' {
        Some((CompareOp::Lt, 1))
    } else if 0 <= i < s.len() && s[i] == '=' {
        Some((CompareOp::Eq, 1))
    } else {
        None
    }
}

/// The requirement that begins at `i`, and where it ends.
pub open spec fn atom_at(s: Seq<char>, i: int) -> Option<(AttrReqView, int)> {
    let k = ident_end(s, i);
    if k <= i {
        None
    } else {
        match op_at(s, k) {
            None => None,
            Some(op) => {
                let v = ident_end(s, k + op.1);
                if v <= k + op.1 {
                    None
                } else {
                    Some(
                        (
                            AttrReqView {
                                key: s.subrange(i, k),
                                op: op.0,
                                value: s.subrange(k + op.1, v),
                            },
                            v,
                        ),
                    )
                }
            },
        }
    }
}

/// The requirements, one or more with `|` between them, that begin at `i`,
/// and where they end.
pub open spec fn atoms_at(s: Seq<char>, i: int) -> Option<(Seq<AttrReqView>, int)>
    decreases s.len() - i,
{
    match atom_at(s, i) {
        None => None,
        Some(first) => if i < first.1 < s.len() && s[first.1] == '|' {
            match atoms_at(s, first.1 + 1) {
                None => None,
                Some(rest) => Some((seq![first.0] + rest.0, rest.1)),
            }
        } else {
            Some((seq![first.0], first.1))
        },
    }
}

/// The clause that begins at `i`, and where it ends: requirements in
/// parentheses, or one requirement without.
pub open spec fn clause_at(s: Seq<char>, i: int) -> Option<(Seq<AttrReqView>, int)> {
    if 0 <= i < s.len() && s[i] == '(' {
        match atoms_at(s, i + 1) {
            None => None,
            Some(inner) => if 0 <= inner.1 < s.len() && s[inner.1] == ')' {
                Some((inner.0, inner.1 + 1))
            } else {
                None
            },
        }
    } else {
        match atom_at(s, i) {
            None => None,
            Some(one) => Some((seq![one.0], one.1)),
        }
    }
}

/// The clauses, one or more with `&` between them, that begin at `i`, and
/// where they end.
pub open spec fn clauses_at(s: Seq<char>, i: int) -> Option<(Seq<Seq<AttrReqView>>, int)>
    decreases s.len() - i,
{
    match clause_at(s, i) {
        None => None,
        Some(first) => if i < first.1 < s.len() && s[first.1] == '&' {
            match clauses_at(s, first.1 + 1) {
                None => None,
                Some(rest) => Some((seq![first.0] + rest.0, rest.1)),
            }
        } else {
            Some((seq![first.0], first.1))
        },
    }
}

/// The label that the text `s`, taken whole, denotes.
pub open spec fn label_of(s: Seq<char>) -> Option<LabelView> {
    if s == "true"@ {
        Some(LabelView { clauses: Seq::empty(), always_true: true })
    } else {
        match clauses_at(s, 0) {
            None => None,
            Some(found) => if found.1 == s.len() {
                Some(LabelView { clauses: found.0, always_true: false })
            } else {
                None
            },
        }
    }
}

/// The label that the expression `expr` denotes, white space around it
/// ignored.
pub open spec fn parse_spec(expr: Seq<char>) -> Option<LabelView> {
    label_of(trimmed(expr))
}

fn ident_char(c: char) -> (r: bool)
    ensures
        r == is_ident_char(c),
{
    ('A' <= c && c <= 'Z') || ('a' <= c && c <= 'z') || ('0' <= c && c <= '9') || c == '_'
}

fn scan_ident(cs: &Vec<char>, i: usize) -> (e: usize)
    requires
        i <= cs@.len(),
    ensures
        e == ident_end(cs@, i as int),
        i <= e <= cs@.len(),
{
    let mut e: usize = i;
    while e < cs.len() && ident_char(cs[e])
        invariant
            i <= e <= cs@.len(),
            ident_end(cs@, i as int) == ident_end(cs@, e as int),
        decreases cs@.len() - e,
    {
        e += 1;
    }
    e
}

fn scan_op(cs: &Vec<char>, i: usize) -> (r: Option<(CompareOp, usize)>)
    requires
        i <= cs@.len(),
    ensures
        match op_at(cs@, i as int) {
            Some(op) => r is Some && r->Some_0.0 == op.0 && r->Some_0.1 == op.1 && i + op.1 <= cs@.len(),
            None => r is None,
        },
{
    let n = cs.len();
    if i >= n {
        return None;
    }
    let c = cs[i];
    let eq_next = i + 1 < n && cs[i + 1] == '=';
    if c == '>' && eq_next {
        Some((CompareOp::Ge, 2))
    } else if c == '<' && eq_next {
        Some((CompareOp::Le, 2))
    } else if c == '>' {
        Some((CompareOp::Gt, 1))
    } else if c == '<' {
        Some((CompareOp::Lt, 1))
    } else if c == '=' {
        Some((CompareOp::Eq, 1))
    } else {
        None
    }
}

fn scan_atom(t: &str, cs: &Vec<char>, i: usize) -> (r: Option<(AttrReq, usize)>)
    requires
        cs@ == t@,
        i <= cs@.len(),
    ensures
        match atom_at(cs@, i as int) {
            Some(a) => r is Some && r->Some_0.0@ == a.0 && r->Some_0.1 == a.1 && i < a.1 <= cs@.len(),
            None => r is None,
        },
{
    let k = scan_ident(cs, i);
    if k <= i {
        return None;
    }
    let found = scan_op(cs, k);
    if found.is_none() {
        return None;
    }
    let (op, n) = found.unwrap();
    let len = cs.len();
    assert(k + n <= len);
    let v = scan_ident(cs, k + n);
    if v <= k + n {
        return None;
    }
    let key = t.substring_char(i, k).to_owned();
    let value = t.substring_char(k + n, v).to_owned();
    Some((AttrReq { key, op, value }, v))
}

fn scan_atoms(t: &str, cs: &Vec<char>, i: usize) -> (r: Option<(Vec<AttrReq>, usize)>)
    requires
        cs@ == t@,
        i <= cs@.len(),
    ensures
        match atoms_at(cs@, i as int) {
            Some(a) => r is Some && clause_view(r->Some_0.0) == a.0 && r->Some_0.1 == a.1 && i < a.1
                <= cs@.len(),
            None => r is None,
        },
{
    let mut acc: Vec<AttrReq> = Vec::new();
    let mut pos: usize = i;
    assert(clause_view(acc) =~= Seq::<AttrReqView>::empty());
    loop
        invariant
            cs@ == t@,
            i <= pos <= cs@.len(),
            pos > i || acc@.len() == 0,
            match atoms_at(cs@, pos as int) {
                Some(rest) => atoms_at(cs@, i as int) == Some((clause_view(acc) + rest.0, rest.1)),
                None => atoms_at(cs@, i as int) is None,
            },
        decreases cs@.len() - pos,
    {
        let ghost before = clause_view(acc);
        match scan_atom(t, cs, pos) {
            None => {
                return None;
            },
            Some((atom, e)) => {
                let ghost a = atom@;
                acc.push(atom);
                assert(clause_view(acc) =~= before + seq![a]);
                if e < cs.len() && cs[e] == '|' {
                    proof {
                        match atoms_at(cs@, e + 1) {
                            Some(rest) => {
                                assert((before + (seq![a] + rest.0)) =~= (clause_view(acc) + rest.0));
                            },
                            None => {},
                        }
                    }
                    pos = e + 1;
                } else {
                    return Some((acc, e));
                }
            },
        }
    }
}

fn scan_clause(t: &str, cs: &Vec<char>, i: usize) -> (r: Option<(Vec<AttrReq>, usize)>)
    requires
        cs@ == t@,
        i <= cs@.len(),
    ensures
        match clause_at(cs@, i as int) {
            Some(a) => r is Some && clause_view(r->Some_0.0) == a.0 && r->Some_0.1 == a.1 && i < a.1
                <= cs@.len(),
            None => r is None,
        },
{
    if i < cs.len() && cs[i] == '(' {
        match scan_atoms(t, cs, i + 1) {
            None => None,
            Some((atoms, e)) => {
                if e < cs.len() && cs[e] == ')' {
                    Some((atoms, e + 1))
                } else {
                    None
                }
            },
        }
    } else {
        match scan_atom(t, cs, i) {
            None => None,
            Some((atom, e)) => {
                let ghost a = atom@;
                let mut one: Vec<AttrReq> = Vec::new();
                one.push(atom);
                assert(clause_view(one) =~= seq![a]);
                Some((one, e))
            },
        }
    }
}

/// The clauses of a list of clauses, as mathematics.
pub open spec fn clauses_view(clauses: Vec<Clause>) -> Seq<Seq<AttrReqView>> {
    Seq::new(clauses@.len(), |i: int| clause_view(clauses@[i]))
}

fn scan_clauses(t: &str, cs: &Vec<char>, i: usize) -> (r: Option<(Vec<Clause>, usize)>)
    requires
        cs@ == t@,
        i <= cs@.len(),
    ensures
        match clauses_at(cs@, i as int) {
            Some(a) => r is Some && clauses_view(r->Some_0.0) == a.0 && r->Some_0.1 == a.1 && i < a.1
                <= cs@.len(),
            None => r is None,
        },
{
    let mut acc: Vec<Clause> = Vec::new();
    let mut pos: usize = i;
    assert(clauses_view(acc) =~= Seq::<Seq<AttrReqView>>::empty());
    loop
        invariant
            cs@ == t@,
            i <= pos <= cs@.len(),
            match clauses_at(cs@, pos as int) {
                Some(rest) => clauses_at(cs@, i as int) == Some(
                    (clauses_view(acc) + rest.0, rest.1),
                ),
                None => clauses_at(cs@, i as int) is None,
            },
        decreases cs@.len() - pos,
    {
        let ghost before = clauses_view(acc);
        match scan_clause(t, cs, pos) {
            None => {
                return None;
            },
            Some((clause, e)) => {
                let ghost c = clause_view(clause);
                acc.push(clause);
                assert(clauses_view(acc) =~= before + seq![c]);
                if e < cs.len() && cs[e] == '&' {
                    proof {
                        match clauses_at(cs@, e + 1) {
                            Some(rest) => {
                                assert((before + (seq![c] + rest.0)) =~= (clauses_view(acc)
                                    + rest.0));
                            },
                            None => {},
                        }
                    }
                    pos = e + 1;
                } else {
                    return Some((acc, e));
                }
            },
        }
    }
}

/// Reads a label from an expression.
///
/// White space around the expression is ignored. What is left must be `true`
/// or follow the grammar from its first character to its last.
pub fn parse(expr: &str) -> (r: Result<Label, ParseError>)
    ensures
        match parse_spec(expr@) {
            Some(label) => r is Ok && r->Ok_0@ == label,
            None => r is Err,
        },
{
    let t: &str = trim_text(expr);
    if str_eq(t, "true") {
        let label = Label { clauses: Vec::new(), always_true: true };
        assert(label@.clauses =~= Seq::<Seq<AttrReqView>>::empty());
        return Ok(label);
    }
    let cs = chars_of(t);
    match scan_clauses(t, &cs, 0) {
        None => Err(ParseError::InvalidExpression),
        Some((clauses, e)) => {
            if e == cs.len() {
                let ghost want = clauses_view(clauses);
                let label = Label { clauses, always_true: false };
                assert(label@.clauses =~= want);
                Ok(label)
            } else {
                Err(ParseError::InvalidExpression)
            }
        },
    }
}

} // verus!
