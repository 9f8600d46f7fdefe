//! The columns of a table's primary key, in key order, from what the
//! database engine reports of the table's columns.

use vstd::prelude::*;

use crate::text::views;
use crate::views::register_table::PhysicalTable;

verus! {

/// What the engine reports of one column: its name and its place in the
/// primary key, counted from 1, or 0 for a column outside the key.
#[derive(Debug)]
pub struct ColumnInfo {
    pub name: String,
    pub pk: i64,
}

/// A column as a pair of its place in the key and its name.
pub type Place = (int, Seq<char>);

/// The reported columns as pairs, in the order they were reported.
pub open spec fn places(rows: Seq<ColumnInfo>) -> Seq<Place> {
    Seq::new(rows.len(), |i: int| (rows[i].pk as int, rows[i].name@))
}

/// The names of the reported columns, in the order they were reported.
pub open spec fn names_of(rows: Seq<ColumnInfo>) -> Seq<Seq<char>> {
    Seq::new(rows.len(), |i: int| rows[i].name@)
}

/// `s` with `x` put behind the last pair whose place is not greater than
/// that of `x`.
pub open spec fn placed(s: Seq<Place>, x: Place) -> Seq<Place>
    decreases s.len(),
{
    if s.len() == 0 || s.last().0 <= x.0 {
        s.push(x)
    } else {
        placed(s.drop_last(), x).push(s.last())
    }
}

/// The columns with a place in the key, by ascending place; columns with the
/// same place stay in the order they were reported.
pub open spec fn key_order(rows: Seq<Place>) -> Seq<Place>
    decreases rows.len(),
{
    if rows.len() == 0 {
        Seq::empty()
    } else if rows.last().0 > 0 {
        placed(key_order(rows.drop_last()), rows.last())
    } else {
        key_order(rows.drop_last())
    }
}

/// The names of the key's columns, in key order.
pub open spec fn primary_key_of(rows: Seq<Place>) -> Seq<Seq<char>> {
    Seq::new(key_order(rows).len(), |i: int| key_order(rows)[i].1)
}

/// Whether the places never fall from one pair to the next.
pub open spec fn ascending(s: Seq<Place>) -> bool {
    forall|i: int, j: int| 0 <= i < j < s.len() ==> s[i].0 <= s[j].0
}

/// Where `placed` puts a pair: at the index behind which every place is
/// greater, and in front of which the place is not.
pub proof fn lemma_placed_at(s: Seq<Place>, x: Place, j: int)
    requires
        0 <= j <= s.len(),
        forall|k: int| j <= k < s.len() ==> s[k].0 > x.0,
        j == 0 || s[j - 1].0 <= x.0,
    ensures
        placed(s, x) == s.take(j).push(x) + s.skip(j),
    decreases s.len(),
{
    if j == s.len() {
        assert(s.take(j) == s);
        assert(s.take(j).push(x) + s.skip(j) =~= s.push(x));
    } else {
        let front = s.drop_last();
        lemma_placed_at(front, x, j);
        assert(placed(s, x) == placed(front, x).push(s.last()));
        assert(front.take(j) == s.take(j));
        assert((s.take(j).push(x) + front.skip(j)).push(s.last()) =~= s.take(j).push(x) + s.skip(
            j,
        ));
    }
}

/// `placed` adds the one pair and loses none.
pub proof fn lemma_placed_holds(s: Seq<Place>, x: Place)
    ensures
        placed(s, x).len() == s.len() + 1,
        forall|e: Place| #[trigger] placed(s, x).contains(e) <==> s.contains(e) || e == x,
    decreases s.len(),
{
    let out = placed(s, x);
    if s.len() == 0 || s.last().0 <= x.0 {
        assert forall|e: Place| out.contains(e) <==> s.contains(e) || e == x by {
            if out.contains(e) {
                let i = out.index_of(e);
                if i < s.len() {
                    assert(s[i] == e);
                }
            }
            if s.contains(e) {
                let i = s.index_of(e);
                assert(out[i] == e);
            }
            if e == x {
                assert(out[s.len() as int] == e);
            }
        }
    } else {
        let front = s.drop_last();
        let inner = placed(front, x);
        lemma_placed_holds(front, x);
        assert forall|e: Place| out.contains(e) <==> s.contains(e) || e == x by {
            if out.contains(e) {
                let i = out.index_of(e);
                if i < inner.len() {
                    assert(inner[i] == e);
                    assert(inner.contains(e));
                    if front.contains(e) {
                        let k = front.index_of(e);
                        assert(s[k] == e);
                    }
                } else {
                    assert(s[s.len() - 1] == e);
                }
            }
            if s.contains(e) {
                let i = s.index_of(e);
                if i < front.len() {
                    assert(front[i] == e);
                    assert(inner.contains(e));
                    let k = inner.index_of(e);
                    assert(out[k] == e);
                } else {
                    assert(out[inner.len() as int] == e);
                }
            }
            if e == x {
                assert(inner.contains(e));
                let k = inner.index_of(e);
                assert(out[k] == e);
            }
        }
    }
}

/// `placed` keeps an ascending sequence ascending.
pub proof fn lemma_placed_ascends(s: Seq<Place>, x: Place)
    requires
        ascending(s),
    ensures
        ascending(placed(s, x)),
    decreases s.len(),
{
    let out = placed(s, x);
    if s.len() == 0 || s.last().0 <= x.0 {
        assert forall|i: int, j: int| 0 <= i < j < out.len() implies out[i].0 <= out[j].0 by {
            if j == s.len() && s.len() > 0 {
                assert(s[i].0 <= s[s.len() - 1].0 || i == s.len() - 1);
            }
        }
    } else {
        let front = s.drop_last();
        let inner = placed(front, x);
        assert(ascending(front)) by {
            assert forall|i: int, j: int| 0 <= i < j < front.len() implies front[i].0
                <= front[j].0 by {
                assert(s[i].0 <= s[j].0);
            }
        }
        lemma_placed_ascends(front, x);
        lemma_placed_holds(front, x);
        assert forall|i: int, j: int| 0 <= i < j < out.len() implies out[i].0 <= out[j].0 by {
            if j < inner.len() {
                assert(inner[i].0 <= inner[j].0);
            } else {
                assert(inner.contains(inner[i]));
                if front.contains(inner[i]) {
                    let k = front.index_of(inner[i]);
                    assert(s[k].0 <= s[s.len() - 1].0);
                }
            }
        }
    }
}

/// The key's columns come out by ascending place, and they are the reported
/// columns that have a place in the key, no more and no fewer.
pub proof fn lemma_key_order(rows: Seq<Place>)
    ensures
        ascending(key_order(rows)),
        forall|e: Place| #[trigger] key_order(rows).contains(e) <==> rows.contains(e) && e.0 > 0,
    decreases rows.len(),
{
    let out = key_order(rows);
    if rows.len() == 0 {
    } else {
        let front = rows.drop_last();
        let last = rows.last();
        lemma_key_order(front);
        if last.0 > 0 {
            lemma_placed_ascends(key_order(front), last);
            lemma_placed_holds(key_order(front), last);
        }
        assert forall|e: Place| out.contains(e) <==> rows.contains(e) && e.0 > 0 by {
            if rows.contains(e) {
                let i = rows.index_of(e);
                if i < front.len() {
                    assert(front[i] == e);
                    assert(front.contains(e));
                } else {
                    assert(e == last);
                }
            }
            if front.contains(e) {
                let i = front.index_of(e);
                assert(rows[i] == e);
            }
            assert(rows[rows.len() - 1] == last);
        }
    }
}

/// The names of the primary key's columns, in key order.
pub fn primary_key_columns(rows: &Vec<ColumnInfo>) -> (r: Vec<String>)
    ensures
        views(r@) == primary_key_of(places(rows@)),
{
    let mut keys: Vec<i64> = Vec::new();
    let mut out: Vec<String> = Vec::new();
    let mut i: usize = 0;
    while i < rows.len()
        invariant
            i <= rows@.len(),
            keys@.len() == out@.len(),
            keys@.len() == key_order(places(rows@).take(i as int)).len(),
            forall|k: int|
                0 <= k < keys@.len() ==> (keys@[k] as int, out@[k]@) == #[trigger] key_order(
                    places(rows@).take(i as int),
                )[k],
        decreases rows@.len() - i,
    {
        let ghost before = key_order(places(rows@).take(i as int));
        let ghost upto = places(rows@).take(i as int + 1);
        let ghost x: Place = (rows@[i as int].pk as int, rows@[i as int].name@);
        proof {
            assert(upto.drop_last() == places(rows@).take(i as int));
            assert(upto.last() == x);
        }
        let pk: i64 = rows[i].pk;
        if pk > 0 {
            let mut j: usize = keys.len();
            while j > 0 && keys[j - 1] > pk
                invariant
                    j <= keys@.len(),
                    forall|k: int| j <= k < keys@.len() ==> keys@[k] > pk,
                decreases j,
            {
                j -= 1;
            }
            proof {
                lemma_placed_at(before, x, j as int);
            }
            keys.insert(j, pk);
            out.insert(j, rows[i].name.clone());
            proof {
                let after = key_order(upto);
                assert(after == before.take(j as int).push(x) + before.skip(j as int));
                assert forall|k: int| 0 <= k < keys@.len() implies (keys@[k] as int, out@[k]@)
                    == #[trigger] after[k] by {
                    if k > j {
                        assert(after[k] == before[k - 1]);
                    }
                }
            }
        }
        i += 1;
    }
    proof {
        assert(places(rows@).take(i as int) == places(rows@));
        assert(views(out@) =~= primary_key_of(places(rows@)));
    }
    out
}

impl PhysicalTable {
    /// A table as the engine reports it: its columns in the order reported,
    /// its primary key in key order, and the statement that created it.
    pub fn from_columns(rows: &Vec<ColumnInfo>, sql: Option<String>) -> (r: PhysicalTable)
        ensures
            views(r.columns@) == names_of(rows@),
            views(r.primary_key@) == primary_key_of(places(rows@)),
            r.sql == sql,
    {
        let mut columns: Vec<String> = Vec::new();
        let mut i: usize = 0;
        while i < rows.len()
            invariant
                i <= rows@.len(),
                columns@.len() == i,
                forall|k: int| 0 <= k < i ==> (#[trigger] columns@[k])@ == rows@[k].name@,
            decreases rows@.len() - i,
        {
            columns.push(rows[i].name.clone());
            i += 1;
        }
        proof {
            assert(views(columns@) =~= names_of(rows@));
        }
        PhysicalTable { columns, primary_key: primary_key_columns(rows), sql }
    }
}

} // verus!
