use vstd::prelude::*;

use crate::compiler::frontend::types::Type;

verus! {

/// A variable: where it lives and its type.
#[derive(PartialEq, Eq, Debug)]
pub struct Variable {
    pub kind: VarKind,
    pub ctype: Type,
}

/// A stack offset.
pub type StackOffset = usize;

/// Where a variable lives: a local at a stack offset.
#[derive(PartialEq, Eq, Debug)]
pub enum VarKind {
    LOCAL(StackOffset),
}

impl Variable {
    /// A local of type `ty`, not yet given an offset.
    pub fn init_local(ty: Type) -> (v: Self)
        ensures
            v == (Variable { kind: VarKind::LOCAL(0), ctype: ty }),
    {
        Self { kind: VarKind::LOCAL(0), ctype: ty }
    }

    /// The stack offset of a local.
    pub fn get_local_offset(&self) -> (o: usize)
        ensures
            o == self.kind->LOCAL_0,
    {
        match &self.kind {
            VarKind::LOCAL(offset) => *offset,
        }
    }

    /// The same variable.
    pub fn duplicate(&self) -> (v: Self)
        ensures
            v == *self,
    {
        Self { kind: VarKind::LOCAL(self.get_local_offset()), ctype: self.ctype.duplicate() }
    }
}

/// A table of named variables, each name at most once.
pub type VarTable = Vec<(String, Variable)>;

/// A table as names and variables.
pub open spec fn table_view(t: Seq<(String, Variable)>) -> Seq<(Seq<char>, Variable)> {
    t.map_values(|e: (String, Variable)| (e.0@, e.1))
}

/// The variable a table view holds under `name`.
pub open spec fn view_get(t: Seq<(Seq<char>, Variable)>, name: Seq<char>) -> Option<Variable>
    decreases t.len(),
{
    if t.len() == 0 {
        None
    } else if t[0].0 == name {
        Some(t[0].1)
    } else {
        view_get(t.drop_first(), name)
    }
}

/// The table view after entering `v` under `name`.
pub open spec fn view_insert(t: Seq<(Seq<char>, Variable)>, name: Seq<char>, v: Variable) -> Seq<(Seq<char>, Variable)>
    decreases t.len(),
{
    if t.len() == 0 {
        seq![(name, v)]
    } else if t[0].0 == name {
        seq![(name, v)] + t.drop_first()
    } else {
        seq![t[0]] + view_insert(t.drop_first(), name, v)
    }
}

/// Finds the variable entered under `name`.
pub fn table_find(t: &Vec<(String, Variable)>, name: &str) -> (r: Option<usize>)
    ensures
        match r {
            Some(i) => i < t@.len() && t@[i as int].0@ == name@ && forall|j: int| 0 <= j < i ==> (#[trigger] t@[j]).0@ != name@,
            None => forall|j: int| 0 <= j < t@.len() ==> (#[trigger] t@[j]).0@ != name@,
        },
{
    let mut i: usize = 0;
    while i < t.len()
        invariant
            0 <= i <= t@.len(),
            forall|j: int| 0 <= j < i ==> (#[trigger] t@[j]).0@ != name@,
        decreases t@.len() - i,
    {
        if crate::text::str_eq(t[i].0.as_str(), name) {
            return Some(i);
        }
        i = i + 1;
    }
    None
}

/// The first entry of a table whose name is not before position `i` is the one at `i`.
pub proof fn lemma_view_get_at(t: Seq<(Seq<char>, Variable)>, name: Seq<char>, i: int)
    requires
        0 <= i < t.len(),
        t[i].0 == name,
        forall|j: int| 0 <= j < i ==> (#[trigger] t[j]).0 != name,
    ensures
        view_get(t, name) == Some(t[i].1),
    decreases i,
{
    if i > 0 {
        assert forall|j: int| 0 <= j < i - 1 implies (#[trigger] t.drop_first()[j]).0 != name by {
            assert(t.drop_first()[j] == t[j + 1]);
        }
        lemma_view_get_at(t.drop_first(), name, i - 1);
    }
}

/// A table with no entry for `name` gives nothing for it.
pub proof fn lemma_view_get_none(t: Seq<(Seq<char>, Variable)>, name: Seq<char>)
    requires
        forall|j: int| 0 <= j < t.len() ==> (#[trigger] t[j]).0 != name,
    ensures
        view_get(t, name) is None,
    decreases t.len(),
{
    if t.len() > 0 {
        assert forall|j: int| 0 <= j < t.drop_first().len() implies (#[trigger] t.drop_first()[j]).0 != name by {
            assert(t.drop_first()[j] == t[j + 1]);
        }
        lemma_view_get_none(t.drop_first(), name);
    }
}

/// Replacing the first entry for `name` is entering it.
pub proof fn lemma_view_insert_at(t: Seq<(Seq<char>, Variable)>, name: Seq<char>, v: Variable, i: int)
    requires
        0 <= i < t.len(),
        t[i].0 == name,
        forall|j: int| 0 <= j < i ==> (#[trigger] t[j]).0 != name,
    ensures
        view_insert(t, name, v) == t.update(i, (name, v)),
    decreases i,
{
    if i == 0 {
        assert(view_insert(t, name, v) =~= t.update(i, (name, v)));
    } else {
        assert forall|j: int| 0 <= j < i - 1 implies (#[trigger] t.drop_first()[j]).0 != name by {
            assert(t.drop_first()[j] == t[j + 1]);
        }
        lemma_view_insert_at(t.drop_first(), name, v, i - 1);
        assert(view_insert(t, name, v) =~= t.update(i, (name, v)));
    }
}

/// Entering a new name appends it.
pub proof fn lemma_view_insert_new(t: Seq<(Seq<char>, Variable)>, name: Seq<char>, v: Variable)
    requires
        forall|j: int| 0 <= j < t.len() ==> (#[trigger] t[j]).0 != name,
    ensures
        view_insert(t, name, v) == t.push((name, v)),
    decreases t.len(),
{
    if t.len() > 0 {
        assert forall|j: int| 0 <= j < t.drop_first().len() implies (#[trigger] t.drop_first()[j]).0 != name by {
            assert(t.drop_first()[j] == t[j + 1]);
        }
        lemma_view_insert_new(t.drop_first(), name, v);
    }
    assert(view_insert(t, name, v) =~= t.push((name, v)));
}

/// Enters `v` under `name`, replacing an entry already there.
pub fn table_insert_exec(t: &mut Vec<(String, Variable)>, name: String, v: Variable)
    ensures
        table_view(final(t)@) == view_insert(table_view(old(t)@), name@, v),
{
    let ghost tv = table_view(t@);
    match table_find(t, name.as_str()) {
        Some(i) => {
            let ghost n = name@;
            t.set(i, (name, v));
            proof {
                assert forall|j: int| 0 <= j < i implies (#[trigger] tv[j]).0 != n by {
                    assert(tv[j].0 == old(t)@[j].0@);
                }
                lemma_view_insert_at(tv, n, v, i as int);
                assert(table_view(t@) =~= tv.update(i as int, (n, v)));
            }
        },
        None => {
            let ghost n = name@;
            t.push((name, v));
            proof {
                assert forall|j: int| 0 <= j < tv.len() implies (#[trigger] tv[j]).0 != n by {
                    assert(tv[j].0 == old(t)@[j].0@);
                }
                lemma_view_insert_new(tv, n, v);
                assert(table_view(t@) =~= tv.push((n, v)));
            }
        },
    }
}

/// The variable entered under `name`, if any.
pub fn table_get_exec(t: &Vec<(String, Variable)>, name: &str) -> (r: Option<Variable>)
    ensures
        r == view_get(table_view(t@), name@),
{
    let ghost tv = table_view(t@);
    match table_find(t, name) {
        Some(i) => {
            proof {
                assert forall|j: int| 0 <= j < i implies (#[trigger] tv[j]).0 != name@ by {
                    assert(tv[j].0 == t@[j].0@);
                }
                lemma_view_get_at(tv, name@, i as int);
            }
            Some(t[i].1.duplicate())
        },
        None => {
            proof {
                assert forall|j: int| 0 <= j < tv.len() implies (#[trigger] tv[j]).0 != name@ by {
                    assert(tv[j].0 == t@[j].0@);
                }
                lemma_view_get_none(tv, name@);
            }
            None
        },
    }
}

/// A copy of a table.
pub fn table_duplicate(t: &Vec<(String, Variable)>) -> (c: Vec<(String, Variable)>)
    ensures
        table_view(c@) == table_view(t@),
{
    let mut c: Vec<(String, Variable)> = Vec::new();
    let mut i: usize = 0;
    while i < t.len()
        invariant
            0 <= i <= t@.len(),
            c@.len() == i,
            forall|j: int| 0 <= j < i ==> (#[trigger] c@[j]).0@ == t@[j].0@ && c@[j].1 == t@[j].1,
        decreases t@.len() - i,
    {
        c.push((t[i].0.clone(), t[i].1.duplicate()));
        i = i + 1;
    }
    assert(table_view(c@) =~= table_view(t@));
    c
}


/// `a` comes before `b` in name order, comparing from position `i` on:
/// character by character, a proper prefix first.
pub open spec fn name_lt_at(a: Seq<char>, b: Seq<char>, i: int) -> bool
    decreases a.len() - i,
{
    if i < 0 {
        false
    } else if i >= a.len() {
        i < b.len()
    } else if i >= b.len() {
        false
    } else if a[i] != b[i] {
        (a[i] as u32) < (b[i] as u32)
    } else {
        name_lt_at(a, b, i + 1)
    }
}

/// `a` comes before `b` in name order (the order of `str`).
pub open spec fn name_lt(a: Seq<char>, b: Seq<char>) -> bool {
    name_lt_at(a, b, 0)
}

/// The table with `e` placed before the first entry whose name comes after
/// its own.
pub open spec fn insert_by_name(t: Seq<(Seq<char>, Variable)>, e: (Seq<char>, Variable)) -> Seq<(Seq<char>, Variable)>
    decreases t.len(),
{
    if t.len() == 0 {
        seq![e]
    } else if name_lt(e.0, t[0].0) {
        seq![e] + t
    } else {
        seq![t[0]] + insert_by_name(t.drop_first(), e)
    }
}

/// The table with its entries in name order, entries of equal names in
/// table order: the order in which a map keyed by name holds them.
pub open spec fn sort_by_name(t: Seq<(Seq<char>, Variable)>) -> Seq<(Seq<char>, Variable)>
    decreases t.len(),
{
    if t.len() == 0 {
        t
    } else {
        insert_by_name(sort_by_name(t.drop_last()), t.last())
    }
}

/// Whether `a` comes before `b` in name order.
pub fn name_less(a: &str, b: &str) -> (r: bool)
    ensures
        r == name_lt(a@, b@),
{
    let n = a.unicode_len();
    let m = b.unicode_len();
    let mut i: usize = 0;
    while i < n && i < m
        invariant
            n == a@.len(),
            m == b@.len(),
            0 <= i <= n,
            i <= m,
            name_lt(a@, b@) == name_lt_at(a@, b@, i as int),
        decreases n - i,
    {
        let x = a.get_char(i);
        let y = b.get_char(i);
        if x != y {
            return (x as u32) < (y as u32);
        }
        i = i + 1;
    }
    i < m
}

/// Placing `e` at the first position whose entry comes after it in name
/// order is inserting it by name.
pub proof fn lemma_insert_by_name_at(t: Seq<(Seq<char>, Variable)>, e: (Seq<char>, Variable), j: int)
    requires
        0 <= j <= t.len(),
        forall|k: int| 0 <= k < j ==> !name_lt(e.0, #[trigger] t[k].0),
        j < t.len() ==> name_lt(e.0, t[j].0),
    ensures
        insert_by_name(t, e) == t.insert(j, e),
    decreases j,
{
    if j == 0 {
        if t.len() == 0 {
            assert(t.insert(0, e) =~= seq![e]);
        } else {
            assert(t.insert(0, e) =~= seq![e] + t);
        }
    } else {
        let r = t.drop_first();
        assert forall|k: int| 0 <= k < j - 1 implies !name_lt(e.0, #[trigger] r[k].0) by {
            assert(r[k] == t[k + 1]);
        }
        if j - 1 < r.len() {
            assert(r[j - 1] == t[j]);
        }
        assert(!name_lt(e.0, t[0].0));
        lemma_insert_by_name_at(r, e, j - 1);
        assert(t.insert(j, e) =~= seq![t[0]] + r.insert(j - 1, e));
    }
}

/// A copy of a table with its entries in name order (see `sort_by_name`).
pub fn table_sorted_by_name(t: &Vec<(String, Variable)>) -> (c: Vec<(String, Variable)>)
    ensures
        table_view(c@) == sort_by_name(table_view(t@)),
{
    let ghost tv = table_view(t@);
    let mut c: Vec<(String, Variable)> = Vec::new();
    let mut i: usize = 0;
    proof {
        assert(tv.take(0) =~= Seq::<(Seq<char>, Variable)>::empty());
        assert(table_view(c@) =~= Seq::<(Seq<char>, Variable)>::empty());
    }
    while i < t.len()
        invariant
            0 <= i <= t@.len(),
            tv == table_view(t@),
            table_view(c@) == sort_by_name(tv.take(i as int)),
        decreases t@.len() - i,
    {
        let e = (t[i].0.clone(), t[i].1.duplicate());
        let ghost ev = (e.0@, e.1);
        assert(ev == tv[i as int]);
        let mut j: usize = 0;
        while j < c.len()
            invariant_except_break
                0 <= j <= c@.len(),
                forall|k: int| 0 <= k < j ==> !name_lt(ev.0, #[trigger] table_view(c@)[k].0),
            invariant
                0 <= j <= c@.len(),
                ev == (e.0@, e.1),
            ensures
                0 <= j <= c@.len(),
                forall|k: int| 0 <= k < j ==> !name_lt(ev.0, #[trigger] table_view(c@)[k].0),
                j < c@.len() ==> name_lt(ev.0, table_view(c@)[j as int].0),
            decreases c@.len() - j,
        {
            if name_less(e.0.as_str(), c[j].0.as_str()) {
                break;
            }
            j = j + 1;
        }
        let ghost before = table_view(c@);
        proof {
            lemma_insert_by_name_at(before, ev, j as int);
        }
        c.insert(j, e);
        proof {
            assert(table_view(c@) =~= before.insert(j as int, ev));
            assert(tv.take(i + 1).drop_last() =~= tv.take(i as int));
            assert(tv.take(i + 1).last() == ev);
        }
        i = i + 1;
    }
    proof {
        assert(tv.take(i as int) =~= tv);
    }
    c
}

} // verus!
