//! Free-form annotations: an ordered table from names to values.
use vstd::prelude::*;

use crate::text::{before, eq, less, less_is_an_order};

verus! {

/// The entries of a table, in the order of their names.
pub type Entries = Seq<(Seq<char>, Seq<char>)>;

/// The table with `name` set to `value`.
pub open spec fn inserted(m: Entries, name: Seq<char>, value: Seq<char>) -> Entries
    decreases m.len(),
{
    if m.len() == 0 {
        seq![(name, value)]
    } else if m.last().0 == name {
        m.drop_last().push((name, value))
    } else if less(m.last().0, name) {
        m.push((name, value))
    } else {
        inserted(m.drop_last(), name, value).push(m.last())
    }
}

/// Names in ascending order, each once.
pub open spec fn ascending(m: Entries) -> bool {
    forall|i: int, j: int| 0 <= i < j < m.len() ==> less(#[trigger] m[i].0, #[trigger] m[j].0)
}

/// The value under `name`.
pub open spec fn lookup(m: Entries, name: Seq<char>) -> Option<Seq<char>>
    decreases m.len(),
{
    if m.len() == 0 {
        None
    } else if m.last().0 == name {
        Some(m.last().1)
    } else {
        lookup(m.drop_last(), name)
    }
}

/// One annotation.
#[derive(Debug, PartialEq, Eq)]
pub struct Entry {
    pub name: String,
    pub value: String,
}

/// A table of annotations.
#[derive(Debug, PartialEq, Eq)]
pub struct Meta {
    pub entries: Vec<Entry>,
}

/// The names and values of a list.
pub open spec fn pairs(v: Seq<Entry>) -> Entries {
    Seq::new(v.len(), |i: int| (v[i].name@, v[i].value@))
}

impl View for Meta {
    type V = Entries;

    open spec fn view(&self) -> Entries {
        pairs(self.entries@)
    }
}

impl Meta {
    /// Names stand in order, each once.
    pub open spec fn valid(self) -> bool {
        ascending(self@)
    }

    /// An empty table.
    pub fn new() -> (r: Meta)
        ensures
            r@ == Entries::empty(),
            r.valid(),
    {
        let r = Meta { entries: Vec::new() };
        proof {
            assert(r@ =~= Entries::empty());
        }
        r
    }

    /// Sets `name` to `value`.
    pub fn insert(&mut self, name: String, value: String)
        ensures
            final(self)@ == inserted(old(self)@, name@, value@),
            old(self).valid() ==> final(self).valid(),
    {
        let ghost m = self@;
        proof {
            if ascending(m) {
                insert_keeps_order(m, name@, value@);
            }
        }
        let n: usize = self.entries.len();
        let mut i: usize = n;
        proof {
            assert(m.take(n as int) =~= m);
            assert(m.skip(n as int) =~= Entries::empty());
            assert(inserted(m, name@, value@) + Entries::empty() =~= inserted(m, name@, value@));
        }
        while i > 0
            invariant
                n == self.entries@.len(),
                m == self@,
                m == old(self)@,
                i <= n,
                ascending(m) ==> ascending(inserted(m, name@, value@)),
                inserted(m, name@, value@) == inserted(m.take(i as int), name@, value@) + m.skip(
                    i as int,
                ),
            decreases i,
        {
            let ghost head = m.take(i as int);
            proof {
                assert(head.last() == m[i - 1]);
                assert(head.drop_last() =~= m.take(i - 1));
            }
            if eq(self.entries[i - 1].name.as_str(), name.as_str()) {
                self.entries.set(i - 1, Entry { name, value });
                proof {
                    assert(self@ =~= head.drop_last().push((name@, value@)) + m.skip(i as int));
                }
                return ;
            }
            if before(self.entries[i - 1].name.as_str(), name.as_str()) {
                self.entries.insert(i, Entry { name, value });
                proof {
                    assert(self@ =~= head.push((name@, value@)) + m.skip(i as int));
                }
                return ;
            }
            proof {
                assert(inserted(head.drop_last(), name@, value@).push(head.last()) + m.skip(
                    i as int,
                ) =~= inserted(m.take(i - 1), name@, value@) + m.skip(i - 1));
            }
            i = i - 1;
        }
        self.entries.insert(0, Entry { name, value });
        proof {
            assert(m.take(0) =~= Entries::empty());
            assert(self@ =~= seq![(name@, value@)] + m.skip(0));
        }
    }

    /// The value under `name`.
    pub fn get(&self, name: &str) -> (r: Option<&String>)
        ensures
            match r {
                Some(v) => lookup(self@, name@) == Some(v@),
                None => lookup(self@, name@) is None,
            },
    {
        let mut i: usize = self.entries.len();
        proof {
            assert(self@.take(i as int) =~= self@);
        }
        while i > 0
            invariant
                i <= self.entries@.len(),
                lookup(self@.take(i as int), name@) == lookup(self@, name@),
            decreases i,
        {
            proof {
                assert(self@.take(i as int).drop_last() =~= self@.take(i - 1));
            }
            if eq(self.entries[i - 1].name.as_str(), name) {
                return Some(&self.entries[i - 1].value);
            }
            i = i - 1;
        }
        None
    }
}

impl Clone for Meta {
    fn clone(&self) -> (r: Meta)
        ensures
            r@ == self@,
    {
        let mut entries: Vec<Entry> = Vec::new();
        let n: usize = self.entries.len();
        for i in 0..n
            invariant
                n == self.entries@.len(),
                entries@.len() == i,
                forall|k: int|
                    0 <= k < i ==> (#[trigger] entries@[k]).name@ == self.entries@[k].name@
                        && entries@[k].value@ == self.entries@[k].value@,
        {
            entries.push(
                Entry { name: self.entries[i].name.clone(), value: self.entries[i].value.clone() },
            );
        }
        let r = Meta { entries };
        proof {
            assert(r@ =~= self@);
        }
        r
    }
}

// ---------------------------------------------------------------------------------
// Laws
// ---------------------------------------------------------------------------------

/// Setting a name keeps the table in order, gives the value back under that name, and
/// changes no other name.
pub proof fn insert_then_lookup(
    m: Entries,
    name: Seq<char>,
    value: Seq<char>,
    other: Seq<char>,
)
    requires
        ascending(m),
    ensures
        ascending(inserted(m, name, value)),
        lookup(inserted(m, name, value), name) == Some(value),
        other != name ==> lookup(inserted(m, name, value), other) == lookup(m, other),
{
    insert_keeps_order(m, name, value);
    insert_finds(m, name, value, other);
}

/// Names that are each before the next are in order.
pub proof fn neighbours_ascend(m: Entries)
    requires
        forall|i: int| 0 <= i < m.len() - 1 ==> less((#[trigger] m[i]).0, m[i + 1].0),
    ensures
        ascending(m),
    decreases m.len(),
{
    if m.len() > 0 {
        let rest = m.drop_last();
        assert forall|i: int| 0 <= i < rest.len() - 1 implies less(
            (#[trigger] rest[i]).0,
            rest[i + 1].0,
        ) by {
            assert(less(m[i].0, m[i + 1].0));
        }
        neighbours_ascend(rest);
        assert forall|i: int, j: int| 0 <= i < j < m.len() implies less(
            #[trigger] m[i].0,
            #[trigger] m[j].0,
        ) by {
            if j < rest.len() {
                assert(less(rest[i].0, rest[j].0));
            } else {
                assert(less(m[j - 1].0, m[j - 1 + 1].0));
                if i < j - 1 {
                    assert(less(rest[i].0, rest[j - 1].0));
                    less_is_an_order(m[i].0, m[j - 1].0, m[j].0);
                }
            }
        }
    }
}

proof fn insert_finds(m: Entries, name: Seq<char>, value: Seq<char>, other: Seq<char>)
    ensures
        ascending(m) ==> lookup(inserted(m, name, value), name) == Some(value),
        other != name ==> lookup(inserted(m, name, value), other) == lookup(m, other),
    decreases m.len(),
{
    if m.len() == 0 {
        assert(inserted(m, name, value).drop_last() =~= Entries::empty());
        assert(lookup(Entries::empty(), other) is None);
    } else if m.last().0 == name {
        assert(inserted(m, name, value).drop_last() =~= m.drop_last());
    } else if less(m.last().0, name) {
        assert(inserted(m, name, value).drop_last() =~= m);
    } else {
        insert_finds(m.drop_last(), name, value, other);
        if ascending(m) {
            ascending_rest(m);
        }
        assert(inserted(m, name, value).drop_last() =~= inserted(m.drop_last(), name, value));
    }
}

proof fn ascending_rest(m: Entries)
    requires
        ascending(m),
        m.len() > 0,
    ensures
        ascending(m.drop_last()),
{
    let rest = m.drop_last();
    assert forall|i: int, j: int| 0 <= i < j < rest.len() implies less(
        #[trigger] rest[i].0,
        #[trigger] rest[j].0,
    ) by {
        assert(less(m[i].0, m[j].0));
    }
}

/// Inserting keeps the order, and every name of the result is `name` or was there before.
proof fn insert_keeps_order(m: Entries, name: Seq<char>, value: Seq<char>)
    requires
        ascending(m),
    ensures
        ascending(inserted(m, name, value)),
        forall|i: int|
            0 <= i < inserted(m, name, value).len() ==> (#[trigger] inserted(m, name, value)[i]).0
                == name || exists|j: int|
                0 <= j < m.len() && m[j].0 == inserted(m, name, value)[i].0,
    decreases m.len(),
{
    let r = inserted(m, name, value);
    if m.len() == 0 {
    } else if m.last().0 == name {
        ascending_rest(m);
        assert forall|i: int, j: int| 0 <= i < j < r.len() implies less(
            #[trigger] r[i].0,
            #[trigger] r[j].0,
        ) by {
            assert(less(m[i].0, m[j].0));
        }
        assert forall|i: int| 0 <= i < r.len() implies (#[trigger] r[i]).0 == name || exists|
            j: int,
        |
            0 <= j < m.len() && m[j].0 == r[i].0 by {
            assert(m[i].0 == r[i].0);
        }
    } else if less(m.last().0, name) {
        assert forall|i: int, j: int| 0 <= i < j < r.len() implies less(
            #[trigger] r[i].0,
            #[trigger] r[j].0,
        ) by {
            if j < m.len() {
                assert(less(m[i].0, m[j].0));
            } else {
                if i < m.len() - 1 {
                    assert(less(m[i].0, m[m.len() - 1].0));
                    less_is_an_order(m[i].0, m.last().0, name);
                }
            }
        }
        assert forall|i: int| 0 <= i < r.len() implies (#[trigger] r[i]).0 == name || exists|
            j: int,
        |
            0 <= j < m.len() && m[j].0 == r[i].0 by {
            if i < m.len() {
                assert(m[i].0 == r[i].0);
            }
        }
    } else {
        let rest = m.drop_last();
        let s = inserted(rest, name, value);
        ascending_rest(m);
        insert_keeps_order(rest, name, value);
        less_is_an_order(m.last().0, name, name);
        assert forall|i: int, j: int| 0 <= i < j < r.len() implies less(
            #[trigger] r[i].0,
            #[trigger] r[j].0,
        ) by {
            if j < s.len() {
                assert(less(s[i].0, s[j].0));
            } else {
                assert(r[i] == s[i]);
                if s[i].0 != name {
                    let k = choose|k: int| 0 <= k < rest.len() && rest[k].0 == s[i].0;
                    assert(less(m[k].0, m[m.len() - 1].0));
                }
            }
        }
        assert forall|i: int| 0 <= i < r.len() implies (#[trigger] r[i]).0 == name || exists|
            j: int,
        |
            0 <= j < m.len() && m[j].0 == r[i].0 by {
            if i < s.len() {
                assert(r[i] == s[i]);
                if s[i].0 != name {
                    let k = choose|k: int| 0 <= k < rest.len() && rest[k].0 == s[i].0;
                    assert(m[k].0 == r[i].0);
                }
            } else {
                assert(m[m.len() - 1].0 == r[i].0);
            }
        }
    }
}

/// A table in order gives every name its own value, and knows no other name.
pub proof fn every_name_has_its_value(m: Entries, i: int, other: Seq<char>)
    requires
        ascending(m),
        0 <= i < m.len(),
    ensures
        lookup(m, m[i].0) == Some(m[i].1),
        (forall|k: int| 0 <= k < m.len() ==> (#[trigger] m[k]).0 != other) ==> lookup(m, other)
            is None,
    decreases m.len(),
{
    let n = m.len() as int;
    if i < n - 1 {
        assert(less(m[i].0, m[n - 1].0));
        less_is_an_order(m[i].0, m[i].0, m[i].0);
        ascending_rest(m);
        every_name_has_its_value(m.drop_last(), i, other);
    }
    if forall|k: int| 0 <= k < m.len() ==> (#[trigger] m[k]).0 != other {
        unknown_name(m, other);
    }
}

proof fn unknown_name(m: Entries, other: Seq<char>)
    requires
        forall|k: int| 0 <= k < m.len() ==> (#[trigger] m[k]).0 != other,
    ensures
        lookup(m, other) is None,
    decreases m.len(),
{
    if m.len() > 0 {
        let rest = m.drop_last();
        assert(m[m.len() - 1].0 != other);
        assert forall|k: int| 0 <= k < rest.len() implies (#[trigger] rest[k]).0 != other by {
            assert(m[k].0 != other);
        }
        unknown_name(rest, other);
    }
}

/// A table shows the names and values of its entries, in order; and names are in order
/// exactly when each comes before those that follow it.
pub proof fn a_table_is_its_entries(m: Meta, i: int)
    ensures
        m@.len() == m.entries@.len(),
        0 <= i < m@.len() ==> m@[i] == (m.entries@[i].name@, m.entries@[i].value@),
        m.valid() <==> forall|j: int, k: int|
            0 <= j < k < m@.len() ==> less(#[trigger] m@[j].0, #[trigger] m@[k].0),
{
}

/// Setting a name adds an entry where it is new, and otherwise only changes its value.
pub proof fn setting_a_name_adds_at_most_one(m: Entries, name: Seq<char>, value: Seq<char>)
    requires
        ascending(m),
    ensures
        (exists|i: int| 0 <= i < m.len() && (#[trigger] m[i]).0 == name) ==> inserted(
            m,
            name,
            value,
        ).len() == m.len(),
        (forall|i: int| 0 <= i < m.len() ==> (#[trigger] m[i]).0 != name) ==> inserted(
            m,
            name,
            value,
        ).len() == m.len() + 1,
    decreases m.len(),
{
    if m.len() > 0 && m.last().0 != name {
        let rest = m.drop_last();
        ascending_rest(m);
        if less(m.last().0, name) {
            if exists|i: int| 0 <= i < m.len() && (#[trigger] m[i]).0 == name {
                let i = choose|i: int| 0 <= i < m.len() && (#[trigger] m[i]).0 == name;
                assert(i < m.len() - 1);
                assert(less(m[i].0, m[m.len() - 1].0));
                less_is_an_order(name, m.last().0, name);
            }
        } else {
            setting_a_name_adds_at_most_one(rest, name, value);
            if exists|i: int| 0 <= i < m.len() && (#[trigger] m[i]).0 == name {
                let i = choose|i: int| 0 <= i < m.len() && (#[trigger] m[i]).0 == name;
                assert(rest[i].0 == name);
            }
            if forall|i: int| 0 <= i < m.len() ==> (#[trigger] m[i]).0 != name {
                assert forall|i: int| 0 <= i < rest.len() implies (#[trigger] rest[i]).0 != name by {
                    assert(m[i].0 != name);
                }
            }
        }
    } else if m.len() > 0 {
        assert(m[m.len() - 1].0 == name);
    }
}

} // verus!
