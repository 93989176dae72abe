//! The names introduced by `typedef` and the types they stand for.
use vstd::prelude::*;

use super::types::BasicType;

verus! {

/// The type bound to `name`: the first entry with that name.
pub open spec fn lookup_in(entries: Seq<(String, BasicType)>, name: Seq<char>) -> Option<BasicType>
    decreases entries.len(),
{
    if entries.len() == 0 {
        None
    } else if entries[0].0@ == name {
        Some(entries[0].1)
    } else {
        lookup_in(entries.drop_first(), name)
    }
}

proof fn lemma_lookup_skip(e: Seq<(String, BasicType)>, i: int, name: Seq<char>)
    requires
        0 <= i < e.len(),
        e[i].0@ != name,
    ensures
        lookup_in(e.skip(i), name) == lookup_in(e.skip(i + 1), name),
{
    assert(e.skip(i).drop_first() =~= e.skip(i + 1));
}

proof fn lemma_lookup_update(e: Seq<(String, BasicType)>, i: int, k: String, v: BasicType, name: Seq<char>)
    requires
        0 <= i < e.len(),
        e[i].0@ == k@,
        forall|j: int| 0 <= j < i ==> e[j].0@ != k@,
    ensures
        lookup_in(e.update(i, (k, v)), name) == if name == k@ {
            Some(v)
        } else {
            lookup_in(e, name)
        },
    decreases i,
{
    let u = e.update(i, (k, v));
    if i > 0 {
        assert(u.drop_first() =~= e.drop_first().update(i - 1, (k, v)));
        lemma_lookup_update(e.drop_first(), i - 1, k, v, name);
        assert(u[0] == e[0]);
    } else {
        assert(u.drop_first() =~= e.drop_first());
        assert(u[0] == (k, v));
    }
}

proof fn lemma_lookup_push(e: Seq<(String, BasicType)>, k: String, v: BasicType, name: Seq<char>)
    requires
        forall|j: int| 0 <= j < e.len() ==> e[j].0@ != k@,
    ensures
        lookup_in(e.push((k, v)), name) == if name == k@ {
            Some(v)
        } else {
            lookup_in(e, name)
        },
    decreases e.len(),
{
    let p = e.push((k, v));
    if e.len() > 0 {
        assert(p.drop_first() =~= e.drop_first().push((k, v)));
        assert forall|j: int| 0 <= j < e.drop_first().len() implies e.drop_first()[j].0@ != k@ by {
            assert(e.drop_first()[j] == e[j + 1]);
        }
        lemma_lookup_push(e.drop_first(), k, v, name);
        assert(p[0] == e[0]);
        assert(e[0].0@ != k@);
    } else {
        assert(p.drop_first() =~= Seq::<(String, BasicType)>::empty());
        assert(lookup_in(Seq::<(String, BasicType)>::empty(), name) is None);
        assert(p[0] == (k, v));
    }
}

/// The names introduced by `typedef`, each with the type it stands for.
pub struct TypedefMap {
    pub entries: Vec<(String, BasicType)>,
}

impl TypedefMap {
    /// The type `name` stands for, if any.
    pub open spec fn lookup(&self, name: Seq<char>) -> Option<BasicType> {
        lookup_in(self.entries@, name)
    }

    /// The map that binds no name.
    pub fn new() -> (m: TypedefMap)
        ensures
            forall|n: Seq<char>| #[trigger] m.lookup(n) is None,
    {
        TypedefMap { entries: Vec::new() }
    }

    /// The type bound to `name`.
    pub fn get(&self, name: &String) -> (r: Option<&BasicType>)
        ensures
            match r {
                Some(t) => self.lookup(name@) == Some(*t),
                None => self.lookup(name@) is None,
            },
    {
        let mut i: usize = 0;
        assert(self.entries@.skip(0) =~= self.entries@);
        while i < self.entries.len()
            invariant
                i <= self.entries@.len(),
                lookup_in(self.entries@.skip(i as int), name@) == self.lookup(name@),
            decreases self.entries@.len() - i,
        {
            if self.entries[i].0.eq(name) {
                return Some(&self.entries[i].1);
            }
            proof {
                lemma_lookup_skip(self.entries@, i as int, name@);
            }
            i = i + 1;
        }
        None
    }

    /// Binds `name` to `t`, replacing any earlier binding of `name`.
    pub fn insert(&mut self, name: String, t: BasicType)
        ensures
            final(self).lookup(name@) == Some(t),
            forall|n: Seq<char>| n != name@ ==> #[trigger] final(self).lookup(n) == old(self).lookup(n),
    {
        let mut i: usize = 0;
        while i < self.entries.len()
            invariant
                i <= self.entries@.len(),
                self.entries@ == old(self).entries@,
                forall|j: int| 0 <= j < i ==> self.entries@[j].0@ != name@,
            decreases self.entries@.len() - i,
        {
            if self.entries[i].0.eq(&name) {
                let ghost old_entries = self.entries@;
                let ghost key = self.entries@[i as int].0;
                proof {
                    assert forall|n: Seq<char>| true implies lookup_in(old_entries.update(i as int, (name, t)), n)
                        == (if n == name@ { Some(t) } else { lookup_in(old_entries, n) }) by {
                        lemma_lookup_update(old_entries, i as int, name, t, n);
                    }
                }
                self.entries.set(i, (name, t));
                return;
            }
            i = i + 1;
        }
        proof {
            assert forall|n: Seq<char>| true implies lookup_in(self.entries@.push((name, t)), n) == (if n
                == name@ {
                Some(t)
            } else {
                lookup_in(self.entries@, n)
            }) by {
                lemma_lookup_push(self.entries@, name, t, n);
            }
        }
        self.entries.push((name, t));
    }
}

} // verus!
