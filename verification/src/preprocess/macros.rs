//! Macros and the table of macros defined so far.
use vstd::prelude::*;

verus! {

/// One piece of the body of a function-like macro.
#[derive(Debug, PartialEq)]
pub enum Replacement {
    /// text copied as it is
    Text(String),
    /// a parameter, replaced by its argument
    Parameter(String),
    /// `#parameter`: the escaped argument in double quotes
    Stringizing(String),
    /// `lhs ## rhs`: both sides pasted together
    Concat(String, String),
    /// `#__VA_ARGS__`: the variadic arguments joined by commas
    VAArg,
}

/// A replacement as a value of the specification.
pub enum RepSpec {
    Text(Seq<char>),
    Parameter(Seq<char>),
    Stringizing(Seq<char>),
    Concat(Seq<char>, Seq<char>),
    VAArg,
}

impl View for Replacement {
    type V = RepSpec;

    open spec fn view(&self) -> RepSpec {
        match self {
            Replacement::Text(t) => RepSpec::Text(t@),
            Replacement::Parameter(p) => RepSpec::Parameter(p@),
            Replacement::Stringizing(p) => RepSpec::Stringizing(p@),
            Replacement::Concat(l, r) => RepSpec::Concat(l@, r@),
            Replacement::VAArg => RepSpec::VAArg,
        }
    }
}

/// The replacements of a body, as values of the specification.
pub open spec fn reps_view(v: Seq<Replacement>) -> Seq<RepSpec> {
    v.map_values(|r: Replacement| r@)
}

/// The characters of each string.
pub open spec fn names_view(v: Seq<String>) -> Seq<Seq<char>> {
    v.map_values(|s: String| s@)
}

/// A macro: an object-like macro with its optional body, or a function-like
/// macro with its parameters, whether it is variadic, and its optional body.
#[derive(Debug)]
pub enum Macro {
    Object(Option<String>),
    Function(Vec<String>, bool, Option<Vec<Replacement>>),
}

/// A macro as a value of the specification.
pub enum MacroSpec {
    Object(Option<Seq<char>>),
    Function(Seq<Seq<char>>, bool, Option<Seq<RepSpec>>),
}

impl View for Macro {
    type V = MacroSpec;

    open spec fn view(&self) -> MacroSpec {
        match self {
            Macro::Object(b) => MacroSpec::Object(
                match b {
                    Some(s) => Some(s@),
                    None => None,
                },
            ),
            Macro::Function(ps, v, b) => MacroSpec::Function(
                names_view(ps@),
                *v,
                match b {
                    Some(r) => Some(reps_view(r@)),
                    None => None,
                },
            ),
        }
    }
}

/// The macro bound to `name`: the first entry with that name.
pub open spec fn lookup_macro(entries: Seq<(String, Macro)>, name: Seq<char>) -> Option<MacroSpec>
    decreases entries.len(),
{
    if entries.len() == 0 {
        None
    } else if entries[0].0@ == name {
        Some(entries[0].1@)
    } else {
        lookup_macro(entries.drop_first(), name)
    }
}

proof fn lemma_lookup_skip(e: Seq<(String, Macro)>, i: int, name: Seq<char>)
    requires
        0 <= i < e.len(),
        e[i].0@ != name,
    ensures
        lookup_macro(e.skip(i), name) == lookup_macro(e.skip(i + 1), name),
{
    assert(e.skip(i).drop_first() =~= e.skip(i + 1));
}

proof fn lemma_lookup_found(e: Seq<(String, Macro)>, i: int, name: Seq<char>)
    requires
        0 <= i < e.len(),
        e[i].0@ == name,
    ensures
        lookup_macro(e.skip(i), name) == Some(e[i].1@),
{
    assert(e.skip(i)[0] == e[i]);
}

proof fn lemma_lookup_append(a: Seq<(String, Macro)>, x: (String, Macro), name: Seq<char>)
    ensures
        lookup_macro(a.push(x), name) == match lookup_macro(a, name) {
            Some(m) => Some(m),
            None => if x.0@ == name {
                Some(x.1@)
            } else {
                None
            },
        },
    decreases a.len(),
{
    if a.len() > 0 {
        assert(a.push(x).drop_first() =~= a.drop_first().push(x));
        assert(a.push(x)[0] == a[0]);
        lemma_lookup_append(a.drop_first(), x, name);
    } else {
        assert(a.push(x).drop_first() =~= Seq::<(String, Macro)>::empty());
        assert(a.push(x)[0] == x);
        assert(lookup_macro(Seq::<(String, Macro)>::empty(), name) is None);
    }
}

/// A function-like macro's body names only its own parameters.
pub open spec fn macro_wf(m: MacroSpec) -> bool {
    match m {
        MacroSpec::Function(ps, _, Some(b)) => super::expand::body_wf(ps, b),
        _ => true,
    }
}

/// The macros defined so far, by name.
pub struct MacroTable {
    entries: Vec<(String, Macro)>,
}

impl MacroTable {
    /// The macro bound to `name`, if any.
    pub closed spec fn lookup(&self, name: Seq<char>) -> Option<MacroSpec> {
        lookup_macro(self.entries@, name)
    }

    /// The table as a map from names to the macros bound to them.
    pub open spec fn view(&self) -> Map<Seq<char>, MacroSpec> {
        Map::new(|n: Seq<char>| self.lookup(n) is Some, |n: Seq<char>| self.lookup(n)->0)
    }

    /// Every macro in the table is well formed.
    pub open spec fn wf(&self) -> bool {
        forall|n: Seq<char>| #[trigger] self.lookup(n) matches Some(m) ==> macro_wf(m)
    }

    /// The table that binds no name.
    pub fn new() -> (t: MacroTable)
        ensures
            t.wf(),
            forall|n: Seq<char>| #[trigger] t.lookup(n) is None,
            t@ == Map::<Seq<char>, MacroSpec>::empty(),
    {
        let t = MacroTable { entries: Vec::new() };
        assert(t@ =~= Map::<Seq<char>, MacroSpec>::empty());
        t
    }

    /// The macro bound to `name`.
    pub fn get(&self, name: &[char]) -> (r: Option<&Macro>)
        ensures
            match r {
                Some(m) => self.lookup(name@) == Some(m@),
                None => self.lookup(name@) is None,
            },
    {
        let mut i: usize = 0;
        assert(self.entries@.skip(0) =~= self.entries@);
        while i < self.entries.len()
            invariant
                i <= self.entries@.len(),
                lookup_macro(self.entries@.skip(i as int), name@) == self.lookup(name@),
            decreases self.entries@.len() - i,
        {
            if same_chars(&self.entries[i].0, name) {
                proof {
                    lemma_lookup_found(self.entries@, i as int, name@);
                }
                return Some(&self.entries[i].1);
            }
            proof {
                lemma_lookup_skip(self.entries@, i as int, name@);
            }
            i = i + 1;
        }
        assert(self.entries@.skip(i as int) =~= Seq::<(String, Macro)>::empty());
        None
    }

    /// Whether a macro is bound to `name`.
    pub fn contains(&self, name: &[char]) -> (b: bool)
        ensures
            b == self.lookup(name@) is Some,
    {
        self.get(name).is_some()
    }

    /// Removes the binding of `name`, if there is one.
    pub fn remove(&mut self, name: &[char])
        requires
            old(self).wf(),
        ensures
            final(self).wf(),
            final(self).lookup(name@) is None,
            forall|n: Seq<char>| n != name@ ==> #[trigger] final(self).lookup(n) == old(self).lookup(n),
            final(self)@ == old(self)@.remove(name@),
    {
        let mut kept: Vec<(String, Macro)> = Vec::new();
        let mut rest: Vec<(String, Macro)> = Vec::new();
        std::mem::swap(&mut rest, &mut self.entries);
        let ghost all = rest@;
        let ghost mut i: int = 0;
        assert(all.skip(0) =~= all);
        while rest.len() > 0
            invariant
                i <= all.len(),
                0 <= i,
                rest@ == all.skip(i),
                lookup_macro(kept@, name@) is None,
                forall|n: Seq<char>|
                    n != name@ ==> #[trigger] lookup_macro(kept@, n) == lookup_macro(all.take(i), n),
            decreases rest@.len(),
        {
            let e = rest.remove(0);
            proof {
                assert(e == all[i]);
                assert(all.take(i + 1) =~= all.take(i).push(all[i]));
                assert(all.skip(i + 1) =~= all.skip(i as int).drop_first());
            }
            if same_chars(&e.0, name) {
                proof {
                    assert forall|n: Seq<char>| n != name@ implies #[trigger] lookup_macro(
                        all.take(i + 1),
                        n,
                    ) == lookup_macro(all.take(i), n) by {
                        lemma_lookup_append(all.take(i), all[i], n);
                    }
                }
            } else {
                proof {
                    lemma_lookup_append(kept@, e, name@);
                    assert forall|n: Seq<char>| n != name@ implies #[trigger] lookup_macro(
                        kept@.push(e),
                        n,
                    ) == lookup_macro(all.take(i + 1), n) by {
                        lemma_lookup_append(kept@, e, n);
                        lemma_lookup_append(all.take(i), all[i], n);
                    }
                }
                kept.push(e);
            }
            proof {
                i = i + 1;
            }
        }
        assert(all.take(all.len() as int) =~= all);
        self.entries = kept;
        assert forall|n: Seq<char>| #[trigger] self.lookup(n) is Some implies macro_wf(self.lookup(n)->0) by {
            if n != name@ {
                assert(old(self).lookup(n) == self.lookup(n));
            }
        }
        assert(self@ =~= old(self)@.remove(name@));
    }

    /// Binds `name` to `m`, replacing any earlier binding of `name`.
    pub fn insert(&mut self, name: String, m: Macro)
        requires
            old(self).wf(),
            macro_wf(m@),
        ensures
            final(self).wf(),
            final(self).lookup(name@) == Some(m@),
            forall|n: Seq<char>| n != name@ ==> #[trigger] final(self).lookup(n) == old(self).lookup(n),
            final(self)@ == old(self)@.insert(name@, m@),
    {
        let key = crate::text::chars_of(name.as_str());
        self.remove(key.as_slice());
        let ghost mid = *self;
        self.entries.insert(0, (name, m));
        proof {
            assert(self.entries@.drop_first() =~= mid.entries@);
            assert forall|n: Seq<char>| n != name@ implies #[trigger] self.lookup(n) == old(self).lookup(n) by {
                assert(mid.lookup(n) == old(self).lookup(n));
            }
            assert forall|n: Seq<char>| #[trigger] self.lookup(n) is Some implies macro_wf(self.lookup(n)->0) by {
                if n != name@ {
                    assert(mid.lookup(n) == old(self).lookup(n));
                }
            }
            assert(self@ =~= old(self)@.insert(name@, m@));
        }
    }
}

/// `#undef` of a name that `#define` has just bound, where it was unbound
/// before, gives back the table as it was; a second `#define` of a name
/// replaces the first.
pub proof fn law_undef_undoes_define(before: Map<Seq<char>, MacroSpec>, name: Seq<char>, m: MacroSpec, m2: MacroSpec)
    ensures
        !before.dom().contains(name) ==> before.insert(name, m).remove(name) == before,
        before.insert(name, m).insert(name, m2) == before.insert(name, m2),
{
    assert(!before.dom().contains(name) ==> before.insert(name, m).remove(name) =~= before);
    assert(before.insert(name, m).insert(name, m2) =~= before.insert(name, m2));
}

/// Whether the string spells the characters.
pub fn same_chars(s: &String, c: &[char]) -> (b: bool)
    ensures
        b == (s@ == c@),
{
    let v = crate::text::chars_of(s.as_str());
    if v.len() != c.len() {
        return false;
    }
    let mut i: usize = 0;
    while i < v.len()
        invariant
            i <= v@.len(),
            v@.len() == c@.len(),
            v@ == s@,
            forall|j: int| 0 <= j < i ==> v@[j] == c@[j],
        decreases v@.len() - i,
    {
        if v[i] != c[i] {
            return false;
        }
        i = i + 1;
    }
    assert(v@ =~= c@);
    true
}

} // verus!
