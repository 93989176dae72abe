//! The names code generation knows: local variables in nested scopes, global
//! variables and functions, and the loops that `break` and `continue` leave.
//! Each variable carries a handle by which the code that emits instructions
//! finds its storage.
use vstd::prelude::*;

use crate::ast::copy::{copy_basic_type, copy_string};
use crate::ast::equality::same_basic_type;
use crate::ast::{BasicType, Span, StorageClassSpecifier};
use crate::utils::error::{
    is_duplicated_function, is_duplicated_global_variable, is_duplicated_symbol, is_duplicated_variable,
    is_keyword_not_in_a_loop, is_missing_variable, is_redefinition_symbol, CompileErr,
};

verus! {

/// A variable: its name, its type and the handle of its storage.
pub type Binding = (String, BasicType, u64);

/// The type and handle bound to `name` in `es`: the first entry with that name.
pub open spec fn find_binding(es: Seq<Binding>, name: Seq<char>) -> Option<(BasicType, u64)>
    decreases es.len(),
{
    if es.len() == 0 {
        None
    } else if es[0].0@ == name {
        Some((es[0].1, es[0].2))
    } else {
        find_binding(es.drop_first(), name)
    }
}

/// The binding of `name` in the innermost scope that has one; scopes are
/// listed outermost first.
pub open spec fn scopes_lookup(scopes: Seq<Vec<Binding>>, name: Seq<char>) -> Option<(BasicType, u64)>
    decreases scopes.len(),
{
    if scopes.len() == 0 {
        None
    } else {
        match find_binding(scopes.last()@, name) {
            Some(b) => Some(b),
            None => scopes_lookup(scopes.drop_last(), name),
        }
    }
}

/// A binding in a scope opened inside others hides the bindings of the
/// same name in the outer scopes; a name the inner scope does not bind is
/// found as before.
pub proof fn law_inner_binding_hides(scopes: Seq<Vec<Binding>>, inner: Vec<Binding>, name: Seq<char>)
    ensures
        scopes_lookup(scopes.push(inner), name) == match find_binding(inner@, name) {
            Some(b) => Some(b),
            None => scopes_lookup(scopes, name),
        },
{
    assert(scopes.push(inner).drop_last() =~= scopes);
}

/// Closing the scope just opened leaves the scopes as they were.
pub proof fn law_pop_undoes_push(before: Seq<Vec<Binding>>, opened: Seq<Vec<Binding>>, closed: Seq<Vec<Binding>>)
    requires
        opened.len() == before.len() + 1,
        opened.drop_last() == before,
        closed == opened.drop_last(),
    ensures
        closed == before,
{
}

/// Leaving the loop just entered gives back the loops as they were, and
/// inside it `break` and `continue` go to its own targets.
pub proof fn law_leave_undoes_enter(before: Seq<(u64, u64)>, brk: u64, cont: u64)
    ensures
        before.push((brk, cont)).drop_last() == before,
        before.push((brk, cont)).last() == (brk, cont),
{
    assert(before.push((brk, cont)).drop_last() =~= before);
}

/// A function: its name, return type, parameter types and whether it is
/// variadic.
pub type FunctionSig = (String, BasicType, Vec<BasicType>, bool);

/// Whether a function named `name` is declared in `fs`.
pub open spec fn has_function(fs: Seq<FunctionSig>, name: Seq<char>) -> bool {
    exists|i: int| 0 <= i < fs.len() && #[trigger] fs[i].0@ == name
}

/// The linkage a function gets from its storage class.
#[derive(Debug, Clone, Copy, PartialEq, Eq, Structural)]
pub enum Linkage {
    /// `static`: visible in this module only
    Internal,
    /// `extern`
    External,
    /// no storage class: the default linkage
    Default,
}

/// The linkage of storage class `s`; `typedef`, `_Thread_local` and
/// `register` functions have none.
pub open spec fn linkage_of(s: StorageClassSpecifier) -> Option<Linkage> {
    match s {
        StorageClassSpecifier::Static => Some(Linkage::Internal),
        StorageClassSpecifier::Extern => Some(Linkage::External),
        StorageClassSpecifier::Auto => Some(Linkage::Default),
        _ => None,
    }
}

/// The variables and functions known while generating code.
pub struct Symbols {
    /// the local scopes, outermost first
    scopes: Vec<Vec<Binding>>,
    globals: Vec<Binding>,
    functions: Vec<FunctionSig>,
}

fn find_index(es: &Vec<Binding>, name: &String) -> (r: Option<usize>)
    ensures
        match r {
            Some(i) => i < es@.len() && find_binding(es@, name@) == Some((es@[i as int].1, es@[i as int].2)),
            None => find_binding(es@, name@) is None,
        },
{
    let mut i: usize = 0;
    assert(es@.skip(0) =~= es@);
    while i < es.len()
        invariant
            i <= es@.len(),
            find_binding(es@.skip(i as int), name@) == find_binding(es@, name@),
        decreases es@.len() - i,
    {
        assert(es@.skip(i as int)[0] == es@[i as int]);
        assert(es@.skip(i as int).drop_first() =~= es@.skip(i + 1));
        if es[i].0.eq(name) {
            return Some(i);
        }
        i = i + 1;
    }
    assert(es@.skip(i as int) =~= Seq::<Binding>::empty());
    None
}

impl Symbols {
    pub closed spec fn scopes_view(&self) -> Seq<Vec<Binding>> {
        self.scopes@
    }

    pub closed spec fn globals_view(&self) -> Seq<Binding> {
        self.globals@
    }

    pub closed spec fn functions_view(&self) -> Seq<FunctionSig> {
        self.functions@
    }

    /// The variable `name` resolves to: the binding of the innermost local
    /// scope that has one, else the global variable.
    pub open spec fn variable(&self, name: Seq<char>) -> Option<(BasicType, u64)> {
        match scopes_lookup(self.scopes_view(), name) {
            Some(b) => Some(b),
            None => find_binding(self.globals_view(), name),
        }
    }

    /// No variables and no functions, with one empty scope open.
    pub fn new() -> (s: Symbols)
        ensures
            s.scopes_view().len() == 1,
            s.scopes_view()[0]@.len() == 0,
            s.globals_view().len() == 0,
            s.functions_view().len() == 0,
    {
        let mut scopes: Vec<Vec<Binding>> = Vec::new();
        scopes.push(Vec::new());
        Symbols { scopes, globals: Vec::new(), functions: Vec::new() }
    }

    /// Opens a new innermost scope.
    pub fn push_scope(&mut self)
        ensures
            final(self).scopes_view().len() == old(self).scopes_view().len() + 1,
            final(self).scopes_view().drop_last() == old(self).scopes_view(),
            final(self).scopes_view().last()@.len() == 0,
            final(self).globals_view() == old(self).globals_view(),
            final(self).functions_view() == old(self).functions_view(),
    {
        self.scopes.push(Vec::new());
        assert(self.scopes@.drop_last() =~= old(self).scopes@);
    }

    /// Closes the innermost scope.
    pub fn pop_scope(&mut self)
        requires
            old(self).scopes_view().len() > 0,
        ensures
            final(self).scopes_view() == old(self).scopes_view().drop_last(),
            final(self).globals_view() == old(self).globals_view(),
            final(self).functions_view() == old(self).functions_view(),
    {
        self.scopes.pop();
    }

    /// Declares a local variable in the innermost scope; a name that scope
    /// already declares is refused.
    pub fn insert_local(&mut self, name: &String, t: &BasicType, handle: u64, span: Span) -> (r: Result<(), CompileErr>)
        requires
            old(self).scopes_view().len() > 0,
        ensures
            final(self).globals_view() == old(self).globals_view(),
            final(self).functions_view() == old(self).functions_view(),
            final(self).scopes_view().len() == old(self).scopes_view().len(),
            final(self).scopes_view().drop_last() == old(self).scopes_view().drop_last(),
            find_binding(old(self).scopes_view().last()@, name@) is Some ==> (r matches Err(e)
                && is_duplicated_variable(e, name@, span) && final(self).scopes_view().last()@ == old(self).scopes_view().last()@),
            find_binding(old(self).scopes_view().last()@, name@) is None ==> r is Ok && final(self).scopes_view().last()@.len()
                == old(self).scopes_view().last()@.len() + 1 && final(self).scopes_view().last()@.drop_last() == old(
                self,
            ).scopes_view().last()@ && final(self).scopes_view().last()@.last().0@ == name@ && same_basic_type(
                final(self).scopes_view().last()@.last().1,
                *t,
            ) && final(self).scopes_view().last()@.last().2 == handle,
    {
        let mut inner = self.scopes.pop().unwrap();
        if find_index(&inner, name).is_some() {
            self.scopes.push(inner);
            assert(self.scopes@.drop_last() =~= old(self).scopes@.drop_last());
            return Err(CompileErr::duplicated_variable(copy_string(name), span));
        }
        let ghost before = inner@;
        inner.push((copy_string(name), copy_basic_type(t), handle));
        assert(inner@.drop_last() =~= before);
        self.scopes.push(inner);
        assert(self.scopes@.drop_last() =~= old(self).scopes@.drop_last());
        Ok(())
    }

    /// The type and handle of variable `name`, or the missing-variable error.
    pub fn get_variable(&self, name: &String, span: Span) -> (r: Result<(BasicType, u64), CompileErr>)
        ensures
            match r {
                Ok((t, h)) => self.variable(name@) matches Some((vt, vh)) && same_basic_type(t, vt) && h == vh,
                Err(e) => self.variable(name@) is None && is_missing_variable(e, name@, span),
            },
    {
        let mut i: usize = self.scopes.len();
        assert(self.scopes@.take(i as int) =~= self.scopes@);
        while i > 0
            invariant
                i <= self.scopes@.len(),
                scopes_lookup(self.scopes@.take(i as int), name@) == scopes_lookup(self.scopes@, name@),
            decreases i,
        {
            assert(self.scopes@.take(i as int).last() == self.scopes@[i - 1]);
            assert(self.scopes@.take(i as int).drop_last() =~= self.scopes@.take(i - 1));
            if let Some(k) = find_index(&self.scopes[i - 1], name) {
                let b = &self.scopes[i - 1][k];
                return Ok((copy_basic_type(&b.1), b.2));
            }
            i = i - 1;
        }
        assert(self.scopes@.take(0) =~= Seq::<Vec<Binding>>::empty());
        match find_index(&self.globals, name) {
            Some(k) => Ok((copy_basic_type(&self.globals[k].1), self.globals[k].2)),
            None => Err(CompileErr::missing_variable(copy_string(name), span)),
        }
    }

    fn has_function_exec(&self, name: &String) -> (b: bool)
        ensures
            b == has_function(self.functions@, name@),
    {
        let mut i: usize = 0;
        while i < self.functions.len()
            invariant
                i <= self.functions@.len(),
                forall|j: int| 0 <= j < i ==> self.functions@[j].0@ != name@,
            decreases self.functions@.len() - i,
        {
            if self.functions[i].0.eq(name) {
                return true;
            }
            i = i + 1;
        }
        false
    }

    /// Declares a function; a name already declared as a function, or as a
    /// global variable, is refused. Gives the linkage of its storage class.
    pub fn declare_function(
        &mut self,
        storage: StorageClassSpecifier,
        ret: &BasicType,
        name: &String,
        params: &Vec<BasicType>,
        variadic: bool,
        span: Span,
    ) -> (r: Result<Linkage, CompileErr>)
        requires
            has_function(old(self).functions_view(), name@) || find_binding(old(self).globals_view(), name@) is Some
                || linkage_of(storage) is Some,
        ensures
            final(self).scopes_view() == old(self).scopes_view(),
            final(self).globals_view() == old(self).globals_view(),
            has_function(old(self).functions_view(), name@) ==> (r matches Err(e) && is_duplicated_function(e, name@, span)
                && final(self).functions_view() == old(self).functions_view()),
            !has_function(old(self).functions_view(), name@) && find_binding(old(self).globals_view(), name@)
                is Some ==> (r matches Err(e) && is_redefinition_symbol(e, name@, span) && final(self).functions_view() == old(self).functions_view()),
            !has_function(old(self).functions_view(), name@) && find_binding(old(self).globals_view(), name@)
                is None ==> r == Ok::<Linkage, CompileErr>(linkage_of(storage).unwrap()) && final(self).functions_view().len() == old(self).functions_view().len() + 1 && final(self).functions_view().drop_last()
                == old(self).functions_view() && final(self).functions_view().last().0@ == name@ && final(self).functions_view().last().3 == variadic,
    {
        if self.has_function_exec(name) {
            return Err(CompileErr::duplicated_function(copy_string(name), span));
        }
        if find_index(&self.globals, name).is_some() {
            return Err(CompileErr::redefinition_symbol(copy_string(name), span));
        }
        let linkage = match storage {
            StorageClassSpecifier::Static => Linkage::Internal,
            StorageClassSpecifier::Extern => Linkage::External,
            _ => Linkage::Default,
        };
        let mut ps: Vec<BasicType> = Vec::new();
        let mut i: usize = 0;
        while i < params.len()
            invariant
                i <= params@.len(),
            decreases params@.len() - i,
        {
            ps.push(copy_basic_type(&params[i]));
            i = i + 1;
        }
        self.functions.push((copy_string(name), copy_basic_type(ret), ps, variadic));
        assert(self.functions@.drop_last() =~= old(self).functions@);
        Ok(linkage)
    }

    /// The declaration of function `name`, if there is one.
    pub fn function(&self, name: &String) -> (r: Option<&FunctionSig>)
        ensures
            match r {
                Some(f) => f.0@ == name@ && self.functions_view().contains(*f),
                None => !has_function(self.functions_view(), name@),
            },
    {
        let mut i: usize = 0;
        while i < self.functions.len()
            invariant
                i <= self.functions@.len(),
                forall|j: int| 0 <= j < i ==> self.functions@[j].0@ != name@,
            decreases self.functions@.len() - i,
        {
            if self.functions[i].0.eq(name) {
                assert(self.functions@[i as int] == self.functions@[i as int]);
                return Some(&self.functions[i]);
            }
            i = i + 1;
        }
        None
    }

    /// Declares a global variable; a name already declared as a global
    /// variable, or as a function, is refused.
    pub fn declare_global(&mut self, name: &String, t: &BasicType, handle: u64, span: Span) -> (r: Result<(), CompileErr>)
        ensures
            final(self).scopes_view() == old(self).scopes_view(),
            final(self).functions_view() == old(self).functions_view(),
            find_binding(old(self).globals_view(), name@) is Some ==> (r matches Err(e)
                && is_duplicated_global_variable(e, name@, span) && final(self).globals_view()
                == old(self).globals_view()),
            find_binding(old(self).globals_view(), name@) is None && has_function(old(self).functions_view(), name@)
                ==> (r matches Err(e) && is_duplicated_symbol(e, name@, span) && final(self).globals_view()
                == old(self).globals_view()),
            find_binding(old(self).globals_view(), name@) is None && !has_function(
                old(self).functions_view(),
                name@,
            ) ==> r is Ok && final(self).globals_view().len() == old(self).globals_view().len() + 1 && final(self).globals_view().drop_last() == old(self).globals_view() && final(self).globals_view().last().0@
                == name@ && same_basic_type(final(self).globals_view().last().1, *t) && final(self).globals_view().last().2 == handle,
    {
        if find_index(&self.globals, name).is_some() {
            return Err(CompileErr::duplicated_global_variable(copy_string(name), span));
        }
        if self.has_function_exec(name) {
            return Err(CompileErr::duplicated_symbol(copy_string(name), span));
        }
        self.globals.push((copy_string(name), copy_basic_type(t), handle));
        assert(self.globals@.drop_last() =~= old(self).globals@);
        Ok(())
    }
}

/// The blocks that `break` and `continue` jump to in the loops being
/// generated, innermost last.
pub struct LoopTargets {
    targets: Vec<(u64, u64)>,
}

impl LoopTargets {
    pub closed spec fn view(&self) -> Seq<(u64, u64)> {
        self.targets@
    }

    /// No loop.
    pub fn new() -> (l: LoopTargets)
        ensures
            l.view().len() == 0,
    {
        LoopTargets { targets: Vec::new() }
    }

    /// Enters a loop whose `break` goes to `brk` and `continue` to `cont`.
    pub fn enter(&mut self, brk: u64, cont: u64)
        ensures
            final(self).view() == old(self).view().push((brk, cont)),
    {
        self.targets.push((brk, cont));
    }

    /// Leaves the innermost loop.
    pub fn leave(&mut self)
        requires
            old(self).view().len() > 0,
        ensures
            final(self).view() == old(self).view().drop_last(),
    {
        self.targets.pop();
    }

    /// Where `break` goes, or the error for a `break` outside any loop.
    pub fn break_target(&self, span: Span) -> (r: Result<u64, CompileErr>)
        ensures
            match r {
                Ok(b) => self.view().len() > 0 && b == self.view().last().0,
                Err(e) => self.view().len() == 0 && is_keyword_not_in_a_loop(e, "break"@, span),
            },
    {
        if self.targets.len() == 0 {
            return Err(CompileErr::keyword_not_in_a_loop(String::from_str("break"), span));
        }
        Ok(self.targets[self.targets.len() - 1].0)
    }

    /// Where `continue` goes, or the error for a `continue` outside any loop.
    pub fn continue_target(&self, span: Span) -> (r: Result<u64, CompileErr>)
        ensures
            match r {
                Ok(c) => self.view().len() > 0 && c == self.view().last().1,
                Err(e) => self.view().len() == 0 && is_keyword_not_in_a_loop(e, "continue"@, span),
            },
    {
        if self.targets.len() == 0 {
            return Err(CompileErr::keyword_not_in_a_loop(String::from_str("continue"), span));
        }
        Ok(self.targets[self.targets.len() - 1].1)
    }
}

} // verus!
