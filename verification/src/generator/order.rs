//! The order in which a module is generated: every global declaration
//! first (prototypes, global variables and typedefs, in source order), then
//! the bodies of the function definitions, so that a body may call a
//! function defined further down.
use vstd::prelude::*;

use crate::ast::{Declaration, DeclarationEnum};

verus! {

/// One step of generating a module, naming a declaration by its index.
#[derive(Clone, Copy, Debug, PartialEq, Eq)]
pub enum GenStep {
    /// the global declaration: a prototype, a global variable or a typedef
    Global(usize),
    /// the body of the function definition
    Body(usize),
}

/// The global steps of the first `n` declarations, in order.
pub open spec fn global_steps(n: nat) -> Seq<GenStep> {
    Seq::new(n, |k: int| GenStep::Global(k as usize))
}

/// The body steps of the function definitions among the first `n`
/// declarations, in order.
pub open spec fn body_steps(ds: Seq<Declaration>, n: int) -> Seq<GenStep>
    decreases n,
{
    if n <= 0 {
        Seq::empty()
    } else if ds[n - 1].node is FunctionDefinition {
        body_steps(ds, n - 1).push(GenStep::Body((n - 1) as usize))
    } else {
        body_steps(ds, n - 1)
    }
}

/// The steps that generate the declarations `ds`.
pub open spec fn generation_order_spec(ds: Seq<Declaration>) -> Seq<GenStep> {
    global_steps(ds.len()) + body_steps(ds, ds.len() as int)
}

/// The steps that generate the declarations `ds`: one global step for each
/// declaration in order, then one body step for each function definition in
/// order.
pub fn generation_order(ds: &Vec<Declaration>) -> (r: Vec<GenStep>)
    ensures
        r@ == generation_order_spec(ds@),
{
    let mut r: Vec<GenStep> = Vec::new();
    let mut i: usize = 0;
    while i < ds.len()
        invariant
            i <= ds@.len(),
            r@ == global_steps(i as nat),
        decreases ds@.len() - i,
    {
        r.push(GenStep::Global(i));
        i = i + 1;
        assert(r@ =~= global_steps(i as nat));
    }
    let mut j: usize = 0;
    while j < ds.len()
        invariant
            j <= ds@.len(),
            r@ == global_steps(ds@.len()) + body_steps(ds@, j as int),
        decreases ds@.len() - j,
    {
        let is_def = match &ds[j].node {
            DeclarationEnum::FunctionDefinition(..) => true,
            _ => false,
        };
        if is_def {
            r.push(GenStep::Body(j));
        }
        j = j + 1;
        assert(r@ =~= global_steps(ds@.len()) + body_steps(ds@, j as int));
    }
    r
}

proof fn lemma_body_steps(ds: Seq<Declaration>, n: int)
    requires
        n <= usize::MAX,
    ensures
        forall|p: int| 0 <= p < body_steps(ds, n).len() ==> (#[trigger] body_steps(ds, n)[p] matches GenStep::Body(
            k,
        ) && k < n && ds[k as int].node is FunctionDefinition),
        forall|k: int| 0 <= k < n && ds[k].node is FunctionDefinition ==> #[trigger] body_steps(ds, n).contains(
            GenStep::Body(k as usize),
        ),
    decreases n,
{
    if n > 0 {
        lemma_body_steps(ds, n - 1);
        let prev = body_steps(ds, n - 1);
        if ds[n - 1].node is FunctionDefinition {
            assert forall|p: int| 0 <= p < body_steps(ds, n).len() implies (#[trigger] body_steps(ds, n)[p] matches GenStep::Body(
                k,
            ) && k < n && ds[k as int].node is FunctionDefinition) by {
                if p < prev.len() {
                    assert(body_steps(ds, n)[p] == prev[p]);
                }
            }
            assert forall|k: int| 0 <= k < n && ds[k].node is FunctionDefinition implies #[trigger] body_steps(
                ds,
                n,
            ).contains(GenStep::Body(k as usize)) by {
                if k == n - 1 {
                    assert(body_steps(ds, n)[prev.len() as int] == GenStep::Body(k as usize));
                } else {
                    assert(prev.contains(GenStep::Body(k as usize)));
                    let p = choose|p: int| 0 <= p < prev.len() && prev[p] == GenStep::Body(k as usize);
                    assert(body_steps(ds, n)[p] == GenStep::Body(k as usize));
                }
            }
        }
    }
}

/// Every global declaration is generated before any function body, and
/// every function definition gets its body generated: a body may use any
/// function or global variable of the module, whether it stands above or
/// below it.
pub proof fn law_globals_before_bodies(ds: Seq<Declaration>)
    requires
        ds.len() <= usize::MAX,
    ensures
        forall|p: int, q: int|
            0 <= p < generation_order_spec(ds).len() && 0 <= q < generation_order_spec(ds).len() && (
            #[trigger] generation_order_spec(ds)[p] is Body) && (#[trigger] generation_order_spec(ds)[q] is Global)
                ==> q < p,
        forall|k: int|
            0 <= k < ds.len() ==> #[trigger] generation_order_spec(ds)[k] == GenStep::Global(k as usize),
        forall|k: int|
            0 <= k < ds.len() && ds[k].node is FunctionDefinition ==> #[trigger] generation_order_spec(ds).contains(
                GenStep::Body(k as usize),
            ),
{
    let g = global_steps(ds.len());
    let b = body_steps(ds, ds.len() as int);
    lemma_body_steps(ds, ds.len() as int);
    assert forall|p: int, q: int|
        0 <= p < generation_order_spec(ds).len() && 0 <= q < generation_order_spec(ds).len() && (
        #[trigger] generation_order_spec(ds)[p] is Body) && (#[trigger] generation_order_spec(ds)[q] is Global)
            implies q < p by {
        if p < g.len() {
            assert(generation_order_spec(ds)[p] == g[p]);
        }
        if q >= g.len() {
            assert(generation_order_spec(ds)[q] == b[q - g.len()]);
        }
    }
    assert forall|k: int|
        0 <= k < ds.len() && ds[k].node is FunctionDefinition implies #[trigger] generation_order_spec(ds).contains(
            GenStep::Body(k as usize),
        ) by {
        assert(b.contains(GenStep::Body(k as usize)));
        let p = choose|p: int| 0 <= p < b.len() && b[p] == GenStep::Body(k as usize);
        assert(generation_order_spec(ds)[g.len() + p] == GenStep::Body(k as usize));
    }
}

} // verus!
