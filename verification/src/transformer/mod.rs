//! The pass after parsing: chained `$` accesses become flat chains.

pub mod ast;
pub mod dollar;

use vstd::prelude::*;
use crate::ast::TopLevelStatement;
use crate::model::{decl_models, DeclModel};

verus! {

/// What the module-level transform makes of declarations: it leaves them as
/// they are.
pub open spec fn transformed(items: Seq<DeclModel>) -> Seq<DeclModel> {
    items
}

/// Wraps the declarations of a source unit into a module, each as it is and
/// in the order given.
pub fn transform(module: &[TopLevelStatement]) -> (r: ast::Module)
    ensures
        r@ == transformed(decl_models(module@)),
{
    let mut items: Vec<TopLevelStatement> = Vec::new();
    let mut i: usize = 0;
    while i < module.len()
        invariant
            i <= module.len(),
            items.len() == i,
            forall|j: int| 0 <= j < i ==> items[j]@ == module[j]@,
        decreases module.len() - i,
    {
        items.push(module[i].duplicate());
        i += 1;
    }
    assert(decl_models(items@) =~= decl_models(module@));
    ast::Module { items }
}

} // verus!
