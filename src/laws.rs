//! Laws that relate the registry operations to one another.

use vstd::prelude::*;
use crate::switch::{
    first_name_at, has_key, has_name, lookup, with_variable, CategoryView, VarView,
};

verus! {

/// Adding a fresh key makes it visible with its value, and adding the same
/// key a second time changes nothing, so the first value stays.
pub proof fn law_add_then_get(vars: Seq<VarView>, k: Seq<char>, v: Seq<char>, v2: Seq<char>)
    requires
        !has_key(vars, k),
    ensures
        lookup(with_variable(vars, k, v), k) == Some(v),
        has_key(with_variable(vars, k, v), k),
        with_variable(with_variable(vars, k, v), k, v2) == with_variable(vars, k, v),
{
    crate::switch::lemma_lookup_push(vars, k, (k, v));
}

/// Removing the first category named `n` at position `i` drops exactly that
/// category and keeps every other one, contents and order included.
pub proof fn law_remove_category_keeps_others(cats: Seq<CategoryView>, n: Seq<char>, i: int)
    requires
        first_name_at(cats, n, i),
    ensures
        has_name(cats, n),
        cats.remove(i).len() == cats.len() - 1,
        forall|j: int| 0 <= j < i ==> cats.remove(i)[j] == cats[j],
        forall|j: int| i <= j < cats.len() - 1 ==> cats.remove(i)[j] == cats[j + 1],
{
}

} // verus!
