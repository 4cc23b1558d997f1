//! The decisions behind each command, apart from reading input and printing.

use vstd::prelude::*;
use crate::switch::{
    first_key_at, first_name_at, has_key, has_name, keys_unique, lookup, registry_well_formed,
    CategoryView, SwitchCategory, SwitchRegistry, VarView,
};

verus! {

/// What `set` did.
#[derive(PartialEq, Eq, Structural, Debug, Clone, Copy)]
pub enum SetOutcome {
    /// The variable was added to an existing category.
    Added,
    /// No category had the name: one was created holding the variable.
    CategoryCreated,
    /// The category already holds the key; nothing changed.
    AlreadyExists,
}

/// What `remove` did.
#[derive(PartialEq, Eq, Structural, Debug, Clone, Copy)]
pub enum RemoveOutcome {
    /// The variable was removed from its category.
    VariableRemoved,
    /// The category holds no such key; nothing changed.
    VariableMissing,
    /// The whole category was removed.
    CategoryRemoved,
    /// No category has the name; nothing changed.
    CategoryMissing,
}

/// Why a variable could not be applied.
#[derive(PartialEq, Eq, Structural, Debug, Clone, Copy)]
pub enum ApplyError {
    UnknownCategory,
    UnknownVariable,
}

proof fn lemma_first_name_unique(cats: Seq<CategoryView>, n: Seq<char>, i: int)
    requires
        first_name_at(cats, n, i),
    ensures
        forall|j: int| first_name_at(cats, n, j) ==> j == i,
{
}

/// The category at `i` with its variables replaced by `vars`.
pub open spec fn with_vars(cats: Seq<CategoryView>, i: int, vars: Seq<VarView>) -> Seq<CategoryView> {
    cats.update(i, (cats[i].0, vars))
}

/// Adds `name = value` to the category `category_name`, creating the category
/// when there is none; an existing key is never overwritten.
pub fn set(registry: &mut SwitchRegistry, category_name: &str, name: &str, value: &str) -> (r: SetOutcome)
    ensures
        r == SetOutcome::CategoryCreated <==> !has_name(old(registry)@, category_name@),
        r == SetOutcome::CategoryCreated ==> final(registry)@ == old(registry)@.push(
            (category_name@, seq![(name@, value@)]),
        ),
        r == SetOutcome::Added ==> exists|i: int|
            first_name_at(old(registry)@, category_name@, i) && !has_key(old(registry)@[i].1, name@)
                && final(registry)@ == with_vars(
                old(registry)@,
                i,
                old(registry)@[i].1.push((name@, value@)),
            ),
        r == SetOutcome::AlreadyExists ==> exists|i: int|
            first_name_at(old(registry)@, category_name@, i) && has_key(old(registry)@[i].1, name@)
                && final(registry)@ == old(registry)@,
        registry_well_formed(old(registry)@) ==> registry_well_formed(final(registry)@),
{
    let ghost i = choose|i: int| first_name_at(old(registry)@, category_name@, i);
    match registry.get_category(category_name) {
        Some(c) => {
            proof {
                lemma_first_name_unique(old(registry)@, category_name@, i);
                if registry_well_formed(old(registry)@) {
                    assert(keys_unique(old(registry)@[i].1));
                }
            }
            let added = c.add_variable(name, value);
            let ghost cv = c@;
            proof {
                assert(registry@ =~= with_vars(old(registry)@, i, cv.1));
            }
            if added {
                SetOutcome::Added
            } else {
                assert(registry@ =~= old(registry)@);
                SetOutcome::AlreadyExists
            }
        },
        None => {
            let mut c = SwitchCategory::new(category_name);
            c.add_variable(name, value);
            assert(c.vars() =~= seq![(name@, value@)]);
            registry.add_category(c);
            proof {
                if registry_well_formed(old(registry)@) {
                    assert(registry@.last().0 == category_name@);
                    assert forall|a: int, b: int| 0 <= a < b < registry@.len() implies registry@[a].0
                        != registry@[b].0 by {
                        if b == registry@.len() - 1 {
                            assert(registry@[a] == old(registry)@[a]);
                        }
                    }
                    assert forall|a: int| 0 <= a < registry@.len() implies keys_unique(#[trigger] registry@[a].1) by {
                        if a < old(registry)@.len() {
                            assert(registry@[a] == old(registry)@[a]);
                        }
                    }
                }
            }
            SetOutcome::CategoryCreated
        },
    }
}

/// Removes the variable `name` from the category `category_name`, or the
/// whole category when no name is given.
pub fn remove(registry: &mut SwitchRegistry, category_name: &str, name: Option<&str>) -> (r: RemoveOutcome)
    ensures
        r == RemoveOutcome::CategoryMissing <==> !has_name(old(registry)@, category_name@),
        r == RemoveOutcome::CategoryMissing ==> final(registry)@ == old(registry)@,
        r == RemoveOutcome::CategoryRemoved <==> has_name(old(registry)@, category_name@) && name is None,
        r == RemoveOutcome::CategoryRemoved ==> exists|i: int|
            first_name_at(old(registry)@, category_name@, i) && final(registry)@ == old(registry)@.remove(i),
        r == RemoveOutcome::VariableRemoved ==> name is Some && exists|i: int, j: int|
            first_name_at(old(registry)@, category_name@, i) && first_key_at(
                old(registry)@[i].1,
                name.unwrap()@,
                j,
            ) && final(registry)@ == with_vars(old(registry)@, i, old(registry)@[i].1.remove(j)),
        r == RemoveOutcome::VariableMissing ==> name is Some && exists|i: int|
            first_name_at(old(registry)@, category_name@, i) && !has_key(old(registry)@[i].1, name.unwrap()@)
                && final(registry)@ == old(registry)@,
        registry_well_formed(old(registry)@) ==> registry_well_formed(final(registry)@),
{
    let ghost i = choose|i: int| first_name_at(old(registry)@, category_name@, i);
    match registry.get_category(category_name) {
        Some(c) => match name {
            Some(key) => {
                proof {
                    lemma_first_name_unique(old(registry)@, category_name@, i);
                    if registry_well_formed(old(registry)@) {
                        assert(keys_unique(old(registry)@[i].1));
                    }
                }
                let removed = c.remove_variable(key);
                let ghost cv = c@;
                proof {
                    assert(registry@ =~= with_vars(old(registry)@, i, cv.1));
                }
                if removed {
                    RemoveOutcome::VariableRemoved
                } else {
                    assert(registry@ =~= old(registry)@);
                    RemoveOutcome::VariableMissing
                }
            },
            None => {
                proof {
                    lemma_first_name_unique(old(registry)@, category_name@, i);
                    assert(registry.categories@ =~= old(registry).categories@);
                    assert(registry@ =~= old(registry)@);
                }
                registry.remove_category(category_name);
                proof {
                    assert(registry@ == old(registry)@.remove(i));
                    if registry_well_formed(old(registry)@) {
                        assert forall|a: int, b: int| 0 <= a < b < registry@.len() implies registry@[a].0
                            != registry@[b].0 by {
                            let oa = if a < i { a } else { a + 1 };
                            let ob = if b < i { b } else { b + 1 };
                            assert(registry@[a] == old(registry)@[oa]);
                            assert(registry@[b] == old(registry)@[ob]);
                        }
                        assert forall|a: int| 0 <= a < registry@.len() implies keys_unique(#[trigger] registry@[a].1) by {
                            let oa = if a < i { a } else { a + 1 };
                            assert(registry@[a] == old(registry)@[oa]);
                        }
                    }
                }
                RemoveOutcome::CategoryRemoved
            },
        },
        None => RemoveOutcome::CategoryMissing,
    }
}

/// The value stored under `name` in the category `category_name`.
pub fn resolve(registry: &SwitchRegistry, category_name: &str, name: &str) -> (r: Result<String, ApplyError>)
    ensures
        r == Err::<String, ApplyError>(ApplyError::UnknownCategory) <==> !has_name(registry@, category_name@),
        match r {
            Ok(v) => exists|i: int|
                first_name_at(registry@, category_name@, i) && lookup(registry@[i].1, name@) == Some(v@),
            Err(ApplyError::UnknownVariable) => exists|i: int|
                first_name_at(registry@, category_name@, i) && lookup(registry@[i].1, name@) is None,
            Err(ApplyError::UnknownCategory) => true,
        },
{
    match registry.category_index(category_name) {
        Some(i) => {
            let c = &registry.categories[i];
            assert(registry@[i as int] == c@);
            match c.get_variable(name) {
                Some(v) => Ok(v.value.clone()),
                None => Err(ApplyError::UnknownVariable),
            }
        },
        None => Err(ApplyError::UnknownCategory),
    }
}

/// The shell line that exports `value` and clears the screen.
pub fn export_line(value: &str) -> (r: String)
    ensures
        r@ == "export "@ + value@ + " && clear"@,
{
    let mut out = String::new();
    out.append("export ");
    out.append(value);
    out.append(" && clear");
    assert(out@ =~= "export "@ + value@ + " && clear"@);
    out
}

} // verus!
