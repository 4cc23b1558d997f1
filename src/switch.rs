//! The registry data model: categories of key/value variables.

use vstd::prelude::*;

verus! {

/// A stored variable, seen as its key and its value.
pub type VarView = (Seq<char>, Seq<char>);

/// A category, seen as its name and its variables in insertion order.
pub type CategoryView = (Seq<char>, Seq<VarView>);

/// The value stored under the first variable whose key is `k`.
pub open spec fn lookup(vars: Seq<VarView>, k: Seq<char>) -> Option<Seq<char>>
    decreases vars.len(),
{
    if vars.len() == 0 {
        None
    } else if vars[0].0 == k {
        Some(vars[0].1)
    } else {
        lookup(vars.drop_first(), k)
    }
}

/// Whether some variable has key `k`.
pub open spec fn has_key(vars: Seq<VarView>, k: Seq<char>) -> bool {
    lookup(vars, k) is Some
}

/// The variables after adding `(k, v)`: appended unless the key is taken.
pub open spec fn with_variable(vars: Seq<VarView>, k: Seq<char>, v: Seq<char>) -> Seq<VarView> {
    if has_key(vars, k) {
        vars
    } else {
        vars.push((k, v))
    }
}

/// `i` is the position of the first variable whose key is `k`.
pub open spec fn first_key_at(vars: Seq<VarView>, k: Seq<char>, i: int) -> bool {
    0 <= i < vars.len() && vars[i].0 == k && forall|j: int| 0 <= j < i ==> vars[j].0 != k
}

/// `i` is the position of the first category named `n`.
pub open spec fn first_name_at(cats: Seq<CategoryView>, n: Seq<char>, i: int) -> bool {
    0 <= i < cats.len() && cats[i].0 == n && forall|j: int| 0 <= j < i ==> cats[j].0 != n
}

/// No two categories share a name, and no category holds a key twice.
pub open spec fn registry_well_formed(cats: Seq<CategoryView>) -> bool {
    &&& forall|i: int, j: int| 0 <= i < j < cats.len() ==> cats[i].0 != cats[j].0
    &&& forall|i: int| 0 <= i < cats.len() ==> keys_unique(#[trigger] cats[i].1)
}

/// No two variables share a key.
pub open spec fn keys_unique(vars: Seq<VarView>) -> bool {
    forall|i: int, j: int| 0 <= i < j < vars.len() ==> vars[i].0 != vars[j].0
}

/// Whether some category is named `n`.
pub open spec fn has_name(cats: Seq<CategoryView>, n: Seq<char>) -> bool {
    exists|i: int| 0 <= i < cats.len() && cats[i].0 == n
}

proof fn lemma_lookup_index(vars: Seq<VarView>, k: Seq<char>, i: int)
    requires
        0 <= i <= vars.len(),
        forall|j: int| 0 <= j < i ==> vars[j].0 != k,
    ensures
        lookup(vars, k) == lookup(vars.subrange(i, vars.len() as int), k),
    decreases i,
{
    if i > 0 {
        lemma_lookup_index(vars.drop_first(), k, i - 1);
        assert(vars.drop_first().subrange(i - 1, vars.len() - 1) =~= vars.subrange(i, vars.len() as int));
    } else {
        assert(vars.subrange(0, vars.len() as int) =~= vars);
    }
}

proof fn lemma_lookup_first(vars: Seq<VarView>, k: Seq<char>, i: int)
    requires
        first_key_at(vars, k, i),
    ensures
        lookup(vars, k) == Some(vars[i].1),
{
    lemma_lookup_index(vars, k, i);
}

proof fn lemma_lookup_none(vars: Seq<VarView>, k: Seq<char>)
    requires
        forall|j: int| 0 <= j < vars.len() ==> vars[j].0 != k,
    ensures
        lookup(vars, k) is None,
{
    lemma_lookup_index(vars, k, vars.len() as int);
}

/// Looking a key up after a push: an earlier match wins, else the pushed pair.
pub proof fn lemma_lookup_push(vars: Seq<VarView>, k: Seq<char>, x: VarView)
    ensures
        lookup(vars.push(x), k) == (if has_key(vars, k) {
            lookup(vars, k)
        } else if x.0 == k {
            Some(x.1)
        } else {
            None
        }),
    decreases vars.len(),
{
    if vars.len() > 0 {
        assert(vars.push(x)[0] == vars[0]);
        assert(vars.push(x).drop_first() =~= vars.drop_first().push(x));
        lemma_lookup_push(vars.drop_first(), k, x);
    } else {
        assert(vars.push(x)[0] == x);
        assert(vars.push(x).drop_first() =~= Seq::<VarView>::empty());
        assert(lookup(Seq::<VarView>::empty(), k) is None);
    }
}

/// A named environment variable.
pub struct SwitchVariable {
    pub key: String,
    pub value: String,
}

impl View for SwitchVariable {
    type V = VarView;

    open spec fn view(&self) -> VarView {
        (self.key@, self.value@)
    }
}

impl SwitchVariable {
    pub fn new(key: &str, value: &str) -> (r: Self)
        ensures
            r@ == (key@, value@),
    {
        SwitchVariable { key: key.to_owned(), value: value.to_owned() }
    }
}

/// A named group of variables with distinct keys, kept in insertion order.
pub struct SwitchCategory {
    pub name: String,
    pub variables: Vec<SwitchVariable>,
}

impl View for SwitchCategory {
    type V = CategoryView;

    open spec fn view(&self) -> CategoryView {
        (self.name@, self.variables@.map_values(|v: SwitchVariable| v@))
    }
}

impl SwitchCategory {
    /// The variables, seen as key/value pairs.
    pub open spec fn vars(&self) -> Seq<VarView> {
        self@.1
    }

    /// No two variables share a key.
    pub open spec fn well_formed(&self) -> bool {
        keys_unique(self.vars())
    }

    pub fn new(name: &str) -> (r: Self)
        ensures
            r@.0 == name@,
            r.vars() == Seq::<VarView>::empty(),
            r.well_formed(),
    {
        SwitchCategory { name: name.to_owned(), variables: Vec::new() }
    }

    /// Position of the first variable with key `key`.
    fn position(&self, key: &str) -> (r: Option<usize>)
        ensures
            match r {
                Some(i) => first_key_at(self.vars(), key@, i as int),
                None => forall|j: int| 0 <= j < self.vars().len() ==> self.vars()[j].0 != key@,
            },
    {
        let wanted = key.to_owned();
        let mut i: usize = 0;
        while i < self.variables.len()
            invariant
                i <= self.variables@.len(),
                wanted@ == key@,
                forall|j: int| 0 <= j < i ==> self.vars()[j].0 != key@,
            decreases self.variables@.len() - i,
        {
            assert(self.vars()[i as int] == self.variables@[i as int]@);
            if self.variables[i].key == wanted {
                return Some(i);
            }
            i = i + 1;
        }
        None
    }

    pub fn get_variable(&self, key: &str) -> (r: Option<&SwitchVariable>)
        ensures
            match r {
                Some(v) => v@.0 == key@ && lookup(self.vars(), key@) == Some(v@.1),
                None => lookup(self.vars(), key@) is None,
            },
    {
        match self.position(key) {
            Some(i) => {
                proof {
                    lemma_lookup_first(self.vars(), key@, i as int);
                }
                Some(&self.variables[i])
            },
            None => {
                proof {
                    lemma_lookup_none(self.vars(), key@);
                }
                None
            },
        }
    }

    pub fn add_variable(&mut self, key: &str, value: &str) -> (r: bool)
        ensures
            r == !has_key(old(self).vars(), key@),
            final(self).vars() == with_variable(old(self).vars(), key@, value@),
            final(self)@.0 == old(self)@.0,
            old(self).well_formed() ==> final(self).well_formed(),
    {
        match self.position(key) {
            Some(i) => {
                proof {
                    lemma_lookup_first(self.vars(), key@, i as int);
                }
                false
            },
            None => {
                proof {
                    lemma_lookup_none(self.vars(), key@);
                }
                self.variables.push(SwitchVariable::new(key, value));
                assert(self.vars() =~= old(self).vars().push((key@, value@)));
                true
            },
        }
    }

    pub fn remove_variable(&mut self, key: &str) -> (r: bool)
        ensures
            r == has_key(old(self).vars(), key@),
            r ==> exists|i: int|
                first_key_at(old(self).vars(), key@, i) && final(self).vars() == old(self).vars().remove(i),
            !r ==> final(self).vars() == old(self).vars(),
            final(self)@.0 == old(self)@.0,
            old(self).well_formed() ==> final(self).well_formed(),
    {
        match self.position(key) {
            Some(i) => {
                proof {
                    lemma_lookup_first(self.vars(), key@, i as int);
                }
                self.variables.remove(i);
                assert(self.vars() =~= old(self).vars().remove(i as int));
                proof {
                    if old(self).well_formed() {
                        assert forall|a: int, b: int|
                            0 <= a < b < self.vars().len() implies self.vars()[a].0 != self.vars()[b].0 by {
                            let oa = if a < i { a } else { a + 1 };
                            let ob = if b < i { b } else { b + 1 };
                            assert(self.vars()[a] == old(self).vars()[oa]);
                            assert(self.vars()[b] == old(self).vars()[ob]);
                        }
                    }
                }
                true
            },
            None => {
                proof {
                    lemma_lookup_none(self.vars(), key@);
                }
                false
            },
        }
    }
}

/// All categories, in the order they were added.
pub struct SwitchRegistry {
    pub categories: Vec<SwitchCategory>,
}

impl View for SwitchRegistry {
    type V = Seq<CategoryView>;

    open spec fn view(&self) -> Seq<CategoryView> {
        self.categories@.map_values(|c: SwitchCategory| c@)
    }
}

impl SwitchRegistry {
    pub fn new() -> (r: Self)
        ensures
            r@ == Seq::<CategoryView>::empty(),
    {
        SwitchRegistry { categories: Vec::new() }
    }

    /// Position of the first category named `name`.
    pub fn category_index(&self, name: &str) -> (r: Option<usize>)
        ensures
            match r {
                Some(i) => first_name_at(self@, name@, i as int),
                None => !has_name(self@, name@),
            },
    {
        let wanted = name.to_owned();
        let mut i: usize = 0;
        while i < self.categories.len()
            invariant
                i <= self.categories@.len(),
                wanted@ == name@,
                forall|j: int| 0 <= j < i ==> self@[j].0 != name@,
            decreases self.categories@.len() - i,
        {
            assert(self@[i as int] == self.categories@[i as int]@);
            if self.categories[i].name == wanted {
                return Some(i);
            }
            i = i + 1;
        }
        None
    }

    /// The first category named `name`, for reading or changing in place.
    pub fn get_category(&mut self, name: &str) -> (r: Option<&mut SwitchCategory>)
        ensures
            match r {
                Some(c) => exists|i: int|
                    first_name_at(old(self)@, name@, i) && *c == old(self).categories@[i]
                        && final(self).categories@ == old(self).categories@.update(i, *final(c)),
                None => !has_name(old(self)@, name@) && *final(self) == *old(self),
            },
    {
        match self.category_index(name) {
            Some(i) => Some(&mut self.categories[i]),
            None => None,
        }
    }

    /// Appends `category`; names are not checked for uniqueness.
    pub fn add_category(&mut self, category: SwitchCategory)
        ensures
            final(self)@ == old(self)@.push(category@),
    {
        self.categories.push(category);
        assert(self@ =~= old(self)@.push(category@));
    }

    pub fn remove_category(&mut self, name: &str) -> (r: bool)
        ensures
            r == has_name(old(self)@, name@),
            r ==> exists|i: int| first_name_at(old(self)@, name@, i) && final(self)@ == old(self)@.remove(i),
            !r ==> final(self)@ == old(self)@,
    {
        match self.category_index(name) {
            Some(i) => {
                self.categories.remove(i);
                assert(self@ =~= old(self)@.remove(i as int));
                true
            },
            None => false,
        }
    }
}

} // verus!
