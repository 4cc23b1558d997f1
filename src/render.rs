//! Human-oriented rendering of categories and registries, for terminal output.

use vstd::prelude::*;
use vstd::utf8::encode_utf8;
use crate::switch::{CategoryView, SwitchCategory, SwitchRegistry, SwitchVariable, VarView};

verus! {

/// `n` space characters.
pub open spec fn spaces(n: nat) -> Seq<char>
    decreases n,
{
    if n == 0 {
        Seq::empty()
    } else {
        spaces((n - 1) as nat) + " "@
    }
}

/// The lines for one variable: its key, then its value indented beneath it
/// by as many spaces as the key has bytes in UTF-8.
/// The last variable of a category closes the left rail.
pub open spec fn render_var(x: VarView, last: bool) -> Seq<char> {
    if last {
        "└─ "@ + x.0 + "\n"@ + spaces(encode_utf8(x.0).len() + 2) + "└─ "@ + x.1 + "\n"@
    } else {
        "├─ "@ + x.0 + "\n"@ + "| "@ + spaces(encode_utf8(x.0).len()) + "└─ "@ + x.1 + "\n"@
    }
}

/// The lines for the first `n` variables of `vars`.
pub open spec fn render_vars(vars: Seq<VarView>, n: nat) -> Seq<char>
    decreases n,
{
    if n == 0 {
        Seq::empty()
    } else {
        render_vars(vars, (n - 1) as nat) + render_var(vars[n - 1], n == vars.len())
    }
}

/// A category's block: a header line with its name, a rail, then its variables.
pub open spec fn render_category(c: CategoryView) -> Seq<char> {
    "┌─ "@ + "Category: "@ + c.0 + "\n"@ + "| \n"@ + render_vars(c.1, c.1.len())
}

/// The blocks of the first `n` categories, separated by an empty line.
pub open spec fn render_categories(cats: Seq<CategoryView>, n: nat) -> Seq<char>
    decreases n,
{
    if n == 0 {
        Seq::empty()
    } else {
        render_categories(cats, (n - 1) as nat) + render_category(cats[n - 1]) + (if n < cats.len() {
            "\n"@
        } else {
            Seq::empty()
        })
    }
}

fn push_spaces(out: &mut String, n: usize)
    ensures
        final(out)@ == old(out)@ + spaces(n as nat),
{
    let mut i: usize = 0;
    while i < n
        invariant
            i <= n,
            out@ == old(out)@ + spaces(i as nat),
        decreases n - i,
    {
        out.append(" ");
        i = i + 1;
        assert(out@ =~= old(out)@ + spaces(i as nat));
    }
}

fn push_var(out: &mut String, v: &SwitchVariable, last: bool)
    ensures
        final(out)@ == old(out)@ + render_var(v@, last),
{
    let width = v.key.as_str().as_bytes().len();
    assert(width as nat == encode_utf8(v.key@).len());
    if last {
        out.append("└─ ");
        out.append(v.key.as_str());
        out.append("\n");
        push_spaces(out, width);
        push_spaces(out, 2);
        proof {
            lemma_spaces_add(width as nat, 2);
        }
    } else {
        out.append("├─ ");
        out.append(v.key.as_str());
        out.append("\n");
        out.append("| ");
        push_spaces(out, width);
    }
    out.append("└─ ");
    out.append(v.value.as_str());
    out.append("\n");
    assert(out@ =~= old(out)@ + render_var(v@, last));
}

impl SwitchCategory {
    /// The category rendered as a block of lines.
    pub fn render(&self) -> (r: String)
        ensures
            r@ == render_category(self@),
    {
        let mut out = String::new();
        out.append("┌─ ");
        out.append("Category: ");
        out.append(self.name.as_str());
        out.append("\n");
        out.append("| \n");
        let n = self.variables.len();
        let mut i: usize = 0;
        while i < n
            invariant
                n == self.variables@.len(),
                i <= n,
                out@ == "┌─ "@ + "Category: "@ + self@.0 + "\n"@ + "| \n"@ + render_vars(self.vars(), i as nat),
            decreases n - i,
        {
            let v = &self.variables[i];
            assert(self.vars()[i as int] == v@);
            push_var(&mut out, v, i + 1 == n);
            i = i + 1;
            assert(out@ =~= "┌─ "@ + "Category: "@ + self@.0 + "\n"@ + "| \n"@ + render_vars(self.vars(), i as nat));
        }
        out
    }
}

proof fn lemma_spaces_add(a: nat, b: nat)
    ensures
        spaces(a) + spaces(b) == spaces(a + b),
    decreases b,
{
    if b == 0 {
        assert(spaces(a) + spaces(0) =~= spaces(a));
    } else {
        lemma_spaces_add(a, (b - 1) as nat);
        assert(spaces(a) + spaces(b) =~= spaces(a) + spaces((b - 1) as nat) + " "@);
        assert(spaces(a + b) == spaces((a + b - 1) as nat) + " "@);
    }
}

impl SwitchRegistry {
    /// Every category's block, in order, separated by an empty line.
    pub fn render(&self) -> (r: String)
        ensures
            r@ == render_categories(self@, self@.len()),
    {
        let mut out = String::new();
        let n = self.categories.len();
        let mut i: usize = 0;
        while i < n
            invariant
                n == self.categories@.len(),
                n == self@.len(),
                i <= n,
                out@ == render_categories(self@, i as nat),
            decreases n - i,
        {
            assert(self@[i as int] == self.categories@[i as int]@);
            let block = self.categories[i].render();
            out.append(block.as_str());
            if i + 1 < n {
                out.append("\n");
            }
            i = i + 1;
            assert(out@ =~= render_categories(self@, i as nat));
        }
        out
    }
}

} // verus!
