//! Environment variables as a list in which every name occurs once.

use vstd::prelude::*;
use crate::text::pairs_view;

verus! {

/// Some variable of `vars` has the name `name`.
pub open spec fn has_name(vars: Seq<(Seq<char>, Seq<char>)>, name: Seq<char>) -> bool {
    exists|i: int| 0 <= i < vars.len() && (#[trigger] vars[i]).0 == name
}

/// No name occurs twice in `vars`.
pub open spec fn names_distinct(vars: Seq<(Seq<char>, Seq<char>)>) -> bool {
    forall|i: int, j: int|
        0 <= i < j < vars.len() ==> (#[trigger] vars[i]).0 != (#[trigger] vars[j]).0
}

/// `vars` with the variable `name` set to `value`: a variable of that name
/// keeps its place and takes the new value; a new name is added at the
/// end.
pub open spec fn with_var(
    vars: Seq<(Seq<char>, Seq<char>)>,
    name: Seq<char>,
    value: Seq<char>,
) -> Seq<(Seq<char>, Seq<char>)> {
    if has_name(vars, name) {
        let i = choose|i: int| 0 <= i < vars.len() && (#[trigger] vars[i]).0 == name;
        vars.update(i, (name, value))
    } else {
        vars.push((name, value))
    }
}

/// `vars` with each variable of `more` set, in order.
pub open spec fn with_vars(
    vars: Seq<(Seq<char>, Seq<char>)>,
    more: Seq<(Seq<char>, Seq<char>)>,
) -> Seq<(Seq<char>, Seq<char>)>
    decreases more.len(),
{
    if more.len() == 0 {
        vars
    } else {
        with_var(with_vars(vars, more.drop_last()), more.last().0, more.last().1)
    }
}

/// Setting a variable keeps every name single, and afterwards the variable
/// has the value that was set.
pub proof fn lemma_with_var(vars: Seq<(Seq<char>, Seq<char>)>, name: Seq<char>, value: Seq<char>)
    requires
        names_distinct(vars),
    ensures
        names_distinct(with_var(vars, name, value)),
        exists|i: int|
            0 <= i < with_var(vars, name, value).len() && #[trigger] with_var(vars, name, value)[i]
                == (name, value),
{
    let after = with_var(vars, name, value);
    if has_name(vars, name) {
        let k = choose|i: int| 0 <= i < vars.len() && (#[trigger] vars[i]).0 == name;
        assert(after[k] == (name, value));
        assert forall|i: int, j: int| 0 <= i < j < after.len() implies (#[trigger] after[i]).0 != (
        #[trigger] after[j]).0 by {
            assert(after[i].0 == vars[i].0);
            assert(after[j].0 == vars[j].0);
        }
    } else {
        assert(after[vars.len() as int] == (name, value));
        assert forall|i: int, j: int| 0 <= i < j < after.len() implies (#[trigger] after[i]).0 != (
        #[trigger] after[j]).0 by {
            assert(after[i] == vars[i]);
            if j < vars.len() {
                assert(after[j] == vars[j]);
            }
        }
    }
}

/// Setting variables one after another keeps every name single.
pub proof fn lemma_with_vars(vars: Seq<(Seq<char>, Seq<char>)>, more: Seq<(Seq<char>, Seq<char>)>)
    requires
        names_distinct(vars),
    ensures
        names_distinct(with_vars(vars, more)),
    decreases more.len(),
{
    if more.len() > 0 {
        lemma_with_vars(vars, more.drop_last());
        lemma_with_var(with_vars(vars, more.drop_last()), more.last().0, more.last().1);
    }
}

/// A set of environment variables: names with their values, every name
/// once, in the order in which the names were first set.
pub struct Environment {
    vars: Vec<(String, String)>,
}

impl View for Environment {
    type V = Seq<(Seq<char>, Seq<char>)>;

    closed spec fn view(&self) -> Seq<(Seq<char>, Seq<char>)> {
        pairs_view(self.vars@)
    }
}

impl Environment {
    /// Every name occurs once.
    pub open spec fn wf(&self) -> bool {
        names_distinct(self@)
    }

    /// No variables.
    pub fn new() -> (env: Environment)
        ensures
            env.wf(),
            env@ == Seq::<(Seq<char>, Seq<char>)>::empty(),
    {
        let env = Environment { vars: Vec::new() };
        assert(env@ =~= Seq::<(Seq<char>, Seq<char>)>::empty());
        env
    }

    /// The number of variables.
    pub fn len(&self) -> (n: usize)
        ensures
            n == self@.len(),
    {
        self.vars.len()
    }

    /// Sets the variable `name` to `value`.
    pub fn set(&mut self, name: &str, value: &str)
        requires
            old(self).wf(),
        ensures
            final(self).wf(),
            final(self)@ == with_var(old(self)@, name@, value@),
    {
        let wanted = name.to_owned();
        let mut i: usize = 0;
        while i < self.vars.len()
            invariant
                i <= self.vars.len(),
                old(self).wf(),
                self.vars@ == old(self).vars@,
                self@ == old(self)@,
                wanted@ == name@,
                forall|j: int| 0 <= j < i ==> (#[trigger] self@[j]).0 != name@,
            decreases self.vars.len() - i,
        {
            if self.vars[i].0 == wanted {
                proof {
                    let before = old(self)@;
                    assert(before[i as int].0 == name@);
                    assert(has_name(before, name@));
                    let k = choose|k: int| 0 <= k < before.len() && (#[trigger] before[k]).0 == name@;
                    if k < i {
                        assert(self@[k].0 != name@);
                    } else if k > i {
                        assert(before[i as int].0 != before[k].0);
                    }
                    lemma_with_var(before, name@, value@);
                }
                self.vars.set(i, (wanted, value.to_owned()));
                assert(self@ =~= with_var(old(self)@, name@, value@));
                return ;
            }
            i += 1;
        }
        proof {
            let before = old(self)@;
            if has_name(before, name@) {
                let k = choose|k: int| 0 <= k < before.len() && (#[trigger] before[k]).0 == name@;
                assert(self@[k].0 != name@);
            }
            lemma_with_var(before, name@, value@);
        }
        self.vars.push((wanted, value.to_owned()));
        assert(self@ =~= with_var(old(self)@, name@, value@));
    }

    /// Sets each of the given variables, in order; of two with the same
    /// name the later one counts.
    pub fn set_all(&mut self, more: &Vec<(String, String)>)
        requires
            old(self).wf(),
        ensures
            final(self).wf(),
            final(self)@ == with_vars(old(self)@, pairs_view(more@)),
    {
        let mut i: usize = 0;
        while i < more.len()
            invariant
                i <= more.len(),
                self.wf(),
                self@ == with_vars(old(self)@, pairs_view(more@).take(i as int)),
            decreases more.len() - i,
        {
            proof {
                let next = pairs_view(more@).take(i + 1);
                assert(next.drop_last() == pairs_view(more@).take(i as int));
                assert(next.last() == (more@[i as int].0@, more@[i as int].1@));
            }
            self.set(more[i].0.as_str(), more[i].1.as_str());
            i += 1;
        }
        assert(pairs_view(more@).take(more.len() as int) == pairs_view(more@));
    }

    /// The variables as pairs of name and value, in order.
    pub fn to_pairs(&self) -> (pairs: Vec<(String, String)>)
        ensures
            pairs_view(pairs@) == self@,
    {
        crate::text::clone_pairs(&self.vars)
    }
}

} // verus!
