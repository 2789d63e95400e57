//! Variable bindings: names bound to stack positions, where a later binding of a
//! name hides the earlier ones.
use vstd::prelude::*;

verus! {

/// The value of the most recent binding of `key` among `bindings`.
pub open spec fn lookup_in(bindings: Seq<(Seq<char>, i64)>, key: Seq<char>) -> Option<i64>
    decreases bindings.len(),
{
    if bindings.len() == 0 {
        None
    } else if bindings.last().0 == key {
        Some(bindings.last().1)
    } else {
        lookup_in(bindings.drop_last(), key)
    }
}

#[derive(Clone, Debug)]
pub struct Environment {
    variables: Vec<(String, i64)>,
}

impl Environment {
    /// The bindings, oldest first.
    pub closed spec fn bindings(&self) -> Seq<(Seq<char>, i64)> {
        self.variables@.map_values(|b: (String, i64)| (b.0@, b.1))
    }

    pub fn new() -> (env: Self)
        ensures
            env.bindings() == Seq::<(Seq<char>, i64)>::empty(),
    {
        Self { variables: Vec::new() }
    }

    pub fn bind(&mut self, key: String, pos: i64)
        ensures
            final(self).bindings() == old(self).bindings().push((key@, pos)),
    {
        let ghost k = key@;
        self.variables.push((key, pos));
        assert(self.bindings() =~= old(self).bindings().push((k, pos)));
    }

    pub fn lookup(&self, key: &str) -> (r: Option<i64>)
        ensures
            r == lookup_in(self.bindings(), key@),
    {
        let wanted = String::from_str(key);
        let mut i = self.variables.len();
        assert(self.bindings().take(i as int) =~= self.bindings());
        while i > 0
            invariant
                i <= self.variables.len(),
                wanted@ == key@,
                lookup_in(self.bindings(), key@) == lookup_in(self.bindings().take(i as int), key@),
            decreases i,
        {
            let ghost prefix = self.bindings().take(i as int);
            i = i - 1;
            assert(prefix.drop_last() =~= self.bindings().take(i as int));
            if self.variables[i].0 == wanted {
                return Some(self.variables[i].1);
            }
        }
        assert(self.bindings().take(0) =~= Seq::<(Seq<char>, i64)>::empty());
        None
    }
}

/// A lookup right after a binding of the same name finds the new position; other names
/// are found as before.
pub proof fn lemma_lookup_after_bind(bindings: Seq<(Seq<char>, i64)>, key: Seq<char>, pos: i64, other: Seq<char>)
    ensures
        lookup_in(bindings.push((key, pos)), key) == Some(pos),
        other != key ==> lookup_in(bindings.push((key, pos)), other) == lookup_in(bindings, other),
{
    assert(bindings.push((key, pos)).drop_last() =~= bindings);
}

} // verus!
