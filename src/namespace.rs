//! The name-resolution environment consulted while matching: a finite map
//! from names to expressions.

use vstd::prelude::*;
use crate::language::{copy_expression, ExprView, Expression};

verus! {

/// Names bound to expressions. A later binding of a name hides an earlier one.
pub struct Namespace {
    entries: Vec<(String, Expression)>,
}

/// The map that a sequence of bindings builds, later bindings winning.
pub open spec fn bindings_map(s: Seq<(String, Expression)>) -> Map<Seq<char>, ExprView>
    decreases s.len(),
{
    if s.len() == 0 {
        Map::empty()
    } else {
        bindings_map(s.drop_last()).insert(s.last().0@, s.last().1@)
    }
}

impl View for Namespace {
    type V = Map<Seq<char>, ExprView>;

    closed spec fn view(&self) -> Map<Seq<char>, ExprView> {
        bindings_map(self.entries@)
    }
}

/// Bindings after position `i` that do not bind `k` leave its entry as the
/// first `i` bindings made it.
proof fn lemma_unbound_suffix(s: Seq<(String, Expression)>, i: int, k: Seq<char>)
    requires
        0 <= i <= s.len(),
        forall|j: int| i <= j < s.len() ==> s[j].0@ != k,
    ensures
        bindings_map(s).contains_key(k) == bindings_map(s.take(i)).contains_key(k),
        bindings_map(s).contains_key(k) ==> bindings_map(s)[k] == bindings_map(s.take(i))[k],
    decreases s.len(),
{
    if s.len() == i {
        assert(s.take(i) =~= s);
    } else {
        lemma_unbound_suffix(s.drop_last(), i, k);
        assert(s.drop_last().take(i) =~= s.take(i));
    }
}

impl Namespace {
    pub fn new() -> (r: Namespace)
        ensures
            r@ == Map::<Seq<char>, ExprView>::empty(),
    {
        Namespace { entries: Vec::new() }
    }

    /// Binds `name` to `value`, replacing any earlier binding of `name`.
    pub fn insert(&mut self, name: String, value: Expression)
        ensures
            final(self)@ == old(self)@.insert(name@, value@),
    {
        self.entries.push((name, value));
        assert(self.entries@.drop_last() =~= old(self).entries@);
    }

    /// The expression bound to `name`, if any.
    pub fn get(&self, name: &String) -> (r: Option<&Expression>)
        ensures
            match r {
                Some(e) => self@.contains_key(name@) && self@[name@] == e@,
                None => !self@.contains_key(name@),
            },
    {
        let mut i: usize = self.entries.len();
        while i > 0
            invariant
                i <= self.entries@.len(),
                forall|j: int| i <= j < self.entries@.len() ==> self.entries@[j].0@ != name@,
            decreases i,
        {
            i -= 1;
            if self.entries[i].0 == *name {
                proof {
                    let s = self.entries@;
                    lemma_unbound_suffix(s, i + 1, name@);
                    assert(s.take(i + 1).drop_last() =~= s.take(i as int));
                }
                return Some(&self.entries[i].1);
            }
        }
        proof {
            lemma_unbound_suffix(self.entries@, 0, name@);
        }
        None
    }
}

/// Two sequences of bindings with the same names and views, in the same
/// order, build the same map.
proof fn lemma_same_views(s: Seq<(String, Expression)>, t: Seq<(String, Expression)>)
    requires
        s.len() == t.len(),
        forall|j: int| 0 <= j < s.len() ==> (#[trigger] s[j]).0@ == t[j].0@ && s[j].1@ == t[j].1@,
    ensures
        bindings_map(s) == bindings_map(t),
    decreases s.len(),
{
    if s.len() > 0 {
        lemma_same_views(s.drop_last(), t.drop_last());
        assert(s[s.len() - 1].0@ == t[t.len() - 1].0@);
    }
}

impl Clone for Namespace {
    fn clone(&self) -> (r: Self)
        ensures
            r@ == self@,
    {
        let mut entries: Vec<(String, Expression)> = Vec::new();
        let mut i: usize = 0;
        while i < self.entries.len()
            invariant
                i <= self.entries@.len(),
                entries@.len() == i,
                forall|j: int|
                    0 <= j < i ==> (#[trigger] entries@[j]).0@ == self.entries@[j].0@
                        && entries@[j].1@ == self.entries@[j].1@,
            decreases self.entries@.len() - i,
        {
            let entry = &self.entries[i];
            entries.push((entry.0.clone(), copy_expression(&entry.1)));
            i += 1;
        }
        proof {
            lemma_same_views(entries@, self.entries@);
        }
        Namespace { entries }
    }
}

} // verus!
