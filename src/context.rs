use vstd::prelude::*;
use crate::value::{SpecValue, Value};

verus! {

/// The variable environment: a mapping from names to values in which the last
/// binding of a name wins.
///
/// The bindings are kept in the order they were made; a lookup takes the
/// latest binding of the name.
pub struct Context {
    bindings: Vec<(String, Value)>,
}

/// The mapping that a sequence of bindings denotes: each binding overrides the
/// ones before it.
pub open spec fn bindings_map(s: Seq<(String, Value)>) -> Map<Seq<char>, SpecValue>
    decreases s.len(),
{
    if s.len() == 0 {
        Map::empty()
    } else {
        bindings_map(s.drop_last()).insert(s.last().0@, s.last().1@)
    }
}

proof fn lemma_bindings_latest(s: Seq<(String, Value)>, i: int, k: Seq<char>)
    requires
        0 <= i < s.len(),
        s[i].0@ == k,
        forall|j: int| i < j < s.len() ==> s[j].0@ != k,
    ensures
        bindings_map(s).contains_key(k),
        bindings_map(s)[k] == s[i].1@,
    decreases s.len(),
{
    if i < s.len() - 1 {
        lemma_bindings_latest(s.drop_last(), i, k);
    }
}

proof fn lemma_bindings_absent(s: Seq<(String, Value)>, k: Seq<char>)
    requires
        forall|j: int| 0 <= j < s.len() ==> s[j].0@ != k,
    ensures
        !bindings_map(s).contains_key(k),
    decreases s.len(),
{
    if s.len() > 0 {
        lemma_bindings_absent(s.drop_last(), k);
    }
}

impl View for Context {
    type V = Map<Seq<char>, SpecValue>;

    closed spec fn view(&self) -> Map<Seq<char>, SpecValue> {
        bindings_map(self.bindings@)
    }
}

impl Context {
    /// An environment with no bindings.
    pub fn new() -> (r: Context)
        ensures
            r@ == Map::<Seq<char>, SpecValue>::empty(),
    {
        let r = Context { bindings: Vec::new() };
        assert(r@ == bindings_map(r.bindings@));
        r
    }

    /// The value bound to `name`, if any.
    pub fn get(&self, name: &String) -> (r: Option<&Value>)
        ensures
            r matches Some(v) ==> self@.contains_key(name@) && v@ == self@[name@],
            r is None ==> !self@.contains_key(name@),
    {
        let mut i: usize = self.bindings.len();
        while i > 0
            invariant
                i <= self.bindings@.len(),
                forall|j: int| i <= j < self.bindings@.len() ==> self.bindings@[j].0@ != name@,
            decreases i,
        {
            i = i - 1;
            if self.bindings[i].0 == *name {
                proof {
                    lemma_bindings_latest(self.bindings@, i as int, name@);
                }
                return Some(&self.bindings[i].1);
            }
        }
        proof {
            lemma_bindings_absent(self.bindings@, name@);
        }
        None
    }

    /// Binds `name` to `value`, replacing any earlier binding of `name`.
    pub fn insert(&mut self, name: String, value: Value)
        ensures
            final(self)@ == old(self)@.insert(name@, value@),
    {
        let ghost old_bindings = self.bindings@;
        self.bindings.push((name, value));
        assert(self.bindings@.drop_last() =~= old_bindings);
    }
}

} // verus!
