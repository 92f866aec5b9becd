//! Name lookup tables: handles keyed by name, later insertions shadowing
//! earlier ones, modelled as a map from character sequences to values.

use vstd::prelude::*;

verus! {

/// The map a list of entries stands for: later entries win.
pub open spec fn entries_model<V>(s: Seq<(String, V)>) -> Map<Seq<char>, V>
    decreases s.len(),
{
    if s.len() == 0 {
        Map::empty()
    } else {
        entries_model(s.drop_last()).insert(s.last().0@, s.last().1)
    }
}

/// A table from names to values; what it holds is its map view.
pub struct NameTable<V> {
    entries: Vec<(String, V)>,
}

impl<V> View for NameTable<V> {
    type V = Map<Seq<char>, V>;

    closed spec fn view(&self) -> Map<Seq<char>, V> {
        entries_model(self.entries@)
    }
}

impl<V: Copy> NameTable<V> {
    pub fn new() -> (t: Self)
        ensures
            t@ == Map::<Seq<char>, V>::empty(),
    {
        NameTable { entries: Vec::new() }
    }

    pub fn insert(&mut self, name: String, v: V)
        ensures
            final(self)@ == old(self)@.insert(name@, v),
    {
        let ghost prev = self.entries@;
        self.entries.push((name, v));
        proof {
            assert(self.entries@.drop_last() =~= prev);
        }
    }

    pub fn get(&self, name: &String) -> (r: Option<V>)
        ensures
            match r {
                Some(v) => self@.contains_key(name@) && v == self@[name@],
                None => !self@.contains_key(name@),
            },
    {
        let n = self.entries.len();
        let mut i: usize = n;
        while i > 0
            invariant
                n == self.entries@.len(),
                0 <= i <= n,
                forall|j: int| i <= j < n ==> (#[trigger] self.entries@[j]).0@ != name@,
            decreases i,
        {
            i = i - 1;
            if self.entries[i].0 == *name {
                proof {
                    lemma_model_found(self.entries@, name@, i as int);
                }
                return Some(self.entries[i].1);
            }
        }
        proof {
            lemma_model_absent(self.entries@, name@);
        }
        None
    }
}

/// If entry `i` bears the key and no later entry does, the model holds the
/// key with that entry's value.
proof fn lemma_model_found<V>(s: Seq<(String, V)>, key: Seq<char>, i: int)
    requires
        0 <= i < s.len(),
        s[i].0@ == key,
        forall|j: int| i < j < s.len() ==> (#[trigger] s[j]).0@ != key,
    ensures
        entries_model(s).contains_key(key),
        entries_model(s)[key] == s[i].1,
    decreases s.len(),
{
    if i == s.len() - 1 {
    } else {
        lemma_model_found(s.drop_last(), key, i);
    }
}

/// If no entry bears the key, the model does not hold it.
proof fn lemma_model_absent<V>(s: Seq<(String, V)>, key: Seq<char>)
    requires
        forall|j: int| 0 <= j < s.len() ==> (#[trigger] s[j]).0@ != key,
    ensures
        !entries_model(s).contains_key(key),
    decreases s.len(),
{
    if s.len() > 0 {
        lemma_model_absent(s.drop_last(), key);
    }
}

} // verus!
