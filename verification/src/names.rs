//! A map from names to values, kept as a list in which no name occurs twice.

use vstd::prelude::*;

verus! {

/// The map that a list of registrations stands for: a later entry replaces an
/// earlier one of the same name.
pub open spec fn entries_map<V>(names: Seq<String>, values: Seq<V>) -> Map<Seq<char>, V>
    decreases names.len(),
{
    if names.len() == 0 || names.len() != values.len() {
        Map::empty()
    } else {
        entries_map(names.drop_last(), values.drop_last()).insert(names.last()@, values.last())
    }
}

/// No two entries of the list carry the same name.
pub open spec fn distinct_names(names: Seq<String>) -> bool {
    forall|i: int, j: int| 0 <= i < j < names.len() ==> names[i]@ != names[j]@
}

/// With distinct names, the map holds exactly the listed names, each with the
/// value at its index.
pub proof fn lemma_entries_map<V>(names: Seq<String>, values: Seq<V>)
    requires
        names.len() == values.len(),
        distinct_names(names),
    ensures
        forall|k: Seq<char>|
            entries_map(names, values).contains_key(k) <==> exists|i: int|
                0 <= i < names.len() && #[trigger] names[i]@ == k,
        forall|i: int|
            0 <= i < names.len() ==> entries_map(names, values).contains_key(#[trigger] names[i]@)
                && entries_map(names, values)[names[i]@] == values[i],
    decreases names.len(),
{
    if names.len() > 0 {
        let n0 = names.drop_last();
        let v0 = values.drop_last();
        lemma_entries_map(n0, v0);
        let last = names.len() - 1;
        let m0 = entries_map(n0, v0);
        assert(entries_map(names, values) == m0.insert(names[last]@, values[last]));
        assert(distinct_names(n0));
        assert forall|k: Seq<char>|
            entries_map(names, values).contains_key(k) <==> exists|i: int|
                0 <= i < names.len() && #[trigger] names[i]@ == k by {
            if entries_map(names, values).contains_key(k) {
                if k == names[last]@ {
                } else {
                    assert(m0.contains_key(k));
                    let i = choose|i: int| 0 <= i < n0.len() && #[trigger] n0[i]@ == k;
                    assert(names[i]@ == k);
                }
            }
            if exists|i: int| 0 <= i < names.len() && #[trigger] names[i]@ == k {
                let i = choose|i: int| 0 <= i < names.len() && #[trigger] names[i]@ == k;
                if i < last {
                    assert(n0[i]@ == k);
                    assert(m0.contains_key(k));
                }
            }
        }
        assert forall|i: int| 0 <= i < names.len() implies entries_map(names, values).contains_key(
            #[trigger] names[i]@,
        ) && entries_map(names, values)[names[i]@] == values[i] by {
            if i < last {
                assert(n0[i]@ == names[i]@);
                assert(v0[i] == values[i]);
            }
        }
    }
}

/// Values registered under names. Registering a name again replaces its value.
pub struct NameMap<V> {
    names: Vec<String>,
    values: Vec<V>,
}

impl<V> NameMap<V> {
    /// Every name has its value, and no name is listed twice.
    pub closed spec fn wf(&self) -> bool {
        self.names.len() == self.values.len() && distinct_names(self.names@)
    }

    /// The map from each registered name to its value.
    pub closed spec fn view(&self) -> Map<Seq<char>, V> {
        entries_map(self.names@, self.values@)
    }

    /// An empty map.
    pub fn new() -> (r: NameMap<V>)
        ensures
            r.wf(),
            r@ == Map::<Seq<char>, V>::empty(),
    {
        NameMap { names: Vec::new(), values: Vec::new() }
    }

    /// The index of the entry with this name, if there is one.
    fn find(&self, name: &String) -> (r: Option<usize>)
        ensures
            match r {
                Some(i) => i < self.names.len() && self.names[i as int]@ == name@,
                None => forall|i: int| 0 <= i < self.names.len() ==> self.names[i]@ != name@,
            },
    {
        let n = self.names.len();
        let mut i: usize = 0;
        while i < n
            invariant
                n == self.names.len(),
                i <= n,
                forall|j: int| 0 <= j < i ==> self.names[j]@ != name@,
            decreases n - i,
        {
            if self.names[i] == *name {
                return Some(i);
            }
            i = i + 1;
        }
        None
    }

    /// Whether a value is registered under the name.
    pub fn contains(&self, name: &String) -> (r: bool)
        requires
            self.wf(),
        ensures
            r == self@.contains_key(name@),
    {
        proof {
            lemma_entries_map(self.names@, self.values@);
        }
        self.find(name).is_some()
    }

    /// The value registered under the name, if there is one.
    pub fn get(&self, name: &String) -> (r: Option<&V>)
        requires
            self.wf(),
        ensures
            match r {
                Some(v) => self@.contains_key(name@) && *v == self@[name@],
                None => !self@.contains_key(name@),
            },
    {
        proof {
            lemma_entries_map(self.names@, self.values@);
        }
        match self.find(name) {
            Some(i) => Some(&self.values[i]),
            None => None,
        }
    }

    /// Registers the value under the name, in place of any earlier one.
    pub fn insert(&mut self, name: String, value: V)
        requires
            old(self).wf(),
        ensures
            final(self).wf(),
            final(self)@ == old(self)@.insert(name@, value),
    {
        proof {
            lemma_entries_map(self.names@, self.values@);
        }
        match self.find(&name) {
            Some(i) => {
                self.values.set(i, value);
                proof {
                    lemma_entries_map(self.names@, self.values@);
                    assert(self@ =~= old(self)@.insert(name@, value));
                }
            },
            None => {
                self.names.push(name);
                self.values.push(value);
                proof {
                    assert(self.names@.drop_last() =~= old(self).names@);
                    assert(self.values@.drop_last() =~= old(self).values@);
                }
            },
        }
    }

    /// The registered names, each once.
    pub fn names(&self) -> (r: Vec<String>)
        requires
            self.wf(),
        ensures
            distinct_names(r@),
            forall|k: Seq<char>|
                self@.contains_key(k) <==> exists|i: int| 0 <= i < r.len() && #[trigger] r[i]@ == k,
    {
        proof {
            lemma_entries_map(self.names@, self.values@);
        }
        let n = self.names.len();
        let mut r: Vec<String> = Vec::new();
        let mut i: usize = 0;
        while i < n
            invariant
                n == self.names.len(),
                i <= n,
                r.len() == i,
                forall|j: int| 0 <= j < i ==> r[j]@ == self.names[j]@,
            decreases n - i,
        {
            r.push(self.names[i].clone());
            i = i + 1;
        }
        proof {
            assert forall|k: Seq<char>|
                self@.contains_key(k) <==> exists|i: int|
                    0 <= i < r.len() && #[trigger] r[i]@ == k by {
                if self@.contains_key(k) {
                    let i = choose|i: int|
                        0 <= i < self.names.len() && #[trigger] self.names[i]@ == k;
                    assert(r[i]@ == k);
                }
                if exists|i: int| 0 <= i < r.len() && #[trigger] r[i]@ == k {
                    let i = choose|i: int| 0 <= i < r.len() && #[trigger] r[i]@ == k;
                    assert(self.names[i]@ == k);
                }
            }
        }
        r
    }
}

} // verus!
