//! The set of wakewords after which an utterance is listened for.
use vstd::prelude::*;

verus! {

/// Whether `name` is the text of one of `names`.
pub open spec fn names_hold(names: Seq<String>, name: Seq<char>) -> bool {
    exists|i: int| 0 <= i < names.len() && (#[trigger] names[i])@ == name
}

/// Whether `name` is among `names`.
pub fn contains_name(names: &Vec<String>, name: &String) -> (found: bool)
    ensures
        found == names_hold(names@, name@),
{
    let mut i: usize = 0;
    while i < names.len()
        invariant
            i <= names@.len(),
            forall|k: int| 0 <= k < i ==> (#[trigger] names@[k])@ != name@,
        decreases names@.len() - i,
    {
        if names[i] == *name {
            return true;
        }
        i = i + 1;
    }
    false
}

/// A set of wakeword names. It holds no name twice.
#[derive(Debug)]
pub struct WakewordSet {
    names: Vec<String>,
}

impl WakewordSet {
    #[verifier::type_invariant]
    spec fn no_name_twice(self) -> bool {
        forall|i: int, j: int|
            0 <= i < j < self.names@.len() ==> (#[trigger] self.names@[i])@
                != (#[trigger] self.names@[j])@
    }

    /// The names of the set, as texts.
    pub closed spec fn names(&self) -> Set<Seq<char>> {
        Set::new(|name: Seq<char>| names_hold(self.names@, name))
    }

    /// The set without a name.
    pub fn new() -> (set: Self)
        ensures
            set.names() == Set::<Seq<char>>::empty(),
    {
        let set = WakewordSet { names: Vec::new() };
        assert(set.names() =~= Set::<Seq<char>>::empty());
        set
    }

    /// Whether `name` is in the set.
    pub fn contains(&self, name: &String) -> (found: bool)
        ensures
            found == self.names().contains(name@),
    {
        contains_name(&self.names, name)
    }

    /// The number of names in the set.
    pub fn len(&self) -> (n: usize)
        ensures
            n == self.names().len(),
            self.names().finite(),
    {
        proof {
            use_type_invariant(self);
            lemma_distinct_names_count(self.names@);
            assert(self.names() =~= texts_of(self.names@));
        }
        self.names.len()
    }

    /// The set with `name` in it: the same set where it held `name` already.
    pub fn insert(self, name: String) -> (set: Self)
        ensures
            set.names() == self.names().insert(name@),
    {
        proof {
            use_type_invariant(&self);
        }
        let ghost before = self.names@;
        if contains_name(&self.names, &name) {
            assert(self.names() =~= self.names().insert(name@));
            self
        } else {
            let mut names = self.names;
            names.push(name);
            let set = WakewordSet { names };
            proof {
                let after = set.names@;
                assert forall|n: Seq<char>| names_hold(after, n) == (names_hold(before, n) || n
                    == name@) by {
                    if names_hold(before, n) {
                        let i = choose|i: int| 0 <= i < before.len() && (#[trigger] before[i])@ == n;
                        assert(after[i]@ == n);
                    }
                    if n == name@ {
                        assert(after[before.len() as int]@ == n);
                    }
                    if names_hold(after, n) {
                        let i = choose|i: int| 0 <= i < after.len() && (#[trigger] after[i])@ == n;
                        if i < before.len() {
                            assert(before[i]@ == n);
                        }
                    }
                }
                assert(set.names() =~= self.names().insert(name@));
            }
            set
        }
    }
}

/// The texts of `names`.
pub open spec fn texts_of(names: Seq<String>) -> Set<Seq<char>> {
    Set::new(|name: Seq<char>| names_hold(names, name))
}

/// Names that are all different are as many as their texts.
pub proof fn lemma_distinct_names_count(names: Seq<String>)
    requires
        forall|i: int, j: int|
            0 <= i < j < names.len() ==> (#[trigger] names[i])@ != (#[trigger] names[j])@,
    ensures
        texts_of(names).finite(),
        texts_of(names).len() == names.len(),
    decreases names.len(),
{
    if names.len() == 0 {
        assert(texts_of(names) =~= Set::<Seq<char>>::empty());
    } else {
        let earlier = names.drop_last();
        let last = names.last()@;
        assert forall|i: int, j: int| 0 <= i < j < earlier.len() implies (#[trigger] earlier[i])@
            != (#[trigger] earlier[j])@ by {
            assert(earlier[i] == names[i]);
            assert(earlier[j] == names[j]);
        }
        lemma_distinct_names_count(earlier);
        assert(!texts_of(earlier).contains(last)) by {
            if names_hold(earlier, last) {
                let i = choose|i: int| 0 <= i < earlier.len() && (#[trigger] earlier[i])@ == last;
                assert(names[i]@ == names[names.len() - 1]@);
            }
        }
        assert(texts_of(names) =~= texts_of(earlier).insert(last)) by {
            assert forall|n: Seq<char>| texts_of(names).contains(n) == texts_of(earlier).insert(
                last,
            ).contains(n) by {
                if names_hold(names, n) {
                    let i = choose|i: int| 0 <= i < names.len() && (#[trigger] names[i])@ == n;
                    if i < earlier.len() {
                        assert(earlier[i]@ == n);
                    }
                }
                if names_hold(earlier, n) {
                    let i = choose|i: int| 0 <= i < earlier.len() && (#[trigger] earlier[i])@ == n;
                    assert(names[i]@ == n);
                }
                if n == last {
                    assert(names[names.len() - 1]@ == n);
                }
            }
        }
    }
}

} // verus!
