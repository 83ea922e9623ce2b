use vstd::prelude::*;

verus! {

/// Named definitions, in the order in which they were registered. A name
/// that is registered again stands for the later definition.
#[derive(Debug, PartialEq)]
pub struct Registry<T> {
    pub entries: Vec<(String, T)>,
}

/// The place of the latest entry of `name`, or -1 where it has none.
pub open spec fn entry_position<T>(s: Seq<(String, T)>, name: Seq<char>) -> int
    decreases s.len(),
{
    if s.len() == 0 {
        -1
    } else if s.last().0@ == name {
        s.len() - 1
    } else {
        entry_position(s.drop_last(), name)
    }
}

/// The latest entry of a name lies in the registry and bears that name.
pub proof fn lemma_entry_position<T>(s: Seq<(String, T)>, name: Seq<char>)
    ensures
        -1 <= entry_position(s, name) < s.len(),
        entry_position(s, name) >= 0 ==> s[entry_position(s, name)].0@ == name,
    decreases s.len(),
{
    if s.len() > 0 && s.last().0@ != name {
        lemma_entry_position(s.drop_last(), name);
    }
}

impl<T> Registry<T> {
    /// What `name` stands for, if anything.
    pub open spec fn lookup(&self, name: Seq<char>) -> Option<T> {
        let i = entry_position(self.entries@, name);
        if i >= 0 {
            Some(self.entries@[i].1)
        } else {
            None
        }
    }

    /// A registry without entries.
    pub fn new() -> (r: Self)
        ensures
            r.entries@.len() == 0,
    {
        Registry { entries: Vec::new() }
    }

    /// The number of entries.
    pub fn len(&self) -> (r: usize)
        ensures
            r == self.entries@.len(),
    {
        self.entries.len()
    }

    /// Registers `value` under `name`.
    pub fn insert(&mut self, name: String, value: T)
        ensures
            final(self).entries@ == old(self).entries@.push((name, value)),
            final(self).lookup(name@) == Some(value),
            forall|other: Seq<char>| other != name@ ==> final(self).lookup(other) == old(self).lookup(other),
    {
        self.entries.push((name, value));
        assert(self.entries@.drop_last() =~= old(self).entries@);
        assert forall|other: Seq<char>| other != name@ implies self.lookup(other) == old(self).lookup(
            other,
        ) by {
            lemma_entry_position(old(self).entries@, other);
        }
    }

    /// What `name` stands for, if anything.
    pub fn get(&self, name: &String) -> (r: Option<&T>)
        ensures
            match r {
                Some(value) => self.lookup(name@) == Some(*value),
                None => self.lookup(name@).is_none(),
            },
    {
        let mut i: usize = self.entries.len();
        assert(self.entries@.take(i as int) =~= self.entries@);
        while i > 0
            invariant
                i <= self.entries@.len(),
                entry_position(self.entries@, name@) == entry_position(
                    self.entries@.take(i as int),
                    name@,
                ),
            decreases i,
        {
            let ghost prefix = self.entries@.take(i as int);
            assert(prefix.last() == self.entries@[i - 1]);
            assert(prefix.drop_last() =~= self.entries@.take(i - 1));
            if self.entries[i - 1].0 == *name {
                return Some(&self.entries[i - 1].1);
            }
            i -= 1;
        }
        assert(self.entries@.take(0).len() == 0);
        None
    }
}

} // verus!
