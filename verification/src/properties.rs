//! String-keyed property lists as PipeWire delivers them with objects.

use vstd::prelude::*;

use crate::text::str_eq;

verus! {

/// A property list: key/value pairs where the first entry for a key counts.
#[derive(Debug, Clone)]
pub struct Properties {
    /// The entries, in insertion order.
    pub entries: Vec<(String, String)>,
}

/// The value of the first entry with the key.
pub open spec fn first_value(entries: Seq<(String, String)>, key: Seq<char>) -> Option<String>
    decreases entries.len(),
{
    if entries.len() == 0 {
        None
    } else if entries[0].0@ == key {
        Some(entries[0].1)
    } else {
        first_value(entries.drop_first(), key)
    }
}

impl Properties {
    /// The value stored for a key.
    pub open spec fn value_of(&self, key: Seq<char>) -> Option<String> {
        first_value(self.entries@, key)
    }

    /// Creates an empty property list.
    pub fn new() -> (r: Self)
        ensures
            forall|k: Seq<char>| r.value_of(k) is None,
    {
        Properties { entries: Vec::new() }
    }

    /// Looks up the value of a key.
    pub fn get(&self, key: &str) -> (r: Option<&String>)
        ensures
            match r {
                Some(v) => self.value_of(key@) == Some(*v),
                None => self.value_of(key@) is None,
            },
    {
        let mut i: usize = 0;
        proof {
            assert(self.entries@.skip(0) =~= self.entries@);
        }
        while i < self.entries.len()
            invariant
                i <= self.entries@.len(),
                first_value(self.entries@, key@) == first_value(self.entries@.skip(i as int), key@),
            decreases self.entries.len() - i,
        {
            proof {
                assert(self.entries@.skip(i as int).drop_first() =~= self.entries@.skip(i + 1));
            }
            if str_eq(self.entries[i].0.as_str(), key) {
                return Some(&self.entries[i].1);
            }
            i += 1;
        }
        None
    }

    /// Looks up the value of a key and copies it.
    pub fn get_cloned(&self, key: &str) -> (r: Option<String>)
        ensures
            r == self.value_of(key@),
    {
        match self.get(key) {
            Some(v) => Some(v.clone()),
            None => None,
        }
    }

    /// Sets the value of a key; afterwards the key has that value and every other
    /// key keeps its value.
    pub fn insert(&mut self, key: String, value: String)
        ensures
            final(self).value_of(key@) == Some(value),
            forall|k: Seq<char>| k != key@ ==> final(self).value_of(k) == old(self).value_of(k),
    {
        let ghost kv = key@;
        self.entries.insert(0, (key, value));
        proof {
            assert(self.entries@.drop_first() =~= old(self).entries@);
        }
    }
}

}
