//! Input storage: values the user sets, each with the revision at which it
//! last changed.
use crate::ids::Epoch;
use std::collections::HashMap;
use std::hash::Hash;
use vstd::prelude::*;
use vstd::std_specs::cmp::PartialEqSpec;
use vstd::std_specs::hash::obeys_key_model;

verus! {

broadcast use vstd::std_specs::hash::group_hash_axioms;

/// What a write of `value` at revision `epoch` makes of a stored entry:
/// an equal value keeps the entry (and so its revision), anything else is
/// replaced and stamped with `epoch`.
pub open spec fn write_entry<V: PartialEq>(old: Option<(V, Epoch)>, value: V, epoch: Epoch) -> (V, Epoch) {
    match old {
        Some(entry) if entry.0.eq_spec(&value) => entry,
        _ => (value, epoch),
    }
}

/// Writing a value and reading it back gives the value written; the
/// revision moves to the write's revision exactly when the stored value
/// differed.
pub proof fn law_read_after_write<V: PartialEq>(prev: Option<(V, Epoch)>, value: V, epoch: Epoch)
    requires
        vstd::laws_eq::obeys_concrete_eq::<V>(),
    ensures
        write_entry(prev, value, epoch).0 == value,
        prev matches Some(e) ==> (e.0 == value ==> write_entry(prev, value, epoch) == e),
        prev matches Some(e) ==> (e.0 != value ==> write_entry(prev, value, epoch) == (value, epoch)),
        prev is None ==> write_entry(prev, value, epoch) == (value, epoch),
{
    reveal(vstd::laws_eq::obeys_concrete_eq);
}

/// Writing the same value again, at any later revision, leaves the entry as
/// the first write made it: a repeated write does not move the revision.
pub proof fn law_rewrite_keeps_revision<V: PartialEq>(
    prev: Option<(V, Epoch)>,
    value: V,
    first: Epoch,
    second: Epoch,
)
    requires
        vstd::laws_eq::obeys_concrete_eq::<V>(),
    ensures
        write_entry(Some(write_entry(prev, value, first)), value, second) == write_entry(
            prev,
            value,
            first,
        ),
{
    reveal(vstd::laws_eq::obeys_concrete_eq);
}

/// Map-based input storage with per-key revision tracking.
#[derive(Clone, Debug)]
pub struct InputTable<K, V> {
    data: HashMap<K, (V, Epoch)>,
}

impl<K, V> View for InputTable<K, V> {
    type V = Map<K, (V, Epoch)>;

    closed spec fn view(&self) -> Map<K, (V, Epoch)> {
        self.data@
    }
}

impl<K, V> Default for InputTable<K, V> {
    /// An empty table.
    fn default() -> (t: Self)
        ensures
            t@ == Map::<K, (V, Epoch)>::empty(),
    {
        InputTable { data: HashMap::new() }
    }
}

impl<K: Hash + Eq + Clone, V: Clone + PartialEq> InputTable<K, V> {
    /// An empty table.
    pub fn new() -> (t: Self)
        ensures
            t@ == Map::<K, (V, Epoch)>::empty(),
    {
        InputTable { data: HashMap::new() }
    }

    /// The value stored under `key`.
    pub fn get(&self, key: &K) -> (r: Option<&V>)
        ensures
            obeys_key_model::<K>() ==> match r {
                Some(v) => self@.contains_key(*key) && *v == self@[*key].0,
                None => !self@.contains_key(*key),
            },
    {
        match self.data.get(key) {
            Some(entry) => Some(&entry.0),
            None => None,
        }
    }

    /// The value stored under `key` with the revision at which it last changed.
    pub fn get_with_epoch(&self, key: &K) -> (r: Option<(&V, Epoch)>)
        ensures
            obeys_key_model::<K>() ==> match r {
                Some((v, e)) => self@.contains_key(*key) && *v == self@[*key].0 && e == self@[*key].1,
                None => !self@.contains_key(*key),
            },
    {
        match self.data.get(key) {
            Some(entry) => Some((&entry.0, entry.1)),
            None => None,
        }
    }

    /// The revision at which the value under `key` last changed.
    pub fn changed_at(&self, key: &K) -> (r: Option<Epoch>)
        ensures
            obeys_key_model::<K>() ==> match r {
                Some(e) => self@.contains_key(*key) && e == self@[*key].1,
                None => !self@.contains_key(*key),
            },
    {
        match self.data.get(key) {
            Some(entry) => Some(entry.1),
            None => None,
        }
    }

    /// Stores `value` under `key` at revision `epoch`. Writing a value equal
    /// to the stored one changes nothing, so the key keeps its old revision.
    pub fn set(&mut self, key: K, value: V, epoch: Epoch)
        ensures
            obeys_key_model::<K>() ==> {
                &&& !old(self)@.contains_key(key) ==> final(self)@ == old(self)@.insert(key, (value, epoch))
                &&& old(self)@.contains_key(key) ==> {
                    ||| final(self)@ == old(self)@ && call_ensures(
                        V::eq,
                        (&old(self)@[key].0, &value),
                        true,
                    )
                    ||| final(self)@ == old(self)@.insert(key, (value, epoch)) && call_ensures(
                        V::eq,
                        (&old(self)@[key].0, &value),
                        false,
                    )
                }
                &&& V::obeys_eq_spec() ==> final(self)@ == old(self)@.insert(
                    key,
                    write_entry(old(self)@.get(key), value, epoch),
                )
                &&& final(self)@ == old(self)@ || final(self)@ == old(self)@.insert(key, (value, epoch))
            },
    {
        let unchanged = match self.data.get(&key) {
            Some(entry) => entry.0 == value,
            None => false,
        };
        if unchanged {
            proof {
                if obeys_key_model::<K>() {
                    assert(old(self)@.insert(key, old(self)@[key]) =~= old(self)@);
                }
            }
            return;
        }
        self.data.insert(key, (value, epoch));
    }
}

/// Scalar input storage with revision tracking.
#[derive(Clone, Debug)]
pub struct InputField<V> {
    data: Option<(V, Epoch)>,
}

impl<V> View for InputField<V> {
    type V = Option<(V, Epoch)>;

    closed spec fn view(&self) -> Option<(V, Epoch)> {
        self.data
    }
}

impl<V> Default for InputField<V> {
    /// A field with no value yet.
    fn default() -> (f: Self)
        ensures
            f@ == None::<(V, Epoch)>,
    {
        InputField { data: None }
    }
}

impl<V: Clone + PartialEq> InputField<V> {
    /// A field with no value yet.
    pub fn new() -> (f: Self)
        ensures
            f@ == None::<(V, Epoch)>,
    {
        InputField { data: None }
    }

    /// The stored value.
    pub fn get(&self) -> (r: Option<&V>)
        ensures
            match r {
                Some(v) => self@ matches Some(entry) && *v == entry.0,
                None => self@ is None,
            },
    {
        match &self.data {
            Some(entry) => Some(&entry.0),
            None => None,
        }
    }

    /// The stored value with the revision at which it last changed.
    pub fn get_with_epoch(&self) -> (r: Option<(&V, Epoch)>)
        ensures
            match r {
                Some((v, e)) => self@ matches Some(entry) && *v == entry.0 && e == entry.1,
                None => self@ is None,
            },
    {
        match &self.data {
            Some(entry) => Some((&entry.0, entry.1)),
            None => None,
        }
    }

    /// The revision at which the value last changed.
    pub fn changed_at(&self) -> (r: Option<Epoch>)
        ensures
            match r {
                Some(e) => self@ matches Some(entry) && e == entry.1,
                None => self@ is None,
            },
    {
        match &self.data {
            Some(entry) => Some(entry.1),
            None => None,
        }
    }

    /// Stores `value` at revision `epoch`. Writing a value equal to the
    /// stored one changes nothing, so the field keeps its old revision.
    pub fn set(&mut self, value: V, epoch: Epoch)
        ensures
            V::obeys_eq_spec() ==> final(self)@ == Some(write_entry(old(self)@, value, epoch)),
            final(self)@ == old(self)@ || final(self)@ == Some((value, epoch)),
            old(self)@ is None ==> final(self)@ == Some((value, epoch)),
            old(self)@ matches Some(entry) ==> {
                ||| final(self)@ == old(self)@ && call_ensures(V::eq, (&entry.0, &value), true)
                ||| final(self)@ == Some((value, epoch)) && call_ensures(V::eq, (&entry.0, &value), false)
            },
    {
        let unchanged = match &self.data {
            Some(entry) => entry.0 == value,
            None => false,
        };
        if unchanged {
            return;
        }
        self.data = Some((value, epoch));
    }
}

} // verus!
