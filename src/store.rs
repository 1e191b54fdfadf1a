//! The entry store: resolved entries keyed by (reading, notation,
//! identifier), one map for the system format and one for the user format,
//! each in insertion order; a later entry with the same key replaces the
//! earlier one in its place.
use vstd::prelude::*;
use crate::ordered::{
    entry_map_entries, entry_map_get_index, entry_map_insert, entry_map_len, entry_map_new,
    inserted, EntryMap,
};

verus! {

/// The identity of an entry: duplicates share reading, notation and
/// identifier.
#[derive(Debug, Clone, PartialEq, Eq, Hash)]
pub struct DictionaryKey {
    pub pronunciation: String,
    pub notation: String,
    pub word_class_id: i32,
}

/// An entry: its key, its cost and its user label (empty in the system
/// format).
#[derive(Debug)]
pub struct DictionaryEntry {
    pub key: DictionaryKey,
    pub cost: i32,
    pub word_class: String,
}

/// The model of a key.
pub open spec fn key_view(k: DictionaryKey) -> (Seq<char>, Seq<char>, i32) {
    (k.pronunciation@, k.notation@, k.word_class_id)
}

/// The model of an entry: its key and its (cost, label).
pub open spec fn entry_view(e: DictionaryEntry) -> ((Seq<char>, Seq<char>, i32), (i32, Seq<char>)) {
    (key_view(e.key), (e.cost, e.word_class@))
}

/// The system-format and user-format entries.
pub struct DictionaryData {
    entries: EntryMap,
    user_entries: EntryMap,
}

impl DictionaryData {
    /// The entries of one format, in insertion order.
    pub closed spec fn entries_of(&self, is_user_dict: bool) -> Seq<
        ((Seq<char>, Seq<char>, i32), (i32, Seq<char>)),
    > {
        if is_user_dict {
            entry_map_entries(self.user_entries)
        } else {
            entry_map_entries(self.entries)
        }
    }

    /// An empty store.
    pub fn new() -> (r: Self)
        ensures
            r.entries_of(false).len() == 0,
            r.entries_of(true).len() == 0,
    {
        DictionaryData { entries: entry_map_new(), user_entries: entry_map_new() }
    }

    /// Adds an entry to the user-format or the system-format entries; an
    /// entry with the same key is replaced in its place.
    pub fn add(&mut self, entry: DictionaryEntry, is_user_dict: bool)
        ensures
            final(self).entries_of(is_user_dict) == inserted(
                old(self).entries_of(is_user_dict),
                key_view(entry.key),
                (entry.cost, entry.word_class@),
            ),
            final(self).entries_of(!is_user_dict) == old(self).entries_of(!is_user_dict),
    {
        let key = (entry.key.pronunciation, entry.key.notation, entry.key.word_class_id);
        let value = (entry.cost, entry.word_class);
        if is_user_dict {
            entry_map_insert(&mut self.user_entries, key, value);
        } else {
            entry_map_insert(&mut self.entries, key, value);
        }
    }

    /// The number of entries of one format.
    pub fn len(&self, is_user_dict: bool) -> (r: usize)
        ensures
            r == self.entries_of(is_user_dict).len(),
    {
        if is_user_dict {
            entry_map_len(&self.user_entries)
        } else {
            entry_map_len(&self.entries)
        }
    }

    /// The entry of one format at index `i` in insertion order.
    pub fn get(&self, is_user_dict: bool, i: usize) -> (r: Option<DictionaryEntry>)
        ensures
            r is Some <==> i < self.entries_of(is_user_dict).len(),
            r matches Some(e) ==> entry_view(e) == self.entries_of(is_user_dict)[i as int],
    {
        let m = if is_user_dict {
            &self.user_entries
        } else {
            &self.entries
        };
        match entry_map_get_index(m, i) {
            Some((k, v)) => Some(
                DictionaryEntry {
                    key: DictionaryKey {
                        pronunciation: k.0.clone(),
                        notation: k.1.clone(),
                        word_class_id: k.2,
                    },
                    cost: v.0,
                    word_class: v.1.clone(),
                },
            ),
            None => None,
        }
    }
}

impl Default for DictionaryData {
    fn default() -> (r: Self)
        ensures
            r.entries_of(false).len() == 0,
            r.entries_of(true).len() == 0,
    {
        Self::new()
    }
}

/// Adding two entries with the same key to a store leaves what adding the
/// second alone leaves; to an empty store, a single entry, the second.
pub proof fn lemma_add_same_key_keeps_second(
    e: Seq<((Seq<char>, Seq<char>, i32), (i32, Seq<char>))>,
    k: (Seq<char>, Seq<char>, i32),
    v1: (i32, Seq<char>),
    v2: (i32, Seq<char>),
)
    ensures
        inserted(inserted(e, k, v1), k, v2) == inserted(e, k, v2),
        e.len() == 0 ==> inserted(inserted(e, k, v1), k, v2) == seq![(k, v2)],
{
    let e1 = inserted(e, k, v1);
    crate::ordered::lemma_index_of_key(e, k);
    crate::ordered::lemma_index_of_key(e1, k);
    let j = crate::ordered::index_of_key(e, k);
    if j >= 0 {
        assert(e1[j].0 == k);
        assert forall|i: int| 0 <= i < j implies e1[i].0 != k by {
            assert(e1[i] == e[i]);
        }
        assert(crate::ordered::index_of_key(e1, k) == j);
        assert(inserted(e1, k, v2) =~= inserted(e, k, v2));
    } else {
        assert(e1 == e.push((k, v1)));
        assert forall|i: int| 0 <= i < e.len() implies e1[i].0 != k by {
            assert(e1[i] == e[i]);
        }
        assert(crate::ordered::index_of_key(e1, k) == e.len());
        assert(inserted(e1, k, v2) =~= inserted(e, k, v2));
    }
    if e.len() == 0 {
        assert(inserted(e, k, v2) =~= seq![(k, v2)]);
    }
}

} // verus!
