//! Insertion-ordered maps of the `indexmap` crate, hashed with hashbrown's
//! default hasher. Each map the library uses is modelled as the sequence of
//! its entries in insertion order; its keys are unique.
use vstd::prelude::*;
use indexmap::IndexMap;
use hashbrown::DefaultHashBuilder;

verus! {

#[verifier::external_type_specification]
#[verifier::external_body]
#[verifier::reject_recursive_types(K)]
#[verifier::reject_recursive_types(V)]
#[verifier::reject_recursive_types(S)]
pub struct ExIndexMap<K, V, S>(IndexMap<K, V, S>);

#[verifier::external_type_specification]
#[verifier::external_body]
pub struct ExDefaultHashBuilder(DefaultHashBuilder);

/// The index of the entry with key `k`, or -1 where there is none.
pub open spec fn index_of_key<K, V>(e: Seq<(K, V)>, k: K) -> int
    decreases e.len(),
{
    if e.len() == 0 {
        -1
    } else {
        let j = index_of_key(e.drop_last(), k);
        if j >= 0 {
            j
        } else if e.last().0 == k {
            e.len() - 1
        } else {
            -1
        }
    }
}

/// The entries after inserting `(k, v)`: an entry with key `k` keeps its
/// place and takes the value `v`; otherwise the pair goes last.
pub open spec fn inserted<K, V>(e: Seq<(K, V)>, k: K, v: V) -> Seq<(K, V)> {
    let j = index_of_key(e, k);
    if j >= 0 {
        e.update(j, (e[j].0, v))
    } else {
        e.push((k, v))
    }
}

pub proof fn lemma_index_of_key<K, V>(e: Seq<(K, V)>, k: K)
    ensures
        -1 <= index_of_key(e, k) < e.len(),
        index_of_key(e, k) >= 0 ==> e[index_of_key(e, k)].0 == k,
        index_of_key(e, k) >= 0 ==> forall|i: int| 0 <= i < index_of_key(e, k) ==> e[i].0 != k,
        index_of_key(e, k) < 0 ==> forall|i: int| 0 <= i < e.len() ==> e[i].0 != k,
    decreases e.len(),
{
    if e.len() > 0 {
        lemma_index_of_key(e.drop_last(), k);
        assert forall|i: int| 0 <= i < e.len() - 1 implies e.drop_last()[i] == e[i] by {}
    }
}

/// No two entries share a key.
pub open spec fn keys_unique<K, V>(e: Seq<(K, V)>) -> bool {
    forall|i: int, j: int| 0 <= i < j < e.len() ==> e[i].0 != e[j].0
}

/// Inserting into entries with unique keys keeps the keys unique, and the
/// inserted key then maps to the inserted value.
pub proof fn lemma_inserted_unique<K, V>(e: Seq<(K, V)>, k: K, v: V)
    requires
        keys_unique(e),
    ensures
        keys_unique(inserted(e, k, v)),
        index_of_key(inserted(e, k, v), k) >= 0,
        inserted(e, k, v)[index_of_key(inserted(e, k, v), k)].1 == v,
{
    let e2 = inserted(e, k, v);
    lemma_index_of_key(e, k);
    lemma_index_of_key(e2, k);
    let j = index_of_key(e, k);
    if j >= 0 {
        assert forall|a: int, b: int| 0 <= a < b < e2.len() implies e2[a].0 != e2[b].0 by {
            assert(e2[a].0 == e[a].0 && e2[b].0 == e[b].0);
        }
        assert(e2[j].0 == k);
        assert(index_of_key(e2, k) == j);
    } else {
        assert forall|a: int, b: int| 0 <= a < b < e2.len() implies e2[a].0 != e2[b].0 by {
            if b < e.len() {
                assert(e2[a] == e[a] && e2[b] == e[b]);
            } else {
                assert(e2[a] == e[a]);
            }
        }
        assert forall|a: int| 0 <= a < e.len() implies e2[a].0 != k by {
            assert(e2[a] == e[a]);
        }
        assert(index_of_key(e2, k) == e.len());
    }
}

/// A map from text to integer identifiers.
pub type TextIdMap = IndexMap<String, i32, DefaultHashBuilder>;

/// The entries of a text-to-identifier map, in insertion order.
pub uninterp spec fn text_id_entries(m: TextIdMap) -> Seq<(Seq<char>, i32)>;

/// Relies on `IndexMap::with_hasher` (with `DefaultHashBuilder::default`):
/// a map with no entries.
#[verifier::external_body]
pub(crate) fn text_id_map_new() -> (m: TextIdMap)
    ensures
        text_id_entries(m) == Seq::<(Seq<char>, i32)>::empty(),
{
    IndexMap::with_hasher(DefaultHashBuilder::default())
}

/// Relies on `IndexMap::insert`: an existing key keeps its place and takes
/// the new value, a new key goes last.
#[verifier::external_body]
pub(crate) fn text_id_map_insert(m: &mut TextIdMap, k: String, v: i32)
    ensures
        text_id_entries(*final(m)) == inserted(text_id_entries(*old(m)), k@, v),
{
    m.insert(k, v);
}

/// Relies on `IndexMap::len`: the number of entries.
#[verifier::external_body]
pub(crate) fn text_id_map_len(m: &TextIdMap) -> (r: usize)
    ensures
        r == text_id_entries(*m).len(),
{
    m.len()
}

/// Relies on `IndexMap::get_index`: the entry at index `i` in insertion
/// order, if there is one.
#[verifier::external_body]
pub(crate) fn text_id_map_get_index(m: &TextIdMap, i: usize) -> (r: Option<(&String, &i32)>)
    ensures
        r is Some <==> i < text_id_entries(*m).len(),
        r matches Some((k, v)) ==> (k@, *v) == text_id_entries(*m)[i as int],
{
    m.get_index(i)
}

/// A map from text to text.
pub type TextTextMap = IndexMap<String, String, DefaultHashBuilder>;

/// The entries of a text-to-text map, in insertion order.
pub uninterp spec fn text_text_entries(m: TextTextMap) -> Seq<(Seq<char>, Seq<char>)>;

/// Relies on `IndexMap::with_hasher` (with `DefaultHashBuilder::default`):
/// a map with no entries.
#[verifier::external_body]
pub(crate) fn text_text_map_new() -> (m: TextTextMap)
    ensures
        text_text_entries(m) == Seq::<(Seq<char>, Seq<char>)>::empty(),
{
    IndexMap::with_hasher(DefaultHashBuilder::default())
}

/// Relies on `IndexMap::insert`: an existing key keeps its place and takes
/// the new value, a new key goes last.
#[verifier::external_body]
pub(crate) fn text_text_map_insert(m: &mut TextTextMap, k: String, v: String)
    ensures
        text_text_entries(*final(m)) == inserted(text_text_entries(*old(m)), k@, v@),
{
    m.insert(k, v);
}

/// Relies on `IndexMap::len`: the number of entries.
#[verifier::external_body]
pub(crate) fn text_text_map_len(m: &TextTextMap) -> (r: usize)
    ensures
        r == text_text_entries(*m).len(),
{
    m.len()
}

/// Relies on `IndexMap::get_index`: the entry at index `i` in insertion
/// order, if there is one.
#[verifier::external_body]
pub(crate) fn text_text_map_get_index(m: &TextTextMap, i: usize) -> (r: Option<(&String, &String)>)
    ensures
        r is Some <==> i < text_text_entries(*m).len(),
        r matches Some((k, v)) ==> (k@, v@) == text_text_entries(*m)[i as int],
{
    m.get_index(i)
}

/// A map from identifiers to text.
pub type IdTextMap = IndexMap<i32, String, DefaultHashBuilder>;

/// The entries of an identifier-to-text map, in insertion order.
pub uninterp spec fn id_text_entries(m: IdTextMap) -> Seq<(i32, Seq<char>)>;

/// Relies on `IndexMap::with_hasher` (with `DefaultHashBuilder::default`):
/// a map with no entries.
#[verifier::external_body]
pub(crate) fn id_text_map_new() -> (m: IdTextMap)
    ensures
        id_text_entries(m) == Seq::<(i32, Seq<char>)>::empty(),
{
    IndexMap::with_hasher(DefaultHashBuilder::default())
}

/// Relies on `IndexMap::insert`: an existing key keeps its place and takes
/// the new value, a new key goes last.
#[verifier::external_body]
pub(crate) fn id_text_map_insert(m: &mut IdTextMap, k: i32, v: String)
    ensures
        id_text_entries(*final(m)) == inserted(id_text_entries(*old(m)), k, v@),
{
    m.insert(k, v);
}

/// Relies on `IndexMap::get`: the value of the entry with key `k`, if any.
#[verifier::external_body]
pub(crate) fn id_text_map_get<'a>(m: &'a IdTextMap, k: &i32) -> (r: Option<&'a String>)
    ensures
        r is Some <==> index_of_key(id_text_entries(*m), *k) >= 0,
        r matches Some(v) ==> v@ == id_text_entries(*m)[index_of_key(id_text_entries(*m), *k)].1,
{
    m.get(k)
}

/// A map from dictionary keys (reading, notation, identifier) to their
/// cost and label.
pub type EntryMap = IndexMap<(String, String, i32), (i32, String), DefaultHashBuilder>;

/// The entries of a dictionary-entry map, in insertion order.
pub uninterp spec fn entry_map_entries(m: EntryMap) -> Seq<
    ((Seq<char>, Seq<char>, i32), (i32, Seq<char>)),
>;

/// Relies on `IndexMap::with_hasher` (with `DefaultHashBuilder::default`):
/// a map with no entries.
#[verifier::external_body]
pub(crate) fn entry_map_new() -> (m: EntryMap)
    ensures
        entry_map_entries(m) == Seq::<((Seq<char>, Seq<char>, i32), (i32, Seq<char>))>::empty(),
{
    IndexMap::with_hasher(DefaultHashBuilder::default())
}

/// Relies on `IndexMap::insert`: an existing key keeps its place and takes
/// the new value, a new key goes last.
#[verifier::external_body]
pub(crate) fn entry_map_insert(m: &mut EntryMap, k: (String, String, i32), v: (i32, String))
    ensures
        entry_map_entries(*final(m)) == inserted(
            entry_map_entries(*old(m)),
            (k.0@, k.1@, k.2),
            (v.0, v.1@),
        ),
{
    m.insert(k, v);
}

/// Relies on `IndexMap::len`: the number of entries.
#[verifier::external_body]
pub(crate) fn entry_map_len(m: &EntryMap) -> (r: usize)
    ensures
        r == entry_map_entries(*m).len(),
{
    m.len()
}

/// Relies on `IndexMap::get_index`: the entry at index `i` in insertion
/// order, if there is one.
#[verifier::external_body]
pub(crate) fn entry_map_get_index(m: &EntryMap, i: usize) -> (r: Option<
    (&(String, String, i32), &(i32, String)),
>)
    ensures
        r is Some <==> i < entry_map_entries(*m).len(),
        r matches Some((k, v)) ==> ((k.0@, k.1@, k.2), (v.0, v.1@)) == entry_map_entries(
            *m,
        )[i as int],
{
    m.get_index(i)
}

} // verus!
