//! The `ahash::AHashMap`s of the library: the per-repository memo of loaded
//! tag lists, and the index of tag names seen in `git ls-remote` output.
use vstd::prelude::*;

use ahash::AHashMap;

verus! {

#[verifier::external_type_specification]
#[verifier::external_body]
#[verifier::reject_recursive_types(K)]
#[verifier::reject_recursive_types(V)]
#[verifier::reject_recursive_types(S)]
pub struct ExAHashMap<K, V, S>(AHashMap<K, V, S>);

#[verifier::external_type_specification]
#[verifier::external_body]
pub struct ExRandomState(ahash::RandomState);

/// The memo type: `(owner, repo)` to the index of the answer that loaded its tags.
pub type TagMemo = AHashMap<(String, String), usize>;

/// What the memo holds: for each `(owner, repo)`, where its tag list was loaded.
pub uninterp spec fn memo_entries(m: TagMemo) -> Map<(Seq<char>, Seq<char>), usize>;

/// The contents of an empty memo.
pub open spec fn no_entries() -> Map<(Seq<char>, Seq<char>), usize> {
    Map::empty()
}

/// An empty memo (`AHashMap::new`).
#[verifier::external_body]
pub(crate) fn memo_new() -> (m: TagMemo)
    ensures
        memo_entries(m) == no_entries(),
{
    AHashMap::new()
}

/// The entry of `(owner, repo)` (`AHashMap::get`).
#[verifier::external_body]
pub(crate) fn memo_get(m: &TagMemo, owner: &String, repo: &String) -> (r: Option<usize>)
    ensures
        r == memo_entries(*m).get((owner@, repo@)),
{
    m.get(&(owner.clone(), repo.clone())).copied()
}

/// Sets the entry of `(owner, repo)` (`AHashMap::insert`).
#[verifier::external_body]
pub(crate) fn memo_insert(m: &mut TagMemo, owner: String, repo: String, at: usize)
    ensures
        memo_entries(*final(m)) == memo_entries(*old(m)).insert((owner@, repo@), at),
{
    m.insert((owner, repo), at);
}

/// Tag name to the position of its entry in a list being built.
pub type NameIndex = AHashMap<String, usize>;

/// What a name index holds.
pub uninterp spec fn name_index_entries(m: NameIndex) -> Map<Seq<char>, usize>;

/// The contents of an empty name index.
pub open spec fn no_names() -> Map<Seq<char>, usize> {
    Map::empty()
}

/// An empty name index (`AHashMap::new`).
#[verifier::external_body]
pub(crate) fn name_index_new() -> (m: NameIndex)
    ensures
        name_index_entries(m) == no_names(),
{
    AHashMap::new()
}

/// The entry of `name` (`AHashMap::get`).
#[verifier::external_body]
pub(crate) fn name_index_get(m: &NameIndex, name: &String) -> (r: Option<usize>)
    ensures
        r == name_index_entries(*m).get(name@),
{
    m.get(name).copied()
}

/// Sets the entry of `name` (`AHashMap::insert`).
#[verifier::external_body]
pub(crate) fn name_index_insert(m: &mut NameIndex, name: String, at: usize)
    ensures
        name_index_entries(*final(m)) == name_index_entries(*old(m)).insert(name@, at),
{
    m.insert(name, at);
}

} // verus!
