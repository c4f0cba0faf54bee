//! The document store's key space and lookups into its list-shaped
//! collections.
//!
//! The store itself is an external collaborator; the session core only reads
//! and rewrites its collections as plain vectors of records, finding records
//! by id.

use vstd::prelude::*;

verus! {

/// The collections the store keeps.
#[derive(Clone, Copy, PartialEq, Eq, Structural, Debug)]
pub enum StoreKey {
    Hosts,
    Identities,
    PrivateKeys,
    Settings,
}

impl StoreKey {
    /// The characters of this key's name in the store.
    pub open spec fn spec_str(self) -> Seq<char> {
        match self {
            StoreKey::Hosts => "hosts"@,
            StoreKey::Identities => "identities"@,
            StoreKey::PrivateKeys => "private_keys"@,
            StoreKey::Settings => "settings"@,
        }
    }

    /// This key's name in the store.
    pub fn as_str(&self) -> (r: &str)
        ensures
            r@ == self.spec_str(),
    {
        match self {
            StoreKey::Hosts => "hosts",
            StoreKey::Identities => "identities",
            StoreKey::PrivateKeys => "private_keys",
            StoreKey::Settings => "settings",
        }
    }
}

/// A record that carries its own id.
pub trait Identifiable {
    /// The characters of the record's id.
    spec fn spec_id(&self) -> Seq<char>;

    /// The record's id.
    fn id(&self) -> (r: &String)
        ensures
            r@ == self.spec_id(),
    ;
}

/// Whether position `k` holds the first record under the given id.
pub open spec fn is_first_match<T: Identifiable>(items: Seq<T>, id: Seq<char>, k: int) -> bool {
    &&& 0 <= k < items.len()
    &&& items[k].spec_id() == id
    &&& forall|j: int| 0 <= j < k ==> items[j].spec_id() != id
}

/// Whether any record is stored under the given id.
pub open spec fn has_match<T: Identifiable>(items: Seq<T>, id: Seq<char>) -> bool {
    exists|k: int| 0 <= k < items.len() && items[k].spec_id() == id
}

/// The position of the first record under the given id.
pub open spec fn first_match<T: Identifiable>(items: Seq<T>, id: Seq<char>) -> int {
    choose|k: int| is_first_match(items, id, k)
}

/// The first position of a match is a match, and the only one.
pub proof fn lemma_first_match<T: Identifiable>(items: Seq<T>, id: Seq<char>, k: int)
    requires
        is_first_match(items, id, k),
    ensures
        has_match(items, id),
        first_match(items, id) == k,
{
    assert(0 <= k < items.len() && items[k].spec_id() == id);
    let w = first_match(items, id);
    assert(is_first_match(items, id, w));
    if w < k {
        assert(items[w].spec_id() != id);
    } else if k < w {
        assert(items[k].spec_id() != id);
    }
}

/// The position of the first record under the given id, if any is stored.
pub fn find_index<T: Identifiable>(items: &Vec<T>, id: &String) -> (r: Option<usize>)
    ensures
        match r {
            Some(k) => is_first_match(items@, id@, k as int) && has_match(items@, id@)
                && first_match(items@, id@) == k,
            None => !has_match(items@, id@),
        },
{
    let mut k: usize = 0;
    while k < items.len()
        invariant
            0 <= k <= items@.len(),
            forall|j: int| 0 <= j < k ==> items@[j].spec_id() != id@,
        decreases items@.len() - k,
    {
        if *items[k].id() == *id {
            proof {
                lemma_first_match(items@, id@, k as int);
            }
            return Some(k);
        }
        k += 1;
    }
    None
}

/// The first record under the given id, if any is stored.
pub fn get_item<'a, T: Identifiable>(items: &'a Vec<T>, id: &String) -> (r: Option<&'a T>)
    ensures
        match r {
            Some(t) => has_match(items@, id@) && *t == items@[first_match(items@, id@)],
            None => !has_match(items@, id@),
        },
{
    match find_index(items, id) {
        Some(k) => Some(&items[k]),
        None => None,
    }
}

} // verus!
