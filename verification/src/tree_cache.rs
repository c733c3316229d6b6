//! A cache of the tree ids of commits for one sync, kept in a concurrent
//! map; only stable object ids (hexadecimal) are cached, never symbolic
//! names such as `HEAD`.

use vstd::prelude::*;
use dashmap::DashMap;
use crate::text::{self, chars_of};

verus! {

#[verifier::external_type_specification]
#[verifier::external_body]
#[verifier::reject_recursive_types(K)]
#[verifier::reject_recursive_types(V)]
#[verifier::reject_recursive_types(S)]
pub struct ExDashMap<K, V, S>(DashMap<K, V, S>);

/// The tree ids a map holds, by commit id.
pub uninterp spec fn cached_trees(m: DashMap<String, String>) -> Map<Seq<char>, Seq<char>>;

/// No tree at all.
pub open spec fn no_trees() -> Map<Seq<char>, Seq<char>> {
    Map::empty()
}

/// `DashMap::new`: an empty map.
#[verifier::external_body]
fn new_tree_map() -> (m: DashMap<String, String>)
    ensures
        cached_trees(m) == no_trees(),
{
    DashMap::new()
}

/// `DashMap::get`: the value stored for the key, if any (keys compare by
/// their text).
#[verifier::external_body]
fn tree_map_get(m: &DashMap<String, String>, key: &str) -> (r: Option<String>)
    ensures
        match r {
            Some(v) => cached_trees(*m).contains_key(key@) && cached_trees(*m)[key@] == v@,
            None => !cached_trees(*m).contains_key(key@),
        },
{
    match m.get(key) {
        Some(entry) => Some(entry.value().clone()),
        None => None,
    }
}

/// `DashMap::insert`: stores the value for the key, replacing any earlier one.
#[verifier::external_body]
fn tree_map_insert(m: &mut DashMap<String, String>, key: String, value: String)
    ensures
        cached_trees(*final(m)) == cached_trees(*old(m)).insert(key@, value@),
{
    m.insert(key, value);
}

/// `DashMap::len`: the number of entries.
#[verifier::external_body]
fn tree_map_len(m: &DashMap<String, String>) -> (n: usize)
    ensures
        n == cached_trees(*m).len(),
{
    m.len()
}

/// `DashMap::capacity`: how many entries fit without reallocating; it
/// depends on the allocator, and nothing is stated of it.
#[verifier::external_body]
fn tree_map_capacity(m: &DashMap<String, String>) -> (n: usize) {
    m.capacity()
}

pub open spec fn is_hex(c: char) -> bool {
    ('0' <= c && c <= '9') || ('a' <= c && c <= 'f') || ('A' <= c && c <= 'F')
}

/// A key is cached only when it is a non-empty hexadecimal object id.
pub open spec fn cacheable(commit_id: Seq<char>) -> bool {
    commit_id.len() > 0 && forall|i: int| 0 <= i < commit_id.len() ==> is_hex(#[trigger] commit_id[i])
}

/// The tree ids of the commits met during one sync.
pub struct TreeIdCache {
    cache: DashMap<String, String>,
}

impl TreeIdCache {
    pub closed spec fn trees(&self) -> Map<Seq<char>, Seq<char>> {
        cached_trees(self.cache)
    }

    /// Only stable keys are ever stored.
    pub closed spec fn well_formed(&self) -> bool {
        forall|k: Seq<char>| #[trigger] cached_trees(self.cache).contains_key(k) ==> cacheable(k)
    }

    pub fn new() -> (c: Self)
        ensures
            c.well_formed(),
            c.trees() == no_trees(),
    {
        TreeIdCache { cache: new_tree_map() }
    }

    /// Whether a commit id may be cached.
    pub fn is_cacheable_key(commit_id: &str) -> (b: bool)
        ensures
            b == cacheable(commit_id@),
    {
        let c = chars_of(commit_id);
        if c.len() == 0 {
            return false;
        }
        let mut i: usize = 0;
        while i < c.len()
            invariant
                i <= c@.len(),
                c@ == commit_id@,
                forall|j: int| 0 <= j < i ==> is_hex(#[trigger] c@[j]),
            decreases c.len() - i,
        {
            let x = c[i];
            if !(('0' <= x && x <= '9') || ('a' <= x && x <= 'f') || ('A' <= x && x <= 'F')) {
                assert(!is_hex(commit_id@[i as int]));
                return false;
            }
            i = i + 1;
        }
        true
    }

    /// The cached tree of a commit: only stable ids are looked up.
    pub fn get_tree_id(&self, commit_id: &str) -> (r: Option<String>)
        ensures
            match r {
                Some(t) => cacheable(commit_id@) && self.trees().contains_key(commit_id@) && self.trees()[commit_id@] == t@,
                None => !cacheable(commit_id@) || !self.trees().contains_key(commit_id@),
            },
    {
        if !Self::is_cacheable_key(commit_id) {
            return None;
        }
        tree_map_get(&self.cache, commit_id)
    }

    /// Keeps the tree git gave for a commit, when its id is stable.
    pub fn remember_tree_id(&mut self, commit_id: &str, tree_id: &str)
        requires
            old(self).well_formed(),
        ensures
            final(self).well_formed(),
            cacheable(commit_id@) ==> final(self).trees() == old(self).trees().insert(commit_id@, tree_id@),
            !cacheable(commit_id@) ==> final(self).trees() == old(self).trees(),
    {
        if Self::is_cacheable_key(commit_id) {
            tree_map_insert(&mut self.cache, String::from_str(commit_id), String::from_str(tree_id));
        }
    }

    /// The number of cached trees, and the capacity of the map.
    pub fn stats(&self) -> (r: (usize, usize))
        ensures
            r.0 == self.trees().len(),
    {
        (tree_map_len(&self.cache), tree_map_capacity(&self.cache))
    }
}

} // verus!
