//! The in-memory session store: a concurrent map from refresh-token
//! identity to the canonical refresh-token record.

use vstd::prelude::*;
use crate::jwt::{RefreshToken, TokenView};

verus! {

#[verifier::external_type_specification]
#[verifier::external_body]
#[verifier::reject_recursive_types(K)]
#[verifier::reject_recursive_types(V)]
#[verifier::reject_recursive_types(S)]
pub struct ExDashMap<K, V, S>(dashmap::DashMap<K, V, S>);

/// A store with nothing in it.
pub open spec fn empty_contents() -> Map<Seq<char>, TokenView> {
    Map::empty()
}

/// What the store holds: the refresh-token record filed under each
/// identity that is present.
pub uninterp spec fn store_contents(s: Store) -> Map<Seq<char>, TokenView>;

/// A simple in-memory store holding the canonical [`RefreshToken`] for
/// each refresh-token identity. The underlying concurrent map serializes
/// the operations on each key; through these contracts every operation is
/// specified against the store's map of contents. Because the mutating
/// contracts are stated over `&mut self`, a deployment that shares one
/// store across request handlers must wrap it in a lock of its own, which
/// serializes operations on all keys, not only on the key touched; the
/// per-key concurrency of the underlying map is then unused.
pub struct Store {
    inner: dashmap::DashMap<String, RefreshToken, std::hash::RandomState>,
}

impl View for Store {
    type V = Map<Seq<char>, TokenView>;

    open spec fn view(&self) -> Map<Seq<char>, TokenView> {
        store_contents(*self)
    }
}

impl Store {
    /// Creates an empty [`Store`].
    ///
    /// Relies on `dashmap::DashMap::new`: a freshly created map holds
    /// nothing.
    #[verifier::external_body]
    pub fn new() -> (r: Store)
        ensures
            store_contents(r) == empty_contents(),
    {
        Store { inner: dashmap::DashMap::new() }
    }

    /// Get a [`RefreshToken`] by `key` from the [`Store`]: a copy of the
    /// entry filed under `key`, or nothing if `key` is absent.
    ///
    /// Relies on `dashmap::DashMap::get`: returns the value filed under
    /// `key`, if any; a clone of the guarded value is handed out.
    #[verifier::external_body]
    pub fn get(&self, key: &str) -> (r: Option<RefreshToken>)
        ensures
            match r {
                Some(v) => store_contents(*self).contains_key(key@) && v@ == store_contents(
                    *self,
                )[key@],
                None => !store_contents(*self).contains_key(key@),
            },
    {
        self.inner.get(key).map(|entry| entry.value().clone())
    }

    /// Insert a [`RefreshToken`] into the [`Store`] under `key`,
    /// replacing and returning the prior entry if one existed.
    ///
    /// Relies on `dashmap::DashMap::insert`: maps `key` to `value` and
    /// returns the value previously filed under `key`, if any.
    #[verifier::external_body]
    pub fn insert(&mut self, key: String, value: RefreshToken) -> (prev: Option<RefreshToken>)
        ensures
            store_contents(*final(self)) == store_contents(*old(self)).insert(key@, value@),
            match prev {
                Some(p) => store_contents(*old(self)).contains_key(key@)
                    && p@ == store_contents(*old(self))[key@],
                None => !store_contents(*old(self)).contains_key(key@),
            },
    {
        self.inner.insert(key, value)
    }

    /// Remove the [`RefreshToken`] filed under `key`, returning it if it
    /// existed.
    ///
    /// Relies on `dashmap::DashMap::remove`: deletes the entry filed
    /// under `key` and returns its value, if one was present.
    #[verifier::external_body]
    pub fn remove(&mut self, key: &str) -> (r: Option<RefreshToken>)
        ensures
            store_contents(*final(self)) == store_contents(*old(self)).remove(key@),
            match r {
                Some(v) => store_contents(*old(self)).contains_key(key@)
                    && v@ == store_contents(*old(self))[key@],
                None => !store_contents(*old(self)).contains_key(key@),
            },
    {
        self.inner.remove(key).map(|kv| kv.1)
    }
}

/// Initialize the in-memory store.
pub fn setup_store() -> (r: Store)
    ensures
        r@ == empty_contents(),
{
    Store::new()
}

/// The store keeps exactly what was put: after an insert, the inserted
/// record is filed under its key; after a removal, the key is absent and
/// every other entry is untouched.
pub proof fn lemma_store_roundtrip(m: Map<Seq<char>, TokenView>, id: Seq<char>, t: TokenView)
    ensures
        m.insert(id, t).contains_key(id),
        m.insert(id, t)[id] == t,
        !m.remove(id).contains_key(id),
        forall|k: Seq<char>| k != id && m.contains_key(k) ==> m.insert(id, t).contains_key(k)
            && m.insert(id, t)[k] == m[k] && m.remove(id).contains_key(k) && m.remove(id)[k]
            == m[k],
{
}

/// Replacement loses no update and leaves a single entry per identity:
/// whatever was filed under an identity, inserting a new record under the
/// same identity leaves exactly the new record there.
pub proof fn lemma_insert_replaces(
    m: Map<Seq<char>, TokenView>,
    id: Seq<char>,
    a: TokenView,
    b: TokenView,
)
    ensures
        m.insert(id, a).insert(id, b)[id] == b,
        m.insert(id, a).insert(id, b).dom() =~= m.insert(id, b).dom(),
{
}

} // verus!
