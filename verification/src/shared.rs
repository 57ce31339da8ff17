//! The state that all connections share: the peers registered under a
//! channel name, each with the handle that reaches it, and the key-value
//! store.

use crate::text::decode_text;
use vstd::hash_map::StringHashMap;
use vstd::prelude::*;
use vstd::utf8::{decode_utf8, valid_utf8};

verus! {

/// The store after `value` was put under the key whose UTF-8 bytes are `key`.
pub open spec fn db_after_put(db: Map<Seq<char>, Seq<u8>>, key: Seq<u8>, value: Seq<u8>) -> Map<
    Seq<char>,
    Seq<u8>,
> {
    db.insert(decode_utf8(key), value)
}

/// What the store holds under `key`, if anything.
pub open spec fn db_lookup(db: Map<Seq<char>, Seq<u8>>, key: Seq<char>) -> Option<Seq<u8>> {
    if db.contains_key(key) {
        Some(db[key])
    } else {
        None
    }
}

/// Whether `names` lists the keys of `peers`, each once.
pub open spec fn names_match<T>(names: Seq<String>, peers: Map<Seq<char>, T>) -> bool {
    &&& forall|i: int, j: int|
        0 <= i < j < names.len() ==> #[trigger] names[i]@ != #[trigger] names[j]@
    &&& forall|i: int| 0 <= i < names.len() ==> peers.contains_key(#[trigger] names[i]@)
    &&& forall|k: Seq<char>|
        #[trigger] peers.contains_key(k) ==> exists|i: int|
            0 <= i < names.len() && #[trigger] names[i]@ == k
}

/// The position of `name` in `names`.
fn find_name(names: &Vec<String>, name: &String) -> (r: Option<usize>)
    ensures
        match r {
            Some(i) => i < names@.len() && names@[i as int]@ == name@,
            None => forall|j: int| 0 <= j < names@.len() ==> #[trigger] names@[j]@ != name@,
        },
{
    let n = names.len();
    let mut i: usize = 0;
    while i < n
        invariant
            n == names@.len(),
            i <= n,
            forall|j: int| 0 <= j < i ==> #[trigger] names@[j]@ != name@,
        decreases n - i,
    {
        if names[i] == *name {
            return Some(i);
        }
        i = i + 1;
    }
    None
}

/// The shared state of the server. `T` is the handle through which a peer
/// is reached.
#[verifier::reject_recursive_types(T)]
pub struct Shared<T> {
    peers: StringHashMap<T>,
    /// The registered names, each once, in the order they were first
    /// registered.
    names: Vec<String>,
    db: StringHashMap<Vec<u8>>,
}

impl<T> Shared<T> {
    /// The list of names matches the registered peers, each name once.
    #[verifier::type_invariant]
    spec fn inv(&self) -> bool {
        names_match(self.names@, self.peers@)
    }

    /// The registered peers, by channel name.
    pub closed spec fn peers(&self) -> Map<Seq<char>, T> {
        self.peers@
    }

    /// The key-value store, each value by its bytes.
    pub closed spec fn db(&self) -> Map<Seq<char>, Seq<u8>> {
        self.db@.map_values(|v: Vec<u8>| v@)
    }

    /// An empty state: no peers, empty store.
    pub fn new() -> (s: Self)
        ensures
            s.peers() == Map::<Seq<char>, T>::empty(),
            s.db() == Map::<Seq<char>, Seq<u8>>::empty(),
    {
        let s = Shared { peers: StringHashMap::new(), names: Vec::new(), db: StringHashMap::new() };
        proof {
            assert(s.db@.map_values(|v: Vec<u8>| v@) =~= Map::<Seq<char>, Seq<u8>>::empty());
        }
        s
    }

    /// Takes the state out of `self`, leaving an empty one in its place.
    fn take(&mut self) -> (s: Self)
        ensures
            s == *old(self),
            names_match(s.names@, s.peers@),
    {
        proof {
            use_type_invariant(&*self);
        }
        let mut s = Shared::new();
        std::mem::swap(&mut s, self);
        s
    }

    /// Whether a peer is registered under `name`.
    pub fn has_peer(&self, name: &String) -> (r: bool)
        ensures
            r == self.peers().contains_key(name@),
    {
        self.peers.contains_key(name.as_str())
    }

    /// Registers the peer `tx` under `name`, replacing one registered under
    /// the same name. The store is left as it was.
    pub fn register_peer(&mut self, name: String, tx: T)
        ensures
            final(self).peers() == old(self).peers().insert(name@, tx),
            final(self).db() == old(self).db(),
    {
        let Shared { mut peers, mut names, db } = self.take();
        let ghost old_names = names@;
        let ghost old_peers = peers@;
        if !peers.contains_key(name.as_str()) {
            names.push(name.clone());
        }
        let ghost name_view = name@;
        peers.insert(name, tx);
        proof {
            assert forall|k: Seq<char>| #[trigger] peers@.contains_key(k) implies exists|i: int|
                0 <= i < names@.len() && #[trigger] names@[i]@ == k by {
                if k == name_view && !old_peers.contains_key(k) {
                    assert(names@[old_names.len() as int]@ == k);
                } else {
                    let i = choose|i: int| 0 <= i < old_names.len() && #[trigger] old_names[i]@ == k;
                    assert(names@[i]@ == k);
                }
            }
            assert forall|i: int| 0 <= i < names@.len() implies peers@.contains_key(
                #[trigger] names@[i]@,
            ) by {
                if i < old_names.len() {
                    assert(names@[i] == old_names[i]);
                }
            }
            assert forall|a: int, b: int|
                0 <= a < b < names@.len() implies #[trigger] names@[a]@ != #[trigger] names@[b]@ by {
                assert(names@[a] == old_names[a]);
                if b < old_names.len() {
                    assert(names@[b] == old_names[b]);
                }
            }
        }
        *self = Shared { peers, names, db };
    }

    /// Removes the peer registered under `name`, if any. The store is left as
    /// it was.
    pub fn remove_peer(&mut self, name: &String)
        ensures
            final(self).peers() == old(self).peers().remove(name@),
            final(self).db() == old(self).db(),
    {
        let Shared { mut peers, mut names, db } = self.take();
        let ghost old_names = names@;
        let ghost old_peers = peers@;
        match find_name(&names, name) {
            Some(i) => {
                names.remove(i);
                peers.remove(name.as_str());
                proof {
                    assert forall|j: int| 0 <= j < names@.len() implies peers@.contains_key(
                        #[trigger] names@[j]@,
                    ) by {
                        if j < i {
                            assert(names@[j] == old_names[j]);
                            assert(old_names[j]@ != old_names[i as int]@);
                        } else {
                            assert(names@[j] == old_names[j + 1]);
                            assert(old_names[j + 1]@ != old_names[i as int]@);
                        }
                    }
                    assert forall|k: Seq<char>| #[trigger] peers@.contains_key(k) implies exists|
                        j: int,
                    | 0 <= j < names@.len() && #[trigger] names@[j]@ == k by {
                        let j = choose|j: int| 0 <= j < old_names.len() && #[trigger] old_names[j]@ == k;
                        if j < i {
                            assert(names@[j]@ == k);
                        } else {
                            assert(j != i);
                            assert(names@[j - 1]@ == k);
                        }
                    }
                    assert forall|a: int, b: int|
                        0 <= a < b < names@.len() implies #[trigger] names@[a]@
                        != #[trigger] names@[b]@ by {
                        let a0 = if a < i { a } else { a + 1 };
                        let b0 = if b < i { b } else { b + 1 };
                        assert(names@[a] == old_names[a0]);
                        assert(names@[b] == old_names[b0]);
                    }
                }
            },
            None => {
                peers.remove(name.as_str());
                proof {
                    assert(!old_peers.contains_key(name@)) by {
                        if old_peers.contains_key(name@) {
                            let j = choose|j: int|
                                0 <= j < old_names.len() && #[trigger] old_names[j]@ == name@;
                        }
                    }
                    assert(peers@ =~= old_peers);
                }
            },
        }
        *self = Shared { peers, names, db };
    }

    /// The handle of the peer registered under `sender`, to route a message
    /// to it.
    pub fn do_route(&self, sender: &String) -> (tx: &T)
        requires
            self.peers().contains_key(sender@),
        ensures
            *tx == self.peers()[sender@],
    {
        self.peers.get(sender.as_str()).unwrap()
    }

    /// The names of all registered peers but `sender`, each once: the peers
    /// that a broadcast from `sender` reaches.
    pub fn do_boardcast(&self, sender: &String) -> (to: Vec<String>)
        ensures
            forall|i: int|
                0 <= i < to@.len() ==> #[trigger] to@[i]@ != sender@ && self.peers().contains_key(
                    to@[i]@,
                ),
            forall|k: Seq<char>|
                #[trigger] self.peers().contains_key(k) && k != sender@ ==> exists|i: int|
                    0 <= i < to@.len() && #[trigger] to@[i]@ == k,
            forall|i: int, j: int|
                0 <= i < j < to@.len() ==> #[trigger] to@[i]@ != #[trigger] to@[j]@,
    {
        proof {
            use_type_invariant(self);
        }
        let mut to: Vec<String> = Vec::new();
        let n = self.names.len();
        let mut i: usize = 0;
        let ghost mut from: Seq<int> = Seq::empty();
        while i < n
            invariant
                names_match(self.names@, self.peers@),
                n == self.names@.len(),
                i <= n,
                from.len() == to@.len(),
                forall|a: int|
                    0 <= a < to@.len() ==> 0 <= #[trigger] from[a] < i && to@[a]
                        == self.names@[from[a]],
                forall|a: int, b: int| 0 <= a < b < from.len() ==> #[trigger] from[a] < #[trigger] from[b],
                forall|a: int| 0 <= a < to@.len() ==> #[trigger] to@[a]@ != sender@,
                forall|a: int| 0 <= a < to@.len() ==> self.peers@.contains_key(#[trigger] to@[a]@),
                forall|j: int|
                    0 <= j < i && #[trigger] self.names@[j]@ != sender@ ==> exists|a: int|
                        0 <= a < to@.len() && #[trigger] from[a] == j,
            decreases n - i,
        {
            if self.names[i] != *sender {
                let ghost old_from = from;
                to.push(self.names[i].clone());
                proof {
                    from = from.push(i as int);
                    assert forall|j: int|
                        0 <= j < i + 1 && #[trigger] self.names@[j]@ != sender@ implies exists|a: int|
                        0 <= a < to@.len() && #[trigger] from[a] == j by {
                        if j < i {
                            let a = choose|a: int| 0 <= a < old_from.len() && #[trigger] old_from[a] == j;
                            assert(from[a] == j);
                        } else {
                            assert(from[old_from.len() as int] == j);
                        }
                    }
                }
            }
            i = i + 1;
        }
        proof {
            assert forall|k: Seq<char>|
                #[trigger] self.peers().contains_key(k) && k != sender@ implies exists|a: int|
                0 <= a < to@.len() && #[trigger] to@[a]@ == k by {
                let j = choose|j: int| 0 <= j < self.names@.len() && #[trigger] self.names@[j]@ == k;
                assert(self.names@[j]@ != sender@);
                let a = choose|a: int| 0 <= a < to@.len() && #[trigger] from[a] == j;
                assert(to@[a]@ == k);
            }
            assert forall|a: int, b: int| 0 <= a < b < to@.len() implies #[trigger] to@[a]@
                != #[trigger] to@[b]@ by {
                assert(from[a] < from[b]);
                assert(to@[a]@ == self.names@[from[a]]@);
                assert(to@[b]@ == self.names@[from[b]]@);
            }
        }
        to
    }

    /// Puts `value` under the key whose UTF-8 bytes are `key`, and returns
    /// that key as text. The peers are left as they were.
    pub fn do_put(&mut self, key: Vec<u8>, value: Vec<u8>) -> (k: String)
        requires
            valid_utf8(key@),
        ensures
            k@ == decode_utf8(key@),
            final(self).db() == db_after_put(old(self).db(), key@, value@),
            final(self).peers() == old(self).peers(),
    {
        let Shared { peers, names, mut db } = self.take();
        let ghost old_db = db@;
        let k = decode_text(key);
        let ghost value_view = value@;
        db.insert(k.clone(), value);
        proof {
            assert(db@.map_values(|v: Vec<u8>| v@) =~= old_db.map_values(|v: Vec<u8>| v@).insert(
                k@,
                value_view,
            ));
        }
        *self = Shared { peers, names, db };
        k
    }

    /// What the store holds under `key`.
    pub fn do_get(&self, key: String) -> (r: Option<&Vec<u8>>)
        ensures
            match r {
                Some(v) => db_lookup(self.db(), key@) == Some(v@),
                None => db_lookup(self.db(), key@) is None,
            },
    {
        self.db.get(key.as_str())
    }
}

/// A read of a key gives back what the last put under that key wrote, and a
/// put under one key leaves every other key as it was.
pub proof fn lemma_get_after_put(
    db: Map<Seq<char>, Seq<u8>>,
    key: Seq<u8>,
    value: Seq<u8>,
    other: Seq<char>,
)
    ensures
        db_lookup(db_after_put(db, key, value), decode_utf8(key)) == Some(value),
        other != decode_utf8(key) ==> db_lookup(db_after_put(db, key, value), other) == db_lookup(
            db,
            other,
        ),
{
}

/// A lookup reads the store: it finds exactly the keys the store holds, with
/// the value stored under each.
pub proof fn lemma_lookup_reads_store(db: Map<Seq<char>, Seq<u8>>, key: Seq<char>)
    ensures
        db_lookup(db, key) is Some <==> db.contains_key(key),
        db.contains_key(key) ==> db_lookup(db, key) == Some(db[key]),
{
}

} // verus!
