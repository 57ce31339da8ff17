//! What a connection decides as frames arrive.
//!
//! The first frame of a connection names its channel: the peer is registered
//! under that name and told that registration is done. After that, by type
//! number:
//! - 4 (route): the body is a channel name, a space and a message; the
//!   message is routed to that channel. A body without a space is ignored.
//! - 3 (put): bodies come in pairs, key then value; the second of a pair puts
//!   the value under the key and is answered `ok`.
//! - 1 (get): the body is a key, answered with the value stored under it.
//! - any other: reported as unknown.
//!
//! When the connection ends, the channel is told so and the peer is removed.
//! The functions here decide; the caller does the sending.

use crate::codec::route_bytes;
use crate::shared::{db_after_put, db_lookup, Shared};
use crate::text::{decode_text, is_utf8};
use vstd::prelude::*;
use vstd::slice::{slice_subrange, slice_to_vec};
use vstd::string::StringExecFns;
use vstd::utf8::{decode_utf8, valid_utf8};

verus! {

/// What the caller is to do after a decision.
pub enum Action {
    /// Nothing.
    Nothing,
    /// Send these bytes back on this connection.
    Reply(Vec<u8>),
    /// A value was stored under `key`; send `reply` back on this connection.
    Stored { key: String, reply: Vec<u8> },
    /// Send `message` to the peer registered under `to`.
    Route { to: String, message: String },
    /// Report a frame of an unknown type number.
    Unknown(u16),
}

/// The space byte that separates a channel name from a message.
pub open spec fn space() -> u8 {
    32
}

/// Whether `s` holds no space.
pub open spec fn space_free(s: Seq<u8>) -> bool {
    forall|j: int| 0 <= j < s.len() ==> s[j] != space()
}

/// Whether index `i` of `s` holds its first space.
pub open spec fn first_space_at(s: Seq<u8>, i: int) -> bool {
    &&& 0 <= i < s.len()
    &&& s[i] == space()
    &&& space_free(s.take(i))
}

/// A route body split at its first space: the channel name before it and the
/// message after it; `None` when there is no space.
pub open spec fn route_parts(s: Seq<u8>) -> Option<(Seq<u8>, Seq<u8>)> {
    if space_free(s) {
        None
    } else {
        let i = choose|i: int| first_space_at(s, i);
        Some((s.take(i), s.skip(i + 1)))
    }
}

/// The first space of a sequence is unique.
pub proof fn lemma_first_space_unique(s: Seq<u8>, i: int, k: int)
    requires
        first_space_at(s, i),
        first_space_at(s, k),
    ensures
        i == k,
{
    if i < k {
        assert(s.take(k)[i] == s[i]);
    } else if k < i {
        assert(s.take(i)[k] == s[k]);
    }
}

/// With its first space at `i`, a route body splits there.
pub proof fn lemma_route_parts_at(s: Seq<u8>, i: int)
    requires
        first_space_at(s, i),
    ensures
        route_parts(s) == Some((s.take(i), s.skip(i + 1))),
{
    assert(!space_free(s)) by {
        assert(s[i] == space());
    }
    let k = choose|k: int| first_space_at(s, k);
    lemma_first_space_unique(s, i, k);
}

/// Splits a route body at its first space.
pub fn split_route(body: &[u8]) -> (r: Option<(Vec<u8>, Vec<u8>)>)
    ensures
        match route_parts(body@) {
            None => r is None,
            Some((to, msg)) => r matches Some((t, m)) && t@ == to && m@ == msg,
        },
{
    let n = body.len();
    let mut i: usize = 0;
    while i < n
        invariant
            n == body@.len(),
            i <= n,
            space_free(body@.take(i as int)),
        decreases n - i,
    {
        if body[i] == 32u8 {
            let to = slice_to_vec(slice_subrange(body, 0, i));
            let msg = slice_to_vec(slice_subrange(body, i + 1, n));
            proof {
                assert(first_space_at(body@, i as int));
                lemma_route_parts_at(body@, i as int);
                assert(to@ =~= body@.take(i as int));
                assert(msg@ =~= body@.skip(i + 1));
            }
            return Some((to, msg));
        }
        proof {
            assert forall|j: int| 0 <= j < i + 1 implies #[trigger] body@.take(i + 1)[j] != space() by {
                if j < i {
                    assert(body@.take(i + 1)[j] == body@.take(i as int)[j]);
                }
            }
        }
        i = i + 1;
    }
    proof {
        assert(body@.take(n as int) =~= body@);
    }
    None
}

/// The bytes of the answer to a completed put.
pub open spec fn ok_bytes() -> Seq<u8> {
    seq![111u8, 107u8]
}

/// What is appended to a channel name to tell the channel it is registered.
pub open spec fn reg_done_suffix() -> Seq<char> {
    seq![' ', 'r', 'e', 'g', ' ', 'd', 'o', 'n', 'e', ' ', '!']
}

/// What is appended to a channel name to tell the channel it is leaving.
pub open spec fn unreg_suffix() -> Seq<char> {
    seq![' ', 'u', 'n', 'r', 'e', 'g']
}

/// Whether handling a frame runs to its end: route bodies split into UTF-8
/// parts, the key of a completed put is UTF-8, and a get names a UTF-8 key
/// that the store holds.
pub open spec fn frame_acceptable(
    merge_index: nat,
    pending_key: Seq<u8>,
    db: Map<Seq<char>, Seq<u8>>,
    frame_type: u16,
    body: Seq<u8>,
) -> bool {
    &&& frame_type == 4 ==> match route_parts(body) {
        None => true,
        Some((to, msg)) => valid_utf8(to) && valid_utf8(msg),
    }
    &&& frame_type == 3 && merge_index == 1 ==> valid_utf8(pending_key)
    &&& frame_type == 1 ==> valid_utf8(body) && db.contains_key(decode_utf8(body))
}

/// The state of one connection after it registered its channel.
pub struct Session {
    channel_name: String,
    /// Bodies of put frames: the key, then the value.
    msg_merge: Vec<Vec<u8>>,
    /// How many bodies of the current put have arrived.
    merge_index: usize,
}

impl Session {
    #[verifier::type_invariant]
    spec fn inv(&self) -> bool {
        &&& self.msg_merge@.len() == 2
        &&& self.merge_index < 2
    }

    /// The name of the connection's channel.
    pub closed spec fn channel(&self) -> Seq<char> {
        self.channel_name@
    }

    /// How many bodies of the current put have arrived: 0 or 1.
    pub closed spec fn merge_index(&self) -> nat {
        self.merge_index as nat
    }

    /// The key of the current put, once it has arrived.
    pub closed spec fn pending_key(&self) -> Seq<u8> {
        self.msg_merge@[0]@
    }

    /// The name of the connection's channel.
    pub fn channel_name(&self) -> (name: &String)
        ensures
            name@ == self.channel(),
    {
        &self.channel_name
    }

    /// Handles the first frame of a connection: its body names the channel,
    /// under which the peer `tx` is registered; the channel is then told that
    /// registration is done.
    pub fn open<T>(shared: &mut Shared<T>, entry: Vec<u8>, tx: T) -> (r: (Session, Action))
        requires
            valid_utf8(entry@),
        ensures
            r.0.channel() == decode_utf8(entry@),
            r.0.merge_index() == 0,
            r.0.pending_key() == Seq::<u8>::empty(),
            final(shared).peers() == old(shared).peers().insert(decode_utf8(entry@), tx),
            final(shared).db() == old(shared).db(),
            r.1 matches Action::Route { to, message } && to@ == decode_utf8(entry@) && message@
                == decode_utf8(entry@) + reg_done_suffix(),
    {
        let channel_name = decode_text(entry);
        shared.register_peer(channel_name.clone(), tx);
        let mut msg_merge: Vec<Vec<u8>> = Vec::new();
        msg_merge.push(Vec::new());
        msg_merge.push(Vec::new());
        let mut message = channel_name.clone();
        message.append(" reg done !");
        proof {
            reveal_strlit(" reg done !");
            assert(message@ =~= channel_name@ + reg_done_suffix());
        }
        let to = channel_name.clone();
        (Session { channel_name, msg_merge, merge_index: 0 }, Action::Route { to, message })
    }

    /// Whether `on_frame` can handle this frame.
    pub fn accepts<T>(&self, shared: &Shared<T>, frame_type: u16, body: &Vec<u8>) -> (r: bool)
        ensures
            r == frame_acceptable(
                self.merge_index(),
                self.pending_key(),
                shared.db(),
                frame_type,
                body@,
            ),
    {
        proof {
            use_type_invariant(self);
        }
        if frame_type == 4 {
            match split_route(body.as_slice()) {
                None => true,
                Some((to, msg)) => is_utf8(&to) && is_utf8(&msg),
            }
        } else if frame_type == 3 {
            if self.merge_index == 1 {
                is_utf8(&self.msg_merge[0])
            } else {
                true
            }
        } else if frame_type == 1 {
            if is_utf8(body) {
                let key = decode_text(body.clone());
                shared.do_get(key).is_some()
            } else {
                false
            }
        } else {
            true
        }
    }

    /// Handles a frame that arrives after registration.
    pub fn on_frame<T>(&mut self, shared: &mut Shared<T>, frame_type: u16, body: Vec<u8>) -> (r:
        Action)
        requires
            frame_acceptable(
                old(self).merge_index(),
                old(self).pending_key(),
                old(shared).db(),
                frame_type,
                body@,
            ),
        ensures
            final(shared).peers() == old(shared).peers(),
            final(self).channel() == old(self).channel(),
            frame_type == 4 ==> {
                &&& final(self).merge_index() == old(self).merge_index()
                &&& final(self).pending_key() == old(self).pending_key()
                &&& final(shared).db() == old(shared).db()
                &&& match route_parts(body@) {
                    None => r is Nothing,
                    Some((to, msg)) => r matches Action::Route { to: t, message: m } && t@
                        == decode_utf8(to) && m@ == decode_utf8(msg),
                }
            },
            frame_type == 3 && old(self).merge_index() == 0 ==> {
                &&& r is Nothing
                &&& final(self).merge_index() == 1
                &&& final(self).pending_key() == body@
                &&& final(shared).db() == old(shared).db()
            },
            frame_type == 3 && old(self).merge_index() == 1 ==> {
                &&& r matches Action::Stored { key, reply } && key@ == decode_utf8(
                    old(self).pending_key(),
                ) && reply@ == ok_bytes()
                &&& final(self).merge_index() == 0
                &&& final(shared).db() == db_after_put(
                    old(shared).db(),
                    old(self).pending_key(),
                    body@,
                )
            },
            frame_type == 1 ==> {
                &&& r matches Action::Reply(v) && db_lookup(old(shared).db(), decode_utf8(body@))
                    == Some(v@)
                &&& final(self).merge_index() == old(self).merge_index()
                &&& final(self).pending_key() == old(self).pending_key()
                &&& final(shared).db() == old(shared).db()
            },
            frame_type != 1 && frame_type != 3 && frame_type != 4 ==> {
                &&& r == Action::Unknown(frame_type)
                &&& final(self).merge_index() == old(self).merge_index()
                &&& final(self).pending_key() == old(self).pending_key()
                &&& final(shared).db() == old(shared).db()
            },
    {
        proof {
            use_type_invariant(&*self);
        }
        if frame_type == 4 {
            match split_route(body.as_slice()) {
                Some((to, msg)) => {
                    let to = decode_text(to);
                    let message = decode_text(msg);
                    Action::Route { to, message }
                },
                None => Action::Nothing,
            }
        } else if frame_type == 3 {
            if self.merge_index == 0 {
                let mut merge: Vec<Vec<u8>> = Vec::new();
                merge.push(body);
                merge.push(self.msg_merge[1].clone());
                self.msg_merge = merge;
                self.merge_index = 1;
                Action::Nothing
            } else {
                let ghost key = self.msg_merge@[0]@;
                let mut merge: Vec<Vec<u8>> = Vec::new();
                merge.push(self.msg_merge[0].clone());
                merge.push(body);
                self.msg_merge = merge;
                let k = self.msg_merge[0].clone();
                let v = self.msg_merge[1].clone();
                proof {
                    assert(k@ =~= key);
                    assert(v@ =~= body@);
                }
                let key = shared.do_put(k, v);
                self.merge_index = 0;
                let mut ok: Vec<u8> = Vec::new();
                ok.push(111u8);
                ok.push(107u8);
                proof {
                    assert(ok@ =~= ok_bytes());
                }
                Action::Stored { key, reply: ok }
            }
        } else if frame_type == 1 {
            let key = decode_text(body);
            let value = shared.do_get(key).unwrap();
            Action::Reply(value.clone())
        } else {
            Action::Unknown(frame_type)
        }
    }

    /// What the connection's end decides: the channel is told it is leaving.
    /// The caller then removes the peer.
    pub fn close(&self) -> (r: Action)
        ensures
            r matches Action::Route { to, message } && to@ == self.channel() && message@
                == self.channel() + unreg_suffix(),
    {
        let to = self.channel_name.clone();
        let mut message = self.channel_name.clone();
        message.append(" unreg");
        proof {
            reveal_strlit(" unreg");
            assert(message@ =~= self.channel_name@ + unreg_suffix());
        }
        Action::Route { to, message }
    }
}

/// A route body that a client builds from a channel name without spaces
/// splits back into that name and the message.
pub proof fn lemma_route_round_trip(to: Seq<u8>, msg: Seq<u8>)
    requires
        space_free(to),
    ensures
        route_parts(route_bytes(to, msg)) == Some((to, msg)),
{
    let s = route_bytes(to, msg);
    let i = to.len() as int;
    assert(s.take(i) =~= to);
    assert(s.skip(i + 1) =~= msg);
    assert(first_space_at(s, i));
    lemma_route_parts_at(s, i);
}

/// Two put frames, key then value, followed by a get frame for the same key,
/// are all handled, and the get is answered with the value: the pair of puts
/// leaves the store as `db_after_put` says, and a lookup of the key there
/// gives the value.
pub proof fn lemma_put_then_get(db: Map<Seq<char>, Seq<u8>>, key: Seq<u8>, value: Seq<u8>)
    requires
        valid_utf8(key),
    ensures
        frame_acceptable(0, key, db, 3, key),
        frame_acceptable(1, key, db, 3, value),
        frame_acceptable(0, key, db_after_put(db, key, value), 1, key),
        db_lookup(db_after_put(db, key, value), decode_utf8(key)) == Some(value),
{
}

/// A route frame whose body is a channel name without spaces, a space and a
/// message is split into that name and that whole message (spaces in the
/// message included), and with UTF-8 name and message it is handled in every
/// session state, whatever the store holds.
pub proof fn lemma_route_frame_accepted(
    merge_index: nat,
    pending_key: Seq<u8>,
    db: Map<Seq<char>, Seq<u8>>,
    to: Seq<u8>,
    msg: Seq<u8>,
)
    requires
        space_free(to),
    ensures
        route_parts(to + seq![32u8] + msg) == Some((to, msg)),
        valid_utf8(to) && valid_utf8(msg) ==> frame_acceptable(
            merge_index,
            pending_key,
            db,
            4,
            to + seq![32u8] + msg,
        ),
{
    let s = to + seq![32u8] + msg;
    let i = to.len() as int;
    assert(s.take(i) =~= to);
    assert(s.skip(i + 1) =~= msg);
    assert(first_space_at(s, i));
    lemma_route_parts_at(s, i);
}

/// A route frame whose body holds no space is handled, as nothing to route,
/// in every session state.
pub proof fn lemma_route_without_space_accepted(
    merge_index: nat,
    pending_key: Seq<u8>,
    db: Map<Seq<char>, Seq<u8>>,
    body: Seq<u8>,
)
    requires
        forall|j: int| 0 <= j < body.len() ==> body[j] != 32u8,
    ensures
        route_parts(body) is None,
        frame_acceptable(merge_index, pending_key, db, 4, body),
{
}

/// A get frame naming, in UTF-8, a key that the store holds is handled in
/// every session state: the store is shared, and what this connection has
/// put or half put plays no part.
pub proof fn lemma_get_frame_accepted(
    merge_index: nat,
    pending_key: Seq<u8>,
    db: Map<Seq<char>, Seq<u8>>,
    body: Seq<u8>,
)
    requires
        valid_utf8(body),
        db.contains_key(decode_utf8(body)),
    ensures
        frame_acceptable(merge_index, pending_key, db, 1, body),
{
}

/// The key frame of a put is handled whatever its body, whatever the key of
/// an earlier put and whatever the store holds; the value frame is handled
/// whenever the key is UTF-8.
pub proof fn lemma_put_frames_accepted(
    pending_key: Seq<u8>,
    db: Map<Seq<char>, Seq<u8>>,
    body: Seq<u8>,
)
    ensures
        frame_acceptable(0, pending_key, db, 3, body),
        valid_utf8(pending_key) ==> frame_acceptable(1, pending_key, db, 3, body),
{
}

/// Frames of any type number other than 1, 3 and 4 are handled in every
/// session state.
pub proof fn lemma_other_frames_accepted(
    merge_index: nat,
    pending_key: Seq<u8>,
    db: Map<Seq<char>, Seq<u8>>,
    frame_type: u16,
    body: Seq<u8>,
)
    requires
        frame_type != 1 && frame_type != 3 && frame_type != 4,
    ensures
        frame_acceptable(merge_index, pending_key, db, frame_type, body),
{
}

/// The texts the connection sends: a completed put is answered `ok`, and a
/// channel is told ` reg done !` after its name on registration and
/// ` unreg` after its name when it leaves.
pub proof fn lemma_session_texts()
    ensures
        ok_bytes() == seq!['o' as u8, 'k' as u8],
        reg_done_suffix() == " reg done !"@,
        unreg_suffix() == " unreg"@,
{
    reveal_strlit(" reg done !");
    reveal_strlit(" unreg");
    assert(ok_bytes() =~= seq!['o' as u8, 'k' as u8]);
    assert(reg_done_suffix() =~= " reg done !"@);
    assert(unreg_suffix() =~= " unreg"@);
}

} // verus!
