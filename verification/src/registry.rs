//! The session registry: the one piece of cross-cutting shared state.  It
//! maps each connected client's id to the sending half of that session's
//! outbound channel.  Ids are handed out by a monotonic counter starting at
//! one and are never reused; an entry is added when a session opens and
//! removed, unconditionally, when it closes.  Broadcast pushes a frame to
//! every registered client, relay to every registered client but the
//! sender; both are best-effort and return the ids they delivered to.

use vstd::prelude::*;

use tokio::sync::mpsc::UnboundedSender;

verus! {

#[verifier::external_type_specification]
#[verifier::external_body]
#[verifier::reject_recursive_types(T)]
pub struct ExUnboundedSender<T>(UnboundedSender<T>);

/// Relies on tokio's `UnboundedSender::send`: it never blocks or panics,
/// and fails exactly when the receiving half is gone.  Nothing of the
/// channel is observable from the sending side, so nothing more is stated.
#[verifier::external_body]
fn send_frame(tx: &UnboundedSender<Vec<u8>>, frame: Vec<u8>) -> (ok: bool) {
    tx.send(frame).is_ok()
}

/// A fresh copy of a frame's bytes.
fn copy_frame(frame: &Vec<u8>) -> (r: Vec<u8>)
    ensures
        r@ == frame@,
{
    let mut v: Vec<u8> = Vec::new();
    v.extend_from_slice(frame.as_slice());
    proof {
        assert(v@ =~= frame@);
    }
    v
}

/// The ids that a relay from `sender` reaches: every id in `ids`, in order,
/// except `sender` itself.
pub open spec fn spec_recipients(ids: Seq<u64>, sender: u64) -> Seq<u64>
    decreases ids.len(),
{
    if ids.len() == 0 {
        Seq::<u64>::empty()
    } else {
        let rest = spec_recipients(ids.drop_first(), sender);
        if ids[0] == sender {
            rest
        } else {
            seq![ids[0]] + rest
        }
    }
}

/// Relay isolation: a relay never reaches the sender, and when the
/// registered ids are distinct it reaches every other registered id exactly
/// once (the recipient list is duplicate-free and holds exactly the other
/// ids).
pub proof fn lemma_relay_isolation(ids: Seq<u64>, sender: u64)
    ensures
        !spec_recipients(ids, sender).contains(sender),
        forall|c: u64|
            c != sender ==> (#[trigger] spec_recipients(ids, sender).contains(c) <==> ids.contains(
                c,
            )),
        ids.no_duplicates() ==> spec_recipients(ids, sender).no_duplicates(),
    decreases ids.len(),
{
    if ids.len() == 0 {
    } else {
        let rest = ids.drop_first();
        lemma_relay_isolation(rest, sender);
        assert forall|c: u64| c != sender implies (#[trigger] spec_recipients(ids, sender).contains(
            c,
        ) <==> ids.contains(c)) by {
            let r = spec_recipients(ids, sender);
            let sub = spec_recipients(rest, sender);
            if ids.contains(c) {
                let i = choose|i: int| 0 <= i < ids.len() && ids[i] == c;
                if i == 0 {
                    assert(r[0] == c);
                } else {
                    assert(rest[i - 1] == c);
                    assert(rest.contains(c));
                    assert(sub.contains(c));
                    let j = choose|j: int| 0 <= j < sub.len() && sub[j] == c;
                    if ids[0] == sender {
                        assert(r[j] == c);
                    } else {
                        assert(r[j + 1] == c);
                    }
                }
            }
            if r.contains(c) {
                let j = choose|j: int| 0 <= j < r.len() && r[j] == c;
                if ids[0] == sender {
                    assert(sub[j] == c);
                    assert(sub.contains(c));
                    assert(rest.contains(c));
                    let k = choose|k: int| 0 <= k < rest.len() && rest[k] == c;
                    assert(ids[k + 1] == c);
                } else if j == 0 {
                    assert(ids[0] == c);
                } else {
                    assert(sub[j - 1] == c);
                    assert(sub.contains(c));
                    assert(rest.contains(c));
                    let k = choose|k: int| 0 <= k < rest.len() && rest[k] == c;
                    assert(ids[k + 1] == c);
                }
            }
        }
        if ids.no_duplicates() {
            assert forall|i: int| 1 <= i < ids.len() implies ids[0] != #[trigger] rest[i - 1] by {}
            assert(rest.no_duplicates());
            if ids[0] != sender {
                assert(!rest.contains(ids[0]));
                assert(!spec_recipients(rest, sender).contains(ids[0]));
                let r = spec_recipients(ids, sender);
                assert forall|i: int, j: int| 0 <= i < j < r.len() implies r[i] != r[j] by {
                    if i == 0 {
                        assert(r[j] == spec_recipients(rest, sender)[j - 1]);
                        assert(spec_recipients(rest, sender).contains(r[j]));
                    } else {
                        assert(r[i] == spec_recipients(rest, sender)[i - 1]);
                        assert(r[j] == spec_recipients(rest, sender)[j - 1]);
                    }
                }
            }
        }
    }
}

/// A connect/disconnect cycle leaves the registered set as it was: adding a
/// fresh id and then removing it returns exactly the original ids, whatever
/// else is registered.
pub proof fn lemma_register_deregister_cycle(ids: Seq<u64>, id: u64)
    requires
        !ids.contains(id),
    ensures
        ids.push(id).remove_value(id) == ids,
{
    let pushed = ids.push(id);
    pushed.index_of_first_ensures(id);
    assert(pushed[ids.len() as int] == id);
    assert(pushed.contains(id));
    let i = pushed.index_of_first(id)->Some_0;
    if i < ids.len() {
        assert(pushed[i] == ids[i]);
        assert(ids.contains(id));
    }
    assert(i == ids.len());
    assert(pushed.remove(i) =~= ids);
}

/// The registry of connected sessions: each registered client's id beside
/// the sending half of its outbound channel.
pub struct SessionRegistry {
    next_id: u64,
    ids: Vec<u64>,
    senders: Vec<UnboundedSender<Vec<u8>>>,
}

impl SessionRegistry {
    /// The registered client ids, oldest first.
    pub closed spec fn client_ids(self) -> Seq<u64> {
        self.ids@
    }

    /// The id the next connection will get.
    pub closed spec fn spec_next_id(self) -> u64 {
        self.next_id
    }

    /// Well-formed: one sender per id, no id registered twice, ids start at
    /// one and stay below the counter (so a fresh id is never in use).
    pub closed spec fn wf(self) -> bool {
        &&& self.ids@.len() == self.senders@.len()
        &&& self.ids@.no_duplicates()
        &&& self.next_id >= 1
        &&& forall|i: int| 0 <= i < self.ids@.len() ==> #[trigger] self.ids@[i] < self.next_id
    }

    /// An empty registry; the first client will get id 1.
    pub fn new() -> (r: SessionRegistry)
        ensures
            r.wf(),
            r.client_ids() == Seq::<u64>::empty(),
            r.spec_next_id() == 1,
    {
        let r = SessionRegistry { next_id: 1, ids: Vec::new(), senders: Vec::new() };
        proof {
            assert(r.client_ids() =~= Seq::<u64>::empty());
        }
        r
    }

    /// Whether another client can still be registered (the id counter has
    /// room).
    pub fn can_register(&self) -> (r: bool)
        ensures
            r == (self.spec_next_id() < u64::MAX),
    {
        self.next_id < u64::MAX
    }

    /// Register a newly connected client: allocate the next id and store the
    /// sending half of the session's outbound channel under it.  The id is
    /// fresh: it was never registered before.
    pub fn register(&mut self, tx: UnboundedSender<Vec<u8>>) -> (id: u64)
        requires
            old(self).wf(),
            old(self).spec_next_id() < u64::MAX,
        ensures
            final(self).wf(),
            id == old(self).spec_next_id(),
            !old(self).client_ids().contains(id),
            final(self).client_ids() == old(self).client_ids().push(id),
            final(self).spec_next_id() == id + 1,
    {
        let id = self.next_id;
        self.next_id = self.next_id + 1;
        self.ids.push(id);
        self.senders.push(tx);
        proof {
            assert forall|i: int, j: int|
                0 <= i < j < self.ids@.len() implies self.ids@[i] != self.ids@[j] by {
                if j < old(self).ids@.len() {
                    assert(old(self).ids@[i] != old(self).ids@[j]);
                }
            }
            if old(self).client_ids().contains(id) {
                let i = choose|i: int|
                    0 <= i < old(self).ids@.len() && old(self).ids@[i] == id;
                assert(old(self).ids@[i] < id);
            }
        }
        id
    }

    /// Remove a client's entry, if it is there: the one way entries leave
    /// the registry, taken unconditionally when the session's loop exits.
    pub fn deregister(&mut self, id: u64)
        requires
            old(self).wf(),
        ensures
            final(self).wf(),
            final(self).client_ids() == old(self).client_ids().remove_value(id),
            !final(self).client_ids().contains(id),
            final(self).spec_next_id() == old(self).spec_next_id(),
    {
        let n = self.ids.len();
        let mut i: usize = 0;
        while i < n
            invariant
                old(self).wf(),
                *self == *old(self),
                n == self.ids@.len(),
                i <= n,
                forall|j: int| 0 <= j < i ==> self.ids@[j] != id,
            decreases n - i,
        {
            if self.ids[i] == id {
                self.ids.remove(i);
                self.senders.remove(i);
                proof {
                    old(self).ids@.index_of_first_ensures(id);
                    assert(old(self).ids@.index_of_first(id) == Some(i as int));
                    assert(self.ids@.no_duplicates()) by {
                        assert forall|a: int, b: int|
                            0 <= a < b < self.ids@.len() implies self.ids@[a] != self.ids@[b] by {
                            assert(self.ids@[a] == if a < i {
                                old(self).ids@[a]
                            } else {
                                old(self).ids@[a + 1]
                            });
                            assert(self.ids@[b] == if b < i {
                                old(self).ids@[b]
                            } else {
                                old(self).ids@[b + 1]
                            });
                        }
                    }
                    assert(!self.client_ids().contains(id)) by {
                        if self.client_ids().contains(id) {
                            let a = choose|a: int|
                                0 <= a < self.ids@.len() && self.ids@[a] == id;
                            assert(self.ids@[a] == if a < i {
                                old(self).ids@[a]
                            } else {
                                old(self).ids@[a + 1]
                            });
                            if a >= i {
                                assert(old(self).ids@[a + 1] == id);
                                assert(old(self).ids@[i as int] == id);
                            }
                        }
                    }
                }
                return ;
            }
            i += 1;
        }
        proof {
            assert(!old(self).client_ids().contains(id));
            old(self).ids@.index_of_first_ensures(id);
        }
    }

    /// How many clients are registered.
    pub fn client_count(&self) -> (n: usize)
        ensures
            n == self.client_ids().len(),
    {
        self.ids.len()
    }

    /// Push one encoded frame to every registered client, best-effort: a
    /// failed send (the session is gone) affects nobody else.  Returns the
    /// ids the frame was offered to: every registered client, each exactly
    /// once, in order.
    pub fn broadcast_frame(&self, frame: &Vec<u8>) -> (sent: Vec<u64>)
        requires
            self.wf(),
        ensures
            sent@ == self.client_ids(),
    {
        let mut sent: Vec<u64> = Vec::new();
        let n = self.ids.len();
        let mut i: usize = 0;
        while i < n
            invariant
                self.wf(),
                n == self.ids@.len(),
                i <= n,
                sent@ == self.ids@.subrange(0, i as int),
            decreases n - i,
        {
            let _delivered = send_frame(&self.senders[i], copy_frame(frame));
            sent.push(self.ids[i]);
            i += 1;
            proof {
                assert(sent@ =~= self.ids@.subrange(0, i as int));
            }
        }
        proof {
            assert(self.ids@.subrange(0, n as int) =~= self.ids@);
        }
        sent
    }

    /// Push one encoded frame to every registered client except `sender`,
    /// best-effort.  Returns the ids the frame was offered to: exactly the
    /// other registered clients, in order.
    pub fn relay_frame(&self, sender: u64, frame: &Vec<u8>) -> (sent: Vec<u64>)
        requires
            self.wf(),
        ensures
            sent@ == spec_recipients(self.client_ids(), sender),
    {
        let mut sent: Vec<u64> = Vec::new();
        let n = self.ids.len();
        let mut i: usize = 0;
        proof {
            assert(self.ids@.skip(0) =~= self.ids@);
        }
        while i < n
            invariant
                self.wf(),
                n == self.ids@.len(),
                i <= n,
                sent@ + spec_recipients(self.ids@.skip(i as int), sender) == spec_recipients(
                    self.ids@,
                    sender,
                ),
            decreases n - i,
        {
            let ghost pre = sent@;
            let ghost remaining = self.ids@.skip(i as int);
            proof {
                assert(remaining[0] == self.ids@[i as int]);
                assert(remaining.drop_first() =~= self.ids@.skip(i as int + 1));
            }
            if self.ids[i] != sender {
                let _delivered = send_frame(&self.senders[i], copy_frame(frame));
                sent.push(self.ids[i]);
                proof {
                    assert(sent@ + spec_recipients(self.ids@.skip(i as int + 1), sender) =~= pre
                        + spec_recipients(remaining, sender));
                }
            } else {
                proof {
                    assert(spec_recipients(remaining, sender) == spec_recipients(
                        self.ids@.skip(i as int + 1),
                        sender,
                    ));
                }
            }
            i += 1;
        }
        proof {
            assert(self.ids@.skip(n as int) =~= Seq::<u64>::empty());
            assert(sent@ + Seq::<u64>::empty() =~= sent@);
        }
        sent
    }
}

} // verus!
