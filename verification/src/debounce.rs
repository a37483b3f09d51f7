//! The debounce store: a map from a changed path's key to the timestamp of
//! the last accepted notification for it.  A notification is accepted when
//! its key is new or when more than the debounce window has passed since the
//! last accepted one; acceptance refreshes the stored timestamp, suppression
//! leaves it untouched.  Entries are never pruned.

use vstd::prelude::*;

use crate::strutil::str_eq;

verus! {

/// The default debounce window, in milliseconds.
pub const DEFAULT_DEBOUNCE_WINDOW_MS: u64 = 250;

/// A notification for key `k` at time `now` is accepted against the store
/// contents `m`: either `k` was never accepted, or more than `window` has
/// passed since the last accepted time.
pub open spec fn spec_accepts(m: Map<Seq<char>, u64>, k: Seq<char>, now: u64, window: u64) -> bool {
    !m.dom().contains(k) || (now as int) > (m[k] as int) + (window as int)
}

/// The store contents after a call for key `k` at `now`: refreshed to `now`
/// on acceptance, unchanged on suppression.
pub open spec fn spec_after(m: Map<Seq<char>, u64>, k: Seq<char>, now: u64, window: u64) -> Map<
    Seq<char>,
    u64,
> {
    if spec_accepts(m, k, now, window) {
        m.insert(k, now)
    } else {
        m
    }
}

/// Map from a change key (the absolute changed-path string) to the time, in
/// milliseconds of the caller's clock, of the last accepted notification.
pub struct DebounceStore {
    keys: Vec<String>,
    times: Vec<u64>,
}

impl DebounceStore {
    /// One stored key equals `k`.
    pub closed spec fn has_key(self, k: Seq<char>) -> bool {
        exists|i: int| 0 <= i < self.keys@.len() && self.keys@[i]@ == k
    }

    /// The index at which `k` is stored.
    pub closed spec fn key_index(self, k: Seq<char>) -> int {
        choose|i: int| 0 <= i < self.keys@.len() && self.keys@[i]@ == k
    }

    /// Each key is stored at most once, with one timestamp apiece.
    pub closed spec fn wf(self) -> bool {
        &&& self.keys@.len() == self.times@.len()
        &&& forall|i: int, j: int|
            0 <= i < j < self.keys@.len() ==> self.keys@[i]@ != self.keys@[j]@
    }

    /// The store as a map from key to last accepted time.
    pub closed spec fn view(self) -> Map<Seq<char>, u64> {
        Map::new(|k: Seq<char>| self.has_key(k), |k: Seq<char>| self.times@[self.key_index(k)])
    }

    proof fn lemma_key_index(self, k: Seq<char>, i: int)
        requires
            self.wf(),
            0 <= i < self.keys@.len(),
            self.keys@[i]@ == k,
        ensures
            self.key_index(k) == i,
            self@.dom().contains(k),
            self@[k] == self.times@[i],
    {
        let j = self.key_index(k);
        assert(0 <= j < self.keys@.len() && self.keys@[j]@ == k);
        if i < j {
            assert(self.keys@[i]@ != self.keys@[j]@);
        } else if j < i {
            assert(self.keys@[j]@ != self.keys@[i]@);
        }
    }

    /// An empty store.
    pub fn new() -> (s: DebounceStore)
        ensures
            s.wf(),
            s@ == Map::<Seq<char>, u64>::empty(),
    {
        let s = DebounceStore { keys: Vec::new(), times: Vec::new() };
        proof {
            assert(s@ =~= Map::<Seq<char>, u64>::empty());
        }
        s
    }

    /// Decide whether a notification for `key` at time `now` is accepted,
    /// refreshing the stored timestamp exactly when it is.
    pub fn accept(&mut self, key: &str, now: u64, window: u64) -> (r: bool)
        requires
            old(self).wf(),
        ensures
            final(self).wf(),
            r == spec_accepts(old(self)@, key@, now, window),
            final(self)@ == spec_after(old(self)@, key@, now, window),
    {
        let n = self.keys.len();
        let mut i: usize = 0;
        while i < n
            invariant
                old(self).wf(),
                n == self.keys@.len(),
                i <= n,
                *self == *old(self),
                forall|j: int| 0 <= j < i ==> self.keys@[j]@ != key@,
            decreases n - i,
        {
            if str_eq(self.keys[i].as_str(), key) {
                proof {
                    self.lemma_key_index(key@, i as int);
                }
                let last = self.times[i];
                let accepted = match last.checked_add(window) {
                    Some(limit) => now > limit,
                    None => false,
                };
                if accepted {
                    self.times[i] = now;
                    proof {
                        assert(self.wf());
                        assert(self.keys@[i as int]@ == key@);
                        assert forall|k2: Seq<char>| #[trigger]
                            self.has_key(k2) implies old(self).has_key(k2) && self@[k2] == old(self)@.insert(key@, now)[k2] by {
                            let j = choose|j: int|
                                0 <= j < self.keys@.len() && self.keys@[j]@ == k2;
                            assert(old(self).keys@[j]@ == k2);
                            self.lemma_key_index(k2, j);
                            old(self).lemma_key_index(k2, j);
                            if k2 == key@ {
                                self.lemma_key_index(k2, i as int);
                            }
                        }
                        assert forall|k2: Seq<char>| #[trigger]
                            old(self).has_key(k2) implies self.has_key(k2) by {
                            let j = choose|j: int|
                                0 <= j < old(self).keys@.len() && old(self).keys@[j]@ == k2;
                            assert(self.keys@[j]@ == k2);
                        }
                        assert(self@.dom() =~= old(self)@.insert(key@, now).dom());
                        assert(self@ =~= old(self)@.insert(key@, now));
                    }
                }
                return accepted;
            }
            i += 1;
        }
        assert(!old(self).has_key(key@));
        let owned = key.to_owned();
        let ghost len = self.keys@.len();
        self.keys.push(owned);
        self.times.push(now);
        proof {
            assert(self.keys@[len as int]@ == key@);
            assert forall|i2: int, j2: int|
                0 <= i2 < j2 < self.keys@.len() implies self.keys@[i2]@ != self.keys@[j2]@ by {
                if j2 < len {
                    assert(old(self).keys@[i2]@ != old(self).keys@[j2]@);
                } else {
                    assert(self.keys@[j2]@ == key@);
                    assert(old(self).keys@[i2]@ != key@);
                }
            }
            assert(self.wf());
            assert forall|k2: Seq<char>| #[trigger]
                self.has_key(k2) implies self@[k2] == old(self)@.insert(key@, now)[k2] by {
                let j = choose|j: int| 0 <= j < self.keys@.len() && self.keys@[j]@ == k2;
                self.lemma_key_index(k2, j);
                if j < len {
                    old(self).lemma_key_index(k2, j);
                }
            }
            assert forall|k2: Seq<char>| #[trigger]
                old(self).has_key(k2) implies self.has_key(k2) by {
                let j = choose|j: int| 0 <= j < old(self).keys@.len() && old(self).keys@[j]@ == k2;
                assert(self.keys@[j]@ == k2);
            }
            assert(self@.dom() =~= old(self)@.insert(key@, now).dom());
            assert(self@ =~= old(self)@.insert(key@, now));
        }
        true
    }
}

/// Within the debounce window only the first notification for a key is
/// accepted; two notifications separated by more than the window are both
/// accepted.  `m` is any store contents not yet holding the key `k`, `t1`
/// the first notification's time and `t2` the second's.
pub proof fn lemma_debounce_window(
    m: Map<Seq<char>, u64>,
    k: Seq<char>,
    t1: u64,
    t2: u64,
    window: u64,
)
    requires
        !m.dom().contains(k),
    ensures
        spec_accepts(m, k, t1, window),
        (t2 as int) <= (t1 as int) + (window as int) ==> !spec_accepts(
            spec_after(m, k, t1, window),
            k,
            t2,
            window,
        ),
        (t2 as int) > (t1 as int) + (window as int) ==> spec_accepts(
            spec_after(m, k, t1, window),
            k,
            t2,
            window,
        ),
{
}

} // verus!
