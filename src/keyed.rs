//! The per-client gate: one quota bucket per client key.
use vstd::prelude::*;
use crate::quota::{QuotaBucket, QuotaConfig, effective_time, room_at, lemma_bucket_window_bound};

verus! {

/// One client's bucket.
pub struct ClientBucket {
    key: u128,
    bucket: QuotaBucket,
}

/// One bucket per client key, made on the client's first call.
pub struct KeyedQuota {
    config: QuotaConfig,
    clients: Vec<ClientBucket>,
}

impl KeyedQuota {
    pub closed spec fn quota(&self) -> QuotaConfig {
        self.config
    }

    pub closed spec fn holds_key(&self, key: u128) -> bool {
        exists|i: int| 0 <= i < self.clients@.len() && #[trigger] self.clients@[i].key == key
    }

    /// Every admission granted to `key` so far, in order.
    pub closed spec fn admitted_for(&self, key: u128) -> Seq<u64> {
        if self.holds_key(key) {
            let i = choose|i: int| 0 <= i < self.clients@.len() && #[trigger] self.clients@[i].key == key;
            self.clients@[i].bucket.admitted()
        } else {
            Seq::empty()
        }
    }

    pub closed spec fn wf(&self) -> bool {
        &&& self.config.capacity > 0
        &&& forall|i: int, j: int| 0 <= i < j < self.clients@.len()
            ==> #[trigger] self.clients@[i].key != #[trigger] self.clients@[j].key
        &&& forall|i: int| 0 <= i < self.clients@.len() ==> {
            &&& (#[trigger] self.clients@[i]).bucket.wf()
            &&& self.clients@[i].bucket.quota() == self.config
        }
    }

    proof fn lemma_at(&self, i: int)
        requires
            self.wf(),
            0 <= i < self.clients@.len(),
        ensures
            self.holds_key(self.clients@[i].key),
            self.admitted_for(self.clients@[i].key) == self.clients@[i].bucket.admitted(),
    {
        let key = self.clients@[i].key;
        assert(self.holds_key(key));
        let k = choose|k: int| 0 <= k < self.clients@.len() && #[trigger] self.clients@[k].key == key;
        if k != i {
            if k < i {
                assert(self.clients@[k].key != self.clients@[i].key);
            } else {
                assert(self.clients@[i].key != self.clients@[k].key);
            }
        }
    }

    pub fn new(config: QuotaConfig) -> (q: KeyedQuota)
        requires
            config.capacity > 0,
        ensures
            q.wf(),
            q.quota() == config,
            forall|key: u128| #[trigger] q.admitted_for(key) == Seq::<u64>::empty(),
    {
        KeyedQuota { config, clients: Vec::new() }
    }

    /// Non-blocking check of `key`'s own bucket at `now`: admit and record
    /// the call if that bucket has room, else refuse it at once. Other
    /// clients' buckets are untouched.
    pub fn check_key(&mut self, key: u128, now: u64) -> (admitted: bool)
        requires
            old(self).wf(),
        ensures
            final(self).wf(),
            final(self).quota() == old(self).quota(),
            ({
                let h = old(self).admitted_for(key);
                let t = effective_time(h, now);
                &&& admitted == room_at(h, old(self).quota().capacity as nat,
                    old(self).quota().window_ms as nat, t as int)
                &&& final(self).admitted_for(key) == if admitted { h.push(t) } else { h }
            }),
            forall|k: u128| k != key ==> #[trigger] final(self).admitted_for(k) == old(self).admitted_for(k),
    {
        let ghost pre = *self;
        let n = self.clients.len();
        let mut i: usize = 0;
        let mut found = false;
        while i < n && !found
            invariant
                n == self.clients@.len(),
                *self == pre,
                pre.wf(),
                i <= n,
                found ==> i < n && self.clients@[i as int].key == key,
                !found ==> forall|k: int| 0 <= k < i ==> #[trigger] self.clients@[k].key != key,
            decreases n - i + (if found { 0int } else { 1int }),
        {
            if self.clients[i].key == key {
                found = true;
            } else {
                i = i + 1;
            }
        }
        if found {
            proof {
                pre.lemma_at(i as int);
                assert(self.clients@[i as int].bucket.wf());
            }
            let ghost others = self.clients@;
            let admitted = self.clients[i].bucket.try_admit(now);
            proof {
                assert(self.clients@ == others.update(i as int, self.clients@[i as int]));
                assert forall|a: int, b: int| 0 <= a < b < self.clients@.len()
                    implies #[trigger] self.clients@[a].key != #[trigger] self.clients@[b].key by {
                    assert(others[a].key != others[b].key);
                }
                assert forall|a: int| 0 <= a < self.clients@.len() implies {
                    &&& (#[trigger] self.clients@[a]).bucket.wf()
                    &&& self.clients@[a].bucket.quota() == self.config
                } by {
                    if a != i {
                        assert(self.clients@[a] == others[a]);
                    }
                }
                self.lemma_at(i as int);
                assert(self.config == pre.config);
                assert(others[i as int].bucket == pre.clients@[i as int].bucket);
                assert(self.admitted_for(key) == self.clients@[i as int].bucket.admitted());
                assert(pre.admitted_for(key) == pre.clients@[i as int].bucket.admitted());
                assert forall|k: u128| k != key implies #[trigger] self.admitted_for(k) == pre.admitted_for(k) by {
                    if pre.holds_key(k) {
                        let a = choose|a: int| 0 <= a < pre.clients@.len() && #[trigger] pre.clients@[a].key == k;
                        pre.lemma_at(a);
                        assert(self.clients@[a] == others[a]);
                        self.lemma_at(a);
                    } else {
                        if self.holds_key(k) {
                            let a = choose|a: int| 0 <= a < self.clients@.len() && #[trigger] self.clients@[a].key == k;
                            assert(pre.clients@[a].key == k);
                        }
                    }
                }
            }
            admitted
        } else {
            let mut bucket = QuotaBucket::new(self.config);
            let admitted = bucket.try_admit(now);
            let ghost others = self.clients@;
            self.clients.push(ClientBucket { key, bucket });
            proof {
                assert(!pre.holds_key(key));
                assert forall|a: int, b: int| 0 <= a < b < self.clients@.len()
                    implies #[trigger] self.clients@[a].key != #[trigger] self.clients@[b].key by {
                    if b < others.len() {
                        assert(others[a].key != others[b].key);
                    }
                }
                assert forall|a: int| 0 <= a < self.clients@.len() implies {
                    &&& (#[trigger] self.clients@[a]).bucket.wf()
                    &&& self.clients@[a].bucket.quota() == self.config
                } by {
                    if a < others.len() {
                        assert(self.clients@[a] == others[a]);
                    }
                }
                self.lemma_at(n as int);
                assert forall|k: u128| k != key implies #[trigger] self.admitted_for(k) == pre.admitted_for(k) by {
                    if pre.holds_key(k) {
                        let a = choose|a: int| 0 <= a < pre.clients@.len() && #[trigger] pre.clients@[a].key == k;
                        pre.lemma_at(a);
                        assert(self.clients@[a] == others[a]);
                        self.lemma_at(a);
                    } else {
                        if self.holds_key(k) {
                            let a = choose|a: int| 0 <= a < self.clients@.len() && #[trigger] self.clients@[a].key == k;
                            if a < n {
                                assert(pre.clients@[a].key == k);
                            }
                        }
                    }
                }
            }
            admitted
        }
    }
}

/// Each client's admissions obey the same bound as a lone bucket's: once
/// `capacity` calls of a client are admitted within `window_ms`, its next
/// calls in that span are refused, so any `capacity + 1` of its admissions span
/// at least `window_ms`.
pub proof fn lemma_client_window_bound(q: &KeyedQuota, key: u128, i: int, j: int)
    requires
        q.wf(),
        0 <= i,
        i + q.quota().capacity <= j < q.admitted_for(key).len(),
    ensures
        q.admitted_for(key)[i] + q.quota().window_ms <= q.admitted_for(key)[j],
{
    assert(q.holds_key(key));
    let a = choose|a: int| 0 <= a < q.clients@.len() && #[trigger] q.clients@[a].key == key;
    q.lemma_at(a);
    lemma_bucket_window_bound(&q.clients@[a].bucket, i, j);
}

} // verus!
