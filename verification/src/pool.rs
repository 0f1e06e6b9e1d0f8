use vstd::prelude::*;

use vstd::pervasive::VecAdditionalExecFns;

use crate::rng::rand_index;
use crate::wallet::PrivateKey;

verus! {

/// One wallet key of a task and whether it is currently leased to a worker.
#[derive(Debug)]
pub struct KeySlot {
    pub key: PrivateKey,
    pub in_use: bool,
}

impl View for KeySlot {
    type V = (Seq<u8>, bool);

    open spec fn view(&self) -> (Seq<u8>, bool) {
        (self.key@, self.in_use)
    }
}

/// Exclusive per-task leasing of private keys: one slot per wallet of the
/// group the task was frozen from.  A key is leased to at most one worker
/// at a time; the enclosing task's lock makes `take` and `release` atomic
/// with respect to each other.
#[derive(Debug)]
pub struct KeyLeasePool {
    pub slots: Vec<KeySlot>,
}

impl View for KeyLeasePool {
    type V = Seq<(Seq<u8>, bool)>;

    open spec fn view(&self) -> Seq<(Seq<u8>, bool)> {
        self.slots@.map(|i: int, s: KeySlot| s@)
    }
}

/// The keys of a pool, in slot order.
pub open spec fn pool_keys(p: Seq<(Seq<u8>, bool)>) -> Seq<Seq<u8>> {
    p.map(|i: int, e: (Seq<u8>, bool)| e.0)
}

/// No two slots hold the same key.
pub open spec fn unique_keys(p: Seq<(Seq<u8>, bool)>) -> bool {
    forall|i: int, j: int|
        0 <= i < p.len() && 0 <= j < p.len() && i != j ==> (#[trigger] p[i]).0 != (#[trigger] p[j]).0
}

/// The set of keys any slot of the pool holds.
pub open spec fn key_set(p: Seq<(Seq<u8>, bool)>) -> Set<Seq<u8>> {
    Set::new(|k: Seq<u8>| exists|i: int| 0 <= i < p.len() && (#[trigger] p[i]).0 == k)
}

/// The set of keys currently leased out.
pub open spec fn leased_keys(p: Seq<(Seq<u8>, bool)>) -> Set<Seq<u8>> {
    Set::new(|k: Seq<u8>| exists|i: int| 0 <= i < p.len() && (#[trigger] p[i]).0 == k && p[i].1)
}

/// Every slot is leased out.
pub open spec fn all_leased(p: Seq<(Seq<u8>, bool)>) -> bool {
    forall|i: int| 0 <= i < p.len() ==> (#[trigger] p[i]).1
}

/// What one successful `take` does: some slot held `k` free before, and
/// the only change is that this slot is now flagged in use.
pub open spec fn take_post(
    pre: Seq<(Seq<u8>, bool)>,
    post: Seq<(Seq<u8>, bool)>,
    k: Seq<u8>,
) -> bool {
    exists|i: int|
        0 <= i < pre.len() && (#[trigger] pre[i]) == (k, false) && post == pre.update(i, (k, true))
}

/// What `release(k)` does: every slot that holds `k` is flagged free and
/// no other slot changes; a pool that does not track `k` is untouched.
pub open spec fn release_post(
    pre: Seq<(Seq<u8>, bool)>,
    post: Seq<(Seq<u8>, bool)>,
    k: Seq<u8>,
) -> bool {
    &&& post.len() == pre.len()
    &&& forall|i: int|
        0 <= i < pre.len() ==> (#[trigger] post[i]) == (if pre[i].0 == k {
            (pre[i].0, false)
        } else {
            pre[i]
        })
}

impl KeyLeasePool {
    /// A pool with every given key free.
    pub fn from_keys(keys: &Vec<PrivateKey>) -> (r: Self)
        ensures
            r@.len() == keys@.len(),
            forall|i: int| 0 <= i < keys@.len() ==> (#[trigger] r@[i]) == (keys@[i]@, false),
    {
        let mut slots: Vec<KeySlot> = Vec::new();
        let n = keys.len();
        let mut i: usize = 0;
        while i < n
            invariant
                n == keys@.len(),
                i <= n,
                slots@.len() == i,
                forall|j: int| 0 <= j < i ==> (#[trigger] slots@[j])@ == (keys@[j]@, false),
            decreases n - i,
        {
            slots.push(KeySlot { key: clone_key(&keys[i]), in_use: false });
            i += 1;
        }
        let r = KeyLeasePool { slots };
        proof {
            assert forall|j: int| 0 <= j < keys@.len() implies (#[trigger] r@[j]) == (
            keys@[j]@,
            false,
            ) by {
                assert(r@[j] == r.slots@[j]@);
            }
        }
        r
    }

    /// Collects the keys still flagged free, picks one of them uniformly at
    /// random, flags it in use and returns it; returns `None` exactly when
    /// every key is leased out, leaving the pool unchanged.
    pub fn take(&mut self) -> (r: Option<PrivateKey>)
        ensures
            match r {
                None => *final(self) == *old(self) && all_leased(old(self)@),
                Some(k) => take_post(old(self)@, final(self)@, k@),
            },
            !all_leased(old(self)@) ==> r is Some,
    {
        let mut free: Vec<usize> = Vec::new();
        let n = self.slots.len();
        let mut idx: usize = 0;
        while idx < n
            invariant
                self == old(self),
                n == self.slots@.len(),
                idx <= n,
                forall|j: int|
                    0 <= j < free@.len() ==> 0 <= #[trigger] free@[j] < idx && !self@[free@[
                        j
                    ] as int].1,
                forall|j: int|
                    0 <= j < idx && !(#[trigger] self@[j]).1 ==> free@.contains(j as usize),
            decreases n - idx,
        {
            let ghost prev_free = free@;
            if !self.slots[idx].in_use {
                free.push(idx);
                assert(self@[idx as int] == self.slots@[idx as int]@);
            }
            proof {
                assert forall|j: int| 0 <= j < idx + 1 && !(#[trigger] self@[j]).1 implies free@
                    .contains(j as usize) by {
                    if j < idx {
                        let m = choose|m: int|
                            0 <= m < prev_free.len() && #[trigger] prev_free[m] == j as usize;
                        assert(free@[m] == j as usize);
                    } else {
                        assert(free@[free@.len() - 1] == idx);
                    }
                }
            }
            idx += 1;
        }
        if free.len() == 0 {
            proof {
                assert forall|j: int| 0 <= j < self@.len() implies (#[trigger] self@[j]).1 by {
                    if !self@[j].1 {
                        assert(free@.contains(j as usize));
                    }
                }
            }
            return None;
        }
        let pick = free[rand_index(free.len())];
        assert(!self@[pick as int].1);
        let ghost pre = self@;
        let key = clone_key(&self.slots[pick].key);
        let flagged = KeySlot { key: clone_key(&key), in_use: true };
        self.slots.set(pick, flagged);
        proof {
            assert(pre[pick as int] == old(self).slots@[pick as int]@);
            assert(self@ =~= pre.update(pick as int, (key@, true)));
            assert(take_post(pre, self@, key@));
        }
        Some(key)
    }

    /// Flags the key free again.  A no-op when the key is not tracked by
    /// this pool: releasing never fails.
    pub fn release(&mut self, private_key: PrivateKey)
        ensures
            release_post(old(self)@, final(self)@, private_key@),
    {
        let n = self.slots.len();
        let mut idx: usize = 0;
        while idx < n
            invariant
                n == self.slots@.len(),
                self@.len() == old(self)@.len(),
                idx <= n,
                forall|j: int| idx <= j < n ==> (#[trigger] self@[j]) == old(self)@[j],
                forall|j: int|
                    0 <= j < idx ==> (#[trigger] self@[j]) == (if old(self)@[j].0 == private_key@ {
                        (old(self)@[j].0, false)
                    } else {
                        old(self)@[j]
                    }),
            decreases n - idx,
        {
            let ghost pre = self@;
            if key_eq(&self.slots[idx].key, &private_key) {
                let k = clone_key(&self.slots[idx].key);
                self.slots.set(idx, KeySlot { key: k, in_use: false });
                proof {
                    assert(self@ =~= pre.update(idx as int, (pre[idx as int].0, false)));
                }
            }
            idx += 1;
        }
    }
}

/// Clones key bytes; the copy holds exactly the same bytes.
pub fn clone_key(k: &PrivateKey) -> (r: PrivateKey)
    ensures
        r@ == k@,
{
    let mut r: Vec<u8> = Vec::new();
    let n = k.len();
    let mut i: usize = 0;
    while i < n
        invariant
            n == k@.len(),
            i <= n,
            r@ == k@.subrange(0, i as int),
        decreases n - i,
    {
        r.push(k[i]);
        proof {
            assert(r@ =~= k@.subrange(0, i + 1));
        }
        i += 1;
    }
    proof {
        assert(r@ =~= k@);
    }
    r
}

/// Byte-for-byte equality of two keys.
pub fn key_eq(a: &PrivateKey, b: &PrivateKey) -> (r: bool)
    ensures
        r == (a@ == b@),
{
    if a.len() != b.len() {
        return false;
    }
    let n = a.len();
    let mut i: usize = 0;
    while i < n
        invariant
            n == a@.len() == b@.len(),
            i <= n,
            forall|j: int| 0 <= j < i ==> a@[j] == b@[j],
        decreases n - i,
    {
        if a[i] != b[i] {
            return false;
        }
        i += 1;
    }
    proof {
        assert(a@ =~= b@);
    }
    true
}

/// Law: the set of leased keys is always a subset of the pool's keys.
pub proof fn lemma_leased_subset_of_keys(p: Seq<(Seq<u8>, bool)>)
    ensures
        leased_keys(p).subset_of(key_set(p)),
{
    assert forall|k: Seq<u8>| leased_keys(p).contains(k) implies key_set(p).contains(k) by {
        let i = choose|i: int| 0 <= i < p.len() && (#[trigger] p[i]).0 == k && p[i].1;
        assert(0 <= i < p.len() && p[i].0 == k);
    }
}

/// A successful `take` keeps the pool's keys and their uniqueness, and the
/// key it returned was free before and is leased afterwards.
pub proof fn lemma_take_post_effect(
    pre: Seq<(Seq<u8>, bool)>,
    post: Seq<(Seq<u8>, bool)>,
    k: Seq<u8>,
)
    requires
        unique_keys(pre),
        take_post(pre, post, k),
    ensures
        pool_keys(post) == pool_keys(pre),
        unique_keys(post),
        !leased_keys(pre).contains(k),
        leased_keys(post).contains(k),
{
    let i = choose|i: int|
        0 <= i < pre.len() && (#[trigger] pre[i]) == (k, false) && post == pre.update(i, (k, true));
    assert(pool_keys(post) =~= pool_keys(pre));
    assert forall|a: int, b: int|
        0 <= a < post.len() && 0 <= b < post.len() && a != b implies (#[trigger] post[a]).0 != (
    #[trigger] post[b]).0 by {
        assert(post[a].0 == pre[a].0 && post[b].0 == pre[b].0);
    }
    if leased_keys(pre).contains(k) {
        let j = choose|j: int| 0 <= j < pre.len() && (#[trigger] pre[j]).0 == k && pre[j].1;
        assert(j != i);
        assert(pre[j].0 == pre[i].0);
    }
    assert(0 <= i < post.len() && post[i].0 == k && post[i].1);
}

/// Releasing a key keeps the pool's keys and their uniqueness.
pub proof fn lemma_release_post_preserves_unique(
    pre: Seq<(Seq<u8>, bool)>,
    post: Seq<(Seq<u8>, bool)>,
    k: Seq<u8>,
)
    requires
        unique_keys(pre),
        release_post(pre, post, k),
    ensures
        unique_keys(post),
        pool_keys(post) == pool_keys(pre),
{
    assert forall|a: int, b: int|
        0 <= a < post.len() && 0 <= b < post.len() && a != b implies (#[trigger] post[a]).0 != (
    #[trigger] post[b]).0 by {
        assert(post[a].0 == pre[a].0 && post[b].0 == pre[b].0);
    }
    assert(pool_keys(post) =~= pool_keys(pre));
}

/// Law: while a lease is outstanding, a second `take` never returns the
/// same key.  Both operations run under the task's lock, so any two
/// overlapping leases of concurrent workers are ordered and covered here.
pub proof fn lemma_take_take_distinct(
    p0: Seq<(Seq<u8>, bool)>,
    p1: Seq<(Seq<u8>, bool)>,
    p2: Seq<(Seq<u8>, bool)>,
    k1: Seq<u8>,
    k2: Seq<u8>,
)
    requires
        unique_keys(p0),
        take_post(p0, p1, k1),
        take_post(p1, p2, k2),
    ensures
        k1 != k2,
{
    lemma_take_post_effect(p0, p1, k1);
    lemma_take_post_effect(p1, p2, k2);
}

/// Law: releasing the key a `take` returned restores the pool to exactly
/// its state before the lease.  Because the state is restored exactly,
/// any number of take/release round trips leaves the pool unchanged.
pub proof fn lemma_take_release_round_trip(
    p0: Seq<(Seq<u8>, bool)>,
    p1: Seq<(Seq<u8>, bool)>,
    p2: Seq<(Seq<u8>, bool)>,
    k: Seq<u8>,
)
    requires
        unique_keys(p0),
        take_post(p0, p1, k),
        release_post(p1, p2, k),
    ensures
        p2 == p0,
{
    let i = choose|i: int|
        0 <= i < p0.len() && (#[trigger] p0[i]) == (k, false) && p1 == p0.update(i, (k, true));
    assert forall|j: int| 0 <= j < p0.len() implies (#[trigger] p2[j]) == p0[j] by {
        if j == i {
            assert(p1[j] == (k, true));
            assert(p2[j] == (k, false));
        } else {
            assert(p1[j] == p0[j]);
            if p0[j].0 == k {
                assert(p0[j].0 == p0[i].0);
            }
        }
    }
    assert(p2 =~= p0);
}

} // verus!
