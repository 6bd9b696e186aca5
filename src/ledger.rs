//! Account identities and the balance maps that hold per-account amounts.
use vstd::prelude::*;

verus! {

/// Opaque identity of a caller: the 32 bytes of an account id.
#[derive(Clone, Copy, Debug)]
pub struct AccountId {
    pub bytes: [u8; 32],
}

impl AccountId {
    pub open spec fn view(&self) -> Seq<u8> {
        self.bytes@
    }

    pub fn from_bytes(bytes: [u8; 32]) -> (r: AccountId)
        ensures
            r@ == bytes@,
    {
        AccountId { bytes }
    }

    /// The bytes of the identity, as a key of a `BalanceMap`.
    pub fn key(&self) -> (r: Vec<u8>)
        ensures
            r@ == self@,
    {
        let mut r: Vec<u8> = Vec::new();
        let mut i: usize = 0;
        while i < 32
            invariant
                0 <= i <= 32,
                self.bytes@.len() == 32,
                r@ == self.bytes@.subrange(0, i as int),
            decreases 32 - i,
        {
            r.push(self.bytes[i]);
            i = i + 1;
            assert(r@ =~= self.bytes@.subrange(0, i as int));
        }
        assert(r@ =~= self.bytes@);
        r
    }
}

/// Whether two byte strings are equal.
pub fn bytes_eq(a: &Vec<u8>, b: &Vec<u8>) -> (r: bool)
    ensures
        r == (a@ == b@),
{
    if a.len() != b.len() {
        return false;
    }
    let mut i: usize = 0;
    while i < a.len()
        invariant
            0 <= i <= a@.len(),
            a@.len() == b@.len(),
            a@.subrange(0, i as int) == b@.subrange(0, i as int),
        decreases a@.len() - i,
    {
        if a[i] != b[i] {
            assert(a@[i as int] != b@[i as int]);
            return false;
        }
        i = i + 1;
        assert(a@.subrange(0, i as int) =~= a@.subrange(0, i as int - 1).push(a@[i as int - 1]));
        assert(b@.subrange(0, i as int) =~= b@.subrange(0, i as int - 1).push(b@[i as int - 1]));
    }
    assert(a@ =~= a@.subrange(0, a@.len() as int));
    assert(b@ =~= b@.subrange(0, b@.len() as int));
    true
}

/// The sum of a sequence of balances.
pub open spec fn sum_of(s: Seq<u128>) -> int
    decreases s.len(),
{
    if s.len() == 0 {
        0
    } else {
        sum_of(s.drop_last()) + s.last()
    }
}

proof fn lemma_sum_push(s: Seq<u128>, v: u128)
    ensures
        sum_of(s.push(v)) == sum_of(s) + v,
{
    assert(s.push(v).drop_last() =~= s);
}

proof fn lemma_sum_update(s: Seq<u128>, i: int, v: u128)
    requires
        0 <= i < s.len(),
    ensures
        sum_of(s.update(i, v)) == sum_of(s) - s[i] + v,
    decreases s.len(),
{
    if i == s.len() - 1 {
        assert(s.update(i, v).drop_last() =~= s.drop_last());
    } else {
        lemma_sum_update(s.drop_last(), i, v);
        assert(s.update(i, v).drop_last() =~= s.drop_last().update(i, v));
    }
}

proof fn lemma_elem_le_sum(s: Seq<u128>, i: int)
    requires
        0 <= i < s.len(),
    ensures
        s[i] <= sum_of(s),
        0 <= sum_of(s),
    decreases s.len(),
{
    lemma_sum_nonneg(s.drop_last());
    if i < s.len() - 1 {
        lemma_elem_le_sum(s.drop_last(), i);
    }
}

proof fn lemma_sum_nonneg(s: Seq<u128>)
    ensures
        0 <= sum_of(s),
    decreases s.len(),
{
    if s.len() > 0 {
        lemma_sum_nonneg(s.drop_last());
    }
}

/// The balance that a map gives a key: absent keys hold zero.
pub open spec fn balance_in(m: Map<Seq<u8>, u128>, k: Seq<u8>) -> u128 {
    if m.contains_key(k) {
        m[k]
    } else {
        0
    }
}

/// A map from keys (byte strings) to balances, where an absent key reads as zero.
pub struct BalanceMap {
    keys: Vec<Vec<u8>>,
    vals: Vec<u128>,
    entries: Ghost<Map<Seq<u8>, u128>>,
}

impl BalanceMap {
    pub closed spec fn view(&self) -> Map<Seq<u8>, u128> {
        self.entries@
    }

    /// The balance held under `k`.
    pub open spec fn get_spec(&self, k: Seq<u8>) -> u128 {
        balance_in(self@, k)
    }

    /// The sum of all balances held.
    pub closed spec fn total(&self) -> int {
        sum_of(self.vals@)
    }

    pub closed spec fn wf(&self) -> bool {
        &&& self.keys@.len() == self.vals@.len()
        &&& forall|i: int, j: int|
            0 <= i < j < self.keys@.len() ==> self.keys@[i]@ != self.keys@[j]@
        &&& forall|k: Seq<u8>|
            self.entries@.contains_key(k) <==> exists|i: int|
                0 <= i < self.keys@.len() && #[trigger] self.keys@[i]@ == k
        &&& forall|i: int|
            0 <= i < self.keys@.len() ==> self.entries@[#[trigger] self.keys@[i]@]
                == self.vals@[i]
    }

    pub fn new() -> (r: BalanceMap)
        ensures
            r.wf(),
            r@ == Map::<Seq<u8>, u128>::empty(),
            r.total() == 0,
    {
        BalanceMap { keys: Vec::new(), vals: Vec::new(), entries: Ghost(Map::empty()) }
    }

    fn find(&self, k: &Vec<u8>) -> (r: Option<usize>)
        requires
            self.wf(),
        ensures
            match r {
                Some(i) => i < self.keys@.len() && self.keys@[i as int]@ == k@,
                None => !self@.contains_key(k@),
            },
    {
        let mut i: usize = 0;
        while i < self.keys.len()
            invariant
                self.wf(),
                0 <= i <= self.keys@.len(),
                forall|j: int| 0 <= j < i ==> self.keys@[j]@ != k@,
            decreases self.keys@.len() - i,
        {
            if bytes_eq(&self.keys[i], k) {
                return Some(i);
            }
            i = i + 1;
        }
        None
    }

    /// The balance held under `k`, zero when none is.
    pub fn get(&self, k: &Vec<u8>) -> (r: u128)
        requires
            self.wf(),
        ensures
            r == self.get_spec(k@),
    {
        match self.find(k) {
            Some(i) => self.vals[i],
            None => 0,
        }
    }

    /// Every single balance is at most the sum of all of them.
    pub proof fn lemma_get_le_total(&self, k: Seq<u8>)
        requires
            self.wf(),
        ensures
            self.get_spec(k) <= self.total(),
            0 <= self.total(),
    {
        lemma_sum_nonneg(self.vals@);
        if self@.contains_key(k) {
            let i = choose|i: int| 0 <= i < self.keys@.len() && #[trigger] self.keys@[i]@ == k;
            lemma_elem_le_sum(self.vals@, i);
        }
    }

    /// Sets the balance held under `k` to `v`.
    pub fn set(&mut self, k: &Vec<u8>, v: u128)
        requires
            old(self).wf(),
        ensures
            final(self).wf(),
            final(self)@ == old(self)@.insert(k@, v),
            final(self).total() == old(self).total() - old(self).get_spec(k@) + v,
    {
        match self.find(k) {
            Some(i) => {
                proof {
                    lemma_sum_update(self.vals@, i as int, v);
                }
                self.vals.set(i, v);
                self.entries = Ghost(self.entries@.insert(k@, v));
                assert forall|k2: Seq<u8>|
                    self.entries@.contains_key(k2) <==> exists|j: int|
                        0 <= j < self.keys@.len() && #[trigger] self.keys@[j]@ == k2 by {
                    if k2 == k@ {
                        assert(self.keys@[i as int]@ == k2);
                    } else if old(self).entries@.contains_key(k2) {
                        let j = choose|j: int|
                            0 <= j < old(self).keys@.len() && #[trigger] old(self).keys@[j]@ == k2;
                        assert(self.keys@[j]@ == k2);
                    }
                }
            },
            None => {
                proof {
                    lemma_sum_push(self.vals@, v);
                }
                let kc = k.clone();
                self.keys.push(kc);
                self.vals.push(v);
                self.entries = Ghost(self.entries@.insert(k@, v));
                let ghost n = self.keys@.len() - 1;
                assert(self.keys@[n]@ == k@);
                assert forall|k2: Seq<u8>|
                    self.entries@.contains_key(k2) <==> exists|j: int|
                        0 <= j < self.keys@.len() && #[trigger] self.keys@[j]@ == k2 by {
                    if k2 == k@ {
                        assert(self.keys@[n]@ == k2);
                    } else {
                        if old(self).entries@.contains_key(k2) {
                            let j = choose|j: int|
                                0 <= j < old(self).keys@.len() && #[trigger] old(self).keys@[j]@ == k2;
                            assert(self.keys@[j]@ == k2);
                        }
                        if exists|j: int| 0 <= j < self.keys@.len() && #[trigger] self.keys@[j]@ == k2 {
                            let j = choose|j: int| 0 <= j < self.keys@.len() && #[trigger] self.keys@[j]@ == k2;
                            assert(j != n);
                            assert(old(self).keys@[j]@ == k2);
                        }
                    }
                }
            },
        }
    }
}

} // verus!
