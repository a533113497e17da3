//! Bounded MAC-keyed table that forgets its oldest key when full.
use vstd::prelude::*;

verus! {

pub const DEDUP_CAP: usize = 256;

/// MAC table that drops the oldest key once `cap` entries are stored.
pub struct MacLru<V> {
    cap: usize,
    keys: Vec<[u8; 6]>,
    vals: Vec<V>,
}

/// Index of `key` among `keys`, if present.
pub open spec fn key_index(keys: Seq<[u8; 6]>, key: [u8; 6]) -> Option<int> {
    if exists|i: int| 0 <= i < keys.len() && keys[i]@ == key@ {
        Some(choose|i: int| 0 <= i < keys.len() && keys[i]@ == key@)
    } else {
        None
    }
}

impl<V> MacLru<V> {
    /// Keys are distinct and at most `cap` (at least 1) are stored, each with its value.
    pub closed spec fn wf(self) -> bool {
        &&& self.cap >= 1
        &&& self.keys@.len() == self.vals@.len()
        &&& self.keys@.len() <= self.cap
        &&& forall|i: int, j: int|
            0 <= i < j < self.keys@.len() ==> (#[trigger] self.keys@[i])@ != (#[trigger] self.keys@[j])@
    }

    /// The stored keys, oldest first.
    pub closed spec fn key_seq(self) -> Seq<[u8; 6]> {
        self.keys@
    }

    /// The values of the stored keys, in the same order.
    pub closed spec fn val_seq(self) -> Seq<V> {
        self.vals@
    }

    pub closed spec fn capacity(self) -> nat {
        self.cap as nat
    }

    /// An empty table holding at most `max(cap, 1)` keys.
    pub fn new(cap: usize) -> (t: Self)
        ensures
            t.wf(),
            t.key_seq().len() == 0,
            t.capacity() == if cap >= 1 { cap as nat } else { 1 },
    {
        MacLru { cap: if cap >= 1 { cap } else { 1 }, keys: Vec::new(), vals: Vec::new() }
    }

    pub fn len(&self) -> (n: usize)
        requires
            self.wf(),
        ensures
            n == self.key_seq().len(),
            n <= self.capacity(),
    {
        self.keys.len()
    }

    pub fn is_empty(&self) -> (b: bool)
        requires
            self.wf(),
        ensures
            b == (self.key_seq().len() == 0),
    {
        self.keys.len() == 0
    }

    fn find(&self, key: &[u8; 6]) -> (r: Option<usize>)
        ensures
            r matches Some(i) ==> i < self.keys@.len() && self.keys@[i as int]@ == key@,
            r is None ==> forall|i: int| 0 <= i < self.keys@.len() ==> (#[trigger] self.keys@[i])@ != key@,
    {
        let mut i: usize = 0;
        while i < self.keys.len()
            invariant
                i <= self.keys@.len(),
                forall|k: int| 0 <= k < i ==> (#[trigger] self.keys@[k])@ != key@,
            decreases self.keys@.len() - i,
        {
            let k = &self.keys[i];
            if k[0] == key[0] && k[1] == key[1] && k[2] == key[2] && k[3] == key[3] && k[4] == key[4]
                && k[5] == key[5] {
                assert(self.keys@[i as int]@ =~= key@);
                return Some(i);
            }
            assert(self.keys@[i as int]@ != key@) by {
                if self.keys@[i as int]@ == key@ {
                    assert(self.keys@[i as int]@[0] == key@[0]);
                    assert(self.keys@[i as int]@[1] == key@[1]);
                    assert(self.keys@[i as int]@[2] == key@[2]);
                    assert(self.keys@[i as int]@[3] == key@[3]);
                    assert(self.keys@[i as int]@[4] == key@[4]);
                    assert(self.keys@[i as int]@[5] == key@[5]);
                }
            }
            i += 1;
        }
        None
    }

    pub fn contains(&self, key: &[u8; 6]) -> (b: bool)
        requires
            self.wf(),
        ensures
            b == (exists|i: int| 0 <= i < self.key_seq().len() && (#[trigger] self.key_seq()[i])@ == key@),
    {
        match self.find(key) {
            Some(i) => {
                assert(self.key_seq()[i as int]@ == key@);
                true
            },
            None => false,
        }
    }

    /// The value stored for `key`, inserting `make()` first when the key is
    /// new; a new key into a full table first evicts the oldest key.
    pub fn get_or_insert_with(&mut self, key: [u8; 6], make: impl FnOnce() -> V) -> (r: &mut V)
        requires
            old(self).wf(),
            call_requires(make, ()),
        ensures
            final(self).wf(),
            final(self).capacity() == old(self).capacity(),
            final(self).key_seq().len() == (if key_index(old(self).key_seq(), key) is Some {
                old(self).key_seq().len()
            } else if old(self).key_seq().len() >= old(self).capacity() {
                old(self).capacity()
            } else {
                old(self).key_seq().len() + 1
            }),
            ({
                let ok = old(self).key_seq();
                let ov = old(self).val_seq();
                let nk = final(self).key_seq();
                let nv = final(self).val_seq();
                match key_index(ok, key) {
                    Some(i) => {
                        &&& *r == ov[i]
                        &&& nk == ok
                        &&& nv == ov.update(i, *final(r))
                    },
                    None => {
                        let evict = ok.len() >= old(self).capacity();
                        let kept_k = if evict { ok.drop_first() } else { ok };
                        let kept_v = if evict { ov.drop_first() } else { ov };
                        &&& call_ensures(make, (), *r)
                        &&& nk == kept_k.push(key)
                        &&& nv == kept_v.push(*final(r))
                    },
                }
            }),
    {
        match self.find(&key) {
            Some(i) => {
                assert(key_index(self.keys@, key) is Some);
                proof {
                    let j = key_index(self.keys@, key).unwrap();
                    if j != i as int {
                        if j < i {
                            assert(self.keys@[j]@ != self.keys@[i as int]@);
                        } else {
                            assert(self.keys@[i as int]@ != self.keys@[j]@);
                        }
                    }
                }
                assert(self.key_seq()[i as int]@ == key@);
                &mut self.vals[i]
            },
            None => {
                assert(key_index(self.keys@, key) is None);
                if self.keys.len() >= self.cap {
                    self.keys.remove(0);
                    self.vals.remove(0);
                }
                let ghost kept = self.keys@;
                let v = make();
                self.keys.push(key);
                self.vals.push(v);
                assert forall|i: int, j: int|
                    0 <= i < j < self.keys@.len() implies (#[trigger] self.keys@[i])@ != (#[trigger] self.keys@[j])@ by {
                    if j == self.keys@.len() - 1 {
                        assert(self.keys@[j] == key);
                        assert(self.keys@[i] == kept[i]);
                    } else {
                        assert(self.keys@[i] == kept[i]);
                        assert(self.keys@[j] == kept[j]);
                    }
                }
                assert(self.key_seq()[self.keys@.len() - 1]@ == key@);
                let n = self.vals.len() - 1;
                &mut self.vals[n]
            },
        }
    }
}

} // verus!
