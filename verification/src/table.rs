use vstd::prelude::*;

verus! {

/// An ordered table from handles to values.
///
/// The table keeps its handles strictly increasing and its abstract value
/// is a finite map. Engine-issued handles come from monotone counters, so a
/// new one is appended above every live one; other keys (object ids, the
/// appearance handles of links) are inserted in order.
#[derive(Debug)]
pub struct HandleTable<T> {
    keys: Vec<u64>,
    vals: Vec<T>,
}

impl<T> View for HandleTable<T> {
    type V = Map<u64, T>;

    closed spec fn view(&self) -> Map<u64, T> {
        Map::new(
            |k: u64| exists|i: int| 0 <= i < self.keys@.len() && self.keys@[i] == k,
            |k: u64| self.vals@[self.index_of(k)],
        )
    }
}

impl<T> HandleTable<T> {
    /// The handles of the table, in increasing order.
    pub closed spec fn keys_seq(&self) -> Seq<u64> {
        self.keys@
    }

    /// The values of the table, in handle order.
    pub closed spec fn vals_seq(&self) -> Seq<T> {
        self.vals@
    }

    closed spec fn index_of(&self, k: u64) -> int {
        choose|i: int| 0 <= i < self.keys@.len() && self.keys@[i] == k
    }

    /// Handles strictly increase and every handle has a value.
    pub closed spec fn wf(&self) -> bool {
        &&& self.keys@.len() == self.vals@.len()
        &&& forall|i: int, j: int|
            0 <= i < j < self.keys@.len() ==> self.keys@[i] < self.keys@[j]
    }

    /// Every live handle is below `k`.
    pub open spec fn all_below(&self, k: u64) -> bool {
        forall|j: u64| self@.dom().contains(j) ==> j < k
    }

    /// The entry at position `i` in handle order is in the map.
    pub proof fn lemma_entry(&self, i: int)
        requires
            self.wf(),
            0 <= i < self.keys_seq().len(),
        ensures
            self.vals_seq().len() == self.keys_seq().len(),
            self@.dom().contains(self.keys_seq()[i]),
            self@[self.keys_seq()[i]] == self.vals_seq()[i],
    {
        let k = self.keys@[i];
        assert(self@.dom().contains(k));
        let j = self.index_of(k);
        if j != i {
            if j < i {
                assert(self.keys@[j] < self.keys@[i]);
            } else {
                assert(self.keys@[i] < self.keys@[j]);
            }
        }
    }

    /// Every handle of the map stands at some position.
    pub proof fn lemma_key(&self, k: u64) -> (i: int)
        requires
            self.wf(),
            self@.dom().contains(k),
        ensures
            0 <= i < self.keys_seq().len(),
            self.keys_seq()[i] == k,
            self@[k] == self.vals_seq()[i],
    {
        let i = self.index_of(k);
        self.lemma_entry(i);
        i
    }

    /// Handles stand in strictly increasing order.
    pub proof fn lemma_increasing(&self)
        requires
            self.wf(),
        ensures
            forall|i: int, j: int|
                0 <= i < j < self.keys_seq().len() ==> self.keys_seq()[i] < self.keys_seq()[j],
    {
    }

    /// The number of entries is the size of the map.
    pub proof fn lemma_len(&self)
        requires
            self.wf(),
        ensures
            self@.dom().finite(),
            self@.dom().len() == self.keys_seq().len(),
            self.vals_seq().len() == self.keys_seq().len(),
        decreases self.keys_seq().len(),
    {
        let ks = self.keys@;
        let dom = self@.dom();
        assert(dom =~= ks.to_set());
        lemma_increasing_to_set_len(ks);
    }

    pub fn new() -> (t: Self)
        ensures
            t.wf(),
            t@ == Map::<u64, T>::empty(),
            t.keys_seq().len() == 0,
            t.vals_seq().len() == 0,
    {
        let t = HandleTable { keys: Vec::new(), vals: Vec::new() };
        assert(t@ =~= Map::<u64, T>::empty());
        t
    }

    pub fn len(&self) -> (n: usize)
        requires
            self.wf(),
        ensures
            n == self.keys_seq().len(),
            n == self.vals_seq().len(),
            n == self@.dom().len(),
    {
        proof {
            self.lemma_len();
        }
        self.keys.len()
    }

    pub fn key_at(&self, i: usize) -> (k: u64)
        requires
            self.wf(),
            i < self.keys_seq().len(),
        ensures
            k == self.keys_seq()[i as int],
    {
        self.keys[i]
    }

    pub fn value_at(&self, i: usize) -> (v: &T)
        requires
            self.wf(),
            i < self.keys_seq().len(),
        ensures
            *v == self.vals_seq()[i as int],
    {
        &self.vals[i]
    }

    /// The position of `k`, if it is live.
    pub fn find(&self, k: u64) -> (r: Option<usize>)
        requires
            self.wf(),
        ensures
            r is None <==> !self@.dom().contains(k),
            r matches Some(i) ==> i < self.keys_seq().len() && self.keys_seq()[i as int] == k
                && self@[k] == self.vals_seq()[i as int],
    {
        let n = self.keys.len();
        let mut i: usize = 0;
        while i < n
            invariant
                self.wf(),
                n == self.keys@.len(),
                i <= n,
                forall|j: int| 0 <= j < i ==> self.keys@[j] != k,
            decreases n - i,
        {
            if self.keys[i] == k {
                proof {
                    self.lemma_entry(i as int);
                }
                return Some(i);
            }
            i = i + 1;
        }
        assert(!self@.dom().contains(k));
        None
    }

    pub fn contains(&self, k: u64) -> (b: bool)
        requires
            self.wf(),
        ensures
            b == self@.dom().contains(k),
    {
        self.find(k).is_some()
    }

    pub fn get(&self, k: u64) -> (r: Option<&T>)
        requires
            self.wf(),
        ensures
            r is None <==> !self@.dom().contains(k),
            r matches Some(v) ==> *v == self@[k],
    {
        match self.find(k) {
            Some(i) => Some(&self.vals[i]),
            None => None,
        }
    }

    /// Adds an entry under a handle above every live one.
    pub fn insert_new(&mut self, k: u64, v: T)
        requires
            old(self).wf(),
            old(self).all_below(k),
        ensures
            final(self).wf(),
            final(self)@ == old(self)@.insert(k, v),
            final(self).keys_seq() == old(self).keys_seq().push(k),
            final(self).vals_seq() == old(self).vals_seq().push(v),
    {
        let ghost old_t = *self;
        proof {
            assert forall|i: int| 0 <= i < old_t.keys@.len() implies old_t.keys@[i] < k by {
                old_t.lemma_entry(i);
            }
        }
        self.keys.push(k);
        self.vals.push(v);
        let ghost n = old_t.keys@.len() as int;
        proof {
            assert forall|j: u64| #[trigger] self@.dom().contains(j) <==> old_t@.insert(
                k,
                v,
            ).dom().contains(j) by {
                if self@.dom().contains(j) {
                    let i = choose|i: int| 0 <= i < self.keys@.len() && self.keys@[i] == j;
                    if i < n {
                        assert(old_t.keys@[i] == j);
                    }
                }
                if old_t@.dom().contains(j) {
                    let i = old_t.lemma_key(j);
                    assert(self.keys@[i] == j);
                }
                if j == k {
                    assert(self.keys@[n] == k);
                }
            }
            assert forall|j: u64| #[trigger] self@.dom().contains(j) implies self@[j] == old_t@.insert(
                k,
                v,
            )[j] by {
                let i = self.lemma_key(j);
                if i < n {
                    old_t.lemma_entry(i);
                }
            }
            assert(self@ =~= old_t@.insert(k, v));
        }
    }

    /// Binds handle `k` to `v`: the handle's value is replaced where it is
    /// live, and the handle is added in order where it is not.
    pub fn insert(&mut self, k: u64, v: T)
        requires
            old(self).wf(),
        ensures
            final(self).wf(),
            final(self)@ == old(self)@.insert(k, v),
    {
        if self.contains(k) {
            self.set_value(k, v);
            return;
        }
        let ghost old_t = *self;
        let n = self.keys.len();
        let mut i: usize = 0;
        while i < n && self.keys[i] < k
            invariant
                n == self.keys@.len(),
                i <= n,
                forall|p: int| 0 <= p < i ==> self.keys@[p] < k,
            decreases n - i,
        {
            i = i + 1;
        }
        proof {
            if i < n {
                old_t.lemma_entry(i as int);
                assert(self.keys@[i as int] != k);
            }
        }
        self.keys.insert(i, k);
        self.vals.insert(i, v);
        proof {
            assert forall|a: int, b: int| 0 <= a < b < self.keys@.len() implies self.keys@[a]
                < self.keys@[b] by {
                if b < i {
                    assert(old_t.keys@[a] < old_t.keys@[b]);
                } else if b == i {
                } else if a < i {
                    assert(self.keys@[b] == old_t.keys@[b - 1]);
                    if b - 1 > i {
                        assert(old_t.keys@[i as int] < old_t.keys@[b - 1]);
                    }
                } else if a == i {
                    if b - 1 > i {
                        assert(old_t.keys@[i as int] < old_t.keys@[b - 1]);
                    }
                } else {
                    assert(old_t.keys@[a - 1] < old_t.keys@[b - 1]);
                }
            }
            assert forall|j: u64| #[trigger] self@.dom().contains(j) <==> old_t@.insert(
                k,
                v,
            ).dom().contains(j) by {
                if self@.dom().contains(j) {
                    let p = choose|p: int| 0 <= p < self.keys@.len() && self.keys@[p] == j;
                    if p < i {
                        assert(old_t.keys@[p] == j);
                    } else if p > i {
                        assert(old_t.keys@[p - 1] == j);
                    }
                }
                if old_t@.dom().contains(j) {
                    let p = old_t.lemma_key(j);
                    if p < i {
                        assert(self.keys@[p] == j);
                    } else {
                        assert(self.keys@[p + 1] == j);
                    }
                }
                if j == k {
                    assert(self.keys@[i as int] == k);
                }
            }
            assert forall|j: u64| #[trigger] self@.dom().contains(j) implies self@[j] == old_t@.insert(
                k,
                v,
            )[j] by {
                let p = self.lemma_key(j);
                if p < i {
                    old_t.lemma_entry(p);
                } else if p > i {
                    old_t.lemma_entry(p - 1);
                }
            }
            assert(self@ =~= old_t@.insert(k, v));
        }
    }

    /// Replaces the value of a live handle.
    pub fn set_value(&mut self, k: u64, v: T)
        requires
            old(self).wf(),
            old(self)@.dom().contains(k),
        ensures
            final(self).wf(),
            final(self)@ == old(self)@.insert(k, v),
            final(self).keys_seq() == old(self).keys_seq(),
            exists|i: int|
                0 <= i < old(self).keys_seq().len() && old(self).keys_seq()[i] == k && final(self).vals_seq() == old(self).vals_seq().update(i, v),
    {
        let ghost old_t = *self;
        let i = self.find(k).unwrap();
        self.vals[i] = v;
        proof {
            assert forall|j: u64| #[trigger] self@.dom().contains(j) <==> old_t@.insert(
                k,
                v,
            ).dom().contains(j) by {
                if old_t@.dom().contains(j) {
                    let p = old_t.lemma_key(j);
                }
            }
            assert forall|j: u64| #[trigger] self@.dom().contains(j) implies self@[j] == old_t@.insert(
                k,
                v,
            )[j] by {
                let p = self.lemma_key(j);
                if p != i {
                    old_t.lemma_entry(p);
                }
            }
            assert(self@ =~= old_t@.insert(k, v));
        }
    }

    /// Replaces the value of a live handle, handing back the old value.
    pub fn replace_value(&mut self, k: u64, v: T) -> (prior: T)
        requires
            old(self).wf(),
            old(self)@.dom().contains(k),
        ensures
            final(self).wf(),
            prior == old(self)@[k],
            final(self)@ == old(self)@.insert(k, v),
            final(self).keys_seq() == old(self).keys_seq(),
            exists|i: int|
                0 <= i < old(self).keys_seq().len() && old(self).keys_seq()[i] == k && final(self).vals_seq() == old(self).vals_seq().update(i, v),
    {
        let ghost old_t = *self;
        let i = self.find(k).unwrap();
        let mut value = v;
        std::mem::swap(&mut self.vals[i], &mut value);
        proof {
            old_t.lemma_entry(i as int);
            assert forall|j: u64| #[trigger] self@.dom().contains(j) <==> old_t@.insert(
                k,
                v,
            ).dom().contains(j) by {
                if old_t@.dom().contains(j) {
                    let p = old_t.lemma_key(j);
                }
            }
            assert forall|j: u64| #[trigger] self@.dom().contains(j) implies self@[j] == old_t@.insert(
                k,
                v,
            )[j] by {
                let p = self.lemma_key(j);
                if p != i {
                    old_t.lemma_entry(p);
                }
            }
            assert(self@ =~= old_t@.insert(k, v));
        }
        value
    }

    /// Removes a handle, returning its value if it was live.
    pub fn remove(&mut self, k: u64) -> (r: Option<T>)
        requires
            old(self).wf(),
        ensures
            final(self).wf(),
            final(self)@ == old(self)@.remove(k),
            r is None <==> !old(self)@.dom().contains(k),
            r matches Some(v) ==> v == old(self)@[k],
            r is None ==> *final(self) == *old(self),
            r is Some ==> exists|i: int|
                0 <= i < old(self).keys_seq().len() && old(self).keys_seq()[i] == k && final(self).keys_seq() == old(self).keys_seq().remove(i) && final(self).vals_seq() == old(self).vals_seq().remove(i),
    {
        let ghost old_t = *self;
        match self.find(k) {
            None => {
                assert(old_t@.remove(k) =~= old_t@);
                None
            },
            Some(i) => {
                self.keys.remove(i);
                let v = self.vals.remove(i);
                proof {
                    assert forall|a: int, b: int|
                        0 <= a < b < self.keys@.len() implies self.keys@[a] < self.keys@[b] by {
                        let oa = if a < i { a } else { a + 1 };
                        let ob = if b < i { b } else { b + 1 };
                        assert(self.keys@[a] == old_t.keys@[oa]);
                        assert(self.keys@[b] == old_t.keys@[ob]);
                    }
                    assert forall|j: u64| #[trigger] self@.dom().contains(j) <==> old_t@.remove(
                        k,
                    ).dom().contains(j) by {
                        if self@.dom().contains(j) {
                            let p = choose|p: int| 0 <= p < self.keys@.len() && self.keys@[p] == j;
                            let op = if p < i { p } else { p + 1 };
                            assert(old_t.keys@[op] == j);
                            if op < i {
                                assert(old_t.keys@[op] < old_t.keys@[i as int]);
                            } else {
                                assert(old_t.keys@[i as int] < old_t.keys@[op]);
                            }
                        }
                        if old_t@.remove(k).dom().contains(j) {
                            let p = old_t.lemma_key(j);
                            if p < i {
                                assert(self.keys@[p] == j);
                            } else {
                                assert(self.keys@[p - 1] == j);
                            }
                        }
                    }
                    assert forall|j: u64| #[trigger] self@.dom().contains(j) implies self@[j]
                        == old_t@.remove(k)[j] by {
                        let p = self.lemma_key(j);
                        let op = if p < i { p } else { p + 1 };
                        old_t.lemma_entry(op);
                    }
                    assert(self@ =~= old_t@.remove(k));
                }
                Some(v)
            },
        }
    }
}

proof fn lemma_increasing_to_set_len(s: Seq<u64>)
    requires
        forall|i: int, j: int| 0 <= i < j < s.len() ==> s[i] < s[j],
    ensures
        s.to_set().finite(),
        s.to_set().len() == s.len(),
    decreases s.len(),
{
    if s.len() == 0 {
        assert(s.to_set() =~= Set::<u64>::empty());
    } else {
        let t = s.drop_last();
        lemma_increasing_to_set_len(t);
        assert forall|x: u64| #[trigger] s.to_set().contains(x) <==> t.to_set().insert(
            s.last(),
        ).contains(x) by {
            if s.contains(x) {
                let i = choose|i: int| 0 <= i < s.len() && s[i] == x;
                if i < t.len() {
                    assert(t[i] == x);
                }
            }
            if t.contains(x) {
                let i = choose|i: int| 0 <= i < t.len() && t[i] == x;
                assert(s[i] == x);
            }
            if x == s.last() {
                assert(s[s.len() - 1] == x);
            }
        }
        assert(s.to_set() =~= t.to_set().insert(s.last()));
        assert(!t.to_set().contains(s.last())) by {
            if t.to_set().contains(s.last()) {
                let i = choose|i: int| 0 <= i < t.len() && t[i] == s.last();
                assert(s[i] < s[s.len() - 1]);
            }
        }
    }
}

impl HandleTable<u64> {
    /// Whether some live handle maps to `v`.
    pub fn contains_value(&self, v: u64) -> (b: bool)
        requires
            self.wf(),
        ensures
            b == exists|k: u64| self@.dom().contains(k) && self@[k] == v,
    {
        let n = self.keys.len();
        let mut i: usize = 0;
        while i < n
            invariant
                self.wf(),
                n == self.keys@.len(),
                i <= n,
                forall|j: int| 0 <= j < i ==> self.vals@[j] != v,
            decreases n - i,
        {
            if self.vals[i] == v {
                proof {
                    self.lemma_entry(i as int);
                }
                return true;
            }
            i = i + 1;
        }
        proof {
            assert forall|k: u64| self@.dom().contains(k) implies self@[k] != v by {
                let p = self.lemma_key(k);
            }
        }
        false
    }
}

} // verus!

verus! {

/// A table from text keys to values, where a later insertion under an
/// existing key replaces its value.
#[derive(Debug)]
pub struct TextTable<V> {
    keys: Vec<String>,
    vals: Vec<V>,
}

impl<V> View for TextTable<V> {
    type V = Map<Seq<char>, V>;

    closed spec fn view(&self) -> Map<Seq<char>, V> {
        Map::new(
            |k: Seq<char>| exists|i: int| 0 <= i < self.keys@.len() && self.keys@[i]@ == k,
            |k: Seq<char>| self.vals@[self.index_of(k)],
        )
    }
}

impl<V> TextTable<V> {
    closed spec fn index_of(&self, k: Seq<char>) -> int {
        choose|i: int| 0 <= i < self.keys@.len() && self.keys@[i]@ == k
    }

    /// Keys are distinct and every key has a value.
    pub closed spec fn wf(&self) -> bool {
        &&& self.keys@.len() == self.vals@.len()
        &&& forall|i: int, j: int|
            0 <= i < self.keys@.len() && 0 <= j < self.keys@.len() && i != j
                ==> self.keys@[i]@ != self.keys@[j]@
    }

    /// The keys of the table, in insertion order.
    pub closed spec fn keys_seq(&self) -> Seq<String> {
        self.keys@
    }

    /// The values of the table, in insertion order.
    pub closed spec fn vals_seq(&self) -> Seq<V> {
        self.vals@
    }

    /// Every key of the map stands at some position.
    pub proof fn lemma_key(&self, k: Seq<char>) -> (i: int)
        requires
            self.wf(),
            self@.dom().contains(k),
        ensures
            0 <= i < self.keys_seq().len(),
            self.keys_seq()[i]@ == k,
            self@[k] == self.vals_seq()[i],
    {
        let i = self.index_of(k);
        self.lemma_entry(i);
        i
    }

    /// The number of entries is the size of the map.
    pub proof fn lemma_len(&self)
        requires
            self.wf(),
        ensures
            self@.dom().finite(),
            self@.dom().len() == self.keys_seq().len(),
    {
        let names = self.keys@.map_values(|k: String| k@);
        assert(self@.dom() =~= names.to_set()) by {
            assert forall|k: Seq<char>| self@.dom().contains(k) implies names.to_set().contains(k) by {
                let i = choose|i: int| 0 <= i < self.keys@.len() && self.keys@[i]@ == k;
                assert(names[i] == k);
            }
            assert forall|k: Seq<char>| names.to_set().contains(k) implies self@.dom().contains(k) by {
                let i = choose|i: int| 0 <= i < names.len() && names[i] == k;
                assert(self.keys@[i]@ == k);
            }
        }
        names.unique_seq_to_set();
    }

    pub fn len(&self) -> (n: usize)
        requires
            self.wf(),
        ensures
            n == self.keys_seq().len(),
            n == self.vals_seq().len(),
    {
        self.keys.len()
    }

    pub fn key_at(&self, i: usize) -> (k: &String)
        requires
            self.wf(),
            i < self.keys_seq().len(),
        ensures
            *k == self.keys_seq()[i as int],
    {
        &self.keys[i]
    }

    pub fn value_at(&self, i: usize) -> (v: &V)
        requires
            self.wf(),
            i < self.keys_seq().len(),
        ensures
            *v == self.vals_seq()[i as int],
    {
        &self.vals[i]
    }

    /// The entry at position `i` is in the map.
    pub proof fn lemma_entry(&self, i: int)
        requires
            self.wf(),
            0 <= i < self.keys_seq().len(),
        ensures
            self.vals_seq().len() == self.keys_seq().len(),
            self@.dom().contains(self.keys_seq()[i]@),
            self@[self.keys_seq()[i]@] == self.vals_seq()[i],
    {
        let k = self.keys@[i]@;
        assert(self@.dom().contains(k));
    }

    pub fn new() -> (t: Self)
        ensures
            t.wf(),
            t@ == Map::<Seq<char>, V>::empty(),
    {
        let t = TextTable { keys: Vec::new(), vals: Vec::new() };
        assert(t@ =~= Map::<Seq<char>, V>::empty());
        t
    }

    fn find(&self, k: &String) -> (r: Option<usize>)
        requires
            self.wf(),
        ensures
            r is None <==> !self@.dom().contains(k@),
            r matches Some(i) ==> i < self.keys@.len() && self.keys@[i as int]@ == k@
                && self@[k@] == self.vals@[i as int],
    {
        let n = self.keys.len();
        let mut i: usize = 0;
        while i < n
            invariant
                self.wf(),
                n == self.keys@.len(),
                i <= n,
                forall|j: int| 0 <= j < i ==> self.keys@[j]@ != k@,
            decreases n - i,
        {
            if self.keys[i] == *k {
                proof {
                    self.lemma_entry(i as int);
                }
                return Some(i);
            }
            i = i + 1;
        }
        None
    }

    pub fn get(&self, k: &String) -> (r: Option<&V>)
        requires
            self.wf(),
        ensures
            r is None <==> !self@.dom().contains(k@),
            r matches Some(v) ==> *v == self@[k@],
    {
        match self.find(k) {
            Some(i) => Some(&self.vals[i]),
            None => None,
        }
    }

    /// Maps `k` to `v`, replacing any earlier value.
    pub fn insert(&mut self, k: String, v: V)
        requires
            old(self).wf(),
        ensures
            final(self).wf(),
            final(self)@ == old(self)@.insert(k@, v),
    {
        let ghost old_t = *self;
        let ghost kv = k@;
        match self.find(&k) {
            Some(i) => {
                self.vals[i] = v;
                proof {
                    assert forall|j: Seq<char>| #[trigger] self@.dom().contains(j) <==> old_t@.insert(
                        kv,
                        v,
                    ).dom().contains(j) by {}
                    assert forall|j: Seq<char>| #[trigger] self@.dom().contains(j) implies self@[j]
                        == old_t@.insert(kv, v)[j] by {
                        let p = choose|p: int| 0 <= p < self.keys@.len() && self.keys@[p]@ == j;
                        self.lemma_entry(p);
                        if p != i {
                            old_t.lemma_entry(p);
                        }
                    }
                    assert(self@ =~= old_t@.insert(kv, v));
                }
            },
            None => {
                self.keys.push(k);
                self.vals.push(v);
                let ghost n = old_t.keys@.len() as int;
                proof {
                    assert forall|a: int, b: int|
                        0 <= a < self.keys@.len() && 0 <= b < self.keys@.len() && a != b
                            implies self.keys@[a]@ != self.keys@[b]@ by {
                        if a == n {
                            assert(old_t@.dom().contains(old_t.keys@[b]@));
                        } else if b == n {
                            assert(old_t@.dom().contains(old_t.keys@[a]@));
                        }
                    }
                    assert forall|j: Seq<char>| #[trigger] self@.dom().contains(j) <==> old_t@.insert(
                        kv,
                        v,
                    ).dom().contains(j) by {
                        if self@.dom().contains(j) {
                            let p = choose|p: int| 0 <= p < self.keys@.len() && self.keys@[p]@ == j;
                            if p < n {
                                assert(old_t.keys@[p]@ == j);
                            }
                        }
                        if old_t@.dom().contains(j) {
                            let p = choose|p: int| 0 <= p < old_t.keys@.len() && old_t.keys@[p]@ == j;
                            assert(self.keys@[p]@ == j);
                        }
                        if j == kv {
                            assert(self.keys@[n]@ == j);
                        }
                    }
                    assert forall|j: Seq<char>| #[trigger] self@.dom().contains(j) implies self@[j]
                        == old_t@.insert(kv, v)[j] by {
                        let p = choose|p: int| 0 <= p < self.keys@.len() && self.keys@[p]@ == j;
                        self.lemma_entry(p);
                        if p < n {
                            old_t.lemma_entry(p);
                        }
                    }
                    assert(self@ =~= old_t@.insert(kv, v));
                }
            },
        }
    }
}

impl TextTable<u64> {
    /// A copy of the table.
    pub fn copy(&self) -> (t: Self)
        requires
            self.wf(),
        ensures
            t.wf(),
            t@ == self@,
    {
        let n = self.keys.len();
        let mut keys: Vec<String> = Vec::new();
        let mut vals: Vec<u64> = Vec::new();
        let mut i: usize = 0;
        while i < n
            invariant
                self.wf(),
                n == self.keys@.len(),
                i <= n,
                keys@ == self.keys@.subrange(0, i as int),
                vals@ == self.vals@.subrange(0, i as int),
            decreases n - i,
        {
            keys.push(self.keys[i].clone());
            vals.push(self.vals[i]);
            i = i + 1;
            assert(keys@ =~= self.keys@.subrange(0, i as int));
            assert(vals@ =~= self.vals@.subrange(0, i as int));
        }
        assert(keys@ =~= self.keys@);
        assert(vals@ =~= self.vals@);
        let t = TextTable { keys, vals };
        assert(t@ =~= self@);
        t
    }
}

} // verus!
