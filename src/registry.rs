use vstd::prelude::*;
use std::collections::BTreeMap;
use vstd::string::StringSliceAdditionalSpecFns;

verus! {

broadcast use vstd::std_specs::btree::group_btree_axioms;

/// The abstract state of a registry: what each live identifier maps to, and
/// the identifier the next entry will get.
pub struct RegistryModel<T> {
    pub entries: Map<u64, T>,
    pub next: nat,
}

/// What looking up `id` in `m` gives.
pub open spec fn lookup<T>(m: Map<u64, T>, id: u64) -> Option<T> {
    if m.contains_key(id) {
        Some(m[id])
    } else {
        None
    }
}

/// The answers of taking out `ids`, one after another, from `m`.
pub open spec fn take_answers<T>(m: Map<u64, T>, ids: Seq<u64>) -> Seq<Option<T>>
    decreases ids.len(),
{
    if ids.len() == 0 {
        Seq::empty()
    } else {
        seq![lookup(m, ids[0])] + take_answers(m.remove(ids[0]), ids.drop_first())
    }
}

/// Taking out identifiers one after another, in any order and with repeats or
/// unknown ones among them, resolves each registered identifier exactly once:
/// the first time it comes it yields the value it was registered with, and
/// every later time, like an identifier that was never registered, nothing.
pub proof fn lemma_each_entry_taken_once<T>(m: Map<u64, T>, ids: Seq<u64>)
    ensures
        take_answers(m, ids).len() == ids.len(),
        forall|k: int|
            0 <= k < ids.len() ==> #[trigger] take_answers(m, ids)[k] == if m.contains_key(ids[k])
                && !ids.take(k).contains(ids[k]) {
                Some(m[ids[k]])
            } else {
                None::<T>
            },
    decreases ids.len(),
{
    if ids.len() > 0 {
        let m1 = m.remove(ids[0]);
        let ids1 = ids.drop_first();
        lemma_each_entry_taken_once(m1, ids1);
        assert forall|k: int| 0 <= k < ids.len() implies #[trigger] take_answers(m, ids)[k] == if m.contains_key(ids[k])
            && !ids.take(k).contains(ids[k]) {
            Some(m[ids[k]])
        } else {
            None::<T>
        } by {
            if k == 0 {
                assert(ids.take(0) =~= Seq::<u64>::empty());
            } else {
                let x = ids[k];
                assert(ids1[k - 1] == x);
                assert(take_answers(m, ids)[k] == take_answers(m1, ids1)[k - 1]);
                assert(ids.take(k) =~= seq![ids[0]] + ids1.take(k - 1));
                if ids1.take(k - 1).contains(x) {
                    let i = choose|i: int| 0 <= i < k - 1 && #[trigger] ids1.take(k - 1)[i] == x;
                    assert(ids.take(k)[i + 1] == x);
                }
                if ids.take(k).contains(x) && x != ids[0] {
                    let i = choose|i: int| 0 <= i < k && #[trigger] ids.take(k)[i] == x;
                    assert(i > 0);
                    assert(ids1.take(k - 1)[i - 1] == x);
                }
                if x == ids[0] {
                    assert(ids.take(k)[0] == x);
                }
            }
        }
    }
}

/// Values filed under identifiers that it hands out itself, in increasing
/// order, each value to be taken out at most once.
pub struct Registry<T> {
    entries: BTreeMap<u64, T>,
    next: u64,
}

impl<T> View for Registry<T> {
    type V = RegistryModel<T>;

    closed spec fn view(&self) -> RegistryModel<T> {
        RegistryModel { entries: self.entries@, next: self.next as nat }
    }
}

impl<T> Registry<T> {
    /// Every live identifier was handed out before the next one.
    pub closed spec fn wf(&self) -> bool {
        forall|id: u64| #[trigger] self.entries@.contains_key(id) ==> id < self.next
    }

    /// An empty registry whose first identifier is 0.
    pub fn new() -> (r: Self)
        ensures
            r.wf(),
            r@.entries == Map::<u64, T>::empty(),
            r@.next == 0,
    {
        Registry { entries: BTreeMap::new(), next: 0 }
    }

    /// Whether every identifier has been handed out.
    pub fn is_exhausted(&self) -> (r: bool)
        ensures
            r == (self@.next == u64::MAX),
    {
        self.next == u64::MAX
    }

    /// Files `value` under a fresh identifier, one above the previous one.
    pub fn insert(&mut self, value: T) -> (id: u64)
        requires
            old(self).wf(),
            old(self)@.next < u64::MAX,
        ensures
            final(self).wf(),
            id == old(self)@.next,
            !old(self)@.entries.contains_key(id),
            final(self)@.entries == old(self)@.entries.insert(id, value),
            final(self)@.next == old(self)@.next + 1,
    {
        let id = self.next;
        self.entries.insert(id, value);
        self.next = id + 1;
        id
    }

    /// The value filed under `id`, if it is still there.
    pub fn get(&self, id: u64) -> (r: Option<&T>)
        ensures
            match r {
                Some(v) => self@.entries.contains_key(id) && *v == self@.entries[id],
                None => !self@.entries.contains_key(id),
            },
    {
        self.entries.get(&id)
    }

    /// Takes out the value filed under `id`; nothing if there is none, or it
    /// was taken out before.
    pub fn take(&mut self, id: u64) -> (r: Option<T>)
        requires
            old(self).wf(),
        ensures
            final(self).wf(),
            r == lookup(old(self)@.entries, id),
            final(self)@.entries == old(self)@.entries.remove(id),
            final(self)@.next == old(self)@.next,
    {
        self.entries.remove(&id)
    }

    /// Number of values filed and not yet taken out.
    pub fn len(&self) -> (r: usize)
        ensures
            r == self@.entries.len(),
    {
        self.entries.len()
    }
}

/// The digits `b` read as a decimal number.
pub open spec fn decimal_value(b: Seq<u8>) -> nat
    decreases b.len(),
{
    if b.len() == 0 {
        0
    } else {
        decimal_value(b.drop_last()) * 10 + (b.last() - 48) as nat
    }
}

/// `b` is one or more ASCII decimal digits.
pub open spec fn is_decimal(b: Seq<u8>) -> bool {
    b.len() > 0 && forall|i: int| 0 <= i < b.len() ==> 48 <= #[trigger] b[i] <= 57
}

/// Reading more digits never gives a smaller number.
proof fn lemma_decimal_prefix(b: Seq<u8>, j: int)
    requires
        0 <= j <= b.len(),
        forall|i: int| 0 <= i < b.len() ==> 48 <= #[trigger] b[i] <= 57,
    ensures
        decimal_value(b.take(j)) <= decimal_value(b),
    decreases b.len(),
{
    if j < b.len() {
        let c = b.drop_last();
        assert(c.take(j) == b.take(j));
        assert(forall|i: int| 0 <= i < c.len() ==> #[trigger] c[i] == b[i]);
        lemma_decimal_prefix(c, j);
    } else {
        assert(b.take(j) == b);
    }
}

/// The identifier written in `s` in decimal, as identifiers travel in
/// addresses; `None` unless `s` is all digits and the number fits in a `u64`.
pub fn parse_id(s: &str) -> (r: Option<u64>)
    ensures
        r == (if is_decimal(s.spec_bytes()) && decimal_value(s.spec_bytes()) <= u64::MAX {
            Some(decimal_value(s.spec_bytes()) as u64)
        } else {
            None
        }),
{
    let b = s.as_bytes();
    let n = b.len();
    if n == 0 {
        return None;
    }
    let mut v: u64 = 0;
    let mut i: usize = 0;
    while i < n
        invariant
            0 <= i <= n,
            n == b@.len(),
            b@ == s.spec_bytes(),
            v == decimal_value(b@.take(i as int)),
            forall|k: int| 0 <= k < i ==> 48 <= #[trigger] b@[k] <= 57,
        decreases n - i,
    {
        let c = b[i];
        if c < 48 || c > 57 {
            return None;
        }
        let d = (c - 48) as u64;
        assert(b@.take(i + 1).drop_last() == b@.take(i as int));
        if v > (u64::MAX - d) / 10 {
            proof {
                assert(decimal_value(b@.take(i + 1)) > u64::MAX);
                if is_decimal(b@) {
                    lemma_decimal_prefix(b@, i + 1);
                }
            }
            return None;
        }
        v = v * 10 + d;
        i = i + 1;
    }
    assert(b@.take(n as int) == b@);
    Some(v)
}

} // verus!
