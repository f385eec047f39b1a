//! Header storage for one message: name/value pairs in insertion order,
//! at most one value per name — a later insert under the same name wins.

use vstd::prelude::*;

verus! {

/// The header fields of one message.
///
/// A request parse stores names lowercased, so request lookups are
/// case-insensitive; a response stores the names exactly as they are to be
/// written out.
pub struct HeaderMap {
    entries: Vec<(Vec<u8>, Vec<u8>)>,
}

impl View for HeaderMap {
    type V = Seq<(Seq<u8>, Seq<u8>)>;

    closed spec fn view(&self) -> Seq<(Seq<u8>, Seq<u8>)> {
        Seq::new(self.entries@.len(), |i: int| (self.entries@[i].0@, self.entries@[i].1@))
    }
}

/// The value stored under `k` in `m`, if any.
pub open spec fn lookup(m: Seq<(Seq<u8>, Seq<u8>)>, k: Seq<u8>) -> Option<Seq<u8>>
    decreases m.len(),
{
    if m.len() == 0 {
        None
    } else if m[0].0 == k {
        Some(m[0].1)
    } else {
        lookup(m.drop_first(), k)
    }
}

/// `m` with `v` stored under `k`: an existing value under `k` is replaced
/// in place, a new name is appended at the end.
pub open spec fn store(m: Seq<(Seq<u8>, Seq<u8>)>, k: Seq<u8>, v: Seq<u8>) -> Seq<
    (Seq<u8>, Seq<u8>),
>
    decreases m.len(),
{
    if m.len() == 0 {
        seq![(k, v)]
    } else if m[0].0 == k {
        seq![(k, v)] + m.drop_first()
    } else {
        seq![m[0]] + store(m.drop_first(), k, v)
    }
}

/// `m` without the pair stored under `k`.
pub open spec fn erase(m: Seq<(Seq<u8>, Seq<u8>)>, k: Seq<u8>) -> Seq<(Seq<u8>, Seq<u8>)>
    decreases m.len(),
{
    if m.len() == 0 {
        m
    } else if m[0].0 == k {
        m.drop_first()
    } else {
        seq![m[0]] + erase(m.drop_first(), k)
    }
}

/// What a lookup finds after a store: the stored value under the stored
/// name, and under every other name what was there before.
pub proof fn lemma_lookup_store(m: Seq<(Seq<u8>, Seq<u8>)>, k: Seq<u8>, v: Seq<u8>, k2: Seq<u8>)
    ensures
        lookup(store(m, k, v), k2) == if k2 == k {
            Some(v)
        } else {
            lookup(m, k2)
        },
    decreases m.len(),
{
    if m.len() == 0 {
        let t = seq![(k, v)];
        assert(store(m, k, v) == t);
        assert(t[0] == (k, v));
        if k2 == k {
            assert(lookup(t, k2) == Some(v));
        } else {
            assert(t.drop_first() =~= Seq::<(Seq<u8>, Seq<u8>)>::empty());
            assert(lookup(t.drop_first(), k2) is None);
            assert(lookup(m, k2) is None);
        }
    } else if m[0].0 == k {
        let t = seq![(k, v)] + m.drop_first();
        assert(store(m, k, v) == t);
        assert(t[0] == (k, v));
        assert(t.drop_first() =~= m.drop_first());
        if k2 == k {
            assert(lookup(t, k2) == Some(v));
        } else {
            assert(lookup(t, k2) == lookup(m.drop_first(), k2));
            assert(lookup(m, k2) == lookup(m.drop_first(), k2));
        }
    } else {
        lemma_lookup_store(m.drop_first(), k, v, k2);
        let t = seq![m[0]] + store(m.drop_first(), k, v);
        assert(store(m, k, v) == t);
        assert(t[0] == m[0]);
        assert(t.drop_first() =~= store(m.drop_first(), k, v));
        if k2 == m[0].0 {
            assert(lookup(t, k2) == Some(m[0].1));
            assert(lookup(m, k2) == Some(m[0].1));
        } else {
            assert(lookup(t, k2) == lookup(store(m.drop_first(), k, v), k2));
            assert(lookup(m, k2) == lookup(m.drop_first(), k2));
        }
    }
}

/// When no pair of `m` bears the name `k`, a lookup of `k` beyond position
/// `i` may start at `i`.
proof fn lemma_lookup_skip(m: Seq<(Seq<u8>, Seq<u8>)>, k: Seq<u8>, i: int)
    requires
        0 <= i <= m.len(),
        forall|j: int| 0 <= j < i ==> (#[trigger] m[j]).0 != k,
    ensures
        lookup(m, k) == lookup(m.skip(i), k),
    decreases i,
{
    if i == 0 {
        assert(m.skip(0) =~= m);
    } else {
        lemma_lookup_skip(m.drop_first(), k, i - 1);
        assert(m.drop_first().skip(i - 1) =~= m.skip(i));
        assert(forall|j: int|
            0 <= j < i - 1 ==> (#[trigger] m.drop_first()[j]).0 == m[j + 1].0);
    }
}

/// A store under a name that `m` does not hold appends the pair.
proof fn lemma_store_append(m: Seq<(Seq<u8>, Seq<u8>)>, k: Seq<u8>, v: Seq<u8>)
    requires
        forall|j: int| 0 <= j < m.len() ==> (#[trigger] m[j]).0 != k,
    ensures
        store(m, k, v) == m.push((k, v)),
    decreases m.len(),
{
    if m.len() == 0 {
        assert(store(m, k, v) =~= m.push((k, v)));
    } else {
        assert(forall|j: int|
            0 <= j < m.drop_first().len() ==> (#[trigger] m.drop_first()[j]).0 == m[j + 1].0);
        lemma_store_append(m.drop_first(), k, v);
        assert(seq![m[0]] + m.drop_first().push((k, v)) =~= m.push((k, v)));
    }
}

/// A store under the name first held at position `i` replaces that value.
proof fn lemma_store_update(m: Seq<(Seq<u8>, Seq<u8>)>, k: Seq<u8>, v: Seq<u8>, i: int)
    requires
        0 <= i < m.len(),
        m[i].0 == k,
        forall|j: int| 0 <= j < i ==> (#[trigger] m[j]).0 != k,
    ensures
        store(m, k, v) == m.update(i, (k, v)),
    decreases i,
{
    if i == 0 {
        assert(store(m, k, v) =~= m.update(0, (k, v)));
    } else {
        assert(forall|j: int|
            0 <= j < m.drop_first().len() ==> (#[trigger] m.drop_first()[j]).0 == m[j + 1].0);
        lemma_store_update(m.drop_first(), k, v, i - 1);
        assert(seq![m[0]] + m.drop_first().update(i - 1, (k, v)) =~= m.update(i, (k, v)));
    }
}

/// An erase of the name first held at position `i` removes that pair.
proof fn lemma_erase_at(m: Seq<(Seq<u8>, Seq<u8>)>, k: Seq<u8>, i: int)
    requires
        0 <= i < m.len(),
        m[i].0 == k,
        forall|j: int| 0 <= j < i ==> (#[trigger] m[j]).0 != k,
    ensures
        erase(m, k) == m.remove(i),
    decreases i,
{
    if i == 0 {
        assert(erase(m, k) =~= m.remove(0));
    } else {
        assert(forall|j: int|
            0 <= j < m.drop_first().len() ==> (#[trigger] m.drop_first()[j]).0 == m[j + 1].0);
        lemma_erase_at(m.drop_first(), k, i - 1);
        assert(seq![m[0]] + m.drop_first().remove(i - 1) =~= m.remove(i));
    }
}

/// An erase of a name that `m` does not hold changes nothing.
proof fn lemma_erase_absent(m: Seq<(Seq<u8>, Seq<u8>)>, k: Seq<u8>)
    requires
        forall|j: int| 0 <= j < m.len() ==> (#[trigger] m[j]).0 != k,
    ensures
        erase(m, k) == m,
    decreases m.len(),
{
    if m.len() > 0 {
        assert(forall|j: int|
            0 <= j < m.drop_first().len() ==> (#[trigger] m.drop_first()[j]).0 == m[j + 1].0);
        lemma_erase_absent(m.drop_first(), k);
        assert(seq![m[0]] + m.drop_first() =~= m);
    }
}

impl HeaderMap {
    /// A map with no fields.
    pub fn new() -> (m: HeaderMap)
        ensures
            m@ == Seq::<(Seq<u8>, Seq<u8>)>::empty(),
    {
        let m = HeaderMap { entries: Vec::new() };
        assert(m@ =~= Seq::<(Seq<u8>, Seq<u8>)>::empty());
        m
    }

    /// The number of fields.
    pub fn len(&self) -> (n: usize)
        ensures
            n == self@.len(),
    {
        self.entries.len()
    }

    /// The field at position `i`, in insertion order.
    pub fn entry_at(&self, i: usize) -> (kv: (&Vec<u8>, &Vec<u8>))
        requires
            i < self@.len(),
        ensures
            (kv.0@, kv.1@) == self@[i as int],
    {
        (&self.entries[i].0, &self.entries[i].1)
    }

    /// The position of the pair named `k`, if any.
    #[verifier::loop_isolation(false)]
    fn position(&self, k: &Vec<u8>) -> (r: Option<usize>)
        ensures
            match r {
                Some(i) => i < self@.len() && self@[i as int].0 == k@ && (forall|j: int|
                    0 <= j < i ==> (#[trigger] self@[j]).0 != k@),
                None => forall|j: int| 0 <= j < self@.len() ==> (#[trigger] self@[j]).0 != k@,
            },
    {
        let mut i: usize = 0;
        while i < self.entries.len()
            invariant
                i <= self@.len(),
                forall|j: int| 0 <= j < i ==> (#[trigger] self@[j]).0 != k@,
            decreases self@.len() - i,
        {
            if &self.entries[i].0 == k {
                return Some(i);
            }
            i = i + 1;
        }
        None
    }

    /// The value stored under `k`, if any.
    pub fn get(&self, k: &Vec<u8>) -> (r: Option<&Vec<u8>>)
        ensures
            match r {
                Some(v) => lookup(self@, k@) == Some(v@),
                None => lookup(self@, k@) is None,
            },
    {
        match self.position(k) {
            Some(i) => {
                proof {
                    lemma_lookup_skip(self@, k@, i as int);
                    assert(self@.skip(i as int)[0] == self@[i as int]);
                }
                Some(&self.entries[i].1)
            },
            None => {
                proof {
                    lemma_lookup_skip(self@, k@, self@.len() as int);
                    assert(self@.skip(self@.len() as int) =~= Seq::<(Seq<u8>, Seq<u8>)>::empty());
                }
                None
            },
        }
    }

    /// Stores `v` under `k`; a value already stored under `k` is replaced.
    pub fn insert(&mut self, k: Vec<u8>, v: Vec<u8>)
        ensures
            final(self)@ == store(old(self)@, k@, v@),
    {
        let ghost m = self@;
        match self.position(&k) {
            Some(i) => {
                proof {
                    lemma_store_update(m, k@, v@, i as int);
                }
                self.entries[i] = (k, v);
                assert(self@ =~= m.update(i as int, (k@, v@)));
            },
            None => {
                proof {
                    lemma_store_append(m, k@, v@);
                }
                self.entries.push((k, v));
                assert(self@ =~= m.push((k@, v@)));
            },
        }
    }

    /// Drops the pair stored under `k`, if any.
    pub fn remove(&mut self, k: &Vec<u8>)
        ensures
            final(self)@ == erase(old(self)@, k@),
    {
        let ghost m = self@;
        match self.position(k) {
            Some(i) => {
                proof {
                    lemma_erase_at(m, k@, i as int);
                }
                self.entries.remove(i);
                assert(self@ =~= m.remove(i as int));
            },
            None => {
                proof {
                    lemma_erase_absent(m, k@);
                }
            },
        }
    }
}

} // verus!
