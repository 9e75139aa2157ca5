//! An association table keyed by account identifier.
//!
//! Per-account state (balances, history, statistics) lives in tables with
//! unique keys. A missing key stands for the account's default state:
//! accounts conceptually exist forever at their zero value before their
//! first write.

use vstd::prelude::*;

verus! {

/// No key occurs twice among the entries.
pub open spec fn keys_unique<V>(s: Seq<(u64, V)>) -> bool {
    forall|i: int, j: int| 0 <= i < j < s.len() ==> s[i].0 != s[j].0
}

/// Whether some entry carries the key.
pub open spec fn has_key<V>(s: Seq<(u64, V)>, key: u64) -> bool
    decreases s.len(),
{
    if s.len() == 0 {
        false
    } else {
        s[0].0 == key || has_key(s.drop_first(), key)
    }
}

/// The first value stored under the key, or `default` if the key is absent.
pub open spec fn value_of<V>(s: Seq<(u64, V)>, key: u64, default: V) -> V
    decreases s.len(),
{
    if s.len() == 0 {
        default
    } else if s[0].0 == key {
        s[0].1
    } else {
        value_of(s.drop_first(), key, default)
    }
}

/// Dropping the first entry keeps the keys pairwise distinct.
pub proof fn lemma_drop_first_unique<V>(s: Seq<(u64, V)>)
    requires
        keys_unique(s),
        s.len() > 0,
    ensures
        keys_unique(s.drop_first()),
{
    assert forall|i: int, j: int|
        0 <= i < j < s.drop_first().len() implies s.drop_first()[i].0 != s.drop_first()[j].0 by {
        assert(s.drop_first()[i] == s[i + 1]);
        assert(s.drop_first()[j] == s[j + 1]);
    }
}

/// A key is present exactly when some index carries it.
pub proof fn lemma_has_key_index<V>(s: Seq<(u64, V)>, key: u64)
    ensures
        has_key(s, key) <==> exists|i: int| 0 <= i < s.len() && s[i].0 == key,
    decreases s.len(),
{
    if s.len() > 0 {
        lemma_has_key_index(s.drop_first(), key);
        if has_key(s.drop_first(), key) {
            let i = choose|i: int| 0 <= i < s.drop_first().len() && s.drop_first()[i].0 == key;
            assert(s[i + 1].0 == key);
        }
        if exists|i: int| 0 <= i < s.len() && s[i].0 == key {
            let i = choose|i: int| 0 <= i < s.len() && s[i].0 == key;
            if i > 0 {
                assert(s.drop_first()[i - 1].0 == key);
            }
        }
    }
}

/// An absent key reads as the default, whatever the default.
pub proof fn lemma_absent_value<V>(s: Seq<(u64, V)>, key: u64, default: V)
    requires
        !has_key(s, key),
    ensures
        value_of(s, key, default) == default,
    decreases s.len(),
{
    if s.len() > 0 {
        lemma_absent_value(s.drop_first(), key, default);
    }
}

/// With unique keys, the value read under a key is the value at its index.
pub proof fn lemma_value_at_index<V>(s: Seq<(u64, V)>, i: int, default: V)
    requires
        keys_unique(s),
        0 <= i < s.len(),
    ensures
        has_key(s, s[i].0),
        value_of(s, s[i].0, default) == s[i].1,
    decreases s.len(),
{
    if i == 0 {
        assert(has_key(s, s[0].0));
    } else {
        lemma_drop_first_unique(s);
        lemma_value_at_index(s.drop_first(), i - 1, default);
        assert(s.drop_first()[i - 1] == s[i]);
        assert(s[0].0 != s[i].0);
    }
}

/// Replacing the value at one index rewrites that key and leaves every other
/// key's presence and value alone.
pub proof fn lemma_update_key<V>(s: Seq<(u64, V)>, i: int, v: V, k: u64, d: V)
    requires
        keys_unique(s),
        0 <= i < s.len(),
    ensures
        has_key(s.update(i, (s[i].0, v)), k) == has_key(s, k),
        value_of(s.update(i, (s[i].0, v)), k, d) == (if k == s[i].0 {
            v
        } else {
            value_of(s, k, d)
        }),
    decreases s.len(),
{
    let s2 = s.update(i, (s[i].0, v));
    if i == 0 {
        assert(s2.drop_first() =~= s.drop_first());
        assert(s2[0].0 == s[0].0);
    } else {
        assert(s2[0] == s[0]);
        lemma_drop_first_unique(s);
        assert(s.drop_first()[i - 1] == s[i]);
        assert(s2.drop_first() =~= s.drop_first().update(i - 1, (s.drop_first()[i - 1].0, v)));
        lemma_update_key(s.drop_first(), i - 1, v, k, d);
        assert(s[0].0 != s[i].0);
    }
}

/// Updating one entry's value keeps the keys pairwise distinct.
pub proof fn lemma_update_unique<V>(s: Seq<(u64, V)>, i: int, v: V)
    requires
        keys_unique(s),
        0 <= i < s.len(),
    ensures
        keys_unique(s.update(i, (s[i].0, v))),
{
    let s2 = s.update(i, (s[i].0, v));
    assert forall|p: int, q: int| 0 <= p < q < s2.len() implies s2[p].0 != s2[q].0 by {
        assert(s2[p].0 == s[p].0);
        assert(s2[q].0 == s[q].0);
    }
}

/// Appending an entry under a fresh key stores its value and leaves every
/// other key's presence and value alone.
pub proof fn lemma_push_key<V>(s: Seq<(u64, V)>, key: u64, v: V, k: u64, d: V)
    requires
        !has_key(s, key),
    ensures
        has_key(s.push((key, v)), k) == (has_key(s, k) || k == key),
        value_of(s.push((key, v)), k, d) == (if k == key {
            v
        } else {
            value_of(s, k, d)
        }),
    decreases s.len(),
{
    let s2 = s.push((key, v));
    if s.len() == 0 {
        assert(s2.drop_first() =~= Seq::<(u64, V)>::empty());
        assert(s2[0] == (key, v));
        assert(!has_key(Seq::<(u64, V)>::empty(), k));
        assert(value_of(Seq::<(u64, V)>::empty(), k, d) == d);
    } else {
        assert(s2[0] == s[0]);
        assert(s2.drop_first() =~= s.drop_first().push((key, v)));
        lemma_push_key(s.drop_first(), key, v, k, d);
    }
}

/// Appending an entry under a fresh key keeps the keys pairwise distinct.
pub proof fn lemma_push_unique<V>(s: Seq<(u64, V)>, key: u64, v: V)
    requires
        keys_unique(s),
        !has_key(s, key),
    ensures
        keys_unique(s.push((key, v))),
{
    lemma_has_key_index(s, key);
    let s2 = s.push((key, v));
    assert forall|p: int, q: int| 0 <= p < q < s2.len() implies s2[p].0 != s2[q].0 by {
        assert(s2[p] == s[p]);
        if q < s.len() {
            assert(s2[q] == s[q]);
        } else {
            assert(s2[q] == (key, v));
        }
    }
}

/// An association table: a vector of entries with pairwise distinct keys.
pub struct Table<V> {
    entries: Vec<(u64, V)>,
}

impl<V> View for Table<V> {
    type V = Seq<(u64, V)>;

    closed spec fn view(&self) -> Seq<(u64, V)> {
        self.entries@
    }
}

impl<V> Table<V> {
    /// The table's invariant: no key occurs twice.
    pub open spec fn wf(self) -> bool {
        keys_unique(self@)
    }

    /// An empty table.
    pub fn new() -> (r: Self)
        ensures
            r.wf(),
            r@ =~= Seq::<(u64, V)>::empty(),
    {
        Table { entries: Vec::new() }
    }

    /// The index holding the key, if any entry does.
    fn position(&self, key: u64) -> (r: Option<usize>)
        ensures
            match r {
                Some(i) => i < self@.len() && self@[i as int].0 == key,
                None => !has_key(self@, key),
            },
    {
        let mut i: usize = 0;
        while i < self.entries.len()
            invariant
                i <= self@.len(),
                forall|j: int| 0 <= j < i ==> self@[j].0 != key,
            decreases self@.len() - i,
        {
            if self.entries[i].0 == key {
                return Some(i);
            }
            i += 1;
        }
        proof {
            lemma_has_key_index(self@, key);
        }
        None
    }

    /// A borrow of the value stored under the key, if the key is present.
    pub fn get_ref(&self, key: u64) -> (r: Option<&V>)
        requires
            self.wf(),
        ensures
            match r {
                Some(v) => has_key(self@, key) && forall|d: V|
                    #[trigger] value_of(self@, key, d) == *v,
                None => !has_key(self@, key),
            },
    {
        match self.position(key) {
            Some(i) => {
                proof {
                    assert forall|d: V| #[trigger] value_of(self@, key, d) == self@[i as int].1 by {
                        lemma_value_at_index(self@, i as int, d);
                    }
                    lemma_value_at_index(self@, i as int, arbitrary::<V>());
                }
                Some(&self.entries[i].1)
            },
            None => None,
        }
    }

    /// Stores the value under the key, overwriting any earlier value.
    pub fn put(&mut self, key: u64, value: V)
        requires
            old(self).wf(),
        ensures
            final(self).wf(),
            has_key(final(self)@, key),
            forall|d: V| #[trigger] value_of(final(self)@, key, d) == value,
            forall|k: u64, d: V|
                k != key ==> #[trigger] value_of(final(self)@, k, d) == value_of(old(self)@, k, d),
            forall|k: u64| #[trigger] has_key(final(self)@, k) == (has_key(old(self)@, k) || k
                == key),
            (if has_key(old(self)@, key) {
                exists|i: int|
                    0 <= i < old(self)@.len() && old(self)@[i].0 == key && final(self)@
                        == old(self)@.update(i, (key, value))
            } else {
                final(self)@ == old(self)@.push((key, value))
            }),
    {
        let ghost s = self@;
        match self.position(key) {
            Some(i) => {
                self.entries.set(i, (key, value));
                proof {
                    lemma_update_unique(s, i as int, value);
                    lemma_value_at_index(s, i as int, arbitrary::<V>());
                    assert forall|k: u64, d: V|
                        #[trigger] value_of(self@, k, d) == (if k == key {
                            value
                        } else {
                            value_of(s, k, d)
                        }) by {
                        lemma_update_key(s, i as int, value, k, d);
                    }
                    assert forall|k: u64| #[trigger] has_key(self@, k) == (has_key(s, k) || k
                        == key) by {
                        lemma_update_key(s, i as int, value, k, arbitrary::<V>());
                    }
                }
            },
            None => {
                self.entries.push((key, value));
                proof {
                    lemma_push_unique(s, key, value);
                    assert forall|k: u64, d: V|
                        #[trigger] value_of(self@, k, d) == (if k == key {
                            value
                        } else {
                            value_of(s, k, d)
                        }) by {
                        lemma_push_key(s, key, value, k, d);
                    }
                    assert forall|k: u64| #[trigger] has_key(self@, k) == (has_key(s, k) || k
                        == key) by {
                        lemma_push_key(s, key, value, k, arbitrary::<V>());
                    }
                }
            },
        }
    }
}

} // verus!
