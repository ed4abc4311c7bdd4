//! A map keyed by strings that keeps its entries in ascending key order, so that
//! walking it visits keys in the order Rust's `String` ordering gives them.
use vstd::prelude::*;
use crate::text::{
    lex_lt,
    text_lt,
    lemma_lex_lt_irreflexive,
    lemma_lex_lt_asymmetric,
    lemma_lex_lt_total,
    lemma_lex_lt_transitive,
};

verus! {

/// The keys of `entries` strictly increase from each entry to the next.
pub open spec fn keys_ascending<T>(entries: Seq<(Seq<char>, T)>) -> bool {
    forall|i: int, j: int|
        0 <= i < j < entries.len() ==> lex_lt(#[trigger] entries[i].0, #[trigger] entries[j].0)
}

/// The value that `entries` holds under `key`: that of the first entry with this key.
pub open spec fn lookup<T>(entries: Seq<(Seq<char>, T)>, key: Seq<char>) -> Option<T>
    decreases entries.len(),
{
    if entries.len() == 0 {
        None
    } else if entries[0].0 == key {
        Some(entries[0].1)
    } else {
        lookup(entries.drop_first(), key)
    }
}

/// The entries after storing `value` under `key`: an entry with this key has its value
/// replaced, and otherwise a new entry goes in before the first greater key.
pub open spec fn inserted<T>(entries: Seq<(Seq<char>, T)>, key: Seq<char>, value: T) -> Seq<
    (Seq<char>, T),
>
    decreases entries.len(),
{
    if entries.len() == 0 {
        seq![(key, value)]
    } else if entries[0].0 == key {
        seq![(key, value)] + entries.drop_first()
    } else if lex_lt(entries[0].0, key) {
        seq![entries[0]] + inserted(entries.drop_first(), key, value)
    } else {
        seq![(key, value)] + entries
    }
}

/// The values of `entries`, in entry order.
pub open spec fn values_of<T>(entries: Seq<(Seq<char>, T)>) -> Seq<T> {
    entries.map_values(|e: (Seq<char>, T)| e.1)
}

/// A map from strings to values, its entries kept in ascending key order.
#[derive(Debug, PartialEq)]
#[verifier::reject_recursive_types(T)]
pub struct StrMap<T> {
    entries: Vec<(String, T)>,
}

impl<T> View for StrMap<T> {
    type V = Seq<(Seq<char>, T)>;

    closed spec fn view(&self) -> Seq<(Seq<char>, T)> {
        self.entries@.map_values(|e: (String, T)| (e.0@, e.1))
    }
}

/// Inserting into entries whose first `i` keys all come before `key` keeps those `i`
/// entries in front.
proof fn lemma_inserted_skip<T>(s: Seq<(Seq<char>, T)>, key: Seq<char>, value: T, i: int)
    requires
        0 <= i <= s.len(),
        forall|j: int| 0 <= j < i ==> lex_lt(#[trigger] s[j].0, key),
    ensures
        inserted(s, key, value) == s.take(i) + inserted(s.skip(i), key, value),
    decreases i,
{
    if i == 0 {
        assert(s.skip(0) =~= s);
        assert(s.take(0) + inserted(s, key, value) =~= inserted(s, key, value));
    } else {
        let t = s.drop_first();
        assert forall|j: int| 0 <= j < i - 1 implies lex_lt(#[trigger] t[j].0, key) by {
            assert(t[j] == s[j + 1]);
        }
        lemma_inserted_skip(t, key, value, i - 1);
        lemma_lex_lt_irreflexive(key);
        assert(s[0].0 != key);
        assert(t.skip(i - 1) =~= s.skip(i));
        assert(seq![s[0]] + (t.take(i - 1) + inserted(s.skip(i), key, value)) =~= s.take(i)
            + inserted(s.skip(i), key, value));
    }
}

/// Inserting into ascending entries gives ascending entries.
proof fn lemma_inserted_ascending<T>(s: Seq<(Seq<char>, T)>, key: Seq<char>, value: T)
    requires
        keys_ascending(s),
    ensures
        keys_ascending(inserted(s, key, value)),
        forall|j: int|
            0 <= j < inserted(s, key, value).len() ==> #[trigger] inserted(s, key, value)[j].0
                == key || exists|m: int| 0 <= m < s.len() && s[m].0 == inserted(s, key, value)[j].0,
    decreases s.len(),
{
    let r = inserted(s, key, value);
    if s.len() == 0 {
    } else if s[0].0 == key {
        assert forall|i: int, j: int| 0 <= i < j < r.len() implies lex_lt(
            #[trigger] r[i].0,
            #[trigger] r[j].0,
        ) by {
            if i == 0 {
                assert(r[j] == s[j]);
            } else {
                assert(r[i] == s[i] && r[j] == s[j]);
            }
        }
        assert forall|j: int| 0 <= j < r.len() implies #[trigger] r[j].0 == key || exists|m: int|
            0 <= m < s.len() && s[m].0 == r[j].0 by {
            if j > 0 {
                assert(r[j] == s[j]);
            }
        }
    } else if lex_lt(s[0].0, key) {
        let t = s.drop_first();
        assert forall|i: int, j: int| 0 <= i < j < t.len() implies lex_lt(
            #[trigger] t[i].0,
            #[trigger] t[j].0,
        ) by {
            assert(t[i] == s[i + 1] && t[j] == s[j + 1]);
        }
        lemma_inserted_ascending(t, key, value);
        let rt = inserted(t, key, value);
        assert(r == seq![s[0]] + rt);
        assert forall|j: int| 0 <= j < rt.len() implies lex_lt(s[0].0, #[trigger] rt[j].0) by {
            if rt[j].0 != key {
                let m = choose|m: int| 0 <= m < t.len() && t[m].0 == rt[j].0;
                assert(t[m] == s[m + 1]);
            }
        }
        assert forall|i: int, j: int| 0 <= i < j < r.len() implies lex_lt(
            #[trigger] r[i].0,
            #[trigger] r[j].0,
        ) by {
            if i == 0 {
                assert(r[j] == rt[j - 1]);
            } else {
                assert(r[i] == rt[i - 1] && r[j] == rt[j - 1]);
            }
        }
        assert forall|j: int| 0 <= j < r.len() implies #[trigger] r[j].0 == key || exists|m: int|
            0 <= m < s.len() && s[m].0 == r[j].0 by {
            if j == 0 {
                assert(s[0].0 == r[0].0);
            } else {
                assert(r[j] == rt[j - 1]);
                if rt[j - 1].0 != key {
                    let m = choose|m: int| 0 <= m < t.len() && t[m].0 == rt[j - 1].0;
                    assert(s[m + 1] == t[m]);
                }
            }
        }
    } else {
        lemma_lex_lt_total(s[0].0, key);
        assert forall|i: int, j: int| 0 <= i < j < r.len() implies lex_lt(
            #[trigger] r[i].0,
            #[trigger] r[j].0,
        ) by {
            if i == 0 {
                assert(r[j] == s[j - 1]);
                if j - 1 > 0 {
                    lemma_lex_lt_transitive(key, s[0].0, s[j - 1].0);
                }
            } else {
                assert(r[i] == s[i - 1] && r[j] == s[j - 1]);
            }
        }
        assert forall|j: int| 0 <= j < r.len() implies #[trigger] r[j].0 == key || exists|m: int|
            0 <= m < s.len() && s[m].0 == r[j].0 by {
            if j > 0 {
                assert(r[j] == s[j - 1]);
            }
        }
    }
}

impl<T> StrMap<T> {
    #[verifier::type_invariant]
    spec fn ascending(self) -> bool {
        keys_ascending(self@)
    }

    /// An empty map.
    pub fn new() -> (m: Self)
        ensures
            m@ == Seq::<(Seq<char>, T)>::empty(),
    {
        let m = StrMap { entries: Vec::new() };
        assert(m@ =~= Seq::<(Seq<char>, T)>::empty());
        m
    }

    /// The number of entries.
    pub fn len(&self) -> (n: usize)
        ensures
            n == self@.len(),
            keys_ascending(self@),
    {
        proof {
            use_type_invariant(self);
        }
        self.entries.len()
    }

    /// The key of the entry at position `i`.
    pub fn key_at(&self, i: usize) -> (k: &String)
        requires
            i < self@.len(),
        ensures
            k@ == self@[i as int].0,
    {
        &self.entries[i].0
    }

    /// The value of the entry at position `i`.
    pub fn value_at(&self, i: usize) -> (v: &T)
        requires
            i < self@.len(),
        ensures
            *v == self@[i as int].1,
    {
        &self.entries[i].1
    }

    /// The value stored under `key`, if any.
    pub fn get(&self, key: &str) -> (r: Option<&T>)
        ensures
            match r {
                Some(v) => lookup(self@, key@) == Some(*v),
                None => lookup(self@, key@) is None,
            },
    {
        let n = self.entries.len();
        let mut i: usize = 0;
        assert(self@.skip(0) =~= self@);
        while i < n
            invariant
                n == self@.len(),
                i <= n,
                lookup(self@, key@) == lookup(self@.skip(i as int), key@),
            decreases n - i,
        {
            proof {
                let s = self@.skip(i as int);
                assert(s[0] == self@[i as int]);
                assert(s.drop_first() =~= self@.skip(i + 1));
            }
            if crate::text::text_equals(self.entries[i].0.as_str(), key) {
                return Some(&self.entries[i].1);
            }
            i = i + 1;
        }
        None
    }

    /// Stores `value` under `key`, replacing the value of an entry with the same key.
    pub fn insert(&mut self, key: String, value: T)
        ensures
            final(self)@ == inserted(old(self)@, key@, value),
            keys_ascending(final(self)@),
    {
        proof {
            use_type_invariant(&*self);
        }
        let ghost s = self@;
        let mut entries: Vec<(String, T)> = Vec::new();
        std::mem::swap(&mut entries, &mut self.entries);
        assert(entries@.map_values(|e: (String, T)| (e.0@, e.1)) == s);
        let n = entries.len();
        let mut i: usize = 0;
        while i < n && text_lt(entries[i].0.as_str(), key.as_str())
            invariant
                n == entries.len(),
                i <= n,
                entries@.map_values(|e: (String, T)| (e.0@, e.1)) == s,
                forall|j: int| 0 <= j < i ==> lex_lt(#[trigger] s[j].0, key@),
            decreases n - i,
        {
            i = i + 1;
        }
        proof {
            lemma_inserted_skip(s, key@, value, i as int);
            lemma_inserted_ascending(s, key@, value);
        }
        let ghost keyv = key@;
        if i < n && crate::text::text_equals(entries[i].0.as_str(), key.as_str()) {
            entries.set(i, (key, value));
            proof {
                assert(s.skip(i as int)[0] == s[i as int]);
                assert(s.skip(i as int).drop_first() =~= s.skip(i + 1));
                assert(entries@.map_values(|e: (String, T)| (e.0@, e.1)) =~= inserted(
                    s,
                    keyv,
                    value,
                ));
            }
        } else {
            proof {
                if i < n {
                    assert(s.skip(i as int)[0] == s[i as int]);
                    lemma_lex_lt_total(s[i as int].0, keyv);
                } else {
                    assert(s.skip(i as int) =~= Seq::<(Seq<char>, T)>::empty());
                }
            }
            entries.insert(i, (key, value));
            proof {
                assert(entries@.map_values(|e: (String, T)| (e.0@, e.1)) =~= inserted(
                    s,
                    keyv,
                    value,
                ));
            }
        }
        self.entries = entries;
    }
}

/// Storing a value under a key and then looking that key up gives the value back.
pub proof fn law_lookup_after_insert_same_key<T>(s: Seq<(Seq<char>, T)>, key: Seq<char>, value: T)
    ensures
        lookup(inserted(s, key, value), key) == Some(value),
    decreases s.len(),
{
    if s.len() > 0 && s[0].0 != key && lex_lt(s[0].0, key) {
        law_lookup_after_insert_same_key(s.drop_first(), key, value);
        assert((seq![s[0]] + inserted(s.drop_first(), key, value)).drop_first() =~= inserted(
            s.drop_first(),
            key,
            value,
        ));
    }
}

/// Storing a value under a key leaves what every other key looks up unchanged.
pub proof fn law_lookup_after_insert_other_key<T>(
    s: Seq<(Seq<char>, T)>,
    key: Seq<char>,
    value: T,
    other: Seq<char>,
)
    requires
        other != key,
    ensures
        lookup(inserted(s, key, value), other) == lookup(s, other),
    decreases s.len(),
{
    if s.len() == 0 {
        assert(lookup(seq![(key, value)].drop_first(), other) == lookup(s, other));
    } else if s[0].0 == key {
        assert((seq![(key, value)] + s.drop_first()).drop_first() =~= s.drop_first());
    } else if lex_lt(s[0].0, key) {
        law_lookup_after_insert_other_key(s.drop_first(), key, value, other);
        assert((seq![s[0]] + inserted(s.drop_first(), key, value)).drop_first() =~= inserted(
            s.drop_first(),
            key,
            value,
        ));
    } else {
        assert((seq![(key, value)] + s).drop_first() =~= s);
    }
}

} // verus!
