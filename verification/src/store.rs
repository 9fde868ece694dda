//! The fingerprint store: a mapping from item key to the version signature
//! that was last reconciled (announced, or deliberately suppressed). Pollers
//! consult it to decide whether an item is new, changed or already known.
//!
//! The store here is the in-memory state and its exact semantics; keeping a
//! durable copy of it on disk is the embedding program's concern and happens
//! outside the verified core, by mirroring every write it is handed back.

use vstd::prelude::*;

verus! {

/// One fingerprint: a key and the signature bytes stored under it.
pub struct StoreEntry {
    pub key: String,
    pub value: Vec<u8>,
}

/// A write the store performed, handed back so a durable copy can replay it.
pub struct StoreWrite {
    pub key: String,
    pub value: Vec<u8>,
}

/// The fingerprint store. Its abstract value is a map from key to signature
/// bytes; insert-or-update is atomic in the sense that the new map differs
/// from the old in exactly the written key.
pub struct Store {
    entries: Vec<StoreEntry>,
}

/// The mapping a sequence of entries denotes: later entries win.
pub open spec fn map_of(s: Seq<StoreEntry>) -> Map<Seq<char>, Seq<u8>>
    decreases s.len(),
{
    if s.len() == 0 {
        Map::empty()
    } else {
        map_of(s.drop_last()).insert(s.last().key@, s.last().value@)
    }
}

/// No two entries share a key.
pub open spec fn keys_distinct(s: Seq<StoreEntry>) -> bool {
    forall|i: int, j: int| 0 <= i < j < s.len() ==> s[i].key@ != s[j].key@
}

/// The keys of `map_of(s)` are exactly the keys occurring in `s`, and with
/// distinct keys each entry's value is the one mapped.
proof fn lemma_map_of_props(s: Seq<StoreEntry>)
    requires
        keys_distinct(s),
    ensures
        forall|k: Seq<char>|
            map_of(s).contains_key(k) <==> exists|i: int|
                0 <= i < s.len() && #[trigger] s[i].key@ == k,
        forall|i: int|
            0 <= i < s.len() ==> map_of(s).contains_key(#[trigger] s[i].key@) && map_of(s)[s[i].key@]
                == s[i].value@,
    decreases s.len(),
{
    if s.len() > 0 {
        let t = s.drop_last();
        assert(keys_distinct(t));
        lemma_map_of_props(t);
        assert forall|i: int| 0 <= i < s.len() implies map_of(s).contains_key(
            #[trigger] s[i].key@,
        ) && map_of(s)[s[i].key@] == s[i].value@ by {
            if i < s.len() - 1 {
                assert(t[i] == s[i]);
                assert(s[i].key@ != s.last().key@);
                assert(map_of(t).contains_key(s[i].key@));
            }
        }
        assert forall|k: Seq<char>| map_of(s).contains_key(k) implies exists|i: int|
            0 <= i < s.len() && #[trigger] s[i].key@ == k by {
            if k == s.last().key@ {
                assert(s[s.len() - 1].key@ == k);
            } else {
                assert(map_of(t).contains_key(k));
                let i = choose|i: int| 0 <= i < t.len() && #[trigger] t[i].key@ == k;
                assert(t[i] == s[i]);
                assert(s[i].key@ == k);
            }
        }
        assert forall|k: Seq<char>|
            (exists|i: int| 0 <= i < s.len() && #[trigger] s[i].key@ == k) implies map_of(
            s,
        ).contains_key(k) by {
            let i = choose|i: int| 0 <= i < s.len() && #[trigger] s[i].key@ == k;
            if i < s.len() - 1 {
                assert(t[i] == s[i]);
                assert(map_of(t).contains_key(k));
            }
        }
    }
}

/// The position of `key` among the entries, when it occurs.
fn find_idx(es: &Vec<StoreEntry>, key: &String) -> (r: Option<usize>)
    ensures
        match r {
            Some(i) => i < es@.len() && es@[i as int].key@ == key@,
            None => forall|j: int| 0 <= j < es@.len() ==> es@[j].key@ != key@,
        },
{
    let n = es.len();
    let mut i: usize = 0;
    while i < n
        invariant
            n == es@.len(),
            i <= n,
            forall|j: int| 0 <= j < i ==> es@[j].key@ != key@,
        decreases n - i,
    {
        if es[i].key == *key {
            return Some(i);
        }
        i += 1;
    }
    None
}

impl View for Store {
    type V = Map<Seq<char>, Seq<u8>>;

    closed spec fn view(&self) -> Map<Seq<char>, Seq<u8>> {
        map_of(self.entries@)
    }
}

impl Store {
    #[verifier::type_invariant]
    closed spec fn wf(self) -> bool {
        keys_distinct(self.entries@)
    }

    /// An empty store.
    pub fn new() -> (r: Store)
        ensures
            r@ == Map::<Seq<char>, Seq<u8>>::empty(),
    {
        Store { entries: Vec::new() }
    }

    /// Loads one fingerprint while building the store from a durable copy;
    /// a key given twice keeps its latest value.
    pub fn load(&mut self, key: String, value: Vec<u8>)
        ensures
            final(self)@ == old(self)@.insert(key@, value@),
    {
        self.put(key, value);
    }

    /// The signature stored under `key`, if any.
    pub fn get(&self, key: &String) -> (r: Option<&Vec<u8>>)
        ensures
            match r {
                Some(v) => self@.contains_key(key@) && v@ == self@[key@],
                None => !self@.contains_key(key@),
            },
    {
        proof {
            use_type_invariant(self);
            lemma_map_of_props(self.entries@);
        }
        match find_idx(&self.entries, key) {
            Some(i) => Some(&self.entries[i].value),
            None => None,
        }
    }

    /// Atomic insert-or-update: afterwards the store maps `key` to `value`
    /// and nothing else changed.
    pub fn put(&mut self, key: String, value: Vec<u8>)
        ensures
            final(self)@ == old(self)@.insert(key@, value@),
    {
        proof {
            use_type_invariant(&*self);
            lemma_map_of_props(self.entries@);
        }
        let ghost s0 = self.entries@;
        let mut es: Vec<StoreEntry> = Vec::new();
        core::mem::swap(&mut es, &mut self.entries);
        match find_idx(&es, &key) {
            Some(i) => {
                es[i] = StoreEntry { key, value };
                proof {
                    let s1 = es@;
                    assert(keys_distinct(s1));
                    lemma_map_of_props(s1);
                    assert forall|k: Seq<char>| #![auto] map_of(s1).contains_key(k) == map_of(
                        s0,
                    ).insert(s1[i as int].key@, s1[i as int].value@).contains_key(k) by {
                        if map_of(s1).contains_key(k) {
                            let t = choose|t: int| 0 <= t < s1.len() && #[trigger] s1[t].key@ == k;
                            if t != i {
                                assert(s0[t].key@ == k);
                            }
                        }
                        if map_of(s0).contains_key(k) {
                            let t = choose|t: int| 0 <= t < s0.len() && #[trigger] s0[t].key@ == k;
                            if t != i {
                                assert(s1[t].key@ == k);
                            } else {
                                assert(s1[i as int].key@ == k);
                            }
                        }
                    }
                    assert(map_of(s1) =~= map_of(s0).insert(s1[i as int].key@, s1[
                    i as int].value@));
                }
                self.entries = es;
            },
            None => {
                es.push(StoreEntry { key, value });
                proof {
                    let s1 = es@;
                    assert(s1.drop_last() =~= s0);
                    assert(keys_distinct(s1));
                }
                self.entries = es;
            },
        }
    }

    /// Drops the fingerprint stored under `key`, if any: the item is then
    /// reconciled as never seen. Used when a durable mirror of the store
    /// loses a write, so the item is announced again on the next cycle
    /// rather than silently differing from the mirror.
    pub fn remove(&mut self, key: &String)
        ensures
            final(self)@ == old(self)@.remove(key@),
    {
        proof {
            use_type_invariant(&*self);
            lemma_map_of_props(self.entries@);
        }
        let ghost s0 = self.entries@;
        let mut es: Vec<StoreEntry> = Vec::new();
        core::mem::swap(&mut es, &mut self.entries);
        match find_idx(&es, key) {
            Some(i) => {
                es.remove(i);
                proof {
                    let s1 = es@;
                    assert(forall|j: int|
                        0 <= j < s1.len() ==> #[trigger] s1[j] == (if j < i {
                            s0[j]
                        } else {
                            s0[j + 1]
                        }));
                    assert(keys_distinct(s1));
                    lemma_map_of_props(s1);
                    assert forall|k: Seq<char>| #![auto] map_of(s1).contains_key(k) == map_of(
                        s0,
                    ).remove(key@).contains_key(k) by {
                        if map_of(s1).contains_key(k) {
                            let t = choose|t: int| 0 <= t < s1.len() && #[trigger] s1[t].key@ == k;
                            if t < i {
                                assert(s0[t].key@ == k);
                            } else {
                                assert(s0[t + 1].key@ == k);
                            }
                        }
                        if map_of(s0).contains_key(k) && k != key@ {
                            let t = choose|t: int| 0 <= t < s0.len() && #[trigger] s0[t].key@ == k;
                            if t < i {
                                assert(s1[t].key@ == k);
                            } else {
                                assert(t > i);
                                assert(s1[t - 1].key@ == k);
                            }
                        }
                    }
                    assert(map_of(s1) =~= map_of(s0).remove(key@));
                }
                self.entries = es;
            },
            None => {
                proof {
                    assert(map_of(s0) =~= map_of(s0).remove(key@));
                }
                self.entries = es;
            },
        }
    }

    /// How many stored keys start with `prefix` — the per-source-kind count
    /// (every feed key starts with one fixed prefix, every registry key with
    /// another).
    pub fn scan_prefix(&self, prefix: &String) -> (n: usize)
        ensures
            n == self@.dom().filter(|k: Seq<char>| is_prefix_of(prefix@, k)).len(),
    {
        proof {
            use_type_invariant(self);
            lemma_count_prefixed(self.entries@, prefix@);
        }
        let m = self.entries.len();
        let mut n: usize = 0;
        let mut i: usize = 0;
        while i < m
            invariant
                m == self.entries@.len(),
                i <= m,
                n as nat == count_prefixed(self.entries@.take(i as int), prefix@),
                n <= i,
            decreases m - i,
        {
            proof {
                assert(self.entries@.take(i as int + 1).drop_last() =~= self.entries@.take(
                i as int));
                assert(self.entries@.take(i as int + 1).last() == self.entries@[i as int]);
            }
            if str_starts_with(&self.entries[i].key, prefix) {
                n += 1;
            }
            i += 1;
        }
        proof {
            assert(self.entries@.take(m as int) =~= self.entries@);
        }
        n
    }

    /// How many fingerprints are stored.
    pub fn len(&self) -> (n: usize)
        ensures
            n == self@.dom().len(),
    {
        proof {
            use_type_invariant(self);
            lemma_dom_card(self.entries@);
        }
        self.entries.len()
    }
}

/// Whether `p` is a prefix of `s`.
pub open spec fn is_prefix_of(p: Seq<char>, s: Seq<char>) -> bool {
    p.len() <= s.len() && s.take(p.len() as int) == p
}

/// How many entries of `s` have a key starting with `p`.
spec fn count_prefixed(s: Seq<StoreEntry>, p: Seq<char>) -> nat
    decreases s.len(),
{
    if s.len() == 0 {
        0
    } else {
        count_prefixed(s.drop_last(), p) + (if is_prefix_of(p, s.last().key@) {
            1nat
        } else {
            0nat
        })
    }
}

fn str_starts_with(s: &String, p: &String) -> (r: bool)
    ensures
        r == is_prefix_of(p@, s@),
{
    let sl = s.as_str().unicode_len();
    let pl = p.as_str().unicode_len();
    if pl > sl {
        return false;
    }
    let mut i: usize = 0;
    while i < pl
        invariant
            sl == s@.len(),
            pl == p@.len(),
            pl <= sl,
            i <= pl,
            forall|j: int| 0 <= j < i ==> s@[j] == p@[j],
        decreases pl - i,
    {
        let a = s.as_str().get_char(i);
        let b = p.as_str().get_char(i);
        if a != b {
            assert(s@.take(pl as int)[i as int] != p@[i as int]);
            return false;
        }
        i += 1;
    }
    proof {
        assert(s@.take(pl as int) =~= p@);
    }
    true
}

/// With distinct keys, each key of the denoted map starting with `p`
/// corresponds to exactly one entry, so the filtered domain counts the
/// prefixed entries.
proof fn lemma_count_prefixed(s: Seq<StoreEntry>, p: Seq<char>)
    requires
        keys_distinct(s),
    ensures
        map_of(s).dom().filter(|k: Seq<char>| is_prefix_of(p, k)).finite(),
        map_of(s).dom().filter(|k: Seq<char>| is_prefix_of(p, k)).len() == count_prefixed(s, p),
    decreases s.len(),
{
    let pred = |k: Seq<char>| is_prefix_of(p, k);
    if s.len() == 0 {
        assert(map_of(s).dom().filter(pred) =~= Set::<Seq<char>>::empty());
    } else {
        let t = s.drop_last();
        assert(keys_distinct(t));
        lemma_count_prefixed(t, p);
        lemma_map_of_props(t);
        let k = s.last().key@;
        assert(!map_of(t).contains_key(k)) by {
            if map_of(t).contains_key(k) {
                let i = choose|i: int| 0 <= i < t.len() && #[trigger] t[i].key@ == k;
                assert(t[i] == s[i]);
                assert(s[i].key@ == s[s.len() - 1].key@);
            }
        }
        assert(map_of(s).dom() =~= map_of(t).dom().insert(k));
        if is_prefix_of(p, k) {
            assert(map_of(s).dom().filter(pred) =~= map_of(t).dom().filter(pred).insert(k));
            assert(!map_of(t).dom().filter(pred).contains(k));
        } else {
            assert(map_of(s).dom().filter(pred) =~= map_of(t).dom().filter(pred));
        }
    }
}

/// With distinct keys, the denoted map has exactly one key per entry.
proof fn lemma_dom_card(s: Seq<StoreEntry>)
    requires
        keys_distinct(s),
    ensures
        map_of(s).dom().finite(),
        map_of(s).dom().len() == s.len(),
    decreases s.len(),
{
    if s.len() > 0 {
        let t = s.drop_last();
        assert(keys_distinct(t));
        lemma_dom_card(t);
        lemma_map_of_props(t);
        assert(!map_of(t).dom().contains(s.last().key@)) by {
            if map_of(t).contains_key(s.last().key@) {
                let i = choose|i: int| 0 <= i < t.len() && #[trigger] t[i].key@ == s.last().key@;
                assert(t[i] == s[i]);
                assert(s[i].key@ == s[s.len() - 1].key@);
            }
        }
        assert(map_of(s).dom() =~= map_of(t).dom().insert(s.last().key@));
    }
}

} // verus!
