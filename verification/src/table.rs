//! A string-keyed table of string values, holding each key once.

use vstd::prelude::*;

verus! {

/// The views of a sequence of key/value pairs.
pub open spec fn pair_views(v: Seq<(String, String)>) -> Seq<(Seq<char>, Seq<char>)> {
    Seq::new(v.len(), |i: int| (v[i].0@, v[i].1@))
}

/// The map that inserting the pairs of `s` in order builds (a later pair
/// replaces an earlier one with the same key).
pub open spec fn map_of(s: Seq<(Seq<char>, Seq<char>)>) -> Map<Seq<char>, Seq<char>>
    decreases s.len(),
{
    if s.len() == 0 {
        Map::empty()
    } else {
        map_of(s.drop_last()).insert(s.last().0, s.last().1)
    }
}

/// No key occurs twice in `s`.
pub open spec fn keys_unique(s: Seq<(Seq<char>, Seq<char>)>) -> bool {
    forall|i: int, j: int| 0 <= i < j < s.len() ==> s[i].0 != s[j].0
}

/// Domain of `map_of`: the keys that occur in the sequence.
pub proof fn lemma_map_of_dom(s: Seq<(Seq<char>, Seq<char>)>)
    ensures
        map_of(s).dom().finite(),
        forall|k: Seq<char>|
            #[trigger] map_of(s).dom().contains(k) <==> exists|i: int|
                0 <= i < s.len() && s[i].0 == k,
    decreases s.len(),
{
    if s.len() > 0 {
        let t = s.drop_last();
        lemma_map_of_dom(t);
        assert forall|k: Seq<char>| #[trigger]
            map_of(s).dom().contains(k) implies exists|i: int| 0 <= i < s.len() && s[i].0 == k by {
            if k == s.last().0 {
                assert(s[s.len() - 1].0 == k);
            } else {
                let i = choose|i: int| 0 <= i < t.len() && t[i].0 == k;
                assert(s[i].0 == k);
            }
        }
        assert forall|k: Seq<char>|
            (exists|i: int| 0 <= i < s.len() && s[i].0 == k) implies #[trigger] map_of(
            s,
        ).dom().contains(k) by {
            let i = choose|i: int| 0 <= i < s.len() && s[i].0 == k;
            if i < s.len() - 1 {
                assert(t[i].0 == k);
            }
        }
    }
}

/// With unique keys, each pair's value is what `map_of` gives for its key,
/// and the map has one entry per pair.
pub proof fn lemma_map_of_unique(s: Seq<(Seq<char>, Seq<char>)>)
    requires
        keys_unique(s),
    ensures
        forall|i: int| 0 <= i < s.len() ==> #[trigger] map_of(s)[s[i].0] == s[i].1,
        map_of(s).dom().len() == s.len(),
    decreases s.len(),
{
    lemma_map_of_dom(s);
    if s.len() > 0 {
        let t = s.drop_last();
        assert(keys_unique(t));
        lemma_map_of_unique(t);
        lemma_map_of_dom(t);
        assert forall|i: int| 0 <= i < s.len() implies #[trigger] map_of(s)[s[i].0] == s[i].1 by {
            if i < s.len() - 1 {
                assert(t[i] == s[i]);
            }
        }
        assert(!map_of(t).dom().contains(s.last().0)) by {
            if map_of(t).dom().contains(s.last().0) {
                let i = choose|i: int| 0 <= i < t.len() && t[i].0 == s.last().0;
                assert(s[i].0 == s[s.len() - 1].0);
            }
        }
    }
}

/// The views of a sequence of strings.
pub open spec fn string_views(v: Seq<String>) -> Seq<Seq<char>> {
    Seq::new(v.len(), |i: int| v[i]@)
}

/// `a` comes no later than `b` in the order of `String`: lexicographic by
/// code point, a prefix first.
pub open spec fn text_le(a: Seq<char>, b: Seq<char>) -> bool
    decreases a.len(),
{
    if a.len() == 0 {
        true
    } else if b.len() == 0 {
        false
    } else if (a[0] as u32) < (b[0] as u32) {
        true
    } else if (a[0] as u32) > (b[0] as u32) {
        false
    } else {
        text_le(a.drop_first(), b.drop_first())
    }
}

/// Sorts the strings with `slice::sort`, which orders them ascending by
/// `String`'s `Ord` (byte-wise lexicographic, the same as code point order):
/// afterwards `v` holds the same strings, each no later than the next.
#[verifier::external_body]
fn sort_strings(v: &mut Vec<String>)
    ensures
        string_views(final(v)@).to_multiset() == string_views(old(v)@).to_multiset(),
        forall|i: int|
            0 <= i < final(v)@.len() - 1 ==> text_le(
                #[trigger] final(v)@[i]@,
                final(v)@[i + 1]@,
            ),
{
    v.sort();
}

/// A table of text values by text key; each key occurs once.
pub struct TextMap {
    entries: Vec<(String, String)>,
}

impl View for TextMap {
    type V = Map<Seq<char>, Seq<char>>;

    closed spec fn view(&self) -> Map<Seq<char>, Seq<char>> {
        map_of(pair_views(self.entries@))
    }
}

impl TextMap {
    #[verifier::type_invariant]
    spec fn keys_distinct(self) -> bool {
        keys_unique(pair_views(self.entries@))
    }

    /// The table's entries, as (key, value) views, in storage order.
    pub closed spec fn entry_views(&self) -> Seq<(Seq<char>, Seq<char>)> {
        pair_views(self.entries@)
    }

    /// The entries list each key of the table once, with its value.
    fn lemma_entries(&self)
        ensures
            keys_unique(self.entry_views()),
            self@ == map_of(self.entry_views()),
            self@.dom().finite(),
            self@.dom().len() == self.entry_views().len(),
            forall|i: int|
                0 <= i < self.entry_views().len() ==> #[trigger] self@[self.entry_views()[i].0]
                    == self.entry_views()[i].1,
            forall|k: Seq<char>|
                #[trigger] self@.dom().contains(k) <==> exists|i: int|
                    0 <= i < self.entry_views().len() && self.entry_views()[i].0 == k,
    {
        proof {
            use_type_invariant(self);
            lemma_map_of_dom(self.entry_views());
            lemma_map_of_unique(self.entry_views());
        }
    }

    /// An empty table.
    pub fn new() -> (r: Self)
        ensures
            r@ == Map::<Seq<char>, Seq<char>>::empty(),
    {
        let r = TextMap { entries: Vec::new() };
        assert(pair_views(r.entries@) =~= Seq::<(Seq<char>, Seq<char>)>::empty());
        r
    }

    /// Number of keys.
    pub fn len(&self) -> (r: usize)
        ensures
            r == self@.dom().len(),
    {
        self.lemma_entries();
        self.entries.len()
    }

    /// Whether the table holds no key.
    pub fn is_empty(&self) -> (r: bool)
        ensures
            r == (self@.dom().len() == 0),
    {
        self.len() == 0
    }

    /// Position of `key` among the entries.
    fn position(&self, key: &String) -> (r: Option<usize>)
        ensures
            match r {
                Some(i) => i < self.entries@.len() && self.entries@[i as int].0@ == key@,
                None => forall|i: int|
                    0 <= i < self.entries@.len() ==> self.entries@[i].0@ != key@,
            },
    {
        let n = self.entries.len();
        let mut i: usize = 0;
        while i < n
            invariant
                i <= n == self.entries@.len(),
                forall|j: int| 0 <= j < i ==> self.entries@[j].0@ != key@,
            decreases n - i,
        {
            if self.entries[i].0 == *key {
                return Some(i);
            }
            i = i + 1;
        }
        None
    }

    /// The value stored under `key`.
    pub fn get(&self, key: &String) -> (r: Option<&String>)
        ensures
            match r {
                Some(v) => self@.dom().contains(key@) && self@[key@] == v@,
                None => !self@.dom().contains(key@),
            },
    {
        self.lemma_entries();
        match self.position(key) {
            Some(i) => {
                assert(self.entry_views()[i as int].0 == key@);
                assert(self@[key@] == self.entry_views()[i as int].1);
                Some(&self.entries[i].1)
            },
            None => {
                assert forall|j: int| 0 <= j < self.entry_views().len() implies self.entry_views()[j].0
                    != key@ by {
                    assert(self.entries@[j].0@ != key@);
                }
                None
            },
        }
    }

    /// Whether `key` is in the table.
    pub fn contains_key(&self, key: &String) -> (r: bool)
        ensures
            r == self@.dom().contains(key@),
    {
        self.get(key).is_some()
    }

    /// Stores `value` under `key`, replacing any value it had.
    pub fn insert(&mut self, key: String, value: String)
        ensures
            final(self)@ == old(self)@.insert(key@, value@),
    {
        self.lemma_entries();
        let ghost old_views = self.entry_views();
        let ghost kv = key@;
        let ghost vv = value@;
        match self.position(&key) {
            Some(i) => {
                let ghost new_views = old_views.update(i as int, (kv, vv));
                assert(keys_unique(new_views)) by {
                    assert forall|a: int, b: int| 0 <= a < b < new_views.len() implies new_views[a].0
                        != new_views[b].0 by {
                        assert(old_views[a].0 == new_views[a].0);
                        assert(old_views[b].0 == new_views[b].0);
                    }
                }
                let mut entries: Vec<(String, String)> = Vec::new();
                std::mem::swap(&mut entries, &mut self.entries);
                entries.set(i, (key, value));
                assert(pair_views(entries@) =~= new_views);
                self.entries = entries;
                proof {
                    lemma_map_of_dom(new_views);
                    lemma_map_of_unique(new_views);
                    lemma_map_of_dom(old_views);
                    lemma_map_of_unique(old_views);
                    let m_new = map_of(new_views);
                    let m_old = map_of(old_views).insert(kv, vv);
                    assert forall|k: Seq<char>| #[trigger]
                        m_new.dom().contains(k) == m_old.dom().contains(k) by {
                        if m_new.dom().contains(k) {
                            let j = choose|j: int| 0 <= j < new_views.len() && new_views[j].0 == k;
                            assert(old_views[j].0 == k);
                        }
                        if map_of(old_views).dom().contains(k) {
                            let j = choose|j: int| 0 <= j < old_views.len() && old_views[j].0 == k;
                            assert(new_views[j].0 == k);
                        }
                        if k == kv {
                            assert(new_views[i as int].0 == k);
                        }
                    }
                    assert forall|k: Seq<char>| #[trigger]
                        m_new.dom().contains(k) implies m_new[k] == m_old[k] by {
                        let j = choose|j: int| 0 <= j < new_views.len() && new_views[j].0 == k;
                        assert(m_new[new_views[j].0] == new_views[j].1);
                        assert(new_views[i as int].0 == kv);
                        if j != i {
                            assert(k != kv);
                            assert(map_of(old_views)[old_views[j].0] == old_views[j].1);
                        }
                    }
                    assert(m_new =~= m_old);
                }
            },
            None => {
                let ghost new_views = old_views.push((kv, vv));
                assert(keys_unique(new_views)) by {
                    assert forall|a: int, b: int| 0 <= a < b < new_views.len() implies new_views[a].0
                        != new_views[b].0 by {
                        if b == old_views.len() {
                            assert(self.entries@[a].0@ != kv);
                        }
                    }
                }
                let mut entries: Vec<(String, String)> = Vec::new();
                std::mem::swap(&mut entries, &mut self.entries);
                entries.push((key, value));
                assert(pair_views(entries@) =~= new_views);
                self.entries = entries;
                assert(new_views.drop_last() =~= old_views);
            },
        }
    }

    /// A table built by inserting the given pairs in order.
    pub fn from_pairs(pairs: Vec<(String, String)>) -> (r: Self)
        ensures
            r@ == map_of(pair_views(pairs@)),
    {
        let mut r = TextMap::new();
        let n = pairs.len();
        let mut i: usize = 0;
        while i < n
            invariant
                i <= n == pairs@.len(),
                r@ == map_of(pair_views(pairs@).take(i as int)),
            decreases n - i,
        {
            let k = pairs[i].0.clone();
            let v = pairs[i].1.clone();
            r.insert(k, v);
            assert(pair_views(pairs@).take(i + 1).drop_last() =~= pair_views(pairs@).take(i as int));
            i = i + 1;
        }
        assert(pair_views(pairs@).take(n as int) =~= pair_views(pairs@));
        r
    }

    /// The keys, each once, in ascending order.
    pub fn sorted_keys(&self) -> (r: Vec<String>)
        ensures
            r@.len() == self@.dom().len(),
            forall|k: Seq<char>| self@.dom().contains(k) <==> string_views(r@).contains(k),
            forall|i: int| 0 <= i < r@.len() - 1 ==> text_le(#[trigger] r@[i]@, r@[i + 1]@),
    {
        self.lemma_entries();
        let n = self.entries.len();
        let mut keys: Vec<String> = Vec::new();
        let mut i: usize = 0;
        while i < n
            invariant
                i <= n == self.entries@.len(),
                keys@.len() == i,
                forall|j: int| 0 <= j < i ==> (#[trigger] keys@[j])@ == self.entries@[j].0@,
            decreases n - i,
        {
            keys.push(self.entries[i].0.clone());
            i = i + 1;
        }
        let ghost before = string_views(keys@);
        assert forall|k: Seq<char>| self@.dom().contains(k) <==> before.contains(k) by {
            if self@.dom().contains(k) {
                let j = choose|j: int| 0 <= j < self.entry_views().len() && self.entry_views()[j].0 == k;
                assert(before[j] == k);
            }
            if before.contains(k) {
                let j = choose|j: int| 0 <= j < before.len() && before[j] == k;
                assert(self.entry_views()[j].0 == k);
            }
        }
        sort_strings(&mut keys);
        proof {
            broadcast use vstd::seq_lib::group_to_multiset_ensures;
            let after = string_views(keys@);
            assert forall|k: Seq<char>| before.contains(k) <==> after.contains(k) by {
                assert(before.to_multiset().count(k) == after.to_multiset().count(k));
            }
            assert(before.to_multiset().len() == after.to_multiset().len());
        }
        keys
    }

    /// The entries, as (key, value) pairs in storage order.
    pub fn to_pairs(&self) -> (r: Vec<(String, String)>)
        ensures
            pair_views(r@) == self.entry_views(),
            map_of(pair_views(r@)) == self@,
    {
        let n = self.entries.len();
        let mut r: Vec<(String, String)> = Vec::new();
        let mut i: usize = 0;
        while i < n
            invariant
                i <= n == self.entries@.len(),
                r@.len() == i,
                pair_views(r@) =~= pair_views(self.entries@).take(i as int),
            decreases n - i,
        {
            let k = self.entries[i].0.clone();
            let v = self.entries[i].1.clone();
            r.push((k, v));
            assert(r@[i as int].0 == self.entries@[i as int].0);
            assert(r@[i as int].1 == self.entries@[i as int].1);
            assert(pair_views(r@) =~= pair_views(self.entries@).take(i + 1));
            i = i + 1;
        }
        assert(pair_views(self.entries@).take(n as int) =~= pair_views(self.entries@));
        r
    }
}

impl Clone for TextMap {
    fn clone(&self) -> (r: Self)
        ensures
            r@ == self@,
    {
        proof {
            use_type_invariant(self);
        }
        let pairs = self.to_pairs();
        let r = TextMap { entries: pairs };
        r
    }
}

} // verus!
