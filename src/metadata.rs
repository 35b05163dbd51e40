use vstd::prelude::*;
use crate::value::{Value, copy_value};

verus! {

/// The mapping that a list of entries stands for: where a key occurs more than
/// once, its last entry wins.
pub open spec fn map_of(e: Seq<(String, Value)>) -> Map<Seq<char>, Value>
    decreases e.len(),
{
    if e.len() == 0 {
        Map::empty()
    } else {
        map_of(e.drop_last()).insert(e.last().0@, e.last().1)
    }
}

/// Shallow merge of two metadata maps: every key of `later` takes its value
/// from `later`, every other key of `earlier` keeps its value.
pub open spec fn merged(earlier: Map<Seq<char>, Value>, later: Map<Seq<char>, Value>) -> Map<Seq<char>, Value> {
    earlier.union_prefer_right(later)
}

/// The test that keeps every entry whose key is not `k`.
pub open spec fn key_differs(k: Seq<char>) -> spec_fn((String, Value)) -> bool {
    |p: (String, Value)| p.0@ != k
}

/// A metadata map from string keys to structured values.
#[derive(Debug)]
pub struct Metadata {
    /// Key-value pairs in insertion order; where a key occurs twice the later
    /// pair is the one in force.
    pub entries: Vec<(String, Value)>,
}

/// Whether two strings hold the same characters.
pub fn str_eq(a: &str, b: &str) -> (r: bool)
    ensures
        r == (a@ == b@),
{
    a.to_owned() == b.to_owned()
}

proof fn lemma_map_of_absent(e: Seq<(String, Value)>, k: Seq<char>)
    requires
        forall|j: int| 0 <= j < e.len() ==> e[j].0@ != k,
    ensures
        !map_of(e).contains_key(k),
    decreases e.len(),
{
    if e.len() > 0 {
        lemma_map_of_absent(e.drop_last(), k);
    }
}

proof fn lemma_map_of_last_match(e: Seq<(String, Value)>, i: int)
    requires
        0 <= i < e.len(),
        forall|j: int| i < j < e.len() ==> e[j].0@ != e[i].0@,
    ensures
        map_of(e).contains_key(e[i].0@),
        map_of(e)[e[i].0@] == e[i].1,
    decreases e.len(),
{
    if i < e.len() - 1 {
        lemma_map_of_last_match(e.drop_last(), i);
    }
}

proof fn lemma_map_of_without(e: Seq<(String, Value)>, k: Seq<char>)
    ensures
        map_of(e.filter(key_differs(k))) == map_of(e).remove(k),
    decreases e.len(),
{
    let f = key_differs(k);
    if e.len() == 0 {
        assert(e.filter(f) =~= Seq::<(String, Value)>::empty());
        assert(map_of(e).remove(k) =~= Map::empty());
    } else {
        let d = e.drop_last();
        let x = e.last();
        lemma_map_of_without(d, k);
        assert(e =~= d.push(x));
        d.lemma_filter_push(x, f);
        assert(f(x) == (x.0@ != k));
        if x.0@ == k {
            assert(e.filter(f) == d.filter(f));
            assert(map_of(e).remove(k) =~= map_of(d).remove(k));
        } else {
            assert(e.filter(f) == d.filter(f).push(x));
            assert(d.filter(f).push(x).drop_last() =~= d.filter(f));
            assert(map_of(e).remove(k) =~= map_of(d).remove(k).insert(x.0@, x.1));
        }
    }
}

impl View for Metadata {
    type V = Map<Seq<char>, Value>;

    open spec fn view(&self) -> Map<Seq<char>, Value> {
        map_of(self.entries@)
    }
}

impl Metadata {
    /// An empty map.
    pub fn new() -> (r: Metadata)
        ensures
            r@ == Map::<Seq<char>, Value>::empty(),
    {
        Metadata { entries: Vec::new() }
    }

    /// Builds a map from key-value pairs; where a key occurs twice the later
    /// pair wins.
    pub fn from_pairs(pairs: Vec<(String, Value)>) -> (r: Metadata)
        ensures
            r@ == map_of(pairs@),
    {
        Metadata { entries: pairs }
    }

    /// A copy of the map.
    pub fn copy(&self) -> (r: Metadata)
        ensures
            r@ == self@,
            r.entries@ == self.entries@,
    {
        let mut out: Vec<(String, Value)> = Vec::new();
        let mut i: usize = 0;
        while i < self.entries.len()
            invariant
                i <= self.entries@.len(),
                out@ == self.entries@.subrange(0, i as int),
            decreases self.entries@.len() - i,
        {
            out.push((self.entries[i].0.clone(), copy_value(&self.entries[i].1)));
            i = i + 1;
            assert(out@ =~= self.entries@.subrange(0, i as int));
        }
        assert(out@ =~= self.entries@);
        Metadata { entries: out }
    }

    /// The entries as key-value pairs, in insertion order; where a key occurs
    /// twice the later pair is the one in force.
    pub fn pairs(&self) -> (r: &Vec<(String, Value)>)
        ensures
            map_of(r@) == self@,
    {
        &self.entries
    }

    /// The value under `key`, if any.
    pub fn get(&self, key: &str) -> (r: Option<&Value>)
        ensures
            r == (if self@.contains_key(key@) { Some(&self@[key@]) } else { None }),
    {
        let mut i: usize = self.entries.len();
        while i > 0
            invariant
                i <= self.entries@.len(),
                forall|j: int| i <= j < self.entries@.len() ==> self.entries@[j].0@ != key@,
            decreases i,
        {
            if str_eq(self.entries[i - 1].0.as_str(), key) {
                proof {
                    lemma_map_of_last_match(self.entries@, i - 1);
                }
                return Some(&self.entries[i - 1].1);
            }
            i = i - 1;
        }
        proof {
            lemma_map_of_absent(self.entries@, key@);
        }
        None
    }

    /// Whether `key` has a value.
    pub fn contains_key(&self, key: &str) -> (r: bool)
        ensures
            r == self@.contains_key(key@),
    {
        self.get(key).is_some()
    }

    /// Sets `key` to `value`, replacing any earlier value.
    pub fn insert(&mut self, key: String, value: Value)
        ensures
            final(self)@ == old(self)@.insert(key@, value),
    {
        self.entries.push((key, value));
        assert(self.entries@.drop_last() =~= old(self).entries@);
    }

    /// Removes `key`, returning the value it had.
    pub fn remove(&mut self, key: &str) -> (r: Option<Value>)
        ensures
            final(self)@ == old(self)@.remove(key@),
            r == (if old(self)@.contains_key(key@) { Some(old(self)@[key@]) } else { None }),
    {
        let ghost k = key@;
        let ghost f = key_differs(k);
        let ghost whole = self.entries@;
        let mut source: Vec<(String, Value)> = Vec::new();
        std::mem::swap(&mut source, &mut self.entries);
        let mut kept: Vec<(String, Value)> = Vec::new();
        let mut found: Option<Value> = None;
        let ghost mut t: int = 0;
        while source.len() > 0
            invariant
                k == key@,
                f == key_differs(k),
                0 <= t <= whole.len(),
                source@ == whole.subrange(t, whole.len() as int),
                kept@ == whole.subrange(0, t).filter(f),
                found == (if map_of(whole.subrange(0, t)).contains_key(k) {
                    Some(map_of(whole.subrange(0, t))[k])
                } else {
                    None
                }),
            decreases source@.len(),
        {
            let x = source.remove(0);
            proof {
                assert(x == whole[t]);
                assert(whole.subrange(0, t + 1) =~= whole.subrange(0, t).push(x));
                assert(whole.subrange(0, t + 1).drop_last() =~= whole.subrange(0, t));
                whole.subrange(0, t).lemma_filter_push(x, f);
                t = t + 1;
                assert(source@ =~= whole.subrange(t, whole.len() as int));
            }
            let same = str_eq(x.0.as_str(), key);
            proof {
                assert(f(x) == !same);
            }
            if same {
                found = Some(x.1);
            } else {
                kept.push(x);
            }
        }
        proof {
            assert(whole.subrange(0, t) =~= whole);
            lemma_map_of_without(whole, k);
        }
        self.entries = kept;
        found
    }

    /// Adds every entry of `later`; where both hold a key, `later` wins.
    pub fn extend(&mut self, later: Metadata)
        ensures
            final(self)@ == merged(old(self)@, later@),
    {
        let mut rest = later.entries;
        proof {
            lemma_map_of_concat(self.entries@, rest@);
        }
        self.entries.append(&mut rest);
    }
}

proof fn lemma_map_of_concat(a: Seq<(String, Value)>, b: Seq<(String, Value)>)
    ensures
        map_of(a + b) == map_of(a).union_prefer_right(map_of(b)),
    decreases b.len(),
{
    if b.len() == 0 {
        assert(a + b =~= a);
        assert(map_of(a).union_prefer_right(map_of(b)) =~= map_of(a));
    } else {
        lemma_map_of_concat(a, b.drop_last());
        assert((a + b).drop_last() =~= a + b.drop_last());
        assert(map_of(a + b) =~= map_of(a).union_prefer_right(map_of(b)));
    }
}

/// Merging keeps the keys of both maps; a key that the later map holds takes
/// the later map's value, every other key keeps the earlier map's value.
pub proof fn merge_later_wins(earlier: Metadata, later: Metadata)
    ensures
        merged(earlier@, later@).dom() == earlier@.dom().union(later@.dom()),
        forall|k: Seq<char>|
            later@.contains_key(k) ==> #[trigger] merged(earlier@, later@)[k] == later@[k],
        forall|k: Seq<char>|
            earlier@.contains_key(k) && !later@.contains_key(k) ==> #[trigger] merged(
                earlier@,
                later@,
            )[k] == earlier@[k],
{
    assert(merged(earlier@, later@).dom() =~= earlier@.dom().union(later@.dom()));
}

/// Merging `a` then `b` then `c` gives the same map as merging `a` with the
/// merge of `b` and `c`.
pub proof fn merge_associative(a: Metadata, b: Metadata, c: Metadata)
    ensures
        merged(merged(a@, b@), c@) == merged(a@, merged(b@, c@)),
{
    assert(merged(merged(a@, b@), c@) =~= merged(a@, merged(b@, c@)));
}

/// Merges two metadata maps; where both hold a key, `later` wins.
pub fn merge(earlier: Metadata, later: Metadata) -> (r: Metadata)
    ensures
        r@ == merged(earlier@, later@),
{
    let mut r = earlier;
    r.extend(later);
    r
}

} // verus!
