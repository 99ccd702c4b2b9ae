//! A table of named text values in which no name occurs twice.

use vstd::prelude::*;

verus! {

/// One entry of a table as texts: the name and the value.
pub type Entry = (Seq<char>, Seq<char>);

/// The entries that a sequence of string pairs holds, in order.
pub open spec fn entries_of(v: Seq<(String, String)>) -> Seq<Entry> {
    Seq::new(v.len(), |i: int| (v[i].0@, v[i].1@))
}

/// Whether no name occurs twice in `s`.
pub open spec fn distinct_names(s: Seq<Entry>) -> bool {
    forall|i: int, j: int| 0 <= i < j < s.len() ==> (#[trigger] s[i]).0 != (#[trigger] s[j]).0
}

/// Whether entry `i` of `s` has the name `k`.
pub open spec fn named_at(s: Seq<Entry>, k: Seq<char>, i: int) -> bool {
    0 <= i < s.len() && s[i].0 == k
}

/// The mapping that results when the entries of `s` are written into an
/// empty one in order: a later entry replaces an earlier one of its name.
pub open spec fn mapping_of(s: Seq<Entry>) -> Map<Seq<char>, Seq<char>>
    decreases s.len(),
{
    if s.len() == 0 {
        Map::empty()
    } else {
        mapping_of(s.drop_last()).insert(s.last().0, s.last().1)
    }
}

/// A name is in the mapping exactly when an entry has it.
pub proof fn lemma_mapping_names(s: Seq<Entry>, k: Seq<char>)
    ensures
        mapping_of(s).contains_key(k) <==> exists|i: int| named_at(s, k, i),
    decreases s.len(),
{
    if s.len() > 0 {
        let r = s.drop_last();
        lemma_mapping_names(r, k);
        if mapping_of(s).contains_key(k) {
            if s.last().0 == k {
                assert(named_at(s, k, s.len() - 1));
            } else {
                let i = choose|i: int| named_at(r, k, i);
                assert(named_at(s, k, i));
            }
        }
        if exists|i: int| named_at(s, k, i) {
            let i = choose|i: int| named_at(s, k, i);
            if i < s.len() - 1 {
                assert(named_at(r, k, i));
            }
        }
    }
}

/// Where no name occurs twice, the mapping gives each entry's value.
pub proof fn lemma_mapping_value(s: Seq<Entry>, i: int)
    requires
        distinct_names(s),
        0 <= i < s.len(),
    ensures
        mapping_of(s).contains_key(s[i].0),
        mapping_of(s)[s[i].0] == s[i].1,
    decreases s.len(),
{
    if i < s.len() - 1 {
        let r = s.drop_last();
        assert(distinct_names(r)) by {
            assert forall|a: int, b: int| 0 <= a < b < r.len() implies (#[trigger] r[a]).0 != (
            #[trigger] r[b]).0 by {
                assert(r[a] == s[a] && r[b] == s[b]);
            }
        }
        assert(r[i] == s[i]);
        lemma_mapping_value(r, i);
        assert(s[i].0 != s[s.len() - 1].0);
    }
}

/// Taking an entry out of a table without repeated names takes its name out
/// of the mapping.
pub proof fn lemma_mapping_remove(s: Seq<Entry>, i: int)
    requires
        distinct_names(s),
        0 <= i < s.len(),
    ensures
        distinct_names(s.remove(i)),
        mapping_of(s.remove(i)) == mapping_of(s).remove(s[i].0),
{
    let t = s.remove(i);
    let k = s[i].0;
    assert forall|a: int, b: int| 0 <= a < b < t.len() implies (#[trigger] t[a]).0 != (
    #[trigger] t[b]).0 by {
        let a0 = if a < i { a } else { a + 1 };
        let b0 = if b < i { b } else { b + 1 };
        assert(t[a] == s[a0] && t[b] == s[b0]);
    }
    assert forall|n: Seq<char>| #[trigger]
        mapping_of(t).contains_key(n) <==> mapping_of(s).remove(k).contains_key(n) by {
        lemma_mapping_names(t, n);
        lemma_mapping_names(s, n);
        if exists|j: int| named_at(t, n, j) {
            let j = choose|j: int| named_at(t, n, j);
            let j0 = if j < i { j } else { j + 1 };
            assert(t[j] == s[j0]);
            assert(named_at(s, n, j0));
            assert(s[j0].0 != s[i].0);
        }
        if n != k && exists|j: int| named_at(s, n, j) {
            let j = choose|j: int| named_at(s, n, j);
            let j1 = if j < i { j } else { j - 1 };
            assert(t[j1] == s[j]);
            assert(named_at(t, n, j1));
        }
    }
    assert forall|n: Seq<char>| #[trigger] mapping_of(t).contains_key(n) implies mapping_of(t)[n]
        == mapping_of(s).remove(k)[n] by {
        lemma_mapping_names(t, n);
        let j = choose|j: int| named_at(t, n, j);
        let j0 = if j < i { j } else { j + 1 };
        assert(t[j] == s[j0]);
        lemma_mapping_value(t, j);
        lemma_mapping_value(s, j0);
    }
    assert(mapping_of(t) =~= mapping_of(s).remove(k));
}

/// Giving an entry of a table without repeated names a new value writes that
/// value under its name.
pub proof fn lemma_mapping_update(s: Seq<Entry>, i: int, v: Seq<char>)
    requires
        distinct_names(s),
        0 <= i < s.len(),
    ensures
        distinct_names(s.update(i, (s[i].0, v))),
        mapping_of(s.update(i, (s[i].0, v))) == mapping_of(s).insert(s[i].0, v),
{
    let k = s[i].0;
    let t = s.update(i, (k, v));
    assert forall|a: int, b: int| 0 <= a < b < t.len() implies (#[trigger] t[a]).0 != (
    #[trigger] t[b]).0 by {
        assert(t[a].0 == s[a].0 && t[b].0 == s[b].0);
    }
    assert forall|n: Seq<char>| #[trigger]
        mapping_of(t).contains_key(n) <==> mapping_of(s).insert(k, v).contains_key(n) by {
        lemma_mapping_names(t, n);
        lemma_mapping_names(s, n);
        if exists|j: int| named_at(t, n, j) {
            let j = choose|j: int| named_at(t, n, j);
            assert(named_at(s, n, j));
        }
        if exists|j: int| named_at(s, n, j) {
            let j = choose|j: int| named_at(s, n, j);
            assert(named_at(t, n, j));
        }
        if n == k {
            assert(named_at(t, n, i));
        }
    }
    assert forall|n: Seq<char>| #[trigger] mapping_of(t).contains_key(n) implies mapping_of(t)[n]
        == mapping_of(s).insert(k, v)[n] by {
        lemma_mapping_names(t, n);
        let j = choose|j: int| named_at(t, n, j);
        lemma_mapping_value(t, j);
        if j != i {
            assert(named_at(s, n, j));
            lemma_mapping_value(s, j);
        }
    }
    assert(mapping_of(t) =~= mapping_of(s).insert(k, v));
}

/// Adding an entry under a new name keeps the names distinct.
pub proof fn lemma_distinct_push(s: Seq<Entry>, e: Entry)
    requires
        distinct_names(s),
        !mapping_of(s).contains_key(e.0),
    ensures
        distinct_names(s.push(e)),
        mapping_of(s.push(e)) == mapping_of(s).insert(e.0, e.1),
{
    let t = s.push(e);
    assert(t.drop_last() == s);
    assert forall|a: int, b: int| 0 <= a < b < t.len() implies (#[trigger] t[a]).0 != (
    #[trigger] t[b]).0 by {
        if b == s.len() {
            lemma_mapping_names(s, e.0);
            assert(t[a] == s[a]);
            if s[a].0 == e.0 {
                assert(named_at(s, e.0, a));
            }
        } else {
            assert(t[a] == s[a] && t[b] == s[b]);
        }
    }
}

/// A table from names to values. It keeps its entries in the order in which
/// their names were first written, and no name twice.
pub struct Table {
    entries: Vec<(String, String)>,
}

impl View for Table {
    type V = Map<Seq<char>, Seq<char>>;

    closed spec fn view(&self) -> Map<Seq<char>, Seq<char>> {
        mapping_of(entries_of(self.entries@))
    }
}

impl Table {
    #[verifier::type_invariant]
    spec fn names_are_distinct(&self) -> bool {
        distinct_names(entries_of(self.entries@))
    }

    /// The empty table.
    pub fn new() -> (t: Table)
        ensures
            t@ == Map::<Seq<char>, Seq<char>>::empty(),
    {
        let entries: Vec<(String, String)> = Vec::new();
        assert(entries_of(entries@) =~= Seq::<Entry>::empty());
        Table { entries }
    }

    /// Where `key` stands among the entries, if it does.
    fn position(&self, key: &String) -> (at: Option<usize>)
        ensures
            match at {
                Some(i) => named_at(entries_of(self.entries@), key@, i as int),
                None => !self@.contains_key(key@),
            },
    {
        let mut i: usize = 0;
        while i < self.entries.len()
            invariant
                i <= self.entries.len(),
                forall|j: int| 0 <= j < i ==> !named_at(entries_of(self.entries@), key@, j),
            decreases self.entries.len() - i,
        {
            if self.entries[i].0 == *key {
                return Some(i);
            }
            i += 1;
        }
        proof {
            lemma_mapping_names(entries_of(self.entries@), key@);
        }
        None
    }

    /// Whether the table has an entry under `key`.
    pub fn contains_key(&self, key: &String) -> (found: bool)
        ensures
            found == self@.contains_key(key@),
    {
        let at = self.position(key);
        proof {
            lemma_mapping_names(entries_of(self.entries@), key@);
        }
        at.is_some()
    }

    /// The value under `key`, if the table has one.
    pub fn get(&self, key: &String) -> (value: Option<String>)
        ensures
            match value {
                Some(v) => self@.contains_key(key@) && self@[key@] == v@,
                None => !self@.contains_key(key@),
            },
    {
        match self.position(key) {
            Some(i) => {
                proof {
                    use_type_invariant(self);
                    lemma_mapping_value(entries_of(self.entries@), i as int);
                }
                Some(self.entries[i].1.clone())
            },
            None => None,
        }
    }

    /// Writes `value` under `key`, in place of the value that was there.
    pub fn insert(&mut self, key: String, value: String)
        ensures
            final(self)@ == old(self)@.insert(key@, value@),
    {
        proof {
            use_type_invariant(&*self);
        }
        let at = self.position(&key);
        let mut entries: Vec<(String, String)> = Vec::new();
        assert(entries_of(entries@) =~= Seq::<Entry>::empty());
        core::mem::swap(&mut self.entries, &mut entries);
        let ghost before = entries_of(entries@);
        match at {
            Some(i) => {
                proof {
                    lemma_mapping_update(before, i as int, value@);
                    assert(entries_of(entries@.update(i as int, (key, value))) =~= before.update(
                        i as int,
                        (key@, value@),
                    ));
                }
                entries.set(i, (key, value));
            },
            None => {
                proof {
                    lemma_distinct_push(before, (key@, value@));
                    assert(entries_of(entries@.push((key, value))) =~= before.push(
                        (key@, value@),
                    ));
                }
                entries.push((key, value));
            },
        }
        core::mem::swap(&mut self.entries, &mut entries);
    }

    /// Takes the entry under `key` out of the table, and says whether there
    /// was one.
    pub fn remove(&mut self, key: &String) -> (found: bool)
        ensures
            found == old(self)@.contains_key(key@),
            final(self)@ == old(self)@.remove(key@),
    {
        proof {
            use_type_invariant(&*self);
        }
        let ghost before = entries_of(self.entries@);
        match self.position(key) {
            Some(i) => {
                let mut entries: Vec<(String, String)> = Vec::new();
                assert(entries_of(entries@) =~= Seq::<Entry>::empty());
                core::mem::swap(&mut self.entries, &mut entries);
                proof {
                    lemma_mapping_names(before, key@);
                    lemma_mapping_remove(before, i as int);
                    assert(entries_of(entries@.remove(i as int)) =~= before.remove(i as int));
                }
                let _ = entries.remove(i);
                core::mem::swap(&mut self.entries, &mut entries);
                true
            },
            None => {
                assert(self@.remove(key@) =~= self@);
                false
            },
        }
    }

    /// The entries of the table, each name once with its value, in the order
    /// in which the names were first written.
    pub fn pairs(&self) -> (out: Vec<(String, String)>)
        ensures
            distinct_names(entries_of(out@)),
            mapping_of(entries_of(out@)) == self@,
    {
        proof {
            use_type_invariant(self);
        }
        let mut out: Vec<(String, String)> = Vec::new();
        let mut i: usize = 0;
        while i < self.entries.len()
            invariant
                i <= self.entries.len(),
                entries_of(out@) =~= entries_of(self.entries@).take(i as int),
            decreases self.entries.len() - i,
        {
            let name = self.entries[i].0.clone();
            let value = self.entries[i].1.clone();
            let ghost seen = entries_of(out@);
            out.push((name, value));
            assert(entries_of(out@) =~= seen.push((name@, value@)));
            i += 1;
        }
        proof {
            assert(entries_of(self.entries@).take(self.entries@.len() as int) == entries_of(
                self.entries@,
            ));
        }
        out
    }

    /// The table that results when the pairs of `pairs` are written into an
    /// empty one in order.
    pub fn from_pairs(pairs: &Vec<(String, String)>) -> (t: Table)
        ensures
            t@ == mapping_of(entries_of(pairs@)),
    {
        let mut t = Table::new();
        let mut i: usize = 0;
        while i < pairs.len()
            invariant
                i <= pairs.len(),
                t@ == mapping_of(entries_of(pairs@).take(i as int)),
            decreases pairs.len() - i,
        {
            proof {
                let next = entries_of(pairs@).take(i + 1);
                assert(next.drop_last() == entries_of(pairs@).take(i as int));
                assert(next.last() == (pairs@[i as int].0@, pairs@[i as int].1@));
            }
            let name = pairs[i].0.clone();
            let value = pairs[i].1.clone();
            t.insert(name, value);
            i += 1;
        }
        proof {
            assert(entries_of(pairs@).take(pairs@.len() as int) == entries_of(pairs@));
        }
        t
    }
}

/// A listing without repeated names holds exactly the pairs of its mapping.
pub proof fn lemma_listing_is_exact(s: Seq<Entry>, k: Seq<char>, v: Seq<char>)
    requires
        distinct_names(s),
    ensures
        s.contains((k, v)) <==> mapping_of(s).contains_pair(k, v),
{
    lemma_mapping_names(s, k);
    if s.contains((k, v)) {
        let i = choose|i: int| 0 <= i < s.len() && s[i] == (k, v);
        lemma_mapping_value(s, i);
    }
    if mapping_of(s).contains_pair(k, v) {
        let i = choose|i: int| named_at(s, k, i);
        lemma_mapping_value(s, i);
        assert(s[i] == (k, v));
    }
}

} // verus!
