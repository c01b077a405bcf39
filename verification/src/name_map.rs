//! A map keyed by names, kept in the order of its keys.

use vstd::prelude::*;

use crate::text::chars_of;

verus! {

/// The order of `String` keys: lexicographic by character (the byte order of their UTF-8
/// encodings).
pub open spec fn name_lt(a: Seq<char>, b: Seq<char>) -> bool
    decreases a.len(),
{
    if a.len() == 0 {
        b.len() > 0
    } else if b.len() == 0 {
        false
    } else if a[0] != b[0] {
        a[0] < b[0]
    } else {
        name_lt(a.drop_first(), b.drop_first())
    }
}

/// No name comes before itself.
pub proof fn lemma_name_lt_irreflexive(a: Seq<char>)
    ensures
        !name_lt(a, a),
    decreases a.len(),
{
    if a.len() > 0 {
        lemma_name_lt_irreflexive(a.drop_first());
    }
}

/// The order of names is transitive.
pub proof fn lemma_name_lt_transitive(a: Seq<char>, b: Seq<char>, c: Seq<char>)
    requires
        name_lt(a, b),
        name_lt(b, c),
    ensures
        name_lt(a, c),
    decreases a.len(),
{
    if a.len() > 0 && b.len() > 0 && c.len() > 0 && a[0] == b[0] && b[0] == c[0] {
        lemma_name_lt_transitive(a.drop_first(), b.drop_first(), c.drop_first());
    }
}

/// Of two distinct names, one comes before the other.
pub proof fn lemma_name_lt_total(a: Seq<char>, b: Seq<char>)
    requires
        a != b,
    ensures
        name_lt(a, b) || name_lt(b, a),
    decreases a.len(),
{
    if a.len() > 0 && b.len() > 0 && a[0] == b[0] {
        if a.drop_first() == b.drop_first() {
            assert(a =~= seq![a[0]] + a.drop_first());
            assert(b =~= seq![b[0]] + b.drop_first());
        }
        lemma_name_lt_total(a.drop_first(), b.drop_first());
    } else if a.len() == 0 {
        assert(b.len() > 0) by {
            if b.len() == 0 {
                assert(a =~= b);
            }
        }
    }
}

/// Compares two names: negative, zero or positive as `a` comes before, equals or comes
/// after `b`.
pub fn compare_names(a: &str, b: &str) -> (r: i8)
    ensures
        r < 0 <==> name_lt(a@, b@),
        r == 0 <==> a@ == b@,
        r > 0 <==> name_lt(b@, a@),
{
    let x = chars_of(a);
    let y = chars_of(b);
    let mut i: usize = 0;
    assert(x@.skip(0) =~= x@);
    assert(y@.skip(0) =~= y@);
    while i < x.len() && i < y.len() && x[i] == y[i]
        invariant
            i <= x@.len(),
            i <= y@.len(),
            x@.take(i as int) == y@.take(i as int),
            name_lt(x@, y@) == name_lt(x@.skip(i as int), y@.skip(i as int)),
            name_lt(y@, x@) == name_lt(y@.skip(i as int), x@.skip(i as int)),
        decreases x.len() - i,
    {
        proof {
            assert(x@.skip(i as int).drop_first() =~= x@.skip(i + 1));
            assert(y@.skip(i as int).drop_first() =~= y@.skip(i + 1));
            assert(x@.take(i + 1) =~= x@.take(i as int).push(x@[i as int]));
            assert(y@.take(i + 1) =~= y@.take(i as int).push(y@[i as int]));
        }
        i = i + 1;
    }
    proof {
        lemma_name_lt_irreflexive(x@);
    }
    if i == x.len() && i == y.len() {
        assert(x@ =~= x@.take(i as int));
        assert(y@ =~= y@.take(i as int));
        0
    } else if i == x.len() {
        proof {
            assert(x@.skip(i as int).len() == 0);
            if x@ == y@ {
                assert(x@.len() == y@.len());
            }
        }
        -1
    } else if i == y.len() {
        proof {
            assert(y@.skip(i as int).len() == 0);
            if x@ == y@ {
                assert(x@.len() == y@.len());
            }
        }
        1
    } else if x[i] < y[i] {
        proof {
            assert(x@.skip(i as int)[0] == x@[i as int]);
            assert(y@.skip(i as int)[0] == y@[i as int]);
            if x@ == y@ {
                assert(x@[i as int] == y@[i as int]);
            }
        }
        -1
    } else {
        proof {
            assert(x@.skip(i as int)[0] == x@[i as int]);
            assert(y@.skip(i as int)[0] == y@[i as int]);
            if x@ == y@ {
                assert(x@[i as int] == y@[i as int]);
            }
        }
        1
    }
}

/// Values keyed by name, in increasing order of name with no name twice, as a
/// `BTreeMap<String, V>` holds them.
#[derive(Debug, Clone, PartialEq, Eq)]
pub struct NameMap<V> {
    entries: Vec<(String, V)>,
}

impl<V> NameMap<V> {
    /// The names, in the order the entries are kept.
    pub closed spec fn keys(self) -> Seq<Seq<char>> {
        self.entries@.map_values(|e: (String, V)| e.0@)
    }

    /// The entries, names taken by their characters, in the order they are kept.
    pub closed spec fn entry_seq(self) -> Seq<(Seq<char>, V)> {
        self.entries@.map_values(|e: (String, V)| (e.0@, e.1))
    }

    /// The names increase strictly along the entries.
    pub open spec fn wf(self) -> bool {
        forall|i: int, j: int|
            0 <= i < j < self.entry_seq().len() ==> name_lt(
                #[trigger] self.entry_seq()[i].0,
                #[trigger] self.entry_seq()[j].0,
            )
    }

    /// The map from names to values.
    pub open spec fn view(self) -> Map<Seq<char>, V> {
        Map::new(
            |k: Seq<char>| exists|i: int| 0 <= i < self.entry_seq().len() && self.entry_seq()[i].0 == k,
            |k: Seq<char>| self.entry_seq()[self.index_of_key(k)].1,
        )
    }

    /// A position where `k` is kept, if it is kept.
    pub open spec fn index_of_key(self, k: Seq<char>) -> int {
        choose|i: int| 0 <= i < self.entry_seq().len() && self.entry_seq()[i].0 == k
    }

    /// An empty map.
    pub fn new() -> (m: Self)
        ensures
            m.wf(),
            m.view() == Map::<Seq<char>, V>::empty(),
            m.entry_seq().len() == 0,
    {
        let m = NameMap { entries: Vec::new() };
        assert(m.view() =~= Map::<Seq<char>, V>::empty());
        m
    }

    /// The number of entries.
    pub fn len(&self) -> (n: usize)
        ensures
            n == self.entry_seq().len(),
    {
        self.entries.len()
    }

    /// The entries in increasing order of name.
    pub fn entries(&self) -> (r: &Vec<(String, V)>)
        ensures
            r@.map_values(|e: (String, V)| (e.0@, e.1)) == self.entry_seq(),
    {
        &self.entries
    }

    /// The value kept under `name`, if any.
    pub fn get(&self, name: &str) -> (r: Option<&V>)
        requires
            self.wf(),
        ensures
            r matches Some(v) ==> self.view().contains_key(name@) && *v == self.view()[name@],
            r is None ==> !self.view().contains_key(name@),
    {
        let ghost es = self.entry_seq();
        let mut i: usize = 0;
        while i < self.entries.len()
            invariant
                es == self.entry_seq(),
                es.len() == self.entries@.len(),
                self.wf(),
                i <= es.len(),
                forall|j: int| 0 <= j < i ==> es[j].0 != name@,
            decreases self.entries.len() - i,
        {
            assert(es[i as int].0 == self.entries@[i as int].0@);
            if compare_names(self.entries[i].0.as_str(), name) == 0 {
                proof {
                    self.lemma_index_unique(i as int);
                }
                return Some(&self.entries[i].1);
            }
            i = i + 1;
        }
        None
    }

    proof fn lemma_index_unique(self, i: int)
        requires
            self.wf(),
            0 <= i < self.entry_seq().len(),
        ensures
            self.view().contains_key(self.entry_seq()[i].0),
            self.view()[self.entry_seq()[i].0] == self.entry_seq()[i].1,
    {
        let es = self.entry_seq();
        let k = es[i].0;
        assert(0 <= i < es.len() && es[i].0 == k);
        assert(self.view().contains_key(k));
        let j = self.index_of_key(k);
        assert(0 <= j < es.len() && es[j].0 == k);
        assert(self.view()[k] == es[j].1);
        if j != i {
            lemma_name_lt_irreflexive(k);
            if j < i {
                assert(name_lt(es[j].0, es[i].0));
            } else {
                assert(name_lt(es[i].0, es[j].0));
            }
        }
    }

    /// Puts `value` under `name`, replacing the value kept there, as `BTreeMap::insert` does.
    pub fn insert(&mut self, name: String, value: V)
        requires
            old(self).wf(),
        ensures
            final(self).wf(),
            final(self).view() == old(self).view().insert(name@, value),
    {
        let ghost old_es = self.entry_seq();
        let ghost k = name@;
        let mut i: usize = 0;
        while i < self.entries.len() && compare_names(self.entries[i].0.as_str(), name.as_str()) < 0
            invariant
                old_es == self.entry_seq(),
                old_es.len() == self.entries@.len(),
                self.wf(),
                i <= old_es.len(),
                forall|j: int| 0 <= j < i ==> name_lt(#[trigger] old_es[j].0, k),
                k == name@,
            decreases self.entries.len() - i,
        {
            assert(old_es[i as int].0 == self.entries@[i as int].0@);
            i = i + 1;
        }
        let ghost old_view = self.view();
        if i < self.entries.len() && compare_names(self.entries[i].0.as_str(), name.as_str()) == 0 {
            assert(old_es[i as int].0 == k);
            self.entries.set(i, (name, value));
            let ghost es = self.entry_seq();
            assert(es =~= old_es.update(i as int, (k, value)));
            assert(self.wf());
            proof {
                self.lemma_index_unique(i as int);
                assert forall|key: Seq<char>| #[trigger] self.view().contains_key(key)
                    == old_view.insert(k, value).contains_key(key) by {
                    if key != k {
                        if exists|j: int| 0 <= j < old_es.len() && old_es[j].0 == key {
                            let j = choose|j: int| 0 <= j < old_es.len() && old_es[j].0 == key;
                            assert(es[j].0 == key);
                        }
                        if exists|j: int| 0 <= j < es.len() && es[j].0 == key {
                            let j = choose|j: int| 0 <= j < es.len() && es[j].0 == key;
                            assert(old_es[j].0 == key);
                        }
                    }
                }
                assert forall|key: Seq<char>| #[trigger] self.view().contains_key(key) implies self.view()[key]
                    == old_view.insert(k, value)[key] by {
                    if key != k {
                        let j = choose|j: int| 0 <= j < es.len() && es[j].0 == key;
                        self.lemma_index_unique(j);
                        assert(old_es[j] == es[j]);
                        assert(old_view.contains_key(key));
                        let oj = choose|oj: int| 0 <= oj < old_es.len() && old_es[oj].0 == key;
                        assert(old_view[key] == old_es[oj].1);
                        if oj != j {
                            lemma_name_lt_irreflexive(key);
                            if oj < j {
                                assert(name_lt(old_es[oj].0, old_es[j].0));
                            } else {
                                assert(name_lt(old_es[j].0, old_es[oj].0));
                            }
                        }
                    }
                }
                assert(self.view() =~= old_view.insert(k, value));
            }
        } else {
            proof {
                if i < old_es.len() {
                    assert(old_es[i as int].0 == self.entries@[i as int].0@);
                    assert(name_lt(k, old_es[i as int].0));
                }
            }
            self.entries.insert(i, (name, value));
            let ghost es = self.entry_seq();
            assert(es =~= old_es.insert(i as int, (k, value)));
            proof {
                assert forall|a: int, b: int| 0 <= a < b < es.len() implies name_lt(
                    #[trigger] es[a].0,
                    #[trigger] es[b].0,
                ) by {
                    if b < i {
                    } else if b == i {
                    } else if a < i {
                        assert(name_lt(old_es[a].0, k));
                        if b - 1 > i {
                            assert(name_lt(old_es[i as int].0, old_es[b - 1].0));
                            lemma_name_lt_transitive(k, old_es[i as int].0, old_es[b - 1].0);
                        }
                        lemma_name_lt_transitive(old_es[a].0, k, old_es[b - 1].0);
                    } else if a == i {
                        if b - 1 > i {
                            assert(name_lt(old_es[i as int].0, old_es[b - 1].0));
                            lemma_name_lt_transitive(k, old_es[i as int].0, old_es[b - 1].0);
                        }
                    } else {
                        assert(name_lt(old_es[a - 1].0, old_es[b - 1].0));
                    }
                }
                assert(self.wf());
                assert(!old_view.contains_key(k)) by {
                    if old_view.contains_key(k) {
                        let j = choose|j: int| 0 <= j < old_es.len() && old_es[j].0 == k;
                        lemma_name_lt_irreflexive(k);
                        if j >= i {
                            if j > i {
                                assert(name_lt(old_es[i as int].0, old_es[j].0));
                                lemma_name_lt_transitive(k, old_es[i as int].0, old_es[j].0);
                            }
                        }
                    }
                }
                assert(es[i as int].0 == k);
                self.lemma_index_unique(i as int);
                assert forall|key: Seq<char>| #[trigger] self.view().contains_key(key)
                    == old_view.insert(k, value).contains_key(key) by {
                    if key != k {
                        if exists|j: int| 0 <= j < old_es.len() && old_es[j].0 == key {
                            let j = choose|j: int| 0 <= j < old_es.len() && old_es[j].0 == key;
                            if j < i {
                                assert(es[j].0 == key);
                            } else {
                                assert(es[j + 1].0 == key);
                            }
                        }
                        if exists|j: int| 0 <= j < es.len() && es[j].0 == key {
                            let j = choose|j: int| 0 <= j < es.len() && es[j].0 == key;
                            if j < i {
                                assert(old_es[j].0 == key);
                            } else {
                                assert(old_es[j - 1].0 == key);
                            }
                        }
                    }
                }
                assert forall|key: Seq<char>| #[trigger] self.view().contains_key(key) implies self.view()[key]
                    == old_view.insert(k, value)[key] by {
                    if key != k {
                        let j = choose|j: int| 0 <= j < es.len() && es[j].0 == key;
                        self.lemma_index_unique(j);
                        let oj = if j < i { j } else { j - 1 };
                        assert(old_es[oj] == es[j]);
                        let cj = choose|cj: int| 0 <= cj < old_es.len() && old_es[cj].0 == key;
                        assert(old_view[key] == old_es[cj].1);
                        if cj != oj {
                            lemma_name_lt_irreflexive(key);
                            if cj < oj {
                                assert(name_lt(old_es[cj].0, old_es[oj].0));
                            } else {
                                assert(name_lt(old_es[oj].0, old_es[cj].0));
                            }
                        }
                    }
                }
                assert(self.view() =~= old_view.insert(k, value));
            }
        }
    }

    /// Puts each entry of `other` into the map, replacing the values kept under its names, as
    /// `Extend` does for a `BTreeMap`.
    pub fn extend(&mut self, other: NameMap<V>)
        requires
            old(self).wf(),
            other.wf(),
        ensures
            final(self).wf(),
            final(self).view() == old(self).view().union_prefer_right(other.view()),
    {
        let ghost es = other.entry_seq();
        let ghost ov = other.view();
        let ghost old_view = self.view();
        proof {
            assert forall|j: int| 0 <= j < es.len() implies ov.contains_key(#[trigger] es[j].0)
                && ov[es[j].0] == es[j].1 by {
                other.lemma_index_unique(j);
            }
        }
        let mut rest = other.entries;
        let ghost mut i: int = 0;
        while rest.len() > 0
            invariant
                self.wf(),
                other.wf(),
                es == other.entry_seq(),
                ov == other.view(),
                0 <= i <= es.len(),
                rest@.map_values(|e: (String, V)| (e.0@, e.1)) == es.skip(i as int),
                forall|j: int| 0 <= j < es.len() ==> ov.contains_key(#[trigger] es[j].0) && ov[es[j].0] == es[j].1,
                forall|k: Seq<char>| #[trigger] self.view().contains_key(k) <==> (old_view.contains_key(k) || exists|j: int| 0 <= j < i && es[j].0 == k),
                forall|j: int| 0 <= j < i ==> #[trigger] self.view()[es[j].0] == es[j].1,
                forall|k: Seq<char>| old_view.contains_key(k) && !(exists|j: int| 0 <= j < i && es[j].0 == k) ==> #[trigger] self.view()[k] == old_view[k],
            decreases rest.len(),
        {
            let ghost before = self.view();
            let ghost rs = rest@;
            let ghost ms = rs.map_values(|e: (String, V)| (e.0@, e.1));
            assert(ms.len() == es.len() - i);
            assert(ms[0] == es[i as int]);
            let pair = rest.remove(0);
            assert(pair == rs[0]);
            assert(ms[0] == (pair.0@, pair.1));
            assert forall|j: int| 0 <= j < rest@.len() implies (#[trigger] rest@[j]).0@ == es[i + 1 + j].0
                && rest@[j].1 == es[i + 1 + j].1 by {
                assert(rest@[j] == rs[j + 1]);
                assert(ms[j + 1] == es[i + 1 + j]);
            }
            assert(rest@.map_values(|e: (String, V)| (e.0@, e.1)) =~= es.skip(i + 1));
            let (k, v) = pair;
            let ghost key = k@;
            assert(key == es[i as int].0 && v == es[i as int].1);
            self.insert(k, v);
            proof {
                assert forall|j: int| 0 <= j < i implies es[j].0 != key by {
                    assert(name_lt(es[j].0, es[i as int].0));
                    lemma_name_lt_irreflexive(key);
                }
                assert forall|kk: Seq<char>| #[trigger] self.view().contains_key(kk) <==> (old_view.contains_key(kk) || exists|j: int| 0 <= j < i + 1 && es[j].0 == kk) by {
                    if kk == key {
                        assert(es[i as int].0 == kk);
                    } else {
                        if exists|j: int| 0 <= j < i + 1 && es[j].0 == kk {
                            let j = choose|j: int| 0 <= j < i + 1 && es[j].0 == kk;
                            assert(j < i);
                        }
                    }
                }
                assert forall|kk: Seq<char>| old_view.contains_key(kk) && !(exists|j: int| 0 <= j < i + 1 && es[j].0 == kk) implies #[trigger] self.view()[kk] == old_view[kk] by {
                    assert(es[i as int].0 != kk);
                    assert(!(exists|j: int| 0 <= j < i && es[j].0 == kk)) by {
                        if exists|j: int| 0 <= j < i && es[j].0 == kk {
                            let j = choose|j: int| 0 <= j < i && es[j].0 == kk;
                            assert(0 <= j < i + 1 && es[j].0 == kk);
                        }
                    }
                }
            }
            proof {
                i = i + 1;
            }
        }
        proof {
            assert(es.skip(i as int).len() == 0);
            assert(i == es.len());
            let target = old_view.union_prefer_right(ov);
            assert forall|kk: Seq<char>| ov.contains_key(kk) implies exists|j: int| 0 <= j < es.len() && es[j].0 == kk by {
                let j = other.index_of_key(kk);
                assert(0 <= j < es.len() && es[j].0 == kk);
            }
            assert forall|kk: Seq<char>| #[trigger] self.view().contains_key(kk) == target.contains_key(kk) by {
                if exists|j: int| 0 <= j < es.len() && es[j].0 == kk {
                    let j = choose|j: int| 0 <= j < es.len() && es[j].0 == kk;
                    assert(ov.contains_key(es[j].0));
                }
            }
            assert forall|kk: Seq<char>| #[trigger] self.view().contains_key(kk) implies self.view()[kk] == target[kk] by {
                if ov.contains_key(kk) {
                    let j = choose|j: int| 0 <= j < es.len() && es[j].0 == kk;
                    assert(self.view()[es[j].0] == es[j].1);
                } else {
                    if exists|j: int| 0 <= j < i && es[j].0 == kk {
                        let j = choose|j: int| 0 <= j < i && es[j].0 == kk;
                        assert(ov.contains_key(es[j].0));
                    }
                }
            }
            assert(self.view() =~= target);
        }
    }
}

} // verus!
