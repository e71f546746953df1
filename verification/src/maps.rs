//! A map from names to texts, kept in the order in which names first came.
use crate::text;
use vstd::prelude::*;

verus! {

/// A map from names to texts. No name stands in it twice.
#[derive(Debug, PartialEq, Eq)]
pub struct StringMap {
    pub entries: Vec<(String, String)>,
}

/// The names and texts of a list of pairs.
pub open spec fn pair_views(entries: Seq<(String, String)>) -> Seq<(Seq<char>, Seq<char>)> {
    Seq::new(entries.len(), |i: int| (entries[i].0@, entries[i].1@))
}

/// The names of a list of pairs are distinct.
pub open spec fn distinct_names(pairs: Seq<(Seq<char>, Seq<char>)>) -> bool {
    forall|i: int, j: int|
        0 <= i < j < pairs.len() ==> #[trigger] pairs[i].0 != #[trigger] pairs[j].0
}

/// A name stands in a list of pairs.
pub open spec fn names(pairs: Seq<(Seq<char>, Seq<char>)>, k: Seq<char>) -> bool {
    exists|i: int| 0 <= i < pairs.len() && #[trigger] pairs[i].0 == k
}

/// The map that a list of pairs stands for.
pub open spec fn pairs_map(pairs: Seq<(Seq<char>, Seq<char>)>) -> Map<Seq<char>, Seq<char>> {
    Map::new(
        |k: Seq<char>| names(pairs, k),
        |k: Seq<char>|
            pairs[choose|i: int| 0 <= i < pairs.len() && #[trigger] pairs[i].0 == k].1,
    )
}

/// A list of distinct pairs after a name was given a text: in its old place
/// where it has one, else at the end.
pub open spec fn pairs_insert(
    pairs: Seq<(Seq<char>, Seq<char>)>,
    k: Seq<char>,
    v: Seq<char>,
) -> Seq<(Seq<char>, Seq<char>)> {
    if names(pairs, k) {
        Seq::new(pairs.len(), |i: int| if pairs[i].0 == k { (k, v) } else { pairs[i] })
    } else {
        pairs.push((k, v))
    }
}

/// In a list of distinct pairs, each text is found under its name.
pub proof fn law_pair_is_found(pairs: Seq<(Seq<char>, Seq<char>)>, i: int)
    requires
        distinct_names(pairs),
        0 <= i < pairs.len(),
    ensures
        pairs_map(pairs).contains_key(pairs[i].0),
        pairs_map(pairs)[pairs[i].0] == pairs[i].1,
{
    let k = pairs[i].0;
    assert(names(pairs, k));
    let j = choose|j: int| 0 <= j < pairs.len() && #[trigger] pairs[j].0 == k;
    assert(0 <= j < pairs.len() && pairs[j].0 == k);
    assert(i == j) by {
        if i < j {
            assert(pairs[i].0 != pairs[j].0);
        } else if j < i {
            assert(pairs[j].0 != pairs[i].0);
        }
    }
}

/// Giving a name a text keeps the names distinct and changes the map in that
/// name alone.
pub proof fn law_insert_changes_one(pairs: Seq<(Seq<char>, Seq<char>)>, k: Seq<char>, v: Seq<char>)
    requires
        distinct_names(pairs),
    ensures
        distinct_names(pairs_insert(pairs, k, v)),
        pairs_map(pairs_insert(pairs, k, v)) == pairs_map(pairs).insert(k, v),
{
    let after = pairs_insert(pairs, k, v);
    assert forall|i: int, j: int| 0 <= i < j < after.len() implies #[trigger] after[i].0
        != #[trigger] after[j].0 by {
        if j < pairs.len() {
            assert(pairs[i].0 != pairs[j].0);
        }
    }
    assert forall|q: Seq<char>| names(after, q) == (q == k || names(pairs, q)) by {
        if names(after, q) {
            let i = choose|i: int| 0 <= i < after.len() && #[trigger] after[i].0 == q;
            assert(0 <= i < after.len() && after[i].0 == q);
            if i < pairs.len() {
                assert(pairs[i].0 == q);
            }
        }
        if q == k {
            if names(pairs, k) {
                let i = choose|i: int| 0 <= i < pairs.len() && #[trigger] pairs[i].0 == k;
                assert(0 <= i < pairs.len() && pairs[i].0 == k);
                assert(after[i].0 == k);
            } else {
                assert(after[pairs.len() as int].0 == k);
            }
        } else if names(pairs, q) {
            let i = choose|i: int| 0 <= i < pairs.len() && #[trigger] pairs[i].0 == q;
            assert(0 <= i < pairs.len() && pairs[i].0 == q);
            assert(after[i].0 == q);
        }
    }
    assert forall|q: Seq<char>| names(after, q) implies #[trigger] pairs_map(after)[q] == pairs_map(
        pairs,
    ).insert(k, v)[q] by {
        let i = choose|i: int| 0 <= i < after.len() && #[trigger] after[i].0 == q;
        assert(0 <= i < after.len() && after[i].0 == q);
        law_pair_is_found(after, i);
        if q != k {
            assert(i < pairs.len());
            assert(pairs[i] == after[i]);
            law_pair_is_found(pairs, i);
        } else {
            assert(after[i].1 == v);
        }
    }
    assert(pairs_map(after) =~= pairs_map(pairs).insert(k, v));
}

impl View for StringMap {
    type V = Map<Seq<char>, Seq<char>>;

    open spec fn view(&self) -> Map<Seq<char>, Seq<char>> {
        pairs_map(self.pairs())
    }
}

impl StringMap {
    /// The pairs in their order.
    pub open spec fn pairs(&self) -> Seq<(Seq<char>, Seq<char>)> {
        pair_views(self.entries@)
    }

    /// No name stands in the map twice.
    pub open spec fn wf(&self) -> bool {
        distinct_names(self.pairs())
    }

    /// The empty map.
    pub fn new() -> (r: Self)
        ensures
            r.wf(),
            r.pairs() == Seq::<(Seq<char>, Seq<char>)>::empty(),
            r@ == Map::<Seq<char>, Seq<char>>::empty(),
    {
        let r: StringMap = StringMap { entries: Vec::new() };
        assert(r.pairs() =~= Seq::<(Seq<char>, Seq<char>)>::empty());
        assert(r@ =~= Map::<Seq<char>, Seq<char>>::empty());
        r
    }

    /// The place of a name.
    fn find(&self, key: &str) -> (r: Option<usize>)
        ensures
            match r {
                Some(i) => i < self.entries@.len() && self.pairs()[i as int].0 == key@,
                None => !names(self.pairs(), key@),
            },
    {
        let n: usize = self.entries.len();
        let mut i: usize = 0;
        while i < n
            invariant
                0 <= i <= n,
                n == self.entries@.len(),
                forall|j: int| 0 <= j < i ==> self.pairs()[j].0 != key@,
            decreases n - i,
        {
            if text::str_eq(self.entries[i].0.as_str(), key) {
                return Some(i);
            }
            assert(self.pairs()[i as int].0 != key@);
            i = i + 1;
        }
        None
    }

    /// The text of a name.
    pub fn get(&self, key: &str) -> (r: Option<String>)
        requires
            self.wf(),
        ensures
            text::opt_view(r) == if self@.contains_key(key@) {
                Some(self@[key@])
            } else {
                None
            },
    {
        match self.find(key) {
            Some(i) => {
                proof {
                    law_pair_is_found(self.pairs(), i as int);
                }
                Some(self.entries[i].1.clone())
            },
            None => None,
        }
    }

    /// Gives a name a text.
    pub fn insert(&mut self, key: String, value: String)
        requires
            old(self).wf(),
        ensures
            final(self).wf(),
            final(self).pairs() == pairs_insert(old(self).pairs(), key@, value@),
            final(self)@ == old(self)@.insert(key@, value@),
    {
        let ghost before = self.pairs();
        let ghost k = key@;
        let ghost v = value@;
        match self.find(key.as_str()) {
            Some(i) => {
                assert(before[i as int].0 == k);
                assert(names(before, k));
                self.entries.set(i, (key, value));
                assert forall|j: int| 0 <= j < before.len() implies self.pairs()[j]
                    == pairs_insert(before, k, v)[j] by {
                    if j < i {
                        assert(before[j].0 != before[i as int].0);
                    } else if j > i {
                        assert(before[i as int].0 != before[j].0);
                    }
                }
                assert(self.pairs() =~= pairs_insert(before, k, v));
            },
            None => {
                self.entries.push((key, value));
                assert(self.pairs() =~= pairs_insert(before, k, v));
            },
        }
        proof {
            law_insert_changes_one(before, k, v);
        }
    }

    /// Whether the map holds no name.
    pub fn is_empty(&self) -> (r: bool)
        ensures
            r == (self.pairs().len() == 0),
    {
        self.entries.len() == 0
    }
}

impl Clone for StringMap {
    fn clone(&self) -> (r: Self)
        ensures
            r.pairs() == self.pairs(),
    {
        StringMap { entries: copy_pairs(&self.entries) }
    }
}

/// A list with the same pairs.
pub fn copy_pairs(v: &Vec<(String, String)>) -> (r: Vec<(String, String)>)
    ensures
        r@ == v@,
{
    let n: usize = v.len();
    let mut r: Vec<(String, String)> = Vec::new();
    let mut i: usize = 0;
    while i < n
        invariant
            0 <= i <= n,
            n == v@.len(),
            r@.len() == i,
            forall|j: int| 0 <= j < i ==> #[trigger] r@[j] == v@[j],
        decreases n - i,
    {
        r.push((v[i].0.clone(), v[i].1.clone()));
        i = i + 1;
    }
    assert(r@ =~= v@);
    r
}

/// The pairs of an optional map.
pub open spec fn opt_pairs(m: Option<StringMap>) -> Option<Seq<(Seq<char>, Seq<char>)>> {
    match m {
        Some(m) => Some(m.pairs()),
        None => None,
    }
}

/// The pairs of a list are seen in their order, each name with its text; and a list
/// that is not there has none.
pub proof fn law_view_of_pairs(entries: Seq<(String, String)>, i: int)
    requires
        0 <= i < entries.len(),
    ensures
        pair_views(entries).len() == entries.len(),
        pair_views(entries)[i] == (entries[i].0@, entries[i].1@),
        opt_pairs(None) is None,
{
}

}
