//! The metadata mapping of a post: field names to values, kept in name order.
use vstd::prelude::*;

use crate::text::{compare_text, differ_at, text_lt};
use crate::value::{FieldModel, FieldValue};

verus! {

/// The order on names is transitive.
pub proof fn lemma_text_lt_transitive(a: Seq<char>, b: Seq<char>, c: Seq<char>)
    requires
        text_lt(a, b),
        text_lt(b, c),
    ensures
        text_lt(a, c),
{
    let k1 = choose|k: int|
        #[trigger] differ_at(a, b, k) && (k == a.len() || (k < b.len() && a[k] < b[k]));
    let k2 = choose|k: int|
        #[trigger] differ_at(b, c, k) && (k == b.len() || (k < c.len() && b[k] < c[k]));
    if k1 < k2 {
        assert(differ_at(a, c, k1));
    } else if k2 < k1 {
        assert(differ_at(a, c, k2));
    } else {
        assert(differ_at(a, c, k1));
    }
}

/// A name never sorts before itself.
pub proof fn lemma_text_lt_irreflexive(a: Seq<char>)
    ensures
        !text_lt(a, a),
{
}

/// Field names mapped to values, each name once, in ascending name order.
pub struct Metadata {
    pub entries: Vec<(String, FieldValue)>,
}

impl View for Metadata {
    type V = Map<Seq<char>, FieldModel>;

    open spec fn view(&self) -> Map<Seq<char>, FieldModel> {
        Map::new(|k: Seq<char>| self.has(k), |k: Seq<char>| self.entries@[self.index_of(k)].1@)
    }
}

impl Metadata {
    /// The name of the field at position `i`.
    pub open spec fn key(self, i: int) -> Seq<char> {
        self.entries@[i].0@
    }

    /// The value of the field at position `i`.
    pub open spec fn value(self, i: int) -> FieldModel {
        self.entries@[i].1@
    }

    /// Names ascend strictly from each position to every later one.
    pub open spec fn wf(self) -> bool {
        forall|i: int, j: int|
            0 <= i < j < self.entries.len() ==> #[trigger] text_lt(self.key(i), self.key(j))
    }

    /// Some field is named `k`.
    pub open spec fn has(self, k: Seq<char>) -> bool {
        exists|i: int| 0 <= i < self.entries.len() && #[trigger] self.key(i) == k
    }

    /// The position of the field named `k`.
    pub open spec fn index_of(self, k: Seq<char>) -> int {
        choose|i: int| 0 <= i < self.entries.len() && #[trigger] self.key(i) == k
    }

    /// Distinct positions hold distinct names.
    pub proof fn lemma_unique(self, i: int, j: int)
        requires
            self.wf(),
            0 <= i < self.entries.len(),
            0 <= j < self.entries.len(),
            self.key(i) == self.key(j),
        ensures
            i == j,
    {
        if i < j {
            assert(text_lt(self.key(i), self.key(j)));
        } else if j < i {
            assert(text_lt(self.key(j), self.key(i)));
        }
    }

    /// The field at position `i` is what the mapping holds under its name.
    pub proof fn lemma_at(self, i: int)
        requires
            self.wf(),
            0 <= i < self.entries.len(),
        ensures
            self@.contains_key(self.key(i)),
            self@[self.key(i)] == self.value(i),
            self.index_of(self.key(i)) == i,
    {
        assert(self.has(self.key(i)));
        self.lemma_unique(i, self.index_of(self.key(i)));
    }

    /// A mapping with no fields.
    pub fn new() -> (r: Metadata)
        ensures
            r.wf(),
            r@ == Map::<Seq<char>, FieldModel>::empty(),
            r.entries.len() == 0,
    {
        let r = Metadata { entries: Vec::new() };
        assert(r@ =~= Map::<Seq<char>, FieldModel>::empty());
        r
    }

    /// The number of fields.
    pub fn len(&self) -> (r: usize)
        ensures
            r == self.entries.len(),
    {
        self.entries.len()
    }

    /// Where `k` stands: `Ok` with its position, or `Err` with the position it
    /// would be inserted at.
    pub fn find(&self, k: &str) -> (r: Result<usize, usize>)
        requires
            self.wf(),
        ensures
            match r {
                Ok(i) => i < self.entries.len() && self.key(i as int) == k@,
                Err(p) => p <= self.entries.len() && (forall|j: int|
                    0 <= j < p ==> text_lt(#[trigger] self.key(j), k@)) && (forall|j: int|
                    p <= j < self.entries.len() ==> text_lt(k@, #[trigger] self.key(j))),
            },
            r is Ok <==> self@.contains_key(k@),
    {
        let mut i: usize = 0;
        while i < self.entries.len()
            invariant
                self.wf(),
                i <= self.entries.len(),
                forall|j: int| 0 <= j < i ==> text_lt(#[trigger] self.key(j), k@),
            decreases self.entries.len() - i,
        {
            let c = compare_text(self.entries[i].0.as_str(), k);
            if c == 0 {
                assert(self.key(i as int) == k@);
                return Ok(i);
            }
            if c > 0 {
                assert forall|j: int| i <= j < self.entries.len() implies text_lt(
                    k@,
                    #[trigger] self.key(j),
                ) by {
                    if j > i {
                        assert(text_lt(self.key(i as int), self.key(j)));
                        lemma_text_lt_transitive(k@, self.key(i as int), self.key(j));
                    }
                }
                assert forall|j: int| 0 <= j < self.entries.len() implies #[trigger] self.key(j)
                    != k@ by {
                    lemma_text_lt_irreflexive(k@);
                    if j >= i {
                        assert(text_lt(k@, self.key(j)));
                    } else {
                        assert(text_lt(self.key(j), k@));
                    }
                }
                return Err(i);
            }
            i = i + 1;
        }
        assert forall|j: int| 0 <= j < self.entries.len() implies #[trigger] self.key(j) != k@ by {
            lemma_text_lt_irreflexive(k@);
            assert(text_lt(self.key(j), k@));
        }
        Err(i)
    }

    /// The value of the field named `k`, if there is one.
    pub fn get(&self, k: &str) -> (r: Option<&FieldValue>)
        requires
            self.wf(),
        ensures
            r is Some <==> self@.contains_key(k@),
            r is Some ==> r->0@ == self@[k@],
    {
        match self.find(k) {
            Ok(i) => {
                proof {
                    self.lemma_at(i as int);
                }
                Some(&self.entries[i].1)
            },
            Err(_) => None,
        }
    }

    /// Sets the field named `k` to `v`, adding it if it was absent.
    pub fn insert(&mut self, k: String, v: FieldValue)
        requires
            old(self).wf(),
        ensures
            final(self).wf(),
            final(self)@ == old(self)@.insert(k@, v@),
    {
        let ghost pre = *self;
        match self.find(k.as_str()) {
            Ok(i) => {
                let ghost kv = k@;
                let ghost vv = v@;
                self.entries.remove(i);
                self.entries.insert(i, (k, v));
                assert(self.entries@ == pre.entries@.update(i as int, self.entries@[i as int]));
                assert(self.wf()) by {
                    assert forall|a: int, b: int|
                        0 <= a < b < self.entries.len() implies #[trigger] text_lt(
                        self.key(a),
                        self.key(b),
                    ) by {
                        assert(self.key(a) == pre.key(a));
                        assert(self.key(b) == pre.key(b));
                        assert(text_lt(pre.key(a), pre.key(b)));
                    }
                }
                assert(self@ =~= pre@.insert(kv, vv)) by {
                    assert forall|q: Seq<char>| #[trigger] self.has(q) == pre.has(q) by {
                        if self.has(q) {
                            let j = choose|j: int|
                                0 <= j < self.entries.len() && #[trigger] self.key(j) == q;
                            assert(pre.key(j) == q);
                        }
                        if pre.has(q) {
                            let j = choose|j: int|
                                0 <= j < pre.entries.len() && #[trigger] pre.key(j) == q;
                            assert(self.key(j) == q);
                        }
                    }
                    assert forall|q: Seq<char>| #[trigger]
                        self@.contains_key(q) implies self@[q] == pre@.insert(kv, vv)[q] by {
                        let j = self.index_of(q);
                        self.lemma_at(j);
                        if j == i {
                        } else {
                            assert(pre.key(j) == q);
                            pre.lemma_at(j);
                            if q == kv {
                                pre.lemma_unique(j, i as int);
                            }
                        }
                    }
                }
            },
            Err(p) => {
                let ghost kv = k@;
                let ghost vv = v@;
                self.entries.insert(p, (k, v));
                assert(self.entries@ == pre.entries@.insert(p as int, self.entries@[p as int]));
                assert(self.wf()) by {
                    assert forall|a: int, b: int|
                        0 <= a < b < self.entries.len() implies #[trigger] text_lt(
                        self.key(a),
                        self.key(b),
                    ) by {
                        if b < p {
                            assert(text_lt(pre.key(a), pre.key(b)));
                        } else if b == p {
                            assert(text_lt(pre.key(a), kv));
                        } else if a == p {
                            assert(text_lt(kv, pre.key(b - 1)));
                        } else if a < p {
                            assert(text_lt(pre.key(a), kv));
                            assert(text_lt(kv, pre.key(b - 1)));
                            lemma_text_lt_transitive(pre.key(a), kv, pre.key(b - 1));
                        } else {
                            assert(text_lt(pre.key(a - 1), pre.key(b - 1)));
                        }
                    }
                }
                assert(self@ =~= pre@.insert(kv, vv)) by {
                    assert forall|q: Seq<char>| #[trigger]
                        self.has(q) == (pre.has(q) || q == kv) by {
                        if self.has(q) {
                            let j = choose|j: int|
                                0 <= j < self.entries.len() && #[trigger] self.key(j) == q;
                            if j < p {
                                assert(pre.key(j) == q);
                            } else if j > p {
                                assert(pre.key(j - 1) == q);
                            }
                        }
                        if pre.has(q) {
                            let j = choose|j: int|
                                0 <= j < pre.entries.len() && #[trigger] pre.key(j) == q;
                            if j < p {
                                assert(self.key(j) == q);
                            } else {
                                assert(self.key(j + 1) == q);
                            }
                        }
                        if q == kv {
                            assert(self.key(p as int) == q);
                        }
                    }
                    assert forall|q: Seq<char>| #[trigger]
                        self@.contains_key(q) implies self@[q] == pre@.insert(kv, vv)[q] by {
                        let j = self.index_of(q);
                        self.lemma_at(j);
                        if j < p {
                            assert(pre.key(j) == q);
                            pre.lemma_at(j);
                        } else if j > p {
                            assert(pre.key(j - 1) == q);
                            pre.lemma_at(j - 1);
                        }
                    }
                }
            },
        }
    }

    /// Takes out the field at position `i`.
    pub fn remove_at(&mut self, i: usize) -> (r: (String, FieldValue))
        requires
            old(self).wf(),
            i < old(self).entries.len(),
        ensures
            final(self).wf(),
            r.0@ == old(self).key(i as int),
            final(self)@ == old(self)@.remove(r.0@),
            final(self).entries.len() == old(self).entries.len() - 1,
    {
        let ghost pre = *self;
        let r = self.entries.remove(i);
        let ghost kv = r.0@;
        assert(self.entries@ == pre.entries@.remove(i as int));
        assert(self.wf()) by {
            assert forall|a: int, b: int|
                0 <= a < b < self.entries.len() implies #[trigger] text_lt(
                self.key(a),
                self.key(b),
            ) by {
                if b < i {
                    assert(text_lt(pre.key(a), pre.key(b)));
                } else if a < i {
                    assert(text_lt(pre.key(a), pre.key(b + 1)));
                } else {
                    assert(text_lt(pre.key(a + 1), pre.key(b + 1)));
                }
            }
        }
        assert(self@ =~= pre@.remove(kv)) by {
            assert forall|q: Seq<char>| #[trigger] self.has(q) == (pre.has(q) && q != kv) by {
                if self.has(q) {
                    let j = choose|j: int|
                        0 <= j < self.entries.len() && #[trigger] self.key(j) == q;
                    if j < i {
                        assert(pre.key(j) == q);
                        if q == kv {
                            pre.lemma_unique(j, i as int);
                        }
                    } else {
                        assert(pre.key(j + 1) == q);
                        if q == kv {
                            pre.lemma_unique(j + 1, i as int);
                        }
                    }
                }
                if pre.has(q) && q != kv {
                    let j = choose|j: int|
                        0 <= j < pre.entries.len() && #[trigger] pre.key(j) == q;
                    if j < i {
                        assert(self.key(j) == q);
                    } else {
                        assert(self.key(j - 1) == q);
                    }
                }
            }
            assert forall|q: Seq<char>| #[trigger]
                self@.contains_key(q) implies self@[q] == pre@.remove(kv)[q] by {
                let j = self.index_of(q);
                self.lemma_at(j);
                if j < i {
                    assert(pre.key(j) == q);
                    pre.lemma_at(j);
                } else {
                    assert(pre.key(j + 1) == q);
                    pre.lemma_at(j + 1);
                }
            }
        }
        r
    }
}

} // verus!
