//! A map from texts to values, kept in the order of its keys.

use crate::text::chars_of;
use vstd::prelude::*;

verus! {

/// The order of texts: by the first character in which they differ, and a
/// text before those it starts.
pub open spec fn text_less(a: Seq<char>, b: Seq<char>) -> bool
    decreases a.len(),
{
    if b.len() == 0 {
        false
    } else if a.len() == 0 {
        true
    } else if a[0] != b[0] {
        a[0] < b[0]
    } else {
        text_less(a.skip(1), b.skip(1))
    }
}

/// No text stands before itself.
pub proof fn text_less_irreflexive(a: Seq<char>)
    ensures
        !text_less(a, a),
    decreases a.len(),
{
    if a.len() > 0 {
        text_less_irreflexive(a.skip(1));
    }
}

/// The order of texts is transitive.
pub proof fn text_less_transitive(a: Seq<char>, b: Seq<char>, c: Seq<char>)
    requires
        text_less(a, b),
        text_less(b, c),
    ensures
        text_less(a, c),
    decreases a.len(),
{
    if a.len() > 0 && a[0] == b[0] && b[0] == c[0] {
        text_less_transitive(a.skip(1), b.skip(1), c.skip(1));
    }
}

/// Of two different texts one stands before the other.
pub proof fn text_less_total(a: Seq<char>, b: Seq<char>)
    ensures
        a == b || text_less(a, b) || text_less(b, a),
    decreases a.len(),
{
    if a.len() == 0 {
        if b.len() == 0 {
            assert(a == b);
        }
    } else if b.len() > 0 && a[0] == b[0] {
        text_less_total(a.skip(1), b.skip(1));
        if a.skip(1) == b.skip(1) {
            assert(a == seq![a[0]] + a.skip(1));
            assert(b == seq![b[0]] + b.skip(1));
        }
    }
}

/// Whether `a` stands before `b` in the order of texts.
pub fn less(a: &str, b: &str) -> (r: bool)
    ensures
        r == text_less(a@, b@),
{
    let x = chars_of(a);
    let y = chars_of(b);
    let mut i: usize = 0;
    assert(x@.skip(0) == x@);
    assert(y@.skip(0) == y@);
    while i < x.len() && i < y.len()
        invariant
            i <= x@.len(),
            i <= y@.len(),
            x@ == a@,
            y@ == b@,
            text_less(a@, b@) == text_less(x@.skip(i as int), y@.skip(i as int)),
        decreases x@.len() - i,
    {
        if x[i] != y[i] {
            return x[i] < y[i];
        }
        assert(x@.skip(i as int).skip(1) == x@.skip(i + 1));
        assert(y@.skip(i as int).skip(1) == y@.skip(i + 1));
        i = i + 1;
    }
    i < y.len()
}

/// A map from texts to values: its entries by increasing key.
#[derive(Debug)]
pub struct StrMap<V> {
    pub entries: Vec<(String, V)>,
}

impl<V> StrMap<V> {
    /// The key at position `i`.
    pub open spec fn key(self, i: int) -> Seq<char> {
        self.entries@[i].0@
    }

    /// The keys increase.
    pub open spec fn wf(self) -> bool {
        forall|i: int, j: int|
            #![trigger self.key(i), self.key(j)]
            0 <= i < j < self.entries@.len() ==> text_less(self.key(i), self.key(j))
    }

    /// Whether `k` stands at position `i`.
    pub open spec fn holds_at(self, k: Seq<char>, i: int) -> bool {
        0 <= i < self.entries@.len() && self.key(i) == k
    }

    /// Whether `k` is a key.
    pub open spec fn has(self, k: Seq<char>) -> bool {
        exists|i: int| self.holds_at(k, i)
    }

    /// The position of the key `k`.
    pub open spec fn index(self, k: Seq<char>) -> int {
        choose|i: int| self.holds_at(k, i)
    }

    /// The keys, in order.
    pub open spec fn keys(self) -> Seq<Seq<char>> {
        Seq::new(self.entries@.len(), |i: int| self.key(i))
    }

    /// A key stands at one position only.
    pub proof fn index_is_unique(self, k: Seq<char>, i: int)
        requires
            self.wf(),
            self.holds_at(k, i),
        ensures
            self.has(k),
            self.index(k) == i,
            self@.contains_key(k),
            self@[k] == self.entries@[i].1,
    {
        let j = self.index(k);
        assert(self.holds_at(k, j));
        text_less_irreflexive(k);
        if i < j {
            assert(text_less(self.key(i), self.key(j)));
        } else if j < i {
            assert(text_less(self.key(j), self.key(i)));
        }
    }

    /// A map without entries.
    pub fn new() -> (r: Self)
        ensures
            r.wf(),
            r@ == Map::<Seq<char>, V>::empty(),
            r.entries@.len() == 0,
    {
        let r = StrMap { entries: Vec::new() };
        assert(r@ =~= Map::<Seq<char>, V>::empty());
        r
    }

    /// The first position whose key does not stand before `k`.
    fn place(&self, k: &str) -> (r: usize)
        requires
            self.wf(),
        ensures
            r <= self.entries@.len(),
            forall|i: int| 0 <= i < r ==> text_less(#[trigger] self.key(i), k@),
            r < self.entries@.len() ==> !text_less(self.key(r as int), k@),
    {
        let mut i: usize = 0;
        while i < self.entries.len()
            invariant
                i <= self.entries@.len(),
                forall|j: int| 0 <= j < i ==> text_less(#[trigger] self.key(j), k@),
            decreases self.entries@.len() - i,
        {
            if !less(self.entries[i].0.as_str(), k) {
                assert(!text_less(self.key(i as int), k@));
                return i;
            }
            assert(text_less(self.key(i as int), k@));
            i = i + 1;
        }
        i
    }

    /// The position of `k`, if it is a key.
    pub fn find(&self, k: &str) -> (r: Option<usize>)
        requires
            self.wf(),
        ensures
            match r {
                Some(i) => self.holds_at(k@, i as int) && self.index(k@) == i
                    && self@.contains_key(k@) && self@[k@] == self.entries@[i as int].1,
                None => !self.has(k@) && !self@.contains_key(k@),
            },
    {
        let at = self.place(k);
        if at < self.entries.len() && self.entries[at].0 == k.to_string() {
            proof {
                self.index_is_unique(k@, at as int);
            }
            Some(at)
        } else {
            proof {
                self.absent(k@, at as int);
            }
            None
        }
    }

    proof fn absent(self, k: Seq<char>, at: int)
        requires
            self.wf(),
            0 <= at <= self.entries@.len(),
            forall|i: int| 0 <= i < at ==> text_less(#[trigger] self.key(i), k),
            at < self.entries@.len() ==> !text_less(self.key(at), k) && self.key(at) != k,
        ensures
            !self.has(k),
            !self@.contains_key(k),
            forall|i: int| at <= i < self.entries@.len() ==> text_less(k, #[trigger] self.key(i)),
    {
        text_less_irreflexive(k);
        if at < self.entries@.len() {
            text_less_total(self.key(at), k);
        }
        assert forall|i: int| at <= i < self.entries@.len() implies text_less(
            k,
            #[trigger] self.key(i),
        ) by {
            if i > at {
                text_less_transitive(k, self.key(at), self.key(i));
            }
        }
        assert forall|i: int| !self.holds_at(k, i) by {
            if self.holds_at(k, i) {
                assert(text_less(self.key(i), k) || text_less(k, self.key(i)));
            }
        }
    }

    /// The value for `k`, if it is a key.
    pub fn get(&self, k: &str) -> (r: Option<&V>)
        requires
            self.wf(),
        ensures
            match r {
                Some(v) => self@.contains_key(k@) && *v == self@[k@],
                None => !self@.contains_key(k@),
            },
    {
        match self.find(k) {
            Some(i) => Some(&self.entries[i].1),
            None => None,
        }
    }

    /// Sets the value for `k`.
    pub fn insert(&mut self, k: String, v: V)
        requires
            old(self).wf(),
        ensures
            final(self).wf(),
            final(self)@ == old(self)@.insert(k@, v),
    {
        let ghost before = *self;
        let at = self.place(k.as_str());
        if at < self.entries.len() && self.entries[at].0 == k {
            let ghost key = k@;
            self.entries.set(at, (k, v));
            proof {
                self.replaced(before, key, v, at as int);
            }
        } else {
            proof {
                before.absent(k@, at as int);
            }
            let ghost key = k@;
            self.entries.insert(at, (k, v));
            proof {
                self.inserted(before, key, v, at as int);
            }
        }
    }

    proof fn replaced(self, before: Self, key: Seq<char>, v: V, at: int)
        requires
            before.wf(),
            before.holds_at(key, at),
            exists|k: String| k@ == key && self.entries@ == #[trigger] before.entries@.update(at, (k, v)),
        ensures
            self.wf(),
            self@ == before@.insert(key, v),
    {
        assert forall|i: int| 0 <= i < before.entries@.len() implies #[trigger] self.key(i)
            == before.key(i) by {}
        assert forall|i: int, j: int|
            #![trigger self.key(i), self.key(j)]
            0 <= i < j < self.entries@.len() implies text_less(self.key(i), self.key(j)) by {
            assert(text_less(before.key(i), before.key(j)));
        }
        before.index_is_unique(key, at);
        assert(self.holds_at(key, at));
        self.index_is_unique(key, at);
        assert forall|x: Seq<char>| #[trigger] self@.contains_key(x) == before@.contains_key(x)
            && (before@.contains_key(x) && x != key ==> self@[x] == before@[x]) by {
            self.same_places(before, x);
            if before.has(x) && x != key {
                assert(before.holds_at(x, before.index(x)));
            }
        }
        assert(self@ =~= before@.insert(key, v));
    }

    proof fn same_places(self, before: Self, x: Seq<char>)
        requires
            self.wf(),
            before.wf(),
            self.entries@.len() == before.entries@.len(),
            forall|i: int| 0 <= i < before.entries@.len() ==> #[trigger] self.key(i) == before.key(i),
        ensures
            self.has(x) == before.has(x),
            self.has(x) ==> self.index(x) == before.index(x),
    {
        if self.has(x) {
            let i = self.index(x);
            assert(self.holds_at(x, i));
            assert(before.holds_at(x, i));
            before.index_is_unique(x, i);
        }
        if before.has(x) {
            let i = before.index(x);
            assert(before.holds_at(x, i));
            assert(self.key(i) == x);
            assert(self.holds_at(x, i));
        }
    }

    proof fn inserted(self, before: Self, key: Seq<char>, v: V, at: int)
        requires
            before.wf(),
            0 <= at <= before.entries@.len(),
            !before.has(key),
            exists|k: String| k@ == key && self.entries@ == #[trigger] before.entries@.insert(at, (k, v)),
            forall|i: int| 0 <= i < at ==> text_less(#[trigger] before.key(i), key),
            forall|i: int| at <= i < before.entries@.len() ==> text_less(
                key,
                #[trigger] before.key(i),
            ),
        ensures
            self.wf(),
            self@ == before@.insert(key, v),
    {
        assert forall|i: int| 0 <= i < self.entries@.len() implies #[trigger] self.key(i) == (if i
            < at {
            before.key(i)
        } else if i == at {
            key
        } else {
            before.key(i - 1)
        }) by {}
        assert forall|i: int, j: int|
            #![trigger self.key(i), self.key(j)]
            0 <= i < j < self.entries@.len() implies text_less(self.key(i), self.key(j)) by {
            if i < at && j > at {
                assert(text_less(before.key(i), before.key(j - 1)));
            } else if i < at && j < at {
                assert(text_less(before.key(i), before.key(j)));
            } else if i > at {
                assert(text_less(before.key(i - 1), before.key(j - 1)));
            } else if i == at {
                assert(text_less(key, before.key(j - 1)));
            } else {
                assert(text_less(before.key(i), key));
            }
        }
        assert(self.holds_at(key, at));
        self.index_is_unique(key, at);
        assert forall|x: Seq<char>| #[trigger] self@.contains_key(x) == (x == key
            || before@.contains_key(x)) && (x != key && before@.contains_key(x) ==> self@[x]
            == before@[x]) by {
            if before.has(x) {
                let i = before.index(x);
                assert(before.holds_at(x, i));
                let j = if i < at {
                    i
                } else {
                    i + 1
                };
                assert(self.key(j) == x);
                assert(self.holds_at(x, j));
                self.index_is_unique(x, j);
                before.index_is_unique(x, i);
            }
            if self.has(x) && x != key {
                let j = self.index(x);
                assert(self.holds_at(x, j));
                let i = if j < at {
                    j
                } else {
                    j - 1
                };
                assert(before.key(i) == x);
                assert(before.holds_at(x, i));
            }
        }
        assert(self@ =~= before@.insert(key, v));
    }

    /// Takes the entry for `k` out, and gives its value.
    pub fn remove(&mut self, k: &str) -> (r: Option<V>)
        requires
            old(self).wf(),
        ensures
            final(self).wf(),
            final(self)@ == old(self)@.remove(k@),
            match r {
                Some(v) => old(self)@.contains_key(k@) && v == old(self)@[k@],
                None => !old(self)@.contains_key(k@),
            },
    {
        let ghost before = *self;
        match self.find(k) {
            Some(at) => {
                let (_, v) = self.entries.remove(at);
                proof {
                    self.removed(before, k@, at as int);
                }
                Some(v)
            },
            None => {
                assert(self@ =~= before@.remove(k@));
                None
            },
        }
    }

    proof fn removed(self, before: Self, key: Seq<char>, at: int)
        requires
            before.wf(),
            before.holds_at(key, at),
            self.entries@ == before.entries@.remove(at),
        ensures
            self.wf(),
            self@ == before@.remove(key),
    {
        assert forall|i: int| 0 <= i < self.entries@.len() implies #[trigger] self.key(i) == (if i
            < at {
            before.key(i)
        } else {
            before.key(i + 1)
        }) by {}
        assert forall|i: int, j: int|
            #![trigger self.key(i), self.key(j)]
            0 <= i < j < self.entries@.len() implies text_less(self.key(i), self.key(j)) by {
            let a = if i < at {
                i
            } else {
                i + 1
            };
            let b = if j < at {
                j
            } else {
                j + 1
            };
            assert(text_less(before.key(a), before.key(b)));
        }
        before.index_is_unique(key, at);
        assert forall|x: Seq<char>| #[trigger] self@.contains_key(x) == (x != key
            && before@.contains_key(x)) && (self@.contains_key(x) ==> self@[x] == before@[x]) by {
            if self.has(x) {
                let j = self.index(x);
                assert(self.holds_at(x, j));
                let i = if j < at {
                    j
                } else {
                    j + 1
                };
                assert(before.key(i) == x);
                assert(before.holds_at(x, i));
                before.index_is_unique(x, i);
            }
            if before.has(x) && x != key {
                let i = before.index(x);
                assert(before.holds_at(x, i));
                let j = if i < at {
                    i
                } else {
                    i - 1
                };
                assert(self.key(j) == x);
                assert(self.holds_at(x, j));
                self.index_is_unique(x, j);
            }
        }
        assert(self@ =~= before@.remove(key));
    }
}

impl<V> View for StrMap<V> {
    type V = Map<Seq<char>, V>;

    open spec fn view(&self) -> Map<Seq<char>, V> {
        Map::new(|k: Seq<char>| self.has(k), |k: Seq<char>| self.entries@[self.index(k)].1)
    }
}

/// There are finitely many keys.
pub proof fn finitely_many_keys<V>(m: StrMap<V>)
    ensures
        m@.dom().finite(),
        m@.values().finite(),
{
    vstd::seq_lib::seq_to_set_is_finite(m.keys());
    assert forall|k: Seq<char>| m@.dom().contains(k) implies m.keys().to_set().contains(k) by {
        let i = m.index(k);
        assert(m.holds_at(k, i));
        assert(m.keys()[i] == k);
    }
    vstd::set_lib::lemma_set_subset_finite(m.keys().to_set(), m@.dom());
    vstd::map_lib::lemma_values_finite(m@);
}

/// A text is less than another where it is a beginning of it, or where at the first place
/// at which they differ its character comes first.
pub proof fn first_difference_decides(a: &str, b: &str, at: int, r: bool)
    requires
        call_ensures(less, (a, b), r),
        0 <= at <= a@.len(),
        at <= b@.len(),
        forall|i: int| 0 <= i < at ==> #[trigger] a@[i] == b@[i],
        at < a@.len() && at < b@.len() ==> a@[at] != b@[at],
    ensures
        r == (if at < a@.len() && at < b@.len() {
            a@[at] < b@[at]
        } else {
            at < b@.len()
        }),
{
    less_from(a@, b@, at);
}

proof fn less_from(a: Seq<char>, b: Seq<char>, at: int)
    requires
        0 <= at <= a.len(),
        at <= b.len(),
        forall|i: int| 0 <= i < at ==> #[trigger] a[i] == b[i],
        at < a.len() && at < b.len() ==> a[at] != b[at],
    ensures
        text_less(a, b) == (if at < a.len() && at < b.len() {
            a[at] < b[at]
        } else {
            at < b.len()
        }),
    decreases at,
{
    if at > 0 {
        assert(a[0] == b[0]);
        assert forall|i: int| 0 <= i < at - 1 implies #[trigger] a.skip(1)[i] == b.skip(1)[i] by {
            assert(a[i + 1] == b[i + 1]);
        }
        less_from(a.skip(1), b.skip(1), at - 1);
    }
}

/// What was put under a key is found there, and what was taken away is not, with every
/// other key as it was.
pub proof fn put_is_found_and_taken_is_not<V>(
    before: StrMap<V>,
    k: String,
    v: V,
    with: StrMap<V>,
    key: &str,
    without: StrMap<V>,
    taken: Option<V>,
    other: &str,
    found: Option<&V>,
    gone: Option<&V>,
    other_before: Option<&V>,
    other_with: Option<&V>,
    other_without: Option<&V>,
)
    requires
        key@ == k@,
        other@ != k@,
        exists|m: &mut StrMap<V>|
            *m == before && *final(m) == with && #[trigger] call_ensures(
                StrMap::<V>::insert,
                (m, k, v),
                (),
            ),
        exists|m: &mut StrMap<V>|
            *m == with && *final(m) == without && #[trigger] call_ensures(
                StrMap::<V>::remove,
                (m, key),
                taken,
            ),
        call_ensures(StrMap::<V>::get, (&with, key), found),
        call_ensures(StrMap::<V>::get, (&without, key), gone),
        call_ensures(StrMap::<V>::get, (&before, other), other_before),
        call_ensures(StrMap::<V>::get, (&with, other), other_with),
        call_ensures(StrMap::<V>::get, (&without, other), other_without),
    ensures
        found matches Some(x) && *x == v,
        taken == Some(v),
        gone is None,
        other_with is Some == other_before is Some,
        other_without is Some == other_before is Some,
        other_before matches Some(x) ==> (other_with matches Some(y) && *y == *x) && (
        other_without matches Some(z) && *z == *x),
{
}

} // verus!
