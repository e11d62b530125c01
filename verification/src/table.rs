//! Tables and sets keyed by text, held in the order of their keys.

use vstd::prelude::*;

use crate::text::{same_str, texts, to_chars};

verus! {

/// The lexicographic order of texts by their characters.
pub open spec fn text_before(a: Seq<char>, b: Seq<char>) -> bool
    decreases a.len(),
{
    if b.len() == 0 {
        false
    } else if a.len() == 0 {
        true
    } else {
        a[0] < b[0] || (a[0] == b[0] && text_before(a.drop_first(), b.drop_first()))
    }
}

/// The order is strict.
pub proof fn lemma_before_irreflexive(a: Seq<char>)
    ensures
        !text_before(a, a),
    decreases a.len(),
{
    if a.len() > 0 {
        lemma_before_irreflexive(a.drop_first());
    }
}

/// The order is transitive.
pub proof fn lemma_before_transitive(a: Seq<char>, b: Seq<char>, c: Seq<char>)
    requires
        text_before(a, b),
        text_before(b, c),
    ensures
        text_before(a, c),
    decreases a.len(),
{
    if a.len() > 0 && a[0] == b[0] && b[0] == c[0] {
        lemma_before_transitive(a.drop_first(), b.drop_first(), c.drop_first());
    }
}

/// Of two texts that differ, one comes before the other.
pub proof fn lemma_before_total(a: Seq<char>, b: Seq<char>)
    ensures
        a == b || text_before(a, b) || text_before(b, a),
    decreases a.len(),
{
    if a.len() > 0 && b.len() > 0 && a[0] == b[0] {
        lemma_before_total(a.drop_first(), b.drop_first());
        if a.drop_first() == b.drop_first() {
            assert(a =~= seq![a[0]] + a.drop_first());
            assert(b =~= seq![b[0]] + b.drop_first());
        }
    } else if a.len() == 0 && b.len() == 0 {
        assert(a =~= b);
    }
}

/// Whether `a` comes before `b`.
pub fn text_less(a: &str, b: &str) -> (r: bool)
    ensures
        r == text_before(a@, b@),
{
    let x = to_chars(a);
    let y = to_chars(b);
    let mut i: usize = 0;
    assert(x@.skip(0) =~= x@ && y@.skip(0) =~= y@);
    while i < x.len() && i < y.len()
        invariant
            x@ == a@,
            y@ == b@,
            i <= x@.len(),
            i <= y@.len(),
            text_before(x@, y@) == text_before(x@.skip(i as int), y@.skip(i as int)),
        decreases x@.len() - i,
    {
        assert(x@.skip(i as int).drop_first() =~= x@.skip(i + 1));
        assert(y@.skip(i as int).drop_first() =~= y@.skip(i + 1));
        if x[i] < y[i] {
            return true;
        }
        if x[i] != y[i] {
            return false;
        }
        i = i + 1;
    }
    i < y.len()
}

/// Whether the texts stand in strictly increasing order.
pub open spec fn increasing(keys: Seq<Seq<char>>) -> bool {
    forall|i: int, j: int|
        0 <= i < j < keys.len() ==> text_before(#[trigger] keys[i], #[trigger] keys[j])
}

/// The position of a key.
pub open spec fn position(keys: Seq<Seq<char>>, k: Seq<char>) -> int {
    choose|i: int| 0 <= i < keys.len() && #[trigger] keys[i] == k
}

proof fn lemma_position(keys: Seq<Seq<char>>, i: int)
    requires
        increasing(keys),
        0 <= i < keys.len(),
    ensures
        position(keys, keys[i]) == i,
{
    let p = position(keys, keys[i]);
    assert(0 <= p < keys.len() && keys[p] == keys[i]);
    lemma_before_irreflexive(keys[i]);
}

/// Inserting a key at the right place keeps the order.
proof fn lemma_increasing_insert(keys: Seq<Seq<char>>, at: int, k: Seq<char>)
    requires
        increasing(keys),
        0 <= at <= keys.len(),
        forall|i: int| 0 <= i < at ==> text_before(#[trigger] keys[i], k),
        at < keys.len() ==> text_before(k, keys[at]),
    ensures
        increasing(keys.insert(at, k)),
{
    let out = keys.insert(at, k);
    assert forall|i: int, j: int| 0 <= i < j < out.len() implies text_before(
        #[trigger] out[i],
        #[trigger] out[j],
    ) by {
        if i < at && j == at {
            assert(out[i] == keys[i]);
        } else if i == at {
            assert(out[j] == keys[j - 1]);
            if j - 1 > at {
                assert(text_before(keys[at], keys[j - 1]));
                lemma_before_transitive(k, keys[at], keys[j - 1]);
            }
        } else {
            let a = if i < at {
                i
            } else {
                i - 1
            };
            let b = if j < at {
                j
            } else {
                j - 1
            };
            assert(out[i] == keys[a] && out[j] == keys[b]);
        }
    }
}

/// Where a key stands in ordered keys, or where it belongs.
fn locate(keys: &Vec<String>, k: &str) -> (r: (bool, usize))
    requires
        increasing(texts(keys@)),
    ensures
        r.1 <= keys@.len(),
        r.0 ==> r.1 < keys@.len() && keys@[r.1 as int]@ == k@,
        !r.0 ==> !texts(keys@).contains(k@),
        !r.0 ==> forall|i: int| 0 <= i < r.1 ==> text_before(#[trigger] texts(keys@)[i], k@),
        !r.0 && r.1 < keys@.len() ==> text_before(k@, texts(keys@)[r.1 as int]),
{
    let ghost t = texts(keys@);
    let mut low: usize = 0;
    let mut high: usize = keys.len();
    while low < high
        invariant
            t == texts(keys@),
            increasing(t),
            low <= high <= keys@.len(),
            forall|i: int| 0 <= i < low ==> text_before(#[trigger] t[i], k@),
            forall|i: int| high <= i < t.len() ==> text_before(k@, #[trigger] t[i]),
        decreases high - low,
    {
        let mid: usize = low + (high - low) / 2;
        if same_str(keys[mid].as_str(), k) {
            return (true, mid);
        }
        if text_less(keys[mid].as_str(), k) {
            proof {
                assert forall|i: int| 0 <= i < mid + 1 implies text_before(
                    #[trigger] t[i],
                    k@,
                ) by {
                    if i < mid {
                        lemma_before_transitive(t[i], t[mid as int], k@);
                    }
                }
            }
            low = mid + 1;
        } else {
            proof {
                lemma_before_total(t[mid as int], k@);
                assert forall|i: int| mid <= i < t.len() implies text_before(
                    k@,
                    #[trigger] t[i],
                ) by {
                    if i > mid {
                        lemma_before_transitive(k@, t[mid as int], t[i]);
                    }
                }
            }
            high = mid;
        }
    }
    proof {
        assert forall|i: int| 0 <= i < t.len() implies t[i] != k@ by {
            lemma_before_irreflexive(k@);
            if i < low {
                assert(text_before(t[i], k@));
            } else {
                assert(text_before(k@, t[i]));
            }
        }
    }
    (false, low)
}

/// A table from texts to values.
pub struct TextMap<V> {
    keys: Vec<String>,
    values: Vec<V>,
}

impl<V> TextMap<V> {
    #[verifier::type_invariant]
    spec fn wf(self) -> bool {
        self.keys@.len() == self.values@.len() && increasing(texts(self.keys@))
    }
}

impl<V: View> TextMap<V> {
    /// The keys in their order.
    pub closed spec fn keys(self) -> Seq<Seq<char>> {
        texts(self.keys@)
    }

    /// The keys increase and are those of the table.
    pub open spec fn ordered(self) -> bool {
        &&& increasing(self.keys())
        &&& forall|k: Seq<char>| #[trigger] self@.dom().contains(k) <==> self.keys().contains(k)
    }
}

impl<V: View> View for TextMap<V> {
    type V = Map<Seq<char>, V::V>;

    closed spec fn view(&self) -> Map<Seq<char>, V::V> {
        Map::new(
            |k: Seq<char>| texts(self.keys@).contains(k),
            |k: Seq<char>| self.values@[position(texts(self.keys@), k)]@,
        )
    }
}

impl<V: View> TextMap<V> {
    proof fn lemma_ordered(self)
        requires
            self.wf(),
        ensures
            self.ordered(),
            forall|i: int|
                0 <= i < self.keys().len() ==> self@[#[trigger] self.keys()[i]] == self.values@[i]@,
    {
        assert forall|i: int| 0 <= i < self.keys().len() implies self@[#[trigger] self.keys()[i]]
            == self.values@[i]@ by {
            lemma_position(self.keys(), i);
        }
    }

    /// An empty table.
    pub fn new() -> (r: TextMap<V>)
        ensures
            r@ == Map::<Seq<char>, V::V>::empty(),
            r.keys() == Seq::<Seq<char>>::empty(),
    {
        let r = TextMap { keys: Vec::new(), values: Vec::new() };
        assert(r@ =~= Map::<Seq<char>, V::V>::empty());
        assert(r.keys() =~= Seq::<Seq<char>>::empty());
        r
    }

    /// The number of keys.
    pub fn len(&self) -> (r: usize)
        ensures
            r == self.keys().len(),
            self.ordered(),
    {
        proof {
            use_type_invariant(self);
            self.lemma_ordered();
        }
        self.keys.len()
    }

    /// Whether the table has no key.
    pub fn is_empty(&self) -> (r: bool)
        ensures
            r <==> self@.dom() =~= Set::<Seq<char>>::empty(),
            r <==> self.keys().len() == 0,
    {
        proof {
            use_type_invariant(self);
            self.lemma_ordered();
            if self.keys().len() > 0 {
                assert(self@.dom().contains(self.keys()[0]));
            }
        }
        self.keys.len() == 0
    }

    /// The key at position `i`.
    pub fn key_at(&self, i: usize) -> (r: &String)
        requires
            i < self.keys().len(),
        ensures
            r@ == self.keys()[i as int],
            self@.dom().contains(r@),
    {
        proof {
            use_type_invariant(self);
            self.lemma_ordered();
        }
        &self.keys[i]
    }

    /// The value of the key at position `i`.
    pub fn value_at(&self, i: usize) -> (r: &V)
        requires
            i < self.keys().len(),
        ensures
            r@ == self@[self.keys()[i as int]],
    {
        proof {
            use_type_invariant(self);
            self.lemma_ordered();
        }
        &self.values[i]
    }

    /// Whether the table has the key.
    pub fn contains_key(&self, k: &str) -> (r: bool)
        ensures
            r == self@.dom().contains(k@),
    {
        proof {
            use_type_invariant(self);
            self.lemma_ordered();
        }
        let (found, at) = locate(&self.keys, k);
        proof {
            if found {
                assert(self.keys()[at as int] == k@);
            }
        }
        found
    }

    /// The value of a key.
    pub fn get(&self, k: &str) -> (r: Option<&V>)
        ensures
            match r {
                Some(v) => self@.dom().contains(k@) && v@ == self@[k@],
                None => !self@.dom().contains(k@),
            },
    {
        proof {
            use_type_invariant(self);
            self.lemma_ordered();
        }
        let (found, at) = locate(&self.keys, k);
        if found {
            assert(self.keys()[at as int] == k@);
            Some(&self.values[at])
        } else {
            None
        }
    }

    /// Gives a key its value, in place of one that it had.
    pub fn insert(&mut self, k: String, v: V)
        ensures
            final(self)@ == old(self)@.insert(k@, v@),
    {
        proof {
            use_type_invariant(&*self);
        }
        let ghost was = *self;
        let mut inner = TextMap { keys: Vec::new(), values: Vec::new() };
        std::mem::swap(self, &mut inner);
        let TextMap { mut keys, mut values } = inner;
        let (found, at) = locate(&keys, k.as_str());
        let ghost key = k@;
        let ghost t = texts(keys@);
        if found {
            values.set(at, v);
            proof {
                lemma_position(t, at as int);
            }
        } else {
            proof {
                lemma_increasing_insert(t, at as int, key);
            }
            keys.insert(at, k);
            values.insert(at, v);
            assert(texts(keys@) =~= t.insert(at as int, key));
        }
        let ghost u = texts(keys@);
        *self = TextMap { keys, values };
        proof {
            was.lemma_ordered();
            self.lemma_ordered();
            assert(self.keys() == u);
            assert(u[at as int] == key);
            assert forall|x: Seq<char>| self@.dom().contains(x) <==> was@.insert(
                key,
                v@,
            ).dom().contains(x) by {
                if found {
                    assert(u == t);
                } else {
                    if u.contains(x) && x != key {
                        let i = choose|i: int| 0 <= i < u.len() && u[i] == x;
                        if i < at {
                            assert(t[i] == x);
                        } else {
                            assert(t[i - 1] == x);
                        }
                    }
                    if t.contains(x) {
                        let i = choose|i: int| 0 <= i < t.len() && t[i] == x;
                        if i < at {
                            assert(u[i] == x);
                        } else {
                            assert(u[i + 1] == x);
                        }
                    }
                }
            }
            assert forall|x: Seq<char>| #[trigger] self@.dom().contains(x) implies self@[x]
                == was@.insert(key, v@)[x] by {
                let i = choose|i: int| 0 <= i < u.len() && u[i] == x;
                assert(self@[u[i]] == self.values@[i]@);
                if i != at {
                    let j = if found || i < at {
                        i
                    } else {
                        i - 1
                    };
                    assert(t[j] == x);
                    assert(was@[t[j]] == was.values@[j]@);
                    if x == key {
                        lemma_position(u, i);
                        lemma_position(u, at as int);
                    }
                }
            }
            assert(self@ =~= was@.insert(key, v@));
        }
    }

    /// Replaces the value at position `i`.
    pub fn set_at(&mut self, i: usize, v: V)
        requires
            i < old(self).keys().len(),
        ensures
            final(self).keys() == old(self).keys(),
            final(self)@ == old(self)@.insert(old(self).keys()[i as int], v@),
    {
        proof {
            use_type_invariant(&*self);
        }
        let ghost was = *self;
        let mut inner = TextMap { keys: Vec::new(), values: Vec::new() };
        std::mem::swap(self, &mut inner);
        let TextMap { keys, mut values } = inner;
        values.set(i, v);
        *self = TextMap { keys, values };
        proof {
            was.lemma_ordered();
            self.lemma_ordered();
            let key = was.keys()[i as int];
            assert forall|x: Seq<char>| #[trigger] self@.dom().contains(x) implies self@[x]
                == was@.insert(key, v@)[x] by {
                let j = choose|j: int| 0 <= j < was.keys().len() && was.keys()[j] == x;
                assert(self@[self.keys()[j]] == self.values@[j]@);
                assert(was@[was.keys()[j]] == was.values@[j]@);
                if x == key {
                    lemma_position(was.keys(), j);
                    lemma_position(was.keys(), i as int);
                }
            }
            assert(self@.dom() =~= was@.insert(key, v@).dom());
            assert(self@ =~= was@.insert(key, v@));
        }
    }
}

/// A set of texts.
pub struct TextSet {
    items: Vec<String>,
}

impl TextSet {
    #[verifier::type_invariant]
    spec fn wf(self) -> bool {
        increasing(texts(self.items@))
    }
}

impl View for TextSet {
    type V = Set<Seq<char>>;

    closed spec fn view(&self) -> Set<Seq<char>> {
        Set::new(|k: Seq<char>| texts(self.items@).contains(k))
    }
}

impl TextSet {
    /// An empty set.
    pub fn new() -> (r: TextSet)
        ensures
            r@ == Set::<Seq<char>>::empty(),
    {
        let r = TextSet { items: Vec::new() };
        assert(r@ =~= Set::<Seq<char>>::empty());
        r
    }

    /// Whether the text is a member.
    pub fn contains(&self, k: &str) -> (r: bool)
        ensures
            r == self@.contains(k@),
    {
        proof {
            use_type_invariant(self);
        }
        let (found, at) = locate(&self.items, k);
        proof {
            if found {
                assert(texts(self.items@)[at as int] == k@);
            }
        }
        found
    }

    /// Adds a text, and says whether it is new.
    pub fn insert(&mut self, k: String) -> (r: bool)
        ensures
            final(self)@ == old(self)@.insert(k@),
            r == !old(self)@.contains(k@),
    {
        proof {
            use_type_invariant(&*self);
        }
        let ghost was = *self;
        let mut items: Vec<String> = Vec::new();
        std::mem::swap(&mut self.items, &mut items);
        let (found, at) = locate(&items, k.as_str());
        let ghost key = k@;
        let ghost t = texts(items@);
        if !found {
            proof {
                lemma_increasing_insert(t, at as int, key);
            }
            items.insert(at, k);
            assert(texts(items@) =~= t.insert(at as int, key));
        }
        let ghost u = texts(items@);
        *self = TextSet { items };
        proof {
            assert(u[at as int] == key);
            assert forall|x: Seq<char>| self@.contains(x) <==> was@.insert(key).contains(x) by {
                if !found {
                    if u.contains(x) && x != key {
                        let i = choose|i: int| 0 <= i < u.len() && u[i] == x;
                        if i < at {
                            assert(t[i] == x);
                        } else {
                            assert(t[i - 1] == x);
                        }
                    }
                    if t.contains(x) {
                        let i = choose|i: int| 0 <= i < t.len() && t[i] == x;
                        if i < at {
                            assert(u[i] == x);
                        } else {
                            assert(u[i + 1] == x);
                        }
                    }
                }
            }
            assert(self@ =~= was@.insert(key));
        }
        !found
    }
}

/// One more key in front of the rest is one more key among them.
pub proof fn lemma_take_contains(keys: Seq<Seq<char>>, i: int, k: Seq<char>)
    requires
        0 <= i < keys.len(),
    ensures
        keys.take(i + 1).contains(k) <==> keys.take(i).contains(k) || k == keys[i],
{
    let more = keys.take(i + 1);
    let less = keys.take(i);
    if less.contains(k) {
        let j = choose|j: int| 0 <= j < less.len() && less[j] == k;
        assert(more[j] == k);
    }
    if k == keys[i] {
        assert(more[i] == k);
    }
    if more.contains(k) && k != keys[i] {
        let j = choose|j: int| 0 <= j < more.len() && more[j] == k;
        assert(less[j] == k);
    }
}

/// Increasing keys differ.
pub proof fn lemma_increasing_distinct(keys: Seq<Seq<char>>)
    requires
        increasing(keys),
    ensures
        forall|i: int, j: int|
            0 <= i < keys.len() && 0 <= j < keys.len() && i != j ==> #[trigger] keys[i]
                != #[trigger] keys[j],
{
    assert forall|i: int, j: int|
        0 <= i < keys.len() && 0 <= j < keys.len() && i != j implies #[trigger] keys[i]
        != #[trigger] keys[j] by {
        if i < j {
            assert(text_before(keys[i], keys[j]));
        } else {
            assert(text_before(keys[j], keys[i]));
        }
        lemma_before_irreflexive(keys[i]);
    }
}

/// `t` with `x` behind the last text that is not larger.
pub open spec fn insert_text(t: Seq<Seq<char>>, x: Seq<char>) -> Seq<Seq<char>>
    decreases t.len(),
{
    if t.len() > 0 && text_before(x, t.last()) {
        insert_text(t.drop_last(), x).push(t.last())
    } else {
        t.push(x)
    }
}

/// Texts in their order.
pub open spec fn sorted_texts(s: Seq<Seq<char>>) -> Seq<Seq<char>>
    decreases s.len(),
{
    if s.len() == 0 {
        s
    } else {
        insert_text(sorted_texts(s.drop_last()), s.last())
    }
}

/// Whether no text stands behind a larger one.
pub open spec fn in_order(s: Seq<Seq<char>>) -> bool {
    forall|i: int, j: int|
        0 <= i < j < s.len() ==> !text_before(#[trigger] s[j], #[trigger] s[i])
}

proof fn lemma_insert_text(t: Seq<Seq<char>>, x: Seq<char>)
    requires
        in_order(t),
    ensures
        in_order(insert_text(t, x)),
        insert_text(t, x).to_multiset() == t.to_multiset().insert(x),
        insert_text(t, x).len() == t.len() + 1,
    decreases t.len(),
{
    broadcast use vstd::seq_lib::group_to_multiset_ensures;
    let out = insert_text(t, x);
    if t.len() > 0 && text_before(x, t.last()) {
        let head = t.drop_last();
        let last = t.last();
        assert(in_order(head));
        lemma_insert_text(head, x);
        let mid = insert_text(head, x);
        assert(head.push(last) =~= t);
        assert(out.to_multiset() =~= t.to_multiset().insert(x));
        assert forall|i: int, j: int| 0 <= i < j < out.len() implies !text_before(
            #[trigger] out[j],
            #[trigger] out[i],
        ) by {
            if j == mid.len() {
                assert(mid.to_multiset().contains(mid[i]));
                assert(head.to_multiset().insert(x).contains(mid[i]));
                if mid[i] == x {
                    if text_before(last, x) {
                        lemma_before_transitive(last, x, last);
                        lemma_before_irreflexive(last);
                    }
                } else {
                    assert(head.to_multiset().contains(mid[i]));
                    let k = choose|k: int| 0 <= k < head.len() && head[k] == mid[i];
                    assert(t[k] == mid[i]);
                    assert(t[t.len() - 1] == last);
                }
            } else {
                assert(out[i] == mid[i] && out[j] == mid[j]);
            }
        }
    } else {
        assert forall|i: int, j: int| 0 <= i < j < out.len() implies !text_before(
            #[trigger] out[j],
            #[trigger] out[i],
        ) by {
            if j == t.len() {
                if text_before(x, t[i]) {
                    let last = t[t.len() - 1];
                    lemma_before_total(last, x);
                    if i < t.len() - 1 {
                        lemma_before_total(last, t[i]);
                        if text_before(last, x) {
                            lemma_before_transitive(last, x, t[i]);
                        }
                    }
                }
            } else {
                assert(out[i] == t[i] && out[j] == t[j]);
            }
        }
    }
}

/// Sorting puts texts in their order and keeps each of them.
pub proof fn law_sorted_texts(s: Seq<Seq<char>>)
    ensures
        in_order(sorted_texts(s)),
        sorted_texts(s).to_multiset() == s.to_multiset(),
        sorted_texts(s).len() == s.len(),
    decreases s.len(),
{
    broadcast use vstd::seq_lib::group_to_multiset_ensures;
    if s.len() > 0 {
        law_sorted_texts(s.drop_last());
        lemma_insert_text(sorted_texts(s.drop_last()), s.last());
        assert(s.drop_last().push(s.last()) =~= s);
    }
}

proof fn lemma_insert_text_at(t: Seq<Seq<char>>, x: Seq<char>, at: int)
    requires
        0 <= at <= t.len(),
        forall|i: int| at <= i < t.len() ==> text_before(x, #[trigger] t[i]),
        at > 0 ==> !text_before(x, t[at - 1]),
    ensures
        insert_text(t, x) == t.insert(at, x),
    decreases t.len(),
{
    if at < t.len() {
        lemma_insert_text_at(t.drop_last(), x, at);
        assert(t.drop_last().insert(at, x).push(t.last()) =~= t.insert(at, x));
    } else {
        assert(t.insert(at, x) =~= t.push(x));
    }
}

/// Sorts texts.
pub fn sort_texts(v: &[String]) -> (r: Vec<String>)
    ensures
        texts(r@) == sorted_texts(texts(v@)),
{
    let mut out: Vec<String> = Vec::new();
    assert(texts(out@) =~= sorted_texts(texts(v@).take(0)));
    for i in 0..v.len()
        invariant
            texts(out@) == sorted_texts(texts(v@).take(i as int)),
    {
        let x = v[i].clone();
        let mut at: usize = out.len();
        while at > 0 && text_less(x.as_str(), out[at - 1].as_str())
            invariant
                at <= out@.len(),
                forall|k: int| at <= k < out@.len() ==> text_before(x@, #[trigger] texts(out@)[k]),
            decreases at,
        {
            at = at - 1;
        }
        let ghost before = texts(out@);
        let ghost item = x@;
        proof {
            if at > 0 {
                assert(before[at - 1] == out@[at - 1]@);
            }
            lemma_insert_text_at(before, item, at as int);
        }
        out.insert(at, x);
        proof {
            assert(texts(out@) =~= before.insert(at as int, item));
            assert(texts(v@).take(i + 1).drop_last() =~= texts(v@).take(i as int));
            assert(texts(v@).take(i + 1).last() == v@[i as int]@);
        }
    }
    assert(texts(v@).take(v@.len() as int) =~= texts(v@));
    out
}

/// A table has finitely many keys.
pub proof fn lemma_finite<V: View>(table: TextMap<V>)
    requires
        table.ordered(),
    ensures
        table@.dom().finite(),
{
    vstd::seq_lib::seq_to_set_is_finite(table.keys());
    assert(table@.dom() =~= table.keys().to_set());
}

/// Gives the keys of one table their values in another.
pub fn extend_texts(into: &mut TextMap<String>, from: &TextMap<String>)
    ensures
        final(into)@ == old(into)@.union_prefer_right(from@),
{
    let ghost start = into@;
    let n: usize = from.len();
    let ghost keys = from.keys();
    for i in 0..n
        invariant
            n == keys.len(),
            keys == from.keys(),
            from.ordered(),
            forall|k: Seq<char>| #[trigger]
                into@.dom().contains(k) <==> start.dom().contains(k) || keys.take(
                    i as int,
                ).contains(k),
            forall|k: Seq<char>| #[trigger]
                into@.dom().contains(k) ==> into@[k] == (if keys.take(i as int).contains(k) {
                    from@[k]
                } else {
                    start[k]
                }),
    {
        proof {
            assert forall|k: Seq<char>| #[trigger] keys.take(i + 1).contains(k) <==> keys.take(
                i as int,
            ).contains(k) || k == keys[i as int] by {
                lemma_take_contains(keys, i as int, k);
            }
        }
        into.insert(from.key_at(i).clone(), from.value_at(i).clone());
    }
    proof {
        assert(keys.take(n as int) =~= keys);
        assert(into@ =~= start.union_prefer_right(from@));
    }
}

} // verus!
