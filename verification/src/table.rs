//! A table of text pairs, as a registry or an index holds it: each entry maps
//! a key (an identifier) to a value (a path or a name).

use vstd::prelude::*;
use vstd::string::*;

verus! {

/// The mathematical model of a table: its entries in order, each a key and a
/// value.
pub type Entries = Seq<(Seq<char>, Seq<char>)>;

/// Some entry of `t` has the key `k`.
pub open spec fn has_key(t: Entries, k: Seq<char>) -> bool {
    exists|i: int| 0 <= i < t.len() && (#[trigger] t[i]).0 == k
}

/// Some entry of `t` has the value `v`.
pub open spec fn has_value(t: Entries, v: Seq<char>) -> bool {
    exists|i: int| 0 <= i < t.len() && (#[trigger] t[i]).1 == v
}

/// `i` is the first position of `t` whose key is `k`.
pub open spec fn is_first_key(t: Entries, k: Seq<char>, i: int) -> bool {
    &&& 0 <= i < t.len()
    &&& t[i].0 == k
    &&& forall|j: int| 0 <= j < i ==> (#[trigger] t[j]).0 != k
}

/// `i` is the first position of `t` whose value is `v`.
pub open spec fn is_first_value(t: Entries, v: Seq<char>, i: int) -> bool {
    &&& 0 <= i < t.len()
    &&& t[i].1 == v
    &&& forall|j: int| 0 <= j < i ==> (#[trigger] t[j]).1 != v
}

/// The first position of `t` whose key is `k`, where there is one.
pub open spec fn first_key_index(t: Entries, k: Seq<char>) -> int {
    choose|i: int| is_first_key(t, k, i)
}

/// The first position of `t` whose value is `v`, where there is one.
pub open spec fn first_value_index(t: Entries, v: Seq<char>) -> int {
    choose|i: int| is_first_value(t, v, i)
}

/// There is one first position of a key.
pub proof fn lemma_first_key(t: Entries, k: Seq<char>, i: int)
    requires
        is_first_key(t, k, i),
    ensures
        first_key_index(t, k) == i,
        has_key(t, k),
{
    let j = first_key_index(t, k);
    assert(is_first_key(t, k, j));
    if j < i {
        assert(t[j].0 != k);
    }
    if i < j {
        assert(t[i].0 != k);
    }
}

/// There is one first position of a value.
pub proof fn lemma_first_value(t: Entries, v: Seq<char>, i: int)
    requires
        is_first_value(t, v, i),
    ensures
        first_value_index(t, v) == i,
        has_value(t, v),
{
    let j = first_value_index(t, v);
    assert(is_first_value(t, v, j));
    if j < i {
        assert(t[j].1 != v);
    }
    if i < j {
        assert(t[i].1 != v);
    }
}

/// A key that occurs before `n` has a first position.
pub proof fn lemma_key_has_first(t: Entries, k: Seq<char>, n: int)
    requires
        0 <= n <= t.len(),
        exists|i: int| 0 <= i < n && (#[trigger] t[i]).0 == k,
    ensures
        is_first_key(t, k, first_key_index(t, k)),
    decreases n,
{
    let i = choose|i: int| 0 <= i < n && (#[trigger] t[i]).0 == k;
    if exists|j: int| 0 <= j < i && (#[trigger] t[j]).0 == k {
        lemma_key_has_first(t, k, i);
    } else {
        assert(is_first_key(t, k, i));
    }
}

/// A value that occurs before `n` has a first position.
pub proof fn lemma_value_has_first(t: Entries, v: Seq<char>, n: int)
    requires
        0 <= n <= t.len(),
        exists|i: int| 0 <= i < n && (#[trigger] t[i]).1 == v,
    ensures
        is_first_value(t, v, first_value_index(t, v)),
    decreases n,
{
    let i = choose|i: int| 0 <= i < n && (#[trigger] t[i]).1 == v;
    if exists|j: int| 0 <= j < i && (#[trigger] t[j]).1 == v {
        lemma_value_has_first(t, v, i);
    } else {
        assert(is_first_value(t, v, i));
    }
}

/// Entering a new key extends the mapping by the entry.
pub proof fn lemma_map_push(t: Entries, k: Seq<char>, v: Seq<char>)
    requires
        !has_key(t, k),
    ensures
        as_map(t.push((k, v))) == as_map(t).insert(k, v),
{
    let entered = t.push((k, v));
    assert forall|q: Seq<char>| has_key(entered, q) == (q == k || has_key(t, q)) by {
        if has_key(entered, q) {
            let i = choose|i: int| 0 <= i < entered.len() && (#[trigger] entered[i]).0 == q;
            if i < t.len() {
                assert(t[i].0 == q);
            }
        }
        if has_key(t, q) {
            let i = choose|i: int| 0 <= i < t.len() && (#[trigger] t[i]).0 == q;
            assert(entered[i].0 == q);
        }
        if q == k {
            assert(entered[t.len() as int].0 == q);
        }
    }
    assert forall|q: Seq<char>| has_key(entered, q) implies #[trigger] as_map(entered)[q] == as_map(
        t,
    ).insert(k, v)[q] by {
        if q == k {
            assert(is_first_key(entered, k, t.len() as int)) by {
                assert forall|j: int| 0 <= j < t.len() implies (#[trigger] entered[j]).0 != k by {
                    assert(entered[j] == t[j]);
                }
            }
            lemma_first_key(entered, k, t.len() as int);
        } else {
            lemma_key_has_first(t, q, t.len() as int);
            let i = first_key_index(t, q);
            assert(is_first_key(entered, q, i)) by {
                assert(entered[i] == t[i]);
                assert forall|j: int| 0 <= j < i implies (#[trigger] entered[j]).0 != q by {
                    assert(entered[j] == t[j]);
                }
            }
            lemma_first_key(entered, q, i);
        }
    }
    assert(as_map(entered).dom() =~= as_map(t).insert(k, v).dom());
    assert(as_map(entered) =~= as_map(t).insert(k, v));
}

/// Entering a key and a value that are both new keeps keys and values
/// distinct.
pub proof fn lemma_push_keeps_distinct(t: Entries, k: Seq<char>, v: Seq<char>)
    requires
        !has_key(t, k),
        !has_value(t, v),
    ensures
        distinct_keys(t) ==> distinct_keys(t.push((k, v))),
        distinct_values(t) ==> distinct_values(t.push((k, v))),
{
    let entered = t.push((k, v));
    assert forall|a: int, b: int|
        0 <= a < entered.len() && 0 <= b < entered.len() && a != b implies (distinct_keys(t) ==> (
        #[trigger] entered[a]).0 != (#[trigger] entered[b]).0) && (distinct_values(t)
        ==> entered[a].1 != entered[b].1) by {
        if a < t.len() {
            assert(entered[a] == t[a]);
        }
        if b < t.len() {
            assert(entered[b] == t[b]);
        }
    }
}

/// Taking an entry out keeps keys and values distinct, and where the keys
/// are distinct the key of the entry is gone.
pub proof fn lemma_remove_keeps_distinct(t: Entries, i: int)
    requires
        0 <= i < t.len(),
    ensures
        distinct_keys(t) ==> distinct_keys(t.remove(i)) && !has_key(t.remove(i), t[i].0),
        distinct_values(t) ==> distinct_values(t.remove(i)) && !has_value(t.remove(i), t[i].1),
        forall|j: int|
            0 <= j < t.remove(i).len() ==> #[trigger] t.remove(i)[j] == t[if j < i {
                j
            } else {
                j + 1
            }],
{
    let after = t.remove(i);
    assert forall|a: int, b: int|
        0 <= a < after.len() && 0 <= b < after.len() && a != b implies (distinct_keys(t) ==> (
        #[trigger] after[a]).0 != (#[trigger] after[b]).0) && (distinct_values(t) ==> after[a].1
        != after[b].1) by {
        let a0 = if a < i {
            a
        } else {
            a + 1
        };
        let b0 = if b < i {
            b
        } else {
            b + 1
        };
        assert(after[a] == t[a0]);
        assert(after[b] == t[b0]);
        if distinct_keys(t) {
            assert(t[a0].0 != t[b0].0);
        }
        if distinct_values(t) {
            assert(t[a0].1 != t[b0].1);
        }
    }
    if distinct_keys(t) && has_key(after, t[i].0) {
        let j = choose|j: int| 0 <= j < after.len() && (#[trigger] after[j]).0 == t[i].0;
        let j0 = if j < i {
            j
        } else {
            j + 1
        };
        assert(after[j] == t[j0]);
        assert(t[j0].0 != t[i].0);
    }
    if distinct_values(t) && has_value(after, t[i].1) {
        let j = choose|j: int| 0 <= j < after.len() && (#[trigger] after[j]).1 == t[i].1;
        let j0 = if j < i {
            j
        } else {
            j + 1
        };
        assert(after[j] == t[j0]);
        assert(t[j0].1 != t[i].1);
    }
}

/// An entry that was entered last under a new key is the first, and the only
/// one, of that key; taking it out gives the table back.
pub proof fn lemma_push_then_remove(t: Entries, k: Seq<char>, v: Seq<char>)
    requires
        !has_key(t, k),
    ensures
        is_first_key(t.push((k, v)), k, t.len() as int),
        first_key_index(t.push((k, v)), k) == t.len(),
        t.push((k, v)).remove(t.len() as int) == t,
        as_map(t.push((k, v)))[k] == v,
        !has_value(t, v) ==> is_first_value(t.push((k, v)), v, t.len() as int)
            && first_value_index(t.push((k, v)), v) == t.len(),
{
    let entered = t.push((k, v));
    assert forall|j: int| 0 <= j < t.len() implies (#[trigger] entered[j]).0 != k by {
        assert(entered[j] == t[j]);
    }
    lemma_first_key(entered, k, t.len() as int);
    assert(entered.remove(t.len() as int) == t);
    if !has_value(t, v) {
        assert forall|j: int| 0 <= j < t.len() implies (#[trigger] entered[j]).1 != v by {
            assert(entered[j] == t[j]);
        }
        lemma_first_value(entered, v, t.len() as int);
    }
}

/// How many entries of `t` have the value `v`.
pub open spec fn count_value(t: Entries, v: Seq<char>) -> nat
    decreases t.len(),
{
    if t.len() == 0 {
        0
    } else {
        count_value(t.drop_last(), v) + if t.last().1 == v {
            1nat
        } else {
            0nat
        }
    }
}

/// No key occurs twice.
pub open spec fn distinct_keys(t: Entries) -> bool {
    forall|i: int, j: int|
        0 <= i < t.len() && 0 <= j < t.len() && i != j ==> (#[trigger] t[i]).0 != (#[trigger] t[j]).0
}

/// No value occurs twice.
pub open spec fn distinct_values(t: Entries) -> bool {
    forall|i: int, j: int|
        0 <= i < t.len() && 0 <= j < t.len() && i != j ==> (#[trigger] t[i]).1 != (#[trigger] t[j]).1
}

/// The table as a mapping from key to value. Where a key occurs more than
/// once, its first entry counts.
pub open spec fn as_map(t: Entries) -> Map<Seq<char>, Seq<char>> {
    Map::new(
        |k: Seq<char>| has_key(t, k),
        |k: Seq<char>| t[first_key_index(t, k)].1,
    )
}

/// A table with no value is counted zero times, and the other way round.
pub proof fn lemma_count_zero(t: Entries, v: Seq<char>)
    ensures
        count_value(t, v) == 0 <==> !has_value(t, v),
    decreases t.len(),
{
    if t.len() > 0 {
        let front = t.drop_last();
        lemma_count_zero(front, v);
        if has_value(t, v) {
            let i = choose|i: int| 0 <= i < t.len() && (#[trigger] t[i]).1 == v;
            if i < t.len() - 1 {
                assert(front[i].1 == v);
            }
        }
        if has_value(front, v) {
            let i = choose|i: int| 0 <= i < front.len() && (#[trigger] front[i]).1 == v;
            assert(t[i].1 == v);
        }
    }
}

/// Where no value occurs twice, a value is counted at most once.
pub proof fn lemma_count_distinct(t: Entries, v: Seq<char>)
    requires
        distinct_values(t),
    ensures
        count_value(t, v) <= 1,
    decreases t.len(),
{
    if t.len() > 0 {
        let front = t.drop_last();
        assert(distinct_values(front)) by {
            assert forall|i: int, j: int|
                0 <= i < front.len() && 0 <= j < front.len() && i != j implies (#[trigger] front[i]).1
                != (#[trigger] front[j]).1 by {
                assert(t[i].1 != t[j].1);
            }
        }
        lemma_count_distinct(front, v);
        if t.last().1 == v {
            lemma_count_zero(front, v);
            if has_value(front, v) {
                let i = choose|i: int| 0 <= i < front.len() && (#[trigger] front[i]).1 == v;
                assert(t[i].1 == v);
                assert(t[t.len() - 1].1 == v);
            }
        }
    }
}

/// Removing an entry takes one from the count of its value and leaves the
/// other counts.
pub proof fn lemma_count_remove(t: Entries, i: int, v: Seq<char>)
    requires
        0 <= i < t.len(),
    ensures
        count_value(t, v) == count_value(t.remove(i), v) + if t[i].1 == v {
            1nat
        } else {
            0nat
        },
    decreases t.len(),
{
    if i == t.len() - 1 {
        assert(t.remove(i) == t.drop_last());
    } else {
        let front = t.drop_last();
        lemma_count_remove(front, i, v);
        assert(t.remove(i).drop_last() == front.remove(i));
        assert(t.remove(i).last() == t.last());
    }
}

/// One entry of a table.
#[derive(Clone, Debug)]
pub struct Pair {
    pub key: String,
    pub value: String,
}

impl View for Pair {
    type V = (Seq<char>, Seq<char>);

    open spec fn view(&self) -> (Seq<char>, Seq<char>) {
        (self.key@, self.value@)
    }
}

/// A table of text pairs in the order in which they were entered. A table
/// that was read from a document holds no key twice (`distinct_keys`), and
/// the operations on registry and index enter a key only where it is new;
/// where a key does occur twice, its first entry counts.
#[derive(Debug)]
pub struct PairTable {
    pub entries: Vec<Pair>,
}

impl View for PairTable {
    type V = Entries;

    open spec fn view(&self) -> Entries {
        self.entries@.map_values(|p: Pair| p@)
    }
}

/// What a search by value found.
#[derive(Clone, Copy, Debug)]
pub enum Matches {
    /// No entry has the value.
    Absent,
    /// Exactly one entry has it, at this position.
    Single(usize),
    /// Two or more entries have it.
    Several,
}

impl PairTable {
    /// A table without entries.
    pub fn new() -> (t: PairTable)
        ensures
            t@ == Entries::empty(),
    {
        PairTable { entries: Vec::new() }
    }

    /// The number of entries.
    pub fn len(&self) -> (n: usize)
        ensures
            n == self@.len(),
    {
        self.entries.len()
    }

    /// A copy of the table.
    pub fn duplicate(&self) -> (t: PairTable)
        ensures
            t@ == self@,
    {
        let mut entries: Vec<Pair> = Vec::new();
        let mut i: usize = 0;
        while i < self.entries.len()
            invariant
                i <= self.entries.len(),
                entries@.map_values(|p: Pair| p@) == self@.take(i as int),
            decreases self.entries.len() - i,
        {
            let pair = Pair {
                key: self.entries[i].key.clone(),
                value: self.entries[i].value.clone(),
            };
            assert(pair@ == self@[i as int]);
            let ghost before = entries@.map_values(|p: Pair| p@);
            entries.push(pair);
            assert(entries@.map_values(|p: Pair| p@) == before.push(pair@));
            assert(self@.take(i + 1) == self@.take(i as int).push(self@[i as int]));
            i += 1;
        }
        assert(self@.take(self@.len() as int) == self@);
        PairTable { entries }
    }

    /// The first position that holds `key`.
    pub fn position_of_key(&self, key: &str) -> (found: Option<usize>)
        ensures
            found matches Some(i) ==> is_first_key(self@, key@, i as int),
            found is None ==> !has_key(self@, key@),
    {
        let wanted: String = key.to_owned();
        let mut i: usize = 0;
        while i < self.entries.len()
            invariant
                i <= self.entries.len(),
                wanted@ == key@,
                forall|j: int| 0 <= j < i ==> (#[trigger] self@[j]).0 != key@,
            decreases self.entries.len() - i,
        {
            if self.entries[i].key == wanted {
                assert(self@[i as int].0 == key@);
                return Some(i);
            }
            assert(self@[i as int].0 != key@);
            i += 1;
        }
        None
    }

    /// Whether some entry holds `key`.
    pub fn contains_key(&self, key: &str) -> (found: bool)
        ensures
            found == has_key(self@, key@),
    {
        self.position_of_key(key).is_some()
    }

    /// Whether some entry holds `value`.
    pub fn contains_value(&self, value: &str) -> (found: bool)
        ensures
            found == has_value(self@, value@),
    {
        self.position_of_value(value).is_some()
    }

    /// The first position that holds `value`.
    pub fn position_of_value(&self, value: &str) -> (found: Option<usize>)
        ensures
            found matches Some(i) ==> is_first_value(self@, value@, i as int),
            found is None ==> !has_value(self@, value@),
    {
        let wanted: String = value.to_owned();
        let mut i: usize = 0;
        while i < self.entries.len()
            invariant
                i <= self.entries.len(),
                wanted@ == value@,
                forall|j: int| 0 <= j < i ==> (#[trigger] self@[j]).1 != value@,
            decreases self.entries.len() - i,
        {
            if self.entries[i].value == wanted {
                assert(self@[i as int].1 == value@);
                return Some(i);
            }
            assert(self@[i as int].1 != value@);
            i += 1;
        }
        None
    }

    /// Searches by value and tells no match, one match and several apart.
    pub fn search_value(&self, value: &str) -> (found: Matches)
        ensures
            found is Absent <==> count_value(self@, value@) == 0,
            found is Several <==> count_value(self@, value@) >= 2,
            found matches Matches::Single(i) ==> count_value(self@, value@) == 1 && is_first_value(
                self@,
                value@,
                i as int,
            ),
    {
        let wanted: String = value.to_owned();
        let mut found = Matches::Absent;
        let mut i: usize = 0;
        while i < self.entries.len()
            invariant
                i <= self.entries.len(),
                wanted@ == value@,
                found is Absent <==> count_value(self@.take(i as int), value@) == 0,
                found is Several <==> count_value(self@.take(i as int), value@) >= 2,
                found matches Matches::Single(k) ==> k < i && count_value(
                    self@.take(i as int),
                    value@,
                ) == 1 && is_first_value(self@, value@, k as int),
                found is Absent ==> forall|j: int| 0 <= j < i ==> (#[trigger] self@[j]).1 != value@,
            decreases self.entries.len() - i,
        {
            proof {
                assert(self@.take(i + 1).drop_last() == self@.take(i as int));
                assert(self@.take(i + 1).last() == self@[i as int]);
            }
            if self.entries[i].value == wanted {
                assert(self@[i as int].1 == value@);
                found =
                match found {
                    Matches::Absent => Matches::Single(i),
                    _ => Matches::Several,
                };
            } else {
                assert(self@[i as int].1 != value@);
            }
            i += 1;
        }
        assert(self@.take(self@.len() as int) == self@);
        found
    }

    /// The key at a position.
    pub fn key_at(&self, index: usize) -> (key: &String)
        requires
            index < self@.len(),
        ensures
            key@ == self@[index as int].0,
    {
        &self.entries[index].key
    }

    /// The value at a position.
    pub fn value_at(&self, index: usize) -> (value: &String)
        requires
            index < self@.len(),
        ensures
            value@ == self@[index as int].1,
    {
        &self.entries[index].value
    }

    /// The value entered for `key`.
    pub fn get(&self, key: &str) -> (value: Option<&String>)
        ensures
            value is Some <==> has_key(self@, key@),
            value matches Some(v) ==> as_map(self@)[key@] == v@,
    {
        match self.position_of_key(key) {
            Some(i) => {
                proof {
                    lemma_first_key(self@, key@, i as int);
                }
                Some(&self.entries[i].value)
            },
            None => None,
        }
    }

    /// All keys, in the order of the entries.
    pub fn keys(&self) -> (keys: Vec<String>)
        ensures
            keys.len() == self@.len(),
            forall|i: int| 0 <= i < keys.len() ==> (#[trigger] keys[i])@ == self@[i].0,
    {
        let mut keys: Vec<String> = Vec::new();
        let mut i: usize = 0;
        while i < self.entries.len()
            invariant
                i <= self.entries.len(),
                keys.len() == i,
                forall|j: int| 0 <= j < i ==> (#[trigger] keys[j])@ == self@[j].0,
            decreases self.entries.len() - i,
        {
            keys.push(self.entries[i].key.clone());
            i += 1;
        }
        keys
    }

    /// Appends an entry.
    pub fn push(&mut self, key: String, value: String)
        ensures
            final(self)@ == old(self)@.push((key@, value@)),
    {
        self.entries.push(Pair { key, value });
        assert(self@ == old(self)@.push((key@, value@)));
    }

    /// Takes out the entry at a position and keeps the others in order.
    pub fn remove_at(&mut self, index: usize) -> (pair: Pair)
        requires
            index < old(self)@.len(),
        ensures
            final(self)@ == old(self)@.remove(index as int),
            pair@ == old(self)@[index as int],
    {
        let pair = self.entries.remove(index);
        assert(self@ == old(self)@.remove(index as int));
        pair
    }
}

/// The keys of a table are the identifiers in use, for minting a new one.
pub proof fn lemma_keys_hold(t: Entries, keys: Seq<String>, k: Seq<char>)
    requires
        keys.len() == t.len(),
        forall|i: int| 0 <= i < keys.len() ==> (#[trigger] keys[i])@ == t[i].0,
    ensures
        crate::id::holds_id(keys, k) == has_key(t, k),
{
    if crate::id::holds_id(keys, k) {
        let i = choose|i: int| 0 <= i < keys.len() && (#[trigger] keys[i])@ == k;
        assert(t[i].0 == k);
    }
    if has_key(t, k) {
        let i = choose|i: int| 0 <= i < t.len() && (#[trigger] t[i]).0 == k;
        assert(keys[i]@ == k);
    }
}

} // verus!
