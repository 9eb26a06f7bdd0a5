//! What a collector produces: metric values, and the record of one reading.

use vstd::prelude::*;
use crate::decimal::Decimal;
use crate::text::{precedes, precedes_transitive, rank, to_chars, Rank};

verus! {

/// One metric's value.
#[derive(Debug)]
pub enum MetricValue {
    /// A signed count.
    Integer(i64),
    /// A real number.
    Float(Decimal),
    /// A text.
    String(String),
    /// A flag.
    Boolean(bool),
    /// Values in order; they need not be of one kind, and may be lists again.
    List(Vec<MetricValue>),
}

/// The mathematical content of a metric value.
pub enum Value {
    Integer(int),
    Float(Decimal),
    Text(Seq<char>),
    Boolean(bool),
    List(Seq<Value>),
}

impl View for MetricValue {
    type V = Value;

    open spec fn view(&self) -> Value
        decreases self,
    {
        match self {
            MetricValue::Integer(i) => Value::Integer(*i as int),
            MetricValue::Float(d) => Value::Float(*d),
            MetricValue::String(s) => Value::Text(s@),
            MetricValue::Boolean(b) => Value::Boolean(*b),
            MetricValue::List(items) => Value::List(contents_from(items@, 0)),
        }
    }
}

/// The contents of the items from place `i` on.
pub open spec fn contents_from(items: Seq<MetricValue>, i: int) -> Seq<Value>
    decreases items, items.len() - i,
{
    if 0 <= i < items.len() {
        seq![items[i].view()] + contents_from(items, i + 1)
    } else {
        Seq::<Value>::empty()
    }
}

/// The contents of the items from place `i` on, one for one.
pub proof fn contents_each(items: Seq<MetricValue>, i: int)
    requires
        0 <= i <= items.len(),
    ensures
        contents_from(items, i).len() == items.len() - i,
        forall|k: int|
            0 <= k < items.len() - i ==> (#[trigger] contents_from(items, i)[k]) == items[i
                + k]@,
    decreases items.len() - i,
{
    reveal_with_fuel(contents_from, 2);
    if i < items.len() {
        contents_each(items, i + 1);
        assert(contents_from(items, i) == seq![items[i].view()] + contents_from(items, i + 1));
    } else {
        assert(contents_from(items, i) == Seq::<Value>::empty());
    }
}

/// The contents of the items, one for one.
pub open spec fn contents(items: Seq<MetricValue>) -> Seq<Value> {
    Seq::new(items.len(), |i: int| items[i]@)
}

/// The content of a list is the sequence of its items' contents.
pub proof fn list_content(items: Vec<MetricValue>)
    ensures
        MetricValue::List(items)@ is List,
        MetricValue::List(items)@->List_0.len() == items@.len(),
        forall|i: int|
            0 <= i < items@.len() ==> (#[trigger] MetricValue::List(items)@->List_0[i])
                == items@[i]@,
{
    contents_each(items@, 0);
}

/// A count reinterpreted as a signed 64-bit number: itself while it fits,
/// else itself less two to the power 64.
pub open spec fn wrap_signed(x: int) -> int {
    if x <= i64::MAX {
        x
    } else {
        x - 0x1_0000_0000_0000_0000
    }
}

/// A count reinterpreted as a signed 64-bit number.
pub fn to_signed(x: u64) -> (r: i64)
    ensures
        r == wrap_signed(x as int),
{
    if x <= 0x7fff_ffff_ffff_ffff {
        x as i64
    } else {
        let low: u64 = x - 0x8000_0000_0000_0000;
        (low as i64) + i64::MIN
    }
}

impl MetricValue {
    /// The count `x` as an integer metric.
    pub fn count(x: u64) -> (r: MetricValue)
        ensures
            r@ == Value::Integer(wrap_signed(x as int)),
    {
        MetricValue::Integer(to_signed(x))
    }

    /// The characters as a text metric.
    pub fn text(chars: &Vec<char>) -> (r: MetricValue)
        ensures
            r@ == Value::Text(chars@),
    {
        MetricValue::String(crate::text::to_text(chars))
    }

    /// The items as a list metric.
    pub fn list(items: Vec<MetricValue>) -> (r: MetricValue)
        ensures
            r@ == Value::List(contents(items@)),
    {
        proof {
            list_content(items);
            assert(MetricValue::List(items)@->List_0 =~= contents(items@));
        }
        MetricValue::List(items)
    }

    /// A copy with the same content.
    pub fn duplicate(&self) -> (r: MetricValue)
        ensures
            r@ == self@,
        decreases self,
    {
        match self {
            MetricValue::Integer(i) => MetricValue::Integer(*i),
            MetricValue::Float(d) => MetricValue::Float(*d),
            MetricValue::String(s) => MetricValue::String(s.clone()),
            MetricValue::Boolean(b) => MetricValue::Boolean(*b),
            MetricValue::List(items) => {
                let mut copies: Vec<MetricValue> = Vec::new();
                let mut i: usize = 0;
                while i < items.len()
                    invariant
                        i <= items.len(),
                        *self == MetricValue::List(*items),
                        copies.len() == i,
                        forall|k: int| 0 <= k < i ==> (#[trigger] copies@[k])@ == items@[k]@,
                    decreases items.len() - i,
                {
                    proof {
                        vstd::std_specs::vec::axiom_vec_index_decreases(*items, i as int);
                        assert(self->List_0 == *items);
                        assert(decreases_to!(*self => self->List_0));
                        assert(decreases_to!(*self => items[i as int]));
                    }
                    copies.push(items[i].duplicate());
                    i += 1;
                }
                let r = MetricValue::List(copies);
                proof {
                    list_content(copies);
                    list_content(*items);
                    assert(r@->List_0 =~= self@->List_0);
                }
                r
            },
        }
    }
}

impl Clone for MetricValue {
    fn clone(&self) -> (r: MetricValue)
        ensures
            r@ == self@,
    {
        self.duplicate()
    }
}

impl From<i64> for MetricValue {
    fn from(value: i64) -> (r: MetricValue) {
        MetricValue::Integer(value)
    }
}

impl vstd::std_specs::convert::FromSpecImpl<i64> for MetricValue {
    open spec fn obeys_from_spec() -> bool {
        true
    }

    open spec fn from_spec(value: i64) -> MetricValue {
        MetricValue::Integer(value)
    }
}

impl From<Decimal> for MetricValue {
    fn from(value: Decimal) -> (r: MetricValue) {
        MetricValue::Float(value)
    }
}

impl vstd::std_specs::convert::FromSpecImpl<Decimal> for MetricValue {
    open spec fn obeys_from_spec() -> bool {
        true
    }

    open spec fn from_spec(value: Decimal) -> MetricValue {
        MetricValue::Float(value)
    }
}

impl From<String> for MetricValue {
    fn from(value: String) -> (r: MetricValue) {
        MetricValue::String(value)
    }
}

impl vstd::std_specs::convert::FromSpecImpl<String> for MetricValue {
    open spec fn obeys_from_spec() -> bool {
        true
    }

    open spec fn from_spec(value: String) -> MetricValue {
        MetricValue::String(value)
    }
}

impl<'a> From<&'a str> for MetricValue {
    fn from(value: &'a str) -> (r: MetricValue)
        ensures
            r@ == Value::Text(value@),
    {
        MetricValue::String(value.to_owned())
    }
}

impl<'a> vstd::std_specs::convert::FromSpecImpl<&'a str> for MetricValue {
    /// The result is known by its content only, not as a value.
    open spec fn obeys_from_spec() -> bool {
        false
    }

    open spec fn from_spec(value: &'a str) -> MetricValue {
        MetricValue::String(choose|s: String| s@ == value@)
    }
}

impl From<bool> for MetricValue {
    fn from(value: bool) -> (r: MetricValue) {
        MetricValue::Boolean(value)
    }
}

impl vstd::std_specs::convert::FromSpecImpl<bool> for MetricValue {
    open spec fn obeys_from_spec() -> bool {
        true
    }

    open spec fn from_spec(value: bool) -> MetricValue {
        MetricValue::Boolean(value)
    }
}

/// The moment of a reading: whole seconds since the Unix epoch and the
/// nanoseconds beyond them.
#[derive(Clone, Copy, PartialEq, Eq, Structural, Debug)]
pub struct Timestamp {
    pub secs: u64,
    pub nanos: u32,
}

/// Keys with the content of their values.
pub type Pairs = Seq<(Seq<char>, Value)>;

/// The content of a vector of entries.
pub open spec fn pairs_of(entries: Seq<(String, MetricValue)>) -> Pairs {
    Seq::new(entries.len(), |i: int| (entries[i].0@, entries[i].1@))
}

/// Whether the keys stand in strictly ascending lexicographic order.
pub open spec fn ascending(pairs: Pairs) -> bool {
    forall|i: int, j: int| 0 <= i < j < pairs.len() ==> precedes(#[trigger] pairs[i].0, #[trigger] pairs[j].0)
}

/// How many keys of `pairs` come before `key`, counted from the end: where
/// the keys ascend, the place at which `key` stands or belongs.
pub open spec fn place_of(pairs: Pairs, key: Seq<char>) -> int
    decreases pairs.len(),
{
    if pairs.len() == 0 {
        0
    } else if precedes(pairs.last().0, key) {
        pairs.len() as int
    } else {
        place_of(pairs.drop_last(), key)
    }
}

/// The value that stands under `key`, if any.
pub open spec fn lookup(pairs: Pairs, key: Seq<char>) -> Option<Value>
    decreases pairs.len(),
{
    if pairs.len() == 0 {
        None
    } else if pairs.last().0 == key {
        Some(pairs.last().1)
    } else {
        lookup(pairs.drop_last(), key)
    }
}

/// `pairs` with `value` under `key`: in place of the value that stood there,
/// or as a new entry where the key belongs.
pub open spec fn put(pairs: Pairs, key: Seq<char>, value: Value) -> Pairs {
    let at = place_of(pairs, key);
    if 0 <= at < pairs.len() && pairs[at].0 == key {
        pairs.update(at, (key, value))
    } else if 0 <= at <= pairs.len() {
        pairs.insert(at, (key, value))
    } else {
        pairs
    }
}

/// Where the keys ascend, `at` is the place of `key` if every earlier key
/// comes before it and the key at `at`, if any, does not.
pub proof fn place_found(pairs: Pairs, key: Seq<char>, at: int)
    requires
        ascending(pairs),
        0 <= at <= pairs.len(),
        forall|j: int| 0 <= j < at ==> precedes(#[trigger] pairs[j].0, key),
        at < pairs.len() ==> !precedes(pairs[at].0, key),
    ensures
        place_of(pairs, key) == at,
    decreases pairs.len(),
{
    if pairs.len() > 0 {
        let last = pairs.len() - 1;
        if precedes(pairs.last().0, key) {
            if at < last {
                precedes_transitive(pairs[at].0, pairs[last].0, key);
            }
        } else {
            let rest = pairs.drop_last();
            assert forall|i: int, j: int| 0 <= i < j < rest.len() implies precedes(
                #[trigger] rest[i].0,
                #[trigger] rest[j].0,
            ) by {
                assert(rest[i] == pairs[i] && rest[j] == pairs[j]);
            }
            assert forall|j: int| 0 <= j < at implies precedes(#[trigger] rest[j].0, key) by {
                assert(rest[j] == pairs[j]);
            }
            place_found(rest, key, at);
        }
    }
}

/// Where the keys ascend, a key stands at one place at most, and `lookup`
/// gives the value at that place.
pub proof fn lookup_found(pairs: Pairs, key: Seq<char>, at: int)
    requires
        ascending(pairs),
        0 <= at < pairs.len(),
        pairs[at].0 == key,
    ensures
        lookup(pairs, key) == Some(pairs[at].1),
    decreases pairs.len(),
{
    let last = pairs.len() - 1;
    if at < last {
        crate::text::precedes_irreflexive(key);
        assert(precedes(pairs[at].0, pairs[last].0));
        let rest = pairs.drop_last();
        assert forall|i: int, j: int| 0 <= i < j < rest.len() implies precedes(
            #[trigger] rest[i].0,
            #[trigger] rest[j].0,
        ) by {
            assert(rest[i] == pairs[i] && rest[j] == pairs[j]);
        }
        assert(rest[at] == pairs[at]);
        lookup_found(rest, key, at);
    }
}

/// A key that stands nowhere has no value.
pub proof fn lookup_absent(pairs: Pairs, key: Seq<char>)
    requires
        forall|i: int| 0 <= i < pairs.len() ==> (#[trigger] pairs[i]).0 != key,
    ensures
        lookup(pairs, key) is None,
    decreases pairs.len(),
{
    if pairs.len() > 0 {
        let rest = pairs.drop_last();
        assert(pairs[pairs.len() - 1].0 != key);
        assert forall|i: int| 0 <= i < rest.len() implies (#[trigger] rest[i]).0 != key by {
            assert(rest[i] == pairs[i]);
        }
        lookup_absent(rest, key);
    }
}

/// A value that `lookup` gives stands under its key at some place.
pub proof fn lookup_place(pairs: Pairs, key: Seq<char>) -> (at: int)
    requires
        lookup(pairs, key) is Some,
    ensures
        0 <= at < pairs.len(),
        pairs[at].0 == key,
        lookup(pairs, key) == Some(pairs[at].1),
    decreases pairs.len(),
{
    if pairs.last().0 == key {
        pairs.len() - 1
    } else {
        let at = lookup_place(pairs.drop_last(), key);
        assert(pairs.drop_last()[at] == pairs[at]);
        at
    }
}

/// Where the keys ascend, the place of a key is within the sequence, every
/// earlier key comes before it and no later key does.
pub proof fn place_bounds(pairs: Pairs, key: Seq<char>)
    requires
        ascending(pairs),
    ensures
        0 <= place_of(pairs, key) <= pairs.len(),
        forall|j: int| 0 <= j < place_of(pairs, key) ==> precedes(#[trigger] pairs[j].0, key),
        forall|j: int|
            place_of(pairs, key) <= j < pairs.len() ==> !precedes(#[trigger] pairs[j].0, key),
    decreases pairs.len(),
{
    if pairs.len() > 0 {
        let last = pairs.len() - 1;
        if precedes(pairs.last().0, key) {
            assert forall|j: int| 0 <= j < pairs.len() implies precedes(
                #[trigger] pairs[j].0,
                key,
            ) by {
                if j < last {
                    precedes_transitive(pairs[j].0, pairs[last].0, key);
                }
            }
        } else {
            let rest = pairs.drop_last();
            assert forall|i: int, j: int| 0 <= i < j < rest.len() implies precedes(
                #[trigger] rest[i].0,
                #[trigger] rest[j].0,
            ) by {
                assert(rest[i] == pairs[i] && rest[j] == pairs[j]);
            }
            place_bounds(rest, key);
            assert forall|j: int| 0 <= j < place_of(pairs, key) implies precedes(
                #[trigger] pairs[j].0,
                key,
            ) by {
                assert(rest[j] == pairs[j]);
            }
            assert forall|j: int| place_of(pairs, key) <= j < pairs.len() implies !precedes(
                #[trigger] pairs[j].0,
                key,
            ) by {
                if j < last {
                    assert(rest[j] == pairs[j]);
                }
            }
        }
    }
}

/// Putting a value keeps the keys unique and ascending.
pub proof fn put_ascending(pairs: Pairs, key: Seq<char>, value: Value)
    requires
        ascending(pairs),
    ensures
        ascending(put(pairs, key, value)),
{
    place_bounds(pairs, key);
    let at = place_of(pairs, key);
    let now = put(pairs, key, value);
    if at < pairs.len() && pairs[at].0 == key {
        assert forall|i: int, j: int| 0 <= i < j < now.len() implies precedes(
            #[trigger] now[i].0,
            #[trigger] now[j].0,
        ) by {
            assert(now[i].0 == pairs[i].0 && now[j].0 == pairs[j].0);
        }
    } else {
        assert forall|i: int, j: int| 0 <= i < j < now.len() implies precedes(
            #[trigger] now[i].0,
            #[trigger] now[j].0,
        ) by {
            if at < pairs.len() {
                crate::text::precedes_total(pairs[at].0, key);
            }
            if i < at && j == at {
                assert(now[i] == pairs[i]);
            } else if i == at {
                assert(now[j] == pairs[j - 1]);
                if j - 1 > at {
                    precedes_transitive(key, pairs[at].0, pairs[j - 1].0);
                }
            } else if j < at {
                assert(now[i] == pairs[i] && now[j] == pairs[j]);
            } else if i < at {
                assert(now[i] == pairs[i] && now[j] == pairs[j - 1]);
            } else {
                assert(now[i] == pairs[i - 1] && now[j] == pairs[j - 1]);
            }
        }
    }
}

/// After a value was put under a key, it is what stands there.
pub proof fn lookup_put_same(pairs: Pairs, key: Seq<char>, value: Value)
    requires
        ascending(pairs),
    ensures
        lookup(put(pairs, key, value), key) == Some(value),
{
    place_bounds(pairs, key);
    put_ascending(pairs, key, value);
    let at = place_of(pairs, key);
    assert(put(pairs, key, value)[at] == (key, value));
    lookup_found(put(pairs, key, value), key, at);
}

/// Putting a value under one key changes nothing under another.
pub proof fn lookup_put_other(pairs: Pairs, key: Seq<char>, value: Value, other: Seq<char>)
    requires
        ascending(pairs),
        other != key,
    ensures
        lookup(put(pairs, key, value), other) == lookup(pairs, other),
{
    place_bounds(pairs, key);
    put_ascending(pairs, key, value);
    let at = place_of(pairs, key);
    let now = put(pairs, key, value);
    let replaced = at < pairs.len() && pairs[at].0 == key;
    if lookup(pairs, other) is Some {
        let i = lookup_place(pairs, other);
        let j = if replaced || i < at {
            i
        } else {
            i + 1
        };
        assert(now[j] == pairs[i]);
        lookup_found(now, other, j);
    } else {
        if lookup(now, other) is Some {
            let j = lookup_place(now, other);
            let i = if replaced || j < at {
                j
            } else {
                j - 1
            };
            assert(now[j].0 == pairs[i].0);
            lookup_found(pairs, other, i);
        }
    }
}

/// The readings of one module at one moment: values under unique keys.
#[derive(Debug)]
pub struct MetricData {
    timestamp: Timestamp,
    entries: Vec<(String, MetricValue)>,
}

impl MetricData {
    /// The entries in ascending order of their keys.
    pub closed spec fn pairs(&self) -> Pairs {
        pairs_of(self.entries@)
    }

    /// The moment of the reading.
    pub closed spec fn moment(&self) -> Timestamp {
        self.timestamp
    }

    /// Whether the keys are unique and ascending. It holds of every record
    /// that this library hands out.
    pub open spec fn wf(&self) -> bool {
        ascending(self.pairs())
    }

    #[verifier::type_invariant]
    spec fn ordered(&self) -> bool {
        ascending(pairs_of(self.entries@))
    }

    /// A record without metrics.
    pub fn new(timestamp: Timestamp) -> (r: MetricData)
        ensures
            r.wf(),
            r.moment() == timestamp,
            r.pairs() == Seq::<(Seq<char>, Value)>::empty(),
    {
        let r = MetricData { timestamp, entries: Vec::new() };
        proof {
            assert(r.pairs() =~= Seq::<(Seq<char>, Value)>::empty());
        }
        r
    }

    /// The moment of the reading.
    pub fn timestamp(&self) -> (t: Timestamp)
        ensures
            t == self.moment(),
    {
        self.timestamp
    }

    /// The entries in ascending order of their keys.
    pub fn entries(&self) -> (r: &Vec<(String, MetricValue)>)
        ensures
            pairs_of(r@) == self.pairs(),
            self.wf(),
    {
        proof {
            use_type_invariant(self);
        }
        &self.entries
    }

    /// The number of metrics.
    pub fn len(&self) -> (n: usize)
        ensures
            n == self.pairs().len(),
    {
        self.entries.len()
    }

    /// A copy with the same moment and content.
    pub fn duplicate(&self) -> (r: MetricData)
        ensures
            r.wf(),
            r.moment() == self.moment(),
            r.pairs() == self.pairs(),
    {
        proof {
            use_type_invariant(self);
        }
        let mut entries: Vec<(String, MetricValue)> = Vec::new();
        let mut i: usize = 0;
        while i < self.entries.len()
            invariant
                i <= self.entries.len(),
                entries.len() == i,
                forall|k: int|
                    0 <= k < i ==> (#[trigger] entries@[k]).0@ == self.entries@[k].0@
                        && entries@[k].1@ == self.entries@[k].1@,
            decreases self.entries.len() - i,
        {
            entries.push((self.entries[i].0.clone(), self.entries[i].1.duplicate()));
            i += 1;
        }
        proof {
            assert(pairs_of(entries@) =~= pairs_of(self.entries@));
        }
        MetricData { timestamp: self.timestamp, entries }
    }

    /// The value under `key`, if there is one.
    pub fn get(&self, key: &str) -> (r: Option<&MetricValue>)
        ensures
            match r {
                Some(value) => lookup(self.pairs(), key@) == Some(value@),
                None => lookup(self.pairs(), key@) is None,
            },
    {
        proof {
            use_type_invariant(self);
        }
        let wanted = to_chars(key);
        let mut at: usize = 0;
        while at < self.entries.len()
            invariant
                at <= self.entries.len(),
                wanted@ == key@,
                ascending(self.pairs()),
                forall|j: int| 0 <= j < at ==> (#[trigger] self.pairs()[j]).0 != key@,
            decreases self.entries.len() - at,
        {
            let here = to_chars(self.entries[at].0.as_str());
            if crate::text::same_chars(&here, &wanted) {
                proof {
                    lookup_found(self.pairs(), key@, at as int);
                }
                return Some(&self.entries[at].1);
            }
            at += 1;
        }
        proof {
            lookup_absent(self.pairs(), key@);
        }
        None
    }

    /// Puts `value` under `key`, in place of what stood there if anything did.
    pub fn insert(&mut self, key: String, value: MetricValue)
        ensures
            final(self).wf(),
            final(self).moment() == old(self).moment(),
            final(self).pairs() == put(old(self).pairs(), key@, value@),
    {
        let mut held = MetricData::new(self.timestamp);
        std::mem::swap(self, &mut held);
        *self = held.with(key, value);
    }

    /// This record with `value` under `key`, in place of what stood there if
    /// anything did.
    pub fn with(self, key: String, value: MetricValue) -> (r: MetricData)
        ensures
            r.wf(),
            r.moment() == self.moment(),
            r.pairs() == put(self.pairs(), key@, value@),
    {
        proof {
            use_type_invariant(&self);
        }
        let ghost before = self.pairs();
        let MetricData { timestamp, entries } = self;
        let mut entries = entries;
        let wanted = to_chars(key.as_str());
        let mut at: usize = 0;
        let mut found = false;
        while at < entries.len()
            invariant_except_break
                !found,
            invariant
                at <= entries.len(),
                pairs_of(entries@) == before,
                ascending(before),
                wanted@ == key@,
                forall|j: int| 0 <= j < at ==> precedes(#[trigger] before[j].0, key@),
            ensures
                found ==> at < entries.len() && before[at as int].0 == key@,
                !found && at < entries.len() ==> precedes(key@, before[at as int].0),
            decreases entries.len() - at,
        {
            let here = to_chars(entries[at].0.as_str());
            match rank(&here, &wanted) {
                Rank::Before => {
                    at += 1;
                },
                Rank::Same => {
                    found = true;
                    break ;
                },
                Rank::After => {
                    break ;
                },
            }
        }
        proof {
            let pairs = pairs_of(entries@);
            if at < pairs.len() {
                crate::text::precedes_irreflexive(key@);
                if !found && precedes(pairs[at as int].0, key@) {
                    precedes_transitive(key@, pairs[at as int].0, key@);
                }
            }
            place_found(pairs, key@, at as int);
        }
        let ghost entry = (key@, value@);
        proof {
            put_ascending(before, key@, value@);
        }
        if found {
            entries.set(at, (key, value));
            proof {
                assert(pairs_of(entries@) =~= before.update(at as int, entry));
            }
        } else {
            entries.insert(at, (key, value));
            proof {
                assert(pairs_of(entries@) =~= before.insert(at as int, entry));
            }
        }
        MetricData { timestamp, entries }
    }
}

impl Clone for MetricData {
    fn clone(&self) -> (r: MetricData)
        ensures
            r.wf(),
            r.moment() == self.moment(),
            r.pairs() == self.pairs(),
    {
        self.duplicate()
    }
}

} // verus!
