//! Statistics about the values of a JSON document: how many of each kind
//! there were and how many characters they took.
use vstd::prelude::*;
use vstd::string::{StringExecFns, StringSliceAdditionalSpecFns};

use crate::json_value::{
    items_size, json_size, lemma_items_size_prefix, lemma_json_size_nonneg, lemma_props_size_prefix,
    props_size, separators, text_len, JsonValue,
};

verus! {

/// The sum of the numbers in `s`.
pub open spec fn sum_of(s: Seq<usize>) -> int
    decreases s.len(),
{
    if s.len() == 0 {
        0
    } else {
        sum_of(s.drop_last()) + s.last()
    }
}

pub proof fn lemma_sum_of_prefix(s: Seq<usize>, k: int)
    requires
        0 <= k <= s.len(),
    ensures
        0 <= sum_of(s.subrange(0, k)) <= sum_of(s),
    decreases s.len(),
{
    if s.len() > 0 {
        if k == s.len() {
            assert(s.subrange(0, k) =~= s);
            lemma_sum_of_prefix(s.drop_last(), k - 1);
        } else {
            assert(s.drop_last().subrange(0, k) =~= s.subrange(0, k));
            lemma_sum_of_prefix(s.drop_last(), k);
        }
    }
}

pub proof fn lemma_sum_of_append(a: Seq<usize>, b: Seq<usize>)
    ensures
        sum_of(a + b) == sum_of(a) + sum_of(b),
    decreases b.len(),
{
    if b.len() > 0 {
        assert((a + b).drop_last() =~= a + b.drop_last());
        lemma_sum_of_append(a, b.drop_last());
    } else {
        assert(a + b =~= a);
    }
}

/// Adds up `s` in a `u64`.
fn sum_sizes(s: &Vec<usize>) -> (r: u64)
    requires
        sum_of(s@) <= u64::MAX,
    ensures
        r == sum_of(s@),
{
    let mut total: u64 = 0;
    let mut k: usize = 0;
    while k < s.len()
        invariant
            k <= s@.len(),
            sum_of(s@) <= u64::MAX,
            total == sum_of(s@.subrange(0, k as int)),
        decreases s@.len() - k,
    {
        proof {
            assert(s@.subrange(0, k + 1).drop_last() =~= s@.subrange(0, k as int));
            lemma_sum_of_prefix(s@, k + 1);
        }
        total = total + s[k] as u64;
        k = k + 1;
    }
    assert(s@.subrange(0, s@.len() as int) =~= s@);
    total
}

/// Appends `from` to `to`.
fn extend_sizes(to: &mut Vec<usize>, from: &Vec<usize>)
    ensures
        final(to)@ == old(to)@ + from@,
{
    let mut k: usize = 0;
    while k < from.len()
        invariant
            k <= from@.len(),
            to@ == old(to)@ + from@.subrange(0, k as int),
        decreases from@.len() - k,
    {
        to.push(from[k]);
        proof {
            assert(from@.subrange(0, k + 1) =~= from@.subrange(0, k as int).push(from@[k as int]));
        }
        k = k + 1;
    }
    assert(from@.subrange(0, from@.len() as int) =~= from@);
}

/// Statistics gathered about some values.
pub trait Statistics: Sized {
    /// The total size in characters of the values.
    spec fn total_size(&self) -> int;

    /// The number of values.
    spec fn total_count(&self) -> int;

    /// The total size in number of characters for the data that the
    /// statistics were gathered for.
    fn size(&self) -> (r: u64)
        requires
            self.total_size() <= u64::MAX,
        ensures
            r == self.total_size(),
    ;

    /// The number of times a value was added to the statistics.
    fn count(&self) -> (r: usize)
        requires
            self.total_count() <= usize::MAX,
        ensures
            r == self.total_count(),
    ;

    /// Merges other statistics into these ones.
    fn merge(&mut self, data: &Self)
        requires
            old(self).total_count() + data.total_count() <= usize::MAX,
        ensures
            final(self).total_count() == old(self).total_count() + data.total_count(),
            final(self).total_size() == old(self).total_size() + data.total_size(),
    ;
}

/// Statistics whose size and count can be read without knowing their type.
pub trait DynStatistics {
    spec fn dyn_size(&self) -> int;

    spec fn dyn_count(&self) -> int;

    /// The total size in number of characters for the data that the
    /// statistics were gathered for.
    fn boxed_size(&self) -> (r: u64)
        requires
            self.dyn_size() <= u64::MAX,
        ensures
            r == self.dyn_size(),
    ;

    /// The number of times a value was added to the statistics.
    fn boxed_count(&self) -> (r: usize)
        requires
            self.dyn_count() <= usize::MAX,
        ensures
            r == self.dyn_count(),
    ;
}

/// Statistics about `null` values.
#[derive(Debug, Default, Clone, Copy, PartialEq, Eq, Structural)]
pub struct JSONNullStatistics {
    pub count: usize,
}

impl JSONNullStatistics {
    pub fn add_null(&mut self)
        requires
            old(self).count < usize::MAX,
        ensures
            final(self).count == old(self).count + 1,
    {
        self.count = self.count + 1;
    }
}

impl Statistics for JSONNullStatistics {
    open spec fn total_size(&self) -> int {
        4 * self.count
    }

    open spec fn total_count(&self) -> int {
        self.count as int
    }

    fn size(&self) -> (r: u64) {
        (self.count as u64) * 4
    }

    fn count(&self) -> (r: usize) {
        self.count
    }

    fn merge(&mut self, data: &Self) {
        self.count = self.count + data.count;
    }
}

/// Statistics about `true` and `false` values.
#[derive(Debug, Default, Clone, Copy, PartialEq, Eq, Structural)]
pub struct JSONBooleanStatistics {
    pub false_count: usize,
    pub true_count: usize,
}

impl JSONBooleanStatistics {
    pub fn add_bool(&mut self, value: bool)
        requires
            old(self).false_count + old(self).true_count < usize::MAX,
        ensures
            value ==> final(self).true_count == old(self).true_count + 1,
            value ==> final(self).false_count == old(self).false_count,
            !value ==> final(self).false_count == old(self).false_count + 1,
            !value ==> final(self).true_count == old(self).true_count,
    {
        if value {
            self.true_count = self.true_count + 1;
        } else {
            self.false_count = self.false_count + 1;
        }
    }
}

impl Statistics for JSONBooleanStatistics {
    open spec fn total_size(&self) -> int {
        5 * self.false_count + 4 * self.true_count
    }

    open spec fn total_count(&self) -> int {
        self.false_count + self.true_count
    }

    fn size(&self) -> (r: u64) {
        (self.false_count as u64) * 5 + (self.true_count as u64) * 4
    }

    fn count(&self) -> (r: usize) {
        self.false_count + self.true_count
    }

    fn merge(&mut self, data: &Self) {
        self.false_count = self.false_count + data.false_count;
        self.true_count = self.true_count + data.true_count;
    }
}

/// Statistics about numbers.
#[derive(Debug, Default, Clone)]
pub struct JSONNumberStatistics {
    /// The sizes in characters of the encountered values.
    pub sizes: Vec<usize>,
}

impl JSONNumberStatistics {
    /// Records a number by the length of its text.
    pub fn add_number(&mut self, text: &str)
        ensures
            final(self).sizes@ == old(self).sizes@.push(text.spec_bytes().len() as usize),
    {
        self.sizes.push(text.len());
    }
}

impl Statistics for JSONNumberStatistics {
    open spec fn total_size(&self) -> int {
        sum_of(self.sizes@)
    }

    open spec fn total_count(&self) -> int {
        self.sizes@.len() as int
    }

    fn size(&self) -> (r: u64) {
        sum_sizes(&self.sizes)
    }

    fn count(&self) -> (r: usize) {
        self.sizes.len()
    }

    fn merge(&mut self, data: &Self) {
        extend_sizes(&mut self.sizes, &data.sizes);
        proof {
            lemma_sum_of_append(old(self).sizes@, data.sizes@);
        }
    }
}

/// Statistics about strings.
#[derive(Debug, Default, Clone)]
pub struct JSONStringStatistics {
    /// The sizes in characters of the encountered values, without quotes.
    pub sizes: Vec<usize>,
}

impl JSONStringStatistics {
    /// Records a string by the length of its UTF-8 encoding.
    pub fn add_string(&mut self, value: &str)
        ensures
            final(self).sizes@ == old(self).sizes@.push(value.spec_bytes().len() as usize),
    {
        self.sizes.push(value.len());
    }
}

impl Statistics for JSONStringStatistics {
    /// Each string also takes its two quotes.
    open spec fn total_size(&self) -> int {
        sum_of(self.sizes@) + 2 * self.sizes@.len()
    }

    open spec fn total_count(&self) -> int {
        self.sizes@.len() as int
    }

    fn size(&self) -> (r: u64) {
        proof {
            assert(sum_of(self.sizes@) >= 0) by {
                lemma_sum_of_prefix(self.sizes@, 0);
            }
        }
        sum_sizes(&self.sizes) + 2 * (self.sizes.len() as u64)
    }

    fn count(&self) -> (r: usize) {
        self.sizes.len()
    }

    fn merge(&mut self, data: &Self) {
        extend_sizes(&mut self.sizes, &data.sizes);
        proof {
            lemma_sum_of_append(old(self).sizes@, data.sizes@);
        }
    }
}

impl DynStatistics for JSONNullStatistics {
    open spec fn dyn_size(&self) -> int {
        self.total_size()
    }

    open spec fn dyn_count(&self) -> int {
        self.total_count()
    }

    fn boxed_size(&self) -> (r: u64) {
        Statistics::size(self)
    }

    fn boxed_count(&self) -> (r: usize) {
        Statistics::count(self)
    }
}

impl DynStatistics for JSONBooleanStatistics {
    open spec fn dyn_size(&self) -> int {
        self.total_size()
    }

    open spec fn dyn_count(&self) -> int {
        self.total_count()
    }

    fn boxed_size(&self) -> (r: u64) {
        Statistics::size(self)
    }

    fn boxed_count(&self) -> (r: usize) {
        Statistics::count(self)
    }
}

impl DynStatistics for JSONNumberStatistics {
    open spec fn dyn_size(&self) -> int {
        self.total_size()
    }

    open spec fn dyn_count(&self) -> int {
        self.total_count()
    }

    fn boxed_size(&self) -> (r: u64) {
        Statistics::size(self)
    }

    fn boxed_count(&self) -> (r: usize) {
        Statistics::count(self)
    }
}

impl DynStatistics for JSONStringStatistics {
    open spec fn dyn_size(&self) -> int {
        self.total_size()
    }

    open spec fn dyn_count(&self) -> int {
        self.total_count()
    }

    fn boxed_size(&self) -> (r: u64) {
        Statistics::size(self)
    }

    fn boxed_count(&self) -> (r: usize) {
        Statistics::count(self)
    }
}

broadcast use {
    vstd::seq::axiom_seq_index_decreases,
    vstd::std_specs::vec::axiom_vec_decreases_to_view,
    vstd::std_specs::vec::axiom_vec_index_decreases,
};

/// The sum of the numbers in `s`.
pub open spec fn sum_u64(s: Seq<u64>) -> int
    decreases s.len(),
{
    if s.len() == 0 {
        0
    } else {
        sum_u64(s.drop_last()) + (s.last() as int)
    }
}

pub proof fn lemma_sum_u64_prefix(s: Seq<u64>, k: int)
    requires
        0 <= k <= s.len(),
    ensures
        0 <= sum_u64(s.subrange(0, k)) <= sum_u64(s),
    decreases s.len(),
{
    if s.len() > 0 {
        if k == s.len() {
            assert(s.subrange(0, k) =~= s);
            lemma_sum_u64_prefix(s.drop_last(), k - 1);
        } else {
            assert(s.drop_last().subrange(0, k) =~= s.subrange(0, k));
            lemma_sum_u64_prefix(s.drop_last(), k);
        }
    }
}

pub proof fn lemma_sum_u64_append(a: Seq<u64>, b: Seq<u64>)
    ensures
        sum_u64(a + b) == sum_u64(a) + sum_u64(b),
    decreases b.len(),
{
    if b.len() > 0 {
        assert((a + b).drop_last() =~= a + b.drop_last());
        lemma_sum_u64_append(a, b.drop_last());
    } else {
        assert(a + b =~= a);
    }
}

/// The separators of an array of `n` items.
pub open spec fn array_punctuation(n: usize) -> int {
    separators(n as int)
}

/// The quotes, colons and separators of an object of `n` properties.
pub open spec fn object_punctuation(n: usize) -> int {
    3 * n + separators(n as int)
}

/// The separators of arrays of the lengths in `s`.
pub open spec fn array_punctuation_sum(s: Seq<usize>) -> int
    decreases s.len(),
{
    if s.len() == 0 {
        0
    } else {
        array_punctuation_sum(s.drop_last()) + array_punctuation(s.last())
    }
}

pub proof fn lemma_array_punctuation_sum_prefix(s: Seq<usize>, k: int)
    requires
        0 <= k <= s.len(),
    ensures
        0 <= array_punctuation_sum(s.subrange(0, k)) <= array_punctuation_sum(s),
    decreases s.len(),
{
    if s.len() > 0 {
        if k == s.len() {
            assert(s.subrange(0, k) =~= s);
            lemma_array_punctuation_sum_prefix(s.drop_last(), k - 1);
        } else {
            assert(s.drop_last().subrange(0, k) =~= s.subrange(0, k));
            lemma_array_punctuation_sum_prefix(s.drop_last(), k);
        }
    }
}

pub proof fn lemma_array_punctuation_sum_append(a: Seq<usize>, b: Seq<usize>)
    ensures
        array_punctuation_sum(a + b) == array_punctuation_sum(a) + array_punctuation_sum(b),
    decreases b.len(),
{
    if b.len() > 0 {
        assert((a + b).drop_last() =~= a + b.drop_last());
        lemma_array_punctuation_sum_append(a, b.drop_last());
    } else {
        assert(a + b =~= a);
    }
}

/// The punctuation of objects with the numbers of properties in `s`.
pub open spec fn object_punctuation_sum(s: Seq<usize>) -> int
    decreases s.len(),
{
    if s.len() == 0 {
        0
    } else {
        object_punctuation_sum(s.drop_last()) + object_punctuation(s.last())
    }
}

pub proof fn lemma_object_punctuation_sum_prefix(s: Seq<usize>, k: int)
    requires
        0 <= k <= s.len(),
    ensures
        0 <= object_punctuation_sum(s.subrange(0, k)) <= object_punctuation_sum(s),
    decreases s.len(),
{
    if s.len() > 0 {
        if k == s.len() {
            assert(s.subrange(0, k) =~= s);
            lemma_object_punctuation_sum_prefix(s.drop_last(), k - 1);
        } else {
            assert(s.drop_last().subrange(0, k) =~= s.subrange(0, k));
            lemma_object_punctuation_sum_prefix(s.drop_last(), k);
        }
    }
}

pub proof fn lemma_object_punctuation_sum_append(a: Seq<usize>, b: Seq<usize>)
    ensures
        object_punctuation_sum(a + b) == object_punctuation_sum(a) + object_punctuation_sum(b),
    decreases b.len(),
{
    if b.len() > 0 {
        assert((a + b).drop_last() =~= a + b.drop_last());
        lemma_object_punctuation_sum_append(a, b.drop_last());
    } else {
        assert(a + b =~= a);
    }
}

/// Adds up `f` over `s` in a `u64`.
fn sum_u64s(s: &Vec<u64>) -> (r: u64)
    requires
        sum_u64(s@) <= u64::MAX,
    ensures
        r == sum_u64(s@),
{
        let mut total: u64 = 0;
    let mut k: usize = 0;
    while k < s.len()
        invariant
            k <= s@.len(),
            sum_u64(s@) <= u64::MAX,
            total == sum_u64(s@.subrange(0, k as int)),
        decreases s@.len() - k,
    {
        proof {
            assert(s@.subrange(0, k + 1).drop_last() =~= s@.subrange(0, k as int));
            lemma_sum_u64_prefix(s@, k + 1);
        }
        total = total + s[k];
        k = k + 1;
    }
    assert(s@.subrange(0, s@.len() as int) =~= s@);
    total
}

/// Adds up the separators of arrays of the given lengths in a `u64`.
fn array_punctuation_total(lengths: &Vec<usize>) -> (r: u64)
    requires
        array_punctuation_sum(lengths@) <= u64::MAX,
    ensures
        r == array_punctuation_sum(lengths@),
{
        let mut total: u64 = 0;
    let mut k: usize = 0;
    while k < lengths.len()
        invariant
            k <= lengths@.len(),
            array_punctuation_sum(lengths@) <= u64::MAX,
            total == array_punctuation_sum(lengths@.subrange(0, k as int)),
        decreases lengths@.len() - k,
    {
        proof {
            assert(lengths@.subrange(0, k + 1).drop_last() =~= lengths@.subrange(0, k as int));
            lemma_array_punctuation_sum_prefix(lengths@, k + 1);
        }
        let n = lengths[k] as u64;
        let items = if n > 0 {
            n - 1
        } else {
            0
        };
        total = total + items + 2;
        k = k + 1;
    }
    assert(lengths@.subrange(0, lengths@.len() as int) =~= lengths@);
    total
}

/// Adds up the punctuation of objects of the given sizes in a `u64`.
fn object_punctuation_total(counts: &Vec<usize>) -> (r: u64)
    requires
        object_punctuation_sum(counts@) <= u64::MAX,
    ensures
        r == object_punctuation_sum(counts@),
{
        let mut total: u64 = 0;
    let mut k: usize = 0;
    while k < counts.len()
        invariant
            k <= counts@.len(),
            object_punctuation_sum(counts@) <= u64::MAX,
            total == object_punctuation_sum(counts@.subrange(0, k as int)),
        decreases counts@.len() - k,
    {
        proof {
            assert(counts@.subrange(0, k + 1).drop_last() =~= counts@.subrange(0, k as int));
            lemma_object_punctuation_sum_prefix(counts@, k + 1);
        }
        let n = counts[k] as u64;
        let commas = if n > 0 {
            n - 1
        } else {
            0
        };
        total = total + 3 * n + commas + 2;
        k = k + 1;
    }
    assert(counts@.subrange(0, counts@.len() as int) =~= counts@);
    total
}

/// Appends `from` to `to`.
fn extend_u64s(to: &mut Vec<u64>, from: &Vec<u64>)
    ensures
        final(to)@ == old(to)@ + from@,
{
    let mut k: usize = 0;
    while k < from.len()
        invariant
            k <= from@.len(),
            to@ == old(to)@ + from@.subrange(0, k as int),
        decreases from@.len() - k,
    {
        to.push(from[k]);
        proof {
            assert(from@.subrange(0, k + 1) =~= from@.subrange(0, k as int).push(from@[k as int]));
        }
        k = k + 1;
    }
    assert(from@.subrange(0, from@.len() as int) =~= from@);
}

/// `a + b`, or `usize::MAX` where that does not fit.
pub open spec fn saturating(a: usize, b: usize) -> usize {
    if a + b > usize::MAX {
        usize::MAX
    } else {
        (a + b) as usize
    }
}

fn saturating_sum(a: usize, b: usize) -> (r: usize)
    ensures
        r == saturating(a, b),
{
    if a > usize::MAX - b {
        usize::MAX
    } else {
        a + b
    }
}

/// Statistics about every kind of JSON value.
#[derive(Debug)]
pub struct JSONValueStatistics {
    pub nulls: JSONNullStatistics,
    pub booleans: JSONBooleanStatistics,
    pub numbers: JSONNumberStatistics,
    pub strings: JSONStringStatistics,
    pub arrays: JSONArrayStatistics,
    pub objects: JSONObjectStatistics,
}

/// Statistics about arrays.
#[derive(Debug)]
pub struct JSONArrayStatistics {
    /// The lengths of the arrays.
    pub lengths: Vec<usize>,
    /// The sizes in characters of the items of each array, without the
    /// separators and brackets.
    pub sizes: Vec<u64>,
    /// Statistics about the items of all arrays.
    pub values: Option<Box<JSONValueStatistics>>,
}

/// Statistics about objects.
#[derive(Debug)]
pub struct JSONObjectStatistics {
    /// The number of properties of each object.
    pub properties_count: Vec<usize>,
    /// The sizes in characters of each object's keys and values, without
    /// quotes, colons, separators and brackets.
    pub sizes: Vec<u64>,
    /// Statistics about the properties of all objects, by name, each name
    /// once, in the order they were first met.
    pub properties: Vec<(String, JSONObjectPropertyStatistics)>,
}

/// Statistics about the properties of one name.
#[derive(Debug)]
pub struct JSONObjectPropertyStatistics {
    /// The sizes in characters of the values.
    pub sizes: Vec<u64>,
    /// Statistics about the values.
    pub value_info: JSONValueStatistics,
}

/// Each name occurs once in `props`.
pub open spec fn keys_unique(props: Seq<(String, JSONObjectPropertyStatistics)>) -> bool {
    forall|i: int, j: int|
        0 <= i < j < props.len() ==> #[trigger] props[i].0@ != #[trigger] props[j].0@
}

/// Some entry of `props` has the name `name`.
pub open spec fn has_key(props: Seq<(String, JSONObjectPropertyStatistics)>, name: Seq<char>) -> bool {
    exists|i: int| 0 <= i < props.len() && #[trigger] props[i].0@ == name
}

impl JSONValueStatistics {
    /// Statistics of nothing.
    pub fn new() -> (r: Self)
        ensures
            r.total_count() == 0,
            r.total_size() == 0,
    {
        JSONValueStatistics {
            nulls: JSONNullStatistics { count: 0 },
            booleans: JSONBooleanStatistics { false_count: 0, true_count: 0 },
            numbers: JSONNumberStatistics { sizes: Vec::new() },
            strings: JSONStringStatistics { sizes: Vec::new() },
            arrays: JSONArrayStatistics::new(),
            objects: JSONObjectStatistics::new(),
        }
    }

    /// The size of each kind of value is at least zero.
    pub proof fn lemma_parts_nonneg(&self)
        ensures
            self.numbers.total_size() >= 0,
            self.strings.total_size() >= 0,
            self.arrays.total_size() >= 0,
            self.objects.total_size() >= 0,
    {
        lemma_sum_of_prefix(self.numbers.sizes@, 0);
        lemma_sum_of_prefix(self.strings.sizes@, 0);
        lemma_sum_u64_prefix(self.arrays.sizes@, 0);
        lemma_array_punctuation_sum_prefix(self.arrays.lengths@, 0);
        lemma_sum_u64_prefix(self.objects.sizes@, 0);
        lemma_object_punctuation_sum_prefix(self.objects.properties_count@, 0);
    }

    /// Merges `data` into these statistics; counts that would overflow stay
    /// at `usize::MAX`.
    pub fn merge_from(&mut self, data: &JSONValueStatistics)
        ensures
            final(self).nulls.count == saturating(old(self).nulls.count, data.nulls.count),
            final(self).booleans.false_count == saturating(
                old(self).booleans.false_count,
                data.booleans.false_count,
            ),
            final(self).booleans.true_count == saturating(
                old(self).booleans.true_count,
                data.booleans.true_count,
            ),
            final(self).numbers.sizes@ == old(self).numbers.sizes@ + data.numbers.sizes@,
            final(self).strings.sizes@ == old(self).strings.sizes@ + data.strings.sizes@,
            final(self).arrays.sizes@ == old(self).arrays.sizes@ + data.arrays.sizes@,
            final(self).arrays.lengths@ == old(self).arrays.lengths@ + data.arrays.lengths@,
            final(self).objects.sizes@ == old(self).objects.sizes@ + data.objects.sizes@,
            final(self).objects.properties_count@ == old(self).objects.properties_count@
                + data.objects.properties_count@,
            keys_unique(old(self).objects.properties@) ==> keys_unique(
                final(self).objects.properties@,
            ),
        decreases data, 0int,
    {
        self.nulls.count = saturating_sum(self.nulls.count, data.nulls.count);
        self.booleans.false_count = saturating_sum(
            self.booleans.false_count,
            data.booleans.false_count,
        );
        self.booleans.true_count = saturating_sum(self.booleans.true_count, data.booleans.true_count);
        extend_sizes(&mut self.numbers.sizes, &data.numbers.sizes);
        extend_sizes(&mut self.strings.sizes, &data.strings.sizes);
        self.arrays.merge_from(&data.arrays);
        self.objects.merge_from(&data.objects);
    }

    /// Adds the value `value`, and inside it every nested value to the
    /// statistics of its array or object.
    pub fn add_value(&mut self, value: &JsonValue)
        requires
            old(self).total_count() < usize::MAX,
            old(self).total_size() + json_size(*value) <= u64::MAX,
            old(self).total_size() + json_size(*value) <= usize::MAX,
        ensures
            final(self).total_count() == old(self).total_count() + 1,
            final(self).total_size() == old(self).total_size() + json_size(*value),
            keys_unique(old(self).objects.properties@) ==> keys_unique(
                final(self).objects.properties@,
            ),
        decreases value, 2int,
    {
        proof {
            self.lemma_parts_nonneg();
        }
        match value {
            JsonValue::Null => self.nulls.add_null(),
            JsonValue::Bool(v) => self.booleans.add_bool(*v),
            JsonValue::Number(v) => {
                self.numbers.add_number(v.as_str());
                assert(self.numbers.sizes@.drop_last() =~= old(self).numbers.sizes@);
            },
            JsonValue::String(v) => {
                self.strings.add_string(v.as_str());
                assert(self.strings.sizes@.drop_last() =~= old(self).strings.sizes@);
            },
            JsonValue::Array(v) => self.arrays.add_array(v),
            JsonValue::Object(v) => self.objects.add_object(v),
        }
    }
}

impl JSONArrayStatistics {
    pub fn new() -> (r: Self)
        ensures
            r.lengths@.len() == 0,
            r.sizes@.len() == 0,
            r.values is None,
    {
        JSONArrayStatistics { lengths: Vec::new(), sizes: Vec::new(), values: None }
    }

    /// Makes sure that there are statistics about the items, and returns them.
    pub fn get_values(&mut self) -> (r: &mut JSONValueStatistics)
        ensures
            final(self).values is Some,
            final(self).lengths@ == old(self).lengths@,
            final(self).sizes@ == old(self).sizes@,
    {
        if self.values.is_none() {
            self.values = Some(Box::new(JSONValueStatistics::new()));
        }
        match &mut self.values {
            Some(v) => &mut **v,
            None => unreached(),
        }
    }

    /// Merges `data` into these statistics.
    pub fn merge_from(&mut self, data: &JSONArrayStatistics)
        ensures
            final(self).lengths@ == old(self).lengths@ + data.lengths@,
            final(self).sizes@ == old(self).sizes@ + data.sizes@,
        decreases data, 0int,
    {
        extend_sizes(&mut self.lengths, &data.lengths);
        extend_u64s(&mut self.sizes, &data.sizes);
        if let Some(values) = &data.values {
            let mut inner = match self.values.take() {
                Some(b) => *b,
                None => JSONValueStatistics::new(),
            };
            inner.merge_from(values);
            self.values = Some(Box::new(inner));
        }
    }

    /// Adds an array: its length, the size of its items, and the items to
    /// the statistics of all items.
    pub fn add_array(&mut self, array: &Vec<JsonValue>)
        requires
            old(self).total_count() < usize::MAX,
            old(self).total_size() + items_size(array@) + separators(array@.len() as int) <= u64::MAX,
            old(self).total_size() + items_size(array@) + separators(array@.len() as int)
                <= usize::MAX,
        ensures
            final(self).total_count() == old(self).total_count() + 1,
            final(self).total_size() == old(self).total_size() + items_size(array@) + separators(
                array@.len() as int,
            ),
        decreases array, 1int,
    {
        proof {
            lemma_sum_u64_prefix(old(self).sizes@, 0);
            lemma_array_punctuation_sum_prefix(old(self).lengths@, 0);
        }
        let mut stats = JSONValueStatistics::new();
        let mut k: usize = 0;
        while k < array.len()
            invariant
                k <= array@.len(),
                stats.total_count() == k,
                stats.total_size() == items_size(array@.subrange(0, k as int)),
                items_size(array@) <= u64::MAX,
                items_size(array@) <= usize::MAX,
            decreases array@.len() - k,
        {
            proof {
                assert(array@.subrange(0, k + 1).drop_last() =~= array@.subrange(0, k as int));
                lemma_items_size_prefix(array@, k + 1);
            }
            stats.add_value(&array[k]);
            k = k + 1;
        }
        assert(array@.subrange(0, array@.len() as int) =~= array@);
        let size = Statistics::size(&stats);
        self.sizes.push(size);
        self.lengths.push(array.len());
        proof {
            lemma_sum_u64_append(old(self).sizes@, seq![size]);
            lemma_array_punctuation_sum_append(old(self).lengths@, seq![array.len()]);
            assert(seq![size].drop_last() =~= Seq::<u64>::empty());
            assert(seq![array.len()].drop_last() =~= Seq::<usize>::empty());
            reveal_with_fuel(sum_u64, 2);
            reveal_with_fuel(array_punctuation_sum, 2);
            assert(old(self).sizes@.push(size) =~= old(self).sizes@ + seq![size]);
            assert(old(self).lengths@.push(array.len()) =~= old(self).lengths@ + seq![array.len()]);
        }
        let values = self.get_values();
        values.merge_from(&stats);
    }
}

impl JSONObjectStatistics {
    pub fn new() -> (r: Self)
        ensures
            r.properties_count@.len() == 0,
            r.sizes@.len() == 0,
            r.properties@.len() == 0,
    {
        JSONObjectStatistics { properties_count: Vec::new(), sizes: Vec::new(), properties: Vec::new() }
    }

    /// Merges `data` into these statistics.
    pub fn merge_from(&mut self, data: &JSONObjectStatistics)
        ensures
            final(self).sizes@ == old(self).sizes@ + data.sizes@,
            final(self).properties_count@ == old(self).properties_count@ + data.properties_count@,
            keys_unique(old(self).properties@) ==> keys_unique(final(self).properties@),
        decreases data, 0int,
    {
        extend_u64s(&mut self.sizes, &data.sizes);
        extend_sizes(&mut self.properties_count, &data.properties_count);
        let ghost sizes = self.sizes@;
        let ghost counts = self.properties_count@;
        let mut k: usize = 0;
        while k < data.properties.len()
            invariant
                k <= data.properties@.len(),
                self.sizes@ == sizes,
                self.properties_count@ == counts,
                keys_unique(old(self).properties@) ==> keys_unique(self.properties@),
            decreases data.properties@.len() - k,
        {
            proof {
                assert(decreases_to!(data.properties => data.properties[k as int]));
            }
            self.add_property(&data.properties[k].0, &data.properties[k].1);
            k = k + 1;
        }
    }

    /// Adds more data about the property `name`. This does not change `sizes`
    /// or `properties_count`.
    pub fn add_property(&mut self, name: &String, value: &JSONObjectPropertyStatistics)
        ensures
            final(self).sizes@ == old(self).sizes@,
            final(self).properties_count@ == old(self).properties_count@,
            keys_unique(old(self).properties@) ==> keys_unique(final(self).properties@),
            has_key(final(self).properties@, name@),
            forall|s: Seq<char>| has_key(old(self).properties@, s) ==> has_key(final(self).properties@, s),
        decreases value, 1int,
    {
        let mut k: usize = 0;
        while k < self.properties.len()
            invariant
                k <= self.properties@.len(),
                self.sizes@ == old(self).sizes@,
                self.properties_count@ == old(self).properties_count@,
                self.properties@ == old(self).properties@,
                forall|j: int| 0 <= j < k ==> self.properties@[j].0@ != name@,
            decreases self.properties@.len() - k,
        {
            if self.properties[k].0 == *name {
                let ghost before = self.properties@;
                let (key, mut info) = self.properties.remove(k);
                info.merge_from(value);
                self.properties.insert(k, (key, info));
                proof {
                    assert(self.properties@ =~= before.update(k as int, (key, info)));
                    assert(has_key(self.properties@, name@)) by {
                        assert(self.properties@[k as int].0@ == name@);
                    }
                    assert forall|s: Seq<char>| has_key(before, s) implies has_key(self.properties@, s) by {
                        let i = choose|i: int| 0 <= i < before.len() && #[trigger] before[i].0@ == s;
                        assert(self.properties@[i].0@ == s);
                    }
                }
                return;
            }
            k = k + 1;
        }
        let mut info = JSONObjectPropertyStatistics::new();
        info.merge_from(value);
        let ghost before = self.properties@;
        let key = name.clone();
        self.properties.push((key, info));
        proof {
            assert(self.properties@[before.len() as int].0@ == name@);
            assert forall|s: Seq<char>| has_key(before, s) implies has_key(self.properties@, s) by {
                let i = choose|i: int| 0 <= i < before.len() && #[trigger] before[i].0@ == s;
                assert(self.properties@[i].0@ == s);
            }
        }
    }

    /// Adds an object: its number of properties, its size, and each property
    /// to the statistics of its name.
    pub fn add_object(&mut self, object: &Vec<(String, JsonValue)>)
        requires
            old(self).total_count() < usize::MAX,
            old(self).total_size() + props_size(object@) + 3 * object@.len() + separators(
                object@.len() as int,
            ) <= u64::MAX,
            old(self).total_size() + props_size(object@) + 3 * object@.len() + separators(
                object@.len() as int,
            ) <= usize::MAX,
        ensures
            final(self).total_count() == old(self).total_count() + 1,
            final(self).total_size() == old(self).total_size() + props_size(object@) + 3
                * object@.len() + separators(object@.len() as int),
            keys_unique(old(self).properties@) ==> keys_unique(final(self).properties@),
        decreases object, 1int,
    {
        let mut size: u64 = 0;
        let mut k: usize = 0;
        proof {
            lemma_props_size_prefix(object@, 0);
            lemma_sum_u64_prefix(old(self).sizes@, 0);
            lemma_object_punctuation_sum_prefix(old(self).properties_count@, 0);
            assert(object@.subrange(0, 0) =~= Seq::<(String, JsonValue)>::empty());
        }
        while k < object.len()
            invariant
                k <= object@.len(),
                size == props_size(object@.subrange(0, k as int)),
                props_size(object@) <= u64::MAX,
                props_size(object@) <= usize::MAX,
                self.sizes@ == old(self).sizes@,
                self.properties_count@ == old(self).properties_count@,
                keys_unique(old(self).properties@) ==> keys_unique(self.properties@),
            decreases object@.len() - k,
        {
            proof {
                assert(object@.subrange(0, k + 1).drop_last() =~= object@.subrange(0, k as int));
                lemma_props_size_prefix(object@, k + 1);
                lemma_json_size_nonneg(object@[k as int].1);
                assert(decreases_to!(object => object[k as int]));
            }
            let key = &object[k].0;
            let mut data = JSONObjectPropertyStatistics::new();
            data.add_value(&object[k].1);
            proof {
                assert(data.sizes@.drop_last() =~= Seq::<u64>::empty());
                reveal_with_fuel(sum_u64, 2);
            }
            let data_size = Statistics::size(&data);
            size = size + key.as_str().len() as u64 + data_size;
            self.add_property(key, &data);
            k = k + 1;
        }
        assert(object@.subrange(0, object@.len() as int) =~= object@);
        self.properties_count.push(object.len());
        self.sizes.push(size);
        proof {
            lemma_sum_u64_append(old(self).sizes@, seq![size]);
            lemma_object_punctuation_sum_append(old(self).properties_count@, seq![object.len()]);
            assert(seq![size].drop_last() =~= Seq::<u64>::empty());
            assert(seq![object.len()].drop_last() =~= Seq::<usize>::empty());
            reveal_with_fuel(sum_u64, 2);
            reveal_with_fuel(object_punctuation_sum, 2);
            assert(old(self).sizes@.push(size) =~= old(self).sizes@ + seq![size]);
            assert(old(self).properties_count@.push(object.len()) =~= old(self).properties_count@
                + seq![object.len()]);
        }
    }
}

impl JSONObjectPropertyStatistics {
    pub fn new() -> (r: Self)
        ensures
            r.sizes@.len() == 0,
    {
        JSONObjectPropertyStatistics { sizes: Vec::new(), value_info: JSONValueStatistics::new() }
    }

    /// Merges `data` into these statistics.
    pub fn merge_from(&mut self, data: &JSONObjectPropertyStatistics)
        ensures
            final(self).sizes@ == old(self).sizes@ + data.sizes@,
        decreases data, 0int,
    {
        extend_u64s(&mut self.sizes, &data.sizes);
        self.value_info.merge_from(&data.value_info);
    }

    /// Adds a value of a property of this name.
    pub fn add_value(&mut self, value: &JsonValue)
        requires
            json_size(*value) <= u64::MAX,
            json_size(*value) <= usize::MAX,
        ensures
            final(self).sizes@ == old(self).sizes@.push(json_size(*value) as u64),
        decreases value, 3int,
    {
        let mut stats = JSONValueStatistics::new();
        proof {
            lemma_json_size_nonneg(*value);
        }
        stats.add_value(value);
        let size = Statistics::size(&stats);
        self.sizes.push(size);
        self.value_info.merge_from(&stats);
    }
}

impl Statistics for JSONValueStatistics {
    /// The size of the values of all kinds.
    open spec fn total_size(&self) -> int {
        self.nulls.total_size() + self.booleans.total_size() + self.numbers.total_size()
            + self.strings.total_size() + self.arrays.total_size() + self.objects.total_size()
    }

    /// The number of values of all kinds.
    open spec fn total_count(&self) -> int {
        self.nulls.total_count() + self.booleans.total_count() + self.numbers.total_count()
            + self.strings.total_count() + self.arrays.total_count() + self.objects.total_count()
    }

    fn size(&self) -> (r: u64) {
        proof {
            lemma_sum_of_prefix(self.numbers.sizes@, 0);
            lemma_sum_of_prefix(self.strings.sizes@, 0);
            lemma_sum_u64_prefix(self.arrays.sizes@, 0);
            lemma_array_punctuation_sum_prefix(self.arrays.lengths@, 0);
            lemma_sum_u64_prefix(self.objects.sizes@, 0);
            lemma_object_punctuation_sum_prefix(self.objects.properties_count@, 0);
        }
        Statistics::size(&self.nulls) + Statistics::size(&self.booleans) + Statistics::size(
            &self.numbers,
        ) + Statistics::size(&self.strings) + Statistics::size(&self.arrays) + Statistics::size(
            &self.objects,
        )
    }

    fn count(&self) -> (r: usize) {
        Statistics::count(&self.nulls) + Statistics::count(&self.booleans) + Statistics::count(
            &self.numbers,
        ) + Statistics::count(&self.strings) + Statistics::count(&self.arrays) + Statistics::count(
            &self.objects,
        )
    }

    fn merge(&mut self, data: &Self) {
        self.merge_from(data);
        proof {
            lemma_sum_of_append(old(self).numbers.sizes@, data.numbers.sizes@);
            lemma_sum_of_append(old(self).strings.sizes@, data.strings.sizes@);
            lemma_sum_u64_append(old(self).arrays.sizes@, data.arrays.sizes@);
            lemma_array_punctuation_sum_append(old(self).arrays.lengths@, data.arrays.lengths@);
            lemma_sum_u64_append(old(self).objects.sizes@, data.objects.sizes@);
            lemma_object_punctuation_sum_append(old(self).objects.properties_count@, data.objects.properties_count@);
        }
    }
}

impl Statistics for JSONArrayStatistics {
    /// The size of the arrays: items and punctuation.
    open spec fn total_size(&self) -> int {
        sum_u64(self.sizes@) + array_punctuation_sum(self.lengths@)
    }

    /// The number of arrays.
    open spec fn total_count(&self) -> int {
        self.sizes@.len() as int
    }

    fn size(&self) -> (r: u64) {
        proof {
            lemma_sum_u64_prefix(self.sizes@, 0);
            lemma_array_punctuation_sum_prefix(self.lengths@, 0);
        }
        sum_u64s(&self.sizes) + array_punctuation_total(&self.lengths)
    }

    fn count(&self) -> (r: usize) {
        self.sizes.len()
    }

    fn merge(&mut self, data: &Self) {
        self.merge_from(data);
        proof {
            lemma_sum_u64_append(old(self).sizes@, data.sizes@);
            lemma_array_punctuation_sum_append(old(self).lengths@, data.lengths@);
        }
    }
}

impl Statistics for JSONObjectStatistics {
    /// The size of the objects: keys, values and punctuation.
    open spec fn total_size(&self) -> int {
        sum_u64(self.sizes@) + object_punctuation_sum(self.properties_count@)
    }

    /// The number of objects.
    open spec fn total_count(&self) -> int {
        self.sizes@.len() as int
    }

    fn size(&self) -> (r: u64) {
        proof {
            lemma_sum_u64_prefix(self.sizes@, 0);
            lemma_object_punctuation_sum_prefix(self.properties_count@, 0);
        }
        sum_u64s(&self.sizes) + object_punctuation_total(&self.properties_count)
    }

    fn count(&self) -> (r: usize) {
        self.sizes.len()
    }

    fn merge(&mut self, data: &Self) {
        self.merge_from(data);
        proof {
            lemma_sum_u64_append(old(self).sizes@, data.sizes@);
            lemma_object_punctuation_sum_append(old(self).properties_count@, data.properties_count@);
        }
    }
}

impl Statistics for JSONObjectPropertyStatistics {
    /// The size of the values.
    open spec fn total_size(&self) -> int {
        sum_u64(self.sizes@)
    }

    /// The number of values.
    open spec fn total_count(&self) -> int {
        self.sizes@.len() as int
    }

    fn size(&self) -> (r: u64) {
        sum_u64s(&self.sizes)
    }

    fn count(&self) -> (r: usize) {
        self.sizes.len()
    }

    fn merge(&mut self, data: &Self) {
        self.merge_from(data);
        proof {
            lemma_sum_u64_append(old(self).sizes@, data.sizes@);
        }
    }
}

impl Default for JSONValueStatistics {
    fn default() -> (r: Self)
        ensures
            r.total_count() == 0,
            r.total_size() == 0,
    {
        JSONValueStatistics::new()
    }
}

impl Default for JSONArrayStatistics {
    fn default() -> (r: Self)
        ensures
            r.lengths@.len() == 0,
            r.sizes@.len() == 0,
            r.values is None,
    {
        JSONArrayStatistics::new()
    }
}

impl Default for JSONObjectStatistics {
    fn default() -> (r: Self)
        ensures
            r.properties_count@.len() == 0,
            r.sizes@.len() == 0,
            r.properties@.len() == 0,
    {
        JSONObjectStatistics::new()
    }
}

impl Default for JSONObjectPropertyStatistics {
    fn default() -> (r: Self)
        ensures
            r.sizes@.len() == 0,
    {
        JSONObjectPropertyStatistics::new()
    }
}

impl DynStatistics for JSONValueStatistics {
    open spec fn dyn_size(&self) -> int {
        self.total_size()
    }

    open spec fn dyn_count(&self) -> int {
        self.total_count()
    }

    fn boxed_size(&self) -> (r: u64) {
        Statistics::size(self)
    }

    fn boxed_count(&self) -> (r: usize) {
        Statistics::count(self)
    }
}

impl DynStatistics for JSONArrayStatistics {
    open spec fn dyn_size(&self) -> int {
        self.total_size()
    }

    open spec fn dyn_count(&self) -> int {
        self.total_count()
    }

    fn boxed_size(&self) -> (r: u64) {
        Statistics::size(self)
    }

    fn boxed_count(&self) -> (r: usize) {
        Statistics::count(self)
    }
}

impl DynStatistics for JSONObjectStatistics {
    open spec fn dyn_size(&self) -> int {
        self.total_size()
    }

    open spec fn dyn_count(&self) -> int {
        self.total_count()
    }

    fn boxed_size(&self) -> (r: u64) {
        Statistics::size(self)
    }

    fn boxed_count(&self) -> (r: usize) {
        Statistics::count(self)
    }
}

impl DynStatistics for JSONObjectPropertyStatistics {
    open spec fn dyn_size(&self) -> int {
        self.total_size()
    }

    open spec fn dyn_count(&self) -> int {
        self.total_count()
    }

    fn boxed_size(&self) -> (r: u64) {
        Statistics::size(self)
    }

    fn boxed_count(&self) -> (r: usize) {
        Statistics::count(self)
    }
}

/// Gathers statistics about a JSON document: one value whose size is the
/// length of the document's compact text.
pub fn collect_statistics(json_value: &JsonValue) -> (r: JSONValueStatistics)
    requires
        json_size(*json_value) <= u64::MAX,
        json_size(*json_value) <= usize::MAX,
    ensures
        r.total_count() == 1,
        r.total_size() == json_size(*json_value),
{
    let mut stats = JSONValueStatistics::new();
    stats.add_value(json_value);
    stats
}

/// A reference to statistics of some kind.
#[derive(Debug, Clone, Copy)]
pub enum JSONStatisticsRef<'a> {
    JSONValue(&'a JSONValueStatistics),
    JSONNull(&'a JSONNullStatistics),
    JSONBoolean(&'a JSONBooleanStatistics),
    JSONNumber(&'a JSONNumberStatistics),
    JSONString(&'a JSONStringStatistics),
    JSONArray(&'a JSONArrayStatistics),
    JSONObject(&'a JSONObjectStatistics),
    JSONObjectProperty(&'a JSONObjectPropertyStatistics),
}

impl<'a> DynStatistics for JSONStatisticsRef<'a> {
    open spec fn dyn_size(&self) -> int {
        match *self {
            JSONStatisticsRef::JSONValue(v) => v.total_size(),
            JSONStatisticsRef::JSONNull(v) => v.total_size(),
            JSONStatisticsRef::JSONBoolean(v) => v.total_size(),
            JSONStatisticsRef::JSONNumber(v) => v.total_size(),
            JSONStatisticsRef::JSONString(v) => v.total_size(),
            JSONStatisticsRef::JSONArray(v) => v.total_size(),
            JSONStatisticsRef::JSONObject(v) => v.total_size(),
            JSONStatisticsRef::JSONObjectProperty(v) => v.total_size(),
        }
    }

    open spec fn dyn_count(&self) -> int {
        match *self {
            JSONStatisticsRef::JSONValue(v) => v.total_count(),
            JSONStatisticsRef::JSONNull(v) => v.total_count(),
            JSONStatisticsRef::JSONBoolean(v) => v.total_count(),
            JSONStatisticsRef::JSONNumber(v) => v.total_count(),
            JSONStatisticsRef::JSONString(v) => v.total_count(),
            JSONStatisticsRef::JSONArray(v) => v.total_count(),
            JSONStatisticsRef::JSONObject(v) => v.total_count(),
            JSONStatisticsRef::JSONObjectProperty(v) => v.total_count(),
        }
    }

    fn boxed_size(&self) -> (r: u64) {
        match *self {
            JSONStatisticsRef::JSONValue(v) => Statistics::size(v),
            JSONStatisticsRef::JSONNull(v) => Statistics::size(v),
            JSONStatisticsRef::JSONBoolean(v) => Statistics::size(v),
            JSONStatisticsRef::JSONNumber(v) => Statistics::size(v),
            JSONStatisticsRef::JSONString(v) => Statistics::size(v),
            JSONStatisticsRef::JSONArray(v) => Statistics::size(v),
            JSONStatisticsRef::JSONObject(v) => Statistics::size(v),
            JSONStatisticsRef::JSONObjectProperty(v) => Statistics::size(v),
        }
    }

    fn boxed_count(&self) -> (r: usize) {
        match *self {
            JSONStatisticsRef::JSONValue(v) => Statistics::count(v),
            JSONStatisticsRef::JSONNull(v) => Statistics::count(v),
            JSONStatisticsRef::JSONBoolean(v) => Statistics::count(v),
            JSONStatisticsRef::JSONNumber(v) => Statistics::count(v),
            JSONStatisticsRef::JSONString(v) => Statistics::count(v),
            JSONStatisticsRef::JSONArray(v) => Statistics::count(v),
            JSONStatisticsRef::JSONObject(v) => Statistics::count(v),
            JSONStatisticsRef::JSONObjectProperty(v) => Statistics::count(v),
        }
    }
}

} // verus!
