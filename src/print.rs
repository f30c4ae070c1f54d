//! The kinds of information that statistics give, and their values for a
//! table of statistics.
use vstd::prelude::*;
use vstd::string::StringExecFns;

use crate::statistics::{
    lemma_sum_of_prefix, sum_of, DynStatistics, JSONStatisticsRef, Statistics,
};

verus! {

/// A kind of information that statistics can give.
#[derive(Debug, Clone, Copy, PartialEq, Eq, Structural)]
pub enum ExtraFMTInfo {
    /// The name of the kind of value.
    Name,
    /// The number of times that a value of this kind was encountered.
    Count,
    /// The total size of the values.
    Size,
    /// The total size divided by the count.
    AverageSize,
    /// The average number of items in each array, or of properties in each
    /// object.
    AverageLength,
    /// The number of `true` values.
    TrueCount,
    /// The number of `false` values.
    FalseCount,
}

/// The mean of `s`, rounded down.
pub open spec fn average_of(s: Seq<usize>) -> int {
    sum_of(s) / s.len() as int
}

/// The mean of `s`, rounded down, where its sum fits in a `usize`.
fn average_len(s: &Vec<usize>) -> (r: u64)
    requires
        s@.len() > 0,
        sum_of(s@) <= usize::MAX,
    ensures
        r == average_of(s@),
{
    let mut total: usize = 0;
    let mut k: usize = 0;
    while k < s.len()
        invariant
            k <= s@.len(),
            sum_of(s@) <= usize::MAX,
            total == sum_of(s@.subrange(0, k as int)),
        decreases s@.len() - k,
    {
        proof {
            assert(s@.subrange(0, k + 1).drop_last() =~= s@.subrange(0, k as int));
            lemma_sum_of_prefix(s@, k + 1);
        }
        total = total + s[k];
        k = k + 1;
    }
    assert(s@.subrange(0, s@.len() as int) =~= s@);
    (total / s.len()) as u64
}

/// The values of some kinds of information, where known.
#[derive(Debug, Clone, PartialEq, Eq)]
pub struct StatisticsInfoValues {
    pub name: Option<String>,
    pub count: Option<u64>,
    pub size: Option<u64>,
    pub true_count: Option<u64>,
    pub average_length: Option<u64>,
    pub all_elements_have_same_size: bool,
}

impl StatisticsInfoValues {
    /// Values where nothing is known yet.
    pub fn new() -> (r: Self)
        ensures
            r.name is None,
            r.count is None,
            r.size is None,
            r.true_count is None,
            r.average_length is None,
            !r.all_elements_have_same_size,
    {
        StatisticsInfoValues {
            name: None,
            count: None,
            size: None,
            true_count: None,
            average_length: None,
            all_elements_have_same_size: false,
        }
    }

    pub fn set_name(&mut self, name: String) -> (r: &mut Self)
        ensures
            r.name == Some(name),
            r.count == old(self).count,
            r.size == old(self).size,
            r.true_count == old(self).true_count,
            r.average_length == old(self).average_length,
            r.all_elements_have_same_size == old(self).all_elements_have_same_size,
            *final(self) == *final(r),
    {
        self.name = Some(name);
        self
    }

    /// Takes the count and the size from `stats`.
    pub fn get_from_boxed_stats<S: DynStatistics>(&mut self, stats: &S) -> (r: &mut Self)
        requires
            stats.dyn_size() <= u64::MAX,
            stats.dyn_count() <= usize::MAX,
        ensures
            r.count == Some(stats.dyn_count() as u64),
            r.size == Some(stats.dyn_size() as u64),
            r.name == old(self).name,
            r.true_count == old(self).true_count,
            r.average_length == old(self).average_length,
            r.all_elements_have_same_size == old(self).all_elements_have_same_size,
            *final(self) == *final(r),
    {
        self.count = Some(stats.boxed_count() as u64);
        self.size = Some(stats.boxed_size());
        self
    }

    /// Takes the count and the size from `stats`, and what else its kind
    /// tells: a name, the `true` values, or the average length of arrays and
    /// objects.
    pub fn get_from_stats(&mut self, stats: &JSONStatisticsRef) -> (r: &mut Self)
        requires
            stats.dyn_size() <= u64::MAX,
            stats.dyn_count() <= usize::MAX,
            stats matches JSONStatisticsRef::JSONArray(a) ==> a.lengths@.len() > 0 && sum_of(
                a.lengths@,
            ) <= usize::MAX,
            stats matches JSONStatisticsRef::JSONObject(o) ==> o.properties_count@.len() > 0
                && sum_of(o.properties_count@) <= usize::MAX,
        ensures
            r.count == Some(stats.dyn_count() as u64),
            r.size == Some(stats.dyn_size() as u64),
            opt_text(r.name) == match *stats {
                JSONStatisticsRef::JSONNull(_) => Some("null"@),
                JSONStatisticsRef::JSONBoolean(_) => Some("bool"@),
                JSONStatisticsRef::JSONNumber(_) => Some("number"@),
                JSONStatisticsRef::JSONString(_) => Some("string"@),
                JSONStatisticsRef::JSONArray(_) => Some("array"@),
                JSONStatisticsRef::JSONObject(_) => Some("object"@),
                _ => opt_text(old(self).name),
            },
            r.true_count == match *stats {
                JSONStatisticsRef::JSONBoolean(b) => Some(b.true_count as u64),
                _ => old(self).true_count,
            },
            r.average_length == match *stats {
                JSONStatisticsRef::JSONArray(a) => Some(average_of(a.lengths@) as u64),
                JSONStatisticsRef::JSONObject(o) => Some(average_of(o.properties_count@) as u64),
                _ => old(self).average_length,
            },
            r.all_elements_have_same_size == (stats is JSONNull
                || old(self).all_elements_have_same_size),
            *final(self) == *final(r),
    {
        self.get_from_boxed_stats(stats);
        match *stats {
            JSONStatisticsRef::JSONValue(_) => {},
            JSONStatisticsRef::JSONNull(_) => {
                self.set_name(String::from_str("null"));
                self.all_elements_have_same_size = true;
            },
            JSONStatisticsRef::JSONBoolean(b) => {
                self.set_name(String::from_str("bool"));
                self.true_count = Some(b.true_count as u64);
            },
            JSONStatisticsRef::JSONNumber(_) => {
                self.set_name(String::from_str("number"));
            },
            JSONStatisticsRef::JSONString(_) => {
                self.set_name(String::from_str("string"));
            },
            JSONStatisticsRef::JSONArray(a) => {
                self.set_name(String::from_str("array"));
                self.average_length = Some(average_len(&a.lengths));
            },
            JSONStatisticsRef::JSONObject(o) => {
                self.set_name(String::from_str("object"));
                self.average_length = Some(average_len(&o.properties_count));
            },
            JSONStatisticsRef::JSONObjectProperty(_) => {},
        }
        self
    }

    /// The number of `false` values: the count less the `true` values, where
    /// both are known.
    pub fn false_count(&self) -> (r: Option<u64>)
        requires
            self.count matches Some(c) && self.true_count matches Some(t) ==> t <= c,
        ensures
            r == match (self.count, self.true_count) {
                (Some(c), Some(t)) => Some((c - t) as u64),
                _ => None,
            },
    {
        match (self.count, self.true_count) {
            (Some(c), Some(t)) => Some(c - t),
            _ => None,
        }
    }
}

impl Default for StatisticsInfoValues {
    fn default() -> (r: Self)
        ensures
            r.name is None,
            r.count is None,
            r.size is None,
            r.true_count is None,
            r.average_length is None,
            !r.all_elements_have_same_size,
    {
        StatisticsInfoValues::new()
    }
}

/// The text of an optional string.
pub open spec fn opt_text(s: Option<String>) -> Option<Seq<char>> {
    match s {
        Some(t) => Some(t@),
        None => None,
    }
}

/// The names of the kinds of information, for a table of statistics about
/// objects or about other values.
#[derive(Debug, Clone, Copy, PartialEq, Eq, Structural)]
pub struct StatisticsInfoTypeNames {
    pub is_object: bool,
}

/// The name of the information `info`.
pub open spec fn info_name(info: ExtraFMTInfo, is_object: bool) -> Seq<char> {
    match info {
        ExtraFMTInfo::Name => "name"@,
        ExtraFMTInfo::Count => "count"@,
        ExtraFMTInfo::AverageLength => if is_object {
            "average properties"@
        } else {
            "average length"@
        },
        ExtraFMTInfo::AverageSize => "average size"@,
        ExtraFMTInfo::Size => "size"@,
        ExtraFMTInfo::TrueCount => "true"@,
        ExtraFMTInfo::FalseCount => "false"@,
    }
}

impl StatisticsInfoTypeNames {
    pub fn get_name(&self, info_type: ExtraFMTInfo) -> (r: &'static str)
        ensures
            r@ == info_name(info_type, self.is_object),
    {
        match info_type {
            ExtraFMTInfo::Name => "name",
            ExtraFMTInfo::Count => "count",
            ExtraFMTInfo::AverageLength => {
                if self.is_object {
                    "average properties"
                } else {
                    "average length"
                }
            },
            ExtraFMTInfo::AverageSize => "average size",
            ExtraFMTInfo::Size => "size",
            ExtraFMTInfo::TrueCount => "true",
            ExtraFMTInfo::FalseCount => "false",
        }
    }
}

} // verus!
