//! A JSON document as the statistics read it.
use vstd::prelude::*;

verus! {

broadcast use {vstd::seq::axiom_seq_index_decreases, vstd::std_specs::vec::axiom_vec_decreases_to_view};

/// A JSON value; a number is held as its text.
#[derive(Debug)]
pub enum JsonValue {
    Null,
    Bool(bool),
    Number(String),
    String(String),
    Array(Vec<JsonValue>),
    Object(Vec<(String, JsonValue)>),
}

/// The length in bytes of the UTF-8 encoding of `s`.
pub open spec fn text_len(s: String) -> int {
    vstd::utf8::encode_utf8(s@).len() as int
}

/// The commas between `n` items and the two brackets around them.
pub open spec fn separators(n: int) -> int {
    (if n > 0 { n - 1 } else { 0 }) + 2
}

/// The length of the compact JSON text of `v`.
pub open spec fn json_size(v: JsonValue) -> int
    decreases v,
{
    match v {
        JsonValue::Null => 4,
        JsonValue::Bool(b) => if b { 4 } else { 5 },
        JsonValue::Number(t) => text_len(t),
        JsonValue::String(t) => text_len(t) + 2,
        JsonValue::Array(items) => items_size(items@) + separators(items@.len() as int),
        JsonValue::Object(props) => props_size(props@) + 3 * props@.len() + separators(props@.len() as int),
    }
}

/// The total length of the texts of `items`.
pub open spec fn items_size(items: Seq<JsonValue>) -> int
    decreases items,
{
    if items.len() == 0 {
        0
    } else {
        items_size(items.drop_last()) + json_size(items.last())
    }
}

/// The total length of the keys and value texts of `props`.
pub open spec fn props_size(props: Seq<(String, JsonValue)>) -> int
    decreases props,
{
    if props.len() == 0 {
        0
    } else {
        props_size(props.drop_last()) + text_len(props.last().0) + json_size(props.last().1)
    }
}

pub proof fn lemma_json_size_nonneg(v: JsonValue)
    ensures
        json_size(v) >= 0,
    decreases v, 1int,
{
    match v {
        JsonValue::Array(items) => lemma_items_size_nonneg(items@),
        JsonValue::Object(props) => lemma_props_size_nonneg(props@),
        _ => {},
    }
}

pub proof fn lemma_items_size_nonneg(items: Seq<JsonValue>)
    ensures
        items_size(items) >= 0,
    decreases items, 0int,
{
    if items.len() > 0 {
        lemma_items_size_nonneg(items.drop_last());
        lemma_json_size_nonneg(items.last());
    }
}

pub proof fn lemma_props_size_nonneg(props: Seq<(String, JsonValue)>)
    ensures
        props_size(props) >= 0,
    decreases props, 0int,
{
    if props.len() > 0 {
        lemma_props_size_nonneg(props.drop_last());
        lemma_json_size_nonneg(props.last().1);
    }
}

/// The items of a prefix of an array take no more room than all of them.
pub proof fn lemma_items_size_prefix(items: Seq<JsonValue>, k: int)
    requires
        0 <= k <= items.len(),
    ensures
        0 <= items_size(items.subrange(0, k)) <= items_size(items),
    decreases items.len(),
{
    if items.len() > 0 {
        lemma_json_size_nonneg(items.last());
        if k == items.len() {
            assert(items.subrange(0, k) =~= items);
            lemma_items_size_prefix(items.drop_last(), k - 1);
        } else {
            assert(items.drop_last().subrange(0, k) =~= items.subrange(0, k));
            lemma_items_size_prefix(items.drop_last(), k);
        }
    }
}

/// The properties of a prefix of an object take no more room than all of
/// them.
pub proof fn lemma_props_size_prefix(props: Seq<(String, JsonValue)>, k: int)
    requires
        0 <= k <= props.len(),
    ensures
        0 <= props_size(props.subrange(0, k)) <= props_size(props),
    decreases props.len(),
{
    if props.len() > 0 {
        lemma_json_size_nonneg(props.last().1);
        if k == props.len() {
            assert(props.subrange(0, k) =~= props);
            lemma_props_size_prefix(props.drop_last(), k - 1);
        } else {
            assert(props.drop_last().subrange(0, k) =~= props.subrange(0, k));
            lemma_props_size_prefix(props.drop_last(), k);
        }
    }
}

} // verus!
