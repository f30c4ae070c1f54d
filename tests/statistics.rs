use mozlz4::group_tab::GroupTabInfo;
use mozlz4::json_text::{FallibleJSONString, JSONString, ParseAsStr};
use mozlz4::json_value::JsonValue;
use mozlz4::print::{ExtraFMTInfo, StatisticsInfoTypeNames, StatisticsInfoValues};
use mozlz4::statistics::{
    collect_statistics, DynStatistics, JSONArrayStatistics, JSONBooleanStatistics,
    JSONNullStatistics, JSONNumberStatistics, JSONObjectStatistics, JSONStatisticsRef,
    JSONStringStatistics, JSONValueStatistics, Statistics,
};
use mozlz4::type_script::TypeScriptStatisticsFormatter;

#[test]
fn null_statistics_count_four_characters_each() {
    let mut stats = JSONNullStatistics::default();
    assert_eq!(Statistics::size(&stats), 0);
    stats.add_null();
    stats.add_null();
    assert_eq!(Statistics::count(&stats), 2);
    assert_eq!(Statistics::size(&stats), 8);
    let other = JSONNullStatistics { count: 3 };
    stats.merge(&other);
    assert_eq!(stats.count, 5);
    assert_eq!(stats.boxed_size(), 20);
}

#[test]
fn boolean_statistics() {
    let mut stats = JSONBooleanStatistics::default();
    stats.add_bool(true);
    stats.add_bool(false);
    stats.add_bool(false);
    assert_eq!(stats.true_count, 1);
    assert_eq!(stats.false_count, 2);
    assert_eq!(Statistics::size(&stats), 14);
    assert_eq!(stats.boxed_count(), 3);
}

#[test]
fn string_statistics_include_quotes() {
    let mut stats = JSONStringStatistics::default();
    stats.add_string("abc");
    stats.add_string("");
    stats.add_string("é");
    assert_eq!(stats.sizes, vec![3, 0, 2]);
    assert_eq!(Statistics::size(&stats), 5 + 6);
    let mut more = JSONStringStatistics::default();
    more.add_string("xy");
    stats.merge(&more);
    assert_eq!(Statistics::count(&stats), 4);
    assert_eq!(Statistics::size(&stats), 5 + 2 + 8);
}

#[test]
fn number_statistics() {
    let mut stats = JSONNumberStatistics { sizes: vec![1, 3] };
    assert_eq!(Statistics::size(&stats), 4);
    stats.merge(&JSONNumberStatistics { sizes: vec![5] });
    assert_eq!(stats.sizes, vec![1, 3, 5]);
    assert_eq!(stats.boxed_size(), 9);
    assert_eq!(stats.boxed_count(), 3);
}

#[test]
fn info_values() {
    let mut values = StatisticsInfoValues::new();
    assert_eq!(values, StatisticsInfoValues::default());
    assert_eq!(values.false_count(), None);
    let stats = JSONBooleanStatistics { false_count: 2, true_count: 5 };
    values.get_from_boxed_stats(&stats);
    values.set_name("bool".to_string());
    values.true_count = Some(5);
    assert_eq!(values.count, Some(7));
    assert_eq!(values.size, Some(30));
    assert_eq!(values.false_count(), Some(2));
    assert_eq!(values.name.as_deref(), Some("bool"));
}

#[test]
fn info_type_names() {
    let object = StatisticsInfoTypeNames { is_object: true };
    let other = StatisticsInfoTypeNames { is_object: false };
    assert_eq!(object.get_name(ExtraFMTInfo::AverageLength), "average properties");
    assert_eq!(other.get_name(ExtraFMTInfo::AverageLength), "average length");
    assert_eq!(other.get_name(ExtraFMTInfo::FalseCount), "false");
    assert_eq!(other.get_name(ExtraFMTInfo::Name), "name");
}

#[test]
fn type_script_formatter_nested_options() {
    let formatter = TypeScriptStatisticsFormatter {
        exported_type_name: Some("Session".to_string()),
        indents: 2,
        indent_text: "  ".to_string(),
        parent_count: Some(4),
        max_object_keys: 10,
    };
    let nested = formatter.as_borrowed();
    assert_eq!(nested.exported_type_name, None);
    assert_eq!(nested.indents, 2);
    assert_eq!(nested.indent_text, "  ");
    assert_eq!(nested.parent_count, Some(4));
    assert_eq!(nested.max_object_keys, 10);
}

#[test]
fn json_text_wrappers() {
    assert_eq!(JSONString(5).into_inner(), 5);
    assert_eq!(ParseAsStr("x").into_inner(), "x");
    assert_eq!(FallibleJSONString::Data(3).get_data(), Ok(3));
    let text: FallibleJSONString<u8> = FallibleJSONString::Text("oops".to_string());
    assert_eq!(text.clone().get_data(), Err(text));
}

#[test]
fn group_tab_default_name() {
    assert_eq!(GroupTabInfo::default_name(), "Group");
    assert_eq!(GroupTabInfo::default().internal_id, None);
}

#[test]
fn compressed_flag_decides() {
    let opt = mozlz4::options::CompressInfoOpt { compressed: true, uncompressed: false };
    assert_eq!(opt.input_is_compressed(), Some(true));
    let opt = mozlz4::options::CompressInfoOpt { compressed: false, uncompressed: true };
    assert_eq!(opt.input_is_compressed(), Some(false));
    assert_eq!(mozlz4::options::CompressInfoOpt::default().input_is_compressed(), None);
}

fn text(s: &str) -> String {
    s.to_string()
}

/// `{"a":[1,true,null],"bb":"x","c":{"a":false}}`
fn document() -> JsonValue {
    JsonValue::Object(vec![
        (
            text("a"),
            JsonValue::Array(vec![
                JsonValue::Number(text("1")),
                JsonValue::Bool(true),
                JsonValue::Null,
            ]),
        ),
        (text("bb"), JsonValue::String(text("x"))),
        (
            text("c"),
            JsonValue::Object(vec![(text("a"), JsonValue::Bool(false))]),
        ),
    ])
}

#[test]
fn statistics_start_at_zero_size() {
    assert_eq!(Statistics::size(&JSONValueStatistics::default()), 0)
}

#[test]
fn document_size_is_its_compact_text_length() {
    let compact = "{\"a\":[1,true,null],\"bb\":\"x\",\"c\":{\"a\":false}}";
    let stats = collect_statistics(&document());
    assert_eq!(Statistics::size(&stats), compact.len() as u64);
    assert_eq!(Statistics::count(&stats), 1);
    assert_eq!(stats.objects.properties_count, vec![3]);
    let names: Vec<&str> = stats.objects.properties.iter().map(|(k, _)| k.as_str()).collect();
    assert_eq!(names, vec!["a", "bb", "c"]);
    let c = &stats.objects.properties[2].1;
    // The nested object's property `a` is counted once, under `c`.
    assert_eq!(c.value_info.objects.properties.len(), 1);
    assert_eq!(c.value_info.objects.properties[0].1.value_info.booleans.false_count, 1);
}

#[test]
fn array_items_are_gathered() {
    let mut arrays = JSONArrayStatistics::default();
    let items = vec![JsonValue::Null, JsonValue::Number(text("12"))];
    arrays.add_array(&items);
    arrays.add_array(&vec![]);
    assert_eq!(arrays.lengths, vec![2, 0]);
    // "null" and "12", then the brackets and the comma of each array.
    assert_eq!(arrays.sizes, vec![6, 0]);
    assert_eq!(Statistics::size(&arrays), 6 + 3 + 2);
    let values = arrays.get_values();
    assert_eq!(values.nulls.count, 1);
    assert_eq!(values.numbers.sizes, vec![2]);
}

#[test]
fn equal_keys_share_statistics() {
    let mut objects = JSONObjectStatistics::default();
    let one = vec![(text("k"), JsonValue::Bool(true))];
    let two = vec![(text("k"), JsonValue::Null), (text("m"), JsonValue::Null)];
    objects.add_object(&one);
    objects.add_object(&two);
    assert_eq!(objects.properties.len(), 2);
    assert_eq!(objects.properties[0].0, "k");
    assert_eq!(objects.properties[0].1.sizes, vec![4, 4]);
    assert_eq!(objects.sizes, vec![1 + 4, 1 + 4 + 1 + 4]);
    // {"k":true} and {"k":null,"m":null}
    assert_eq!(Statistics::size(&objects), 10 + 19);
}

#[test]
fn value_statistics_merge() {
    let mut a = collect_statistics(&document());
    let b = collect_statistics(&JsonValue::String(text("hello")));
    let before = Statistics::size(&a);
    a.merge(&b);
    assert_eq!(Statistics::size(&a), before + 7);
    assert_eq!(Statistics::count(&a), 2);
    assert_eq!(a.boxed_count(), 2);
}

#[test]
fn info_values_from_statistics() {
    let stats = collect_statistics(&document());
    let mut values = StatisticsInfoValues::new();
    values.get_from_stats(&JSONStatisticsRef::JSONObject(&stats.objects));
    assert_eq!(values.name.as_deref(), Some("object"));
    assert_eq!(values.count, Some(1));
    assert_eq!(values.average_length, Some(3));
    let array_stats = &stats.objects.properties[0].1.value_info.arrays;
    let mut values = StatisticsInfoValues::new();
    values.get_from_stats(&JSONStatisticsRef::JSONArray(array_stats));
    assert_eq!(values.name.as_deref(), Some("array"));
    assert_eq!(values.size, Some(13));
    assert_eq!(values.average_length, Some(3));
    let mut values = StatisticsInfoValues::new();
    values.get_from_stats(&JSONStatisticsRef::JSONNull(&JSONNullStatistics { count: 2 }));
    assert!(values.all_elements_have_same_size);
    assert_eq!(values.size, Some(8));
    let mut values = StatisticsInfoValues::new();
    let booleans = JSONBooleanStatistics { false_count: 1, true_count: 4 };
    values.get_from_stats(&JSONStatisticsRef::JSONBoolean(&booleans));
    assert_eq!(values.true_count, Some(4));
    assert_eq!(values.false_count(), Some(1));
}
