//! Options for writing statistics as a TypeScript type.
use vstd::prelude::*;

verus! {

/// Options for writing statistics as a TypeScript type.
#[derive(Debug, Clone, Default)]
pub struct TypeScriptStatisticsFormatter {
    /// Written as `export type NAME = ` before the type.
    pub exported_type_name: Option<String>,
    /// The depth of indentation.
    pub indents: u32,
    /// The text of one level of indentation.
    pub indent_text: String,
    /// The number of times the parent object existed.
    pub parent_count: Option<u32>,
    /// The most keys of an object written out as properties.
    pub max_object_keys: u32,
}

impl TypeScriptStatisticsFormatter {
    /// Options that write nested types: the same, without a type name.
    pub fn as_borrowed(&self) -> (r: TypeScriptStatisticsFormatter)
        ensures
            r.exported_type_name is None,
            r.indents == self.indents,
            r.indent_text@ == self.indent_text@,
            r.parent_count == self.parent_count,
            r.max_object_keys == self.max_object_keys,
    {
        TypeScriptStatisticsFormatter {
            exported_type_name: None,
            indents: self.indents,
            indent_text: self.indent_text.clone(),
            parent_count: self.parent_count,
            max_object_keys: self.max_object_keys,
        }
    }
}

} // verus!
