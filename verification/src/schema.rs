//! The schema normalizer: projects an arbitrary JSON Schema document onto a
//! restricted schema dialect without references or unions.
//!
//! References of the forms `#/$defs/<name>` and `#/definitions/<name>` are
//! resolved against a definition table harvested from the top-level document.
//! A definition already used on the current resolution path is treated as
//! unresolvable, so conversion terminates on every input.

use vstd::prelude::*;

use crate::json::{
    jhas, jheight, jheight_list, jheight_pairs, jlookup, jview, jview_list, jview_pairs,
    lemma_jheight_list_elem, lemma_jheight_pairs_drop, lemma_jheight_pairs_value,
    lemma_jlookup_height, lemma_jview_pairs_index, JsonV, JsonValue,
};
use crate::strings::dec_str;

verus! {

/// The value types a simplified schema node may declare.
#[derive(Debug, Clone, Copy, PartialEq, Eq, Structural)]
pub enum SchemaType {
    String,
    Number,
    Integer,
    Boolean,
    Array,
    Object,
}

/// Why a schema document could not be converted.
#[derive(Debug)]
pub enum ConversionError {
    /// The declared type is not one the dialect supports.
    UnsupportedType(String),
    /// The document is not shaped like a schema.
    InvalidSchema(String),
    /// A field the conversion needs is missing.
    MissingField(String),
    /// A `$ref` could not be resolved against the definition table.
    RefResolutionError(String),
}

/// The mathematical form of a conversion error.
pub ghost enum ConvErrV {
    UnsupportedType(Seq<char>),
    InvalidSchema(Seq<char>),
    MissingField(Seq<char>),
    RefResolution(Seq<char>),
}

/// The mathematical form of `e`.
pub open spec fn err_view(e: ConversionError) -> ConvErrV {
    match e {
        ConversionError::UnsupportedType(s) => ConvErrV::UnsupportedType(s@),
        ConversionError::InvalidSchema(s) => ConvErrV::InvalidSchema(s@),
        ConversionError::MissingField(s) => ConvErrV::MissingField(s@),
        ConversionError::RefResolutionError(s) => ConvErrV::RefResolution(s@),
    }
}

/// A node of the restricted schema dialect.
///
/// A node's populated fields match its `schema_type`: `properties` and
/// `required` are only set on `Object` nodes, `items` only on `Array` nodes,
/// `enum_values` and the length bounds only on `String` nodes, and
/// `minimum`/`maximum` only on numeric nodes. Count-valued bounds are carried
/// as decimal strings, as the target dialect requires.
#[derive(Debug)]
pub struct SimplifiedSchema {
    pub schema_type: SchemaType,
    pub format: Option<String>,
    pub title: Option<String>,
    pub description: Option<String>,
    pub nullable: Option<bool>,
    pub enum_values: Option<Vec<String>>,
    pub max_items: Option<String>,
    pub min_items: Option<String>,
    pub properties: Option<Vec<(String, SimplifiedSchema)>>,
    pub required: Option<Vec<String>>,
    pub min_properties: Option<String>,
    pub max_properties: Option<String>,
    pub min_length: Option<String>,
    pub max_length: Option<String>,
    pub pattern: Option<String>,
    pub example: Option<JsonValue>,
    pub any_of: Option<Vec<SimplifiedSchema>>,
    pub property_ordering: Option<Vec<String>>,
    pub default: Option<JsonValue>,
    pub items: Option<Box<SimplifiedSchema>>,
    pub minimum: Option<i64>,
    pub maximum: Option<i64>,
}

/// The mathematical form of a simplified schema node.
pub ghost struct NodeV {
    pub schema_type: SchemaType,
    pub format: Option<Seq<char>>,
    pub title: Option<Seq<char>>,
    pub description: Option<Seq<char>>,
    pub nullable: Option<bool>,
    pub enum_values: Option<Seq<Seq<char>>>,
    pub max_items: Option<Seq<char>>,
    pub min_items: Option<Seq<char>>,
    pub properties: Option<Seq<(Seq<char>, NodeV)>>,
    pub required: Option<Seq<Seq<char>>>,
    pub min_properties: Option<Seq<char>>,
    pub max_properties: Option<Seq<char>>,
    pub min_length: Option<Seq<char>>,
    pub max_length: Option<Seq<char>>,
    pub pattern: Option<Seq<char>>,
    pub example: Option<JsonV>,
    pub any_of: Option<Seq<NodeV>>,
    pub property_ordering: Option<Seq<Seq<char>>>,
    pub default: Option<JsonV>,
    pub items: Option<Box<NodeV>>,
    pub minimum: Option<int>,
    pub maximum: Option<int>,
}

/// The mathematical form of a list of strings.
pub open spec fn strs_view(v: Seq<String>) -> Seq<Seq<char>>
    decreases v,
{
    if v.len() == 0 {
        Seq::empty()
    } else {
        seq![v[0]@] + strs_view(v.drop_first())
    }
}

/// `strs_view` maps the list pointwise.
pub proof fn lemma_strs_view_index(v: Seq<String>)
    ensures
        strs_view(v).len() == v.len(),
        forall|i: int| 0 <= i < v.len() ==> #[trigger] strs_view(v)[i] == v[i]@,
    decreases v,
{
    if v.len() > 0 {
        lemma_strs_view_index(v.drop_first());
    }
}

/// The mathematical form of `n`.
pub open spec fn node_view(n: SimplifiedSchema) -> NodeV
    decreases n,
{
    NodeV {
        schema_type: n.schema_type,
        format: match n.format {
            Some(s) => Some(s@),
            None => None,
        },
        title: match n.title {
            Some(s) => Some(s@),
            None => None,
        },
        description: match n.description {
            Some(s) => Some(s@),
            None => None,
        },
        nullable: n.nullable,
        enum_values: match n.enum_values {
            Some(v) => Some(strs_view(v@)),
            None => None,
        },
        max_items: match n.max_items {
            Some(s) => Some(s@),
            None => None,
        },
        min_items: match n.min_items {
            Some(s) => Some(s@),
            None => None,
        },
        properties: match n.properties {
            Some(ps) => Some(node_view_pairs(ps@)),
            None => None,
        },
        required: match n.required {
            Some(v) => Some(strs_view(v@)),
            None => None,
        },
        min_properties: match n.min_properties {
            Some(s) => Some(s@),
            None => None,
        },
        max_properties: match n.max_properties {
            Some(s) => Some(s@),
            None => None,
        },
        min_length: match n.min_length {
            Some(s) => Some(s@),
            None => None,
        },
        max_length: match n.max_length {
            Some(s) => Some(s@),
            None => None,
        },
        pattern: match n.pattern {
            Some(s) => Some(s@),
            None => None,
        },
        example: match n.example {
            Some(v) => Some(jview(v)),
            None => None,
        },
        any_of: match n.any_of {
            Some(v) => Some(node_view_list(v@)),
            None => None,
        },
        property_ordering: match n.property_ordering {
            Some(v) => Some(strs_view(v@)),
            None => None,
        },
        default: match n.default {
            Some(v) => Some(jview(v)),
            None => None,
        },
        items: match n.items {
            Some(b) => Some(Box::new(node_view(*b))),
            None => None,
        },
        minimum: match n.minimum {
            Some(m) => Some(m as int),
            None => None,
        },
        maximum: match n.maximum {
            Some(m) => Some(m as int),
            None => None,
        },
    }
}

/// The mathematical form of named child nodes.
pub open spec fn node_view_pairs(ps: Seq<(String, SimplifiedSchema)>) -> Seq<(Seq<char>, NodeV)>
    decreases ps,
{
    if ps.len() == 0 {
        Seq::empty()
    } else {
        seq![(ps[0].0@, node_view(ps[0].1))] + node_view_pairs(ps.drop_first())
    }
}

/// The mathematical form of a list of nodes.
pub open spec fn node_view_list(ns: Seq<SimplifiedSchema>) -> Seq<NodeV>
    decreases ns,
{
    if ns.len() == 0 {
        Seq::empty()
    } else {
        seq![node_view(ns[0])] + node_view_list(ns.drop_first())
    }
}

/// `node_view_pairs` maps the list pointwise.
pub proof fn lemma_node_view_pairs_index(ps: Seq<(String, SimplifiedSchema)>)
    ensures
        node_view_pairs(ps).len() == ps.len(),
        forall|i: int|
            0 <= i < ps.len() ==> #[trigger] node_view_pairs(ps)[i] == (
            ps[i].0@,
            node_view(ps[i].1),
            ),
    decreases ps,
{
    if ps.len() > 0 {
        lemma_node_view_pairs_index(ps.drop_first());
    }
}

// ---------------------------------------------------------------------------
// Reading members of a schema object
// ---------------------------------------------------------------------------

/// The member named `key`, when it is a string.
pub open spec fn str_member(ps: Seq<(Seq<char>, JsonV)>, key: Seq<char>) -> Option<Seq<char>> {
    match jlookup(ps, key) {
        Some(JsonV::Str(s)) => Some(s),
        _ => None,
    }
}

/// The member named `key`, when it is an array.
pub open spec fn arr_member(ps: Seq<(Seq<char>, JsonV)>, key: Seq<char>) -> Option<Seq<JsonV>> {
    match jlookup(ps, key) {
        Some(JsonV::Arr(a)) => Some(a),
        _ => None,
    }
}

/// The member named `key`, when it is a boolean.
pub open spec fn bool_member(ps: Seq<(Seq<char>, JsonV)>, key: Seq<char>) -> Option<bool> {
    match jlookup(ps, key) {
        Some(JsonV::Bool(b)) => Some(b),
        _ => None,
    }
}

/// The member named `key` rendered in decimal, when it is a non-negative
/// integer.
pub open spec fn count_member(ps: Seq<(Seq<char>, JsonV)>, key: Seq<char>) -> Option<Seq<char>> {
    match jlookup(ps, key) {
        Some(JsonV::Int(n)) => if n >= 0 {
            Some(dec_str(n as nat))
        } else {
            None
        },
        _ => None,
    }
}

/// The member named `key`, when it is an integer.
pub open spec fn int_member(ps: Seq<(Seq<char>, JsonV)>, key: Seq<char>) -> Option<int> {
    match jlookup(ps, key) {
        Some(JsonV::Int(n)) => Some(n),
        _ => None,
    }
}

// ---------------------------------------------------------------------------
// Cleaning: dropping `$`-prefixed members
// ---------------------------------------------------------------------------

/// The member name is schema metadata (`$`-prefixed).
pub open spec fn dollar_key(key: Seq<char>) -> bool {
    key.len() > 0 && key[0] == '$'
}

/// `v` with every `$`-prefixed object member removed, at every depth.
pub open spec fn jclean(v: JsonV) -> JsonV
    decreases v,
{
    match v {
        JsonV::Obj(ps) => JsonV::Obj(jclean_pairs(ps)),
        JsonV::Arr(items) => JsonV::Arr(jclean_list(items)),
        _ => v,
    }
}

/// The members of an object after cleaning.
pub open spec fn jclean_pairs(ps: Seq<(Seq<char>, JsonV)>) -> Seq<(Seq<char>, JsonV)>
    decreases ps,
{
    if ps.len() == 0 {
        Seq::empty()
    } else if dollar_key(ps[0].0) {
        jclean_pairs(ps.drop_first())
    } else {
        seq![(ps[0].0, jclean(ps[0].1))] + jclean_pairs(ps.drop_first())
    }
}

/// The elements of an array after cleaning.
pub open spec fn jclean_list(items: Seq<JsonV>) -> Seq<JsonV>
    decreases items,
{
    if items.len() == 0 {
        Seq::empty()
    } else {
        seq![jclean(items[0])] + jclean_list(items.drop_first())
    }
}

// ---------------------------------------------------------------------------
// Reference resolution
// ---------------------------------------------------------------------------

/// The first position at or after `i` holding `c`.
pub open spec fn find_from(s: Seq<char>, c: char, i: int) -> Option<int>
    decreases s.len() - i,
{
    if i < 0 || i >= s.len() {
        None
    } else if s[i] == c {
        Some(i)
    } else {
        find_from(s, c, i + 1)
    }
}

/// The definition name a reference path points at: the third `/`-separated
/// segment of a path of the form `#/$defs/<name>` or `#/definitions/<name>`.
pub open spec fn ref_target(path: Seq<char>) -> Option<Seq<char>> {
    if path.len() >= 2 && path[0] == '#' && path[1] == '/' {
        match find_from(path, '/', 2) {
            Some(p2) => {
                let seg = path.subrange(2, p2);
                if seg == "$defs"@ || seg == "definitions"@ {
                    match find_from(path, '/', p2 + 1) {
                        Some(p3) => Some(path.subrange(p2 + 1, p3)),
                        None => Some(path.subrange(p2 + 1, path.len() as int)),
                    }
                } else {
                    None
                }
            },
            None => None,
        }
    } else {
        None
    }
}

/// The definition table without its first entry named `name`.
pub open spec fn remove_def(defs: Seq<(Seq<char>, JsonV)>, name: Seq<char>) -> Seq<
    (Seq<char>, JsonV),
>
    decreases defs,
{
    if defs.len() == 0 {
        defs
    } else if defs[0].0 == name {
        defs.drop_first()
    } else {
        seq![defs[0]] + remove_def(defs.drop_first(), name)
    }
}

/// Removing a present definition shrinks the table by one entry.
pub proof fn lemma_remove_def_len(defs: Seq<(Seq<char>, JsonV)>, name: Seq<char>)
    requires
        jlookup(defs, name) is Some,
    ensures
        remove_def(defs, name).len() == defs.len() - 1,
    decreases defs,
{
    if defs.len() > 0 && defs[0].0 != name {
        lemma_remove_def_len(defs.drop_first(), name);
    }
}

// ---------------------------------------------------------------------------
// Type determination
// ---------------------------------------------------------------------------

/// The schema type a type name denotes, for an explicit `type` string.
pub open spec fn type_of_name(t: Seq<char>) -> Result<SchemaType, ConvErrV> {
    if t == "string"@ {
        Ok(SchemaType::String)
    } else if t == "number"@ {
        Ok(SchemaType::Number)
    } else if t == "integer"@ {
        Ok(SchemaType::Integer)
    } else if t == "boolean"@ {
        Ok(SchemaType::Boolean)
    } else if t == "array"@ {
        Ok(SchemaType::Array)
    } else if t == "object"@ {
        Ok(SchemaType::Object)
    } else if t == "null"@ {
        Err(ConvErrV::UnsupportedType("null type not directly supported"@))
    } else {
        Err(ConvErrV::UnsupportedType(t))
    }
}

/// As `type_of_name`, for the sole non-null entry of a `type` array, where
/// `"null"` has already been filtered out.
pub open spec fn type_of_union_name(t: Seq<char>) -> Result<SchemaType, ConvErrV> {
    if t == "string"@ {
        Ok(SchemaType::String)
    } else if t == "number"@ {
        Ok(SchemaType::Number)
    } else if t == "integer"@ {
        Ok(SchemaType::Integer)
    } else if t == "boolean"@ {
        Ok(SchemaType::Boolean)
    } else if t == "array"@ {
        Ok(SchemaType::Array)
    } else if t == "object"@ {
        Ok(SchemaType::Object)
    } else {
        Err(ConvErrV::UnsupportedType(t))
    }
}

/// The string entries of a `type` array other than `"null"`.
pub open spec fn non_null_types(ts: Seq<JsonV>) -> Seq<Seq<char>>
    decreases ts,
{
    if ts.len() == 0 {
        Seq::empty()
    } else {
        let rest = non_null_types(ts.drop_first());
        match ts[0] {
            JsonV::Str(s) => if s == "null"@ {
                rest
            } else {
                seq![s] + rest
            },
            _ => rest,
        }
    }
}

/// The type of a cleaned schema object: the explicit `type` member, a `type`
/// array collapsed to its sole non-null entry, or a type inferred from which
/// members are present.
pub open spec fn dtype_spec(cl: Seq<(Seq<char>, JsonV)>) -> Result<SchemaType, ConvErrV> {
    match jlookup(cl, "type"@) {
        Some(JsonV::Str(t)) => type_of_name(t),
        Some(JsonV::Arr(ts)) => {
            let nn = non_null_types(ts);
            if nn.len() == 1 {
                type_of_union_name(nn[0])
            } else {
                Err(ConvErrV::UnsupportedType("Multiple non-null types not supported"@))
            }
        },
        Some(_) => Err(ConvErrV::InvalidSchema("Type must be string or array"@)),
        None => {
            if jhas(cl, "properties"@) || jhas(cl, "additionalProperties"@) {
                Ok(SchemaType::Object)
            } else if jhas(cl, "items"@) {
                Ok(SchemaType::Array)
            } else if jhas(cl, "enum"@) {
                Ok(SchemaType::String)
            } else if cl.len() == 0 {
                Err(
                    ConvErrV::InvalidSchema(
                        "Empty schema after cleaning - this might be a $ref-only schema that wasn't resolved"@,
                    ),
                )
            } else {
                Err(ConvErrV::MissingField("type"@))
            }
        },
    }
}

// ---------------------------------------------------------------------------
// Unions of string enums
// ---------------------------------------------------------------------------

/// Every element is a string.
pub open spec fn all_strings(vals: Seq<JsonV>) -> bool {
    forall|i: int| 0 <= i < vals.len() ==> (#[trigger] vals[i]) matches JsonV::Str(_)
}

/// The character sequences of a list of JSON strings.
pub open spec fn string_values(vals: Seq<JsonV>) -> Seq<Seq<char>>
    decreases vals,
{
    if vals.len() == 0 {
        Seq::empty()
    } else {
        let rest = string_values(vals.drop_first());
        match vals[0] {
            JsonV::Str(s) => seq![s] + rest,
            _ => rest,
        }
    }
}

/// The branch is a plain string enum: `{"type": "string", "enum": [strings]}`.
pub open spec fn is_string_enum_branch(b: JsonV) -> bool {
    match b {
        JsonV::Obj(bp) => str_member(bp, "type"@) == Some("string"@) && match arr_member(
            bp,
            "enum"@,
        ) {
            Some(vals) => all_strings(vals),
            None => false,
        },
        _ => false,
    }
}

/// Every branch of the union is a plain string enum.
pub open spec fn all_string_enum_branches(arr: Seq<JsonV>) -> bool {
    forall|i: int| 0 <= i < arr.len() ==> is_string_enum_branch(#[trigger] arr[i])
}

/// The enum values of one string-enum branch.
pub open spec fn branch_enum_values(b: JsonV) -> Seq<Seq<char>> {
    match b {
        JsonV::Obj(bp) => match arr_member(bp, "enum"@) {
            Some(vals) => string_values(vals),
            None => Seq::empty(),
        },
        _ => Seq::empty(),
    }
}

/// The enum values of all branches, concatenated in order.
pub open spec fn merged_enum_values(arr: Seq<JsonV>) -> Seq<Seq<char>>
    decreases arr,
{
    if arr.len() == 0 {
        Seq::empty()
    } else {
        branch_enum_values(arr[0]) + merged_enum_values(arr.drop_first())
    }
}

/// The first branch of an `allOf` that is an object without a `$ref`.
pub open spec fn first_non_ref(arr: Seq<JsonV>, i: int) -> Option<int>
    decreases arr.len() - i,
{
    if i < 0 || i >= arr.len() {
        None
    } else {
        match arr[i] {
            JsonV::Obj(ps) => if !jhas(ps, "$ref"@) {
                Some(i)
            } else {
                first_non_ref(arr, i + 1)
            },
            _ => first_non_ref(arr, i + 1),
        }
    }
}

/// `first_non_ref` returns a position inside the array.
pub proof fn lemma_first_non_ref_bound(arr: Seq<JsonV>, i: int)
    requires
        first_non_ref(arr, i) is Some,
    ensures
        i <= first_non_ref(arr, i)->Some_0 < arr.len(),
    decreases arr.len() - i,
{
    if 0 <= i < arr.len() {
        match arr[i] {
            JsonV::Obj(ps) => {
                if jhas(ps, "$ref"@) {
                    lemma_first_non_ref_bound(arr, i + 1);
                }
            },
            _ => {
                lemma_first_non_ref_bound(arr, i + 1);
            },
        }
    }
}

// ---------------------------------------------------------------------------
// Node construction
// ---------------------------------------------------------------------------

/// A node of type `t` with no other field populated.
pub open spec fn empty_node(t: SchemaType) -> NodeV {
    NodeV {
        schema_type: t,
        format: None,
        title: None,
        description: None,
        nullable: None,
        enum_values: None,
        max_items: None,
        min_items: None,
        properties: None,
        required: None,
        min_properties: None,
        max_properties: None,
        min_length: None,
        max_length: None,
        pattern: None,
        example: None,
        any_of: None,
        property_ordering: None,
        default: None,
        items: None,
        minimum: None,
        maximum: None,
    }
}

/// A node of type `t` carrying the general members of the cleaned object:
/// title, description, example, default and nullable.
pub open spec fn base_node(t: SchemaType, cl: Seq<(Seq<char>, JsonV)>) -> NodeV {
    NodeV {
        title: str_member(cl, "title"@),
        description: str_member(cl, "description"@),
        example: jlookup(cl, "example"@),
        default: jlookup(cl, "default"@),
        nullable: bool_member(cl, "nullable"@),
        ..empty_node(t)
    }
}

/// The merged node for a union whose branches are all string enums.
pub open spec fn enum_union_node(
    arr: Seq<JsonV>,
    parent: Seq<(Seq<char>, JsonV)>,
) -> NodeV {
    NodeV {
        format: Some("enum"@),
        enum_values: Some(merged_enum_values(arr)),
        description: str_member(parent, "description"@),
        ..empty_node(SchemaType::String)
    }
}

/// String-specific members: format (only `date-time` and `enum` survive),
/// enum values, length bounds and pattern. An enum with a non-string value is
/// an error.
pub open spec fn string_fields_spec(cl: Seq<(Seq<char>, JsonV)>, base: NodeV) -> Result<
    NodeV,
    ConvErrV,
> {
    let fmt = match str_member(cl, "format"@) {
        Some(f) => if f == "date-time"@ || f == "enum"@ {
            Some(f)
        } else {
            None
        },
        None => None,
    };
    let with_len = NodeV {
        min_length: count_member(cl, "minLength"@),
        max_length: count_member(cl, "maxLength"@),
        pattern: str_member(cl, "pattern"@),
        ..base
    };
    match arr_member(cl, "enum"@) {
        Some(vals) => if all_strings(vals) {
            Ok(
                NodeV {
                    format: Some("enum"@),
                    enum_values: Some(string_values(vals)),
                    ..with_len
                },
            )
        } else {
            Err(ConvErrV::InvalidSchema("Enum values must be strings"@))
        },
        None => Ok(NodeV { format: fmt, ..with_len }),
    }
}

/// Numeric members: a format matching the numeric type, and the bounds.
pub open spec fn number_fields_spec(
    cl: Seq<(Seq<char>, JsonV)>,
    base: NodeV,
    t: SchemaType,
) -> NodeV {
    let fmt = match str_member(cl, "format"@) {
        Some(f) => if (f == "float"@ || f == "double"@) && t == SchemaType::Number {
            Some(f)
        } else if (f == "int32"@ || f == "int64"@) && t == SchemaType::Integer {
            Some(f)
        } else {
            None
        },
        None => None,
    };
    NodeV {
        format: fmt,
        minimum: int_member(cl, "minimum"@),
        maximum: int_member(cl, "maximum"@),
        ..base
    }
}

/// The `required` member: its string entries, or an error on a non-string
/// entry.
pub open spec fn required_spec(ps: Seq<(Seq<char>, JsonV)>) -> Result<
    Option<Seq<Seq<char>>>,
    ConvErrV,
> {
    match arr_member(ps, "required"@) {
        Some(vals) => if all_strings(vals) {
            Ok(Some(string_values(vals)))
        } else {
            Err(ConvErrV::InvalidSchema("Required field names must be strings"@))
        },
        None => Ok(None),
    }
}

// ---------------------------------------------------------------------------
// The conversion itself
// ---------------------------------------------------------------------------

/// Converts a schema fragment against a definition table.
///
/// Mirrors the conversion pass: `$ref` resolution first (consuming the used
/// definition, so cyclic references fail as unresolvable), then union
/// flattening, then the plain single-type projection.
pub open spec fn spec_convert(defs: Seq<(Seq<char>, JsonV)>, s: JsonV) -> Result<NodeV, ConvErrV>
    decreases defs.len(), jheight(s), 3int,
{
    match s {
        JsonV::Obj(ps) => {
            if str_member(ps, "$ref"@) is Some {
                let path = str_member(ps, "$ref"@)->Some_0;
                match ref_target(path) {
                    Some(name) => match jlookup(defs, name) {
                        Some(frag) => {
                            proof {
                                lemma_remove_def_len(defs, name);
                            }
                            spec_convert(remove_def(defs, name), frag)
                        },
                        None => Err(
                            ConvErrV::RefResolution("Could not resolve reference: "@ + path),
                        ),
                    },
                    None => Err(ConvErrV::RefResolution("Could not resolve reference: "@ + path)),
                }
            } else if arr_member(ps, "oneOf"@) is Some {
                spec_flatten_union(defs, arr_member(ps, "oneOf"@)->Some_0, ps, s)
            } else if arr_member(ps, "allOf"@) is Some {
                spec_flatten_all(defs, arr_member(ps, "allOf"@)->Some_0, s)
            } else if arr_member(ps, "anyOf"@) is Some {
                spec_flatten_union(defs, arr_member(ps, "anyOf"@)->Some_0, ps, s)
            } else {
                spec_plain(defs, ps, s)
            }
        },
        _ => Err(ConvErrV::InvalidSchema("Schema must be an object"@)),
    }
}

/// Flattens `oneOf`/`anyOf`: merge all-string-enum branches into one enum
/// node; otherwise only the first branch is converted and the remaining
/// branches are discarded, a documented loss of information. `s` is the
/// containing object, carried for termination.
pub open spec fn spec_flatten_union(
    defs: Seq<(Seq<char>, JsonV)>,
    arr: Seq<JsonV>,
    parent: Seq<(Seq<char>, JsonV)>,
    s: JsonV,
) -> Result<NodeV, ConvErrV>
    decreases defs.len(), jheight(s), 2int,
    when s matches JsonV::Obj(ps) && (arr_member(ps, "oneOf"@) == Some(arr) || arr_member(
        ps,
        "anyOf"@,
    ) == Some(arr)) && parent == ps
{
    if arr.len() == 0 {
        Err(ConvErrV::InvalidSchema("Empty oneOf array"@))
    } else if all_string_enum_branches(arr) && merged_enum_values(arr).len() > 0 {
        Ok(enum_union_node(arr, parent))
    } else {
        proof {
            lemma_union_member_height(s, arr);
            lemma_jheight_list_elem(arr);
        }
        spec_convert(defs, arr[0])
    }
}

/// Flattens `allOf`: a single entry converts directly; otherwise only the
/// first entry without a `$ref` is used (or the first entry outright when
/// every entry has one) and the remaining entries are discarded, a
/// documented loss of information.
pub open spec fn spec_flatten_all(
    defs: Seq<(Seq<char>, JsonV)>,
    arr: Seq<JsonV>,
    s: JsonV,
) -> Result<NodeV, ConvErrV>
    decreases defs.len(), jheight(s), 2int,
    when s matches JsonV::Obj(ps) && arr_member(ps, "allOf"@) == Some(arr)
{
    if arr.len() == 0 {
        Err(ConvErrV::InvalidSchema("Empty allOf array"@))
    } else if arr.len() == 1 {
        proof {
            lemma_all_member_height(s, arr);
            lemma_jheight_list_elem(arr);
        }
        spec_convert(defs, arr[0])
    } else {
        match first_non_ref(arr, 0) {
            Some(i) => {
                proof {
                    lemma_first_non_ref_bound(arr, 0);
                    lemma_all_member_height(s, arr);
                    lemma_jheight_list_elem(arr);
                }
                spec_convert(defs, arr[i])
            },
            None => {
                proof {
                    lemma_all_member_height(s, arr);
                    lemma_jheight_list_elem(arr);
                }
                spec_convert(defs, arr[0])
            },
        }
    }
}

/// Converts a plain (reference- and union-free) schema object. `s` is the
/// containing object, carried for termination.
pub open spec fn spec_plain(
    defs: Seq<(Seq<char>, JsonV)>,
    ps: Seq<(Seq<char>, JsonV)>,
    s: JsonV,
) -> Result<NodeV, ConvErrV>
    decreases defs.len(), jheight(s), 1int,
    when s == JsonV::Obj(ps)
{
    let cl = jclean_pairs(ps);
    match dtype_spec(cl) {
        Err(e) => Err(e),
        Ok(t) => {
            let base = base_node(t, cl);
            if t == SchemaType::String {
                string_fields_spec(cl, base)
            } else if t == SchemaType::Number || t == SchemaType::Integer {
                Ok(number_fields_spec(cl, base, t))
            } else if t == SchemaType::Array {
                match jlookup(ps, "items"@) {
                    Some(item) => {
                        proof {
                            lemma_jlookup_height(ps, "items"@);
                        }
                        match spec_convert(defs, item) {
                            Ok(child) => Ok(
                                NodeV {
                                    items: Some(Box::new(child)),
                                    min_items: count_member(ps, "minItems"@),
                                    max_items: count_member(ps, "maxItems"@),
                                    ..base
                                },
                            ),
                            Err(e) => Err(e),
                        }
                    },
                    None => Ok(
                        NodeV {
                            min_items: count_member(ps, "minItems"@),
                            max_items: count_member(ps, "maxItems"@),
                            ..base
                        },
                    ),
                }
            } else if t == SchemaType::Object {
                let props = match jlookup(ps, "properties"@) {
                    Some(JsonV::Obj(pp)) => {
                        proof {
                            lemma_jlookup_height(ps, "properties"@);
                        }
                        match spec_props(defs, pp) {
                            Ok(conv) => Ok(Some(conv)),
                            Err(e) => Err(e),
                        }
                    },
                    _ => Ok(None),
                };
                match props {
                    Err(e) => Err(e),
                    Ok(conv) => match required_spec(ps) {
                        Err(e) => Err(e),
                        Ok(req) => Ok(
                            NodeV {
                                properties: conv,
                                required: req,
                                min_properties: count_member(ps, "minProperties"@),
                                max_properties: count_member(ps, "maxProperties"@),
                                ..base
                            },
                        ),
                    },
                }
            } else {
                Ok(base)
            }
        },
    }
}

/// Converts each property of an object schema, preserving order; the first
/// failing property fails the conversion.
pub open spec fn spec_props(defs: Seq<(Seq<char>, JsonV)>, pp: Seq<(Seq<char>, JsonV)>) -> Result<
    Seq<(Seq<char>, NodeV)>,
    ConvErrV,
>
    decreases defs.len(), jheight(JsonV::Obj(pp)), pp.len() + 1,
{
    if pp.len() == 0 {
        Ok(Seq::empty())
    } else {
        let conv0 = {
            proof {
                lemma_jheight_pairs_value(pp);
                assert(jheight(pp[0].1) <= jheight_pairs(pp));
            }
            spec_convert(defs, pp[0].1)
        };
        match conv0 {
            Err(e) => Err(e),
            Ok(child) => {
                let rest = {
                    proof {
                        lemma_jheight_pairs_drop(pp);
                    }
                    spec_props(defs, pp.drop_first())
                };
                match rest {
                    Err(e) => Err(e),
                    Ok(tail) => Ok(seq![(pp[0].0, child)] + tail),
                }
            },
        }
    }
}

/// A member value of an object sits strictly below the object.
pub proof fn lemma_union_member_height(s: JsonV, arr: Seq<JsonV>)
    requires
        s matches JsonV::Obj(ps) && (arr_member(ps, "oneOf"@) == Some(arr) || arr_member(
            ps,
            "anyOf"@,
        ) == Some(arr)),
    ensures
        jheight(JsonV::Arr(arr)) < jheight(s),
{
    let ps = s->Obj_0;
    if arr_member(ps, "oneOf"@) == Some(arr) {
        lemma_jlookup_height(ps, "oneOf"@);
    } else {
        lemma_jlookup_height(ps, "anyOf"@);
    }
}

/// As `lemma_union_member_height`, for `allOf`.
pub proof fn lemma_all_member_height(s: JsonV, arr: Seq<JsonV>)
    requires
        s matches JsonV::Obj(ps) && arr_member(ps, "allOf"@) == Some(arr),
    ensures
        jheight(JsonV::Arr(arr)) < jheight(s),
{
    let ps = s->Obj_0;
    lemma_jlookup_height(ps, "allOf"@);
}

// ---------------------------------------------------------------------------
// Harvesting definitions
// ---------------------------------------------------------------------------

/// `defs` with `name` bound to `val`: an existing binding is replaced, a new
/// one is appended.
pub open spec fn upsert_def(
    defs: Seq<(Seq<char>, JsonV)>,
    name: Seq<char>,
    val: JsonV,
) -> Seq<(Seq<char>, JsonV)>
    decreases defs,
{
    if defs.len() == 0 {
        seq![(name, val)]
    } else if defs[0].0 == name {
        seq![(name, val)] + defs.drop_first()
    } else {
        seq![defs[0]] + upsert_def(defs.drop_first(), name, val)
    }
}

/// `defs` extended with every binding of `ps`, in order.
pub open spec fn harvest_into(
    defs: Seq<(Seq<char>, JsonV)>,
    ps: Seq<(Seq<char>, JsonV)>,
) -> Seq<(Seq<char>, JsonV)>
    decreases ps,
{
    if ps.len() == 0 {
        defs
    } else {
        harvest_into(upsert_def(defs, ps[0].0, ps[0].1), ps.drop_first())
    }
}

/// The definition table harvested from the top level of a document: the
/// members of its `$defs` block, then those of its `definitions` block.
pub open spec fn harvested_defs(s: JsonV) -> Seq<(Seq<char>, JsonV)> {
    match s {
        JsonV::Obj(ps) => {
            let after_defs = match jlookup(ps, "$defs"@) {
                Some(JsonV::Obj(dp)) => harvest_into(Seq::empty(), dp),
                _ => Seq::empty(),
            };
            match jlookup(ps, "definitions"@) {
                Some(JsonV::Obj(dp)) => harvest_into(after_defs, dp),
                _ => after_defs,
            }
        },
        _ => Seq::empty(),
    }
}

/// What converting a whole document yields: conversion of the document
/// against the table harvested from it.
pub open spec fn convert_spec(s: JsonV) -> Result<NodeV, ConvErrV> {
    spec_convert(harvested_defs(s), s)
}


// ---------------------------------------------------------------------------
// Executable helpers
// ---------------------------------------------------------------------------

/// An executable conversion result matches a mathematical one.
pub open spec fn convert_result_matches(
    spec_r: Result<NodeV, ConvErrV>,
    r: Result<SimplifiedSchema, ConversionError>,
) -> bool {
    match r {
        Ok(n) => spec_r == Ok::<NodeV, ConvErrV>(node_view(n)),
        Err(e) => spec_r == Err::<NodeV, ConvErrV>(err_view(e)),
    }
}

/// Reads the string member named `key`, cloned.
fn get_str_member(pairs: &Vec<(String, JsonValue)>, key: &str) -> (r: Option<String>)
    ensures
        match r {
            Some(s) => str_member(jview_pairs(pairs@), key@) == Some(s@),
            None => str_member(jview_pairs(pairs@), key@) is None,
        },
{
    match crate::json::obj_get(pairs, key) {
        Some(JsonValue::Str(s)) => Some(s.clone()),
        _ => None,
    }
}

/// Reads the array member named `key`.
fn get_arr_member<'a>(pairs: &'a Vec<(String, JsonValue)>, key: &str) -> (r: Option<
    &'a Vec<JsonValue>,
>)
    ensures
        match r {
            Some(a) => arr_member(jview_pairs(pairs@), key@) == Some(jview_list(a@)),
            None => arr_member(jview_pairs(pairs@), key@) is None,
        },
{
    match crate::json::obj_get(pairs, key) {
        Some(JsonValue::Array(a)) => Some(a),
        _ => None,
    }
}

/// Reads the boolean member named `key`.
fn get_bool_member(pairs: &Vec<(String, JsonValue)>, key: &str) -> (r: Option<bool>)
    ensures
        r == bool_member(jview_pairs(pairs@), key@),
{
    match crate::json::obj_get(pairs, key) {
        Some(JsonValue::Bool(b)) => Some(*b),
        _ => None,
    }
}

/// Reads the non-negative integer member named `key`, rendered in decimal.
fn get_count_member(pairs: &Vec<(String, JsonValue)>, key: &str) -> (r: Option<String>)
    ensures
        match r {
            Some(s) => count_member(jview_pairs(pairs@), key@) == Some(s@),
            None => count_member(jview_pairs(pairs@), key@) is None,
        },
{
    match crate::json::obj_get(pairs, key) {
        Some(JsonValue::Int(n)) => {
            if *n >= 0 {
                Some(crate::strings::u64_to_string(*n as u64))
            } else {
                None
            }
        },
        _ => None,
    }
}

/// Reads the integer member named `key`.
fn get_int_member(pairs: &Vec<(String, JsonValue)>, key: &str) -> (r: Option<i64>)
    ensures
        match r {
            Some(n) => int_member(jview_pairs(pairs@), key@) == Some(n as int),
            None => int_member(jview_pairs(pairs@), key@) is None,
        },
{
    match crate::json::obj_get(pairs, key) {
        Some(JsonValue::Int(n)) => Some(*n),
        _ => None,
    }
}

/// Whether the member name is `$`-prefixed.
fn is_dollar_key(key: &String) -> (r: bool)
    ensures
        r == dollar_key(key@),
{
    if key.as_str().unicode_len() > 0 {
        key.as_str().get_char(0) == '$'
    } else {
        false
    }
}

/// Removes `$`-prefixed members from a JSON value, at every depth.
fn clean_value(v: &JsonValue) -> (r: JsonValue)
    ensures
        jview(r) == jclean(jview(*v)),
    decreases jheight(jview(*v)), 1int,
{
    match v {
        JsonValue::Object(pairs) => JsonValue::Object(clean_members(pairs)),
        JsonValue::Array(items) => {
            let mut out: Vec<JsonValue> = Vec::new();
            let mut i: usize = 0;
            proof {
                assert(items@.subrange(0, 0) =~= Seq::<JsonValue>::empty());
                assert(jview_list(items@.subrange(0, 0)) =~= Seq::<JsonV>::empty());
                assert(jclean_list(jview_list(items@.subrange(0, 0))) =~= Seq::<JsonV>::empty());
            }
            while i < items.len()
                invariant
                    i <= items.len(),
                    jview(*v) == JsonV::Arr(jview_list(items@)),
                    jview_list(out@) =~= jclean_list(jview_list(items@.subrange(0, i as int))),
                decreases items.len() - i,
            {
                proof {
                    crate::json::lemma_jview_list_index(items@);
                    lemma_jheight_list_elem(jview_list(items@));
                    assert(jview_list(items@)[i as int] == jview(items@[i as int]));
                    assert(jheight(jview_list(items@)[i as int]) <= jheight_list(
                        jview_list(items@),
                    ));
                }
                let c = clean_value(&items[i]);
                let ghost out0 = out@;
                out.push(c);
                proof {
                    let pre = items@.subrange(0, i as int);
                    let post = items@.subrange(0, i + 1);
                    assert(out@ =~= out0 + seq![c]);
                    crate::json::lemma_jview_list_concat(out0, seq![c]);
                    crate::json::lemma_jview_list_index(seq![c]);
                    assert(jview_list(seq![c]) =~= seq![jview(c)]);
                    assert(post =~= pre + seq![items@[i as int]]);
                    crate::json::lemma_jview_list_concat(pre, seq![items@[i as int]]);
                    crate::json::lemma_jview_list_index(seq![items@[i as int]]);
                    assert(jview_list(seq![items@[i as int]]) =~= seq![jview(items@[i as int])]);
                    lemma_jclean_list_concat(jview_list(pre), seq![jview(items@[i as int])]);
                    let single = seq![jview(items@[i as int])];
                    assert(single.drop_first() =~= Seq::<JsonV>::empty());
                    assert(jclean_list(Seq::<JsonV>::empty()) =~= Seq::<JsonV>::empty());
                    assert(jclean_list(single) =~= seq![jclean(jview(items@[i as int]))]);
                    assert(jview_list(out@) =~= jclean_list(jview_list(pre)) + seq![
                        jclean(jview(items@[i as int])),
                    ]);
                }
                i = i + 1;
            }
            proof {
                assert(items@.subrange(0, items@.len() as int) =~= items@);
            }
            JsonValue::Array(out)
        },
        JsonValue::Null => JsonValue::Null,
        JsonValue::Bool(b) => JsonValue::Bool(*b),
        JsonValue::Int(n) => JsonValue::Int(*n),
        JsonValue::Str(s) => JsonValue::Str(s.clone()),
    }
}

/// Removes `$`-prefixed members from an object member list, cleaning each
/// kept value.
fn clean_members(pairs: &Vec<(String, JsonValue)>) -> (r: Vec<(String, JsonValue)>)
    ensures
        jview_pairs(r@) == jclean_pairs(jview_pairs(pairs@)),
    decreases jheight(JsonV::Obj(jview_pairs(pairs@))), 0int,
{
    let mut out: Vec<(String, JsonValue)> = Vec::new();
    let mut i: usize = 0;
    proof {
        assert(pairs@.subrange(0, 0) =~= Seq::<(String, JsonValue)>::empty());
        assert(jview_pairs(pairs@.subrange(0, 0)) =~= Seq::<(Seq<char>, JsonV)>::empty());
        assert(jclean_pairs(jview_pairs(pairs@.subrange(0, 0))) =~= Seq::<
            (Seq<char>, JsonV),
        >::empty());
    }
    while i < pairs.len()
        invariant
            i <= pairs.len(),
            jview_pairs(out@) =~= jclean_pairs(jview_pairs(pairs@.subrange(0, i as int))),
        decreases pairs.len() - i,
    {
        proof {
            crate::json::lemma_jview_pairs_index(pairs@);
            lemma_jheight_pairs_value(jview_pairs(pairs@));
            assert(jview_pairs(pairs@)[i as int] == (pairs@[i as int].0@, jview(
                pairs@[i as int].1,
            )));
            assert(jheight(jview_pairs(pairs@)[i as int].1) <= jheight_pairs(
                jview_pairs(pairs@),
            ));
        }
        let ghost pre = pairs@.subrange(0, i as int);
        let ghost cur = seq![(pairs@[i as int].0@, jview(pairs@[i as int].1))];
        let ghost out0 = out@;
        if !is_dollar_key(&pairs[i].0) {
            let key = pairs[i].0.clone();
            let val = clean_value(&pairs[i].1);
            out.push((key, val));
            proof {
                assert(out@ =~= out0 + seq![out@[out@.len() - 1]]);
                crate::json::lemma_jview_pairs_concat(out0, seq![out@[out@.len() - 1]]);
                crate::json::lemma_jview_pairs_index(seq![out@[out@.len() - 1]]);
                assert(jview_pairs(seq![out@[out@.len() - 1]]) =~= seq![
                    (pairs@[i as int].0@, jclean(jview(pairs@[i as int].1))),
                ]);
            }
        }
        proof {
            let post = pairs@.subrange(0, i + 1);
            assert(post =~= pre + seq![pairs@[i as int]]);
            crate::json::lemma_jview_pairs_concat(pre, seq![pairs@[i as int]]);
            crate::json::lemma_jview_pairs_index(seq![pairs@[i as int]]);
            assert(jview_pairs(seq![pairs@[i as int]]) =~= cur);
            lemma_jclean_pairs_concat(jview_pairs(pre), cur);
            assert(cur.drop_first() =~= Seq::<(Seq<char>, JsonV)>::empty());
            assert(jclean_pairs(Seq::<(Seq<char>, JsonV)>::empty()) =~= Seq::<
                (Seq<char>, JsonV),
            >::empty());
            if dollar_key(pairs@[i as int].0@) {
                assert(jclean_pairs(cur) =~= Seq::<(Seq<char>, JsonV)>::empty());
            } else {
                assert(jclean_pairs(cur) =~= seq![
                    (pairs@[i as int].0@, jclean(jview(pairs@[i as int].1))),
                ]);
            }
            assert(jview_pairs(out@) =~= jclean_pairs(jview_pairs(post)));
        }
        i = i + 1;
    }
    proof {
        assert(pairs@.subrange(0, pairs@.len() as int) =~= pairs@);
    }
    out
}

/// `jclean_list` distributes over concatenation.
pub proof fn lemma_jclean_list_concat(a: Seq<JsonV>, b: Seq<JsonV>)
    ensures
        jclean_list(a + b) == jclean_list(a) + jclean_list(b),
    decreases a,
{
    if a.len() == 0 {
        assert(a + b =~= b);
        assert(jclean_list(a) + jclean_list(b) =~= jclean_list(b));
    } else {
        lemma_jclean_list_concat(a.drop_first(), b);
        assert((a + b).drop_first() =~= a.drop_first() + b);
        assert(jclean_list(a + b) =~= jclean_list(a) + jclean_list(b));
    }
}

/// `jclean_pairs` distributes over concatenation.
pub proof fn lemma_jclean_pairs_concat(a: Seq<(Seq<char>, JsonV)>, b: Seq<(Seq<char>, JsonV)>)
    ensures
        jclean_pairs(a + b) == jclean_pairs(a) + jclean_pairs(b),
    decreases a,
{
    if a.len() == 0 {
        assert(a + b =~= b);
        assert(jclean_pairs(a) + jclean_pairs(b) =~= jclean_pairs(b));
    } else {
        lemma_jclean_pairs_concat(a.drop_first(), b);
        assert((a + b).drop_first() =~= a.drop_first() + b);
        assert(jclean_pairs(a + b) =~= jclean_pairs(a) + jclean_pairs(b));
    }
}


/// `non_null_types` distributes over concatenation.
pub proof fn lemma_non_null_types_concat(a: Seq<JsonV>, b: Seq<JsonV>)
    ensures
        non_null_types(a + b) == non_null_types(a) + non_null_types(b),
    decreases a,
{
    if a.len() == 0 {
        assert(a + b =~= b);
        assert(non_null_types(a) + non_null_types(b) =~= non_null_types(b));
    } else {
        lemma_non_null_types_concat(a.drop_first(), b);
        assert((a + b).drop_first() =~= a.drop_first() + b);
        assert(non_null_types(a + b) =~= non_null_types(a) + non_null_types(b));
    }
}

/// `string_values` distributes over concatenation.
pub proof fn lemma_string_values_concat(a: Seq<JsonV>, b: Seq<JsonV>)
    ensures
        string_values(a + b) == string_values(a) + string_values(b),
    decreases a,
{
    if a.len() == 0 {
        assert(a + b =~= b);
        assert(string_values(a) + string_values(b) =~= string_values(b));
    } else {
        lemma_string_values_concat(a.drop_first(), b);
        assert((a + b).drop_first() =~= a.drop_first() + b);
        assert(string_values(a + b) =~= string_values(a) + string_values(b));
    }
}

/// An executable type result matches a mathematical one.
pub open spec fn type_result_matches(
    spec_r: Result<SchemaType, ConvErrV>,
    r: Result<SchemaType, ConversionError>,
) -> bool {
    match r {
        Ok(t) => spec_r == Ok::<SchemaType, ConvErrV>(t),
        Err(e) => spec_r == Err::<SchemaType, ConvErrV>(err_view(e)),
    }
}

/// Maps an explicit `type` string to a schema type.
fn type_from_name(t: &String) -> (r: Result<SchemaType, ConversionError>)
    ensures
        type_result_matches(type_of_name(t@), r),
{
    if crate::strings::str_eq(t.as_str(), "string") {
        Ok(SchemaType::String)
    } else if crate::strings::str_eq(t.as_str(), "number") {
        Ok(SchemaType::Number)
    } else if crate::strings::str_eq(t.as_str(), "integer") {
        Ok(SchemaType::Integer)
    } else if crate::strings::str_eq(t.as_str(), "boolean") {
        Ok(SchemaType::Boolean)
    } else if crate::strings::str_eq(t.as_str(), "array") {
        Ok(SchemaType::Array)
    } else if crate::strings::str_eq(t.as_str(), "object") {
        Ok(SchemaType::Object)
    } else if crate::strings::str_eq(t.as_str(), "null") {
        Err(ConversionError::UnsupportedType("null type not directly supported".to_owned()))
    } else {
        Err(ConversionError::UnsupportedType(t.clone()))
    }
}

/// Maps the sole non-null entry of a `type` array to a schema type.
fn type_from_union_name(t: &String) -> (r: Result<SchemaType, ConversionError>)
    ensures
        type_result_matches(type_of_union_name(t@), r),
{
    if crate::strings::str_eq(t.as_str(), "string") {
        Ok(SchemaType::String)
    } else if crate::strings::str_eq(t.as_str(), "number") {
        Ok(SchemaType::Number)
    } else if crate::strings::str_eq(t.as_str(), "integer") {
        Ok(SchemaType::Integer)
    } else if crate::strings::str_eq(t.as_str(), "boolean") {
        Ok(SchemaType::Boolean)
    } else if crate::strings::str_eq(t.as_str(), "array") {
        Ok(SchemaType::Array)
    } else if crate::strings::str_eq(t.as_str(), "object") {
        Ok(SchemaType::Object)
    } else {
        Err(ConversionError::UnsupportedType(t.clone()))
    }
}

/// Determines the type of a cleaned schema object.
fn determine_type(cleaned: &Vec<(String, JsonValue)>) -> (r: Result<SchemaType, ConversionError>)
    ensures
        type_result_matches(dtype_spec(jview_pairs(cleaned@)), r),
{
    let ghost cl = jview_pairs(cleaned@);
    proof {
        crate::json::lemma_jview_pairs_index(cleaned@);
    }
    match crate::json::obj_get(cleaned, "type") {
        Some(JsonValue::Str(t)) => type_from_name(t),
        Some(JsonValue::Array(ts)) => {
            let mut nn: Vec<String> = Vec::new();
            let mut i: usize = 0;
            proof {
                assert(ts@.subrange(0, 0) =~= Seq::<JsonValue>::empty());
                assert(jview_list(ts@.subrange(0, 0)) =~= Seq::<JsonV>::empty());
                assert(non_null_types(jview_list(ts@.subrange(0, 0))) =~= Seq::<
                    Seq<char>,
                >::empty());
                assert(strs_view(nn@) =~= Seq::<Seq<char>>::empty());
            }
            while i < ts.len()
                invariant
                    i <= ts.len(),
                    strs_view(nn@) =~= non_null_types(jview_list(ts@.subrange(0, i as int))),
                decreases ts.len() - i,
            {
                let ghost pre = ts@.subrange(0, i as int);
                let ghost nn0 = nn@;
                match &ts[i] {
                    JsonValue::Str(sv) => {
                        if !crate::strings::str_eq(sv.as_str(), "null") {
                            nn.push(sv.clone());
                            proof {
                                assert(nn@ =~= nn0 + seq![nn@[nn@.len() - 1]]);
                                lemma_strs_view_concat(nn0, seq![nn@[nn@.len() - 1]]);
                                lemma_strs_view_index(seq![nn@[nn@.len() - 1]]);
                            }
                        }
                    },
                    _ => {},
                }
                proof {
                    let post = ts@.subrange(0, i + 1);
                    assert(post =~= pre + seq![ts@[i as int]]);
                    crate::json::lemma_jview_list_concat(pre, seq![ts@[i as int]]);
                    crate::json::lemma_jview_list_index(seq![ts@[i as int]]);
                    assert(jview_list(seq![ts@[i as int]]) =~= seq![jview(ts@[i as int])]);
                    lemma_non_null_types_concat(jview_list(pre), seq![jview(ts@[i as int])]);
                    let single = seq![jview(ts@[i as int])];
                    assert(single.drop_first() =~= Seq::<JsonV>::empty());
                    assert(non_null_types(Seq::<JsonV>::empty()) =~= Seq::<Seq<char>>::empty());
                    assert(strs_view(nn@) =~= non_null_types(jview_list(post)));
                }
                i = i + 1;
            }
            proof {
                assert(ts@.subrange(0, ts@.len() as int) =~= ts@);
                lemma_strs_view_index(nn@);
            }
            if nn.len() == 1 {
                type_from_union_name(&nn[0])
            } else {
                Err(
                    ConversionError::UnsupportedType(
                        "Multiple non-null types not supported".to_owned(),
                    ),
                )
            }
        },
        Some(_) => Err(ConversionError::InvalidSchema("Type must be string or array".to_owned())),
        None => {
            if crate::json::obj_get(cleaned, "properties").is_some() || crate::json::obj_get(
                cleaned,
                "additionalProperties",
            ).is_some() {
                Ok(SchemaType::Object)
            } else if crate::json::obj_get(cleaned, "items").is_some() {
                Ok(SchemaType::Array)
            } else if crate::json::obj_get(cleaned, "enum").is_some() {
                Ok(SchemaType::String)
            } else if cleaned.len() == 0 {
                Err(
                    ConversionError::InvalidSchema(
                        "Empty schema after cleaning - this might be a $ref-only schema that wasn't resolved".to_owned(),
                    ),
                )
            } else {
                Err(ConversionError::MissingField("type".to_owned()))
            }
        },
    }
}

/// `strs_view` distributes over concatenation.
pub proof fn lemma_strs_view_concat(a: Seq<String>, b: Seq<String>)
    ensures
        strs_view(a + b) == strs_view(a) + strs_view(b),
    decreases a,
{
    if a.len() == 0 {
        assert(a + b =~= b);
        assert(strs_view(a) + strs_view(b) =~= strs_view(b));
    } else {
        lemma_strs_view_concat(a.drop_first(), b);
        assert((a + b).drop_first() =~= a.drop_first() + b);
        assert(strs_view(a + b) =~= strs_view(a) + strs_view(b));
    }
}

/// A found position is in range, holds `c`, and is the first such at or
/// after the start.
pub proof fn lemma_find_from_bounds(s: Seq<char>, c: char, i: int)
    requires
        find_from(s, c, i) is Some,
    ensures
        i <= find_from(s, c, i)->Some_0 < s.len(),
        s[find_from(s, c, i)->Some_0] == c,
    decreases s.len() - i,
{
    if 0 <= i < s.len() && s[i] != c {
        lemma_find_from_bounds(s, c, i + 1);
    }
}

/// Finds the first position at or after `start` holding `c`.
fn find_char_from(s: &str, c: char, start: usize) -> (r: Option<usize>)
    ensures
        match r {
            Some(j) => find_from(s@, c, start as int) == Some(j as int),
            None => find_from(s@, c, start as int) is None,
        },
{
    let len = s.unicode_len();
    let mut i: usize = start;
    while i < len
        invariant
            len == s@.len(),
            start <= i,
            find_from(s@, c, start as int) == find_from(s@, c, i as int),
        decreases len - i,
    {
        if s.get_char(i) == c {
            return Some(i);
        }
        i = i + 1;
    }
    None
}

/// Extracts the definition name from a reference path of the form
/// `#/$defs/<name>` or `#/definitions/<name>`.
fn ref_definition_name(path: &str) -> (r: Option<String>)
    ensures
        match r {
            Some(name) => ref_target(path@) == Some(name@),
            None => ref_target(path@) is None,
        },
{
    let len = path.unicode_len();
    if len < 2 || path.get_char(0) != '#' || path.get_char(1) != '/' {
        return None;
    }
    match find_char_from(path, '/', 2) {
        None => None,
        Some(p2) => {
            proof {
                lemma_find_from_bounds(path@, '/', 2);
            }
            let seg = path.substring_char(2, p2);
            if crate::strings::str_eq(seg, "$defs") || crate::strings::str_eq(seg, "definitions") {
                match find_char_from(path, '/', p2 + 1) {
                    Some(p3) => {
                        proof {
                            lemma_find_from_bounds(path@, '/', p2 + 1);
                        }
                        Some(path.substring_char(p2 + 1, p3).to_owned())
                    },
                    None => Some(path.substring_char(p2 + 1, len).to_owned()),
                }
            } else {
                None
            }
        },
    }
}


/// Collects the character strings of a JSON array; `None` when an element is
/// not a string.
fn collect_string_values(vals: &Vec<JsonValue>) -> (r: Option<Vec<String>>)
    ensures
        match r {
            Some(v) => all_strings(jview_list(vals@)) && strs_view(v@) == string_values(
                jview_list(vals@),
            ),
            None => !all_strings(jview_list(vals@)),
        },
{
    proof {
        crate::json::lemma_jview_list_index(vals@);
    }
    let ghost arr = jview_list(vals@);
    let mut out: Vec<String> = Vec::new();
    let mut i: usize = 0;
    proof {
        assert(vals@.subrange(0, 0) =~= Seq::<JsonValue>::empty());
        assert(jview_list(vals@.subrange(0, 0)) =~= Seq::<JsonV>::empty());
        assert(string_values(jview_list(vals@.subrange(0, 0))) =~= Seq::<Seq<char>>::empty());
        assert(strs_view(out@) =~= Seq::<Seq<char>>::empty());
    }
    while i < vals.len()
        invariant
            i <= vals.len(),
            arr == jview_list(vals@),
            arr.len() == vals@.len(),
            forall|k: int| 0 <= k < vals@.len() ==> #[trigger] arr[k] == jview(vals@[k]),
            forall|k: int| 0 <= k < i ==> (#[trigger] arr[k]) matches JsonV::Str(_),
            strs_view(out@) =~= string_values(jview_list(vals@.subrange(0, i as int))),
        decreases vals.len() - i,
    {
        let ghost pre = vals@.subrange(0, i as int);
        let ghost out0 = out@;
        match &vals[i] {
            JsonValue::Str(sv) => {
                out.push(sv.clone());
                proof {
                    assert(out@ =~= out0 + seq![out@[out@.len() - 1]]);
                    lemma_strs_view_concat(out0, seq![out@[out@.len() - 1]]);
                    lemma_strs_view_index(seq![out@[out@.len() - 1]]);
                    let post = vals@.subrange(0, i + 1);
                    assert(post =~= pre + seq![vals@[i as int]]);
                    crate::json::lemma_jview_list_concat(pre, seq![vals@[i as int]]);
                    crate::json::lemma_jview_list_index(seq![vals@[i as int]]);
                    assert(jview_list(seq![vals@[i as int]]) =~= seq![jview(vals@[i as int])]);
                    lemma_string_values_concat(jview_list(pre), seq![jview(vals@[i as int])]);
                    let single = seq![jview(vals@[i as int])];
                    assert(single.drop_first() =~= Seq::<JsonV>::empty());
                    assert(string_values(Seq::<JsonV>::empty()) =~= Seq::<Seq<char>>::empty());
                    assert(strs_view(out@) =~= string_values(jview_list(post)));
                }
            },
            _ => {
                proof {
                    assert(!(arr[i as int] matches JsonV::Str(_)));
                }
                return None;
            },
        }
        i = i + 1;
    }
    proof {
        assert(vals@.subrange(0, vals@.len() as int) =~= vals@);
    }
    Some(out)
}

/// A node of type `t` with no other field populated.
fn empty_schema(t: SchemaType) -> (r: SimplifiedSchema)
    ensures
        node_view(r) == empty_node(t),
{
    SimplifiedSchema {
        schema_type: t,
        format: None,
        title: None,
        description: None,
        nullable: None,
        enum_values: None,
        max_items: None,
        min_items: None,
        properties: None,
        required: None,
        min_properties: None,
        max_properties: None,
        min_length: None,
        max_length: None,
        pattern: None,
        example: None,
        any_of: None,
        property_ordering: None,
        default: None,
        items: None,
        minimum: None,
        maximum: None,
    }
}

/// When every property converts, the property conversion succeeds with the
/// converted children in order.
pub proof fn lemma_spec_props_ok(
    defs: Seq<(Seq<char>, JsonV)>,
    pp: Seq<(Seq<char>, JsonV)>,
    children: Seq<(Seq<char>, NodeV)>,
)
    requires
        children.len() == pp.len(),
        forall|k: int|
            0 <= k < pp.len() ==> (#[trigger] children[k]).0 == pp[k].0 && spec_convert(
                defs,
                pp[k].1,
            ) == Ok::<NodeV, ConvErrV>(children[k].1),
    ensures
        spec_props(defs, pp) == Ok::<Seq<(Seq<char>, NodeV)>, ConvErrV>(children),
    decreases pp,
{
    if pp.len() == 0 {
        assert(children =~= Seq::<(Seq<char>, NodeV)>::empty());
    } else {
        lemma_spec_props_ok(defs, pp.drop_first(), children.drop_first());
        assert(children =~= seq![(pp[0].0, children[0].1)] + children.drop_first());
    }
}

/// The first failing property fails the property conversion with its error.
pub proof fn lemma_spec_props_err(
    defs: Seq<(Seq<char>, JsonV)>,
    pp: Seq<(Seq<char>, JsonV)>,
    i: int,
    e: ConvErrV,
)
    requires
        0 <= i < pp.len(),
        forall|k: int|
            0 <= k < i ==> (#[trigger] spec_convert(defs, pp[k].1)) matches Ok(_),
        spec_convert(defs, pp[i].1) == Err::<NodeV, ConvErrV>(e),
    ensures
        spec_props(defs, pp) == Err::<Seq<(Seq<char>, NodeV)>, ConvErrV>(e),
    decreases pp,
{
    if i > 0 {
        assert forall|k: int| 0 <= k < i - 1 implies (#[trigger] spec_convert(
            defs,
            pp.drop_first()[k].1,
        )) matches Ok(_) by {
            assert(pp.drop_first()[k] == pp[k + 1]);
            assert(spec_convert(defs, pp[k + 1].1) matches Ok(_));
        }
        assert(pp.drop_first()[i - 1] == pp[i as int]);
        lemma_spec_props_err(defs, pp.drop_first(), i - 1, e);
        assert(spec_convert(defs, pp[0].1) matches Ok(_));
    }
}

/// When the first match for `name` sits at position `j`, removal splices the
/// table around `j`.
pub proof fn lemma_remove_def_at(defs: Seq<(Seq<char>, JsonV)>, name: Seq<char>, j: int)
    requires
        0 <= j < defs.len(),
        forall|k: int| 0 <= k < j ==> (#[trigger] defs[k].0) != name,
        defs[j].0 == name,
    ensures
        remove_def(defs, name) == defs.subrange(0, j) + defs.subrange(j + 1, defs.len() as int),
    decreases defs,
{
    if j == 0 {
        assert(defs.subrange(0, 0) =~= Seq::<(Seq<char>, JsonV)>::empty());
        assert(remove_def(defs, name) =~= defs.subrange(0, 0) + defs.subrange(
            1,
            defs.len() as int,
        ));
    } else {
        lemma_remove_def_at(defs.drop_first(), name, j - 1);
        assert(defs.drop_first().subrange(0, j - 1) =~= defs.subrange(1, j));
        assert(defs.drop_first().subrange(j, defs.drop_first().len() as int) =~= defs.subrange(
            j + 1,
            defs.len() as int,
        ));
        assert(remove_def(defs, name) =~= defs.subrange(0, j) + defs.subrange(
            j + 1,
            defs.len() as int,
        ));
    }
}


/// `merged_enum_values` distributes over concatenation.
pub proof fn lemma_merged_enum_values_concat(a: Seq<JsonV>, b: Seq<JsonV>)
    ensures
        merged_enum_values(a + b) == merged_enum_values(a) + merged_enum_values(b),
    decreases a,
{
    if a.len() == 0 {
        assert(a + b =~= b);
        assert(merged_enum_values(a) + merged_enum_values(b) =~= merged_enum_values(b));
    } else {
        lemma_merged_enum_values_concat(a.drop_first(), b);
        assert((a + b).drop_first() =~= a.drop_first() + b);
        assert(merged_enum_values(a + b) =~= merged_enum_values(a) + merged_enum_values(b));
    }
}

/// Converts each property of an object schema, preserving member order.
fn convert_props(defs: &Vec<(String, JsonValue)>, pp: &Vec<(String, JsonValue)>) -> (r: Result<
    Vec<(String, SimplifiedSchema)>,
    ConversionError,
>)
    ensures
        match r {
            Ok(conv) => spec_props(jview_pairs(defs@), jview_pairs(pp@)) == Ok::<
                Seq<(Seq<char>, NodeV)>,
                ConvErrV,
            >(node_view_pairs(conv@)),
            Err(e) => spec_props(jview_pairs(defs@), jview_pairs(pp@)) == Err::<
                Seq<(Seq<char>, NodeV)>,
                ConvErrV,
            >(err_view(e)),
        },
    decreases defs@.len(), jheight(JsonV::Obj(jview_pairs(pp@))), 2int,
{
    let ghost dv = jview_pairs(defs@);
    let ghost ppv = jview_pairs(pp@);
    proof {
        crate::json::lemma_jview_pairs_index(pp@);
    }
    let mut out: Vec<(String, SimplifiedSchema)> = Vec::new();
    let mut k: usize = 0;
    while k < pp.len()
        invariant
            k <= pp.len(),
            dv == jview_pairs(defs@),
            ppv == jview_pairs(pp@),
            ppv.len() == pp@.len(),
            forall|j: int| 0 <= j < pp@.len() ==> #[trigger] ppv[j] == (pp@[j].0@, jview(pp@[j].1)),
            out@.len() == k,
            forall|j: int|
                0 <= j < k ==> (#[trigger] out@[j]).0@ == ppv[j].0 && spec_convert(dv, ppv[j].1)
                    == Ok::<NodeV, ConvErrV>(node_view(out@[j].1)),
        decreases pp.len() - k,
    {
        proof {
            lemma_jheight_pairs_value(ppv);
            assert(jheight(ppv[k as int].1) <= jheight_pairs(ppv));
        }
        match convert_value(defs, &pp[k].1) {
            Ok(child) => {
                let key = pp[k].0.clone();
                out.push((key, child));
            },
            Err(e) => {
                proof {
                    assert forall|j: int| 0 <= j < k implies (#[trigger] spec_convert(
                        dv,
                        ppv[j].1,
                    )) matches Ok(_) by {
                        assert(spec_convert(dv, ppv[j].1) == Ok::<NodeV, ConvErrV>(
                            node_view(out@[j].1),
                        ));
                    }
                    lemma_spec_props_err(dv, ppv, k as int, err_view(e));
                }
                return Err(e);
            },
        }
        k = k + 1;
    }
    proof {
        lemma_node_view_pairs_index(out@);
        assert forall|j: int| 0 <= j < ppv.len() implies (#[trigger] node_view_pairs(out@)[j]).0
            == ppv[j].0 && spec_convert(dv, ppv[j].1) == Ok::<NodeV, ConvErrV>(
            node_view_pairs(out@)[j].1,
        ) by {
            assert(node_view_pairs(out@)[j] == (out@[j].0@, node_view(out@[j].1)));
        }
        lemma_spec_props_ok(dv, ppv, node_view_pairs(out@));
    }
    Ok(out)
}

/// Flattens a `oneOf`/`anyOf` union: merges all-string-enum branches into
/// one enum node, otherwise converts the first branch.
fn flatten_one_of(
    defs: &Vec<(String, JsonValue)>,
    one_of: &Vec<JsonValue>,
    parent_obj: &Vec<(String, JsonValue)>,
    schema: &JsonValue,
) -> (r: Result<SimplifiedSchema, ConversionError>)
    requires
        jview(*schema) == JsonV::Obj(jview_pairs(parent_obj@)),
        arr_member(jview_pairs(parent_obj@), "oneOf"@) == Some(jview_list(one_of@)) || arr_member(
            jview_pairs(parent_obj@),
            "anyOf"@,
        ) == Some(jview_list(one_of@)),
    ensures
        convert_result_matches(
            spec_flatten_union(
                jview_pairs(defs@),
                jview_list(one_of@),
                jview_pairs(parent_obj@),
                jview(*schema),
            ),
            r,
        ),
    decreases defs@.len(), jheight(jview(*schema)), 2int,
{
    let ghost arr = jview_list(one_of@);
    proof {
        crate::json::lemma_jview_list_index(one_of@);
    }
    if one_of.len() == 0 {
        return Err(ConversionError::InvalidSchema("Empty oneOf array".to_owned()));
    }
    let mut all_ok = true;
    let mut merged: Vec<String> = Vec::new();
    let mut i: usize = 0;
    proof {
        assert(one_of@.subrange(0, 0) =~= Seq::<JsonValue>::empty());
        assert(jview_list(one_of@.subrange(0, 0)) =~= Seq::<JsonV>::empty());
        assert(merged_enum_values(jview_list(one_of@.subrange(0, 0))) =~= Seq::<
            Seq<char>,
        >::empty());
        assert(strs_view(merged@) =~= Seq::<Seq<char>>::empty());
    }
    while i < one_of.len()
        invariant
            i <= one_of.len(),
            arr == jview_list(one_of@),
            arr.len() == one_of@.len(),
            forall|k: int| 0 <= k < one_of@.len() ==> #[trigger] arr[k] == jview(one_of@[k]),
            all_ok ==> forall|k: int| 0 <= k < i ==> is_string_enum_branch(#[trigger] arr[k]),
            all_ok ==> strs_view(merged@) =~= merged_enum_values(
                jview_list(one_of@.subrange(0, i as int)),
            ),
            !all_ok ==> !all_string_enum_branches(arr),
        decreases one_of.len() - i,
    {
        if all_ok {
            let ghost pre = one_of@.subrange(0, i as int);
            let mut branch_ok = false;
            match &one_of[i] {
                JsonValue::Object(bp) => {
                    let is_string_type = match get_str_member(bp, "type") {
                        Some(t) => crate::strings::str_eq(t.as_str(), "string"),
                        None => false,
                    };
                    if is_string_type {
                        match get_arr_member(bp, "enum") {
                            Some(vals) => {
                                match collect_string_values(vals) {
                                    Some(vs) => {
                                        branch_ok = true;
                                        proof {
                                            assert(arr[i as int] == JsonV::Obj(jview_pairs(bp@)));
                                            assert(is_string_enum_branch(arr[i as int]));
                                            assert(branch_enum_values(arr[i as int])
                                                == string_values(jview_list(vals@)));
                                        }
                                        let mut j: usize = 0;
                                        let ghost vsv = vs@;
                                        while j < vs.len()
                                            invariant
                                                j <= vs@.len(),
                                                vs@ == vsv,
                                                strs_view(merged@) =~= merged_enum_values(
                                                    jview_list(pre),
                                                ) + strs_view(vsv.subrange(0, j as int)),
                                            decreases vs.len() - j,
                                        {
                                            let ghost m0 = merged@;
                                            merged.push(vs[j].clone());
                                            proof {
                                                assert(merged@ =~= m0 + seq![
                                                    merged@[merged@.len() - 1],
                                                ]);
                                                lemma_strs_view_concat(m0, seq![
                                                    merged@[merged@.len() - 1],
                                                ]);
                                                lemma_strs_view_index(seq![
                                                    merged@[merged@.len() - 1],
                                                ]);
                                                lemma_strs_view_index(vsv.subrange(0, j + 1));
                                                lemma_strs_view_index(vsv.subrange(0, j as int));
                                                assert(strs_view(vsv.subrange(0, j + 1)) =~= strs_view(
                                                    vsv.subrange(0, j as int),
                                                ) + seq![vsv[j as int]@]);
                                            }
                                            j = j + 1;
                                        }
                                        proof {
                                            assert(vsv.subrange(0, vsv.len() as int) =~= vsv);
                                            lemma_strs_view_index(vsv);
                                        }
                                    },
                                    None => {},
                                }
                            },
                            None => {},
                        }
                    }
                    proof {
                        assert(arr[i as int] == JsonV::Obj(jview_pairs(bp@)));
                    }
                },
                _ => {},
            }
            proof {
                if !branch_ok {
                    assert(!is_string_enum_branch(arr[i as int]));
                }
            }
            if !branch_ok {
                all_ok = false;
            } else {
                proof {
                    let post = one_of@.subrange(0, i + 1);
                    assert(post =~= pre + seq![one_of@[i as int]]);
                    crate::json::lemma_jview_list_concat(pre, seq![one_of@[i as int]]);
                    crate::json::lemma_jview_list_index(seq![one_of@[i as int]]);
                    assert(jview_list(seq![one_of@[i as int]]) =~= seq![
                        jview(one_of@[i as int]),
                    ]);
                    lemma_merged_enum_values_concat(jview_list(pre), seq![
                        jview(one_of@[i as int]),
                    ]);
                    let single = seq![jview(one_of@[i as int])];
                    assert(single.drop_first() =~= Seq::<JsonV>::empty());
                    assert(merged_enum_values(Seq::<JsonV>::empty()) =~= Seq::<
                        Seq<char>,
                    >::empty());
                    assert(merged_enum_values(single) =~= branch_enum_values(
                        jview(one_of@[i as int]),
                    ));
                    assert(strs_view(merged@) =~= merged_enum_values(jview_list(post)));
                }
            }
        }
        i = i + 1;
    }
    proof {
        assert(one_of@.subrange(0, one_of@.len() as int) =~= one_of@);
        if all_ok {
            lemma_strs_view_index(merged@);
        }
    }
    if all_ok && merged.len() > 0 {
        let mut node = empty_schema(SchemaType::String);
        node.format = Some("enum".to_owned());
        node.enum_values = Some(merged);
        node.description = get_str_member(parent_obj, "description");
        proof {
            assert(node_view(node) == enum_union_node(arr, jview_pairs(parent_obj@)));
        }
        Ok(node)
    } else {
        proof {
            lemma_union_member_height(jview(*schema), arr);
            lemma_jheight_list_elem(arr);
            assert(jheight(arr[0]) <= jheight_list(arr));
            assert(arr[0] == jview(one_of@[0]));
        }
        convert_value(defs, &one_of[0])
    }
}

/// Flattens an `allOf`: a single entry converts directly; otherwise the
/// first entry without a `$ref`, or the first entry outright.
#[verifier::loop_isolation(false)]
fn flatten_all_of(
    defs: &Vec<(String, JsonValue)>,
    all_of: &Vec<JsonValue>,
    schema: &JsonValue,
) -> (r: Result<SimplifiedSchema, ConversionError>)
    requires
        jview(*schema) matches JsonV::Obj(ps) && arr_member(ps, "allOf"@) == Some(
            jview_list(all_of@),
        ),
    ensures
        convert_result_matches(
            spec_flatten_all(jview_pairs(defs@), jview_list(all_of@), jview(*schema)),
            r,
        ),
    decreases defs@.len(), jheight(jview(*schema)), 2int,
{
    let ghost arr = jview_list(all_of@);
    proof {
        crate::json::lemma_jview_list_index(all_of@);
    }
    if all_of.len() == 0 {
        return Err(ConversionError::InvalidSchema("Empty allOf array".to_owned()));
    }
    proof {
        lemma_all_member_height(jview(*schema), arr);
        lemma_jheight_list_elem(arr);
    }
    if all_of.len() == 1 {
        proof {
            assert(arr[0] == jview(all_of@[0int]));
        }
        return convert_value(defs, &all_of[0]);
    }
    let mut i: usize = 0;
    while i < all_of.len()
        invariant
            i <= all_of.len(),
            arr == jview_list(all_of@),
            arr.len() == all_of@.len(),
            forall|k: int| 0 <= k < all_of@.len() ==> #[trigger] arr[k] == jview(all_of@[k]),
            first_non_ref(arr, 0) == first_non_ref(arr, i as int),
        decreases all_of.len() - i,
    {
        let non_ref = match &all_of[i] {
            JsonValue::Object(bp) => crate::json::obj_get(bp, "$ref").is_none(),
            _ => false,
        };
        if non_ref {
            proof {
                lemma_first_non_ref_bound(arr, 0);
                assert(arr[i as int] == jview(all_of@[i as int]));
            }
            return convert_value(defs, &all_of[i]);
        }
        i = i + 1;
    }
    proof {
        assert(first_non_ref(arr, 0) is None);
        assert(arr[0] == jview(all_of@[0int]));
    }
    convert_value(defs, &all_of[0])
}


/// Converts a schema fragment against a definition table.
#[verifier::rlimit(100)]
#[verifier::loop_isolation(false)]
fn convert_value(defs: &Vec<(String, JsonValue)>, schema: &JsonValue) -> (r: Result<
    SimplifiedSchema,
    ConversionError,
>)
    ensures
        convert_result_matches(spec_convert(jview_pairs(defs@), jview(*schema)), r),
    decreases defs@.len(), jheight(jview(*schema)), 3int,
{
    let ghost dv = jview_pairs(defs@);
    match schema {
        JsonValue::Object(pairs) => {
            let ghost ps = jview_pairs(pairs@);
            proof {
                assert(jview(*schema) == JsonV::Obj(ps));
            }
            if let Some(JsonValue::Str(path)) = crate::json::obj_get(pairs, "$ref") {
                proof {
                    assert(str_member(ps, "$ref"@) == Some(path@));
                }
                match ref_definition_name(path.as_str()) {
                    Some(name) => {
                        proof {
                            crate::json::lemma_jview_pairs_index(defs@);
                        }
                        let mut j: usize = 0;
                        while j < defs.len()
                            invariant
                                j <= defs.len(),
                                dv == jview_pairs(defs@),
                                dv.len() == defs@.len(),
                                forall|k: int|
                                    0 <= k < defs@.len() ==> #[trigger] dv[k] == (
                                    defs@[k].0@,
                                    jview(defs@[k].1),
                                    ),
                                forall|k: int| 0 <= k < j ==> (#[trigger] dv[k].0) != name@,
                            decreases defs.len() - j,
                        {
                            if crate::strings::str_eq(defs[j].0.as_str(), name.as_str()) {
                                proof {
                                    crate::json::lemma_jlookup_at(dv, name@, j as int);
                                    lemma_remove_def_at(dv, name@, j as int);
                                }
                                let mut rest: Vec<(String, JsonValue)> = Vec::new();
                                let mut k: usize = 0;
                                proof {
                                    assert(jview_pairs(rest@) =~= Seq::<
                                        (Seq<char>, JsonV),
                                    >::empty());
                                    assert(dv.subrange(0, 0) =~= Seq::<(Seq<char>, JsonV)>::empty());
                                }
                                while k < defs.len()
                                    invariant
                                        k <= defs.len(),
                                        j < defs.len(),
                                        dv == jview_pairs(defs@),
                                        dv.len() == defs@.len(),
                                        forall|m: int|
                                            0 <= m < defs@.len() ==> #[trigger] dv[m] == (
                                            defs@[m].0@,
                                            jview(defs@[m].1),
                                            ),
                                        k <= j ==> jview_pairs(rest@) =~= dv.subrange(0, k as int),
                                        k > j ==> jview_pairs(rest@) =~= dv.subrange(0, j as int)
                                            + dv.subrange(j + 1, k as int),
                                    decreases defs.len() - k,
                                {
                                    let ghost r0 = rest@;
                                    if k != j {
                                        let key = defs[k].0.clone();
                                        let val = defs[k].1.clone();
                                        rest.push((key, val));
                                        proof {
                                            assert(rest@ =~= r0 + seq![rest@[rest@.len() - 1]]);
                                            crate::json::lemma_jview_pairs_concat(r0, seq![
                                                rest@[rest@.len() - 1],
                                            ]);
                                            crate::json::lemma_jview_pairs_index(seq![
                                                rest@[rest@.len() - 1],
                                            ]);
                                            assert(jview_pairs(seq![rest@[rest@.len() - 1]])
                                                =~= seq![dv[k as int]]);
                                            if k < j {
                                                assert(dv.subrange(0, k + 1) =~= dv.subrange(
                                                    0,
                                                    k as int,
                                                ) + seq![dv[k as int]]);
                                            } else {
                                                assert(dv.subrange(j + 1, k + 1) =~= dv.subrange(
                                                    j + 1,
                                                    k as int,
                                                ) + seq![dv[k as int]]);
                                            }
                                        }
                                    } else {
                                        proof {
                                            assert(dv.subrange(0, j as int) + dv.subrange(
                                                j + 1,
                                                j + 1,
                                            ) =~= dv.subrange(0, j as int));
                                        }
                                    }
                                    k = k + 1;
                                }
                                proof {
                                    assert(jview_pairs(rest@) =~= dv.subrange(0, j as int)
                                        + dv.subrange(j + 1, dv.len() as int));
                                    assert(jview_pairs(rest@) =~= remove_def(dv, name@));
                                    crate::json::lemma_jview_pairs_index(rest@);
                                    lemma_remove_def_len(dv, name@);
                                    assert(jview(defs@[j as int].1) == jlookup(
                                        dv,
                                        name@,
                                    )->Some_0);
                                }
                                let frag = defs[j].1.clone();
                                return convert_value(&rest, &frag);
                            }
                            j = j + 1;
                        }
                        proof {
                            crate::json::lemma_jlookup_none(dv, name@);
                        }
                        let mut msg = "Could not resolve reference: ".to_owned();
                        msg.append(path.as_str());
                        return Err(ConversionError::RefResolutionError(msg));
                    },
                    None => {
                        let mut msg = "Could not resolve reference: ".to_owned();
                        msg.append(path.as_str());
                        return Err(ConversionError::RefResolutionError(msg));
                    },
                }
            }
            proof {
                assert(str_member(ps, "$ref"@) is None);
            }
            if let Some(arr) = get_arr_member(pairs, "oneOf") {
                return flatten_one_of(defs, arr, pairs, schema);
            }
            if let Some(arr) = get_arr_member(pairs, "allOf") {
                return flatten_all_of(defs, arr, schema);
            }
            if let Some(arr) = get_arr_member(pairs, "anyOf") {
                return flatten_one_of(defs, arr, pairs, schema);
            }
            let cleaned = clean_members(pairs);
            let ghost cl = jclean_pairs(ps);
            let t = match determine_type(&cleaned) {
                Ok(t) => t,
                Err(e) => {
                    proof {
                        assert(jview_pairs(cleaned@) == cl);
                        assert(dtype_spec(cl) == Err::<SchemaType, ConvErrV>(err_view(e)));
                        assert(spec_plain(dv, ps, jview(*schema)) == Err::<NodeV, ConvErrV>(
                            err_view(e),
                        ));
                        assert(spec_convert(dv, jview(*schema)) == spec_plain(
                            dv,
                            ps,
                            jview(*schema),
                        ));
                    }
                    return Err(e);
                },
            };
            let mut node = empty_schema(t);
            node.title = get_str_member(&cleaned, "title");
            node.description = get_str_member(&cleaned, "description");
            node.example = match crate::json::obj_get(&cleaned, "example") {
                Some(v) => Some(v.clone()),
                None => None,
            };
            node.default = match crate::json::obj_get(&cleaned, "default") {
                Some(v) => Some(v.clone()),
                None => None,
            };
            node.nullable = get_bool_member(&cleaned, "nullable");
            proof {
                assert(node_view(node) == base_node(t, cl));
            }
            if matches!(t, SchemaType::String) {
                node.format = match get_str_member(&cleaned, "format") {
                    Some(f) => {
                        if crate::strings::str_eq(f.as_str(), "date-time")
                            || crate::strings::str_eq(f.as_str(), "enum") {
                            Some(f)
                        } else {
                            None
                        }
                    },
                    None => None,
                };
                node.min_length = get_count_member(&cleaned, "minLength");
                node.max_length = get_count_member(&cleaned, "maxLength");
                node.pattern = get_str_member(&cleaned, "pattern");
                match get_arr_member(&cleaned, "enum") {
                    Some(vals) => match collect_string_values(vals) {
                        Some(vs) => {
                            node.format = Some("enum".to_owned());
                            node.enum_values = Some(vs);
                            Ok(node)
                        },
                        None => Err(
                            ConversionError::InvalidSchema("Enum values must be strings".to_owned()),
                        ),
                    },
                    None => Ok(node),
                }
            } else if matches!(t, SchemaType::Number) || matches!(t, SchemaType::Integer) {
                node.format = match get_str_member(&cleaned, "format") {
                    Some(f) => {
                        if (crate::strings::str_eq(f.as_str(), "float") || crate::strings::str_eq(
                            f.as_str(),
                            "double",
                        )) && matches!(t, SchemaType::Number) {
                            Some(f)
                        } else if (crate::strings::str_eq(f.as_str(), "int32")
                            || crate::strings::str_eq(f.as_str(), "int64")) && matches!(
                            t,
                            SchemaType::Integer,
                        ) {
                            Some(f)
                        } else {
                            None
                        }
                    },
                    None => None,
                };
                node.minimum = get_int_member(&cleaned, "minimum");
                node.maximum = get_int_member(&cleaned, "maximum");
                Ok(node)
            } else if matches!(t, SchemaType::Array) {
                match crate::json::obj_get(pairs, "items") {
                    Some(item) => {
                        proof {
                            lemma_jlookup_height(ps, "items"@);
                        }
                        match convert_value(defs, item) {
                            Ok(child) => {
                                node.items = Some(Box::new(child));
                                node.min_items = get_count_member(pairs, "minItems");
                                node.max_items = get_count_member(pairs, "maxItems");
                                Ok(node)
                            },
                            Err(e) => Err(e),
                        }
                    },
                    None => {
                        node.min_items = get_count_member(pairs, "minItems");
                        node.max_items = get_count_member(pairs, "maxItems");
                        Ok(node)
                    },
                }
            } else if matches!(t, SchemaType::Object) {
                match crate::json::obj_get(pairs, "properties") {
                    Some(JsonValue::Object(pp)) => {
                        proof {
                            lemma_jlookup_height(ps, "properties"@);
                        }
                        match convert_props(defs, pp) {
                            Ok(conv) => {
                                node.properties = Some(conv);
                            },
                            Err(e) => {
                                return Err(e);
                            },
                        }
                    },
                    _ => {},
                }
                match get_arr_member(pairs, "required") {
                    Some(vals) => match collect_string_values(vals) {
                        Some(vs) => {
                            node.required = Some(vs);
                        },
                        None => {
                            return Err(
                                ConversionError::InvalidSchema(
                                    "Required field names must be strings".to_owned(),
                                ),
                            );
                        },
                    },
                    None => {},
                }
                node.min_properties = get_count_member(pairs, "minProperties");
                node.max_properties = get_count_member(pairs, "maxProperties");
                Ok(node)
            } else {
                Ok(node)
            }
        },
        _ => Err(ConversionError::InvalidSchema("Schema must be an object".to_owned())),
    }
}


/// When the first binding for `name` sits at `j`, upserting replaces it in
/// place.
pub proof fn lemma_upsert_def_at(
    defs: Seq<(Seq<char>, JsonV)>,
    name: Seq<char>,
    val: JsonV,
    j: int,
)
    requires
        0 <= j < defs.len(),
        forall|k: int| 0 <= k < j ==> (#[trigger] defs[k].0) != name,
        defs[j].0 == name,
    ensures
        upsert_def(defs, name, val) == defs.update(j, (name, val)),
    decreases defs,
{
    if j == 0 {
        assert(upsert_def(defs, name, val) =~= defs.update(0, (name, val)));
    } else {
        lemma_upsert_def_at(defs.drop_first(), name, val, j - 1);
        assert(defs.drop_first().update(j - 1, (name, val)) =~= defs.update(
            j,
            (name, val),
        ).drop_first());
        assert(upsert_def(defs, name, val) =~= defs.update(j, (name, val)));
    }
}

/// When no binding for `name` exists, upserting appends.
pub proof fn lemma_upsert_def_none(defs: Seq<(Seq<char>, JsonV)>, name: Seq<char>, val: JsonV)
    requires
        forall|k: int| 0 <= k < defs.len() ==> (#[trigger] defs[k].0) != name,
    ensures
        upsert_def(defs, name, val) == defs + seq![(name, val)],
    decreases defs,
{
    if defs.len() == 0 {
        assert(upsert_def(defs, name, val) =~= defs + seq![(name, val)]);
    } else {
        lemma_upsert_def_none(defs.drop_first(), name, val);
        assert(defs.drop_first() + seq![(name, val)] =~= (defs + seq![(name, val)]).drop_first());
        assert(upsert_def(defs, name, val) =~= defs + seq![(name, val)]);
    }
}

/// Harvesting a concatenation harvests the parts in order.
pub proof fn lemma_harvest_into_concat(
    d: Seq<(Seq<char>, JsonV)>,
    a: Seq<(Seq<char>, JsonV)>,
    b: Seq<(Seq<char>, JsonV)>,
)
    ensures
        harvest_into(d, a + b) == harvest_into(harvest_into(d, a), b),
    decreases a,
{
    if a.len() == 0 {
        assert(a + b =~= b);
    } else {
        lemma_harvest_into_concat(upsert_def(d, a[0].0, a[0].1), a.drop_first(), b);
        assert((a + b).drop_first() =~= a.drop_first() + b);
    }
}

/// Binds `name` to `val` in the definition table: replaces the first
/// existing binding, or appends a new one.
#[verifier::loop_isolation(false)]
fn upsert_entry(defs: &mut Vec<(String, JsonValue)>, name: &String, val: &JsonValue)
    ensures
        jview_pairs(final(defs)@) == upsert_def(jview_pairs(old(defs)@), name@, jview(*val)),
{
    let ghost dv = jview_pairs(defs@);
    proof {
        crate::json::lemma_jview_pairs_index(defs@);
    }
    let mut j: usize = 0;
    while j < defs.len()
        invariant
            j <= defs.len(),
            defs@ == old(defs)@,
            forall|k: int| 0 <= k < j ==> (#[trigger] dv[k].0) != name@,
        decreases defs.len() - j,
    {
        if crate::strings::str_eq(defs[j].0.as_str(), name.as_str()) {
            proof {
                lemma_upsert_def_at(dv, name@, jview(*val), j as int);
            }
            let _ = defs.remove(j);
            defs.insert(j, (name.clone(), val.clone()));
            proof {
                crate::json::lemma_jview_pairs_index(defs@);
                assert(defs@ =~= old(defs)@.update(j as int, (defs@[j as int].0, defs@[
                    j as int
                ].1)));
                assert forall|k: int| 0 <= k < defs@.len() implies #[trigger] jview_pairs(defs@)[k]
                    == upsert_def(dv, name@, jview(*val))[k] by {
                    crate::json::lemma_jview_pairs_index(old(defs)@);
                }
                assert(jview_pairs(defs@) =~= upsert_def(dv, name@, jview(*val)));
            }
            return;
        }
        j = j + 1;
    }
    proof {
        lemma_upsert_def_none(dv, name@, jview(*val));
    }
    let ghost d0 = defs@;
    defs.push((name.clone(), val.clone()));
    proof {
        assert(defs@ =~= d0 + seq![defs@[defs@.len() - 1]]);
        crate::json::lemma_jview_pairs_concat(d0, seq![defs@[defs@.len() - 1]]);
        crate::json::lemma_jview_pairs_index(seq![defs@[defs@.len() - 1]]);
        assert(jview_pairs(seq![defs@[defs@.len() - 1]]) =~= seq![(name@, jview(*val))]);
        assert(jview_pairs(defs@) =~= upsert_def(dv, name@, jview(*val)));
    }
}

/// Converts JSON Schema documents into the restricted dialect.
pub struct JsonSchemaConverter {
    definitions: Vec<(String, JsonValue)>,
}

impl JsonSchemaConverter {
    /// The mathematical form of the definition table.
    pub closed spec fn defs_view(&self) -> Seq<(Seq<char>, JsonV)> {
        jview_pairs(self.definitions@)
    }

    /// A converter with an empty definition table.
    pub fn new() -> (r: Self)
        ensures
            r.defs_view() == Seq::<(Seq<char>, JsonV)>::empty(),
    {
        let r = JsonSchemaConverter { definitions: Vec::new() };
        proof {
            assert(jview_pairs(r.definitions@) =~= Seq::<(Seq<char>, JsonV)>::empty());
        }
        r
    }

    /// Harvests the `$defs` and `definitions` blocks of the document's top
    /// level into the definition table.
    #[verifier::loop_isolation(false)]
    fn extract_definitions(&mut self, schema: &JsonValue)
        requires
            jview_pairs(old(self).definitions@) == Seq::<(Seq<char>, JsonV)>::empty(),
        ensures
            jview_pairs(final(self).definitions@) == harvested_defs(jview(*schema)),
    {
        match schema {
            JsonValue::Object(pairs) => {
                let ghost ps = jview_pairs(pairs@);
                proof {
                    assert(jview(*schema) == JsonV::Obj(ps));
                }
                if let Some(JsonValue::Object(dp)) = crate::json::obj_get(pairs, "$defs") {
                    self.harvest_block(dp);
                }
                if let Some(JsonValue::Object(dp)) = crate::json::obj_get(pairs, "definitions") {
                    self.harvest_block(dp);
                }
            },
            _ => {},
        }
    }

    /// Upserts every member of one definition block, in order.
    #[verifier::loop_isolation(false)]
    fn harvest_block(&mut self, dp: &Vec<(String, JsonValue)>)
        ensures
            jview_pairs(final(self).definitions@) == harvest_into(
                jview_pairs(old(self).definitions@),
                jview_pairs(dp@),
            ),
    {
        let ghost start = jview_pairs(self.definitions@);
        let ghost dpv = jview_pairs(dp@);
        proof {
            crate::json::lemma_jview_pairs_index(dp@);
        }
        let mut i: usize = 0;
        proof {
            assert(dpv.subrange(0, 0) =~= Seq::<(Seq<char>, JsonV)>::empty());
        }
        while i < dp.len()
            invariant
                i <= dp.len(),
                jview_pairs(self.definitions@) == harvest_into(start, dpv.subrange(0, i as int)),
            decreases dp.len() - i,
        {
            upsert_entry(&mut self.definitions, &dp[i].0, &dp[i].1);
            proof {
                let pre = dpv.subrange(0, i as int);
                let post = dpv.subrange(0, i + 1);
                assert(post =~= pre + seq![dpv[i as int]]);
                lemma_harvest_into_concat(start, pre, seq![dpv[i as int]]);
                let single = seq![dpv[i as int]];
                assert(single.drop_first() =~= Seq::<(Seq<char>, JsonV)>::empty());
                assert(harvest_into(
                    upsert_def(harvest_into(start, pre), dpv[i as int].0, dpv[i as int].1),
                    Seq::<(Seq<char>, JsonV)>::empty(),
                ) == upsert_def(harvest_into(start, pre), dpv[i as int].0, dpv[i as int].1));
                assert(dpv[i as int] == (dp@[i as int].0@, jview(dp@[i as int].1)));
            }
            i = i + 1;
        }
        proof {
            assert(dpv.subrange(0, dpv.len() as int) =~= dpv);
        }
    }

    /// Converts a JSON Schema document into a simplified schema node, or
    /// reports why it cannot be.
    pub fn convert(json_schema: &JsonValue) -> (r: Result<SimplifiedSchema, ConversionError>)
        ensures
            convert_result_matches(convert_spec(jview(*json_schema)), r),
    {
        let mut converter = JsonSchemaConverter::new();
        converter.extract_definitions(json_schema);
        convert_value(&converter.definitions, json_schema)
    }

    /// Counts the documented lossy fallbacks converting this document takes:
    /// the unions that collapse to a single branch. Callers that need the
    /// loss traceable report this beside the conversion result.
    pub fn collapsed_unions(json_schema: &JsonValue) -> (r: u64)
        ensures
            r == spec_collapsed(harvested_defs(jview(*json_schema)), jview(*json_schema)),
    {
        let mut converter = JsonSchemaConverter::new();
        converter.extract_definitions(json_schema);
        count_collapsed(&converter.definitions, json_schema)
    }
}


// ---------------------------------------------------------------------------
// Stated properties of the conversion
// ---------------------------------------------------------------------------

/// A successful property conversion converts each property in place.
pub proof fn lemma_spec_props_pointwise(defs: Seq<(Seq<char>, JsonV)>, pp: Seq<(Seq<char>, JsonV)>)
    requires
        spec_props(defs, pp) is Ok,
    ensures
        spec_props(defs, pp)->Ok_0.len() == pp.len(),
        forall|i: int|
            0 <= i < pp.len() ==> (#[trigger] spec_props(defs, pp)->Ok_0[i]).0 == pp[i].0
                && spec_convert(defs, pp[i].1) == Ok::<NodeV, ConvErrV>(
                spec_props(defs, pp)->Ok_0[i].1,
            ),
    decreases pp,
{
    if pp.len() > 0 {
        lemma_spec_props_pointwise(defs, pp.drop_first());
        let cs = spec_props(defs, pp)->Ok_0;
        let cs1 = spec_props(defs, pp.drop_first())->Ok_0;
        assert(cs =~= seq![(pp[0].0, spec_convert(defs, pp[0].1)->Ok_0)] + cs1);
        assert forall|i: int| 0 <= i < pp.len() implies (#[trigger] cs[i]).0 == pp[i].0
            && spec_convert(defs, pp[i].1) == Ok::<NodeV, ConvErrV>(cs[i].1) by {
            if i > 0 {
                assert(cs[i] == cs1[i - 1]);
                assert(pp.drop_first()[i - 1] == pp[i]);
            }
        }
    }
}

/// Converting an object that is a reference converts what the reference
/// resolves to, against the table without the used definition.
///
/// With `lemma_plain_object_projection` this states the reference round
/// trip: the node obtained through a `$ref` is the node of the referenced
/// fragment itself.
pub proof fn lemma_ref_resolution(
    defs: Seq<(Seq<char>, JsonV)>,
    ps: Seq<(Seq<char>, JsonV)>,
    path: Seq<char>,
    name: Seq<char>,
)
    requires
        str_member(ps, "$ref"@) == Some(path),
        ref_target(path) == Some(name),
        jlookup(defs, name) is Some,
    ensures
        spec_convert(defs, JsonV::Obj(ps)) == spec_convert(
            remove_def(defs, name),
            jlookup(defs, name)->Some_0,
        ),
{
}

/// Converting a plain object schema yields an `Object` node whose
/// properties are the converted properties, member for member and in order,
/// and whose `required` list is exactly the schema's `required` list.
pub proof fn lemma_plain_object_projection(defs: Seq<(Seq<char>, JsonV)>, fp: Seq<(Seq<char>, JsonV)>)
    requires
        str_member(fp, "$ref"@) is None,
        arr_member(fp, "oneOf"@) is None,
        arr_member(fp, "allOf"@) is None,
        arr_member(fp, "anyOf"@) is None,
        dtype_spec(jclean_pairs(fp)) == Ok::<SchemaType, ConvErrV>(SchemaType::Object),
        spec_convert(defs, JsonV::Obj(fp)) is Ok,
    ensures
        spec_convert(defs, JsonV::Obj(fp))->Ok_0.schema_type == SchemaType::Object,
        match jlookup(fp, "properties"@) {
            Some(JsonV::Obj(pp)) => {
                let n = spec_convert(defs, JsonV::Obj(fp))->Ok_0;
                n.properties matches Some(cs) && cs.len() == pp.len() && forall|i: int|
                    0 <= i < pp.len() ==> (#[trigger] cs[i]).0 == pp[i].0 && spec_convert(
                        defs,
                        pp[i].1,
                    ) == Ok::<NodeV, ConvErrV>(cs[i].1)
            },
            _ => spec_convert(defs, JsonV::Obj(fp))->Ok_0.properties is None,
        },
        match arr_member(fp, "required"@) {
            Some(vals) => spec_convert(defs, JsonV::Obj(fp))->Ok_0.required == Some(
                string_values(vals),
            ),
            None => spec_convert(defs, JsonV::Obj(fp))->Ok_0.required is None,
        },
{
    let s = JsonV::Obj(fp);
    assert(spec_convert(defs, s) == spec_plain(defs, fp, s));
    match jlookup(fp, "properties"@) {
        Some(JsonV::Obj(pp)) => {
            lemma_spec_props_pointwise(defs, pp);
        },
        _ => {},
    }
}

/// A union whose branches are all plain string enums collapses to a single
/// `String` node with format `enum`, carrying the branches' enum values
/// concatenated in branch order.
pub proof fn lemma_string_enum_union(
    defs: Seq<(Seq<char>, JsonV)>,
    ps: Seq<(Seq<char>, JsonV)>,
    arr: Seq<JsonV>,
)
    requires
        str_member(ps, "$ref"@) is None,
        arr_member(ps, "oneOf"@) == Some(arr),
        arr.len() > 0,
        all_string_enum_branches(arr),
        merged_enum_values(arr).len() > 0,
    ensures
        spec_convert(defs, JsonV::Obj(ps)) == Ok::<NodeV, ConvErrV>(enum_union_node(arr, ps)),
        enum_union_node(arr, ps).schema_type == SchemaType::String,
        enum_union_node(arr, ps).format == Some("enum"@),
        enum_union_node(arr, ps).enum_values == Some(merged_enum_values(arr)),
{
    let s = JsonV::Obj(ps);
    assert(spec_convert(defs, s) == spec_flatten_union(defs, arr, ps, s));
    assert(spec_flatten_union(defs, arr, ps, s) == Ok::<NodeV, ConvErrV>(
        enum_union_node(arr, ps),
    ));
}


// ---------------------------------------------------------------------------
// Observability of the lossy fallbacks
// ---------------------------------------------------------------------------

/// `a + b` with collapse counts saturating at the largest `u64` rather than
/// wrapping.
pub open spec fn count_sum(a: u64, b: u64) -> u64 {
    if a + b > u64::MAX {
        u64::MAX
    } else {
        (a + b) as u64
    }
}

/// How many union constructs the normalizer's traversal collapses lossily
/// in `s`: each `oneOf`/`anyOf` that is not merged as an all-string-enum
/// union loses every branch but the first, and each `allOf` of several
/// entries loses all but the entry used. Counted over the traversal whether
/// or not the conversion itself later fails.
pub open spec fn spec_collapsed(defs: Seq<(Seq<char>, JsonV)>, s: JsonV) -> u64
    decreases defs.len(), jheight(s), 3int,
{
    match s {
        JsonV::Obj(ps) => {
            if str_member(ps, "$ref"@) is Some {
                let path = str_member(ps, "$ref"@)->Some_0;
                match ref_target(path) {
                    Some(name) => match jlookup(defs, name) {
                        Some(frag) => {
                            proof {
                                lemma_remove_def_len(defs, name);
                            }
                            spec_collapsed(remove_def(defs, name), frag)
                        },
                        None => 0,
                    },
                    None => 0,
                }
            } else if arr_member(ps, "oneOf"@) is Some {
                spec_collapsed_union(defs, arr_member(ps, "oneOf"@)->Some_0, s)
            } else if arr_member(ps, "allOf"@) is Some {
                spec_collapsed_all(defs, arr_member(ps, "allOf"@)->Some_0, s)
            } else if arr_member(ps, "anyOf"@) is Some {
                spec_collapsed_union(defs, arr_member(ps, "anyOf"@)->Some_0, s)
            } else {
                spec_collapsed_plain(defs, ps, s)
            }
        },
        _ => 0,
    }
}

/// The collapses under a `oneOf`/`anyOf`: none when the union merges as
/// all-string-enums, else one for the union itself plus those of the first
/// branch, the only branch kept.
pub open spec fn spec_collapsed_union(
    defs: Seq<(Seq<char>, JsonV)>,
    arr: Seq<JsonV>,
    s: JsonV,
) -> u64
    decreases defs.len(), jheight(s), 2int,
    when s matches JsonV::Obj(ps) && (arr_member(ps, "oneOf"@) == Some(arr) || arr_member(
        ps,
        "anyOf"@,
    ) == Some(arr))
{
    if arr.len() == 0 {
        0
    } else if all_string_enum_branches(arr) && merged_enum_values(arr).len() > 0 {
        0
    } else {
        proof {
            lemma_union_member_height(s, arr);
            lemma_jheight_list_elem(arr);
        }
        count_sum(1, spec_collapsed(defs, arr[0]))
    }
}

/// The collapses under an `allOf`: none for a single entry beyond its own,
/// else one for the flattening plus those of the entry used.
pub open spec fn spec_collapsed_all(
    defs: Seq<(Seq<char>, JsonV)>,
    arr: Seq<JsonV>,
    s: JsonV,
) -> u64
    decreases defs.len(), jheight(s), 2int,
    when s matches JsonV::Obj(ps) && arr_member(ps, "allOf"@) == Some(arr)
{
    if arr.len() == 0 {
        0
    } else if arr.len() == 1 {
        proof {
            lemma_all_member_height(s, arr);
            lemma_jheight_list_elem(arr);
        }
        spec_collapsed(defs, arr[0])
    } else {
        match first_non_ref(arr, 0) {
            Some(i) => {
                proof {
                    lemma_first_non_ref_bound(arr, 0);
                    lemma_all_member_height(s, arr);
                    lemma_jheight_list_elem(arr);
                }
                count_sum(1, spec_collapsed(defs, arr[i]))
            },
            None => {
                proof {
                    lemma_all_member_height(s, arr);
                    lemma_jheight_list_elem(arr);
                }
                count_sum(1, spec_collapsed(defs, arr[0]))
            },
        }
    }
}

/// The collapses under a plain schema object: those of its items or of its
/// properties, as its determined type directs.
pub open spec fn spec_collapsed_plain(
    defs: Seq<(Seq<char>, JsonV)>,
    ps: Seq<(Seq<char>, JsonV)>,
    s: JsonV,
) -> u64
    decreases defs.len(), jheight(s), 1int,
    when s == JsonV::Obj(ps)
{
    let cl = jclean_pairs(ps);
    match dtype_spec(cl) {
        Err(_) => 0,
        Ok(t) => {
            if t == SchemaType::Array {
                match jlookup(ps, "items"@) {
                    Some(item) => {
                        proof {
                            lemma_jlookup_height(ps, "items"@);
                        }
                        spec_collapsed(defs, item)
                    },
                    None => 0,
                }
            } else if t == SchemaType::Object {
                match jlookup(ps, "properties"@) {
                    Some(JsonV::Obj(pp)) => {
                        proof {
                            lemma_jlookup_height(ps, "properties"@);
                        }
                        spec_collapsed_props(defs, pp)
                    },
                    _ => 0,
                }
            } else {
                0
            }
        },
    }
}

/// The collapses under the properties of an object schema, summed in order.
pub open spec fn spec_collapsed_props(
    defs: Seq<(Seq<char>, JsonV)>,
    pp: Seq<(Seq<char>, JsonV)>,
) -> u64
    decreases defs.len(), jheight(JsonV::Obj(pp)), pp.len() + 1,
{
    if pp.len() == 0 {
        0
    } else {
        let head = {
            proof {
                lemma_jheight_pairs_value(pp);
                assert(jheight(pp[0].1) <= jheight_pairs(pp));
            }
            spec_collapsed(defs, pp[0].1)
        };
        let tail = {
            proof {
                lemma_jheight_pairs_drop(pp);
            }
            spec_collapsed_props(defs, pp.drop_first())
        };
        count_sum(head, tail)
    }
}

/// Whether a union merges losslessly: every branch a plain string enum,
/// with at least one value among them.
#[verifier::loop_isolation(false)]
fn union_merges(one_of: &Vec<JsonValue>) -> (r: bool)
    ensures
        r == (all_string_enum_branches(jview_list(one_of@)) && merged_enum_values(
            jview_list(one_of@),
        ).len() > 0),
{
    let ghost arr = jview_list(one_of@);
    proof {
        crate::json::lemma_jview_list_index(one_of@);
    }
    let mut any_values = false;
    let mut i: usize = 0;
    proof {
        assert(one_of@.subrange(0, 0) =~= Seq::<JsonValue>::empty());
        assert(jview_list(one_of@.subrange(0, 0)) =~= Seq::<JsonV>::empty());
        assert(merged_enum_values(Seq::<JsonV>::empty()) =~= Seq::<Seq<char>>::empty());
    }
    while i < one_of.len()
        invariant
            i <= one_of@.len(),
            arr == jview_list(one_of@),
            arr.len() == one_of@.len(),
            forall|k: int| 0 <= k < one_of@.len() ==> #[trigger] arr[k] == jview(one_of@[k]),
            forall|k: int| 0 <= k < i ==> is_string_enum_branch(#[trigger] arr[k]),
            any_values == (merged_enum_values(jview_list(one_of@.subrange(0, i as int))).len()
                > 0),
        decreases one_of@.len() - i,
    {
        let branch_ok = match &one_of[i] {
            JsonValue::Object(bp) => {
                let is_string_type = match get_str_member(bp, "type") {
                    Some(t) => crate::strings::str_eq(t.as_str(), "string"),
                    None => false,
                };
                if is_string_type {
                    match get_arr_member(bp, "enum") {
                        Some(vals) => match collect_string_values(vals) {
                            Some(vs) => {
                                if vs.len() > 0 {
                                    any_values = true;
                                }
                                proof {
                                    assert(arr[i as int] == JsonV::Obj(jview_pairs(bp@)));
                                    lemma_strs_view_index(vs@);
                                    assert(branch_enum_values(arr[i as int]).len() == vs@.len());
                                }
                                true
                            },
                            None => false,
                        },
                        None => false,
                    }
                } else {
                    proof {
                        assert(arr[i as int] == JsonV::Obj(jview_pairs(bp@)));
                    }
                    false
                }
            },
            _ => false,
        };
        if !branch_ok {
            proof {
                assert(!is_string_enum_branch(arr[i as int]));
            }
            return false;
        }
        proof {
            let pre = one_of@.subrange(0, i as int);
            let post = one_of@.subrange(0, i + 1);
            assert(post =~= pre + seq![one_of@[i as int]]);
            crate::json::lemma_jview_list_concat(pre, seq![one_of@[i as int]]);
            crate::json::lemma_jview_list_index(seq![one_of@[i as int]]);
            assert(jview_list(seq![one_of@[i as int]]) =~= seq![jview(one_of@[i as int])]);
            lemma_merged_enum_values_concat(jview_list(pre), seq![jview(one_of@[i as int])]);
            let single = seq![jview(one_of@[i as int])];
            assert(single.drop_first() =~= Seq::<JsonV>::empty());
            assert(merged_enum_values(Seq::<JsonV>::empty()) =~= Seq::<Seq<char>>::empty());
            assert(merged_enum_values(single) =~= branch_enum_values(jview(one_of@[i as int])));
        }
        i = i + 1;
    }
    proof {
        assert(one_of@.subrange(0, one_of@.len() as int) =~= one_of@);
    }
    any_values
}

/// Saturating count addition.
fn count_sum_exec(a: u64, b: u64) -> (r: u64)
    ensures
        r == count_sum(a, b),
{
    a.saturating_add(b)
}


/// A copy of the definition table without the entry at `j`.
#[verifier::loop_isolation(false)]
fn table_without(defs: &Vec<(String, JsonValue)>, j: usize) -> (r: Vec<(String, JsonValue)>)
    requires
        j < defs@.len(),
    ensures
        jview_pairs(r@) == jview_pairs(defs@).subrange(0, j as int) + jview_pairs(
            defs@,
        ).subrange(j + 1, defs@.len() as int),
        r@.len() == defs@.len() - 1,
{
    let ghost dv = jview_pairs(defs@);
    proof {
        crate::json::lemma_jview_pairs_index(defs@);
    }
    let mut rest: Vec<(String, JsonValue)> = Vec::new();
    let mut k: usize = 0;
    proof {
        assert(jview_pairs(rest@) =~= Seq::<(Seq<char>, JsonV)>::empty());
        assert(dv.subrange(0, 0) =~= Seq::<(Seq<char>, JsonV)>::empty());
    }
    while k < defs.len()
        invariant
            k <= defs@.len(),
            j < defs@.len(),
            dv == jview_pairs(defs@),
            dv.len() == defs@.len(),
            forall|m: int|
                0 <= m < defs@.len() ==> #[trigger] dv[m] == (defs@[m].0@, jview(defs@[m].1)),
            rest@.len() == if k <= j {
                k as int
            } else {
                k - 1
            },
            k <= j ==> jview_pairs(rest@) =~= dv.subrange(0, k as int),
            k > j ==> jview_pairs(rest@) =~= dv.subrange(0, j as int) + dv.subrange(
                j + 1,
                k as int,
            ),
        decreases defs@.len() - k,
    {
        let ghost r0 = rest@;
        if k != j {
            let key = defs[k].0.clone();
            let val = defs[k].1.clone();
            rest.push((key, val));
            proof {
                assert(rest@ =~= r0 + seq![rest@[rest@.len() - 1]]);
                crate::json::lemma_jview_pairs_concat(r0, seq![rest@[rest@.len() - 1]]);
                crate::json::lemma_jview_pairs_index(seq![rest@[rest@.len() - 1]]);
                assert(jview_pairs(seq![rest@[rest@.len() - 1]]) =~= seq![dv[k as int]]);
                if k < j {
                    assert(dv.subrange(0, k + 1) =~= dv.subrange(0, k as int) + seq![
                        dv[k as int],
                    ]);
                } else {
                    assert(dv.subrange(j + 1, k + 1) =~= dv.subrange(j + 1, k as int) + seq![
                        dv[k as int],
                    ]);
                }
            }
        } else {
            proof {
                assert(dv.subrange(0, j as int) + dv.subrange(j + 1, j + 1) =~= dv.subrange(
                    0,
                    j as int,
                ));
            }
        }
        k = k + 1;
    }
    rest
}

/// Counts the lossy union collapses the traversal of `schema` meets.
#[verifier::rlimit(100)]
#[verifier::loop_isolation(false)]
fn count_collapsed(defs: &Vec<(String, JsonValue)>, schema: &JsonValue) -> (r: u64)
    ensures
        r == spec_collapsed(jview_pairs(defs@), jview(*schema)),
    decreases defs@.len(), jheight(jview(*schema)), 3int,
{
    let ghost dv = jview_pairs(defs@);
    match schema {
        JsonValue::Object(pairs) => {
            let ghost ps = jview_pairs(pairs@);
            proof {
                assert(jview(*schema) == JsonV::Obj(ps));
            }
            if let Some(JsonValue::Str(path)) = crate::json::obj_get(pairs, "$ref") {
                proof {
                    assert(str_member(ps, "$ref"@) == Some(path@));
                }
                match ref_definition_name(path.as_str()) {
                    Some(name) => {
                        proof {
                            crate::json::lemma_jview_pairs_index(defs@);
                        }
                        let mut j: usize = 0;
                        while j < defs.len()
                            invariant
                                j <= defs@.len(),
                                dv == jview_pairs(defs@),
                                dv.len() == defs@.len(),
                                forall|k: int|
                                    0 <= k < defs@.len() ==> #[trigger] dv[k] == (
                                    defs@[k].0@,
                                    jview(defs@[k].1),
                                    ),
                                forall|k: int| 0 <= k < j ==> (#[trigger] dv[k].0) != name@,
                            decreases defs@.len() - j,
                        {
                            if crate::strings::str_eq(defs[j].0.as_str(), name.as_str()) {
                                proof {
                                    crate::json::lemma_jlookup_at(dv, name@, j as int);
                                    lemma_remove_def_at(dv, name@, j as int);
                                    lemma_remove_def_len(dv, name@);
                                }
                                let rest = table_without(defs, j);
                                proof {
                                    assert(jview_pairs(rest@) == remove_def(dv, name@));
                                    assert(jview(defs@[j as int].1) == jlookup(
                                        dv,
                                        name@,
                                    )->Some_0);
                                }
                                let frag = defs[j].1.clone();
                                return count_collapsed(&rest, &frag);
                            }
                            j = j + 1;
                        }
                        proof {
                            crate::json::lemma_jlookup_none(dv, name@);
                        }
                        return 0;
                    },
                    None => {
                        return 0;
                    },
                }
            }
            proof {
                assert(str_member(ps, "$ref"@) is None);
            }
            if let Some(arr) = get_arr_member(pairs, "oneOf") {
                proof {
                    lemma_union_member_height(jview(*schema), jview_list(arr@));
                    lemma_jheight_list_elem(jview_list(arr@));
                    crate::json::lemma_jview_list_index(arr@);
                    assert(spec_collapsed(dv, jview(*schema)) == spec_collapsed_union(
                        dv,
                        jview_list(arr@),
                        jview(*schema),
                    ));
                }
                if arr.len() == 0 {
                    return 0;
                }
                if union_merges(arr) {
                    return 0;
                }
                return count_sum_exec(1, count_collapsed(defs, &arr[0]));
            }
            if let Some(arr) = get_arr_member(pairs, "allOf") {
                proof {
                    lemma_all_member_height(jview(*schema), jview_list(arr@));
                    lemma_jheight_list_elem(jview_list(arr@));
                    crate::json::lemma_jview_list_index(arr@);
                    assert(spec_collapsed(dv, jview(*schema)) == spec_collapsed_all(
                        dv,
                        jview_list(arr@),
                        jview(*schema),
                    ));
                }
                if arr.len() == 0 {
                    return 0;
                }
                if arr.len() == 1 {
                    return count_collapsed(defs, &arr[0]);
                }
                let ghost garr = jview_list(arr@);
                let mut i: usize = 0;
                while i < arr.len()
                    invariant
                        i <= arr@.len(),
                        garr == jview_list(arr@),
                        garr.len() == arr@.len(),
                        forall|k: int| 0 <= k < arr@.len() ==> #[trigger] garr[k] == jview(arr@[k]),
                        first_non_ref(garr, 0) == first_non_ref(garr, i as int),
                    decreases arr@.len() - i,
                {
                    let non_ref = match &arr[i] {
                        JsonValue::Object(bp) => crate::json::obj_get(bp, "$ref").is_none(),
                        _ => false,
                    };
                    if non_ref {
                        proof {
                            lemma_first_non_ref_bound(garr, 0);
                        }
                        return count_sum_exec(1, count_collapsed(defs, &arr[i]));
                    }
                    i = i + 1;
                }
                proof {
                    assert(first_non_ref(garr, 0) is None);
                }
                return count_sum_exec(1, count_collapsed(defs, &arr[0]));
            }
            if let Some(arr) = get_arr_member(pairs, "anyOf") {
                proof {
                    lemma_union_member_height(jview(*schema), jview_list(arr@));
                    lemma_jheight_list_elem(jview_list(arr@));
                    crate::json::lemma_jview_list_index(arr@);
                    assert(spec_collapsed(dv, jview(*schema)) == spec_collapsed_union(
                        dv,
                        jview_list(arr@),
                        jview(*schema),
                    ));
                }
                if arr.len() == 0 {
                    return 0;
                }
                if union_merges(arr) {
                    return 0;
                }
                return count_sum_exec(1, count_collapsed(defs, &arr[0]));
            }
            let cleaned = clean_members(pairs);
            let ghost cl = jclean_pairs(ps);
            proof {
                assert(spec_collapsed(dv, jview(*schema)) == spec_collapsed_plain(
                    dv,
                    ps,
                    jview(*schema),
                ));
            }
            let t = match determine_type(&cleaned) {
                Ok(t) => t,
                Err(_) => {
                    return 0;
                },
            };
            if matches!(t, SchemaType::Array) {
                match crate::json::obj_get(pairs, "items") {
                    Some(item) => {
                        proof {
                            lemma_jlookup_height(ps, "items"@);
                        }
                        count_collapsed(defs, item)
                    },
                    None => 0,
                }
            } else if matches!(t, SchemaType::Object) {
                match crate::json::obj_get(pairs, "properties") {
                    Some(JsonValue::Object(pp)) => {
                        proof {
                            lemma_jlookup_height(ps, "properties"@);
                        }
                        count_collapsed_props(defs, pp)
                    },
                    _ => 0,
                }
            } else {
                0
            }
        },
        _ => 0,
    }
}

/// Sums the collapses under each property of an object schema.
#[verifier::loop_isolation(false)]
fn count_collapsed_props(defs: &Vec<(String, JsonValue)>, pp: &Vec<(String, JsonValue)>) -> (r:
    u64)
    ensures
        r == spec_collapsed_props(jview_pairs(defs@), jview_pairs(pp@)),
    decreases defs@.len(), jheight(JsonV::Obj(jview_pairs(pp@))), 2int,
{
    let ghost dv = jview_pairs(defs@);
    let ghost ppv = jview_pairs(pp@);
    proof {
        crate::json::lemma_jview_pairs_index(pp@);
    }
    let mut acc: u64 = 0;
    let mut k: usize = 0;
    proof {
        assert(ppv.subrange(0, ppv.len() as int) =~= ppv);
        assert(count_sum(0, spec_collapsed_props(dv, ppv)) == spec_collapsed_props(dv, ppv));
    }
    while k < pp.len()
        invariant
            k <= pp@.len(),
            dv == jview_pairs(defs@),
            ppv == jview_pairs(pp@),
            ppv.len() == pp@.len(),
            forall|j: int| 0 <= j < pp@.len() ==> #[trigger] ppv[j] == (pp@[j].0@, jview(pp@[j].1)),
            spec_collapsed_props(dv, ppv) == count_sum(
                acc,
                spec_collapsed_props(dv, ppv.subrange(k as int, ppv.len() as int)),
            ),
        decreases pp.len() - k,
    {
        proof {
            lemma_jheight_pairs_value(ppv);
            assert(jheight(ppv[k as int].1) <= jheight_pairs(ppv));
        }
        let c = count_collapsed(defs, &pp[k].1);
        proof {
            let suffix = ppv.subrange(k as int, ppv.len() as int);
            assert(suffix[0] == ppv[k as int]);
            assert(suffix.drop_first() =~= ppv.subrange(k + 1, ppv.len() as int));
            lemma_jheight_pairs_value(suffix);
        }
        acc = count_sum_exec(acc, c);
        k = k + 1;
    }
    proof {
        assert(ppv.subrange(ppv.len() as int, ppv.len() as int) =~= Seq::<
            (Seq<char>, JsonV),
        >::empty());
        assert(spec_collapsed_props(dv, Seq::<(Seq<char>, JsonV)>::empty()) == 0);
    }
    acc
}

} // verus!
