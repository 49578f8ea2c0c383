//! How a Rust field type is represented in a JSON Schema, for the schemas
//! generated from Rust structs.  A type is seen as the derive macros see
//! it: a path with its last segment's name and first type argument, or
//! some other form (tuple, reference, ...).
use vstd::prelude::*;
use crate::json::JsonValue;
use crate::text::{chars_of, copy_string, is_unicode_whitespace, is_whitespace, push_char, push_str, str_eq, string_of};

verus! {

/// The shape of a Rust type, as far as the schema mapping reads it.
#[derive(Debug)]
pub enum RustType {
    /// A path type: the name of its last segment and, where that segment
    /// has angle-bracketed arguments whose first is a type, that type.
    Path { ident: String, first_arg: Option<Box<RustType>> },
    /// Any other type: tuples, references, function pointers, ...
    Other,
}

/// How a Rust type is represented in a JSON Schema.
#[derive(Debug, PartialEq)]
pub enum JsonTypeKind {
    /// A primitive JSON Schema type keyword (`string`, `integer`, `number`,
    /// `boolean`).
    Primitive(&'static str),
    /// A collection: keyword `array`.
    Array,
    /// A named type of its own: a reference to its definition.
    Custom(String),
}

/// The kind of a type, by views.
pub enum KindView {
    Primitive(Seq<char>),
    Array,
    Custom(Seq<char>),
}

/// The view of a kind.
pub open spec fn kind_view(k: JsonTypeKind) -> KindView {
    match k {
        JsonTypeKind::Primitive(p) => KindView::Primitive(p@),
        JsonTypeKind::Array => KindView::Array,
        JsonTypeKind::Custom(n) => KindView::Custom(n@),
    }
}

/// Names of the integer types.
pub open spec fn is_integer_name(n: Seq<char>) -> bool {
    n == "i8"@ || n == "i16"@ || n == "i32"@ || n == "i64"@ || n == "u8"@ || n == "u16"@ || n
        == "u32"@ || n == "u64"@ || n == "isize"@ || n == "usize"@
}

/// Names of the collection types.
pub open spec fn is_collection_name(n: Seq<char>) -> bool {
    n == "Vec"@ || n == "VecDeque"@ || n == "BTreeSet"@ || n == "HashSet"@ || n == "LinkedList"@
}

/// How `t` is represented: strings, integers, floating-point numbers and
/// booleans by their keyword, collections as arrays, `Option<T>` as `T`
/// (as a string when it has no type argument), other named types as
/// references, and types that are not paths as strings.
pub open spec fn type_kind(t: RustType) -> KindView
    decreases t,
{
    match t {
        RustType::Path { ident, first_arg } => {
            let n = ident@;
            if n == "String"@ || n == "str"@ {
                KindView::Primitive("string"@)
            } else if is_integer_name(n) {
                KindView::Primitive("integer"@)
            } else if n == "f32"@ || n == "f64"@ {
                KindView::Primitive("number"@)
            } else if n == "bool"@ {
                KindView::Primitive("boolean"@)
            } else if is_collection_name(n) {
                KindView::Array
            } else if n == "Option"@ {
                match first_arg {
                    Some(inner) => type_kind(*inner),
                    None => KindView::Primitive("string"@),
                }
            } else {
                KindView::Custom(n)
            }
        },
        RustType::Other => KindView::Primitive("string"@),
    }
}

/// Whether `t` is `Option<..>`.
pub open spec fn is_option(t: RustType) -> bool {
    t matches RustType::Path { ident, .. } && ident@ == "Option"@
}

/// Whether `ty` is `Option<..>`.
pub fn is_option_type(ty: &RustType) -> (r: bool)
    ensures
        r == is_option(*ty),
{
    match ty {
        RustType::Path { ident, .. } => str_eq(ident.as_str(), "Option"),
        RustType::Other => false,
    }
}

/// Classifies `ty` for its JSON Schema.
pub fn json_type_kind(ty: &RustType) -> (k: JsonTypeKind)
    ensures
        kind_view(k) == type_kind(*ty),
    decreases ty,
{
    proof {
        reveal_strlit("string");
        reveal_strlit("integer");
        reveal_strlit("number");
        reveal_strlit("boolean");
    }
    match ty {
        RustType::Path { ident, first_arg } => {
            let n = ident.as_str();
            if str_eq(n, "String") || str_eq(n, "str") {
                JsonTypeKind::Primitive("string")
            } else if str_eq(n, "i8") || str_eq(n, "i16") || str_eq(n, "i32") || str_eq(n, "i64")
                || str_eq(n, "u8") || str_eq(n, "u16") || str_eq(n, "u32") || str_eq(n, "u64")
                || str_eq(n, "isize") || str_eq(n, "usize") {
                JsonTypeKind::Primitive("integer")
            } else if str_eq(n, "f32") || str_eq(n, "f64") {
                JsonTypeKind::Primitive("number")
            } else if str_eq(n, "bool") {
                JsonTypeKind::Primitive("boolean")
            } else if str_eq(n, "Vec") || str_eq(n, "VecDeque") || str_eq(n, "BTreeSet") || str_eq(
                n,
                "HashSet",
            ) || str_eq(n, "LinkedList") {
                JsonTypeKind::Array
            } else if str_eq(n, "Option") {
                match first_arg {
                    Some(inner) => json_type_kind(inner),
                    None => JsonTypeKind::Primitive("string"),
                }
            } else {
                JsonTypeKind::Custom(copy_string(ident))
            }
        },
        RustType::Other => JsonTypeKind::Primitive("string"),
    }
}

/// The Rust primitive and standard types have fixed schema keywords,
/// whatever their type arguments: `String` and `str` are strings, the
/// integer types are integers, `f32` and `f64` are numbers, `bool` is a
/// boolean, and the standard collections are arrays; none of them is a
/// reference to a definition of its own.
pub proof fn lemma_primitive_type_names(ident: String, first_arg: Option<Box<RustType>>)
    ensures
        ({
            let k = type_kind(RustType::Path { ident, first_arg });
            let n = ident@;
            &&& n == "String"@ || n == "str"@ ==> k == KindView::Primitive("string"@)
            &&& n == "i8"@ || n == "i16"@ || n == "i32"@ || n == "i64"@ || n == "u8"@ || n == "u16"@
                || n == "u32"@ || n == "u64"@ || n == "isize"@ || n == "usize"@ ==> k
                == KindView::Primitive("integer"@)
            &&& n == "f32"@ || n == "f64"@ ==> k == KindView::Primitive("number"@)
            &&& n == "bool"@ ==> k == KindView::Primitive("boolean"@)
            &&& n == "Vec"@ || n == "VecDeque"@ || n == "BTreeSet"@ || n == "HashSet"@ || n
                == "LinkedList"@ ==> k == KindView::Array
        }),
{
    reveal_strlit("String");
    reveal_strlit("str");
    reveal_strlit("i8");
    reveal_strlit("i16");
    reveal_strlit("i32");
    reveal_strlit("i64");
    reveal_strlit("u8");
    reveal_strlit("u16");
    reveal_strlit("u32");
    reveal_strlit("u64");
    reveal_strlit("isize");
    reveal_strlit("usize");
    reveal_strlit("f32");
    reveal_strlit("f64");
    reveal_strlit("bool");
    reveal_strlit("Vec");
    reveal_strlit("VecDeque");
    reveal_strlit("BTreeSet");
    reveal_strlit("HashSet");
    reveal_strlit("LinkedList");
    let n = ident@;
    assert("String"@[0] == 'S' && "str"@[0] == 's');
    assert("i8"@[0] == 'i' && "i16"@[0] == 'i' && "i32"@[0] == 'i' && "i64"@[0] == 'i' && "isize"@[0]
        == 'i');
    assert("u8"@[0] == 'u' && "u16"@[0] == 'u' && "u32"@[0] == 'u' && "u64"@[0] == 'u' && "usize"@[0]
        == 'u');
    assert("f32"@[0] == 'f' && "f64"@[0] == 'f' && "bool"@[0] == 'b');
    if n == "f32"@ || n == "f64"@ {
        assert(n[0] == 'f');
        assert(!is_integer_name(n));
        assert(n != "String"@ && n != "str"@);
    }
    if n == "bool"@ {
        assert(n[0] == 'b');
        assert(!is_integer_name(n));
        assert(n != "String"@ && n != "str"@ && n != "f32"@ && n != "f64"@);
    }
    if is_integer_name(n) {
        assert(n[0] == 'i' || n[0] == 'u');
        assert(n != "String"@ && n != "str"@);
    }
    if is_collection_name(n) {
        assert(n[0] == 'V' || n[0] == 'B' || n[0] == 'H' || n[0] == 'L');
        assert(!is_integer_name(n));
        assert(n != "String"@ && n != "str"@ && n != "f32"@ && n != "f64"@ && n != "bool"@);
    }
}

/// The type argument of `Option<T>` when `ty` is that (with its argument),
/// else `ty` itself.
pub fn unwrap_option_type(ty: &RustType) -> (r: &RustType)
    ensures
        *r == match *ty {
            RustType::Path { ident, first_arg: Some(inner) } => if ident@ == "Option"@ {
                *inner
            } else {
                *ty
            },
            _ => *ty,
        },
{
    match ty {
        RustType::Path { ident, first_arg: Some(inner) } => {
            if str_eq(ident.as_str(), "Option") {
                inner
            } else {
                ty
            }
        },
        _ => ty,
    }
}

/// `Option<T>` is transparent: it is represented as `T` is.
pub proof fn lemma_option_transparent(ident: String, inner: RustType)
    requires
        ident@ == "Option"@,
    ensures
        type_kind(RustType::Path { ident, first_arg: Some(Box::new(inner)) }) == type_kind(inner),
{
    reveal_strlit("Option");
    reveal_strlit("String");
    reveal_strlit("str");
    reveal_strlit("i8");
    reveal_strlit("i16");
    reveal_strlit("i32");
    reveal_strlit("i64");
    reveal_strlit("u8");
    reveal_strlit("u16");
    reveal_strlit("u32");
    reveal_strlit("u64");
    reveal_strlit("isize");
    reveal_strlit("usize");
    reveal_strlit("f32");
    reveal_strlit("f64");
    reveal_strlit("bool");
    reveal_strlit("Vec");
    reveal_strlit("VecDeque");
    reveal_strlit("BTreeSet");
    reveal_strlit("HashSet");
    reveal_strlit("LinkedList");
    assert("Option"@ != "String"@) by {
        assert("Option"@[0] != "String"@[0]);
    }
    assert("Option"@ != "str"@) by {
        assert("Option"@.len() != "str"@.len());
    }
    assert("Option"@ != "i8"@) by {
        assert("Option"@.len() != "i8"@.len());
    }
    assert("Option"@ != "i16"@) by {
        assert("Option"@.len() != "i16"@.len());
    }
    assert("Option"@ != "i32"@) by {
        assert("Option"@.len() != "i32"@.len());
    }
    assert("Option"@ != "i64"@) by {
        assert("Option"@.len() != "i64"@.len());
    }
    assert("Option"@ != "u8"@) by {
        assert("Option"@.len() != "u8"@.len());
    }
    assert("Option"@ != "u16"@) by {
        assert("Option"@.len() != "u16"@.len());
    }
    assert("Option"@ != "u32"@) by {
        assert("Option"@.len() != "u32"@.len());
    }
    assert("Option"@ != "u64"@) by {
        assert("Option"@.len() != "u64"@.len());
    }
    assert("Option"@ != "isize"@) by {
        assert("Option"@.len() != "isize"@.len());
    }
    assert("Option"@ != "usize"@) by {
        assert("Option"@.len() != "usize"@.len());
    }
    assert("Option"@ != "f32"@) by {
        assert("Option"@.len() != "f32"@.len());
    }
    assert("Option"@ != "f64"@) by {
        assert("Option"@.len() != "f64"@.len());
    }
    assert("Option"@ != "bool"@) by {
        assert("Option"@.len() != "bool"@.len());
    }
    assert("Option"@ != "Vec"@) by {
        assert("Option"@.len() != "Vec"@.len());
    }
    assert("Option"@ != "VecDeque"@) by {
        assert("Option"@.len() != "VecDeque"@.len());
    }
    assert("Option"@ != "BTreeSet"@) by {
        assert("Option"@.len() != "BTreeSet"@.len());
    }
    assert("Option"@ != "HashSet"@) by {
        assert("Option"@.len() != "HashSet"@.len());
    }
    assert("Option"@ != "LinkedList"@) by {
        assert("Option"@.len() != "LinkedList"@.len());
    }
    assert(!is_integer_name("Option"@));
    assert(!is_collection_name("Option"@));
}

/// A named field of a struct: its name, its type, and whether serde gives
/// it a default when it is missing.
#[derive(Debug)]
pub struct FieldSpec {
    pub name: String,
    pub ty: RustType,
    pub has_default: bool,
}

/// The type a field's schema is written for: `T` for `Option<T>`, else
/// the field's type itself.
pub open spec fn unwrapped(t: RustType) -> RustType {
    match t {
        RustType::Path { ident, first_arg: Some(inner) } => if ident@ == "Option"@ {
            *inner
        } else {
            t
        },
        _ => t,
    }
}

/// Whether `v` is the object whose single member `key` is the string `text`.
pub open spec fn is_single_text(v: JsonValue, key: Seq<char>, text: Seq<char>) -> bool {
    &&& v matches JsonValue::Object(m)
    &&& m@.len() == 1
    &&& m@[0].0@ == key
    &&& m@[0].1 matches JsonValue::String(t) && t@ == text
}

/// Whether `v` is the schema of a field of type `t`: `{"type": k}` for a
/// primitive of keyword `k`, `{"type": "array", "items": ..}` for a
/// collection with an item type (`{"type": "array"}` without one), and a
/// reference `{"$ref": "#/definitions/N"}` for a type `N` of its own;
/// `Option<T>` is written as `T`.
pub open spec fn is_field_schema(v: JsonValue, t: RustType) -> bool
    decreases t,
{
    match unwrapped(t) {
        RustType::Path { ident, first_arg } => match type_kind(unwrapped(t)) {
            KindView::Primitive(k) => is_single_text(v, "type"@, k),
            KindView::Array => match first_arg {
                Some(inner) => {
                    &&& v matches JsonValue::Object(m)
                    &&& m@.len() == 2
                    &&& m@[0].0@ == "type"@
                    &&& m@[0].1 matches JsonValue::String(a) && a@ == "array"@
                    &&& m@[1].0@ == "items"@
                    &&& is_field_schema(m@[1].1, *inner)
                },
                None => is_single_text(v, "type"@, "array"@),
            },
            KindView::Custom(n) => is_single_text(v, "$ref"@, "#/definitions/"@ + n),
        },
        RustType::Other => is_single_text(v, "type"@, "string"@),
    }
}

/// The names of the types of their own that the schema of a field of type
/// `t` refers to, in order.
pub open spec fn field_defs(t: RustType) -> Seq<Seq<char>>
    decreases t,
{
    match unwrapped(t) {
        RustType::Path { ident, first_arg } => match type_kind(unwrapped(t)) {
            KindView::Array => match first_arg {
                Some(inner) => field_defs(*inner),
                None => Seq::empty(),
            },
            KindView::Custom(n) => seq![n],
            KindView::Primitive(_) => Seq::empty(),
        },
        RustType::Other => Seq::empty(),
    }
}

/// The names that the schemas of `fields` refer to, in order.
pub open spec fn all_defs(fields: Seq<FieldSpec>) -> Seq<Seq<char>>
    decreases fields.len(),
{
    if fields.len() == 0 {
        Seq::empty()
    } else {
        all_defs(fields.drop_last()) + field_defs(fields.last().ty)
    }
}

/// `names` with each name kept at its first occurrence only.
pub open spec fn first_occurrences(names: Seq<Seq<char>>) -> Seq<Seq<char>>
    decreases names.len(),
{
    if names.len() == 0 {
        Seq::empty()
    } else {
        let d = first_occurrences(names.drop_last());
        if d.contains(names.last()) {
            d
        } else {
            d.push(names.last())
        }
    }
}

/// The names of the fields of `fields` that must be given: those with no
/// default that are not optional, in order.
pub open spec fn required_names(fields: Seq<FieldSpec>) -> Seq<Seq<char>>
    decreases fields.len(),
{
    if fields.len() == 0 {
        Seq::empty()
    } else {
        let r = required_names(fields.drop_last());
        if !fields.last().has_default && !is_option(fields.last().ty) {
            r.push(fields.last().name@)
        } else {
            r
        }
    }
}

/// Whether `v` is an array of strings with the texts `names`.
pub open spec fn is_text_array(v: JsonValue, names: Seq<Seq<char>>) -> bool {
    &&& v matches JsonValue::Array(a)
    &&& a@.len() == names.len()
    &&& forall|i: int| 0 <= i < names.len() ==> ((#[trigger] a@[i]) matches JsonValue::String(t) && t@ == names[i])
}

/// Whether `v` is the schema of a struct with the fields `fields`: an
/// object with `type` `object`, the `properties` (each field's schema
/// under its name, in order), the `required` names when there are any,
/// and the `definitions` (an object schema under each referred name, at
/// its first occurrence).
pub open spec fn is_struct_schema(v: JsonValue, fields: Seq<FieldSpec>) -> bool {
    let req = required_names(fields);
    let defs = first_occurrences(all_defs(fields));
    &&& v matches JsonValue::Object(m)
    &&& m@.len() == if req.len() > 0 { 4int } else { 3int }
    &&& m@[0].0@ == "type"@
    &&& m@[0].1 matches JsonValue::String(t) && t@ == "object"@
    &&& m@[1].0@ == "properties"@
    &&& m@[1].1 matches JsonValue::Object(props) && props@.len() == fields.len() && forall|i: int|
        0 <= i < fields.len() ==> (#[trigger] props@[i]).0@ == fields[i].name@ && is_field_schema(
            props@[i].1,
            fields[i].ty,
        )
    &&& req.len() > 0 ==> m@[2].0@ == "required"@ && is_text_array(m@[2].1, req)
    &&& m@[m@.len() - 1].0@ == "definitions"@
    &&& m@[m@.len() - 1].1 matches JsonValue::Object(ds) && ds@.len() == defs.len() && forall|i: int|
        0 <= i < defs.len() ==> (#[trigger] ds@[i]).0@ == defs[i] && is_single_text(
            ds@[i].1,
            "type"@,
            "object"@,
        )
}

/// The object whose single member `key` is the string `text`.
fn single_text(key: &str, text: String) -> (r: JsonValue)
    ensures
        is_single_text(r, key@, text@),
{
    let mut m: Vec<(String, JsonValue)> = Vec::new();
    m.push((string_of(key), JsonValue::String(text)));
    JsonValue::Object(m)
}

/// The schema of a field of type `ty` (see [`is_field_schema`]), and the
/// names it refers to appended to `defs`.
pub fn field_schema(ty: &RustType, defs: &mut Vec<String>) -> (r: JsonValue)
    ensures
        is_field_schema(r, *ty),
        final(defs)@.map_values(|n: String| n@) == old(defs)@.map_values(|n: String| n@) + field_defs(*ty),
    decreases ty,
{
    let target = unwrap_option_type(ty);
    assert(*target == unwrapped(*ty));
    match target {
        RustType::Path { ident, first_arg } => {
            match json_type_kind(target) {
                JsonTypeKind::Primitive(k) => {
                    proof {
                        assert(defs@.map_values(|n: String| n@) + field_defs(*ty) =~= defs@.map_values(
                            |n: String| n@,
                        ));
                    }
                    single_text("type", string_of(k))
                },
                JsonTypeKind::Array => {
                    match first_arg {
                        Some(inner) => {
                            let items = field_schema(inner, defs);
                            let mut m: Vec<(String, JsonValue)> = Vec::new();
                            m.push((string_of("type"), JsonValue::String(string_of("array"))));
                            m.push((string_of("items"), items));
                            JsonValue::Object(m)
                        },
                        None => {
                            proof {
                                assert(defs@.map_values(|n: String| n@) + field_defs(*ty) =~= defs@.map_values(
                                    |n: String| n@,
                                ));
                            }
                            single_text("type", string_of("array"))
                        },
                    }
                },
                JsonTypeKind::Custom(n) => {
                    let mut r = string_of("#/definitions/");
                    push_str(&mut r, n.as_str());
                    let ghost before = defs@;
                    defs.push(n);
                    proof {
                        assert(defs@.map_values(|n: String| n@) =~= before.map_values(|n: String| n@)
                            + field_defs(*ty));
                    }
                    single_text("$ref", r)
                },
            }
        },
        RustType::Other => {
            proof {
                reveal_strlit("string");
                assert(defs@.map_values(|n: String| n@) + field_defs(*ty) =~= defs@.map_values(
                    |n: String| n@,
                ));
            }
            single_text("type", string_of("string"))
        },
    }
}

/// Whether `names` holds the text `x`.
fn holds_name(names: &Vec<String>, x: &str) -> (r: bool)
    ensures
        r == names@.map_values(|n: String| n@).contains(x@),
{
    let ghost view = names@.map_values(|n: String| n@);
    let mut k: usize = 0;
    while k < names.len()
        invariant
            k <= names.len(),
            view == names@.map_values(|n: String| n@),
            forall|j: int| 0 <= j < k ==> view[j] != x@,
        decreases names.len() - k,
    {
        if str_eq(names[k].as_str(), x) {
            assert(view[k as int] == x@);
            return true;
        }
        k = k + 1;
    }
    assert(!view.contains(x@)) by {
        if view.contains(x@) {
            let j = choose|j: int| 0 <= j < view.len() && view[j] == x@;
            assert(view[j] != x@);
        }
    }
    false
}

/// Whether `props`, `required` and `defs` are the parts of the schema of
/// a struct with the fields `fields`: each field's schema under its name,
/// the required names, and an object schema under each referred name at
/// its first occurrence.
pub open spec fn schema_parts_fit(
    props: Seq<(String, JsonValue)>,
    required: Seq<JsonValue>,
    defs: Seq<(String, JsonValue)>,
    fields: Seq<FieldSpec>,
) -> bool {
    let names = first_occurrences(all_defs(fields));
    &&& props.len() == fields.len()
    &&& forall|i: int|
        0 <= i < fields.len() ==> (#[trigger] props[i]).0@ == fields[i].name@ && is_field_schema(
            props[i].1,
            fields[i].ty,
        )
    &&& required.len() == required_names(fields).len()
    &&& forall|i: int|
        0 <= i < required.len() ==> ((#[trigger] required[i]) matches JsonValue::String(t) && t@
            == required_names(fields)[i])
    &&& defs.len() == names.len()
    &&& forall|i: int|
        0 <= i < defs.len() ==> (#[trigger] defs[i]).0@ == names[i] && is_single_text(
            defs[i].1,
            "type"@,
            "object"@,
        )
}

/// The parts of the schema of a struct with the fields `fields` (see
/// [`schema_parts_fit`]).
fn schema_parts(fields: &Vec<FieldSpec>) -> (r: (
    Vec<(String, JsonValue)>,
    Vec<JsonValue>,
    Vec<(String, JsonValue)>,
))
    ensures
        schema_parts_fit(r.0@, r.1@, r.2@, fields@),
{
    let mut props: Vec<(String, JsonValue)> = Vec::new();
    let mut required: Vec<JsonValue> = Vec::new();
    let mut names: Vec<String> = Vec::new();
    let mut i: usize = 0;
    proof {
        assert(fields@.take(0) =~= Seq::<FieldSpec>::empty());
        assert(names@.map_values(|n: String| n@) =~= Seq::<Seq<char>>::empty());
    }
    while i < fields.len()
        invariant
            i <= fields.len(),
            props@.len() == i,
            forall|j: int|
                0 <= j < i ==> (#[trigger] props@[j]).0@ == fields@[j].name@ && is_field_schema(
                    props@[j].1,
                    fields@[j].ty,
                ),
            is_text_array(JsonValue::Array(required), required_names(fields@.take(i as int))),
            names@.map_values(|n: String| n@) == all_defs(fields@.take(i as int)),
        decreases fields.len() - i,
    {
        let f = &fields[i];
        let ghost req0 = required@;
        proof {
            assert(fields@.take(i + 1).drop_last() =~= fields@.take(i as int));
            assert(fields@.take(i + 1).last() == fields@[i as int]);
        }
        let schema = field_schema(&f.ty, &mut names);
        props.push((copy_string(&f.name), schema));
        if !f.has_default && !is_option_type(&f.ty) {
            required.push(JsonValue::String(copy_string(&f.name)));
            proof {
                let rn = required_names(fields@.take(i + 1));
                assert(rn == required_names(fields@.take(i as int)).push(fields@[i as int].name@));
                assert forall|j: int| 0 <= j < rn.len() implies ((#[trigger] required@[j]) matches JsonValue::String(
                    t,
                ) && t@ == rn[j]) by {
                    if j < req0.len() {
                        assert(required@[j] == req0[j]);
                    }
                }
            }
        }
        i = i + 1;
    }
    proof {
        assert(fields@.take(fields.len() as int) =~= fields@);
    }
    let ghost all = names@.map_values(|n: String| n@);
    let mut seen: Vec<String> = Vec::new();
    let mut defs: Vec<(String, JsonValue)> = Vec::new();
    let mut k: usize = 0;
    proof {
        assert(all.take(0) =~= Seq::<Seq<char>>::empty());
        assert(seen@.map_values(|n: String| n@) =~= Seq::<Seq<char>>::empty());
    }
    while k < names.len()
        invariant
            k <= names.len(),
            all == names@.map_values(|n: String| n@),
            seen@.map_values(|n: String| n@) == first_occurrences(all.take(k as int)),
            defs@.len() == seen@.len(),
            forall|j: int|
                0 <= j < defs@.len() ==> (#[trigger] defs@[j]).0@ == seen@[j]@ && is_single_text(
                    defs@[j].1,
                    "type"@,
                    "object"@,
                ),
        decreases names.len() - k,
    {
        proof {
            assert(all.take(k + 1).drop_last() =~= all.take(k as int));
            assert(all.take(k + 1).last() == all[k as int]);
        }
        if !holds_name(&seen, names[k].as_str()) {
            let ghost s0 = seen@;
            seen.push(copy_string(&names[k]));
            defs.push((copy_string(&names[k]), single_text("type", string_of("object"))));
            proof {
                assert(seen@.map_values(|n: String| n@) =~= s0.map_values(|n: String| n@).push(all[k as int]));
            }
        }
        k = k + 1;
    }
    proof {
        assert(all.take(names.len() as int) =~= all);
        assert forall|j: int| 0 <= j < defs@.len() implies (#[trigger] defs@[j]).0@ == first_occurrences(all)[j] by {
            assert(seen@.map_values(|n: String| n@)[j] == seen@[j]@);
        }
    }
    (props, required, defs)
}

/// The JSON Schema of a struct with the fields `fields` (see
/// [`is_struct_schema`]).
pub fn json_schema_of(fields: &Vec<FieldSpec>) -> (r: JsonValue)
    ensures
        is_struct_schema(r, fields@),
{
    let (props, required, defs) = schema_parts(fields);
    let mut m: Vec<(String, JsonValue)> = Vec::new();
    m.push((string_of("type"), JsonValue::String(string_of("object"))));
    m.push((string_of("properties"), JsonValue::Object(props)));
    if required.len() > 0 {
        m.push((string_of("required"), JsonValue::Array(required)));
    }
    m.push((string_of("definitions"), JsonValue::Object(defs)));
    JsonValue::Object(m)
}

/// Whether `v` is the input schema of a tool plugin with the fields
/// `fields`: an object with `type` `object`, the `properties` (each
/// field's schema under its name, in order), the `required` names (always
/// there, empty when none is required), and the `definitions` only when
/// some type of its own is referred to.
pub open spec fn is_tool_plugin_schema(v: JsonValue, fields: Seq<FieldSpec>) -> bool {
    let req = required_names(fields);
    let defs = first_occurrences(all_defs(fields));
    &&& v matches JsonValue::Object(m)
    &&& m@.len() == if defs.len() > 0 { 4int } else { 3int }
    &&& m@[0].0@ == "type"@
    &&& m@[0].1 matches JsonValue::String(t) && t@ == "object"@
    &&& m@[1].0@ == "properties"@
    &&& m@[1].1 matches JsonValue::Object(props) && props@.len() == fields.len() && forall|i: int|
        0 <= i < fields.len() ==> (#[trigger] props@[i]).0@ == fields[i].name@ && is_field_schema(
            props@[i].1,
            fields[i].ty,
        )
    &&& m@[2].0@ == "required"@
    &&& is_text_array(m@[2].1, req)
    &&& defs.len() > 0 ==> m@[3].0@ == "definitions"@ && (m@[3].1 matches JsonValue::Object(ds)
        && ds@.len() == defs.len() && forall|i: int|
        0 <= i < defs.len() ==> (#[trigger] ds@[i]).0@ == defs[i] && is_single_text(
            ds@[i].1,
            "type"@,
            "object"@,
        ))
}

/// The input schema of a tool plugin with the fields `fields` (see
/// [`is_tool_plugin_schema`]).
pub fn tool_plugin_schema(fields: &Vec<FieldSpec>) -> (r: JsonValue)
    ensures
        is_tool_plugin_schema(r, fields@),
{
    let (props, required, defs) = schema_parts(fields);
    let mut m: Vec<(String, JsonValue)> = Vec::new();
    m.push((string_of("type"), JsonValue::String(string_of("object"))));
    m.push((string_of("properties"), JsonValue::Object(props)));
    m.push((string_of("required"), JsonValue::Array(required)));
    if defs.len() > 0 {
        m.push((string_of("definitions"), JsonValue::Object(defs)));
    }
    JsonValue::Object(m)
}

/// Whether `v` is the definition of the tool plugin `name` described by
/// `description` with the fields `fields`: its name, description, an empty
/// list of parameters and its input schema, in that order.
pub open spec fn is_tool_definition(
    v: JsonValue,
    name: Seq<char>,
    description: Seq<char>,
    fields: Seq<FieldSpec>,
) -> bool {
    &&& v matches JsonValue::Object(m)
    &&& m@.len() == 4
    &&& m@[0].0@ == "name"@ && (m@[0].1 matches JsonValue::String(t) && t@ == name)
    &&& m@[1].0@ == "description"@ && (m@[1].1 matches JsonValue::String(t) && t@ == description)
    &&& m@[2].0@ == "parameters"@ && (m@[2].1 matches JsonValue::Array(a) && a@.len() == 0)
    &&& m@[3].0@ == "input_schema"@ && is_tool_plugin_schema(m@[3].1, fields)
}

/// The definition of the tool plugin `name` described by `description`
/// with the fields `fields` (see [`is_tool_definition`]).
pub fn tool_plugin_definition(name: &str, description: &str, fields: &Vec<FieldSpec>) -> (r: JsonValue)
    ensures
        is_tool_definition(r, name@, description@, fields@),
{
    let mut m: Vec<(String, JsonValue)> = Vec::new();
    m.push((string_of("name"), JsonValue::String(string_of(name))));
    m.push((string_of("description"), JsonValue::String(string_of(description))));
    m.push((string_of("parameters"), JsonValue::Array(Vec::new())));
    m.push((string_of("input_schema"), tool_plugin_schema(fields)));
    JsonValue::Object(m)
}

/// The settings of a tool plugin: the path of its handler, the type of its
/// host-facing definition, and whether that type is `serde_json::Value`.
#[derive(Debug, PartialEq)]
pub struct PluginSettings {
    pub handler: String,
    pub definition: String,
    pub definition_is_json_value: bool,
}

/// The error for a plugin with no handler.
pub open spec fn missing_handler_text() -> Seq<char> {
    "ToolPlugin requires `#[plugin(handler = \"path::to::handler\")]` attribute"@
}

/// The handler and definition that the `key = value` pairs `kv` of one
/// plugin attribute set, or the first problem among them: a key given
/// twice, or a key other than `handler` and `definition`.
pub open spec fn scan_plugin(kv: Seq<(String, String)>) -> Result<
    (Option<Seq<char>>, Option<Seq<char>>),
    Seq<char>,
>
    decreases kv.len(),
{
    if kv.len() == 0 {
        Ok((None, None))
    } else {
        match scan_plugin(kv.drop_last()) {
            Err(e) => Err(e),
            Ok((h, d)) => {
                let k = kv.last().0@;
                let v = kv.last().1@;
                if k == "handler"@ {
                    if h is Some {
                        Err("duplicate `handler` key in #[plugin]"@)
                    } else {
                        Ok((Some(v), d))
                    }
                } else if k == "definition"@ {
                    if d is Some {
                        Err("duplicate `definition` key in #[plugin]"@)
                    } else {
                        Ok((h, Some(v)))
                    }
                } else {
                    Err("unknown plugin attribute, expected `handler` or `definition`"@)
                }
            },
        }
    }
}

/// `s` without its whitespace.
pub open spec fn without_whitespace(s: Seq<char>) -> Seq<char>
    decreases s.len(),
{
    if s.len() == 0 {
        s
    } else if is_unicode_whitespace(s.last()) {
        without_whitespace(s.drop_last())
    } else {
        without_whitespace(s.drop_last()).push(s.last())
    }
}

/// The settings of a tool plugin whose `#[plugin(...)]` attributes are
/// `attrs`, each as its `key = value` pairs: the first attribute is read
/// (see [`scan_plugin`]); a second one is refused; the handler must be
/// given; the definition type is `serde_json::Value` when not given, and
/// is that type when it reads so once whitespace is set aside.
pub open spec fn plugin_settings_of(attrs: Seq<Seq<(String, String)>>) -> Result<
    (Seq<char>, Seq<char>, bool),
    Seq<char>,
> {
    if attrs.len() == 0 {
        Err(missing_handler_text())
    } else {
        match scan_plugin(attrs[0]) {
            Err(e) => Err(e),
            Ok((h, d)) => if attrs.len() > 1 {
                Err("multiple #[plugin] attributes are not allowed"@)
            } else {
                match h {
                    None => Err(missing_handler_text()),
                    Some(handler) => {
                        let def = match d {
                            Some(x) => x,
                            None => "serde_json::Value"@,
                        };
                        Ok((handler, def, without_whitespace(def) == "serde_json::Value"@))
                    },
                }
            },
        }
    }
}

/// `s` without its whitespace.
fn strip_whitespace(s: &str) -> (r: String)
    ensures
        r@ == without_whitespace(s@),
{
    let v = chars_of(s);
    let mut r = String::new();
    let mut i: usize = 0;
    proof {
        assert(v@.take(0) =~= Seq::<char>::empty());
    }
    while i < v.len()
        invariant
            i <= v@.len(),
            v@ == s@,
            r@ == without_whitespace(v@.take(i as int)),
        decreases v.len() - i,
    {
        proof {
            assert(v@.take(i + 1).drop_last() =~= v@.take(i as int));
            assert(v@.take(i + 1).last() == v@[i as int]);
        }
        if !is_whitespace(v[i]) {
            push_char(&mut r, v[i]);
        }
        i = i + 1;
    }
    proof {
        assert(v@.take(v.len() as int) =~= v@);
    }
    r
}

/// Reads the settings of a tool plugin from its `#[plugin(...)]`
/// attributes, each given as its `key = value` pairs (see
/// [`plugin_settings_of`]).
pub fn read_plugin_settings(attrs: &Vec<Vec<(String, String)>>) -> (r: Result<PluginSettings, String>)
    ensures
        match plugin_settings_of(attrs@.map_values(|a: Vec<(String, String)>| a@)) {
            Ok((h, d, j)) => r matches Ok(p) && p.handler@ == h && p.definition@ == d
                && p.definition_is_json_value == j,
            Err(e) => r matches Err(m) && m@ == e,
        },
{
    let ghost av = attrs@.map_values(|a: Vec<(String, String)>| a@);
    if attrs.len() == 0 {
        return Err(string_of("ToolPlugin requires `#[plugin(handler = \"path::to::handler\")]` attribute"));
    }
    let kv = &attrs[0];
    assert(av[0] == kv@);
    let mut handler: Option<String> = None;
    let mut definition: Option<String> = None;
    let mut i: usize = 0;
    proof {
        assert(kv@.take(0) =~= Seq::<(String, String)>::empty());
    }
    while i < kv.len()
        invariant
            i <= kv@.len(),
            attrs@.len() > 0,
            av == attrs@.map_values(|a: Vec<(String, String)>| a@),
            av[0] == kv@,
            scan_plugin(kv@.take(i as int)) == Ok::<(Option<Seq<char>>, Option<Seq<char>>), Seq<char>>(
                (
                    match handler {
                        Some(h) => Some(h@),
                        None => None,
                    },
                    match definition {
                        Some(d) => Some(d@),
                        None => None,
                    },
                ),
            ),
        decreases kv.len() - i,
    {
        proof {
            assert(kv@.take(i + 1).drop_last() =~= kv@.take(i as int));
            assert(kv@.take(i + 1).last() == kv@[i as int]);
        }
        let key = kv[i].0.as_str();
        if str_eq(key, "handler") {
            if handler.is_some() {
                proof {
                    assert(scan_plugin(kv@.take(i + 1)) == Err::<(Option<Seq<char>>, Option<Seq<char>>), Seq<char>>("duplicate `handler` key in #[plugin]"@));
                    lemma_scan_stops(kv@, i as int);
                }
                return Err(string_of("duplicate `handler` key in #[plugin]"));
            }
            handler = Some(copy_string(&kv[i].1));
        } else if str_eq(key, "definition") {
            if definition.is_some() {
                proof {
                    assert(scan_plugin(kv@.take(i + 1)) == Err::<(Option<Seq<char>>, Option<Seq<char>>), Seq<char>>("duplicate `definition` key in #[plugin]"@));
                    lemma_scan_stops(kv@, i as int);
                }
                return Err(string_of("duplicate `definition` key in #[plugin]"));
            }
            definition = Some(copy_string(&kv[i].1));
        } else {
            proof {
                assert(scan_plugin(kv@.take(i + 1)) == Err::<(Option<Seq<char>>, Option<Seq<char>>), Seq<char>>("unknown plugin attribute, expected `handler` or `definition`"@));
                lemma_scan_stops(kv@, i as int);
            }
            return Err(string_of("unknown plugin attribute, expected `handler` or `definition`"));
        }
        i = i + 1;
    }
    proof {
        assert(kv@.take(kv.len() as int) =~= kv@);
    }
    if attrs.len() > 1 {
        return Err(string_of("multiple #[plugin] attributes are not allowed"));
    }
    let handler = match handler {
        Some(h) => h,
        None => {
            return Err(string_of("ToolPlugin requires `#[plugin(handler = \"path::to::handler\")]` attribute"));
        },
    };
    let definition = match definition {
        Some(d) => d,
        None => string_of("serde_json::Value"),
    };
    let bare = strip_whitespace(definition.as_str());
    let is_value = str_eq(bare.as_str(), "serde_json::Value");
    Ok(PluginSettings { handler, definition, definition_is_json_value: is_value })
}

/// A problem at pair `i` of one plugin attribute, after a clean prefix,
/// is the attribute's problem.
proof fn lemma_scan_stops(kv: Seq<(String, String)>, i: int)
    requires
        0 <= i < kv.len(),
        scan_plugin(kv.take(i + 1)) is Err,
    ensures
        scan_plugin(kv) == scan_plugin(kv.take(i + 1)),
    decreases kv.len() - i,
{
    if i + 1 < kv.len() {
        assert(kv.drop_last().take(i + 1) =~= kv.take(i + 1));
        lemma_scan_stops(kv.drop_last(), i);
    } else {
        assert(kv.take(i + 1) =~= kv);
    }
}

} // verus!
