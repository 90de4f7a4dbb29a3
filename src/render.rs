//! The values that the copy-with template reads for each class and field.
use vstd::prelude::*;
use crate::types::{Class, CopyWithClassType, Field};

verus! {

/// What the template reads of one field.
pub struct FieldContext {
    pub name_str: String,
    pub type_str: String,
    /// The field's declared type, with `?` when it is nullable.
    pub type_str_nullable: String,
    /// The parameter type of the copy-with method for this field.
    pub type_str_wrapped_nullable_value: String,
    pub is_nullable: bool,
}

/// What the template reads of one class.
pub struct ClassContext {
    pub class_name: String,
    pub variant: CopyWithClassType,
    pub is_mixin: bool,
    pub fields: Vec<FieldContext>,
}

/// The name under which the template knows a copy-with variant.
pub open spec fn variant_name_of(v: CopyWithClassType) -> Seq<char> {
    match v {
        CopyWithClassType::Extension => "extension"@,
        CopyWithClassType::Mixin => "mixin"@,
        CopyWithClassType::ExtensionForcingNullableValue => "extension_forcing_nullable_value"@,
    }
}

/// The name under which the template knows a copy-with variant.
pub fn variant_name(v: CopyWithClassType) -> (r: String)
    ensures
        r@ == variant_name_of(v),
{
    match v {
        CopyWithClassType::Extension => String::from_str("extension"),
        CopyWithClassType::Mixin => String::from_str("mixin"),
        CopyWithClassType::ExtensionForcingNullableValue => String::from_str(
            "extension_forcing_nullable_value",
        ),
    }
}

/// The declared type of a field: its type text, followed by `?` when it is
/// nullable.
pub open spec fn declared_type(f: Field) -> Seq<char> {
    if f.is_nullable {
        f.type_str@ + "?"@
    } else {
        f.type_str@
    }
}

/// The copy-with parameter type of a field: `NullableValue<T?>?` for a
/// nullable field of type `T`, so that an explicit null can be told from an
/// absent argument, and `T?` otherwise.
pub open spec fn wrapped_type(f: Field) -> Seq<char> {
    if f.is_nullable {
        "NullableValue<"@ + f.type_str@ + "?>?"@
    } else {
        f.type_str@ + "?"@
    }
}

/// The context of one field.
pub fn field_context(f: &Field) -> (r: FieldContext)
    ensures
        r.name_str@ == f.name_str@,
        r.type_str@ == f.type_str@,
        r.type_str_nullable@ == declared_type(*f),
        r.type_str_wrapped_nullable_value@ == wrapped_type(*f),
        r.is_nullable == f.is_nullable,
{
    let mut type_str_nullable = f.type_str.clone();
    if f.is_nullable {
        type_str_nullable.append("?");
    }
    let mut wrapped: String;
    if f.is_nullable {
        wrapped = String::from_str("NullableValue<");
        wrapped.append(f.type_str.as_str());
        wrapped.append("?>?");
    } else {
        wrapped = f.type_str.clone();
        wrapped.append("?");
    }
    FieldContext {
        name_str: f.name_str.clone(),
        type_str: f.type_str.clone(),
        type_str_nullable,
        type_str_wrapped_nullable_value: wrapped,
        is_nullable: f.is_nullable,
    }
}

/// The context of one class: its name, its copy-with variant, whether it is
/// generated as a mixin, and the context of each field in order.
pub fn class_context(c: &Class) -> (r: ClassContext)
    ensures
        r.class_name@ == c.name_str@,
        r.variant == c.copy_with_class_type,
        r.is_mixin == (c.copy_with_class_type == CopyWithClassType::Mixin),
        r.fields@.len() == c.fields@.len(),
        forall|i: int|
            0 <= i < c.fields@.len() ==> {
                let f = #[trigger] c.fields@[i];
                let x = r.fields@[i];
                &&& x.name_str@ == f.name_str@
                &&& x.type_str@ == f.type_str@
                &&& x.type_str_nullable@ == declared_type(f)
                &&& x.type_str_wrapped_nullable_value@ == wrapped_type(f)
                &&& x.is_nullable == f.is_nullable
            },
{
    let mut fields: Vec<FieldContext> = Vec::new();
    let mut i: usize = 0;
    while i < c.fields.len()
        invariant
            0 <= i <= c.fields@.len(),
            fields@.len() == i,
            forall|j: int|
                0 <= j < i ==> {
                    let f = #[trigger] c.fields@[j];
                    let x = fields@[j];
                    &&& x.name_str@ == f.name_str@
                    &&& x.type_str@ == f.type_str@
                    &&& x.type_str_nullable@ == declared_type(f)
                    &&& x.type_str_wrapped_nullable_value@ == wrapped_type(f)
                    &&& x.is_nullable == f.is_nullable
                },
        decreases c.fields@.len() - i,
    {
        fields.push(field_context(&c.fields[i]));
        i = i + 1;
    }
    ClassContext {
        class_name: c.name_str.clone(),
        variant: c.copy_with_class_type,
        is_mixin: c.copy_with_class_type == CopyWithClassType::Mixin,
        fields,
    }
}

} // verus!
