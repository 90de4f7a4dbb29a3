use frosted::render::{class_context, field_context, variant_name};
use frosted::types::{Class, CopyWithClassType, Field};

fn field(name: &str, ty: &str, nullable: bool) -> Field {
    Field {
        type_str: ty.to_string(),
        name_str: name.to_string(),
        is_nullable: nullable,
    }
}

#[test]
fn nullable_field_context() {
    let c = field_context(&field("x", "int", true));
    assert_eq!(c.name_str, "x");
    assert_eq!(c.type_str, "int");
    assert_eq!(c.type_str_nullable, "int?");
    assert_eq!(c.type_str_wrapped_nullable_value, "NullableValue<int?>?");
    assert!(c.is_nullable);
}

#[test]
fn plain_field_context() {
    let c = field_context(&field("ys", "List<int>", false));
    assert_eq!(c.type_str_nullable, "List<int>");
    assert_eq!(c.type_str_wrapped_nullable_value, "List<int>?");
    assert!(!c.is_nullable);
}

#[test]
fn class_context_marks_mixins() {
    let c = Class {
        name_str: "Point".to_string(),
        fields: vec![field("x", "int", true), field("y", "int", false)],
        copy_with_class_type: CopyWithClassType::Mixin,
    };
    let ctx = class_context(&c);
    assert_eq!(ctx.class_name, "Point");
    assert!(ctx.is_mixin);
    assert_eq!(ctx.fields.len(), 2);
    assert_eq!(ctx.fields[1].name_str, "y");
    let e = Class {
        name_str: "E".to_string(),
        fields: vec![],
        copy_with_class_type: CopyWithClassType::Extension,
    };
    assert!(!class_context(&e).is_mixin);
    assert_eq!(class_context(&e).variant, CopyWithClassType::Extension);
    let n = Class {
        name_str: "N".to_string(),
        fields: vec![],
        copy_with_class_type: CopyWithClassType::ExtensionForcingNullableValue,
    };
    let ctx = class_context(&n);
    assert!(!ctx.is_mixin);
    assert_eq!(ctx.variant, CopyWithClassType::ExtensionForcingNullableValue);
}

#[test]
fn variant_names() {
    assert_eq!(variant_name(CopyWithClassType::Extension), "extension");
    assert_eq!(variant_name(CopyWithClassType::Mixin), "mixin");
    assert_eq!(
        variant_name(CopyWithClassType::ExtensionForcingNullableValue),
        "extension_forcing_nullable_value"
    );
}
