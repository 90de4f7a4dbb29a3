//! The records that extraction produces and hands to code generation.
use vstd::prelude::*;

verus! {

/// One field of an annotated class.
#[derive(Debug)]
pub struct Field {
    /// The canonical type text, without a trailing nullability marker.
    pub type_str: String,
    pub name_str: String,
    pub is_nullable: bool,
}

/// Which shape of copy-with code to generate for a class.
#[derive(Debug, PartialEq, Eq, Clone, Copy, Structural)]
pub enum CopyWithClassType {
    Extension,
    Mixin,
    ExtensionForcingNullableValue,
}

/// One annotated class with its fields in declaration order.
#[derive(Debug)]
pub struct Class {
    pub name_str: String,
    pub fields: Vec<Field>,
    pub copy_with_class_type: CopyWithClassType,
}

/// Why a source file could not be parsed.
#[derive(Debug)]
pub enum ParseError {
    /// The syntax tree could not be built.
    Syntax,
    /// An annotating comment names no known copy-with variant; it carries the
    /// comment's text.
    UnknownVariant(String),
}

/// A field as plain values.
pub struct FieldModel {
    pub name: Seq<char>,
    pub type_str: Seq<char>,
    pub is_nullable: bool,
}

/// A class as plain values.
pub struct ClassModel {
    pub name: Seq<char>,
    pub fields: Seq<FieldModel>,
    pub variant: CopyWithClassType,
}

impl View for Field {
    type V = FieldModel;

    open spec fn view(&self) -> FieldModel {
        FieldModel { name: self.name_str@, type_str: self.type_str@, is_nullable: self.is_nullable }
    }
}

impl View for Class {
    type V = ClassModel;

    open spec fn view(&self) -> ClassModel {
        ClassModel {
            name: self.name_str@,
            fields: self.fields@.map_values(|f: Field| f@),
            variant: self.copy_with_class_type,
        }
    }
}

/// The models of a sequence of classes.
pub open spec fn classes_view(v: Seq<Class>) -> Seq<ClassModel> {
    v.map_values(|c: Class| c@)
}

} // verus!
