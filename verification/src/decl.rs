//! The source-level description of a factory type, as handed to the
//! generator, and the configuration extracted from it.

use vstd::prelude::*;

verus! {

/// One attribute attached to a declaration or a field: the segments of its
/// path and the token text that follows it, rendered with single spaces
/// between tokens (so `#[factory_model(User)]` carries the text `( User )`).
pub struct AttrInput {
    pub path_segments: Vec<String>,
    pub tokens: String,
}

/// The declared type of a field: the leading identifier of the type path
/// and the full type text.
pub struct TypeInput {
    pub head: String,
    pub full: String,
}

/// One field of the declared struct.  `name` is `None` for a tuple-style
/// field.
pub struct FieldInput {
    pub name: Option<String>,
    pub ty: TypeInput,
    pub attrs: Vec<AttrInput>,
}

/// The shape of the item the derive was placed on.
pub enum ShapeInput {
    NamedFields(Vec<FieldInput>),
    TupleStruct,
    UnitStruct,
    NotAStruct,
}

/// A whole factory declaration: the factory type's own name, its
/// attributes, and its shape.
pub struct DeclInput {
    pub ident: String,
    pub attrs: Vec<AttrInput>,
    pub shape: ShapeInput,
}

/// One field of the parsed configuration.
pub struct FieldSpec {
    /// The field's identifier.
    pub name: String,
    /// The full text of the declared type.
    pub declared_type: String,
    /// Whether the field is a foreign-key relationship (its declared type
    /// is the association type).
    pub is_relationship: bool,
    /// The column identifier to use for the foreign key, when the field
    /// annotation renames it; `None` means the field's own name is used.
    pub foreign_key_name: Option<String>,
}

/// The configuration extracted from a well-formed declaration.
pub struct FactoryDeclaration {
    pub factory_name: String,
    pub target_record_type: String,
    pub table_handle: Option<String>,
    pub connection_type: Option<String>,
    pub fields: Vec<FieldSpec>,
}

/// Why generation was aborted.  Every failure aborts generation entirely;
/// there is no partial output.
#[derive(Debug, PartialEq, Eq, Structural)]
pub enum GenError {
    /// No factory-level annotation names the target record type.
    MissingModelAnnotation,
    /// The factory-level annotation is not a single bare identifier
    /// (ASCII letters, digits and underscores) wrapped in parentheses.
    MalformedModelAnnotation,
    /// The derive target is not a struct with named fields.
    UnsupportedShape,
    /// A field has no identifier.
    FieldWithoutName,
}

impl GenError {
    /// The descriptive message the generator aborts with.
    pub fn message(&self) -> (m: &str)
        ensures
            match *self {
                GenError::MissingModelAnnotation => m@
                    == "#[derive(Factory)] requires you to also set the attribute #[factory_model(...)]"@,
                GenError::MalformedModelAnnotation => m@
                    == "The `factory_model` attributes must be on the form `#[factory_model(SomeStruct)]`"@,
                GenError::UnsupportedShape => m@
                    == "Factory can only be derived on structs with named fields"@,
                GenError::FieldWithoutName => m@ == "Field without name"@,
            },
    {
        match self {
            GenError::MissingModelAnnotation => "#[derive(Factory)] requires you to also set the attribute #[factory_model(...)]",
            GenError::MalformedModelAnnotation => "The `factory_model` attributes must be on the form `#[factory_model(SomeStruct)]`",
            GenError::UnsupportedShape => "Factory can only be derived on structs with named fields",
            GenError::FieldWithoutName => "Field without name",
        }
    }
}

} // verus!
