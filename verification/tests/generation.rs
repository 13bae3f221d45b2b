use diesel_factories::annotation::{parse_declaration, parse_model_name};
use diesel_factories::decl::{AttrInput, DeclInput, FieldInput, GenError, ShapeInput, TypeInput};
use diesel_factories::synthesis::{generate, render_generated, synthesize, SetterKind};

fn attr(segments: &[&str], tokens: &str) -> AttrInput {
    AttrInput {
        path_segments: segments.iter().map(|s| s.to_string()).collect(),
        tokens: tokens.to_string(),
    }
}

fn field(name: &str, head: &str, full: &str, attrs: Vec<AttrInput>) -> FieldInput {
    FieldInput {
        name: Some(name.to_string()),
        ty: TypeInput { head: head.to_string(), full: full.to_string() },
        attrs,
    }
}

fn user_factory_decl() -> DeclInput {
    DeclInput {
        ident: "UserFactory".to_string(),
        attrs: vec![attr(&["factory_model"], "( User )")],
        shape: ShapeInput::NamedFields(vec![
            field("name", "String", "String", vec![]),
            field("age", "i32", "i32", vec![]),
        ]),
    }
}

#[test]
fn parse_extracts_model_and_fields() {
    let d = parse_declaration(user_factory_decl()).unwrap();
    assert_eq!(d.factory_name, "UserFactory");
    assert_eq!(d.target_record_type, "User");
    assert!(d.table_handle.is_none());
    assert!(d.connection_type.is_none());
    assert_eq!(d.fields.len(), 2);
    assert_eq!(d.fields[0].name, "name");
    assert_eq!(d.fields[0].declared_type, "String");
    assert!(!d.fields[0].is_relationship);
    assert_eq!(d.fields[1].name, "age");
}

#[test]
fn missing_model_annotation_fails() {
    let mut input = user_factory_decl();
    input.attrs = vec![attr(&["derive"], "( Clone )")];
    let r = parse_declaration(input);
    assert!(matches!(r, Err(GenError::MissingModelAnnotation)));
}

#[test]
fn qualified_path_is_malformed() {
    let mut input = user_factory_decl();
    input.attrs = vec![attr(&["factory_model"], "( foo :: User )")];
    let r = parse_declaration(input);
    assert!(matches!(r, Err(GenError::MalformedModelAnnotation)));
}

#[test]
fn empty_annotation_is_malformed() {
    let mut input = user_factory_decl();
    input.attrs = vec![attr(&["factory_model"], "")];
    let r = parse_declaration(input);
    assert!(matches!(r, Err(GenError::MalformedModelAnnotation)));
}

#[test]
fn tuple_struct_is_unsupported() {
    let mut input = user_factory_decl();
    input.shape = ShapeInput::TupleStruct;
    assert!(matches!(parse_declaration(input), Err(GenError::UnsupportedShape)));
}

#[test]
fn enum_is_unsupported() {
    let mut input = user_factory_decl();
    input.shape = ShapeInput::NotAStruct;
    assert!(matches!(parse_declaration(input), Err(GenError::UnsupportedShape)));
}

#[test]
fn unnamed_field_fails() {
    let mut input = user_factory_decl();
    input.shape = ShapeInput::NamedFields(vec![FieldInput {
        name: None,
        ty: TypeInput { head: "i32".to_string(), full: "i32".to_string() },
        attrs: vec![],
    }]);
    assert!(matches!(parse_declaration(input), Err(GenError::FieldWithoutName)));
}

#[test]
fn parse_model_name_strips_parentheses() {
    let attrs = vec![attr(&["factory_model"], "( User )")];
    assert_eq!(parse_model_name(&attrs).unwrap(), "User");
}

#[test]
fn optional_table_and_connection_are_read() {
    let mut input = user_factory_decl();
    input.attrs.push(attr(&["factory_table"], "( users )"));
    input.attrs.push(attr(&["factory_connection"], "( PgConnection )"));
    let d = parse_declaration(input).unwrap();
    assert_eq!(d.table_handle.as_deref(), Some("users"));
    assert_eq!(d.connection_type.as_deref(), Some("PgConnection"));
}

#[test]
fn foreign_key_rename_is_recorded() {
    let mut input = user_factory_decl();
    input.shape = ShapeInput::NamedFields(vec![field(
        "country",
        "Association",
        "Association<Country, CountryFactory>",
        vec![attr(&["factory"], "( foreign_key_name = country_identifier )")],
    )]);
    let d = parse_declaration(input).unwrap();
    assert!(d.fields[0].is_relationship);
    assert_eq!(d.fields[0].foreign_key_name.as_deref(), Some("country_identifier"));
}

#[test]
fn relationship_without_rename_uses_field_name() {
    let mut input = user_factory_decl();
    input.shape = ShapeInput::NamedFields(vec![field(
        "country",
        "Association",
        "Association<Country, CountryFactory>",
        vec![],
    )]);
    let d = parse_declaration(input).unwrap();
    assert!(d.fields[0].is_relationship);
    assert!(d.fields[0].foreign_key_name.is_none());
    let g = synthesize(&d);
    match &g.setters[0].kind {
        SetterKind::Relationship { foreign_key_column } => {
            assert_eq!(foreign_key_column, "country");
        }
        SetterKind::Plain => panic!("expected a relationship setter"),
    }
}

#[test]
fn one_setter_per_field() {
    let d = parse_declaration(user_factory_decl()).unwrap();
    let g = synthesize(&d);
    assert_eq!(g.setters.len(), 2);
    assert_eq!(g.setters[0].method_name, "name");
    assert_eq!(g.setters[1].method_name, "age");
    assert!(matches!(g.setters[0].kind, SetterKind::Plain));
    assert!(matches!(g.setters[1].kind, SetterKind::Plain));
    assert_eq!(g.binding.record_type, "User");
    assert_eq!(g.binding.factory_type, "UserFactory");
}

#[test]
fn rendered_code_is_exact() {
    let d = parse_declaration(user_factory_decl()).unwrap();
    let g = synthesize(&d);
    let code = render_generated(&g);
    let expected = "impl diesel_factories::DefaultFactory<UserFactory> for User {}\n\
                    impl UserFactory {\n\
                    pub fn name<T: Into<String>>(mut self, value: T) -> Self { self.name = value.into(); self }\n\
                    pub fn age<T: Into<i32>>(mut self, value: T) -> Self { self.age = value.into(); self }\n\
                    }\n";
    assert_eq!(code, expected);
}

#[test]
fn one_binding_per_generation() {
    let d = parse_declaration(user_factory_decl()).unwrap();
    let g = synthesize(&d);
    let code = render_generated(&g);
    let needle = "impl diesel_factories::DefaultFactory<";
    assert_eq!(code.matches(needle).count(), 1);
}

#[test]
fn generate_emits_code_or_nothing() {
    let code = generate(user_factory_decl()).unwrap();
    assert!(code.contains("pub fn name<T: Into<String>>"));
    let mut bad = user_factory_decl();
    bad.attrs = vec![attr(&["factory_model"], "( crate::User )")];
    assert!(matches!(generate(bad), Err(GenError::MalformedModelAnnotation)));
}

#[test]
fn error_messages_are_descriptive() {
    assert!(GenError::MissingModelAnnotation.message().contains("factory_model"));
    assert!(GenError::MalformedModelAnnotation.message().contains("factory_model(SomeStruct)"));
    assert!(GenError::UnsupportedShape.message().contains("named fields"));
    assert_eq!(GenError::FieldWithoutName.message(), "Field without name");
}
