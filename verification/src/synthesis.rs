//! The factory synthesizer: turns a parsed [`FactoryDeclaration`] into the
//! code a factory type earns — one fluent setter per declared field, and
//! exactly one default-factory binding linking the factory type to the
//! target record type.
//!
//! The synthesized items are first produced as a value ([`GeneratedCode`])
//! and then rendered to source text; both steps are pure.

use crate::annotation::{
    field_spec_matches, parse_declaration, spec_decl_error, spec_model_name,
};
use crate::decl::{DeclInput, FactoryDeclaration, FieldInput, FieldSpec, GenError};
use vstd::prelude::*;

verus! {

/// The binding that declares the factory type as the target record
/// type's canonical default factory.  Generation emits exactly one of
/// these per declaration; a second factory bound to the same record type
/// in one scope is a conflict that the host language's own coherence
/// rules flag, not this generator.
pub struct BindingSpec {
    pub record_type: String,
    pub factory_type: String,
}

/// Which setter a field earns: a plain-value assignment, or an
/// association assignment for a foreign-key relationship.
pub enum SetterKind {
    Plain,
    Relationship { foreign_key_column: String },
}

/// One synthesized fluent setter.  The method consumes the factory
/// instance, assigns the one field it serves, and returns the instance.
pub struct SetterSpec {
    pub method_name: String,
    pub declared_type: String,
    pub kind: SetterKind,
}

/// Everything generation emits for one declaration.
pub struct GeneratedCode {
    pub binding: BindingSpec,
    pub setters: Vec<SetterSpec>,
}

/// The foreign-key column a relationship field uses: its annotation's
/// rename when one was given, else the field's own name.
pub open spec fn effective_fk_column(f: FieldSpec) -> Seq<char> {
    match f.foreign_key_name {
        Some(o) => o@,
        None => f.name@,
    }
}

/// How one synthesized setter relates to the field it serves.
pub open spec fn setter_matches_field(s: SetterSpec, f: FieldSpec) -> bool {
    &&& s.method_name@ == f.name@
    &&& s.declared_type@ == f.declared_type@
    &&& if f.is_relationship {
        s.kind matches SetterKind::Relationship { foreign_key_column }
            && foreign_key_column@ == effective_fk_column(f)
    } else {
        s.kind is Plain
    }
}

/// Synthesizes the generated items for a well-formed declaration: one
/// setter per field, in declaration order, under the field's own name,
/// and exactly one default-factory binding.
pub fn synthesize(decl: &FactoryDeclaration) -> (g: GeneratedCode)
    ensures
        g.binding.record_type@ == decl.target_record_type@,
        g.binding.factory_type@ == decl.factory_name@,
        g.setters@.len() == decl.fields@.len(),
        forall|i: int|
            0 <= i < decl.fields@.len() ==> setter_matches_field(
                #[trigger] g.setters@[i],
                decl.fields@[i],
            ),
{
    let binding = BindingSpec {
        record_type: decl.target_record_type.clone(),
        factory_type: decl.factory_name.clone(),
    };
    let mut setters: Vec<SetterSpec> = Vec::new();
    let n = decl.fields.len();
    let mut i: usize = 0;
    while i < n
        invariant
            0 <= i <= n,
            n == decl.fields@.len(),
            setters@.len() == i,
            forall|j: int|
                0 <= j < i ==> setter_matches_field(#[trigger] setters@[j], decl.fields@[j]),
        decreases n - i,
    {
        let f = &decl.fields[i];
        let kind = if f.is_relationship {
            let foreign_key_column = match &f.foreign_key_name {
                Some(c) => c.clone(),
                None => f.name.clone(),
            };
            SetterKind::Relationship { foreign_key_column }
        } else {
            SetterKind::Plain
        };
        setters.push(
            SetterSpec { method_name: f.name.clone(), declared_type: f.declared_type.clone(), kind },
        );
        i += 1;
    }
    GeneratedCode { binding, setters }
}

// ---------------------------------------------------------------------
// Rendering to source text
// ---------------------------------------------------------------------

/// The source text of one fluent setter, as the generator emits it.
pub open spec fn spec_render_setter(name: Seq<char>, ty: Seq<char>) -> Seq<char> {
    "pub fn "@ + name + "<T: Into<"@ + ty + ">>(mut self, value: T) -> Self { self."@ + name
        + " = value.into(); self }\n"@
}

/// The source text of the default-factory binding.
pub open spec fn spec_render_binding(factory: Seq<char>, record: Seq<char>) -> Seq<char> {
    "impl diesel_factories::DefaultFactory<"@ + factory + "> for "@ + record + " {}\n"@
}

/// The source text of the setters from position `i` on.
pub open spec fn spec_render_setters_from(ss: Seq<SetterSpec>, i: int) -> Seq<char>
    decreases ss.len() - i when 0 <= i
{
    if i >= ss.len() {
        Seq::empty()
    } else {
        spec_render_setter(ss[i].method_name@, ss[i].declared_type@) + spec_render_setters_from(
            ss,
            i + 1,
        )
    }
}

/// The whole emitted source text: the binding, then one `impl` block
/// holding every setter.
pub open spec fn spec_render_generated(g: GeneratedCode) -> Seq<char> {
    spec_render_binding(g.binding.factory_type@, g.binding.record_type@) + "impl "@
        + g.binding.factory_type@ + " {\n"@ + spec_render_setters_from(g.setters@, 0) + "}\n"@
}

/// Renders one setter to source text.
pub fn render_setter(s: &SetterSpec) -> (r: String)
    ensures
        r@ == spec_render_setter(s.method_name@, s.declared_type@),
{
    let mut out = "pub fn ".to_owned();
    out.append(s.method_name.as_str());
    out.append("<T: Into<");
    out.append(s.declared_type.as_str());
    out.append(">>(mut self, value: T) -> Self { self.");
    out.append(s.method_name.as_str());
    out.append(" = value.into(); self }\n");
    proof {
        assert(out@ =~= spec_render_setter(s.method_name@, s.declared_type@));
    }
    out
}

/// Renders the default-factory binding to source text.
pub fn render_binding(b: &BindingSpec) -> (r: String)
    ensures
        r@ == spec_render_binding(b.factory_type@, b.record_type@),
{
    let mut out = "impl diesel_factories::DefaultFactory<".to_owned();
    out.append(b.factory_type.as_str());
    out.append("> for ");
    out.append(b.record_type.as_str());
    out.append(" {}\n");
    proof {
        assert(out@ =~= spec_render_binding(b.factory_type@, b.record_type@));
    }
    out
}

/// Renders everything generation emits for one declaration.
pub fn render_generated(g: &GeneratedCode) -> (r: String)
    ensures
        r@ == spec_render_generated(*g),
{
    let mut setters_text = String::new();
    let n = g.setters.len();
    let mut i: usize = 0;
    proof {
        assert(setters_text@ + spec_render_setters_from(g.setters@, 0)
            =~= spec_render_setters_from(g.setters@, 0));
    }
    while i < n
        invariant
            0 <= i <= n,
            n == g.setters@.len(),
            setters_text@ + spec_render_setters_from(g.setters@, i as int)
                == spec_render_setters_from(g.setters@, 0),
        decreases n - i,
    {
        let piece = render_setter(&g.setters[i]);
        proof {
            assert((setters_text@ + piece@) + spec_render_setters_from(g.setters@, i + 1)
                =~= setters_text@ + (piece@ + spec_render_setters_from(g.setters@, i + 1)));
        }
        setters_text.append(piece.as_str());
        i += 1;
    }
    proof {
        assert(setters_text@ + spec_render_setters_from(g.setters@, n as int) =~= setters_text@);
    }
    let mut out = render_binding(&g.binding);
    out.append("impl ");
    out.append(g.binding.factory_type.as_str());
    out.append(" {\n");
    out.append(setters_text.as_str());
    out.append("}\n");
    proof {
        assert(out@ =~= spec_render_generated(*g));
    }
    out
}

// ---------------------------------------------------------------------
// The whole generation step
// ---------------------------------------------------------------------

/// The setter text a declaration's named fields yield, from position `i`
/// on.  The emitted setter is the same for plain and relationship
/// fields: each assigns through `Into` the declared type, which for a
/// relationship field is the association type itself.
pub open spec fn spec_field_setters_from(fs: Seq<FieldInput>, i: int) -> Seq<char>
    decreases fs.len() - i when 0 <= i
{
    if i >= fs.len() {
        Seq::empty()
    } else {
        spec_render_setter((fs[i].name->Some_0)@, fs[i].ty.full@) + spec_field_setters_from(
            fs,
            i + 1,
        )
    }
}

/// The whole source text generation emits for a well-formed declaration.
pub open spec fn spec_generated_text(input: DeclInput) -> Seq<char> {
    let record = spec_model_name(input.attrs@)->Ok_0;
    let fs = (input.shape->NamedFields_0)@;
    spec_render_binding(input.ident@, record) + "impl "@ + input.ident@ + " {\n"@
        + spec_field_setters_from(fs, 0) + "}\n"@
}

proof fn lemma_setters_text(
    ss: Seq<SetterSpec>,
    fs: Seq<FieldInput>,
    fields: Seq<FieldSpec>,
    i: int,
)
    requires
        ss.len() == fs.len(),
        fields.len() == fs.len(),
        forall|j: int| 0 <= j < fs.len() ==> field_spec_matches(#[trigger] fs[j], fields[j]),
        forall|j: int| 0 <= j < fs.len() ==> setter_matches_field(#[trigger] ss[j], fields[j]),
        0 <= i <= ss.len(),
    ensures
        spec_render_setters_from(ss, i) == spec_field_setters_from(fs, i),
    decreases ss.len() - i,
{
    if i < ss.len() {
        lemma_setters_text(ss, fs, fields, i + 1);
    }
}

/// The generation step the derive performs for one declaration: parse
/// the annotations, synthesize the setters and the binding, render the
/// emitted source text.  Either every check passes and the text is
/// returned, or generation aborts with the declaration's error and
/// emits nothing.
pub fn generate(input: DeclInput) -> (r: Result<String, GenError>)
    ensures
        match r {
            Ok(code) => spec_decl_error(input) is None && code@ == spec_generated_text(input),
            Err(e) => spec_decl_error(input) == Some(e),
        },
{
    let ghost snapshot = input;
    let decl = match parse_declaration(input) {
        Ok(d) => d,
        Err(e) => {
            return Err(e);
        },
    };
    let g = synthesize(&decl);
    let code = render_generated(&g);
    proof {
        lemma_setters_text(
            g.setters@,
            (snapshot.shape->NamedFields_0)@,
            decl.fields@,
            0,
        );
    }
    Ok(code)
}

} // verus!
