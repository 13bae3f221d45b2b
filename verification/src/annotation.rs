//! The annotation parser: extracts a [`FactoryDeclaration`] from a factory
//! type's declaration, or aborts generation with a [`GenError`].
//!
//! The factory-level annotation must have the shape
//! `#[factory_model(SomeStruct)]`: a single bare identifier wrapped in
//! parentheses.  A per-field annotation
//! `#[factory(foreign_key_name = some_column)]` renames the foreign-key
//! column a relationship field uses.

use crate::decl::{
    AttrInput, DeclInput, FactoryDeclaration, FieldInput, FieldSpec, GenError, ShapeInput,
};
use vstd::prelude::*;

verus! {

// ---------------------------------------------------------------------
// Identifiers
// ---------------------------------------------------------------------

/// A character that may start a bare identifier.
pub open spec fn is_ident_start(c: char) -> bool {
    c == '_' || ('a' as u32 <= c as u32 && c as u32 <= 'z' as u32) || ('A' as u32 <= c as u32
        && c as u32 <= 'Z' as u32)
}

/// A character that may continue a bare identifier.
pub open spec fn is_ident_continue(c: char) -> bool {
    is_ident_start(c) || ('0' as u32 <= c as u32 && c as u32 <= '9' as u32)
}

/// A bare identifier: a nonempty word, no path separators, no spaces.
/// The accepted alphabet is ASCII (letters, digits, underscore): a
/// record type whose identifier uses characters outside it is rejected
/// as malformed rather than guessed at.
pub open spec fn is_bare_ident(s: Seq<char>) -> bool {
    &&& s.len() > 0
    &&& is_ident_start(s[0])
    &&& forall|i: int| 1 <= i < s.len() ==> is_ident_continue(#[trigger] s[i])
}

fn ident_start_char(c: char) -> (r: bool)
    ensures
        r == is_ident_start(c),
{
    c == '_' || (c >= 'a' && c <= 'z') || (c >= 'A' && c <= 'Z')
}

fn ident_continue_char(c: char) -> (r: bool)
    ensures
        r == is_ident_continue(c),
{
    ident_start_char(c) || (c >= '0' && c <= '9')
}

/// Decides whether a string is a single bare ASCII identifier.
pub fn is_bare_identifier(s: &str) -> (r: bool)
    ensures
        r == is_bare_ident(s@),
{
    let n = s.unicode_len();
    if n == 0 {
        return false;
    }
    if !ident_start_char(s.get_char(0)) {
        return false;
    }
    let mut i: usize = 1;
    while i < n
        invariant
            1 <= i <= n,
            n == s@.len(),
            is_ident_start(s@[0]),
            forall|j: int| 1 <= j < i ==> is_ident_continue(#[trigger] s@[j]),
        decreases n - i,
    {
        if !ident_continue_char(s.get_char(i)) {
            return false;
        }
        i += 1;
    }
    true
}

// ---------------------------------------------------------------------
// The parenthesized capture
// ---------------------------------------------------------------------

/// The earliest position `k >= j` where the closing pair `" )"` stands,
/// scanning left to right; the scan fails at a newline (the pattern's
/// middle cannot cross one) or at the end of the text.
pub open spec fn close_from(s: Seq<char>, j: int) -> Option<int>
    decreases s.len() - j when 0 <= j
{
    if j + 2 > s.len() {
        None
    } else if s[j] == ' ' && s[j + 1] == ')' {
        Some(j)
    } else if s[j] == '\n' {
        None
    } else {
        close_from(s, j + 1)
    }
}

/// The leftmost position `i` where `"( "` stands and a closing pair
/// follows, paired with the position of that closing pair.
pub open spec fn match_from(s: Seq<char>, i: int) -> Option<(int, int)>
    decreases s.len() - i when 0 <= i
{
    if i + 2 > s.len() {
        None
    } else if s[i] == '(' && s[i + 1] == ' ' && close_from(s, i + 2) is Some {
        Some((i, close_from(s, i + 2)->Some_0))
    } else {
        match_from(s, i + 1)
    }
}

/// What the capture returns on a token text: the characters between the
/// leftmost `"( "` and the earliest following `" )"`.
pub open spec fn spec_capture(s: Seq<char>) -> Option<Seq<char>> {
    match match_from(s, 0) {
        Some((i, j)) => Some(s.subrange(i + 2, j)),
        None => None,
    }
}

/// Relies on `regex::Regex::captures` with the pattern
/// `\( (?P<name>.*?) \)`: the overall match is leftmost, the middle
/// repetition is lazy (it stops at the earliest closing pair), and `.`
/// matches any character except a newline.
#[verifier::external_body]
fn capture_parenthesized(s: &str) -> (r: Option<String>)
    ensures
        match r {
            Some(c) => spec_capture(s@) == Some(c@),
            None => spec_capture(s@) is None,
        },
{
    let re = regex::Regex::new(r"\( (?P<name>.*?) \)").unwrap();
    re.captures(s).map(|caps| caps["name"].to_string())
}

// ---------------------------------------------------------------------
// Attribute lookup
// ---------------------------------------------------------------------

/// Whether some segment of the attribute's path is the given word.
pub open spec fn attr_has_segment(a: AttrInput, seg: Seq<char>) -> bool {
    exists|i: int| 0 <= i < a.path_segments@.len() && #[trigger] a.path_segments@[i]@ == seg
}

/// The first index at or after `i` of an attribute whose path holds the
/// given segment, or `-1` when there is none.
pub open spec fn find_attr_from(attrs: Seq<AttrInput>, seg: Seq<char>, i: int) -> int
    decreases attrs.len() - i when 0 <= i
{
    if i >= attrs.len() {
        -1
    } else if attr_has_segment(attrs[i], seg) {
        i
    } else {
        find_attr_from(attrs, seg, i + 1)
    }
}

pub(crate) fn str_eq(a: &str, b: &str) -> (r: bool)
    ensures
        r == (a@ == b@),
{
    let sa = a.to_owned();
    let sb = b.to_owned();
    sa == sb
}

fn attr_path_has_segment(a: &AttrInput, seg: &str) -> (r: bool)
    ensures
        r == attr_has_segment(*a, seg@),
{
    let n = a.path_segments.len();
    let mut i: usize = 0;
    while i < n
        invariant
            0 <= i <= n,
            n == a.path_segments@.len(),
            forall|j: int| 0 <= j < i ==> #[trigger] a.path_segments@[j]@ != seg@,
        decreases n - i,
    {
        if str_eq(a.path_segments[i].as_str(), seg) {
            return true;
        }
        i += 1;
    }
    false
}

/// What the factory-level annotation yields: the target record type's
/// identifier, or the error that aborts generation.  The annotation is the
/// first attribute whose path holds the segment `factory_model`; its value
/// must be a single bare identifier wrapped in parentheses.
pub open spec fn spec_model_name(attrs: Seq<AttrInput>) -> Result<Seq<char>, GenError> {
    let idx = find_attr_from(attrs, "factory_model"@, 0);
    if idx == -1 {
        Err(GenError::MissingModelAnnotation)
    } else {
        match spec_capture(attrs[idx].tokens@) {
            Some(c) => if is_bare_ident(c) {
                Ok(c)
            } else {
                Err(GenError::MalformedModelAnnotation)
            },
            None => Err(GenError::MalformedModelAnnotation),
        }
    }
}

/// What an optional factory-level annotation (the table handle or the
/// connection backend) yields: the identifier, or nothing when the
/// attribute is absent or not of the `( identifier )` shape.
pub open spec fn spec_optional_ident(attrs: Seq<AttrInput>, seg: Seq<char>) -> Option<Seq<char>> {
    let idx = find_attr_from(attrs, seg, 0);
    if idx == -1 {
        None
    } else {
        match spec_capture(attrs[idx].tokens@) {
            Some(c) => if is_bare_ident(c) {
                Some(c)
            } else {
                None
            },
            None => None,
        }
    }
}

/// The prefix a per-field relationship annotation's value must carry.
pub open spec fn fk_prefix() -> Seq<char> {
    "foreign_key_name = "@
}

/// What a per-field annotation's token text yields: the renamed
/// foreign-key column, when the text is `( foreign_key_name = ident )`.
pub open spec fn spec_fk_override(t: Seq<char>) -> Option<Seq<char>> {
    match spec_capture(t) {
        Some(c) => if c.len() >= fk_prefix().len() && c.subrange(0, fk_prefix().len() as int)
            == fk_prefix() && is_bare_ident(c.subrange(fk_prefix().len() as int, c.len() as int)) {
            Some(c.subrange(fk_prefix().len() as int, c.len() as int))
        } else {
            None
        },
        None => None,
    }
}

/// The foreign-key override a field carries: the value of its first
/// `factory` attribute, when that value has the renaming shape.
pub open spec fn field_override_spec(fi: FieldInput) -> Option<Seq<char>> {
    let idx = find_attr_from(fi.attrs@, "factory"@, 0);
    if idx == -1 {
        None
    } else {
        spec_fk_override(fi.attrs@[idx].tokens@)
    }
}

/// How one parsed field relates to the declared field it came from.
pub open spec fn field_spec_matches(fi: FieldInput, fs: FieldSpec) -> bool {
    match fi.name {
        Some(n) => {
            &&& fs.name@ == n@
            &&& fs.declared_type@ == fi.ty.full@
            &&& fs.is_relationship == (fi.ty.head@ == "Association"@)
            &&& match (field_override_spec(fi), fs.foreign_key_name) {
                (Some(o), Some(f)) => f@ == o,
                (None, None) => true,
                _ => false,
            }
        },
        None => false,
    }
}

/// The error on which parsing a declaration aborts, or `None` when the
/// declaration is well-formed.  The checks run in order: the factory-level
/// annotation, then the struct's shape, then each field's name.
/// Whether some declared field lacks an identifier.
pub open spec fn has_unnamed_field(fs: Seq<FieldInput>) -> bool {
    exists|i: int| 0 <= i < fs.len() && (#[trigger] fs[i]).name is None
}

pub open spec fn spec_decl_error(input: DeclInput) -> Option<GenError> {
    match spec_model_name(input.attrs@) {
        Err(e) => Some(e),
        Ok(m) => match input.shape {
            ShapeInput::NamedFields(fs) => if has_unnamed_field(fs@) {
                Some(GenError::FieldWithoutName)
            } else {
                None
            },
            _ => Some(GenError::UnsupportedShape),
        },
    }
}

/// How an `Option<String>` result relates to an optional word.
pub open spec fn opt_matches(o: Option<String>, s: Option<Seq<char>>) -> bool {
    match (o, s) {
        (Some(a), Some(b)) => a@ == b,
        (None, None) => true,
        _ => false,
    }
}

/// How a parsed configuration relates to the declaration it came from.
pub open spec fn decl_matches(input: DeclInput, d: FactoryDeclaration) -> bool {
    &&& d.factory_name@ == input.ident@
    &&& spec_model_name(input.attrs@) matches Ok(m) && d.target_record_type@ == m
    &&& opt_matches(d.table_handle, spec_optional_ident(input.attrs@, "factory_table"@))
    &&& opt_matches(d.connection_type, spec_optional_ident(input.attrs@, "factory_connection"@))
    &&& input.shape matches ShapeInput::NamedFields(fs) && d.fields@.len() == fs@.len()
        && forall|i: int|
        0 <= i < fs@.len() ==> field_spec_matches(#[trigger] fs@[i], d.fields@[i])
}

fn find_attr_index(attrs: &Vec<AttrInput>, seg: &str) -> (r: Option<usize>)
    ensures
        match r {
            Some(i) => i < attrs@.len() && find_attr_from(attrs@, seg@, 0) == i as int,
            None => find_attr_from(attrs@, seg@, 0) == -1,
        },
{
    let n = attrs.len();
    let mut i: usize = 0;
    while i < n
        invariant
            0 <= i <= n,
            n == attrs@.len(),
            find_attr_from(attrs@, seg@, 0) == find_attr_from(attrs@, seg@, i as int),
        decreases n - i,
    {
        if attr_path_has_segment(&attrs[i], seg) {
            return Some(i);
        }
        i += 1;
    }
    None
}

fn capture_bare_ident(tokens: &str) -> (r: Option<String>)
    ensures
        match r {
            Some(c) => spec_capture(tokens@) == Some(c@) && is_bare_ident(c@),
            None => !(spec_capture(tokens@) matches Some(c) && is_bare_ident(c)),
        },
{
    match capture_parenthesized(tokens) {
        Some(c) => {
            if is_bare_identifier(c.as_str()) {
                Some(c)
            } else {
                None
            }
        },
        None => None,
    }
}

/// Extracts the target record type from the factory-level annotation.
pub fn parse_model_name(attrs: &Vec<AttrInput>) -> (r: Result<String, GenError>)
    ensures
        match r {
            Ok(name) => spec_model_name(attrs@) == Ok::<Seq<char>, GenError>(name@),
            Err(e) => spec_model_name(attrs@) == Err::<Seq<char>, GenError>(e),
        },
{
    match find_attr_index(attrs, "factory_model") {
        None => Err(GenError::MissingModelAnnotation),
        Some(i) => match capture_bare_ident(attrs[i].tokens.as_str()) {
            Some(name) => Ok(name),
            None => Err(GenError::MalformedModelAnnotation),
        },
    }
}

/// Extracts an optional factory-level identifier annotation.
pub fn parse_optional_ident(attrs: &Vec<AttrInput>, seg: &str) -> (r: Option<String>)
    ensures
        opt_matches(r, spec_optional_ident(attrs@, seg@)),
{
    match find_attr_index(attrs, seg) {
        None => None,
        Some(i) => capture_bare_ident(attrs[i].tokens.as_str()),
    }
}

fn parse_fk_tokens(tokens: &str) -> (r: Option<String>)
    ensures
        opt_matches(r, spec_fk_override(tokens@)),
{
    proof {
        reveal_strlit("foreign_key_name = ");
    }
    match capture_parenthesized(tokens) {
        None => None,
        Some(c) => {
            let clen = c.as_str().unicode_len();
            if clen < 19 {
                return None;
            }
            let pre = c.as_str().substring_char(0, 19);
            if !str_eq(pre, "foreign_key_name = ") {
                return None;
            }
            let rest = c.as_str().substring_char(19, clen);
            if is_bare_identifier(rest) {
                Some(rest.to_owned())
            } else {
                None
            }
        },
    }
}

/// Extracts a field's foreign-key rename, when its `factory` annotation
/// carries one.
pub fn parse_field_override(field: &FieldInput) -> (r: Option<String>)
    ensures
        opt_matches(r, field_override_spec(*field)),
{
    match find_attr_index(&field.attrs, "factory") {
        None => None,
        Some(i) => parse_fk_tokens(field.attrs[i].tokens.as_str()),
    }
}

/// Parses a whole factory declaration, or aborts generation with the
/// error the declaration earns.  Parsing has no side effects and no
/// partial output: either every check passes and the configuration is
/// returned, or the first failing check's error is.
pub fn parse_declaration(input: DeclInput) -> (r: Result<FactoryDeclaration, GenError>)
    ensures
        match r {
            Ok(d) => spec_decl_error(input) is None && decl_matches(input, d),
            Err(e) => spec_decl_error(input) == Some(e),
        },
{
    let DeclInput { ident, attrs, shape } = input;
    let target = match parse_model_name(&attrs) {
        Ok(name) => name,
        Err(e) => {
            return Err(e);
        },
    };
    let table_handle = parse_optional_ident(&attrs, "factory_table");
    let connection_type = parse_optional_ident(&attrs, "factory_connection");
    let fields_in = match shape {
        ShapeInput::NamedFields(fs) => fs,
        _ => {
            return Err(GenError::UnsupportedShape);
        },
    };
    let mut fields: Vec<FieldSpec> = Vec::new();
    let n = fields_in.len();
    let mut i: usize = 0;
    while i < n
        invariant
            0 <= i <= n,
            n == fields_in@.len(),
            spec_model_name(input.attrs@) is Ok,
            input.shape == ShapeInput::NamedFields(fields_in),
            fields@.len() == i,
            forall|j: int|
                0 <= j < i ==> field_spec_matches(#[trigger] fields_in@[j], fields@[j]),
            forall|j: int| 0 <= j < i ==> #[trigger] fields_in@[j].name is Some,
        decreases n - i,
    {
        let fi = &fields_in[i];
        let name = match &fi.name {
            Some(n2) => n2.clone(),
            None => {
                proof {
                    assert(has_unnamed_field(fields_in@)) by {
                        assert(fields_in@[i as int].name is None);
                    }
                }
                return Err(GenError::FieldWithoutName);
            },
        };
        let foreign_key_name = parse_field_override(fi);
        let is_relationship = str_eq(fi.ty.head.as_str(), "Association");
        let declared_type = fi.ty.full.clone();
        fields.push(
            FieldSpec { name, declared_type, is_relationship, foreign_key_name },
        );
        i += 1;
    }
    Ok(
        FactoryDeclaration {
            factory_name: ident,
            target_record_type: target,
            table_handle,
            connection_type,
            fields,
        },
    )
}

} // verus!
