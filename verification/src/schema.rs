//! The schema of a configuration type: the field descriptors from which the
//! layer, the environment keys and the file decoding are all derived.
//!
//! Nesting is represented by ownership, so a configuration type can never
//! nest itself, directly or transitively.

use vstd::prelude::*;
use crate::attrs::{
    Annotation, AnnotationV, AttrError, AttrErrorV, AttrsV, ConfigAttributes, annotations_view,
    attr_errors_view, spec_parse_attributes, parse_config_field_attributes,
};
use crate::value::ScalarKind;

verus! {

/// What one field holds: an atomic value of a kind, or a nested
/// configuration type with its own schema.
#[derive(Debug, PartialEq)]
pub enum FieldKind {
    Scalar(ScalarKind),
    Nested(Schema),
}

/// One field of a configuration type.
#[derive(Debug, PartialEq)]
pub struct FieldSchema {
    pub name: String,
    pub attrs: ConfigAttributes,
    pub kind: FieldKind,
}

/// The schema of a configuration type: its own attributes and its fields,
/// in declaration order.
#[derive(Debug, PartialEq)]
pub struct Schema {
    pub attrs: ConfigAttributes,
    pub fields: Vec<FieldSchema>,
}

#[verifier::ext_equal]
pub enum FieldKindV {
    Scalar(ScalarKind),
    Nested(SchemaV),
}

#[verifier::ext_equal]
pub struct FieldSchemaV {
    pub name: Seq<char>,
    pub attrs: AttrsV,
    pub kind: FieldKindV,
}

#[verifier::ext_equal]
pub struct SchemaV {
    pub attrs: AttrsV,
    pub fields: Seq<FieldSchemaV>,
}

pub open spec fn schema_view(s: Schema) -> SchemaV
    decreases s,
{
    SchemaV { attrs: s.attrs@, fields: fields_seq_view(s.fields@) }
}

pub open spec fn fields_seq_view(s: Seq<FieldSchema>) -> Seq<FieldSchemaV>
    decreases s,
{
    if s.len() == 0 {
        Seq::empty()
    } else {
        fields_seq_view(s.drop_last()).push(field_schema_view(s.last()))
    }
}

pub open spec fn field_schema_view(f: FieldSchema) -> FieldSchemaV
    decreases f,
{
    FieldSchemaV { name: f.name@, attrs: f.attrs@, kind: field_kind_view(f.kind) }
}

pub open spec fn field_kind_view(k: FieldKind) -> FieldKindV
    decreases k,
{
    match k {
        FieldKind::Scalar(sk) => FieldKindV::Scalar(sk),
        FieldKind::Nested(sub) => FieldKindV::Nested(schema_view(sub)),
    }
}

impl View for Schema {
    type V = SchemaV;

    open spec fn view(&self) -> SchemaV {
        schema_view(*self)
    }
}

impl View for FieldSchema {
    type V = FieldSchemaV;

    open spec fn view(&self) -> FieldSchemaV {
        field_schema_view(*self)
    }
}

impl View for FieldKind {
    type V = FieldKindV;

    open spec fn view(&self) -> FieldKindV {
        field_kind_view(*self)
    }
}

/// Index characterization of [`fields_seq_view`].
pub proof fn lemma_fields_seq_view(s: Seq<FieldSchema>)
    ensures
        fields_seq_view(s).len() == s.len(),
        forall|i: int| 0 <= i < s.len() ==> fields_seq_view(s)[i] == field_schema_view(s[i]),
    decreases s,
{
    if s.len() > 0 {
        lemma_fields_seq_view(s.drop_last());
    }
}

/// The raw declaration of one field: its name, its declared shape, and its
/// annotations as written.
#[derive(Debug, PartialEq)]
pub struct RawFieldDecl {
    pub name: String,
    pub kind: FieldKind,
    pub annotations: Vec<Annotation>,
}

#[verifier::ext_equal]
pub struct RawFieldDeclV {
    pub name: Seq<char>,
    pub kind: FieldKindV,
    pub annotations: Seq<AnnotationV>,
}

pub open spec fn raw_field_decl_view(d: RawFieldDecl) -> RawFieldDeclV
    decreases d,
{
    RawFieldDeclV {
        name: d.name@,
        kind: field_kind_view(d.kind),
        annotations: annotations_view(d.annotations@),
    }
}

impl View for RawFieldDecl {
    type V = RawFieldDeclV;

    open spec fn view(&self) -> RawFieldDeclV {
        raw_field_decl_view(*self)
    }
}

pub open spec fn raw_decls_view(s: Seq<RawFieldDecl>) -> Seq<RawFieldDeclV> {
    Seq::new(s.len(), |i: int| raw_field_decl_view(s[i]))
}

/// The field descriptor of one raw declaration, or the errors it raises: its
/// annotation errors, or the disagreement between a `nest` annotation and
/// the declared shape.
pub open spec fn spec_extract_one(d: RawFieldDeclV) -> (Seq<FieldSchemaV>, Seq<AttrErrorV>) {
    let parsed = spec_parse_attributes(d.annotations);
    if parsed.1.len() > 0 {
        (Seq::empty(), parsed.1)
    } else if parsed.0.nest != (d.kind is Nested) {
        (Seq::empty(), seq![AttrErrorV::NestMismatch(d.name)])
    } else {
        (seq![FieldSchemaV { name: d.name, attrs: parsed.0, kind: d.kind }], Seq::empty())
    }
}

/// The field descriptors of a run of raw declarations, with the structural
/// errors of every field collected in declaration order.
pub open spec fn spec_extract_fields(decls: Seq<RawFieldDeclV>) -> (
    Seq<FieldSchemaV>,
    Seq<AttrErrorV>,
)
    decreases decls.len(),
{
    if decls.len() == 0 {
        (Seq::empty(), Seq::empty())
    } else {
        let prev = spec_extract_fields(decls.drop_last());
        let one = spec_extract_one(decls.last());
        (prev.0 + one.0, prev.1 + one.1)
    }
}

/// Normalizes the annotations of every raw field declaration into field
/// descriptors, or collects the structural errors of all fields.
pub fn extract_fields(decls: Vec<RawFieldDecl>) -> (r: Result<Vec<FieldSchema>, Vec<AttrError>>)
    ensures
        ({
            let extracted = spec_extract_fields(raw_decls_view(decls@));
            match r {
                Ok(fs) => extracted.1.len() == 0 && fields_seq_view(fs@) == extracted.0,
                Err(es) => extracted.1.len() > 0 && attr_errors_view(es@) == extracted.1,
            }
        }),
{
    let ghost orig = decls@;
    let total = decls.len();
    assert(orig.len() == total);
    let mut rest = decls;
    let mut fields: Vec<FieldSchema> = Vec::new();
    let mut errors: Vec<AttrError> = Vec::new();
    let mut i: usize = 0;
    proof {
        assert(fields_seq_view(fields@) =~= spec_extract_fields(
            raw_decls_view(orig.take(0)),
        ).0);
        assert(attr_errors_view(errors@) =~= spec_extract_fields(
            raw_decls_view(orig.take(0)),
        ).1);
    }
    while rest.len() > 0
        invariant
            i + rest.len() == orig.len(),
            orig.len() <= usize::MAX,
            rest@ =~= orig.skip(i as int),
            (fields_seq_view(fields@), attr_errors_view(errors@)) == spec_extract_fields(
                raw_decls_view(orig.take(i as int)),
            ),
        decreases rest.len(),
    {
        let one = rest.remove(0);
        assert(one == orig[i as int]);
        let ghost prev = spec_extract_fields(raw_decls_view(orig.take(i as int)));
        let ghost step = spec_extract_one(raw_field_decl_view(orig[i as int]));
        proof {
            assert(raw_decls_view(orig.take(i + 1)).drop_last() =~= raw_decls_view(
                orig.take(i as int),
            ));
            assert(raw_decls_view(orig.take(i + 1)).last() == raw_field_decl_view(
                orig[i as int],
            ));
        }
        let is_nested = match &one.kind {
            FieldKind::Nested(_) => true,
            _ => false,
        };
        match parse_config_field_attributes(&one.annotations) {
            Ok(attrs) => {
                if attrs.nest != is_nested {
                    errors.push(AttrError::NestMismatch(one.name));
                    proof {
                        assert(attr_errors_view(errors@) =~= prev.1 + step.1);
                        assert(fields_seq_view(fields@) =~= prev.0 + step.0);
                    }
                } else {
                    let ghost fields_before = fields@;
                    fields.push(FieldSchema { name: one.name, attrs, kind: one.kind });
                    proof {
                        assert(fields@.drop_last() =~= fields_before);
                        assert(field_schema_view(fields@.last()) == step.0[0]);
                        assert(fields_seq_view(fields@) =~= prev.0 + step.0);
                        assert(attr_errors_view(errors@) =~= prev.1 + step.1);
                    }
                }
            },
            Err(mut es) => {
                errors.append(&mut es);
                proof {
                    assert(attr_errors_view(errors@) =~= prev.1 + step.1);
                    assert(fields_seq_view(fields@) =~= prev.0 + step.0);
                }
            },
        }
        i += 1;
        proof {
            assert(rest@ =~= orig.skip(i as int));
        }
    }
    proof {
        assert(orig.take(orig.len() as int) =~= orig);
    }
    if errors.len() > 0 {
        Err(errors)
    } else {
        Ok(fields)
    }
}

/// The schema of a run of type-level annotations and raw field declarations,
/// or the structural errors of both, type-level first.
pub open spec fn spec_schema_new(sanns: Seq<AnnotationV>, decls: Seq<RawFieldDeclV>) -> Result<
    SchemaV,
    Seq<AttrErrorV>,
> {
    let sparsed = spec_parse_attributes(sanns);
    let fparsed = spec_extract_fields(decls);
    let errs = sparsed.1 + fparsed.1;
    if errs.len() == 0 {
        Ok(SchemaV { attrs: sparsed.0, fields: fparsed.0 })
    } else {
        Err(errs)
    }
}

impl Schema {
    /// Builds and validates the schema of a configuration type at
    /// declaration time: normalizes the type-level and per-field
    /// annotations, and reports every structural error, among them `path`
    /// and `default_path` both set.
    pub fn new(struct_annotations: &Vec<Annotation>, decls: Vec<RawFieldDecl>) -> (r: Result<
        Schema,
        Vec<AttrError>,
    >)
        ensures
            ({
                let built = spec_schema_new(
                    annotations_view(struct_annotations@),
                    raw_decls_view(decls@),
                );
                match r {
                    Ok(s) => built is Ok && s@ == built->Ok_0,
                    Err(es) => built is Err && attr_errors_view(es@) == built->Err_0,
                }
            }),
    {
        let sparsed = parse_config_field_attributes(struct_annotations);
        let fparsed = extract_fields(decls);
        match (sparsed, fparsed) {
            (Ok(attrs), Ok(fields)) => Ok(Schema { attrs, fields }),
            (Ok(_), Err(fes)) => {
                proof {
                    assert(Seq::<AttrErrorV>::empty() + attr_errors_view(fes@) =~= attr_errors_view(
                        fes@,
                    ));
                }
                Err(fes)
            },
            (Err(mut ses), Ok(_)) => {
                proof {
                    assert(attr_errors_view(ses@) + Seq::<AttrErrorV>::empty() =~= attr_errors_view(
                        ses@,
                    ));
                }
                Err(ses)
            },
            (Err(mut ses), Err(mut fes)) => {
                ses.append(&mut fes);
                proof {
                    assert(attr_errors_view(ses@) =~= spec_parse_attributes(
                        annotations_view(struct_annotations@),
                    ).1 + spec_extract_fields(raw_decls_view(decls@)).1);
                }
                Err(ses)
            },
        }
    }
}

} // verus!
