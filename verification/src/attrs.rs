//! The attribute model: normalized per-field and per-type annotation records,
//! and the parser that turns raw annotations into them.

use vstd::prelude::*;

verus! {

/// Normalized annotation record for one field or one configuration type.
///
/// `prefix`, `separator` and `key` drive environment-variable naming;
/// `name` renames the field for file decoding only; `skip` excludes the
/// field from source resolution; `nest` marks a recursively composed field;
/// `path`, `path_env` and `default_path` select the configuration file.
#[derive(Debug, Clone, PartialEq)]
pub struct ConfigAttributes {
    pub skip: bool,
    pub nest: bool,
    pub prefix: Option<String>,
    pub key: Option<String>,
    pub separator: Option<String>,
    pub path: Option<String>,
    pub path_env: Option<String>,
    pub default_path: Option<String>,
    pub name: Option<String>,
}

/// Mathematical model of a [`ConfigAttributes`] value.
#[verifier::ext_equal]
pub struct AttrsV {
    pub skip: bool,
    pub nest: bool,
    pub prefix: Option<Seq<char>>,
    pub key: Option<Seq<char>>,
    pub separator: Option<Seq<char>>,
    pub path: Option<Seq<char>>,
    pub path_env: Option<Seq<char>>,
    pub default_path: Option<Seq<char>>,
    pub name: Option<Seq<char>>,
}

pub open spec fn opt_str_view(o: Option<String>) -> Option<Seq<char>> {
    match o {
        Some(s) => Some(s@),
        None => None,
    }
}

impl View for ConfigAttributes {
    type V = AttrsV;

    open spec fn view(&self) -> AttrsV {
        AttrsV {
            skip: self.skip,
            nest: self.nest,
            prefix: opt_str_view(self.prefix),
            key: opt_str_view(self.key),
            separator: opt_str_view(self.separator),
            path: opt_str_view(self.path),
            path_env: opt_str_view(self.path_env),
            default_path: opt_str_view(self.default_path),
            name: opt_str_view(self.name),
        }
    }
}

/// The record with every annotation unset.
pub open spec fn attrs_unset() -> AttrsV {
    AttrsV {
        skip: false,
        nest: false,
        prefix: None,
        key: None,
        separator: None,
        path: None,
        path_env: None,
        default_path: None,
        name: None,
    }
}

impl ConfigAttributes {
    /// A record with every annotation unset.
    pub fn new() -> (r: Self)
        ensures
            r@ == attrs_unset(),
    {
        ConfigAttributes {
            skip: false,
            nest: false,
            prefix: None,
            key: None,
            separator: None,
            path: None,
            path_env: None,
            default_path: None,
            name: None,
        }
    }
}

impl Default for ConfigAttributes {
    fn default() -> (r: Self)
        ensures
            r@ == attrs_unset(),
    {
        ConfigAttributes::new()
    }
}

/// The shape of one raw annotation value: a bare flag, a string literal, or
/// something else (a non-string literal, rejected for the string-valued
/// annotations).
#[derive(Debug, Clone, PartialEq)]
pub enum AnnotationValue {
    Flag,
    Text(String),
    Other,
}

/// One raw annotation, as written on a field or a type.
#[derive(Debug, Clone, PartialEq)]
pub struct Annotation {
    pub key: String,
    pub value: AnnotationValue,
}

#[verifier::ext_equal]
pub enum AnnotationValueV {
    Flag,
    Text(Seq<char>),
    Other,
}

#[verifier::ext_equal]
pub struct AnnotationV {
    pub key: Seq<char>,
    pub value: AnnotationValueV,
}

impl View for AnnotationValue {
    type V = AnnotationValueV;

    open spec fn view(&self) -> AnnotationValueV {
        match self {
            AnnotationValue::Flag => AnnotationValueV::Flag,
            AnnotationValue::Text(s) => AnnotationValueV::Text(s@),
            AnnotationValue::Other => AnnotationValueV::Other,
        }
    }
}

impl View for Annotation {
    type V = AnnotationV;

    open spec fn view(&self) -> AnnotationV {
        AnnotationV { key: self.key@, value: self.value@ }
    }
}

pub open spec fn annotations_view(s: Seq<Annotation>) -> Seq<AnnotationV> {
    Seq::new(s.len(), |i: int| s[i]@)
}

/// A structural error of the attribute model.
#[derive(Debug, Clone, PartialEq)]
pub enum AttrError {
    /// The annotation key is not known, or a flag annotation carried a value.
    Unsupported(String),
    /// A string-valued annotation carried something else than a string.
    ExpectedText(String),
    /// A field marked `nest` is not declared as a nested type, or the other
    /// way round.
    NestMismatch(String),
    /// `path` and `default_path` are both set on the same type.
    PathConflict,
}

#[verifier::ext_equal]
pub enum AttrErrorV {
    Unsupported(Seq<char>),
    ExpectedText(Seq<char>),
    NestMismatch(Seq<char>),
    PathConflict,
}

impl View for AttrError {
    type V = AttrErrorV;

    open spec fn view(&self) -> AttrErrorV {
        match self {
            AttrError::Unsupported(s) => AttrErrorV::Unsupported(s@),
            AttrError::ExpectedText(s) => AttrErrorV::ExpectedText(s@),
            AttrError::NestMismatch(s) => AttrErrorV::NestMismatch(s@),
            AttrError::PathConflict => AttrErrorV::PathConflict,
        }
    }
}

pub open spec fn attr_errors_view(s: Seq<AttrError>) -> Seq<AttrErrorV> {
    Seq::new(s.len(), |i: int| s[i]@)
}

/// The effect of one annotation on the record: the updated record, and the
/// structural error the annotation raises, if any.
pub open spec fn apply_annotation(attrs: AttrsV, a: AnnotationV) -> (AttrsV, Option<AttrErrorV>) {
    if a.key == "skip"@ {
        match a.value {
            AnnotationValueV::Flag => (AttrsV { skip: true, ..attrs }, None),
            _ => (attrs, Some(AttrErrorV::Unsupported(a.key))),
        }
    } else if a.key == "nest"@ {
        match a.value {
            AnnotationValueV::Flag => (AttrsV { nest: true, ..attrs }, None),
            _ => (attrs, Some(AttrErrorV::Unsupported(a.key))),
        }
    } else if a.key == "prefix"@ {
        match a.value {
            AnnotationValueV::Text(s) => (AttrsV { prefix: Some(s), ..attrs }, None),
            _ => (attrs, Some(AttrErrorV::ExpectedText(a.key))),
        }
    } else if a.key == "key"@ {
        match a.value {
            AnnotationValueV::Text(s) => (AttrsV { key: Some(s), ..attrs }, None),
            _ => (attrs, Some(AttrErrorV::ExpectedText(a.key))),
        }
    } else if a.key == "separator"@ {
        match a.value {
            AnnotationValueV::Text(s) => (AttrsV { separator: Some(s), ..attrs }, None),
            _ => (attrs, Some(AttrErrorV::ExpectedText(a.key))),
        }
    } else if a.key == "path"@ {
        match a.value {
            AnnotationValueV::Text(s) => (AttrsV { path: Some(s), ..attrs }, None),
            _ => (attrs, Some(AttrErrorV::ExpectedText(a.key))),
        }
    } else if a.key == "path_env"@ {
        match a.value {
            AnnotationValueV::Text(s) => (AttrsV { path_env: Some(s), ..attrs }, None),
            _ => (attrs, Some(AttrErrorV::ExpectedText(a.key))),
        }
    } else if a.key == "default_path"@ {
        match a.value {
            AnnotationValueV::Text(s) => (AttrsV { default_path: Some(s), ..attrs }, None),
            _ => (attrs, Some(AttrErrorV::ExpectedText(a.key))),
        }
    } else if a.key == "name"@ {
        match a.value {
            AnnotationValueV::Text(s) => (AttrsV { name: Some(s), ..attrs }, None),
            _ => (attrs, Some(AttrErrorV::ExpectedText(a.key))),
        }
    } else {
        (attrs, Some(AttrErrorV::Unsupported(a.key)))
    }
}

/// Folds a run of annotations over a record, in order, collecting the errors.
pub open spec fn fold_annotations(attrs: AttrsV, anns: Seq<AnnotationV>) -> (AttrsV, Seq<
    AttrErrorV,
>)
    decreases anns.len(),
{
    if anns.len() == 0 {
        (attrs, Seq::empty())
    } else {
        let prev = fold_annotations(attrs, anns.drop_last());
        let step = apply_annotation(prev.0, anns.last());
        (
            step.0,
            match step.1 {
                Some(e) => prev.1.push(e),
                None => prev.1,
            },
        )
    }
}

/// The normalized record of a run of annotations, together with the conflict
/// check on `path` and `default_path`.
pub open spec fn spec_parse_attributes(anns: Seq<AnnotationV>) -> (AttrsV, Seq<AttrErrorV>) {
    let folded = fold_annotations(attrs_unset(), anns);
    if folded.0.path is Some && folded.0.default_path is Some {
        (folded.0, folded.1.push(AttrErrorV::PathConflict))
    } else {
        folded
    }
}

/// Applies one raw annotation to the record under construction; reports the
/// structural error it raises, if any.
fn apply_annotation_exec(attrs: &mut ConfigAttributes, a: &Annotation) -> (r: Option<AttrError>)
    ensures
        (final(attrs)@, match r {
            Some(e) => Some(e@),
            None => None,
        }) == apply_annotation(old(attrs)@, a@),
{
    if crate::text::str_eq(a.key.as_str(), "skip") {
        match &a.value {
            AnnotationValue::Flag => {
                attrs.skip = true;
                None
            },
            _ => Some(AttrError::Unsupported(a.key.clone())),
        }
    } else if crate::text::str_eq(a.key.as_str(), "nest") {
        match &a.value {
            AnnotationValue::Flag => {
                attrs.nest = true;
                None
            },
            _ => Some(AttrError::Unsupported(a.key.clone())),
        }
    } else if crate::text::str_eq(a.key.as_str(), "prefix") {
        match &a.value {
            AnnotationValue::Text(s) => {
                attrs.prefix = Some(s.clone());
                None
            },
            _ => Some(AttrError::ExpectedText(a.key.clone())),
        }
    } else if crate::text::str_eq(a.key.as_str(), "key") {
        match &a.value {
            AnnotationValue::Text(s) => {
                attrs.key = Some(s.clone());
                None
            },
            _ => Some(AttrError::ExpectedText(a.key.clone())),
        }
    } else if crate::text::str_eq(a.key.as_str(), "separator") {
        match &a.value {
            AnnotationValue::Text(s) => {
                attrs.separator = Some(s.clone());
                None
            },
            _ => Some(AttrError::ExpectedText(a.key.clone())),
        }
    } else if crate::text::str_eq(a.key.as_str(), "path") {
        match &a.value {
            AnnotationValue::Text(s) => {
                attrs.path = Some(s.clone());
                None
            },
            _ => Some(AttrError::ExpectedText(a.key.clone())),
        }
    } else if crate::text::str_eq(a.key.as_str(), "path_env") {
        match &a.value {
            AnnotationValue::Text(s) => {
                attrs.path_env = Some(s.clone());
                None
            },
            _ => Some(AttrError::ExpectedText(a.key.clone())),
        }
    } else if crate::text::str_eq(a.key.as_str(), "default_path") {
        match &a.value {
            AnnotationValue::Text(s) => {
                attrs.default_path = Some(s.clone());
                None
            },
            _ => Some(AttrError::ExpectedText(a.key.clone())),
        }
    } else if crate::text::str_eq(a.key.as_str(), "name") {
        match &a.value {
            AnnotationValue::Text(s) => {
                attrs.name = Some(s.clone());
                None
            },
            _ => Some(AttrError::ExpectedText(a.key.clone())),
        }
    } else {
        Some(AttrError::Unsupported(a.key.clone()))
    }
}

/// Normalizes a run of raw annotations into a [`ConfigAttributes`] record, or
/// reports the structural errors: an unknown annotation key, a non-string
/// value where a string is required, a flag annotation carrying a value, and
/// `path` and `default_path` both set.
pub fn parse_config_field_attributes(anns: &Vec<Annotation>) -> (r: Result<
    ConfigAttributes,
    Vec<AttrError>,
>)
    ensures
        ({
            let parsed = spec_parse_attributes(annotations_view(anns@));
            match r {
                Ok(a) => parsed.1.len() == 0 && a@ == parsed.0,
                Err(es) => parsed.1.len() > 0 && attr_errors_view(es@) == parsed.1,
            }
        }),
{
    let mut attrs = ConfigAttributes::new();
    let mut errors: Vec<AttrError> = Vec::new();
    let mut i: usize = 0;
    while i < anns.len()
        invariant
            i <= anns.len(),
            (attrs@, attr_errors_view(errors@)) == fold_annotations(
                attrs_unset(),
                annotations_view(anns@).take(i as int),
            ),
        decreases anns.len() - i,
    {
        let ghost prefix = annotations_view(anns@).take(i as int);
        let e = apply_annotation_exec(&mut attrs, &anns[i]);
        proof {
            assert(annotations_view(anns@).take(i + 1).drop_last() =~= prefix);
            assert(annotations_view(anns@).take(i + 1).last() == anns@[i as int]@);
        }
        match e {
            Some(err) => {
                errors.push(err);
                proof {
                    assert(attr_errors_view(errors@) =~= fold_annotations(
                        attrs_unset(),
                        annotations_view(anns@).take(i + 1),
                    ).1);
                }
            },
            None => {
                proof {
                    assert(attr_errors_view(errors@) =~= fold_annotations(
                        attrs_unset(),
                        annotations_view(anns@).take(i + 1),
                    ).1);
                }
            },
        }
        i += 1;
    }
    proof {
        assert(annotations_view(anns@).take(anns@.len() as int) =~= annotations_view(anns@));
    }
    if attrs.path.is_some() && attrs.default_path.is_some() {
        errors.push(AttrError::PathConflict);
        proof {
            assert(attr_errors_view(errors@) =~= spec_parse_attributes(
                annotations_view(anns@),
            ).1);
        }
        return Err(errors);
    }
    if errors.len() > 0 {
        Err(errors)
    } else {
        Ok(attrs)
    }
}

} // verus!
