//! The file-decoding boundary: the format inferred from the path's
//! extension, the outside parser that turns file contents into a plain
//! value tree, and the verified mapping from that tree to a layer.

use vstd::prelude::*;
use crate::ConfgrError;
use crate::layer::{
    Layer, LayerField, LayerFieldV, LayerV, empty_layer_v, field_kinds_opt, field_skip_absent,
    lay_at, layer_field_view, layer_kinds_ok, layer_skip_absent, lemma_empty_kinds_ok,
    lemma_empty_skip_absent, lemma_lfields_seq_view, lemma_lkinds_fields_index,
    lemma_lskip_fields_index, lfields_seq_view,
};
use crate::schema::{FieldKind, FieldKindV, FieldSchemaV, Schema, SchemaV, lemma_fields_seq_view};
use crate::text::{has_suffix, spec_has_suffix, str_eq};
use crate::value::{ScalarKind, Value, ValueV};
use config::Value as CfgValue;
use config::ValueKind as CfgValueKind;

verus! {

/// The file formats, selected by the path's extension.
#[derive(Debug, Clone, Copy, PartialEq, Eq, Structural)]
pub enum FormatKind {
    Toml,
    Json,
    Yaml,
    Ini,
    Ron,
    Json5,
}

/// The format a path selects: by its extension, `json5` and `json` being
/// distinct extensions, and `yaml` also written `yml`.
pub open spec fn format_of_path(p: Seq<char>) -> Option<FormatKind> {
    if spec_has_suffix(p, ".toml"@) {
        Some(FormatKind::Toml)
    } else if spec_has_suffix(p, ".json5"@) {
        Some(FormatKind::Json5)
    } else if spec_has_suffix(p, ".json"@) {
        Some(FormatKind::Json)
    } else if spec_has_suffix(p, ".yaml"@) || spec_has_suffix(p, ".yml"@) {
        Some(FormatKind::Yaml)
    } else if spec_has_suffix(p, ".ini"@) {
        Some(FormatKind::Ini)
    } else if spec_has_suffix(p, ".ron"@) {
        Some(FormatKind::Ron)
    } else {
        None
    }
}

/// Infers the file format from the path's extension.
pub fn detect_format(p: &str) -> (r: Option<FormatKind>)
    ensures
        r == format_of_path(p@),
{
    if has_suffix(p, ".toml") {
        Some(FormatKind::Toml)
    } else if has_suffix(p, ".json5") {
        Some(FormatKind::Json5)
    } else if has_suffix(p, ".json") {
        Some(FormatKind::Json)
    } else if has_suffix(p, ".yaml") || has_suffix(p, ".yml") {
        Some(FormatKind::Yaml)
    } else if has_suffix(p, ".ini") {
        Some(FormatKind::Ini)
    } else if has_suffix(p, ".ron") {
        Some(FormatKind::Ron)
    } else {
        None
    }
}

/// A decoded value tree in plain form: scalars, tables and arrays.
/// Anything the library does not resolve (among them floating-point
/// numbers and oversized integers) is carried as `Other`.
#[derive(Debug, PartialEq)]
pub enum RawValue {
    Nil,
    Bool(bool),
    Int(i64),
    Uint(u64),
    Str(String),
    Table(Vec<(String, RawValue)>),
    Array(Vec<RawValue>),
    Other,
}

/// Mathematical model of a decoded value tree. A table is modeled as a
/// map, the entry written first winning among duplicate keys, so the model
/// does not depend on the order in which a decoder hands the entries out.
#[verifier::ext_equal]
pub enum RawValueV {
    Nil,
    Bool(bool),
    Int(i64),
    Uint(u64),
    Str(Seq<char>),
    Table(Map<Seq<char>, RawValueV>),
    Array(Seq<RawValueV>),
    Other,
}

pub open spec fn raw_view(v: RawValue) -> RawValueV
    decreases v,
{
    match v {
        RawValue::Nil => RawValueV::Nil,
        RawValue::Bool(b) => RawValueV::Bool(b),
        RawValue::Int(i) => RawValueV::Int(i),
        RawValue::Uint(u) => RawValueV::Uint(u),
        RawValue::Str(s) => RawValueV::Str(s@),
        RawValue::Table(entries) => RawValueV::Table(raw_table_view(entries@)),
        RawValue::Array(items) => RawValueV::Array(raw_array_view(items@)),
        RawValue::Other => RawValueV::Other,
    }
}

pub open spec fn raw_table_view(s: Seq<(String, RawValue)>) -> Map<Seq<char>, RawValueV>
    decreases s,
{
    if s.len() == 0 {
        Map::empty()
    } else {
        raw_table_view(s.drop_first()).insert(s[0].0@, raw_view(s[0].1))
    }
}

pub open spec fn raw_array_view(s: Seq<RawValue>) -> Seq<RawValueV>
    decreases s,
{
    if s.len() == 0 {
        Seq::empty()
    } else {
        raw_array_view(s.drop_last()).push(raw_view(s.last()))
    }
}

impl View for RawValue {
    type V = RawValueV;

    open spec fn view(&self) -> RawValueV {
        raw_view(*self)
    }
}

/// A table's entry under a key, if the key is present.
pub open spec fn table_get(m: Map<Seq<char>, RawValueV>, k: Seq<char>) -> Option<RawValueV> {
    if m.contains_key(k) {
        Some(m[k])
    } else {
        None
    }
}

/// First-match lookup among a decoded table's entries; it agrees with
/// [`table_get`] on the table's model.
fn raw_table_get<'a>(entries: &'a Vec<(String, RawValue)>, key: &str) -> (r: Option<&'a RawValue>)
    ensures
        match r {
            Some(v) => table_get(raw_table_view(entries@), key@) == Some(raw_view(*v)),
            None => table_get(raw_table_view(entries@), key@) is None,
        },
{
    let n = entries.len();
    let mut i: usize = 0;
    proof {
        assert(entries@.skip(0) =~= entries@);
    }
    while i < n
        invariant
            i <= n,
            n == entries@.len(),
            table_get(raw_table_view(entries@), key@) == table_get(
                raw_table_view(entries@.skip(i as int)),
                key@,
            ),
        decreases n - i,
    {
        if str_eq(entries[i].0.as_str(), key) {
            proof {
                assert(entries@.skip(i as int)[0] == entries@[i as int]);
            }
            return Some(&entries[i].1);
        }
        proof {
            assert(entries@.skip(i as int)[0] == entries@[i as int]);
            assert(entries@.skip(i as int).drop_first() =~= entries@.skip(i + 1));
        }
        i += 1;
    }
    proof {
        assert(entries@.skip(n as int) =~= Seq::<(String, RawValue)>::empty());
    }
    None
}

/// The basic coercion from a decoded scalar to a field's kind: integers
/// cross signedness when the value fits; everything else must match the
/// kind exactly, or the field stays absent.
pub open spec fn coerce_v(k: ScalarKind, rv: RawValueV) -> Option<ValueV> {
    match k {
        ScalarKind::Int => match rv {
            RawValueV::Int(i) => Some(ValueV::Int(i)),
            RawValueV::Uint(u) => if u <= i64::MAX as u64 {
                Some(ValueV::Int(u as i64))
            } else {
                None
            },
            _ => None,
        },
        ScalarKind::Uint => match rv {
            RawValueV::Uint(u) => Some(ValueV::Uint(u)),
            RawValueV::Int(i) => if i >= 0 {
                Some(ValueV::Uint(i as u64))
            } else {
                None
            },
            _ => None,
        },
        ScalarKind::Bool => match rv {
            RawValueV::Bool(b) => Some(ValueV::Bool(b)),
            _ => None,
        },
        ScalarKind::Str => match rv {
            RawValueV::Str(s) => Some(ValueV::Str(s)),
            _ => None,
        },
    }
}

fn coerce(k: ScalarKind, rv: &RawValue) -> (r: Option<Value>)
    ensures
        crate::layer::opt_value_view(r) == coerce_v(k, rv@),
{
    match k {
        ScalarKind::Int => match rv {
            RawValue::Int(i) => Some(Value::Int(*i)),
            RawValue::Uint(u) => {
                if *u <= i64::MAX as u64 {
                    Some(Value::Int(*u as i64))
                } else {
                    None
                }
            },
            _ => None,
        },
        ScalarKind::Uint => match rv {
            RawValue::Uint(u) => Some(Value::Uint(*u)),
            RawValue::Int(i) => {
                if *i >= 0 {
                    Some(Value::Uint(*i as u64))
                } else {
                    None
                }
            },
            _ => None,
        },
        ScalarKind::Bool => match rv {
            RawValue::Bool(b) => Some(Value::Bool(*b)),
            _ => None,
        },
        ScalarKind::Str => match rv {
            RawValue::Str(s) => Some(Value::Str(s.clone())),
            _ => None,
        },
    }
}

/// The layer field one schema field draws from a decoded table: skip
/// fields stay absent; a `name` annotation renames the field for decoding
/// only; scalars coerce; nested fields recurse into the entry's table, or
/// stay empty where the entry is missing or not a table.
pub open spec fn doc_field_v(f: FieldSchemaV, m: Map<Seq<char>, RawValueV>) -> LayerFieldV
    decreases f,
{
    if f.attrs.skip {
        match f.kind {
            FieldKindV::Scalar(_) => LayerFieldV::Scalar(None),
            FieldKindV::Nested(_) => LayerFieldV::Nested(empty_layer_v()),
        }
    } else {
        let key = match f.attrs.name {
            Some(n) => n,
            None => f.name,
        };
        match f.kind {
            FieldKindV::Scalar(k) => LayerFieldV::Scalar(
                match table_get(m, key) {
                    Some(rv) => coerce_v(k, rv),
                    None => None,
                },
            ),
            FieldKindV::Nested(sub) => LayerFieldV::Nested(
                match table_get(m, key) {
                    Some(RawValueV::Table(mm)) => doc_layer_v(sub, mm),
                    _ => empty_layer_v(),
                },
            ),
        }
    }
}

pub open spec fn doc_fields_v(sf: Seq<FieldSchemaV>, m: Map<Seq<char>, RawValueV>) -> Seq<
    LayerFieldV,
>
    decreases sf,
{
    if sf.len() == 0 {
        Seq::empty()
    } else {
        doc_fields_v(sf.drop_last(), m).push(doc_field_v(sf.last(), m))
    }
}

pub open spec fn doc_layer_v(s: SchemaV, m: Map<Seq<char>, RawValueV>) -> LayerV
    decreases s,
{
    LayerV { fields: doc_fields_v(s.fields, m) }
}

/// The layer a schema draws from a decoded document: its root table's
/// fields, or the empty layer where the root is not a table.
pub open spec fn layer_from_doc_v(s: SchemaV, doc: RawValueV) -> LayerV {
    match doc {
        RawValueV::Table(m) => doc_layer_v(s, m),
        _ => empty_layer_v(),
    }
}

/// Index characterization of [`doc_fields_v`].
pub proof fn lemma_doc_fields_index(sf: Seq<FieldSchemaV>, m: Map<Seq<char>, RawValueV>)
    ensures
        doc_fields_v(sf, m).len() == sf.len(),
        forall|i: int| 0 <= i < sf.len() ==> doc_fields_v(sf, m)[i] == doc_field_v(sf[i], m),
    decreases sf,
{
    if sf.len() > 0 {
        lemma_doc_fields_index(sf.drop_last(), m);
    }
}

/// Builds the file layer of a schema from a decoded document.
pub fn layer_from_parsed(schema: &Schema, doc: &RawValue) -> (r: Layer)
    ensures
        r@ == layer_from_doc_v(schema@, doc@),
    decreases schema,
{
    let entries: &Vec<(String, RawValue)> = match doc {
        RawValue::Table(entries) => entries,
        _ => {
            return crate::layer::empty_layer();
        },
    };
    let ghost m = raw_table_view(entries@);
    let n = schema.fields.len();
    let mut out: Vec<LayerField> = Vec::new();
    let mut i: usize = 0;
    proof {
        lemma_fields_seq_view(schema.fields@);
        lemma_doc_fields_index(schema@.fields, m);
    }
    while i < n
        invariant
            i <= n,
            n == schema.fields@.len(),
            m == raw_table_view(entries@),
            lfields_seq_view(out@).len() == i,
            forall|j: int|
                0 <= j < i ==> lfields_seq_view(out@)[j] == doc_fields_v(schema@.fields, m)[j],
        decreases n - i,
    {
        proof {
            lemma_fields_seq_view(schema.fields@);
            lemma_doc_fields_index(schema@.fields, m);
            lemma_lfields_seq_view(out@);
        }
        let fs = &schema.fields[i];
        let lf: LayerField = if fs.attrs.skip {
            match &fs.kind {
                FieldKind::Scalar(_) => LayerField::Scalar(None),
                FieldKind::Nested(_) => LayerField::Nested(crate::layer::empty_layer()),
            }
        } else {
            let key: &str = match &fs.attrs.name {
                Some(n2) => n2.as_str(),
                None => fs.name.as_str(),
            };
            match &fs.kind {
                FieldKind::Scalar(k) => match raw_table_get(entries, key) {
                    Some(rv) => LayerField::Scalar(coerce(*k, rv)),
                    None => LayerField::Scalar(None),
                },
                FieldKind::Nested(sub) => {
                    proof {
                        assert(decreases_to!(*schema => schema.fields));
                        assert(decreases_to!(schema.fields => schema.fields@));
                        assert(decreases_to!(schema.fields@ => schema.fields@[i as int]));
                        assert(decreases_to!(schema.fields@[i as int] => schema.fields@[
                            i as int].kind));
                        assert(schema.fields@[i as int].kind->Nested_0 == *sub);
                        assert(decreases_to!(schema.fields@[i as int].kind => schema.fields@[
                            i as int].kind->Nested_0));
                    }
                    match raw_table_get(entries, key) {
                        Some(rv) => {
                            let is_table = match rv {
                                RawValue::Table(_) => true,
                                _ => false,
                            };
                            if is_table {
                                LayerField::Nested(layer_from_parsed(sub, rv))
                            } else {
                                LayerField::Nested(crate::layer::empty_layer())
                            }
                        },
                        None => LayerField::Nested(crate::layer::empty_layer()),
                    }
                },
            }
        };
        assert(layer_field_view(lf) == doc_field_v(schema@.fields[i as int], m));
        let ghost out_before = out@;
        out.push(lf);
        proof {
            assert(out@.drop_last() =~= out_before);
            lemma_lfields_seq_view(out@);
        }
        i += 1;
    }
    let r = Layer { fields: out };
    proof {
        lemma_lfields_seq_view(r.fields@);
        assert(r@.fields =~= layer_from_doc_v(schema@, doc@).fields);
        assert(r@ =~= layer_from_doc_v(schema@, doc@));
    }
    r
}


/// The file layer drawn from a decoded table leaves every skip field
/// untouched.
pub proof fn lemma_doc_layer_skip_absent(s: SchemaV, m: Map<Seq<char>, RawValueV>)
    ensures
        layer_skip_absent(doc_layer_v(s, m), s),
    decreases s,
{
    let l = doc_layer_v(s, m);
    lemma_doc_fields_index(s.fields, m);
    assert forall|i: int| 0 <= i < s.fields.len() implies field_skip_absent(
        lay_at(l.fields, i),
        #[trigger] s.fields[i],
    ) by {
        let f = s.fields[i];
        assert(l.fields[i] == doc_field_v(f, m));
        if !f.attrs.skip {
            let key = match f.attrs.name {
                Some(n) => n,
                None => f.name,
            };
            match f.kind {
                FieldKindV::Scalar(_) => {},
                FieldKindV::Nested(sub) => {
                    match table_get(m, key) {
                        Some(RawValueV::Table(mm)) => {
                            lemma_doc_layer_skip_absent(sub, mm);
                        },
                        _ => {
                            lemma_empty_skip_absent(sub);
                        },
                    }
                },
            }
        }
    }
    lemma_lskip_fields_index(l.fields, s.fields);
}

/// The file layer drawn from any decoded document leaves every skip field
/// untouched.
pub proof fn lemma_layer_from_doc_skip_absent(s: SchemaV, doc: RawValueV)
    ensures
        layer_skip_absent(layer_from_doc_v(s, doc), s),
{
    match doc {
        RawValueV::Table(m) => {
            lemma_doc_layer_skip_absent(s, m);
        },
        _ => {
            lemma_empty_skip_absent(s);
        },
    }
}

#[verifier::external_type_specification]
#[verifier::external_body]
pub struct ExConfigValue(CfgValue);

/// Whether the outside parser accepts given contents in a given format.
/// Acceptance is decided by the format's parser on the text alone, before
/// the accepted document is assembled, so it is one fixed answer for each
/// input. The assembled document itself is *not* a function of the input:
/// the parser re-reads each top-level key as a dotted path and applies the
/// keys in an unspecified order, so colliding keys (such as `a` beside
/// `"a.b"`) can assemble differently from one call to the next. The
/// contracts therefore carry the decoded document as a value and state
/// only what holds of every outcome.
pub uninterp spec fn parses(fmt: FormatKind, contents: Seq<char>) -> bool;

/// Relies on `config::Value`: each variant of its kind moves to the
/// matching plain variant; floating-point and 128-bit numbers, which this
/// library does not resolve, become `Other`.
#[verifier::external_body]
fn raw_of_config_value(v: CfgValue) -> RawValue {
    match v.kind {
        CfgValueKind::Nil => RawValue::Nil,
        CfgValueKind::Boolean(b) => RawValue::Bool(b),
        CfgValueKind::I64(i) => RawValue::Int(i),
        CfgValueKind::U64(u) => RawValue::Uint(u),
        CfgValueKind::I128(_) => RawValue::Other,
        CfgValueKind::U128(_) => RawValue::Other,
        CfgValueKind::Float(_) => RawValue::Other,
        CfgValueKind::String(s) => RawValue::Str(s),
        CfgValueKind::Table(t) => RawValue::Table(t.into_iter().map(|e| (e.0, raw_of_config_value(e.1))).collect()),
        CfgValueKind::Array(a) => RawValue::Array(a.into_iter().map(raw_of_config_value).collect()),
    }
}

/// Relies on `config::Config::builder` with a string source, `build` and
/// `try_deserialize::<config::Value>`: parses the contents in the given
/// format, without touching the file system, and yields a decoded value
/// tree, or a format error exactly where the contents do not parse. Only
/// acceptance is promised to be a function of the input (see [`parses`]);
/// nothing is claimed of which tree comes back.
#[verifier::external_body]
pub fn parse_contents(contents: &str, fmt: FormatKind) -> (r: Result<RawValue, ConfgrError>)
    ensures
        r is Ok <==> parses(fmt, contents@),
        r matches Err(e) ==> e == ConfgrError::FileFormat,
{
    let format = match fmt {
        FormatKind::Toml => config::FileFormat::Toml,
        FormatKind::Json => config::FileFormat::Json,
        FormatKind::Yaml => config::FileFormat::Yaml,
        FormatKind::Ini => config::FileFormat::Ini,
        FormatKind::Ron => config::FileFormat::Ron,
        FormatKind::Json5 => config::FileFormat::Json5,
    };
    let built = config::Config::builder().add_source(config::File::from_str(contents, format));
    let decoded = built.build().and_then(|c| c.try_deserialize::<CfgValue>());
    decoded.map(raw_of_config_value).map_err(|_| ConfgrError::FileFormat)
}


/// The file layer drawn from a decoded table carries only values of the
/// declared kinds.
pub proof fn lemma_doc_layer_kinds(s: SchemaV, m: Map<Seq<char>, RawValueV>)
    ensures
        layer_kinds_ok(doc_layer_v(s, m), s),
    decreases s,
{
    let l = doc_layer_v(s, m);
    lemma_doc_fields_index(s.fields, m);
    assert forall|i: int| 0 <= i < s.fields.len() implies field_kinds_opt(
        lay_at(l.fields, i),
        #[trigger] s.fields[i],
    ) by {
        let f = s.fields[i];
        assert(l.fields[i] == doc_field_v(f, m));
        if f.attrs.skip {
            match f.kind {
                FieldKindV::Scalar(_) => {},
                FieldKindV::Nested(sub) => {
                    lemma_empty_kinds_ok(sub);
                },
            }
        } else {
            let key = match f.attrs.name {
                Some(n) => n,
                None => f.name,
            };
            match f.kind {
                FieldKindV::Scalar(_) => {},
                FieldKindV::Nested(sub) => {
                    match table_get(m, key) {
                        Some(RawValueV::Table(mm)) => {
                            lemma_doc_layer_kinds(sub, mm);
                        },
                        _ => {
                            lemma_empty_kinds_ok(sub);
                        },
                    }
                },
            }
        }
    }
    lemma_lkinds_fields_index(l.fields, s.fields);
}

/// The file layer drawn from any decoded document carries only values of
/// the declared kinds.
pub proof fn lemma_layer_from_doc_kinds(s: SchemaV, doc: RawValueV)
    ensures
        layer_kinds_ok(layer_from_doc_v(s, doc), s),
{
    match doc {
        RawValueV::Table(m) => {
            lemma_doc_layer_kinds(s, m);
        },
        _ => {
            lemma_empty_kinds_ok(s);
        },
    }
}

} // verus!
