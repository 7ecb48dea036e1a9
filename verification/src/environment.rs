//! The environment source: an injected snapshot of name/value pairs, the
//! derivation of environment-variable names from the annotations, and the
//! layer populated by lookup.

use vstd::prelude::*;
use crate::attrs::{AttrsV, ConfigAttributes};
use crate::layer::{
    Layer, LayerField, LayerFieldV, LayerV, empty_layer_v, field_kinds_opt, lay_at,
    layer_field_view, layer_kinds_ok, lemma_empty_kinds_ok, lemma_lfields_seq_view,
    lemma_lkinds_fields_index, lfields_seq_view,
};
use crate::parse::{parse_scalar, parse_scalar_v};
use crate::schema::{FieldKind, FieldSchemaV, FieldKindV, Schema, SchemaV, lemma_fields_seq_view};
use crate::text::{str_eq, to_upper, upper_seq};

verus! {

/// A snapshot of the environment: name/value pairs, looked up by first
/// match. Injecting it keeps the library free of ambient mutable state.
#[derive(Debug, Clone, PartialEq)]
pub struct EnvSnapshot {
    pub vars: Vec<(String, String)>,
}

impl View for EnvSnapshot {
    type V = Seq<(Seq<char>, Seq<char>)>;

    open spec fn view(&self) -> Seq<(Seq<char>, Seq<char>)> {
        Seq::new(self.vars@.len(), |i: int| (self.vars@[i].0@, self.vars@[i].1@))
    }
}

/// First-match lookup among the snapshot's pairs.
pub open spec fn env_lookup(env: Seq<(Seq<char>, Seq<char>)>, k: Seq<char>) -> Option<Seq<char>>
    decreases env,
{
    if env.len() == 0 {
        None
    } else if env[0].0 == k {
        Some(env[0].1)
    } else {
        env_lookup(env.drop_first(), k)
    }
}

impl EnvSnapshot {
    /// An empty snapshot: no variable is set.
    pub fn new() -> (r: Self)
        ensures
            r@ =~= Seq::<(Seq<char>, Seq<char>)>::empty(),
    {
        EnvSnapshot { vars: Vec::new() }
    }

    /// Appends one name/value pair.
    pub fn set(&mut self, k: &str, v: &str)
        ensures
            final(self)@ =~= old(self)@.push((k@, v@)),
    {
        self.vars.push((k.to_owned(), v.to_owned()));
        proof {
            assert(self@ =~= old(self)@.push((k@, v@)));
        }
    }

    /// The value of a variable, if it is set.
    pub fn get(&self, key: &str) -> (r: Option<&String>)
        ensures
            match r {
                Some(v) => env_lookup(self@, key@) == Some(v@),
                None => env_lookup(self@, key@) is None,
            },
    {
        let n = self.vars.len();
        let mut i: usize = 0;
        proof {
            assert(self@.skip(0) =~= self@);
        }
        while i < n
            invariant
                i <= n,
                n == self.vars@.len(),
                env_lookup(self@, key@) == env_lookup(self@.skip(i as int), key@),
            decreases n - i,
        {
            if str_eq(self.vars[i].0.as_str(), key) {
                proof {
                    assert(self@.skip(i as int)[0] == (self.vars@[i as int].0@, self.vars@[
                        i as int].1@));
                }
                return Some(&self.vars[i].1);
            }
            proof {
                assert(self@.skip(i as int)[0].0 != key@);
                assert(self@.skip(i as int).drop_first() =~= self@.skip(i + 1));
            }
            i += 1;
        }
        proof {
            assert(self@.skip(n as int) =~= Seq::<(Seq<char>, Seq<char>)>::empty());
        }
        None
    }
}

/// The environment-variable name of one scalar field: an explicit `key` is
/// taken exactly as supplied, ignoring prefix and separator; otherwise the
/// field-level prefix and separator shade the type-level ones, the
/// separator defaults to `_`, and the name is the uppercased prefix, the
/// separator and the uppercased field name — or the uppercased field name
/// alone when the prefix is empty, with no leading separator.
pub open spec fn env_key_v(sattrs: AttrsV, fattrs: AttrsV, fname: Seq<char>) -> Seq<char> {
    match fattrs.key {
        Some(k) => k,
        None => {
            let prefix = match fattrs.prefix {
                Some(p) => p,
                None => match sattrs.prefix {
                    Some(p) => p,
                    None => Seq::empty(),
                },
            };
            let sep = match fattrs.separator {
                Some(x) => x,
                None => match sattrs.separator {
                    Some(x) => x,
                    None => "_"@,
                },
            };
            if prefix.len() == 0 {
                upper_seq(fname)
            } else {
                upper_seq(prefix) + sep + upper_seq(fname)
            }
        },
    }
}

/// Derives the environment-variable name of one scalar field.
pub fn derive_env_key(sattrs: &ConfigAttributes, fattrs: &ConfigAttributes, fname: &str) -> (r:
    String)
    ensures
        r@ == env_key_v(sattrs@, fattrs@, fname@),
{
    if let Some(k) = &fattrs.key {
        return k.clone();
    }
    let prefix: &str = match (&fattrs.prefix, &sattrs.prefix) {
        (Some(p), _) => p.as_str(),
        (None, Some(p)) => p.as_str(),
        (None, None) => "",
    };
    let sep: &str = match (&fattrs.separator, &sattrs.separator) {
        (Some(x), _) => x.as_str(),
        (None, Some(x)) => x.as_str(),
        (None, None) => "_",
    };
    proof {
        reveal_strlit("");
    }
    if prefix.unicode_len() == 0 {
        proof {
            assert(prefix@ =~= Seq::<char>::empty());
        }
        to_upper(fname)
    } else {
        let mut out = to_upper(prefix);
        out.append(sep);
        let uf = to_upper(fname);
        out.append(uf.as_str());
        out
    }
}

/// The pairs (field name, environment-variable name) of the scalar,
/// non-skip fields of a schema, in declaration order.
pub open spec fn env_key_one(sattrs: AttrsV, f: FieldSchemaV) -> Seq<(Seq<char>, Seq<char>)> {
    if !f.attrs.skip && f.kind is Scalar {
        seq![(f.name, env_key_v(sattrs, f.attrs, f.name))]
    } else {
        Seq::empty()
    }
}

pub open spec fn env_keys_fields(sattrs: AttrsV, sf: Seq<FieldSchemaV>) -> Seq<
    (Seq<char>, Seq<char>),
>
    decreases sf,
{
    if sf.len() == 0 {
        Seq::empty()
    } else {
        env_keys_fields(sattrs, sf.drop_last()) + env_key_one(sattrs, sf.last())
    }
}

pub open spec fn string_pairs_view(s: Seq<(String, String)>) -> Seq<(Seq<char>, Seq<char>)> {
    Seq::new(s.len(), |i: int| (s[i].0@, s[i].1@))
}

/// The map from field name to derived environment-variable name, for the
/// scalar, non-skip fields of the schema. Nested fields receive no name of
/// their own: resolution recurses into the nested type's layer instead.
pub fn get_env_keys(schema: &Schema) -> (r: Vec<(String, String)>)
    ensures
        string_pairs_view(r@) == env_keys_fields(schema@.attrs, schema@.fields),
{
    let n = schema.fields.len();
    let mut out: Vec<(String, String)> = Vec::new();
    let mut i: usize = 0;
    proof {
        lemma_fields_seq_view(schema.fields@);
    }
    while i < n
        invariant
            i <= n,
            n == schema.fields@.len(),
            string_pairs_view(out@) =~= env_keys_fields(
                schema@.attrs,
                schema@.fields.take(i as int),
            ),
        decreases n - i,
    {
        proof {
            lemma_fields_seq_view(schema.fields@);
            assert(schema@.fields.take(i + 1).drop_last() =~= schema@.fields.take(i as int));
            assert(schema@.fields.take(i + 1).last() == schema@.fields[i as int]);
        }
        let fs = &schema.fields[i];
        let is_scalar = match &fs.kind {
            FieldKind::Scalar(_) => true,
            _ => false,
        };
        if !fs.attrs.skip && is_scalar {
            let key = derive_env_key(&schema.attrs, &fs.attrs, fs.name.as_str());
            let name = fs.name.clone();
            out.push((name, key));
        }
        proof {
            assert(string_pairs_view(out@) =~= env_keys_fields(
                schema@.attrs,
                schema@.fields.take(i + 1),
            ));
        }
        i += 1;
    }
    proof {
        assert(schema@.fields.take(n as int) =~= schema@.fields);
    }
    out
}

/// The layer field one schema field draws from the environment: skip
/// fields stay absent; scalar fields look their derived name up and parse
/// the text, an absent or unparsable value staying absent; nested fields
/// recurse with the nested type's own attributes.
pub open spec fn env_field_v(
    sattrs: AttrsV,
    f: FieldSchemaV,
    env: Seq<(Seq<char>, Seq<char>)>,
) -> LayerFieldV
    decreases f,
{
    if f.attrs.skip {
        match f.kind {
            FieldKindV::Scalar(_) => LayerFieldV::Scalar(None),
            FieldKindV::Nested(_) => LayerFieldV::Nested(empty_layer_v()),
        }
    } else {
        match f.kind {
            FieldKindV::Scalar(k) => LayerFieldV::Scalar(
                match env_lookup(env, env_key_v(sattrs, f.attrs, f.name)) {
                    Some(raw) => parse_scalar_v(k, raw),
                    None => None,
                },
            ),
            FieldKindV::Nested(sub) => LayerFieldV::Nested(env_layer_v(sub, env)),
        }
    }
}

pub open spec fn env_fields_v(
    sattrs: AttrsV,
    sf: Seq<FieldSchemaV>,
    env: Seq<(Seq<char>, Seq<char>)>,
) -> Seq<LayerFieldV>
    decreases sf,
{
    if sf.len() == 0 {
        Seq::empty()
    } else {
        env_fields_v(sattrs, sf.drop_last(), env).push(env_field_v(sattrs, sf.last(), env))
    }
}

/// The layer a schema draws from an environment snapshot.
pub open spec fn env_layer_v(s: SchemaV, env: Seq<(Seq<char>, Seq<char>)>) -> LayerV
    decreases s,
{
    LayerV { fields: env_fields_v(s.attrs, s.fields, env) }
}

/// Index characterization of [`env_fields_v`].
pub proof fn lemma_env_fields_index(
    sattrs: AttrsV,
    sf: Seq<FieldSchemaV>,
    env: Seq<(Seq<char>, Seq<char>)>,
)
    ensures
        env_fields_v(sattrs, sf, env).len() == sf.len(),
        forall|i: int|
            0 <= i < sf.len() ==> env_fields_v(sattrs, sf, env)[i] == env_field_v(
                sattrs,
                sf[i],
                env,
            ),
    decreases sf,
{
    if sf.len() > 0 {
        lemma_env_fields_index(sattrs, sf.drop_last(), env);
    }
}

/// Builds the environment layer of a schema from a snapshot: for each
/// scalar, non-skip field, the parsed value of its derived variable name,
/// where set and parsable; nested fields recurse; skip fields stay absent.
pub fn from_env(schema: &Schema, env: &EnvSnapshot) -> (r: Layer)
    ensures
        r@ == env_layer_v(schema@, env@),
    decreases schema,
{
    let n = schema.fields.len();
    let mut out: Vec<LayerField> = Vec::new();
    let mut i: usize = 0;
    proof {
        lemma_fields_seq_view(schema.fields@);
        lemma_env_fields_index(schema@.attrs, schema@.fields, env@);
    }
    while i < n
        invariant
            i <= n,
            n == schema.fields@.len(),
            lfields_seq_view(out@).len() == i,
            forall|j: int|
                0 <= j < i ==> lfields_seq_view(out@)[j] == env_fields_v(
                    schema@.attrs,
                    schema@.fields,
                    env@,
                )[j],
        decreases n - i,
    {
        proof {
            lemma_fields_seq_view(schema.fields@);
            lemma_env_fields_index(schema@.attrs, schema@.fields, env@);
            lemma_lfields_seq_view(out@);
        }
        let fs = &schema.fields[i];
        let lf: LayerField = if fs.attrs.skip {
            match &fs.kind {
                FieldKind::Scalar(_) => LayerField::Scalar(None),
                FieldKind::Nested(_) => LayerField::Nested(crate::layer::empty_layer()),
            }
        } else {
            match &fs.kind {
                FieldKind::Scalar(k) => {
                    let key = derive_env_key(&schema.attrs, &fs.attrs, fs.name.as_str());
                    match env.get(key.as_str()) {
                        Some(raw) => LayerField::Scalar(parse_scalar(*k, raw.as_str())),
                        None => LayerField::Scalar(None),
                    }
                },
                FieldKind::Nested(sub) => {
                    proof {
                        assert(decreases_to!(*schema => schema.fields));
                        assert(decreases_to!(schema.fields => schema.fields@));
                        assert(decreases_to!(schema.fields@ => schema.fields@[i as int]));
                        assert(decreases_to!(schema.fields@[i as int] => schema.fields@[
                            i as int].kind));
                        assert(schema.fields@[i as int].kind->Nested_0 == *sub);
                        assert(decreases_to!(schema.fields@[i as int].kind => schema.fields@[
                            i as int].kind->Nested_0));
                    }
                    LayerField::Nested(from_env(sub, env))
                },
            }
        };
        assert(layer_field_view(lf) == env_field_v(schema@.attrs, schema@.fields[i as int], env@));
        let ghost out_before = out@;
        out.push(lf);
        proof {
            assert(out@.drop_last() =~= out_before);
            lemma_lfields_seq_view(out@);
        }
        i += 1;
    }
    let r = Layer { fields: out };
    proof {
        lemma_lfields_seq_view(r.fields@);
        assert(r@.fields =~= env_layer_v(schema@, env@).fields);
        assert(r@ =~= env_layer_v(schema@, env@));
    }
    r
}


/// The environment layer carries only values of the declared kinds.
pub proof fn lemma_env_layer_kinds(s: SchemaV, env: Seq<(Seq<char>, Seq<char>)>)
    ensures
        layer_kinds_ok(env_layer_v(s, env), s),
    decreases s,
{
    let l = env_layer_v(s, env);
    lemma_env_fields_index(s.attrs, s.fields, env);
    assert forall|i: int| 0 <= i < s.fields.len() implies field_kinds_opt(
        lay_at(l.fields, i),
        #[trigger] s.fields[i],
    ) by {
        let f = s.fields[i];
        assert(l.fields[i] == env_field_v(s.attrs, f, env));
        if f.attrs.skip {
            match f.kind {
                FieldKindV::Scalar(_) => {},
                FieldKindV::Nested(sub) => {
                    lemma_empty_kinds_ok(sub);
                },
            }
        } else {
            match f.kind {
                FieldKindV::Scalar(_) => {},
                FieldKindV::Nested(sub) => {
                    lemma_env_layer_kinds(sub, env);
                },
            }
        }
    }
    lemma_lkinds_fields_index(l.fields, s.fields);
}

} // verus!
