//! The layer of a configuration type: the per-source mirror value in which
//! every scalar field is optional and every nested field is the nested
//! type's own layer. Layers are merged with "self wins" precedence.

use vstd::prelude::*;
use crate::schema::{FieldKindV, FieldSchemaV, SchemaV};
use crate::value::{Value, ValueV, kind_matches};

verus! {

/// One field of a layer: an optional scalar value, or the nested layer
/// itself (never optional; absence is the nested layer's own empty state).
#[derive(Debug, PartialEq)]
pub enum LayerField {
    Scalar(Option<Value>),
    Nested(Layer),
}

/// The layer of a configuration type: what one source knows so far.
#[derive(Debug, PartialEq)]
pub struct Layer {
    pub fields: Vec<LayerField>,
}

#[verifier::ext_equal]
pub enum LayerFieldV {
    Scalar(Option<ValueV>),
    Nested(LayerV),
}

#[verifier::ext_equal]
pub struct LayerV {
    pub fields: Seq<LayerFieldV>,
}

pub open spec fn opt_value_view(o: Option<Value>) -> Option<ValueV> {
    match o {
        Some(v) => Some(v@),
        None => None,
    }
}

pub open spec fn layer_view(l: Layer) -> LayerV
    decreases l,
{
    LayerV { fields: lfields_seq_view(l.fields@) }
}

pub open spec fn lfields_seq_view(s: Seq<LayerField>) -> Seq<LayerFieldV>
    decreases s,
{
    if s.len() == 0 {
        Seq::empty()
    } else {
        lfields_seq_view(s.drop_last()).push(layer_field_view(s.last()))
    }
}

pub open spec fn layer_field_view(f: LayerField) -> LayerFieldV
    decreases f,
{
    match f {
        LayerField::Scalar(o) => LayerFieldV::Scalar(opt_value_view(o)),
        LayerField::Nested(l) => LayerFieldV::Nested(layer_view(l)),
    }
}

impl View for Layer {
    type V = LayerV;

    open spec fn view(&self) -> LayerV {
        layer_view(*self)
    }
}

impl View for LayerField {
    type V = LayerFieldV;

    open spec fn view(&self) -> LayerFieldV {
        layer_field_view(*self)
    }
}

/// Index characterization of [`lfields_seq_view`].
pub proof fn lemma_lfields_seq_view(s: Seq<LayerField>)
    ensures
        lfields_seq_view(s).len() == s.len(),
        forall|i: int| 0 <= i < s.len() ==> lfields_seq_view(s)[i] == layer_field_view(s[i]),
    decreases s,
{
    if s.len() > 0 {
        lemma_lfields_seq_view(s.drop_last());
    }
}

/// The layer that knows nothing: merging with it on either side changes
/// nothing.
pub open spec fn empty_layer_v() -> LayerV {
    LayerV { fields: Seq::empty() }
}

/// "Self wins" merge of two layer fields: a present scalar of `a` shades
/// `b`'s; nested layers merge recursively; on a shape disagreement `a`'s
/// field stands.
pub open spec fn merge_field_v(a: LayerFieldV, b: LayerFieldV) -> LayerFieldV
    decreases a,
{
    match (a, b) {
        (LayerFieldV::Scalar(x), LayerFieldV::Scalar(y)) => LayerFieldV::Scalar(
            if x is Some {
                x
            } else {
                y
            },
        ),
        (LayerFieldV::Nested(x), LayerFieldV::Nested(y)) => LayerFieldV::Nested(
            merge_layer_v(x, y),
        ),
        _ => a,
    }
}

/// "Self wins" merge of two runs of layer fields, position by position; the
/// positions past the shorter run's end are taken as they stand.
pub open spec fn merge_fields_v(a: Seq<LayerFieldV>, b: Seq<LayerFieldV>) -> Seq<LayerFieldV>
    decreases a,
{
    if a.len() == 0 {
        b
    } else if b.len() == 0 {
        a
    } else {
        seq![merge_field_v(a[0], b[0])] + merge_fields_v(a.drop_first(), b.drop_first())
    }
}

/// "Self wins" merge of two layers.
pub open spec fn merge_layer_v(a: LayerV, b: LayerV) -> LayerV
    decreases a,
{
    LayerV { fields: merge_fields_v(a.fields, b.fields) }
}

/// Index characterization of [`merge_fields_v`].
pub proof fn lemma_merge_fields_index(a: Seq<LayerFieldV>, b: Seq<LayerFieldV>)
    ensures
        merge_fields_v(a, b).len() == if a.len() < b.len() {
            b.len()
        } else {
            a.len()
        },
        forall|i: int|
            0 <= i < merge_fields_v(a, b).len() ==> merge_fields_v(a, b)[i] == (
            if i < a.len() && i < b.len() {
                merge_field_v(a[i], b[i])
            } else if i < a.len() {
                a[i]
            } else {
                b[i]
            }),
    decreases a,
{
    if a.len() == 0 || b.len() == 0 {
    } else {
        lemma_merge_fields_index(a.drop_first(), b.drop_first());
        assert forall|i: int| 0 <= i < merge_fields_v(a, b).len() implies merge_fields_v(a, b)[i]
            == (if i < a.len() && i < b.len() {
            merge_field_v(a[i], b[i])
        } else if i < a.len() {
            a[i]
        } else {
            b[i]
        }) by {
            if i > 0 {
                assert(merge_fields_v(a, b)[i] == merge_fields_v(
                    a.drop_first(),
                    b.drop_first(),
                )[i - 1]);
                if i < a.len() {
                    assert(a.drop_first()[i - 1] == a[i]);
                }
                if i < b.len() {
                    assert(b.drop_first()[i - 1] == b[i]);
                }
            }
        }
    }
}

fn merge_field_exec(a: LayerField, b: LayerField) -> (r: LayerField)
    ensures
        r@ == merge_field_v(a@, b@),
    decreases a@,
{
    match (a, b) {
        (LayerField::Scalar(x), LayerField::Scalar(y)) => LayerField::Scalar(
            if x.is_some() {
                x
            } else {
                y
            },
        ),
        (LayerField::Nested(x), LayerField::Nested(y)) => LayerField::Nested(merge_layer_exec(x, y)),
        (a2, _) => a2,
    }
}

pub(crate) fn merge_layer_exec(a: Layer, b: Layer) -> (r: Layer)
    ensures
        r@ == merge_layer_v(a@, b@),
    decreases a@,
{
    let ghost av = a@;
    let ghost bv = b@;
    let mut af = a.fields;
    let mut bf = b.fields;
    let total_a = af.len();
    let total_b = bf.len();
    proof {
        lemma_lfields_seq_view(af@);
        lemma_lfields_seq_view(bf@);
        lemma_merge_fields_index(av.fields, bv.fields);
    }
    let mut out: Vec<LayerField> = Vec::new();
    let mut i: usize = 0;
    while i < total_a && i < total_b
        invariant
            i + af.len() == total_a,
            i + bf.len() == total_b,
            av.fields.len() == total_a,
            bv.fields.len() == total_b,
            av == a@,
            lfields_seq_view(af@) =~= av.fields.skip(i as int),
            lfields_seq_view(bf@) =~= bv.fields.skip(i as int),
            lfields_seq_view(out@).len() == i,
            forall|j: int|
                0 <= j < i ==> lfields_seq_view(out@)[j] == merge_fields_v(
                    av.fields,
                    bv.fields,
                )[j],
        decreases total_a - i,
    {
        proof {
            lemma_lfields_seq_view(af@);
            lemma_lfields_seq_view(bf@);
            lemma_merge_fields_index(av.fields, bv.fields);
        }
        let ghost af_before = af@;
        let ghost bf_before = bf@;
        let fa = af.remove(0);
        let fb = bf.remove(0);
        proof {
            assert(layer_field_view(fa) == lfields_seq_view(af_before)[0]);
            assert(fa@ == av.fields[i as int]);
            assert(layer_field_view(fb) == lfields_seq_view(bf_before)[0]);
            assert(fb@ == bv.fields[i as int]);
            assert(decreases_to!(av => av.fields));
            assert(decreases_to!(av.fields => av.fields[i as int]));
        }
        let ghost out_before = out@;
        out.push(merge_field_exec(fa, fb));
        proof {
            assert(out@.drop_last() =~= out_before);
            lemma_lfields_seq_view(out@);
            lemma_lfields_seq_view(af@);
            lemma_lfields_seq_view(bf@);
            assert(af@ =~= af_before.drop_first());
            assert(bf@ =~= bf_before.drop_first());
            assert forall|j: int| 0 <= j < af@.len() implies lfields_seq_view(af@)[j]
                == av.fields.skip(i + 1)[j] by {
                assert(af@[j] == af_before[j + 1]);
                assert(lfields_seq_view(af_before)[j + 1] == layer_field_view(af_before[j + 1]));
                assert(av.fields.skip(i as int)[j + 1] == av.fields[i + 1 + j]);
            }
            assert(lfields_seq_view(af@) =~= av.fields.skip(i + 1));
            assert forall|j: int| 0 <= j < bf@.len() implies lfields_seq_view(bf@)[j]
                == bv.fields.skip(i + 1)[j] by {
                assert(bf@[j] == bf_before[j + 1]);
                assert(lfields_seq_view(bf_before)[j + 1] == layer_field_view(bf_before[j + 1]));
                assert(bv.fields.skip(i as int)[j + 1] == bv.fields[i + 1 + j]);
            }
            assert(lfields_seq_view(bf@) =~= bv.fields.skip(i + 1));
        }
        i += 1;
    }
    let ghost out_mid = out@;
    let ghost af_rest = af@;
    let ghost bf_rest = bf@;
    out.append(&mut af);
    out.append(&mut bf);
    proof {
        lemma_lfields_view_concat(out_mid, af_rest);
        lemma_lfields_view_concat(out_mid + af_rest, bf_rest);
        assert(out@ =~= out_mid + af_rest + bf_rest);
        lemma_lfields_seq_view(out_mid);
        lemma_lfields_seq_view(af_rest);
        lemma_lfields_seq_view(bf_rest);
        lemma_merge_fields_index(av.fields, bv.fields);
        assert(lfields_seq_view(out@) =~= lfields_seq_view(out_mid) + lfields_seq_view(af_rest)
            + lfields_seq_view(bf_rest));
        assert(lfields_seq_view(out@) =~= merge_fields_v(av.fields, bv.fields));
        assert(LayerV { fields: lfields_seq_view(out@) } =~= merge_layer_v(av, bv));
    }
    Layer { fields: out }
}

/// The field views of a concatenation are the concatenated field views.
proof fn lemma_lfields_view_concat(x: Seq<LayerField>, y: Seq<LayerField>)
    ensures
        lfields_seq_view(x + y) == lfields_seq_view(x) + lfields_seq_view(y),
    decreases y,
{
    if y.len() == 0 {
        assert(x + y =~= x);
        assert(lfields_seq_view(x) + lfields_seq_view(y) =~= lfields_seq_view(x));
    } else {
        lemma_lfields_view_concat(x, y.drop_last());
        assert((x + y).drop_last() =~= x + y.drop_last());
        assert((x + y).last() == y.last());
        assert(lfields_seq_view(x + y) =~= lfields_seq_view(x) + lfields_seq_view(y));
    }
}

/// The layer that knows nothing, as a value.
pub(crate) fn empty_layer() -> (r: Layer)
    ensures
        r@ == empty_layer_v(),
{
    let r = Layer { fields: Vec::new() };
    proof {
        assert(r@.fields =~= empty_layer_v().fields);
        assert(r@ =~= empty_layer_v());
    }
    r
}

/// Merging the empty layer from the right changes nothing.
pub proof fn lemma_merge_empty_right(l: LayerV)
    ensures
        merge_layer_v(l, empty_layer_v()) == l,
{
    if l.fields.len() == 0 {
        assert(merge_layer_v(l, empty_layer_v()).fields =~= l.fields);
    }
    assert(merge_layer_v(l, empty_layer_v()) =~= l);
}

/// Merging the empty layer from the left changes nothing.
pub proof fn lemma_merge_empty_left(l: LayerV)
    ensures
        merge_layer_v(empty_layer_v(), l) == l,
{
    assert(merge_layer_v(empty_layer_v(), l) =~= l);
}

/// Whether a run of layer fields has the shape of a run of schema fields.
pub open spec fn fields_shaped(lf: Seq<LayerFieldV>, sf: Seq<FieldSchemaV>) -> bool
    decreases sf,
{
    if lf.len() != sf.len() {
        false
    } else if sf.len() == 0 {
        true
    } else {
        fields_shaped(lf.drop_last(), sf.drop_last()) && field_shaped(lf.last(), sf.last())
    }
}

/// Whether a layer has the shape of a schema: one field per schema field,
/// scalar against scalar, nested against nested, recursively.
pub open spec fn layer_shaped(l: LayerV, s: SchemaV) -> bool
    decreases s,
{
    fields_shaped(l.fields, s.fields)
}

pub open spec fn field_shaped(f: LayerFieldV, fs: FieldSchemaV) -> bool
    decreases fs,
{
    match fs.kind {
        FieldKindV::Scalar(_) => f is Scalar,
        FieldKindV::Nested(sub) => f is Nested && layer_shaped(f->Nested_0, sub),
    }
}

/// Index characterization of [`fields_shaped`].
pub proof fn lemma_fields_shaped_index(lf: Seq<LayerFieldV>, sf: Seq<FieldSchemaV>)
    ensures
        fields_shaped(lf, sf) <==> (lf.len() == sf.len() && (forall|i: int|
            0 <= i < sf.len() ==> field_shaped(#[trigger] lf[i], sf[i]))),
    decreases sf,
{
    if lf.len() == sf.len() && sf.len() > 0 {
        lemma_fields_shaped_index(lf.drop_last(), sf.drop_last());
        if fields_shaped(lf, sf) {
            assert forall|i: int| 0 <= i < sf.len() implies field_shaped(
                #[trigger] lf[i],
                sf[i],
            ) by {
                if i < sf.len() - 1 {
                    assert(field_shaped(lf.drop_last()[i], sf.drop_last()[i]));
                } else {
                    assert(field_shaped(lf.last(), sf.last()));
                }
            }
        }
        if forall|i: int| 0 <= i < sf.len() ==> field_shaped(#[trigger] lf[i], sf[i]) {
            assert forall|i: int| 0 <= i < sf.len() - 1 implies field_shaped(
                #[trigger] lf.drop_last()[i],
                sf.drop_last()[i],
            ) by {
                assert(field_shaped(lf[i], sf[i]));
            }
            assert(field_shaped(lf.last(), sf.last()));
            assert(fields_shaped(lf, sf));
        }
    }
}

/// The all-absent layer of a schema: every scalar field absent, every
/// nested field the nested schema's own all-absent layer.
pub open spec fn absent_layer_v(s: SchemaV) -> LayerV
    decreases s,
{
    LayerV { fields: absent_fields_v(s.fields) }
}

pub open spec fn absent_fields_v(sf: Seq<FieldSchemaV>) -> Seq<LayerFieldV>
    decreases sf,
{
    if sf.len() == 0 {
        Seq::empty()
    } else {
        absent_fields_v(sf.drop_last()).push(absent_field_v(sf.last()))
    }
}

pub open spec fn absent_field_v(fs: FieldSchemaV) -> LayerFieldV
    decreases fs,
{
    match fs.kind {
        FieldKindV::Scalar(_) => LayerFieldV::Scalar(None),
        FieldKindV::Nested(sub) => LayerFieldV::Nested(absent_layer_v(sub)),
    }
}

/// Index characterization of [`absent_fields_v`].
pub proof fn lemma_absent_fields_index(sf: Seq<FieldSchemaV>)
    ensures
        absent_fields_v(sf).len() == sf.len(),
        forall|i: int| 0 <= i < sf.len() ==> absent_fields_v(sf)[i] == absent_field_v(sf[i]),
    decreases sf,
{
    if sf.len() > 0 {
        lemma_absent_fields_index(sf.drop_last());
    }
}

/// Merging a schema's all-absent layer from the right changes nothing, for
/// any layer of that schema's shape.
pub proof fn lemma_merge_absent_right(l: LayerV, s: SchemaV)
    requires
        layer_shaped(l, s),
    ensures
        merge_layer_v(l, absent_layer_v(s)) == l,
    decreases s,
{
    let m = merge_layer_v(l, absent_layer_v(s));
    lemma_fields_shaped_index(l.fields, s.fields);
    lemma_absent_fields_index(s.fields);
    lemma_merge_fields_index(l.fields, absent_layer_v(s).fields);
    assert forall|i: int| 0 <= i < l.fields.len() implies m.fields[i] == l.fields[i] by {
        assert(field_shaped(l.fields[i], s.fields[i]));
        match s.fields[i].kind {
            FieldKindV::Scalar(_) => {},
            FieldKindV::Nested(sub) => {
                lemma_merge_absent_right(l.fields[i]->Nested_0, sub);
            },
        }
    }
    assert(m.fields =~= l.fields);
    assert(m =~= l);
}

/// Merging a schema's all-absent layer from the left changes nothing, for
/// any layer of that schema's shape.
pub proof fn lemma_merge_absent_left(l: LayerV, s: SchemaV)
    requires
        layer_shaped(l, s),
    ensures
        merge_layer_v(absent_layer_v(s), l) == l,
    decreases s,
{
    let m = merge_layer_v(absent_layer_v(s), l);
    lemma_fields_shaped_index(l.fields, s.fields);
    lemma_absent_fields_index(s.fields);
    lemma_merge_fields_index(absent_layer_v(s).fields, l.fields);
    assert forall|i: int| 0 <= i < l.fields.len() implies m.fields[i] == l.fields[i] by {
        assert(field_shaped(l.fields[i], s.fields[i]));
        match s.fields[i].kind {
            FieldKindV::Scalar(_) => {},
            FieldKindV::Nested(sub) => {
                lemma_merge_absent_left(l.fields[i]->Nested_0, sub);
            },
        }
    }
    assert(m.fields =~= l.fields);
    assert(m =~= l);
}


/// The position of a run of layer fields, if it is within the run.
pub open spec fn lay_at(lf: Seq<LayerFieldV>, i: int) -> Option<LayerFieldV> {
    if 0 <= i < lf.len() {
        Some(lf[i])
    } else {
        None
    }
}

/// Whether one layer field, where present, carries values of the declared
/// kind: a present scalar matches the schema's kind; a nested layer is
/// kind-correct recursively; an absent position is trivially correct.
pub open spec fn field_kinds_opt(o: Option<LayerFieldV>, fs: FieldSchemaV) -> bool
    decreases fs,
{
    match fs.kind {
        FieldKindV::Scalar(k) => match o {
            Some(f) => f is Scalar && (f->Scalar_0 is Some ==> kind_matches(f->Scalar_0->0, k)),
            None => true,
        },
        FieldKindV::Nested(sub) => match o {
            Some(f) => f is Nested && layer_kinds_ok(f->Nested_0, sub),
            None => true,
        },
    }
}


/// Chaining merges of layers of one shape is associative: folding the
/// sources left-to-right in the same precedence order may be bracketed
/// either way.
pub proof fn lemma_merge_associative(a: LayerV, b: LayerV, c: LayerV, s: SchemaV)
    requires
        layer_shaped(a, s),
        layer_shaped(b, s),
        layer_shaped(c, s),
    ensures
        merge_layer_v(a, merge_layer_v(b, c)) == merge_layer_v(merge_layer_v(a, b), c),
    decreases s,
{
    let lhs = merge_layer_v(a, merge_layer_v(b, c));
    let rhs = merge_layer_v(merge_layer_v(a, b), c);
    lemma_fields_shaped_index(a.fields, s.fields);
    lemma_fields_shaped_index(b.fields, s.fields);
    lemma_fields_shaped_index(c.fields, s.fields);
    lemma_merge_fields_index(b.fields, c.fields);
    lemma_merge_fields_index(a.fields, merge_layer_v(b, c).fields);
    lemma_merge_fields_index(a.fields, b.fields);
    lemma_merge_fields_index(merge_layer_v(a, b).fields, c.fields);
    assert forall|i: int| 0 <= i < s.fields.len() implies lhs.fields[i] == rhs.fields[i] by {
        assert(field_shaped(a.fields[i], s.fields[i]));
        assert(field_shaped(b.fields[i], s.fields[i]));
        assert(field_shaped(c.fields[i], s.fields[i]));
        match s.fields[i].kind {
            FieldKindV::Scalar(_) => {},
            FieldKindV::Nested(sub) => {
                lemma_merge_associative(
                    a.fields[i]->Nested_0,
                    b.fields[i]->Nested_0,
                    c.fields[i]->Nested_0,
                    sub,
                );
            },
        }
    }
    assert(lhs.fields =~= rhs.fields);
    assert(lhs =~= rhs);
}


/// Whether one layer field position leaves a skip field untouched: a skip
/// field is the absent scalar or the empty nested layer; a non-skip nested
/// field satisfies the same recursively; everything else is unconstrained.
pub open spec fn field_skip_absent(o: Option<LayerFieldV>, fs: FieldSchemaV) -> bool
    decreases fs,
{
    if fs.attrs.skip {
        match o {
            Some(f) => f == (match fs.kind {
                FieldKindV::Scalar(_) => LayerFieldV::Scalar(None),
                FieldKindV::Nested(_) => LayerFieldV::Nested(empty_layer_v()),
            }),
            None => true,
        }
    } else {
        match fs.kind {
            FieldKindV::Scalar(_) => true,
            FieldKindV::Nested(sub) => match o {
                Some(LayerFieldV::Nested(l)) => layer_skip_absent(l, sub),
                _ => true,
            },
        }
    }
}

/// Whether a layer leaves every skip field of the schema untouched.
pub open spec fn layer_skip_absent(l: LayerV, s: SchemaV) -> bool
    decreases s,
{
    lskip_fields(l.fields, s.fields)
}

pub open spec fn lskip_fields(lf: Seq<LayerFieldV>, sf: Seq<FieldSchemaV>) -> bool
    decreases sf,
{
    if sf.len() == 0 {
        true
    } else {
        lskip_fields(lf, sf.drop_last()) && field_skip_absent(lay_at(lf, sf.len() - 1), sf.last())
    }
}

/// Index characterization of [`lskip_fields`].
pub proof fn lemma_lskip_fields_index(lf: Seq<LayerFieldV>, sf: Seq<FieldSchemaV>)
    ensures
        lskip_fields(lf, sf) <==> (forall|i: int|
            0 <= i < sf.len() ==> field_skip_absent(lay_at(lf, i), #[trigger] sf[i])),
    decreases sf,
{
    if sf.len() > 0 {
        lemma_lskip_fields_index(lf, sf.drop_last());
        if lskip_fields(lf, sf) {
            assert forall|i: int| 0 <= i < sf.len() implies field_skip_absent(
                lay_at(lf, i),
                #[trigger] sf[i],
            ) by {
                if i < sf.len() - 1 {
                    assert(field_skip_absent(lay_at(lf, i), sf.drop_last()[i]));
                } else {
                    assert(field_skip_absent(lay_at(lf, sf.len() - 1), sf.last()));
                }
            }
        }
        if forall|i: int| 0 <= i < sf.len() ==> field_skip_absent(lay_at(lf, i), #[trigger] sf[i]) {
            assert forall|i: int| 0 <= i < sf.len() - 1 implies field_skip_absent(
                lay_at(lf, i),
                #[trigger] sf.drop_last()[i],
            ) by {
                assert(field_skip_absent(lay_at(lf, i), sf[i]));
            }
            assert(field_skip_absent(lay_at(lf, sf.len() - 1), sf.last()));
            assert(lskip_fields(lf, sf));
        }
    }
}

/// The empty layer leaves every skip field untouched.
pub proof fn lemma_empty_skip_absent(s: SchemaV)
    ensures
        layer_skip_absent(empty_layer_v(), s),
{
    lemma_lskip_fields_index(empty_layer_v().fields, s.fields);
}

/// Whether a layer carries only values of the kinds its schema declares.
pub open spec fn layer_kinds_ok(l: LayerV, s: SchemaV) -> bool
    decreases s,
{
    l.fields.len() <= s.fields.len() && lkinds_fields(l.fields, s.fields)
}

pub open spec fn lkinds_fields(lf: Seq<LayerFieldV>, sf: Seq<FieldSchemaV>) -> bool
    decreases sf,
{
    if sf.len() == 0 {
        true
    } else {
        lkinds_fields(lf, sf.drop_last()) && field_kinds_opt(lay_at(lf, sf.len() - 1), sf.last())
    }
}

/// Index characterization of [`lkinds_fields`].
pub proof fn lemma_lkinds_fields_index(lf: Seq<LayerFieldV>, sf: Seq<FieldSchemaV>)
    ensures
        lkinds_fields(lf, sf) <==> (forall|i: int|
            0 <= i < sf.len() ==> field_kinds_opt(lay_at(lf, i), #[trigger] sf[i])),
    decreases sf,
{
    if sf.len() > 0 {
        lemma_lkinds_fields_index(lf, sf.drop_last());
        if lkinds_fields(lf, sf) {
            assert forall|i: int| 0 <= i < sf.len() implies field_kinds_opt(
                lay_at(lf, i),
                #[trigger] sf[i],
            ) by {
                if i < sf.len() - 1 {
                    assert(field_kinds_opt(lay_at(lf, i), sf.drop_last()[i]));
                } else {
                    assert(field_kinds_opt(lay_at(lf, sf.len() - 1), sf.last()));
                }
            }
        }
        if forall|i: int| 0 <= i < sf.len() ==> field_kinds_opt(lay_at(lf, i), #[trigger] sf[i]) {
            assert forall|i: int| 0 <= i < sf.len() - 1 implies field_kinds_opt(
                lay_at(lf, i),
                #[trigger] sf.drop_last()[i],
            ) by {
                assert(field_kinds_opt(lay_at(lf, i), sf[i]));
            }
            assert(field_kinds_opt(lay_at(lf, sf.len() - 1), sf.last()));
            assert(lkinds_fields(lf, sf));
        }
    }
}

/// The empty layer is kind-correct for every schema.
pub proof fn lemma_empty_kinds_ok(s: SchemaV)
    ensures
        layer_kinds_ok(empty_layer_v(), s),
{
    lemma_lkinds_fields_index(empty_layer_v().fields, s.fields);
}

/// "Self wins" merge preserves kind-correctness.
pub proof fn lemma_merge_kinds_ok(a: LayerV, b: LayerV, s: SchemaV)
    requires
        layer_kinds_ok(a, s),
        layer_kinds_ok(b, s),
    ensures
        layer_kinds_ok(merge_layer_v(a, b), s),
    decreases s,
{
    let m = merge_layer_v(a, b);
    lemma_merge_fields_index(a.fields, b.fields);
    lemma_lkinds_fields_index(a.fields, s.fields);
    lemma_lkinds_fields_index(b.fields, s.fields);
    assert forall|i: int| 0 <= i < s.fields.len() implies field_kinds_opt(
        lay_at(m.fields, i),
        #[trigger] s.fields[i],
    ) by {
        assert(field_kinds_opt(lay_at(a.fields, i), s.fields[i]));
        assert(field_kinds_opt(lay_at(b.fields, i), s.fields[i]));
        if i < m.fields.len() {
            if i < a.fields.len() && i < b.fields.len() {
                match s.fields[i].kind {
                    FieldKindV::Scalar(_) => {},
                    FieldKindV::Nested(sub) => {
                        if a.fields[i] is Nested && b.fields[i] is Nested {
                            lemma_merge_kinds_ok(a.fields[i]->Nested_0, b.fields[i]->Nested_0, sub);
                        }
                    },
                }
            }
        }
    }
    lemma_lkinds_fields_index(m.fields, s.fields);
}

} // verus!
