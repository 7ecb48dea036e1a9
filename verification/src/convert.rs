//! The conversion layer: a domain record seeds the defaults layer, and the
//! final merged layer is turned back into a domain record.

use vstd::prelude::*;
use crate::layer::{
    Layer, LayerField, LayerFieldV, LayerV, empty_layer_v, field_kinds_opt, lay_at,
    layer_field_view, layer_kinds_ok, lemma_empty_kinds_ok, lemma_lfields_seq_view,
    lemma_lkinds_fields_index, lfields_seq_view,
};
use crate::record::{
    ConfigRecord, RecordField, RecordFieldV, RecordV, lemma_rfields_seq_view, record_field_view,
    rfields_seq_view, record_wf, rfield_wf, lemma_rfields_wf_index,
};
use crate::schema::{
    FieldKind, FieldKindV, FieldSchemaV, Schema, SchemaV, lemma_fields_seq_view,
};
use crate::value::{Value, kind_matches, zero_value};

verus! {

pub open spec fn rec_at(rf: Seq<RecordFieldV>, i: int) -> Option<RecordFieldV> {
    if 0 <= i < rf.len() {
        Some(rf[i])
    } else {
        None
    }
}

/// The layer field seeded from one domain field: a scalar becomes present
/// as it stands; a nested record becomes the nested layer; a missing or
/// ill-kinded field becomes absent.
pub open spec fn rl_field(o: Option<RecordFieldV>, fs: FieldSchemaV) -> LayerFieldV
    decreases fs,
{
    match fs.kind {
        FieldKindV::Scalar(k) => LayerFieldV::Scalar(
            match o {
                Some(RecordFieldV::Scalar(v)) => if kind_matches(v, k) {
                    Some(v)
                } else {
                    None
                },
                _ => None,
            },
        ),
        FieldKindV::Nested(sub) => LayerFieldV::Nested(
            match o {
                Some(RecordFieldV::Nested(rr)) => record_to_layer_v(rr, sub),
                _ => empty_layer_v(),
            },
        ),
    }
}

pub open spec fn rl_fields(rf: Seq<RecordFieldV>, sf: Seq<FieldSchemaV>) -> Seq<LayerFieldV>
    decreases sf,
{
    if sf.len() == 0 {
        Seq::empty()
    } else {
        rl_fields(rf, sf.drop_last()).push(rl_field(rec_at(rf, sf.len() - 1), sf.last()))
    }
}

/// The defaults layer of a domain record: every field of the schema made
/// present from the record, skip fields included — they are sourced from
/// the default conversion and from nowhere else.
pub open spec fn record_to_layer_v(r: RecordV, s: SchemaV) -> LayerV
    decreases s,
{
    LayerV { fields: rl_fields(r.fields, s.fields) }
}

/// Index characterization of [`rl_fields`].
pub proof fn lemma_rl_fields_index(rf: Seq<RecordFieldV>, sf: Seq<FieldSchemaV>)
    ensures
        rl_fields(rf, sf).len() == sf.len(),
        forall|i: int|
            0 <= i < sf.len() ==> rl_fields(rf, sf)[i] == rl_field(rec_at(rf, i), sf[i]),
    decreases sf,
{
    if sf.len() > 0 {
        lemma_rl_fields_index(rf, sf.drop_last());
    }
}

/// The domain field read back from one layer field: a present scalar of
/// the declared kind as it stands, a nested layer converted recursively;
/// anything still absent falls back to the kind's zero value.
pub open spec fn lr_field(o: Option<LayerFieldV>, fs: FieldSchemaV) -> RecordFieldV
    decreases fs,
{
    match fs.kind {
        FieldKindV::Scalar(k) => RecordFieldV::Scalar(
            match o {
                Some(LayerFieldV::Scalar(Some(v))) => if kind_matches(v, k) {
                    v
                } else {
                    zero_value(k)
                },
                _ => zero_value(k),
            },
        ),
        FieldKindV::Nested(sub) => RecordFieldV::Nested(
            match o {
                Some(LayerFieldV::Nested(sub_l)) => layer_to_record_v(sub_l, sub),
                _ => layer_to_record_v(empty_layer_v(), sub),
            },
        ),
    }
}

pub open spec fn lr_fields(lf: Seq<LayerFieldV>, sf: Seq<FieldSchemaV>) -> Seq<RecordFieldV>
    decreases sf,
{
    if sf.len() == 0 {
        Seq::empty()
    } else {
        lr_fields(lf, sf.drop_last()).push(lr_field(lay_at(lf, sf.len() - 1), sf.last()))
    }
}

/// The domain record of a layer: one field per schema field, absent fields
/// falling back to the zero value of their kind.
pub open spec fn layer_to_record_v(l: LayerV, s: SchemaV) -> RecordV
    decreases s,
{
    RecordV { fields: lr_fields(l.fields, s.fields) }
}

/// Index characterization of [`lr_fields`].
pub proof fn lemma_lr_fields_index(lf: Seq<LayerFieldV>, sf: Seq<FieldSchemaV>)
    ensures
        lr_fields(lf, sf).len() == sf.len(),
        forall|i: int|
            0 <= i < sf.len() ==> lr_fields(lf, sf)[i] == lr_field(lay_at(lf, i), sf[i]),
    decreases sf,
{
    if sf.len() > 0 {
        lemma_lr_fields_index(lf, sf.drop_last());
    }
}

/// Seeds the defaults layer from a domain record: every scalar field of
/// the schema becomes present with the record's value, every nested record
/// becomes the nested layer.
pub fn to_layer(schema: &Schema, record: &ConfigRecord) -> (r: Layer)
    ensures
        r@ == record_to_layer_v(record@, schema@),
    decreases schema,
{
    let n = schema.fields.len();
    let mut out: Vec<LayerField> = Vec::new();
    let mut i: usize = 0;
    proof {
        lemma_fields_seq_view(schema.fields@);
        lemma_rfields_seq_view(record.fields@);
        lemma_rl_fields_index(record@.fields, schema@.fields);
    }
    while i < n
        invariant
            i <= n,
            n == schema.fields@.len(),
            lfields_seq_view(out@).len() == i,
            forall|j: int|
                0 <= j < i ==> lfields_seq_view(out@)[j] == rl_fields(
                    record@.fields,
                    schema@.fields,
                )[j],
        decreases n - i,
    {
        proof {
            lemma_fields_seq_view(schema.fields@);
            lemma_rfields_seq_view(record.fields@);
            lemma_rl_fields_index(record@.fields, schema@.fields);
            lemma_lfields_seq_view(out@);
        }
        let fs = &schema.fields[i];
        let lf: LayerField = match &fs.kind {
            FieldKind::Scalar(k) => {
                let mut slot: Option<Value> = None;
                if i < record.fields.len() {
                    match &record.fields[i] {
                        RecordField::Scalar(v) => {
                            if v.kind_of() == *k {
                                slot = Some(v.dup());
                            }
                        },
                        _ => {},
                    }
                }
                LayerField::Scalar(slot)
            },
            FieldKind::Nested(sub) => {
                proof {
                    assert(decreases_to!(*schema => schema.fields));
                    assert(decreases_to!(schema.fields => schema.fields@));
                    assert(decreases_to!(schema.fields@ => schema.fields@[i as int]));
                    assert(decreases_to!(schema.fields@[i as int] => schema.fields@[
                        i as int].kind));
                    assert(schema.fields@[i as int].kind->Nested_0 == *sub);
                    assert(decreases_to!(schema.fields@[i as int].kind => schema.fields@[
                        i as int].kind->Nested_0));
                }
                let mut nested: Option<&ConfigRecord> = None;
                if i < record.fields.len() {
                    match &record.fields[i] {
                        RecordField::Nested(rr) => {
                            nested = Some(rr);
                        },
                        _ => {},
                    }
                }
                match nested {
                    Some(rr) => LayerField::Nested(to_layer(sub, rr)),
                    None => LayerField::Nested(crate::layer::empty_layer()),
                }
            },
        };
        assert(layer_field_view(lf) == rl_field(rec_at(record@.fields, i as int), schema@.fields[
            i as int]));
        let ghost out_before = out@;
        out.push(lf);
        proof {
            assert(out@.drop_last() =~= out_before);
            lemma_lfields_seq_view(out@);
        }
        i += 1;
    }
    let r = Layer { fields: out };
    proof {
        lemma_lfields_seq_view(r.fields@);
        assert(r@.fields =~= record_to_layer_v(record@, schema@).fields);
        assert(r@ =~= record_to_layer_v(record@, schema@));
    }
    r
}

/// Finalizes a merged layer into the domain record: present fields as they
/// stand, absent fields as the zero value of their kind.
pub fn to_record(schema: &Schema, layer: Layer) -> (r: ConfigRecord)
    ensures
        r@ == layer_to_record_v(layer@, schema@),
    decreases schema,
{
    let ghost lv = layer@;
    let n = schema.fields.len();
    let mut lf = layer.fields;
    let mut out: Vec<RecordField> = Vec::new();
    let mut i: usize = 0;
    proof {
        lemma_fields_seq_view(schema.fields@);
        lemma_lfields_seq_view(lf@);
        lemma_lr_fields_index(lv.fields, schema@.fields);
    }
    while i < n
        invariant
            i <= n,
            n == schema.fields@.len(),
            i <= lv.fields.len() ==> lfields_seq_view(lf@) =~= lv.fields.skip(i as int),
            i >= lv.fields.len() ==> lf@.len() == 0,
            rfields_seq_view(out@).len() == i,
            forall|j: int|
                0 <= j < i ==> rfields_seq_view(out@)[j] == lr_fields(lv.fields, schema@.fields)[j],
        decreases n - i,
    {
        proof {
            lemma_fields_seq_view(schema.fields@);
            lemma_lfields_seq_view(lf@);
            lemma_lr_fields_index(lv.fields, schema@.fields);
            lemma_rfields_seq_view(out@);
        }
        let fs = &schema.fields[i];
        let cur: Option<LayerField> = if lf.len() > 0 {
            let ghost lf_before = lf@;
            let f = lf.remove(0);
            proof {
                assert(layer_field_view(f) == lfields_seq_view(lf_before)[0]);
                lemma_lfields_seq_view(lf@);
                assert(lf@ =~= lf_before.drop_first());
                assert forall|j: int| 0 <= j < lf@.len() implies lfields_seq_view(lf@)[j]
                    == lfields_seq_view(lf_before)[j + 1] by {
                    assert(lf@[j] == lf_before[j + 1]);
                }
            }
            Some(f)
        } else {
            None
        };
        proof {
            if i < lv.fields.len() {
                assert(cur is Some && cur->0@ == lv.fields[i as int]);
                assert(lfields_seq_view(lf@) =~= lv.fields.skip(i + 1));
            } else {
                assert(cur is None);
            }
        }
        let rf: RecordField = match &fs.kind {
            FieldKind::Scalar(k) => {
                let mut slot: Option<Value> = None;
                match cur {
                    Some(LayerField::Scalar(Some(v))) => {
                        if v.kind_of() == *k {
                            slot = Some(v);
                        }
                    },
                    _ => {},
                }
                match slot {
                    Some(v) => RecordField::Scalar(v),
                    None => RecordField::Scalar(Value::zero_of(*k)),
                }
            },
            FieldKind::Nested(sub) => {
                proof {
                    assert(decreases_to!(*schema => schema.fields));
                    assert(decreases_to!(schema.fields => schema.fields@));
                    assert(decreases_to!(schema.fields@ => schema.fields@[i as int]));
                    assert(decreases_to!(schema.fields@[i as int] => schema.fields@[
                        i as int].kind));
                    assert(schema.fields@[i as int].kind->Nested_0 == *sub);
                    assert(decreases_to!(schema.fields@[i as int].kind => schema.fields@[
                        i as int].kind->Nested_0));
                }
                let mut nested: Option<Layer> = None;
                match cur {
                    Some(LayerField::Nested(sub_l)) => {
                        nested = Some(sub_l);
                    },
                    _ => {},
                }
                match nested {
                    Some(sub_l) => RecordField::Nested(to_record(sub, sub_l)),
                    None => RecordField::Nested(to_record(sub, crate::layer::empty_layer())),
                }
            },
        };
        assert(record_field_view(rf) == lr_field(lay_at(lv.fields, i as int), schema@.fields[
            i as int]));
        let ghost out_before = out@;
        out.push(rf);
        proof {
            assert(out@.drop_last() =~= out_before);
            lemma_rfields_seq_view(out@);
        }
        i += 1;
    }
    let r = ConfigRecord { fields: out };
    proof {
        lemma_rfields_seq_view(r.fields@);
        assert(r@.fields =~= layer_to_record_v(lv, schema@).fields);
        assert(r@ =~= layer_to_record_v(lv, schema@));
    }
    r
}

/// Whether no field of the schema, at any depth, carries `skip`.
pub open spec fn schema_no_skip(s: SchemaV) -> bool
    decreases s,
{
    sfields_no_skip(s.fields)
}

pub open spec fn sfields_no_skip(sf: Seq<FieldSchemaV>) -> bool
    decreases sf,
{
    if sf.len() == 0 {
        true
    } else {
        sfields_no_skip(sf.drop_last()) && sfield_no_skip(sf.last())
    }
}

pub open spec fn sfield_no_skip(fs: FieldSchemaV) -> bool
    decreases fs,
{
    !fs.attrs.skip && match fs.kind {
        FieldKindV::Scalar(_) => true,
        FieldKindV::Nested(sub) => schema_no_skip(sub),
    }
}

/// Index characterization of [`sfields_no_skip`].
pub proof fn lemma_sfields_no_skip_index(sf: Seq<FieldSchemaV>)
    ensures
        sfields_no_skip(sf) <==> (forall|i: int|
            0 <= i < sf.len() ==> sfield_no_skip(#[trigger] sf[i])),
    decreases sf,
{
    if sf.len() > 0 {
        lemma_sfields_no_skip_index(sf.drop_last());
        if sfields_no_skip(sf) {
            assert forall|i: int| 0 <= i < sf.len() implies sfield_no_skip(#[trigger] sf[i]) by {
                if i < sf.len() - 1 {
                    assert(sfield_no_skip(sf.drop_last()[i]));
                } else {
                    assert(sfield_no_skip(sf.last()));
                }
            }
        }
        if forall|i: int| 0 <= i < sf.len() ==> sfield_no_skip(#[trigger] sf[i]) {
            assert forall|i: int| 0 <= i < sf.len() - 1 implies sfield_no_skip(
                #[trigger] sf.drop_last()[i],
            ) by {
                assert(sfield_no_skip(sf[i]));
            }
            assert(sfield_no_skip(sf.last()));
        }
    }
}

/// Round trip: converting a well-formed domain value to its default layer
/// and back yields the original value, for a schema with no skip fields.
pub proof fn lemma_round_trip(r: RecordV, s: SchemaV)
    requires
        record_wf(r, s),
        schema_no_skip(s),
    ensures
        layer_to_record_v(record_to_layer_v(r, s), s) == r,
    decreases s,
{
    let back = layer_to_record_v(record_to_layer_v(r, s), s);
    lemma_rfields_wf_index(r.fields, s.fields);
    lemma_sfields_no_skip_index(s.fields);
    lemma_rl_fields_index(r.fields, s.fields);
    lemma_lr_fields_index(record_to_layer_v(r, s).fields, s.fields);
    assert forall|i: int| 0 <= i < s.fields.len() implies back.fields[i] == r.fields[i] by {
        assert(rfield_wf(r.fields[i], s.fields[i]));
        assert(sfield_no_skip(s.fields[i]));
        match s.fields[i].kind {
            FieldKindV::Scalar(_) => {},
            FieldKindV::Nested(sub) => {
                lemma_round_trip(r.fields[i]->Nested_0, sub);
            },
        }
    }
    assert(back.fields =~= r.fields);
    assert(back =~= r);
}


/// The defaults layer seeded from any record carries only values of the
/// declared kinds.
pub proof fn lemma_record_layer_kinds(r: RecordV, s: SchemaV)
    ensures
        layer_kinds_ok(record_to_layer_v(r, s), s),
    decreases s,
{
    let l = record_to_layer_v(r, s);
    lemma_rl_fields_index(r.fields, s.fields);
    assert forall|i: int| 0 <= i < s.fields.len() implies field_kinds_opt(
        lay_at(l.fields, i),
        #[trigger] s.fields[i],
    ) by {
        let f = s.fields[i];
        assert(l.fields[i] == rl_field(rec_at(r.fields, i), f));
        match f.kind {
            FieldKindV::Scalar(_) => {},
            FieldKindV::Nested(sub) => {
                match rec_at(r.fields, i) {
                    Some(RecordFieldV::Nested(rr)) => {
                        lemma_record_layer_kinds(rr, sub);
                    },
                    _ => {
                        lemma_empty_kinds_ok(sub);
                    },
                }
            },
        }
    }
    lemma_lkinds_fields_index(l.fields, s.fields);
}

} // verus!
