//! The domain value of a configuration type, represented as a record tree
//! parallel to the schema: one scalar value or one nested record per field.

use vstd::prelude::*;
use crate::schema::{FieldKindV, FieldSchemaV, SchemaV};
use crate::value::{Value, ValueV, kind_matches};

verus! {

/// One field of a domain value.
#[derive(Debug, PartialEq)]
pub enum RecordField {
    Scalar(Value),
    Nested(ConfigRecord),
}

/// A fully populated domain value, field by field in declaration order.
#[derive(Debug, PartialEq)]
pub struct ConfigRecord {
    pub fields: Vec<RecordField>,
}

#[verifier::ext_equal]
pub enum RecordFieldV {
    Scalar(ValueV),
    Nested(RecordV),
}

#[verifier::ext_equal]
pub struct RecordV {
    pub fields: Seq<RecordFieldV>,
}

pub open spec fn record_view(r: ConfigRecord) -> RecordV
    decreases r,
{
    RecordV { fields: rfields_seq_view(r.fields@) }
}

pub open spec fn rfields_seq_view(s: Seq<RecordField>) -> Seq<RecordFieldV>
    decreases s,
{
    if s.len() == 0 {
        Seq::empty()
    } else {
        rfields_seq_view(s.drop_last()).push(record_field_view(s.last()))
    }
}

pub open spec fn record_field_view(f: RecordField) -> RecordFieldV
    decreases f,
{
    match f {
        RecordField::Scalar(v) => RecordFieldV::Scalar(v@),
        RecordField::Nested(r) => RecordFieldV::Nested(record_view(r)),
    }
}

impl View for ConfigRecord {
    type V = RecordV;

    open spec fn view(&self) -> RecordV {
        record_view(*self)
    }
}

impl View for RecordField {
    type V = RecordFieldV;

    open spec fn view(&self) -> RecordFieldV {
        record_field_view(*self)
    }
}

/// Index characterization of [`rfields_seq_view`].
pub proof fn lemma_rfields_seq_view(s: Seq<RecordField>)
    ensures
        rfields_seq_view(s).len() == s.len(),
        forall|i: int| 0 <= i < s.len() ==> rfields_seq_view(s)[i] == record_field_view(s[i]),
    decreases s,
{
    if s.len() > 0 {
        lemma_rfields_seq_view(s.drop_last());
    }
}

/// Whether a record is a well-formed domain value of a schema: one field
/// per schema field, of the declared kind, recursively.
pub open spec fn record_wf(r: RecordV, s: SchemaV) -> bool
    decreases s,
{
    rfields_wf(r.fields, s.fields)
}

pub open spec fn rfields_wf(rf: Seq<RecordFieldV>, sf: Seq<FieldSchemaV>) -> bool
    decreases sf,
{
    if rf.len() != sf.len() {
        false
    } else if sf.len() == 0 {
        true
    } else {
        rfields_wf(rf.drop_last(), sf.drop_last()) && rfield_wf(rf.last(), sf.last())
    }
}

pub open spec fn rfield_wf(f: RecordFieldV, fs: FieldSchemaV) -> bool
    decreases fs,
{
    match fs.kind {
        FieldKindV::Scalar(k) => f is Scalar && kind_matches(f->Scalar_0, k),
        FieldKindV::Nested(sub) => f is Nested && record_wf(f->Nested_0, sub),
    }
}

/// Index characterization of [`rfields_wf`].
pub proof fn lemma_rfields_wf_index(rf: Seq<RecordFieldV>, sf: Seq<FieldSchemaV>)
    ensures
        rfields_wf(rf, sf) <==> (rf.len() == sf.len() && (forall|i: int|
            0 <= i < sf.len() ==> rfield_wf(#[trigger] rf[i], sf[i]))),
    decreases sf,
{
    if rf.len() == sf.len() && sf.len() > 0 {
        lemma_rfields_wf_index(rf.drop_last(), sf.drop_last());
        if rfields_wf(rf, sf) {
            assert forall|i: int| 0 <= i < sf.len() implies rfield_wf(#[trigger] rf[i], sf[i]) by {
                if i < sf.len() - 1 {
                    assert(rfield_wf(rf.drop_last()[i], sf.drop_last()[i]));
                } else {
                    assert(rfield_wf(rf.last(), sf.last()));
                }
            }
        }
        if forall|i: int| 0 <= i < sf.len() ==> rfield_wf(#[trigger] rf[i], sf[i]) {
            assert forall|i: int| 0 <= i < sf.len() - 1 implies rfield_wf(
                #[trigger] rf.drop_last()[i],
                sf.drop_last()[i],
            ) by {
                assert(rfield_wf(rf[i], sf[i]));
            }
            assert(rfield_wf(rf.last(), sf.last()));
            assert(rfields_wf(rf, sf));
        }
    }
}

} // verus!
