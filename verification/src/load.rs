//! The top-level load: the file layer is folded over the defaults layer,
//! the environment layer over that, and the final layer becomes the domain
//! value. The load never fails except on the resolver's fatal branches.
//!
//! The decoded document is not a function of the file's contents (see
//! [`crate::decode::parses`]), so the contracts carry the file layer as a
//! value: they pin the layer exactly wherever no document is decoded, and
//! state what holds of every decoded layer otherwise.

use vstd::prelude::*;
use crate::ConfgrError;
use crate::convert::{
    layer_to_record_v, lemma_lr_fields_index, lemma_record_layer_kinds, record_to_layer_v,
    to_layer, to_record,
};
use crate::decode::{
    RawValueV, detect_format, format_of_path, layer_from_doc_v, layer_from_parsed,
    lemma_layer_from_doc_kinds, lemma_layer_from_doc_skip_absent, parse_contents, parses,
};
use crate::environment::{
    EnvSnapshot, env_key_v, env_layer_v, env_lookup, from_env, lemma_env_fields_index,
    lemma_env_layer_kinds, env_field_v,
};
use crate::file::{
    FileEntry, FileEntryV, FsSnapshot, fs_lookup, get_file_path, spec_resolve,
};
use crate::layer::{
    Layer, LayerFieldV, LayerV, empty_layer_v, field_kinds_opt, field_skip_absent, lay_at,
    layer_kinds_ok, layer_skip_absent, lemma_empty_kinds_ok, lemma_empty_skip_absent,
    lemma_lkinds_fields_index, lemma_lskip_fields_index, lemma_merge_fields_index,
    lemma_merge_kinds_ok, merge_layer_v,
};
use crate::parse::parse_scalar_v;
use crate::record::{ConfigRecord, RecordFieldV, RecordV, record_wf, rfield_wf,
    lemma_rfields_wf_index};
use crate::schema::{Schema, SchemaV};
use crate::value::{ValueV, zero_value};

verus! {

/// What holds of every file layer the fault-tolerant load can use: it
/// carries only values of the declared kinds, and it leaves every skip
/// field untouched.
pub open spec fn usable_file_layer(fl: LayerV, s: SchemaV) -> bool {
    layer_kinds_ok(fl, s) && layer_skip_absent(fl, s)
}

/// What holds of a successfully decoded file layer: it is the decode
/// mapping of some document, and is therefore usable.
pub open spec fn spec_file_ok(s: SchemaV, l: LayerV) -> bool {
    (exists|doc: RawValueV| l == #[trigger] layer_from_doc_v(s, doc)) && usable_file_layer(l, s)
}

/// Whether the entry at a path decodes: it is readable, its extension
/// names a format, and its contents parse in that format.
pub open spec fn spec_entry_parses(p: Seq<char>, fs: Seq<(Seq<char>, FileEntryV)>) -> bool {
    match fs_lookup(fs, p) {
        Some(FileEntryV::Readable(c)) => match format_of_path(p) {
            Some(fmt) => parses(fmt, c),
            None => false,
        },
        _ => false,
    }
}

/// Whether reading the configuration file succeeds: a path resolves and
/// its entry decodes.
pub open spec fn spec_file_succeeds(
    s: SchemaV,
    env: Seq<(Seq<char>, Seq<char>)>,
    fs: Seq<(Seq<char>, FileEntryV)>,
) -> bool {
    match spec_resolve(s.attrs, env, fs) {
        Ok(Some(p)) => spec_entry_parses(p, fs),
        _ => false,
    }
}

/// The error the diagnostic read reports where it cannot succeed: the
/// resolver's own error, `NoFilePath` where no file is configured,
/// `FileIo` for an unreadable file, and `FileFormat` for an unrecognized
/// extension or contents that do not parse.
pub open spec fn spec_file_error(
    s: SchemaV,
    env: Seq<(Seq<char>, Seq<char>)>,
    fs: Seq<(Seq<char>, FileEntryV)>,
) -> ConfgrError {
    match spec_resolve(s.attrs, env, fs) {
        Err(e) => e,
        Ok(None) => ConfgrError::NoFilePath,
        Ok(Some(p)) => match fs_lookup(fs, p) {
            Some(FileEntryV::Readable(_)) => ConfgrError::FileFormat,
            _ => ConfgrError::FileIo,
        },
    }
}

/// Reads and decodes the configuration file into its layer, as a
/// diagnostic entry point: unlike the top-level load it surfaces every
/// file error, and reports `NoFilePath` where no file is configured. It
/// succeeds exactly where a resolved, readable file of a recognized
/// format parses; which error comes back otherwise is fixed by the
/// snapshots; the decoded layer is the decode mapping of some document.
pub fn from_file(schema: &Schema, env: &EnvSnapshot, fs: &FsSnapshot) -> (r: Result<
    Layer,
    ConfgrError,
>)
    ensures
        r is Ok <==> spec_file_succeeds(schema@, env@, fs@),
        r matches Err(e) ==> e == spec_file_error(schema@, env@, fs@),
        r matches Ok(l) ==> spec_file_ok(schema@, l@),
{
    match get_file_path(&schema.attrs, env, fs) {
        Err(e) => Err(e),
        Ok(None) => Err(ConfgrError::NoFilePath),
        Ok(Some(p)) => match fs.lookup(p.as_str()) {
            Some(FileEntry::Readable(c)) => match detect_format(p.as_str()) {
                Some(fmt) => match parse_contents(c.as_str(), fmt) {
                    Ok(doc) => {
                        let l = layer_from_parsed(schema, &doc);
                        proof {
                            lemma_layer_from_doc_kinds(schema@, doc@);
                            lemma_layer_from_doc_skip_absent(schema@, doc@);
                            assert(l@ == layer_from_doc_v(schema@, doc@));
                        }
                        Ok(l)
                    },
                    Err(e) => Err(e),
                },
                None => Err(ConfgrError::FileFormat),
            },
            _ => Err(ConfgrError::FileIo),
        },
    }
}

/// The loaded domain value, given the file layer the load used: the
/// environment layer folded over the file layer folded over the defaults
/// layer, finalized into a record.
pub open spec fn spec_loaded_record_with(
    s: SchemaV,
    defaults: RecordV,
    env: Seq<(Seq<char>, Seq<char>)>,
    fl: LayerV,
) -> RecordV {
    let default_layer = record_to_layer_v(defaults, s);
    let env_layer = env_layer_v(s, env);
    layer_to_record_v(merge_layer_v(env_layer, merge_layer_v(fl, default_layer)), s)
}

/// What the load guarantees of the file layer it used: it is usable; it
/// is a decoded layer where the file decodes, and exactly the empty layer
/// where no file is configured or any file error occurs.
pub open spec fn spec_load_file_layer(
    s: SchemaV,
    env: Seq<(Seq<char>, Seq<char>)>,
    fs: Seq<(Seq<char>, FileEntryV)>,
    fl: LayerV,
) -> bool {
    &&& usable_file_layer(fl, s)
    &&& (spec_file_succeeds(s, env, fs) ==> spec_file_ok(s, fl))
    &&& (!spec_file_succeeds(s, env, fs) ==> fl == empty_layer_v())
}

/// The file layer of one resolved path: the decoded layer where the entry
/// decodes, the empty layer otherwise.
fn decoded_file_layer(schema: &Schema, p: &String, fs: &FsSnapshot) -> (fl: Layer)
    ensures
        usable_file_layer(fl@, schema@),
        spec_entry_parses(p@, fs@) ==> spec_file_ok(schema@, fl@),
        !spec_entry_parses(p@, fs@) ==> fl@ == empty_layer_v(),
{
    match fs.lookup(p.as_str()) {
        Some(FileEntry::Readable(c)) => match detect_format(p.as_str()) {
            Some(fmt) => match parse_contents(c.as_str(), fmt) {
                Ok(doc) => {
                    let l = layer_from_parsed(schema, &doc);
                    proof {
                        lemma_layer_from_doc_kinds(schema@, doc@);
                        lemma_layer_from_doc_skip_absent(schema@, doc@);
                        assert(l@ == layer_from_doc_v(schema@, doc@));
                    }
                    l
                },
                Err(_) => {
                    proof {
                        lemma_empty_kinds_ok(schema@);
                        lemma_empty_skip_absent(schema@);
                    }
                    crate::layer::empty_layer()
                },
            },
            None => {
                proof {
                    lemma_empty_kinds_ok(schema@);
                    lemma_empty_skip_absent(schema@);
                }
                crate::layer::empty_layer()
            },
        },
        _ => {
            proof {
                lemma_empty_kinds_ok(schema@);
                lemma_empty_skip_absent(schema@);
            }
            crate::layer::empty_layer()
        },
    }
}

/// Loads the configuration: resolves and decodes the file (falling back
/// to the defaults on any file error), merges environment over file over
/// defaults, and finalizes the result. It fails exactly where the
/// resolver does — a mandatory `path` that does not resolve, or `path`
/// and `default_path` both set — with the resolver's error; the loaded
/// record is the merge chain over some usable file layer, which is
/// exactly the empty layer wherever the file does not decode.
pub fn load_config(schema: &Schema, defaults: &ConfigRecord, env: &EnvSnapshot, fs: &FsSnapshot)
    -> (r: Result<ConfigRecord, ConfgrError>)
    ensures
        r is Err <==> spec_resolve(schema@.attrs, env@, fs@) is Err,
        r matches Err(e) ==> spec_resolve(schema@.attrs, env@, fs@) == Err::<
            Option<Seq<char>>,
            ConfgrError,
        >(e),
        r matches Ok(rec) ==> exists|fl: LayerV|
            #[trigger] spec_load_file_layer(schema@, env@, fs@, fl) && rec@
                == spec_loaded_record_with(schema@, defaults@, env@, fl),
{
    let file_layer: Layer = match get_file_path(&schema.attrs, env, fs) {
        Err(e) => {
            return Err(e);
        },
        Ok(None) => {
            proof {
                lemma_empty_kinds_ok(schema@);
                lemma_empty_skip_absent(schema@);
            }
            crate::layer::empty_layer()
        },
        Ok(Some(p)) => decoded_file_layer(schema, &p, fs),
    };
    proof {
        assert(spec_load_file_layer(schema@, env@, fs@, file_layer@));
    }
    let default_layer = to_layer(schema, defaults);
    let env_layer = from_env(schema, env);
    let merged = crate::layer::merge_layer_exec(
        env_layer,
        crate::layer::merge_layer_exec(file_layer, default_layer),
    );
    let rec = to_record(schema, merged);
    proof {
        assert(rec@ == spec_loaded_record_with(schema@, defaults@, env@, file_layer@));
    }
    Ok(rec)
}

/// Precedence at the layer level: wherever the three source layers hold a
/// scalar field, the merged chain holds the environment's value where
/// present, else the file's, else the defaults'.
pub proof fn lemma_precedence(env_l: LayerV, file_l: LayerV, def_l: LayerV, i: int)
    requires
        0 <= i < env_l.fields.len(),
        i < file_l.fields.len(),
        i < def_l.fields.len(),
        env_l.fields[i] is Scalar,
        file_l.fields[i] is Scalar,
        def_l.fields[i] is Scalar,
    ensures
        merge_layer_v(env_l, merge_layer_v(file_l, def_l)).fields[i] == LayerFieldV::Scalar(
            if env_l.fields[i]->Scalar_0 is Some {
                env_l.fields[i]->Scalar_0
            } else if file_l.fields[i]->Scalar_0 is Some {
                file_l.fields[i]->Scalar_0
            } else {
                def_l.fields[i]->Scalar_0
            },
        ),
{
    lemma_merge_fields_index(file_l.fields, def_l.fields);
    lemma_merge_fields_index(env_l.fields, merge_layer_v(file_l, def_l).fields);
}

/// The scalar value the environment source holds for one field, if any.
pub open spec fn env_source_value(
    s: SchemaV,
    i: int,
    env: Seq<(Seq<char>, Seq<char>)>,
) -> Option<ValueV> {
    let f = s.fields[i];
    if f.attrs.skip {
        None
    } else {
        match env_lookup(env, env_key_v(s.attrs, f.attrs, f.name)) {
            Some(raw) => parse_scalar_v(f.kind->Scalar_0, raw),
            None => None,
        }
    }
}

/// The scalar value a file layer holds for one field, if any.
pub open spec fn file_source_value(fl: LayerV, i: int) -> Option<ValueV> {
    match lay_at(fl.fields, i) {
        Some(LayerFieldV::Scalar(o)) => o,
        _ => None,
    }
}

/// The defaults layer's slot for one field: what the default conversion
/// seeds there, where the position exists.
pub open spec fn rl_field_of(defaults: RecordV, s: SchemaV, i: int) -> Option<Option<ValueV>> {
    match lay_at(record_to_layer_v(defaults, s).fields, i) {
        Some(LayerFieldV::Scalar(o)) => Some(o),
        _ => None,
    }
}

/// Precedence at the load level: for every top-level scalar field and
/// every kind-correct file layer, the loaded value is the
/// highest-precedence source's value — environment over file over
/// defaults — and the kind's zero value where no source holds one.
pub proof fn lemma_loaded_field(
    s: SchemaV,
    defaults: RecordV,
    env: Seq<(Seq<char>, Seq<char>)>,
    fl: LayerV,
    i: int,
)
    requires
        0 <= i < s.fields.len(),
        s.fields[i].kind is Scalar,
        layer_kinds_ok(fl, s),
    ensures
        spec_loaded_record_with(s, defaults, env, fl).fields[i] == RecordFieldV::Scalar(
            {
                let k = s.fields[i].kind->Scalar_0;
                let from_default = match rl_field_of(defaults, s, i) {
                    Some(o) => o,
                    None => None,
                };
                match env_source_value(s, i, env) {
                    Some(v) => v,
                    None => match file_source_value(fl, i) {
                        Some(v) => v,
                        None => match from_default {
                            Some(v) => v,
                            None => zero_value(k),
                        },
                    },
                }
            },
        ),
{
    let env_l = env_layer_v(s, env);
    let def_l = record_to_layer_v(defaults, s);
    let merged = merge_layer_v(env_l, merge_layer_v(fl, def_l));
    lemma_env_fields_index(s.attrs, s.fields, env);
    crate::convert::lemma_rl_fields_index(defaults.fields, s.fields);
    lemma_env_layer_kinds(s, env);
    lemma_record_layer_kinds(defaults, s);
    lemma_merge_kinds_ok(fl, def_l, s);
    lemma_merge_kinds_ok(env_l, merge_layer_v(fl, def_l), s);
    lemma_merge_fields_index(fl.fields, def_l.fields);
    lemma_merge_fields_index(env_l.fields, merge_layer_v(fl, def_l).fields);
    lemma_lr_fields_index(merged.fields, s.fields);
    lemma_lkinds_fields_index(merged.fields, s.fields);
    assert(field_kinds_opt(lay_at(merged.fields, i), s.fields[i]));
    lemma_lkinds_fields_index(fl.fields, s.fields);
    assert(field_kinds_opt(lay_at(fl.fields, i), s.fields[i]));
    lemma_lkinds_fields_index(def_l.fields, s.fields);
    assert(field_kinds_opt(lay_at(def_l.fields, i), s.fields[i]));
    assert(env_l.fields[i] == env_field_v(s.attrs, s.fields[i], env));
}

/// A skip field never changes: whatever the environment holds and
/// whatever usable file layer the load used, the loaded value of a scalar
/// skip field is the default value, for a well-formed defaults record.
pub proof fn lemma_skip_field_default(
    s: SchemaV,
    defaults: RecordV,
    env: Seq<(Seq<char>, Seq<char>)>,
    fl: LayerV,
    i: int,
)
    requires
        0 <= i < s.fields.len(),
        s.fields[i].kind is Scalar,
        s.fields[i].attrs.skip,
        record_wf(defaults, s),
        usable_file_layer(fl, s),
    ensures
        spec_loaded_record_with(s, defaults, env, fl).fields[i] == defaults.fields[i],
{
    lemma_loaded_field(s, defaults, env, fl, i);
    lemma_rfields_wf_index(defaults.fields, s.fields);
    assert(rfield_wf(defaults.fields[i], s.fields[i]));
    crate::convert::lemma_rl_fields_index(defaults.fields, s.fields);
    lemma_lskip_fields_index(fl.fields, s.fields);
    assert(field_skip_absent(lay_at(fl.fields, i), s.fields[i]));
}

} // verus!
