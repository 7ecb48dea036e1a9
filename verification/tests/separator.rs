use confgr::load::load_config;
use confgr::{
    ConfigAttributes, ConfigRecord, EnvSnapshot, FieldKind, FieldSchema, FsSnapshot, RecordField,
    ScalarKind, Schema, Value,
};

fn str_val(record: &ConfigRecord, i: usize) -> String {
    match &record.fields[i] {
        RecordField::Scalar(Value::Str(s)) => s.clone(),
        _ => panic!("expected a string field"),
    }
}

#[test]
fn custom_separator() {
    let mut sattrs = ConfigAttributes::new();
    sattrs.prefix = Some("TEST".to_string());
    sattrs.separator = Some("_sep_".to_string());
    let mut field_sep_attrs = ConfigAttributes::new();
    field_sep_attrs.separator = Some("__".to_string());
    let schema = Schema {
        attrs: sattrs,
        fields: vec![
            FieldSchema {
                name: "field_sep".to_string(),
                attrs: field_sep_attrs,
                kind: FieldKind::Scalar(ScalarKind::Str),
            },
            FieldSchema {
                name: "struct_sep".to_string(),
                attrs: ConfigAttributes::new(),
                kind: FieldKind::Scalar(ScalarKind::Str),
            },
        ],
    };
    let defaults = ConfigRecord {
        fields: vec![
            RecordField::Scalar(Value::Str(String::new())),
            RecordField::Scalar(Value::Str(String::new())),
        ],
    };
    let mut env = EnvSnapshot::new();
    env.set("TEST__FIELD_SEP", "field_sep");
    env.set("TEST_sep_STRUCT_SEP", "struct_sep");
    let fs = FsSnapshot::new();
    let config = load_config(&schema, &defaults, &env, &fs).unwrap();
    assert_eq!(str_val(&config, 0), "field_sep");
    assert_eq!(str_val(&config, 1), "struct_sep");
}
