use confgr::load::load_config;
use confgr::{
    ConfigAttributes, ConfigRecord, EnvSnapshot, FieldKind, FieldSchema, FsSnapshot, RecordField,
    ScalarKind, Schema, Value,
};

fn str_val(record: &ConfigRecord, i: usize) -> String {
    match &record.fields[i] {
        RecordField::Scalar(Value::Str(s)) => s.clone(),
        _ => panic!("expected a string field"),
    }
}

#[test]
fn seperator_test_custom_separator() {
    let mut sattrs = ConfigAttributes::new();
    sattrs.prefix = Some("TEST".to_string());
    let mut custom_attrs = ConfigAttributes::new();
    custom_attrs.separator = Some("__".to_string());
    let schema = Schema {
        attrs: sattrs,
        fields: vec![
            FieldSchema {
                name: "custom_seperator".to_string(),
                attrs: custom_attrs,
                kind: FieldKind::Scalar(ScalarKind::Str),
            },
            FieldSchema {
                name: "default_seperator".to_string(),
                attrs: ConfigAttributes::new(),
                kind: FieldKind::Scalar(ScalarKind::Str),
            },
        ],
    };
    let defaults = ConfigRecord {
        fields: vec![
            RecordField::Scalar(Value::Str(String::new())),
            RecordField::Scalar(Value::Str(String::new())),
        ],
    };
    let mut env = EnvSnapshot::new();
    env.set("TEST__CUSTOM_SEPERATOR", "custom_value");
    let fs = FsSnapshot::new();
    let config = load_config(&schema, &defaults, &env, &fs).unwrap();
    assert_eq!(str_val(&config, 0), "custom_value");
}
