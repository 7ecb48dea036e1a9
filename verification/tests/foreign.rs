use confgr::load::load_config;
use confgr::{
    ConfigAttributes, ConfigRecord, EnvSnapshot, FieldKind, FieldSchema, FsSnapshot, RecordField,
    ScalarKind, Schema, Value,
};

#[test]
fn test_non_default_foreign_type_is_valid() {
    // A field of a type the sources cannot resolve is marked skip; it is
    // always sourced from the hand-written default value.
    let mut skip_attrs = ConfigAttributes::new();
    skip_attrs.skip = true;
    let schema = Schema {
        attrs: ConfigAttributes::new(),
        fields: vec![FieldSchema {
            name: "foreign_type".to_string(),
            attrs: skip_attrs,
            kind: FieldKind::Scalar(ScalarKind::Str),
        }],
    };
    let defaults = ConfigRecord {
        fields: vec![RecordField::Scalar(Value::Str("default_value".to_string()))],
    };
    let env = EnvSnapshot::new();
    let fs = FsSnapshot::new();
    let config = load_config(&schema, &defaults, &env, &fs).unwrap();
    assert_eq!(config.fields[0], RecordField::Scalar(Value::Str("default_value".to_string())));
}
