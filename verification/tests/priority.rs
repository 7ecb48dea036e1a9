use confgr::load::load_config;
use confgr::{
    ConfigAttributes, ConfigRecord, EnvSnapshot, FieldKind, FieldSchema, FsSnapshot, RecordField,
    ScalarKind, Schema, Value,
};

fn field(name: &str, kind: ScalarKind) -> FieldSchema {
    FieldSchema { name: name.to_string(), attrs: ConfigAttributes::new(), kind: FieldKind::Scalar(kind) }
}

fn str_val(record: &ConfigRecord, i: usize) -> String {
    match &record.fields[i] {
        RecordField::Scalar(Value::Str(s)) => s.clone(),
        _ => panic!("expected a string field"),
    }
}

fn test_priority_schema() -> Schema {
    let mut sattrs = ConfigAttributes::new();
    sattrs.prefix = Some("PRIORITY".to_string());
    Schema { attrs: sattrs, fields: vec![field("name", ScalarKind::Str), field("id", ScalarKind::Int)] }
}

fn test_priority_defaults() -> ConfigRecord {
    ConfigRecord {
        fields: vec![
            RecordField::Scalar(Value::Str("DefaultName".to_string())),
            RecordField::Scalar(Value::Int(1)),
        ],
    }
}

fn test_file_priority_schema() -> Schema {
    let mut sattrs = ConfigAttributes::new();
    sattrs.prefix = Some("PRIORITY".to_string());
    sattrs.path = Some("tests/common/priority.toml".to_string());
    let mut skipped_attrs = ConfigAttributes::new();
    skipped_attrs.skip = true;
    Schema {
        attrs: sattrs,
        fields: vec![
            field("name", ScalarKind::Str),
            FieldSchema {
                name: "skipped".to_string(),
                attrs: skipped_attrs,
                kind: FieldKind::Scalar(ScalarKind::Bool),
            },
            field("timeout", ScalarKind::Uint),
        ],
    }
}

fn test_file_priority_defaults() -> ConfigRecord {
    ConfigRecord {
        fields: vec![
            RecordField::Scalar(Value::Str("DefaultName".to_string())),
            RecordField::Scalar(Value::Bool(false)),
            RecordField::Scalar(Value::Uint(100)),
        ],
    }
}

fn env_vars() -> EnvSnapshot {
    let mut env = EnvSnapshot::new();
    env.set("PRIORITY_NAME", "EnvName");
    env.set("PRIORITY_ID", "20");
    env.set("PRIORITY_TIMEOUT", "500");
    env.set("PRIORITY_SKIPPED", "false");
    env
}

fn config_file(fs: &mut FsSnapshot) {
    let data = r#"
            name = "TomlName"
            timeout = 400
            skipped = true
        "#;
    fs.add_readable("tests/common/priority.toml", data);
}

#[test]
fn env_overrides_config_and_default() {
    let schema = test_file_priority_schema();
    let defaults = test_file_priority_defaults();
    let env = env_vars();
    let mut fs = FsSnapshot::new();
    config_file(&mut fs);
    let config = load_config(&schema, &defaults, &env, &fs).unwrap();
    assert_eq!(str_val(&config, 0), "EnvName");
    assert_eq!(config.fields[2], RecordField::Scalar(Value::Uint(500)));
}

#[test]
fn file_overrides_default() {
    let schema = test_file_priority_schema();
    let defaults = test_file_priority_defaults();
    let env = EnvSnapshot::new();
    let mut fs = FsSnapshot::new();
    config_file(&mut fs);
    let config = load_config(&schema, &defaults, &env, &fs).unwrap();
    assert_eq!(str_val(&config, 0), "TomlName");
    assert_eq!(config.fields[2], RecordField::Scalar(Value::Uint(400)));
}

#[test]
fn default_without_config() {
    let schema = test_priority_schema();
    let defaults = test_priority_defaults();
    let env = EnvSnapshot::new();
    let fs = FsSnapshot::new();
    let config = load_config(&schema, &defaults, &env, &fs).unwrap();
    assert_eq!(str_val(&config, 0), "DefaultName");
    assert_eq!(config.fields[1], RecordField::Scalar(Value::Int(1)));
}

#[test]
fn skip_env_with_file() {
    // A skip field is sourced from the default value alone: the file's
    // `skipped = true` and the environment's `PRIORITY_SKIPPED` are both
    // ignored, and the default `false` stands.
    let schema = test_file_priority_schema();
    let defaults = test_file_priority_defaults();
    let env = env_vars();
    let mut fs = FsSnapshot::new();
    config_file(&mut fs);
    let config = load_config(&schema, &defaults, &env, &fs).unwrap();
    assert_eq!(config.fields[1], RecordField::Scalar(Value::Bool(false)));
}
