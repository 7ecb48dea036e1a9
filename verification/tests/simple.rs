use confgr::load::load_config;
use confgr::{
    ConfigAttributes, ConfigRecord, EnvSnapshot, FieldKind, FieldSchema, FsSnapshot, RecordField,
    ScalarKind, Schema, Value,
};

fn field(name: &str, kind: ScalarKind) -> FieldSchema {
    FieldSchema { name: name.to_string(), attrs: ConfigAttributes::new(), kind: FieldKind::Scalar(kind) }
}

fn skip_field(name: &str) -> FieldSchema {
    let mut attrs = ConfigAttributes::new();
    attrs.skip = true;
    FieldSchema { name: name.to_string(), attrs, kind: FieldKind::Scalar(ScalarKind::Str) }
}

fn str_val(record: &ConfigRecord, i: usize) -> String {
    match &record.fields[i] {
        RecordField::Scalar(Value::Str(s)) => s.clone(),
        _ => panic!("expected a string field"),
    }
}

fn nested_record(record: &ConfigRecord, i: usize) -> &ConfigRecord {
    match &record.fields[i] {
        RecordField::Nested(r) => r,
        _ => panic!("expected a nested field"),
    }
}

#[test]
fn test_simple_config() {
    let database_schema = Schema {
        attrs: ConfigAttributes::new(),
        fields: vec![
            skip_field("host"),
            skip_field("username"),
            {
                let mut attrs = ConfigAttributes::new();
                attrs.skip = true;
                attrs.name = Some("secret".to_string());
                FieldSchema {
                    name: "password".to_string(),
                    attrs,
                    kind: FieldKind::Scalar(ScalarKind::Str),
                }
            },
        ],
    };
    let mut sattrs = ConfigAttributes::new();
    sattrs.path = Some("tests/simple_settings.toml".to_string());
    let mut db_attrs = ConfigAttributes::new();
    db_attrs.nest = true;
    db_attrs.name = Some("db".to_string());
    let schema = Schema {
        attrs: sattrs,
        fields: vec![
            field("url", ScalarKind::Str),
            field("port", ScalarKind::Uint),
            field("enabled", ScalarKind::Bool),
            FieldSchema {
                name: "database".to_string(),
                attrs: db_attrs,
                kind: FieldKind::Nested(database_schema),
            },
        ],
    };
    let defaults = ConfigRecord {
        fields: vec![
            RecordField::Scalar(Value::Str(String::new())),
            RecordField::Scalar(Value::Uint(0)),
            RecordField::Scalar(Value::Bool(false)),
            RecordField::Nested(ConfigRecord {
                fields: vec![
                    RecordField::Scalar(Value::Str(String::new())),
                    RecordField::Scalar(Value::Str(String::new())),
                    RecordField::Scalar(Value::Str(String::new())),
                ],
            }),
        ],
    };
    let settings = r#"
        url = "https://example.com"
        port = 8080
        enabled = true

        [db]
        host = "localhost"
        username = "admin"
        secret = "securepass"
        "#;
    let env = EnvSnapshot::new();
    let mut fs = FsSnapshot::new();
    fs.add_readable("tests/simple_settings.toml", settings);
    let config = load_config(&schema, &defaults, &env, &fs).unwrap();
    println!("{:?}", config);
    assert_eq!(str_val(&config, 0), "https://example.com");
    assert_eq!(config.fields[1], RecordField::Scalar(Value::Uint(8080)));
    assert_eq!(config.fields[2], RecordField::Scalar(Value::Bool(true)));
    // `password` is a skip field: the file's `secret = "securepass"` is
    // ignored and the default value stands.
    assert_eq!(str_val(nested_record(&config, 3), 2), "");
}
