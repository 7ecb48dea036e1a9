use confgr::load::load_config;
use confgr::{
    ConfigAttributes, ConfigRecord, EnvSnapshot, FieldKind, FieldSchema, FsSnapshot, RecordField,
    ScalarKind, Schema, Value,
};

fn field(name: &str, kind: ScalarKind) -> FieldSchema {
    FieldSchema { name: name.to_string(), attrs: ConfigAttributes::new(), kind: FieldKind::Scalar(kind) }
}

fn skip_field(name: &str, kind: ScalarKind) -> FieldSchema {
    let mut attrs = ConfigAttributes::new();
    attrs.skip = true;
    FieldSchema { name: name.to_string(), attrs, kind: FieldKind::Scalar(kind) }
}

fn str_val(record: &ConfigRecord, i: usize) -> String {
    match &record.fields[i] {
        RecordField::Scalar(Value::Str(s)) => s.clone(),
        _ => panic!("expected a string field"),
    }
}

fn nested_record(record: &ConfigRecord, i: usize) -> &ConfigRecord {
    match &record.fields[i] {
        RecordField::Nested(r) => r,
        _ => panic!("expected a nested field"),
    }
}

fn complex_settings() -> &'static str {
    r#"
        secret = "sup3rs3cr3t"

        [service]
        url = "http://example.com/api"
        enabled = true
        ports = [8080, 8081]

        [service.metadata]
        environment = "production"
        version = "1.0.0"


        [parameters]
        retries = "3"
        timeout = "100"
        "#
}

fn service_schema() -> Schema {
    Schema {
        attrs: ConfigAttributes::new(),
        fields: vec![
            field("url", ScalarKind::Str),
            field("enabled", ScalarKind::Bool),
            skip_field("ports", ScalarKind::Str),
            skip_field("metadata", ScalarKind::Str),
        ],
    }
}

fn service_defaults() -> ConfigRecord {
    ConfigRecord {
        fields: vec![
            RecordField::Scalar(Value::Str("https://localhost:3000".to_string())),
            RecordField::Scalar(Value::Bool(true)),
            RecordField::Scalar(Value::Str(String::new())),
            RecordField::Scalar(Value::Str(String::new())),
        ],
    }
}

#[test]
fn test_complex_config_loads_correctly() {
    let mut sattrs = ConfigAttributes::new();
    sattrs.path = Some("tests/complex_settings.toml".to_string());
    let mut nest_attrs = ConfigAttributes::new();
    nest_attrs.nest = true;
    let mut secret_attrs = ConfigAttributes::new();
    secret_attrs.skip = true;
    secret_attrs.name = Some("secret".to_string());
    let schema = Schema {
        attrs: sattrs,
        fields: vec![
            FieldSchema {
                name: "service".to_string(),
                attrs: nest_attrs,
                kind: FieldKind::Nested(service_schema()),
            },
            FieldSchema {
                name: "secret_key".to_string(),
                attrs: secret_attrs,
                kind: FieldKind::Scalar(ScalarKind::Str),
            },
            skip_field("features", ScalarKind::Str),
            skip_field("parameters", ScalarKind::Str),
        ],
    };
    let defaults = ConfigRecord {
        fields: vec![
            RecordField::Nested(service_defaults()),
            RecordField::Scalar(Value::Str(String::new())),
            RecordField::Scalar(Value::Str(String::new())),
            RecordField::Scalar(Value::Str(String::new())),
        ],
    };
    let env = EnvSnapshot::new();
    let mut fs = FsSnapshot::new();
    fs.add_readable("tests/complex_settings.toml", complex_settings());
    let config = load_config(&schema, &defaults, &env, &fs).unwrap();
    let service = nested_record(&config, 0);
    assert_eq!(str_val(service, 0), "http://example.com/api");
    assert_eq!(service.fields[1], RecordField::Scalar(Value::Bool(true)));
    // `ports` and the other skip fields come from the default value alone,
    // whatever the file holds for them.
    assert_eq!(str_val(service, 2), "");
    assert_eq!(str_val(&config, 1), "");
    assert_eq!(str_val(&config, 2), "");
    assert_eq!(str_val(&config, 3), "");
}

#[test]
fn test_optional_env_config_loads_with_defaults() {
    let mut db_credentials_attrs = ConfigAttributes::new();
    db_credentials_attrs.skip = true;
    let db_schema = Schema {
        attrs: ConfigAttributes::new(),
        fields: vec![
            field("host", ScalarKind::Str),
            field("port", ScalarKind::Uint),
            FieldSchema {
                name: "credentials".to_string(),
                attrs: db_credentials_attrs,
                kind: FieldKind::Scalar(ScalarKind::Str),
            },
        ],
    };
    let mut sattrs = ConfigAttributes::new();
    sattrs.path_env = Some("OPTIONAL_ENV_CONFIG".to_string());
    let mut db_attrs = ConfigAttributes::new();
    db_attrs.nest = true;
    db_attrs.name = Some("db".to_string());
    let schema = Schema {
        attrs: sattrs,
        fields: vec![
            skip_field("debug_mode", ScalarKind::Bool),
            FieldSchema {
                name: "db_settings".to_string(),
                attrs: db_attrs,
                kind: FieldKind::Nested(db_schema),
            },
        ],
    };
    let defaults = ConfigRecord {
        fields: vec![
            RecordField::Scalar(Value::Bool(false)),
            RecordField::Nested(ConfigRecord {
                fields: vec![
                    RecordField::Scalar(Value::Str("localhost".to_string())),
                    RecordField::Scalar(Value::Uint(0)),
                    RecordField::Scalar(Value::Str("admin".to_string())),
                ],
            }),
        ],
    };
    let mut env = EnvSnapshot::new();
    env.set("OPTIONAL_ENV_CONFIG", "tests/complex_settings.toml");
    let mut fs = FsSnapshot::new();
    fs.add_readable("tests/complex_settings.toml", complex_settings());
    let config = load_config(&schema, &defaults, &env, &fs).unwrap();
    assert_eq!(config.fields[0], RecordField::Scalar(Value::Bool(false)));
    let db = nested_record(&config, 1);
    assert_eq!(str_val(db, 0), "localhost");
    let credentials = str_val(db, 2);
    if credentials.is_empty() {
        panic!("Credentials not found");
    }
    assert_eq!(credentials, "admin");
}
