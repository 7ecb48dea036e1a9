use confgr::decode::{detect_format, parse_contents, FormatKind, RawValue};
use confgr::environment::{derive_env_key, get_env_keys};
use confgr::attrs::parse_config_field_attributes;
use confgr::convert::{to_layer, to_record};
use confgr::load::load_config;
use confgr::{
    Annotation, AnnotationValue, AttrError, ConfgrError, ConfigAttributes, ConfigRecord, Empty,
    EnvSnapshot, FieldKind, FieldSchema, FsSnapshot, Layer, Merge, RecordField, ScalarKind, Schema,
    Value,
};

fn field(name: &str, kind: ScalarKind) -> FieldSchema {
    FieldSchema { name: name.to_string(), attrs: ConfigAttributes::new(), kind: FieldKind::Scalar(kind) }
}

fn int_record(v: i64) -> ConfigRecord {
    ConfigRecord { fields: vec![RecordField::Scalar(Value::Int(v))] }
}

fn prefixed_schema(prefix: &str, f: FieldSchema) -> Schema {
    let mut sattrs = ConfigAttributes::new();
    sattrs.prefix = Some(prefix.to_string());
    Schema { attrs: sattrs, fields: vec![f] }
}

#[test]
fn key_derivation_examples() {
    let app = {
        let mut a = ConfigAttributes::new();
        a.prefix = Some("APP".to_string());
        a
    };
    let plain = ConfigAttributes::new();
    assert_eq!(derive_env_key(&app, &plain, "address"), "APP_ADDRESS");

    let mut sep = ConfigAttributes::new();
    sep.separator = Some("__".to_string());
    assert_eq!(derive_env_key(&app, &sep, "address"), "APP__ADDRESS");

    let mut keyed = ConfigAttributes::new();
    keyed.key = Some("DEBUG_MODE".to_string());
    assert_eq!(derive_env_key(&app, &keyed, "debug"), "DEBUG_MODE");

    // Without any prefix the name is the uppercased field name, with no
    // leading separator.
    assert_eq!(derive_env_key(&plain, &plain, "address"), "ADDRESS");
}

#[test]
fn env_keys_map() {
    let mut sattrs = ConfigAttributes::new();
    sattrs.prefix = Some("APP".to_string());
    let mut sep = ConfigAttributes::new();
    sep.separator = Some("__".to_string());
    let mut keyed = ConfigAttributes::new();
    keyed.key = Some("DEBUG_MODE".to_string());
    let mut skipped = ConfigAttributes::new();
    skipped.skip = true;
    let schema = Schema {
        attrs: sattrs,
        fields: vec![
            field("port", ScalarKind::Uint),
            FieldSchema {
                name: "address".to_string(),
                attrs: sep,
                kind: FieldKind::Scalar(ScalarKind::Str),
            },
            FieldSchema {
                name: "debug".to_string(),
                attrs: keyed,
                kind: FieldKind::Scalar(ScalarKind::Bool),
            },
            FieldSchema {
                name: "hidden".to_string(),
                attrs: skipped,
                kind: FieldKind::Scalar(ScalarKind::Str),
            },
        ],
    };
    let keys = get_env_keys(&schema);
    assert_eq!(keys.len(), 3);
    assert_eq!(keys[0], ("port".to_string(), "APP_PORT".to_string()));
    assert_eq!(keys[1], ("address".to_string(), "APP__ADDRESS".to_string()));
    assert_eq!(keys[2], ("debug".to_string(), "DEBUG_MODE".to_string()));
}

#[test]
fn env_over_file_over_default() {
    // env PRIORITY_ID=20, file id=30, default id=1: the loaded id is 20.
    let mut schema = prefixed_schema("PRIORITY", field("id", ScalarKind::Int));
    schema.attrs.path = Some("cfg.toml".to_string());
    let mut env = EnvSnapshot::new();
    env.set("PRIORITY_ID", "20");
    let mut fs = FsSnapshot::new();
    fs.add_readable("cfg.toml", "id = 30");
    let config = load_config(&schema, &int_record(1), &env, &fs).unwrap();
    assert_eq!(config.fields[0], RecordField::Scalar(Value::Int(20)));
}

#[test]
fn file_over_default_without_env() {
    let mut schema = prefixed_schema("PRIORITY", field("id", ScalarKind::Int));
    schema.attrs.path = Some("cfg.toml".to_string());
    let env = EnvSnapshot::new();
    let mut fs = FsSnapshot::new();
    fs.add_readable("cfg.toml", "id = 30");
    let config = load_config(&schema, &int_record(1), &env, &fs).unwrap();
    assert_eq!(config.fields[0], RecordField::Scalar(Value::Int(30)));
}

#[test]
fn default_alone() {
    // No env, no file: the default timeout=100 is loaded.
    let schema = prefixed_schema("PRIORITY", field("timeout", ScalarKind::Uint));
    let env = EnvSnapshot::new();
    let fs = FsSnapshot::new();
    let defaults = ConfigRecord { fields: vec![RecordField::Scalar(Value::Uint(100))] };
    let config = load_config(&schema, &defaults, &env, &fs).unwrap();
    assert_eq!(config.fields[0], RecordField::Scalar(Value::Uint(100)));
}

#[test]
fn mandatory_path_missing_is_fatal() {
    // path="cfg.toml" with no such file, no path_env, no default_path:
    // the load reports UnresolvablePath instead of falling back silently.
    let mut schema = prefixed_schema("PRIORITY", field("id", ScalarKind::Int));
    schema.attrs.path = Some("cfg.toml".to_string());
    let env = EnvSnapshot::new();
    let fs = FsSnapshot::new();
    assert_eq!(
        load_config(&schema, &int_record(1), &env, &fs),
        Err(ConfgrError::UnresolvablePath)
    );
}

#[test]
fn default_path_missing_is_not_fatal() {
    // default_path="cfg.toml" with no such file: the load proceeds with
    // env and defaults only.
    let mut schema = prefixed_schema("PRIORITY", field("id", ScalarKind::Int));
    schema.attrs.default_path = Some("cfg.toml".to_string());
    let env = EnvSnapshot::new();
    let fs = FsSnapshot::new();
    let config = load_config(&schema, &int_record(1), &env, &fs).unwrap();
    assert_eq!(config.fields[0], RecordField::Scalar(Value::Int(1)));
}

#[test]
fn conflicting_paths_are_fatal() {
    let mut schema = prefixed_schema("PRIORITY", field("id", ScalarKind::Int));
    schema.attrs.path = Some("a.toml".to_string());
    schema.attrs.default_path = Some("b.toml".to_string());
    let env = EnvSnapshot::new();
    let fs = FsSnapshot::new();
    assert_eq!(
        load_config(&schema, &int_record(1), &env, &fs),
        Err(ConfgrError::BuildConfiguration)
    );
}

#[test]
fn merge_with_empty_layer_is_identity() {
    let schema = prefixed_schema("PRIORITY", field("id", ScalarKind::Int));
    let defaults = int_record(7);
    let layer = to_layer(&schema, &defaults);
    let same = to_layer(&schema, &defaults);
    assert_eq!(same.merge(Layer::empty()), layer);
    let same = to_layer(&schema, &defaults);
    assert_eq!(Layer::empty().merge(same), layer);
}

#[test]
fn round_trip_through_layer() {
    let schema = Schema {
        attrs: ConfigAttributes::new(),
        fields: vec![
            field("id", ScalarKind::Int),
            field("name", ScalarKind::Str),
            field("flag", ScalarKind::Bool),
        ],
    };
    let record = ConfigRecord {
        fields: vec![
            RecordField::Scalar(Value::Int(-3)),
            RecordField::Scalar(Value::Str("abc".to_string())),
            RecordField::Scalar(Value::Bool(true)),
        ],
    };
    let layer = to_layer(&schema, &record);
    assert_eq!(to_record(&schema, layer), record);
}

#[test]
fn unparsable_env_values_fall_through() {
    let schema = Schema {
        attrs: ConfigAttributes::new(),
        fields: vec![
            field("id", ScalarKind::Int),
            field("count", ScalarKind::Uint),
            field("flag", ScalarKind::Bool),
        ],
    };
    let defaults = ConfigRecord {
        fields: vec![
            RecordField::Scalar(Value::Int(1)),
            RecordField::Scalar(Value::Uint(2)),
            RecordField::Scalar(Value::Bool(false)),
        ],
    };
    let mut env = EnvSnapshot::new();
    env.set("ID", "abc");
    env.set("COUNT", "-4");
    env.set("FLAG", "TRUE");
    let fs = FsSnapshot::new();
    let config = load_config(&schema, &defaults, &env, &fs).unwrap();
    assert_eq!(config.fields[0], RecordField::Scalar(Value::Int(1)));
    assert_eq!(config.fields[1], RecordField::Scalar(Value::Uint(2)));
    assert_eq!(config.fields[2], RecordField::Scalar(Value::Bool(false)));
}

#[test]
fn integer_parsing_edges() {
    let schema = Schema {
        attrs: ConfigAttributes::new(),
        fields: vec![field("id", ScalarKind::Int), field("count", ScalarKind::Uint)],
    };
    let defaults = ConfigRecord {
        fields: vec![RecordField::Scalar(Value::Int(0)), RecordField::Scalar(Value::Uint(0))],
    };
    let fs = FsSnapshot::new();

    let mut env = EnvSnapshot::new();
    env.set("ID", "-9223372036854775808");
    env.set("COUNT", "18446744073709551615");
    let config = load_config(&schema, &defaults, &env, &fs).unwrap();
    assert_eq!(config.fields[0], RecordField::Scalar(Value::Int(i64::MIN)));
    assert_eq!(config.fields[1], RecordField::Scalar(Value::Uint(u64::MAX)));

    let mut env = EnvSnapshot::new();
    env.set("ID", "+21");
    env.set("COUNT", "18446744073709551616");
    let config = load_config(&schema, &defaults, &env, &fs).unwrap();
    assert_eq!(config.fields[0], RecordField::Scalar(Value::Int(21)));
    assert_eq!(config.fields[1], RecordField::Scalar(Value::Uint(0)));
}

#[test]
fn attribute_parser_normalizes() {
    let anns = vec![
        Annotation { key: "prefix".to_string(), value: AnnotationValue::Text("APP".to_string()) },
        Annotation { key: "separator".to_string(), value: AnnotationValue::Text("__".to_string()) },
        Annotation { key: "skip".to_string(), value: AnnotationValue::Flag },
    ];
    let attrs = parse_config_field_attributes(&anns).unwrap();
    assert_eq!(attrs.prefix, Some("APP".to_string()));
    assert_eq!(attrs.separator, Some("__".to_string()));
    assert!(attrs.skip);
    assert!(!attrs.nest);
    assert_eq!(attrs.key, None);
}

#[test]
fn attribute_parser_reports_errors() {
    let anns = vec![
        Annotation { key: "unknown".to_string(), value: AnnotationValue::Flag },
        Annotation { key: "prefix".to_string(), value: AnnotationValue::Other },
        Annotation { key: "path".to_string(), value: AnnotationValue::Text("a.toml".to_string()) },
        Annotation {
            key: "default_path".to_string(),
            value: AnnotationValue::Text("b.toml".to_string()),
        },
    ];
    let errors = parse_config_field_attributes(&anns).unwrap_err();
    assert_eq!(
        errors,
        vec![
            AttrError::Unsupported("unknown".to_string()),
            AttrError::ExpectedText("prefix".to_string()),
            AttrError::PathConflict,
        ]
    );
}

#[test]
fn schema_rejects_conflicting_paths() {
    let anns = vec![
        Annotation { key: "path".to_string(), value: AnnotationValue::Text("a.toml".to_string()) },
        Annotation {
            key: "default_path".to_string(),
            value: AnnotationValue::Text("b.toml".to_string()),
        },
    ];
    let built = Schema::new(&anns, vec![]);
    assert_eq!(built.unwrap_err(), vec![AttrError::PathConflict]);
}

#[test]
fn format_detection() {
    assert_eq!(detect_format("a/b/cfg.toml"), Some(FormatKind::Toml));
    assert_eq!(detect_format("cfg.json"), Some(FormatKind::Json));
    assert_eq!(detect_format("cfg.json5"), Some(FormatKind::Json5));
    assert_eq!(detect_format("cfg.yaml"), Some(FormatKind::Yaml));
    assert_eq!(detect_format("cfg.yml"), Some(FormatKind::Yaml));
    assert_eq!(detect_format("cfg.ini"), Some(FormatKind::Ini));
    assert_eq!(detect_format("cfg.ron"), Some(FormatKind::Ron));
    assert_eq!(detect_format("cfg.txt"), None);
}

#[test]
fn parser_decodes_values() {
    // The outside parser turns the text into a value tree; a result that
    // were the text handed back unchanged would fail this shape.
    let doc = parse_contents("id = 30\nname = \"x\"", FormatKind::Toml).unwrap();
    match doc {
        RawValue::Table(entries) => {
            let mut found_id = false;
            let mut found_name = false;
            for (k, v) in entries {
                if k == "id" {
                    assert_eq!(v, RawValue::Int(30));
                    found_id = true;
                } else if k == "name" {
                    assert_eq!(v, RawValue::Str("x".to_string()));
                    found_name = true;
                }
            }
            assert!(found_id && found_name);
        },
        _ => panic!("expected a table at the root"),
    }
    assert_eq!(parse_contents("not [ toml = =", FormatKind::Toml), Err(ConfgrError::FileFormat));
    let json = parse_contents("{\"id\": 30}", FormatKind::Json).unwrap();
    match json {
        RawValue::Table(entries) => {
            assert_eq!(entries.len(), 1);
            assert_eq!(entries[0].0, "id");
            assert_eq!(entries[0].1, RawValue::Int(30));
        },
        _ => panic!("expected a table at the root"),
    }
}
