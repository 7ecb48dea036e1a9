use confgr::load::load_config;
use confgr::{
    ConfigAttributes, ConfigRecord, EnvSnapshot, FieldKind, FieldSchema, FsSnapshot, RecordField,
    ScalarKind, Schema, Value,
};

fn name_only_schema(
    path_env: Option<&str>,
    path: Option<&str>,
    default_path: Option<&str>,
) -> Schema {
    let mut sattrs = ConfigAttributes::new();
    sattrs.path_env = path_env.map(|p| p.to_string());
    sattrs.path = path.map(|p| p.to_string());
    sattrs.default_path = default_path.map(|p| p.to_string());
    Schema {
        attrs: sattrs,
        fields: vec![FieldSchema {
            name: "name".to_string(),
            attrs: ConfigAttributes::new(),
            kind: FieldKind::Scalar(ScalarKind::Str),
        }],
    }
}

fn name_default() -> ConfigRecord {
    ConfigRecord { fields: vec![RecordField::Scalar(Value::Str(String::new()))] }
}

fn name_of(record: &ConfigRecord) -> String {
    match &record.fields[0] {
        RecordField::Scalar(Value::Str(s)) => s.clone(),
        _ => panic!("expected a string field"),
    }
}

fn test_config_files(fs: &mut FsSnapshot) {
    fs.add_readable("tests/common/path.toml", "\n            name = \"Path\"\n        ");
    fs.add_readable("tests/common/path_env.toml", "\n            name = \"PathEnv\"\n        ");
}

fn default_config_file(fs: &mut FsSnapshot) {
    fs.add_readable("tests/common/default.toml", "\n            name = \"DefaultPath\"\n        ");
}

#[test]
fn path_env_valid() {
    let schema = name_only_schema(Some("CONFIG_PATH_ENV"), Some("tests/common/path.toml"), None);
    let mut fs = FsSnapshot::new();
    test_config_files(&mut fs);
    let mut env = EnvSnapshot::new();
    env.set("CONFIG_PATH_ENV", "tests/common/path_env.toml");
    let config = load_config(&schema, &name_default(), &env, &fs).unwrap();
    assert_eq!(name_of(&config), "PathEnv");
}

#[test]
fn invalid_path_env_continues_with_valid_path() {
    let schema = name_only_schema(Some("CONFIG_PATH_ENV"), Some("tests/common/path.toml"), None);
    let mut fs = FsSnapshot::new();
    test_config_files(&mut fs);
    let mut env = EnvSnapshot::new();
    env.set("CONFIG_PATH_ENV", "nonexistent_path.toml");
    let config = load_config(&schema, &name_default(), &env, &fs).unwrap();
    assert_eq!(name_of(&config), "Path");
}

#[test]
#[should_panic]
fn invalid_path_env_fails_with_invalid_path() {
    let schema = name_only_schema(Some("CONFIG_PATH_ENV"), Some("nonexistent.toml"), None);
    let fs = FsSnapshot::new();
    let mut env = EnvSnapshot::new();
    env.set("CONFIG_PATH_ENV", "nonexistent_path.toml");
    let _config = load_config(&schema, &name_default(), &env, &fs).unwrap();
}

#[test]
fn invalid_path_env_continues_without_path() {
    let schema = name_only_schema(Some("CONFIG_PATH_ENV"), None, None);
    let fs = FsSnapshot::new();
    let mut env = EnvSnapshot::new();
    env.set("CONFIG_PATH_ENV", "nonexistent_path.toml");
    env.set("NAME", "EnvName");
    let config = load_config(&schema, &name_default(), &env, &fs).unwrap();
    assert_eq!(name_of(&config), "EnvName");
}

#[test]
fn default_path_valid() {
    let schema = name_only_schema(None, None, Some("tests/common/path.toml"));
    let mut fs = FsSnapshot::new();
    default_config_file(&mut fs);
    let env = EnvSnapshot::new();
    let config = load_config(&schema, &name_default(), &env, &fs).unwrap();
    assert_eq!(name_of(&config), "");
}

#[test]
fn default_path_invalid() {
    let schema = name_only_schema(None, None, Some("nonexistent.toml"));
    let fs = FsSnapshot::new();
    let env = EnvSnapshot::new();
    let config = load_config(&schema, &name_default(), &env, &fs).unwrap();
    assert_eq!(name_of(&config), "");
}

#[test]
fn env_path_with_default_path() {
    let schema = name_only_schema(Some("CONFIG_PATH_ENV"), None, None);
    let mut fs = FsSnapshot::new();
    test_config_files(&mut fs);
    default_config_file(&mut fs);
    let mut env = EnvSnapshot::new();
    env.set("CONFIG_PATH_ENV", "nonexistent_path.toml");
    let config = load_config(&schema, &name_default(), &env, &fs).unwrap();
    assert_eq!(name_of(&config), "");
}

#[test]
fn path_env_with_default_path_falls_back() {
    let schema = name_only_schema(Some("CONFIG_PATH_ENV"), None, Some("tests/common/default.toml"));
    let mut fs = FsSnapshot::new();
    default_config_file(&mut fs);
    let mut env = EnvSnapshot::new();
    env.set("CONFIG_PATH_ENV", "nonexistent_path.toml");
    let config = load_config(&schema, &name_default(), &env, &fs).unwrap();
    assert_eq!(name_of(&config), "DefaultPath");
}
