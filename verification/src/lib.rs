//! Layered configuration loading.
//!
//! A configuration value is assembled from three ranked sources: environment
//! variables (highest precedence), an optional structured configuration file,
//! and compiled-in defaults (lowest precedence). The environment and the file
//! system are injected as plain snapshot values, and the whole resolution
//! pipeline is verified. Only the decoding of file contents is delegated to
//! an outside parser; whether it accepts the contents is a function of the
//! input, but the document it assembles is not (see [`decode::parses`]), so
//! the contracts carry the decoded layer as a value and pin everything that
//! happens to it afterwards.

use vstd::prelude::*;

pub mod attrs;
pub mod convert;
pub mod decode;
pub mod environment;
pub mod file;
pub mod layer;
pub mod load;
pub mod parse;
pub mod record;
pub mod schema;
pub mod text;
pub mod value;

pub use attrs::{Annotation, AnnotationValue, AttrError, ConfigAttributes};
pub use environment::EnvSnapshot;
pub use file::{FileEntry, FsSnapshot};
pub use layer::{Layer, LayerField};
pub use record::{ConfigRecord, RecordField};
pub use schema::{FieldKind, FieldSchema, RawFieldDecl, Schema};
pub use value::{ScalarKind, Value};

verus! {

/// The error kinds of the loading pipeline.
///
/// `FileIo` and `FileFormat` are swallowed by the top-level load (the file
/// layer falls back to the defaults); `UnresolvablePath` is surfaced by the
/// two fatal branches of the path resolver; `BuildConfiguration` reports an
/// invalid attribute combination at declaration time; `NoFilePath` is only
/// reported by the diagnostic entry points when no file is configured.
#[derive(Debug, Clone, Copy, PartialEq, Eq, Structural)]
pub enum ConfgrError {
    FileIo,
    FileFormat,
    NoFilePath,
    UnresolvablePath,
    BuildConfiguration,
}

/// Merging of configuration layers: `self` takes precedence over `other`.
pub trait Merge: View + Sized {
    /// What the merge yields, as a model value.
    spec fn merged_view(self, other: Self) -> Self::V;

    /// "Self wins" merge: for each scalar field the result holds `self`'s
    /// value where present, else `other`'s; nested fields merge
    /// recursively.
    fn merge(self, other: Self) -> (r: Self)
        ensures
            r@ == self.merged_view(other),
    ;
}

impl Merge for Layer {
    open spec fn merged_view(self, other: Self) -> layer::LayerV {
        layer::merge_layer_v(self@, other@)
    }

    fn merge(self, other: Self) -> (r: Self) {
        layer::merge_layer_exec(self, other)
    }
}

/// The layer that knows nothing: merging with it on either side changes
/// nothing.
pub trait Empty: View + Sized {
    /// The empty value's model.
    spec fn empty_view() -> Self::V;

    /// The layer in which every field is absent.
    fn empty() -> (r: Self)
        ensures
            r@ == Self::empty_view(),
    ;
}

impl Empty for Layer {
    open spec fn empty_view() -> layer::LayerV {
        layer::empty_layer_v()
    }

    fn empty() -> (r: Self) {
        layer::empty_layer()
    }
}

/// The environment source of a configuration type's layer.
pub trait FromEnv: View + Sized {
    /// The model of what the environment yields.
    spec fn env_view(schema: &Schema, env: &EnvSnapshot) -> Self::V;

    /// Builds the layer a schema draws from an environment snapshot.
    fn from_env(schema: &Schema, env: &EnvSnapshot) -> (r: Self)
        ensures
            r@ == Self::env_view(schema, env),
    ;

    /// The map from field name to derived environment-variable name.
    fn get_env_keys(schema: &Schema) -> (r: Vec<(String, String)>)
        ensures
            environment::string_pairs_view(r@) == environment::env_keys_fields(
                schema@.attrs,
                schema@.fields,
            ),
    ;
}

impl FromEnv for Layer {
    open spec fn env_view(schema: &Schema, env: &EnvSnapshot) -> layer::LayerV {
        environment::env_layer_v(schema@, env@)
    }

    fn from_env(schema: &Schema, env: &EnvSnapshot) -> (r: Self) {
        environment::from_env(schema, env)
    }

    fn get_env_keys(schema: &Schema) -> (r: Vec<(String, String)>) {
        environment::get_env_keys(schema)
    }
}

/// The file source of a configuration type's layer.
pub trait FromFile: View + Sized {
    /// What the read's outcome satisfies, stated over the result's model:
    /// the decoded document is not a function of the snapshots, so the
    /// outcome is a relation, exact in its success and error behaviour.
    spec fn file_outcome(
        schema: &Schema,
        env: &EnvSnapshot,
        fs: &FsSnapshot,
        r: Result<Self::V, ConfgrError>,
    ) -> bool;

    /// Reads and decodes the configuration file into its layer, surfacing
    /// every file error; `NoFilePath` where no file is configured.
    fn from_file(schema: &Schema, env: &EnvSnapshot, fs: &FsSnapshot) -> (r: Result<
        Self,
        ConfgrError,
    >)
        ensures
            Self::file_outcome(
                schema,
                env,
                fs,
                match r {
                    Ok(l) => Ok::<Self::V, ConfgrError>(l@),
                    Err(e) => Err::<Self::V, ConfgrError>(e),
                },
            ),
    ;

    /// Checks that the resolved configuration file exists and can be read.
    fn check_file(schema: &Schema, env: &EnvSnapshot, fs: &FsSnapshot) -> (r: Result<
        (),
        ConfgrError,
    >)
        ensures
            r == file::spec_check_file(schema@.attrs, env@, fs@),
    ;

    /// Resolves the configuration-file path, if any file is to be read.
    fn get_file_path(schema: &Schema, env: &EnvSnapshot, fs: &FsSnapshot) -> (r: Result<
        Option<String>,
        ConfgrError,
    >)
        ensures
            ({
                let resolved = file::spec_resolve(schema@.attrs, env@, fs@);
                match r {
                    Ok(Some(p)) => resolved == Ok::<Option<Seq<char>>, ConfgrError>(Some(p@)),
                    Ok(None) => resolved == Ok::<Option<Seq<char>>, ConfgrError>(None),
                    Err(e) => resolved == Err::<Option<Seq<char>>, ConfgrError>(e),
                }
            }),
    ;
}

impl FromFile for Layer {
    open spec fn file_outcome(
        schema: &Schema,
        env: &EnvSnapshot,
        fs: &FsSnapshot,
        r: Result<layer::LayerV, ConfgrError>,
    ) -> bool {
        &&& (r is Ok <==> load::spec_file_succeeds(schema@, env@, fs@))
        &&& (r matches Err(e) ==> e == load::spec_file_error(schema@, env@, fs@))
        &&& (r matches Ok(l) ==> load::spec_file_ok(schema@, l))
    }

    fn from_file(schema: &Schema, env: &EnvSnapshot, fs: &FsSnapshot) -> (r: Result<
        Self,
        ConfgrError,
    >) {
        load::from_file(schema, env, fs)
    }

    fn check_file(schema: &Schema, env: &EnvSnapshot, fs: &FsSnapshot) -> (r: Result<
        (),
        ConfgrError,
    >) {
        file::check_file(&schema.attrs, env, fs)
    }

    fn get_file_path(schema: &Schema, env: &EnvSnapshot, fs: &FsSnapshot) -> (r: Result<
        Option<String>,
        ConfgrError,
    >) {
        file::get_file_path(&schema.attrs, env, fs)
    }
}

/// The unified load of a configuration value from its three sources, in
/// precedence order: environment variables, the configuration file, and
/// the compiled-in default value.
pub trait Confgr: View + Sized {
    /// What the load's outcome satisfies, stated over the result's model:
    /// the decoded document is not a function of the snapshots, so the
    /// outcome is a relation, exact in its success and error behaviour and
    /// in the merge chain over the file layer the load used.
    spec fn load_outcome(
        schema: &Schema,
        defaults: &Self,
        env: &EnvSnapshot,
        fs: &FsSnapshot,
        r: Result<Self::V, ConfgrError>,
    ) -> bool;

    /// Loads and merges the configuration from the file, the environment
    /// and the default value; environment wins over file, file over
    /// defaults. Fails only on the resolver's fatal branches.
    fn load_config(schema: &Schema, defaults: &Self, env: &EnvSnapshot, fs: &FsSnapshot) -> (r:
        Result<Self, ConfgrError>)
        ensures
            Self::load_outcome(
                schema,
                defaults,
                env,
                fs,
                match r {
                    Ok(v) => Ok::<Self::V, ConfgrError>(v@),
                    Err(e) => Err::<Self::V, ConfgrError>(e),
                },
            ),
    ;

    /// Attempts to deserialize the configuration file into its layer, as a
    /// diagnostic step exposing the raw decode result.
    fn deserialize_from_file(schema: &Schema, env: &EnvSnapshot, fs: &FsSnapshot) -> (r: Result<
        Layer,
        ConfgrError,
    >)
        ensures
            r is Ok <==> load::spec_file_succeeds(schema@, env@, fs@),
            r matches Err(e) ==> e == load::spec_file_error(schema@, env@, fs@),
            r matches Ok(l) ==> load::spec_file_ok(schema@, l@),
    ;
}

impl Confgr for ConfigRecord {
    open spec fn load_outcome(
        schema: &Schema,
        defaults: &Self,
        env: &EnvSnapshot,
        fs: &FsSnapshot,
        r: Result<record::RecordV, ConfgrError>,
    ) -> bool {
        &&& (r is Err <==> file::spec_resolve(schema@.attrs, env@, fs@) is Err)
        &&& (r matches Err(e) ==> file::spec_resolve(schema@.attrs, env@, fs@) == Err::<
            Option<Seq<char>>,
            ConfgrError,
        >(e))
        &&& (r matches Ok(v) ==> exists|fl: layer::LayerV|
            #[trigger] load::spec_load_file_layer(schema@, env@, fs@, fl) && v
                == load::spec_loaded_record_with(schema@, defaults@, env@, fl))
    }

    fn load_config(schema: &Schema, defaults: &Self, env: &EnvSnapshot, fs: &FsSnapshot) -> (r:
        Result<Self, ConfgrError>) {
        load::load_config(schema, defaults, env, fs)
    }

    fn deserialize_from_file(schema: &Schema, env: &EnvSnapshot, fs: &FsSnapshot) -> (r: Result<
        Layer,
        ConfgrError,
    >) {
        load::from_file(schema, env, fs)
    }
}

} // verus!
