//! The file source: an injected snapshot of the relevant paths, and the
//! four-branch decision over `path`, `path_env` and `default_path` that
//! selects which file, if any, is read.

use vstd::prelude::*;
use crate::ConfgrError;
use crate::attrs::{AttrsV, ConfigAttributes};
use crate::environment::{EnvSnapshot, env_lookup};
use crate::text::str_eq;

verus! {

/// What the file system holds at one path: readable contents, or a file
/// that exists but cannot be opened or read.
#[derive(Debug, Clone, PartialEq)]
pub enum FileEntry {
    Readable(String),
    Unreadable,
}

/// A snapshot of the file system restricted to the candidate paths: a path
/// is taken to exist exactly when the snapshot holds an entry for it.
#[derive(Debug, Clone, PartialEq)]
pub struct FsSnapshot {
    pub files: Vec<(String, FileEntry)>,
}

#[verifier::ext_equal]
pub enum FileEntryV {
    Readable(Seq<char>),
    Unreadable,
}

impl View for FileEntry {
    type V = FileEntryV;

    open spec fn view(&self) -> FileEntryV {
        match self {
            FileEntry::Readable(s) => FileEntryV::Readable(s@),
            FileEntry::Unreadable => FileEntryV::Unreadable,
        }
    }
}

impl View for FsSnapshot {
    type V = Seq<(Seq<char>, FileEntryV)>;

    open spec fn view(&self) -> Seq<(Seq<char>, FileEntryV)> {
        Seq::new(self.files@.len(), |i: int| (self.files@[i].0@, self.files@[i].1@))
    }
}

/// First-match lookup among the snapshot's paths.
pub open spec fn fs_lookup(fs: Seq<(Seq<char>, FileEntryV)>, p: Seq<char>) -> Option<FileEntryV>
    decreases fs,
{
    if fs.len() == 0 {
        None
    } else if fs[0].0 == p {
        Some(fs[0].1)
    } else {
        fs_lookup(fs.drop_first(), p)
    }
}

/// Whether the snapshot holds an entry for the path.
pub open spec fn fs_exists(fs: Seq<(Seq<char>, FileEntryV)>, p: Seq<char>) -> bool {
    fs_lookup(fs, p) is Some
}

impl FsSnapshot {
    /// A snapshot in which no path exists.
    pub fn new() -> (r: Self)
        ensures
            r@ =~= Seq::<(Seq<char>, FileEntryV)>::empty(),
    {
        FsSnapshot { files: Vec::new() }
    }

    /// Appends a path with readable contents.
    pub fn add_readable(&mut self, path: &str, contents: &str)
        ensures
            final(self)@ =~= old(self)@.push((path@, FileEntryV::Readable(contents@))),
    {
        self.files.push((path.to_owned(), FileEntry::Readable(contents.to_owned())));
        proof {
            assert(self@ =~= old(self)@.push((path@, FileEntryV::Readable(contents@))));
        }
    }

    /// Appends a path that exists but cannot be read.
    pub fn add_unreadable(&mut self, path: &str)
        ensures
            final(self)@ =~= old(self)@.push((path@, FileEntryV::Unreadable)),
    {
        self.files.push((path.to_owned(), FileEntry::Unreadable));
        proof {
            assert(self@ =~= old(self)@.push((path@, FileEntryV::Unreadable)));
        }
    }

    /// The entry at a path, if the path exists.
    pub fn lookup(&self, path: &str) -> (r: Option<&FileEntry>)
        ensures
            match r {
                Some(e) => fs_lookup(self@, path@) == Some(e@),
                None => fs_lookup(self@, path@) is None,
            },
    {
        let n = self.files.len();
        let mut i: usize = 0;
        proof {
            assert(self@.skip(0) =~= self@);
        }
        while i < n
            invariant
                i <= n,
                n == self.files@.len(),
                fs_lookup(self@, path@) == fs_lookup(self@.skip(i as int), path@),
            decreases n - i,
        {
            if str_eq(self.files[i].0.as_str(), path) {
                proof {
                    assert(self@.skip(i as int)[0] == (self.files@[i as int].0@, self.files@[
                        i as int].1@));
                }
                return Some(&self.files[i].1);
            }
            proof {
                assert(self@.skip(i as int)[0].0 != path@);
                assert(self@.skip(i as int).drop_first() =~= self@.skip(i + 1));
            }
            i += 1;
        }
        proof {
            assert(self@.skip(n as int) =~= Seq::<(Seq<char>, FileEntryV)>::empty());
        }
        None
    }
}

/// The decision over which file, if any, is read.
///
/// With `path_env` set, its variable's value is used when the variable is
/// set and that file exists; otherwise `path` is used when its file exists
/// (else the resolution fails), or `default_path` when its file exists
/// (else no file, without error), or there is no file. Without `path_env`,
/// `path` is mandatory — its file must exist — while `default_path` never
/// fails. `path` and `default_path` together are a declaration-time error.
pub open spec fn spec_resolve(
    attrs: AttrsV,
    env: Seq<(Seq<char>, Seq<char>)>,
    fs: Seq<(Seq<char>, FileEntryV)>,
) -> Result<Option<Seq<char>>, ConfgrError> {
    if attrs.path is Some && attrs.default_path is Some {
        Err(ConfgrError::BuildConfiguration)
    } else {
        let from_env_var = match attrs.path_env {
            Some(pe) => match env_lookup(env, pe) {
                Some(p) => if fs_exists(fs, p) {
                    Some(p)
                } else {
                    None
                },
                None => None,
            },
            None => None,
        };
        match from_env_var {
            Some(p) => Ok(Some(p)),
            None => match (attrs.path, attrs.default_path) {
                (Some(p), None) => if fs_exists(fs, p) {
                    Ok(Some(p))
                } else {
                    Err(ConfgrError::UnresolvablePath)
                },
                (None, Some(dp)) => if fs_exists(fs, dp) {
                    Ok(Some(dp))
                } else {
                    Ok(None)
                },
                _ => Ok(None),
            },
        }
    }
}

/// Resolves the configuration-file path from the type's attributes, the
/// environment snapshot and the file-system snapshot. The only failing
/// outcomes are a mandatory `path` whose file does not exist (with or
/// without a `path_env` candidate that did not resolve), and `path` and
/// `default_path` both set.
pub fn get_file_path(attrs: &ConfigAttributes, env: &EnvSnapshot, fs: &FsSnapshot) -> (r: Result<
    Option<String>,
    ConfgrError,
>)
    ensures
        ({
            let resolved = spec_resolve(attrs@, env@, fs@);
            match r {
                Ok(Some(p)) => resolved == Ok::<Option<Seq<char>>, ConfgrError>(Some(p@)),
                Ok(None) => resolved == Ok::<Option<Seq<char>>, ConfgrError>(None),
                Err(e) => resolved == Err::<Option<Seq<char>>, ConfgrError>(e),
            }
        }),
{
    if attrs.path.is_some() && attrs.default_path.is_some() {
        return Err(ConfgrError::BuildConfiguration);
    }
    if let Some(pe) = &attrs.path_env {
        if let Some(p) = env.get(pe.as_str()) {
            if fs.lookup(p.as_str()).is_some() {
                return Ok(Some(p.clone()));
            }
        }
    }
    match (&attrs.path, &attrs.default_path) {
        (Some(p), None) => {
            if fs.lookup(p.as_str()).is_some() {
                Ok(Some(p.clone()))
            } else {
                Err(ConfgrError::UnresolvablePath)
            }
        },
        (None, Some(dp)) => {
            if fs.lookup(dp.as_str()).is_some() {
                Ok(Some(dp.clone()))
            } else {
                Ok(None)
            }
        },
        _ => Ok(None),
    }
}

/// What checking the resolved file yields: the resolution's own error, or
/// `NoFilePath` when no file is configured, or `FileIo` when the resolved
/// file cannot be read.
pub open spec fn spec_check_file(
    attrs: AttrsV,
    env: Seq<(Seq<char>, Seq<char>)>,
    fs: Seq<(Seq<char>, FileEntryV)>,
) -> Result<(), ConfgrError> {
    match spec_resolve(attrs, env, fs) {
        Err(e) => Err(e),
        Ok(None) => Err(ConfgrError::NoFilePath),
        Ok(Some(p)) => match fs_lookup(fs, p) {
            Some(FileEntryV::Readable(_)) => Ok(()),
            _ => Err(ConfgrError::FileIo),
        },
    }
}

/// Checks that the resolved configuration file exists and can be read.
pub fn check_file(attrs: &ConfigAttributes, env: &EnvSnapshot, fs: &FsSnapshot) -> (r: Result<
    (),
    ConfgrError,
>)
    ensures
        r == spec_check_file(attrs@, env@, fs@),
{
    match get_file_path(attrs, env, fs) {
        Err(e) => Err(e),
        Ok(None) => Err(ConfgrError::NoFilePath),
        Ok(Some(p)) => match fs.lookup(p.as_str()) {
            Some(FileEntry::Readable(_)) => Ok(()),
            _ => Err(ConfgrError::FileIo),
        },
    }
}

} // verus!
