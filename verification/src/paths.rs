//! The path resolver: expands the home shortcut and a location prefix
//! into a concrete path.
//!
//! The directories that the environment names are inputs: the resolver
//! reads no variable itself.  Paths are taken apart and put together by
//! the standard library; what the resolver decides around those calls is
//! verified.
use crate::pattern::text_of;
use crate::text::text_eq;
use std::path::Path;
use vstd::prelude::*;
use vstd::string::*;

verus! {

/// The directories that the environment names, each `None` where the
/// environment does not give it.
#[derive(Debug, PartialEq, Eq)]
pub struct FcEnvironment {
    /// The home directory (`HOME`).
    pub home: Option<String>,
    /// The configuration home (`XDG_CONFIG_HOME`).
    pub xdg_config_home: Option<String>,
    /// The data home (`XDG_DATA_HOME`).
    pub xdg_data_home: Option<String>,
}

/// What an [`FcEnvironment`] holds, as plain values.
pub struct EnvironmentModel {
    pub home: Option<Seq<char>>,
    pub xdg_config_home: Option<Seq<char>>,
    pub xdg_data_home: Option<Seq<char>>,
}

impl View for FcEnvironment {
    type V = EnvironmentModel;

    open spec fn view(&self) -> EnvironmentModel {
        EnvironmentModel {
            home: text_of(self.home),
            xdg_config_home: text_of(self.xdg_config_home),
            xdg_data_home: text_of(self.xdg_data_home),
        }
    }
}

/// Whether the path `base` is a prefix of the path `path`, component by
/// component, as the standard library decides it on the platform the
/// library is built for.
pub uninterp spec fn path_starts_with(path: Seq<char>, base: Seq<char>) -> bool;

/// The path that is left of `path` when the prefix `base` is taken off,
/// as the standard library computes it.
pub uninterp spec fn path_without_prefix(path: Seq<char>, base: Seq<char>) -> Seq<char>;

/// The path `path` rebased under `base`, as the standard library joins
/// the two: an absolute `path` replaces `base`.
pub uninterp spec fn path_joined(base: Seq<char>, path: Seq<char>) -> Seq<char>;

/// The last component of a path, as the standard library finds it;
/// `None` for a path that ends in `..` or has no component.
pub uninterp spec fn path_file_name(path: Seq<char>) -> Option<Seq<char>>;

/// Calls `Path::file_name` of the standard library.  Trusted: the result
/// is the component it returns.
#[verifier::external_body]
pub(crate) fn file_name_of(path: &str) -> (r: Option<String>)
    ensures
        text_of(r) == path_file_name(path@),
{
    Path::new(path).file_name().map(|name| name.to_string_lossy().into_owned())
}

/// Calls `Path::starts_with` of the standard library.  Trusted: the
/// result is its answer.
#[verifier::external_body]
fn starts_with_path(path: &str, base: &str) -> (r: bool)
    ensures
        r == path_starts_with(path@, base@),
{
    Path::new(path).starts_with(base)
}

/// Calls `Path::strip_prefix` of the standard library, which succeeds
/// whenever `Path::starts_with` holds of the same arguments.  Trusted:
/// the result is the path it returns.
#[verifier::external_body]
fn strip_path_prefix(path: &str, base: &str) -> (r: String)
    requires
        path_starts_with(path@, base@),
    ensures
        r@ == path_without_prefix(path@, base@),
{
    Path::new(path).strip_prefix(base).map(|rest| rest.to_string_lossy().into_owned()).unwrap_or_default()
}

/// Calls `Path::join` of the standard library.  Trusted: the result is
/// the path it returns.
#[verifier::external_body]
fn join_path(base: &str, path: &str) -> (r: String)
    ensures
        r@ == path_joined(base@, path@),
{
    Path::new(base).join(path).to_string_lossy().into_owned()
}

/// A path with the home shortcut expanded: a path that begins with `~`
/// has the rest of it rebased under the home directory, and is
/// unresolvable without one; any other path stays as it is.
pub open spec fn home_expanded(path: Seq<char>, home: Option<Seq<char>>) -> Option<Seq<char>> {
    if path_starts_with(path, "~"@) {
        match home {
            Some(h) => Some(path_joined(h, path_without_prefix(path, "~"@))),
            None => None,
        }
    } else {
        Some(path)
    }
}

/// What a prefix asks for.
#[derive(Debug, Clone, Copy, PartialEq, Eq, Structural)]
pub enum Rebase {
    /// No prefix: the path stays as it is.
    Keep,
    /// `cwd` or `default`: the path is rebased under `.`.
    UnderCurrentDirectory,
    /// `xdg` on the path of a configuration file: the path is rebased
    /// under the configuration home.
    UnderConfigHome,
    /// `xdg` on a directory to scan: the path is rebased under the data
    /// home.
    UnderDataHome,
}

/// What a prefix asks for, `None` for a prefix that is not supported.
pub open spec fn rebase_of(prefix: Option<Seq<char>>, is_include_path: bool) -> Option<Rebase> {
    match prefix {
        None => Some(Rebase::Keep),
        Some(tag) => if tag == "cwd"@ || tag == "default"@ {
            Some(Rebase::UnderCurrentDirectory)
        } else if tag == "xdg"@ {
            if is_include_path {
                Some(Rebase::UnderConfigHome)
            } else {
                Some(Rebase::UnderDataHome)
            }
        } else {
            None
        },
    }
}

/// Decides what a prefix asks for.
pub fn prefix_rebase(prefix: &Option<String>, is_include_path: bool) -> (r: Option<Rebase>)
    ensures
        r == rebase_of(text_of(*prefix), is_include_path),
{
    match prefix {
        None => Some(Rebase::Keep),
        Some(tag) => {
            if text_eq(tag.as_str(), "cwd") || text_eq(tag.as_str(), "default") {
                Some(Rebase::UnderCurrentDirectory)
            } else if text_eq(tag.as_str(), "xdg") {
                if is_include_path {
                    Some(Rebase::UnderConfigHome)
                } else {
                    Some(Rebase::UnderDataHome)
                }
            } else {
                None
            }
        },
    }
}

/// The home of a default directory: the home directory with `suffix`
/// joined to it.
pub open spec fn under_home(home: Option<Seq<char>>, suffix: Seq<char>) -> Option<Seq<char>> {
    match home {
        Some(h) => Some(path_joined(h, suffix)),
        None => None,
    }
}

/// The configuration home: the directory that the environment names, or
/// `.config` under the home directory.
pub open spec fn config_home(env: EnvironmentModel) -> Option<Seq<char>> {
    match env.xdg_config_home {
        Some(dir) => Some(dir),
        None => under_home(env.home, ".config"@),
    }
}

/// The data home: the directory that the environment names, or
/// `.local/share` under the home directory.
pub open spec fn data_home(env: EnvironmentModel) -> Option<Seq<char>> {
    match env.xdg_data_home {
        Some(dir) => Some(dir),
        None => under_home(env.home, ".local/share"@),
    }
}

/// The directory under which a path is rebased: `None` for a path that
/// stays as it is, `Some(None)` where the directory is not known.
pub open spec fn rebase_base(rebase: Rebase, env: EnvironmentModel) -> Option<Option<Seq<char>>> {
    match rebase {
        Rebase::Keep => None,
        Rebase::UnderCurrentDirectory => Some(Some("."@)),
        Rebase::UnderConfigHome => Some(config_home(env)),
        Rebase::UnderDataHome => Some(data_home(env)),
    }
}

/// The resolved path of a prefix and a path, `None` where the entry is
/// unresolvable.  The home shortcut is expanded first.  Then the path is
/// rebased as its prefix asks: `cwd` and `default` under `.`, `xdg` under
/// the configuration home or the data home; no prefix leaves the path as
/// it is.  An entry is unresolvable where the prefix is not supported or
/// a directory that is needed is not known.
pub open spec fn resolved_path(
    prefix: Option<Seq<char>>,
    path: Seq<char>,
    is_include_path: bool,
    env: EnvironmentModel,
) -> Option<Seq<char>> {
    match (home_expanded(path, env.home), rebase_of(prefix, is_include_path)) {
        (Some(expanded), Some(rebase)) => match rebase_base(rebase, env) {
            None => Some(expanded),
            Some(Some(base)) => Some(path_joined(base, expanded)),
            Some(None) => None,
        },
        _ => None,
    }
}

/// A directory that the environment names, or its default under the
/// home directory.
fn named_or_under_home(named: &Option<String>, home: &Option<String>, suffix: &str) -> (r: Option<
    String,
>)
    ensures
        text_of(r) == match text_of(*named) {
            Some(dir) => Some(dir),
            None => under_home(text_of(*home), suffix@),
        },
{
    match named {
        Some(dir) => Some(dir.clone()),
        None => match home {
            Some(h) => Some(join_path(h.as_str(), suffix)),
            None => None,
        },
    }
}

/// Resolves a prefix and a path to a usable path, or `None` where the
/// entry is unsupported or a directory that it needs is not known.
pub fn process_path(
    prefix: &Option<String>,
    path: String,
    is_include_path: bool,
    env: &FcEnvironment,
) -> (r: Option<String>)
    ensures
        text_of(r) == resolved_path(text_of(*prefix), path@, is_include_path, env@),
{
    let expanded = if starts_with_path(path.as_str(), "~") {
        match &env.home {
            Some(home) => {
                let rest = strip_path_prefix(path.as_str(), "~");
                join_path(home.as_str(), rest.as_str())
            },
            None => {
                return None;
            },
        }
    } else {
        path
    };
    let base = match prefix_rebase(prefix, is_include_path)? {
        Rebase::Keep => {
            return Some(expanded);
        },
        Rebase::UnderCurrentDirectory => String::from_str("."),
        Rebase::UnderConfigHome => named_or_under_home(&env.xdg_config_home, &env.home, ".config")?,
        Rebase::UnderDataHome => named_or_under_home(
            &env.xdg_data_home,
            &env.home,
            ".local/share",
        )?,
    };
    Some(join_path(base.as_str(), expanded.as_str()))
}

} // verus!
