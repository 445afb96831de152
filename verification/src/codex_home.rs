//! Where the logs are.

use crate::paths::{order_of_paths, path_order, path_suffix, strip_base, PathOrder};
use crate::text::{blank, is_blank, opt_text};
use vstd::prelude::*;
use vstd::string::*;

verus! {

/// Where the logs are looked for.
#[derive(Clone, Debug)]
pub enum CodexHome {
    /// At a path that was given.
    At(String),
    /// In the usual directory below the home directory.
    InHome,
}

/// What a `CodexHome` holds.
pub enum CodexHomeView {
    At(Seq<char>),
    InHome,
}

impl View for CodexHome {
    type V = CodexHomeView;

    open spec fn view(&self) -> CodexHomeView {
        match self {
            CodexHome::At(path) => CodexHomeView::At(path@),
            CodexHome::InHome => CodexHomeView::InHome,
        }
    }
}

/// A path, unless it holds nothing but whitespace.
pub open spec fn unless_blank(path: Option<Seq<char>>) -> Option<Seq<char>> {
    match path {
        Some(text) if !blank(text) => Some(text),
        _ => None,
    }
}

/// Where the logs are looked for: at the path of this call, as it is, or else at the stored one,
/// or else at that of the environment, unless they are blank, or else below the home directory.
pub open spec fn chosen_home(
    override_value: Option<Seq<char>>,
    persisted: Option<Seq<char>>,
    environment: Option<Seq<char>>,
    has_home_dir: bool,
) -> Option<CodexHomeView> {
    match (override_value, unless_blank(persisted), unless_blank(environment)) {
        (Some(path), _, _) => Some(CodexHomeView::At(path)),
        (None, Some(path), _) => Some(CodexHomeView::At(path)),
        (None, None, Some(path)) => Some(CodexHomeView::At(path)),
        (None, None, None) => if has_home_dir {
            Some(CodexHomeView::InHome)
        } else {
            None
        },
    }
}

/// Where the logs are looked for.
pub fn resolve_codex_home(
    persisted_codex_home: &Option<String>,
    override_value: Option<String>,
    environment: &Option<String>,
    has_home_dir: bool,
) -> (result: Result<CodexHome, String>)
    ensures
        match result {
            Ok(home) => chosen_home(
                opt_text(override_value),
                opt_text(*persisted_codex_home),
                opt_text(*environment),
                has_home_dir,
            ) == Some(home@),
            Err(message) => chosen_home(
                opt_text(override_value),
                opt_text(*persisted_codex_home),
                opt_text(*environment),
                has_home_dir,
            ) is None && message@
                == "Unable to resolve home directory for CODEX_HOME fallback."@,
        },
{
    match override_value {
        Some(path) => {
            return Ok(CodexHome::At(path));
        },
        None => {},
    }
    match persisted_codex_home {
        Some(path) => {
            if !is_blank(path.as_str()) {
                return Ok(CodexHome::At(path.clone()));
            }
        },
        None => {},
    }
    match environment {
        Some(path) => {
            if !is_blank(path.as_str()) {
                return Ok(CodexHome::At(path.clone()));
            }
        },
        None => {},
    }
    if has_home_dir {
        Ok(CodexHome::InHome)
    } else {
        Err("Unable to resolve home directory for CODEX_HOME fallback.".to_owned())
    }
}

/// A path once its leading tilde is resolved.
#[derive(Clone, Debug)]
pub enum ExpandedPath {
    /// It had none.
    AsGiven,
    /// It lies below the home directory, at this place.
    BelowHome(String),
}

/// A path once its leading tilde is resolved, where `suffix` is what follows the tilde, if there
/// is one. Then there must be a home directory.
pub fn place_below_home(path: &str, suffix: Option<String>, has_home_dir: bool) -> (result: Result<
    ExpandedPath,
    String,
>)
    ensures
        fits_expansion(result, path@, opt_text(suffix), has_home_dir),
{
    match suffix {
        None => Ok(ExpandedPath::AsGiven),
        Some(suffix) => if has_home_dir {
            Ok(ExpandedPath::BelowHome(suffix))
        } else {
            let mut message = "Unable to resolve home directory for Codex home path: ".to_owned();
            message.append(path);
            Err(message)
        },
    }
}

/// Whether `result` is what becomes of a path with `suffix` after its tilde, if it has one.
pub open spec fn fits_expansion(
    result: Result<ExpandedPath, String>,
    path: Seq<char>,
    suffix: Option<Seq<char>>,
    has_home_dir: bool,
) -> bool {
    match (suffix, result) {
        (None, Ok(ExpandedPath::AsGiven)) => true,
        (Some(suffix), Ok(ExpandedPath::BelowHome(place))) => has_home_dir && place@ == suffix,
        (Some(_), Err(message)) => !has_home_dir && message@
            == "Unable to resolve home directory for Codex home path: "@ + path,
        _ => false,
    }
}

/// A path once its leading tilde is resolved. Only a tilde that is a whole component stands for
/// the home directory, and then there must be one.
pub fn expand_home_prefix(path: &str, has_home_dir: bool) -> (result: Result<ExpandedPath, String>)
    ensures
        fits_expansion(result, path@, path_suffix(path@, "~"@), has_home_dir),
{
    place_below_home(path, strip_base(path, "~"), has_home_dir)
}

/// Whether two paths are of the same place: their components are the same.
pub open spec fn is_same_place(left: Seq<char>, right: Seq<char>) -> bool {
    order_of_paths(left, right) == PathOrder::Same
}

/// Whether the configured home of the logs, where there is one, is the one that is scanned: only
/// then the freshness of the source is tracked.
pub fn freshness_source_matches(configured: &Option<String>, scanned: &str) -> (same: bool)
    ensures
        same == (configured is Some && is_same_place(configured->0@, scanned@)),
{
    match configured {
        Some(home) => path_order(home.as_str(), scanned) == PathOrder::Same,
        None => false,
    }
}

/// Whether the configured home that a scan followed is not the configured home any more.
pub fn tracked_home_moved(followed: &Option<String>, configured: &Option<String>) -> (moved: bool)
    ensures
        moved == (followed is Some && !(configured is Some && is_same_place(
            configured->0@,
            followed->0@,
        ))),
{
    match followed {
        Some(home) => !freshness_source_matches(configured, home.as_str()),
        None => false,
    }
}

} // verus!
