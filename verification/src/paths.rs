//! The parts of paths, in the path syntax of the target platform.

use crate::text::opt_text;
use vstd::prelude::*;

verus! {

/// The file name that a path ends with.
pub uninterp spec fn path_file_name(path: Seq<char>) -> Option<Seq<char>>;

/// The file name that a path ends with, by std's `Path::file_name`. The contract names the
/// outcome.
#[verifier::external_body]
pub(crate) fn file_name_of(path: &str) -> (name: Option<String>)
    ensures
        opt_text(name) == path_file_name(path@),
{
    std::path::Path::new(path).file_name().map(|name| name.to_string_lossy().into_owned())
}

/// The extension of the file name that a path ends with.
pub uninterp spec fn path_extension(path: Seq<char>) -> Option<Seq<char>>;

/// The extension of the file name that a path ends with, by std's `Path::extension`. The contract
/// names the outcome.
#[verifier::external_body]
pub(crate) fn extension_of(path: &str) -> (extension: Option<String>)
    ensures
        opt_text(extension) == path_extension(path@),
{
    std::path::Path::new(path).extension().map(|text| text.to_string_lossy().into_owned())
}

/// A path below another.
pub uninterp spec fn path_below(base: Seq<char>, part: Seq<char>) -> Seq<char>;

/// A path below another, by std's `Path::join`. The contract names the outcome.
#[verifier::external_body]
pub(crate) fn join_path(base: &str, part: &str) -> (path: String)
    ensures
        path@ == path_below(base@, part@),
{
    std::path::Path::new(base).join(part).to_string_lossy().into_owned()
}

/// Whether a path is another one or lies below it.
pub uninterp spec fn path_is_under(path: Seq<char>, base: Seq<char>) -> bool;

/// Whether a path is another one or lies below it, by std's `Path::starts_with`, which compares
/// whole components. The contract names the outcome.
#[verifier::external_body]
pub(crate) fn is_under(path: &str, base: &str) -> (result: bool)
    ensures
        result == path_is_under(path@, base@),
{
    std::path::Path::new(path).starts_with(base)
}

/// What is left of a path below another one, where it lies there.
pub uninterp spec fn path_suffix(path: Seq<char>, base: Seq<char>) -> Option<Seq<char>>;

/// What is left of a path below another one, by std's `Path::strip_prefix`, which compares whole
/// components. The contract names the outcome.
#[verifier::external_body]
pub(crate) fn strip_base(path: &str, base: &str) -> (suffix: Option<String>)
    ensures
        opt_text(suffix) == path_suffix(path@, base@),
{
    let suffix = std::path::Path::new(path).strip_prefix(base).ok()?;
    Some(suffix.to_string_lossy().into_owned())
}

/// How two paths are ordered.
#[derive(Clone, Copy, Debug, PartialEq, Eq, Structural)]
pub enum PathOrder {
    Before,
    Same,
    After,
}

impl PathOrder {
    /// The order of the same two paths the other way round.
    pub open spec fn reversed(self) -> PathOrder {
        match self {
            PathOrder::Before => PathOrder::After,
            PathOrder::Same => PathOrder::Same,
            PathOrder::After => PathOrder::Before,
        }
    }
}

/// How two paths are ordered.
pub uninterp spec fn order_of_paths(left: Seq<char>, right: Seq<char>) -> PathOrder;

/// How two paths are ordered, by `cmp` of std's `Path`. The contract names the outcome, and says
/// what `Ord` is documented to be, a total order: the other way round the outcome is the reverse,
/// and what does not come before the later of the two does not come before the earlier either.
#[verifier::external_body]
pub(crate) fn path_order(left: &str, right: &str) -> (order: PathOrder)
    ensures
        order == order_of_paths(left@, right@),
        order_of_paths(right@, left@) == order.reversed(),
        order != PathOrder::Before ==> forall|third: Seq<char>|
            order_of_paths(third, left@) != PathOrder::Before ==> #[trigger] order_of_paths(
                third,
                right@,
            ) != PathOrder::Before,
        order != PathOrder::After ==> forall|third: Seq<char>|
            order_of_paths(third, right@) != PathOrder::Before ==> #[trigger] order_of_paths(
                third,
                left@,
            ) != PathOrder::Before,
{
    match std::path::Path::new(left).cmp(std::path::Path::new(right)) {
        std::cmp::Ordering::Less => PathOrder::Before,
        std::cmp::Ordering::Equal => PathOrder::Same,
        std::cmp::Ordering::Greater => PathOrder::After,
    }
}

} // verus!
