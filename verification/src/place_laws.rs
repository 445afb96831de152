//! Where logs are looked for: which home counts, and which directories are recent.

use crate::codex_home::{chosen_home, fits_expansion, is_same_place, CodexHomeView, ExpandedPath};
use crate::incremental::LOG_EXTENSION;
use crate::name_laws::{is_middle, trimming_leaves_the_middle};
use crate::paths::{order_of_paths, path_below, PathOrder};
use crate::recent_days::{
    date_of_day, dates_back, day_directory, part_of_date, recent_places, RECENT_DAYS,
};
use crate::text::{blank, is_white_space, trimmed};
use vstd::prelude::*;

verus! {

/// Whether every character of a text is white space.
pub open spec fn is_all_space(text: Seq<char>) -> bool {
    forall|place: int| 0 <= place < text.len() ==> is_white_space(#[trigger] text[place])
}

/// A text is blank where every character of it is white space.
pub proof fn blank_texts_are_all_space(text: Seq<char>)
    ensures
        blank(text) <==> is_all_space(text),
{
    trimming_leaves_the_middle(text);
    let start = choose|start: int| #[trigger] is_middle(trimmed(text), text, start);
    if trimmed(text).len() > 0 {
        assert(trimmed(text)[0] == text[start]);
    }
}

/// A home that is given for a call counts before all others, as it is. Without one the stored home
/// counts, unless it is blank, and then that of the environment, unless it is blank too; what is
/// left is the usual place below the home directory, where there is one.
pub proof fn first_home_counts(
    given: Option<Seq<char>>,
    stored: Option<Seq<char>>,
    environment: Option<Seq<char>>,
    has_home_dir: bool,
)
    ensures
        ({
            let home = chosen_home(given, stored, environment, has_home_dir);
            let has_stored = stored is Some && !is_all_space(stored->0);
            let has_environment = environment is Some && !is_all_space(environment->0);
            &&& given is Some ==> home == Some(CodexHomeView::At(given->0))
            &&& given is None && has_stored ==> home == Some(CodexHomeView::At(stored->0))
            &&& given is None && !has_stored && has_environment ==> home == Some(
                CodexHomeView::At(environment->0),
            )
            &&& given is None && !has_stored && !has_environment && has_home_dir ==> home == Some(
                CodexHomeView::InHome,
            )
            &&& given is None && !has_stored && !has_environment && !has_home_dir ==> home is None
        }),
{
    if let Some(text) = stored {
        blank_texts_are_all_space(text);
    }
    if let Some(text) = environment {
        blank_texts_are_all_space(text);
    }
}

/// A path without a tilde stays as it is; one with a tilde lies below the home directory, at what
/// follows the tilde, and is refused where there is none.
pub proof fn tilde_stands_for_home(
    result: Result<ExpandedPath, String>,
    path: Seq<char>,
    suffix: Option<Seq<char>>,
    has_home_dir: bool,
)
    requires
        fits_expansion(result, path, suffix, has_home_dir),
    ensures
        suffix is None <==> result == Ok::<ExpandedPath, String>(ExpandedPath::AsGiven),
        suffix is Some && has_home_dir ==> (result matches Ok(ExpandedPath::BelowHome(place))
            && place@ == suffix->0),
        suffix is Some && !has_home_dir <==> result is Err,
{
}

/// Two homes are the same place where their paths are the same by their components, and only then.
pub proof fn homes_are_compared_by_their_paths(left: Seq<char>, right: Seq<char>)
    ensures
        is_same_place(left, right) <==> order_of_paths(left, right) == PathOrder::Same,
{
}

/// Whether a date is that of a day: its year, its month and its day.
pub open spec fn is_date_of(date: (Seq<char>, Seq<char>, Seq<char>), day: int) -> bool {
    &&& i32::MIN <= day <= i32::MAX
    &&& part_of_date(day as i32, "%Y"@) == Some(date.0)
    &&& part_of_date(day as i32, "%m"@) == Some(date.1)
    &&& part_of_date(day as i32, "%d"@) == Some(date.2)
}

/// The recent days are today, yesterday and the day before, in that order, where each of them has a
/// date.
pub proof fn recent_days_are_three(
    today: i32,
    first: (Seq<char>, Seq<char>, Seq<char>),
    second: (Seq<char>, Seq<char>, Seq<char>),
    third: (Seq<char>, Seq<char>, Seq<char>),
)
    requires
        is_date_of(first, today as int),
        is_date_of(second, today - 1),
        is_date_of(third, today - 2),
    ensures
        dates_back(today, RECENT_DAYS as int) == seq![first, second, third],
{
    assert(dates_back(today, 0) =~= Seq::empty());
    assert(date_of_day(today as int) == Some(first));
    assert(dates_back(today, 1) =~= seq![first]);
    assert(date_of_day(today - 1) == Some(second));
    assert(dates_back(today, 2) =~= seq![first, second]);
    assert(date_of_day(today - 2) == Some(third));
    assert(dates_back(today, 3) =~= seq![first, second, third]);
}

/// Recent logs lie in the root itself or below it, in a directory of a recent day that lies in that
/// of its month, in that of its year.
pub proof fn recent_logs_lie_by_their_day(root: Seq<char>, days: Seq<(String, String, String)>)
    requires
        days.len() <= 3,
    ensures
        recent_places(root, days).len() == days.len() + 1,
        recent_places(root, days)[0] == root,
        forall|index: int|
            0 <= index < days.len() ==> recent_places(root, days)[index + 1] == path_below(
                path_below(path_below(root, (#[trigger] days[index]).0@), days[index].1@),
                days[index].2@,
            ),
{
    assert(days.take(days.len() as int) =~= days);
    let places = recent_places(root, days);
    assert forall|index: int| 0 <= index < days.len() implies places[index + 1] == path_below(
        path_below(path_below(root, (#[trigger] days[index]).0@), days[index].1@),
        days[index].2@,
    ) by {
        if days.len() < RECENT_DAYS {
            assert(places[index + 1] == day_directory(root, days[index]));
        } else {
            assert(days.take(RECENT_DAYS as int) =~= days);
            assert(places[index + 1] == day_directory(root, days[index]));
        }
    }
}

/// Logs are files of JSON lines, and are known by that extension.
pub proof fn logs_are_known_by_their_extension()
    ensures
        LOG_EXTENSION@ == "jsonl"@,
{
}

} // verus!
