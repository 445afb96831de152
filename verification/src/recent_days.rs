//! Where recent logs lie: in the directories of the last days.

use crate::paths::{join_path, path_below};
use crate::text::{opt_text, texts};
use vstd::prelude::*;

verus! {

/// How many days count as recent, today among them.
pub const RECENT_DAYS: usize = 3;

/// Whether a format is that of one part of a date: the year, the month or the day.
pub open spec fn is_part_of_date(format: Seq<char>) -> bool {
    format == "%Y"@ || format == "%m"@ || format == "%d"@
}

/// A part of the date of a day, which is counted from the first of the year 1.
pub uninterp spec fn part_of_date(day: i32, format: Seq<char>) -> Option<Seq<char>>;

/// A part of the date of a day, by `NaiveDate::from_num_days_from_ce_opt` and `NaiveDate::format`
/// of chrono. The contract names the outcome, a function of the day and the format alone.
#[verifier::external_body]
fn date_part(day: i32, format: &str) -> (text: Option<String>)
    requires
        is_part_of_date(format@),
    ensures
        opt_text(text) == part_of_date(day, format@),
{
    let date = chrono::NaiveDate::from_num_days_from_ce_opt(day)?;
    Some(date.format(format).to_string())
}

/// The year, the month and the day of a day, where it has a date.
pub open spec fn date_of_day(day: int) -> Option<(Seq<char>, Seq<char>, Seq<char>)> {
    if i32::MIN <= day <= i32::MAX {
        match (
            part_of_date(day as i32, "%Y"@),
            part_of_date(day as i32, "%m"@),
            part_of_date(day as i32, "%d"@),
        ) {
            (Some(year), Some(month), Some(date)) => Some((year, month, date)),
            _ => None,
        }
    } else {
        None
    }
}

/// The dates of the first `count` days from today backwards, without those that have none.
pub open spec fn dates_back(today: i32, count: int) -> Seq<(Seq<char>, Seq<char>, Seq<char>)>
    decreases count,
{
    if count <= 0 {
        Seq::empty()
    } else {
        match date_of_day(today - (count - 1)) {
            Some(date) => dates_back(today, count - 1).push(date),
            None => dates_back(today, count - 1),
        }
    }
}

/// What each date of a list holds.
pub open spec fn date_views(days: Seq<(String, String, String)>) -> Seq<
    (Seq<char>, Seq<char>, Seq<char>),
> {
    days.map_values(|day: (String, String, String)| (day.0@, day.1@, day.2@))
}

/// The year, the month and the day of a day, where it has a date.
fn find_date(day: i32) -> (date: Option<(String, String, String)>)
    ensures
        date_of_day(day as int) == match date {
            Some(found) => Some((found.0@, found.1@, found.2@)),
            None => None,
        },
{
    match (date_part(day, "%Y"), date_part(day, "%m"), date_part(day, "%d")) {
        (Some(year), Some(month), Some(date)) => Some((year, month, date)),
        _ => None,
    }
}

/// The dates of the days that count as recent, today first. Days are counted from the first of
/// the year 1.
pub fn recent_days(today: i32) -> (days: Vec<(String, String, String)>)
    ensures
        date_views(days@) == dates_back(today, RECENT_DAYS as int),
{
    let mut days: Vec<(String, String, String)> = Vec::new();
    proof {
        assert(date_views(days@) =~= Seq::empty());
    }
    let mut back: usize = 0;
    while back < RECENT_DAYS
        invariant
            back <= RECENT_DAYS,
            date_views(days@) == dates_back(today, back as int),
        decreases RECENT_DAYS - back,
    {
        let ghost before = days@;
        match today.checked_sub(back as i32) {
            Some(day) => match find_date(day) {
                Some(date) => {
                    days.push(date);
                    proof {
                        assert(date_views(days@) =~= date_views(before).push(
                            (date.0@, date.1@, date.2@),
                        ));
                    }
                },
                None => {},
            },
            None => {},
        }
        back = back + 1;
    }
    days
}

/// The directory of a day: below the root, its year, its month and its day.
pub open spec fn day_directory(root: Seq<char>, day: (String, String, String)) -> Seq<char> {
    path_below(path_below(path_below(root, day.0@), day.1@), day.2@)
}

/// The directories whose files count as recent: the root itself, where logs may lie directly, and
/// those of the first days, as many as are recent.
pub open spec fn recent_places(root: Seq<char>, days: Seq<(String, String, String)>) -> Seq<
    Seq<char>,
> {
    let counted = if days.len() < RECENT_DAYS {
        days
    } else {
        days.take(RECENT_DAYS as int)
    };
    seq![root] + counted.map_values(|day: (String, String, String)| day_directory(root, day))
}

/// The directories whose files count as recent. A day is given by its year, its month and its
/// day, today first.
pub fn recent_directories(root: &str, days: &Vec<(String, String, String)>) -> (directories: Vec<
    String,
>)
    ensures
        texts(directories@) == recent_places(root@, days@),
{
    let mut directories: Vec<String> = Vec::new();
    directories.push(root.to_owned());
    proof {
        assert(texts(directories@) =~= recent_places(root@, days@).take(1));
    }
    let mut index: usize = 0;
    while index < days.len() && index < RECENT_DAYS
        invariant
            index <= days.len(),
            index <= RECENT_DAYS,
            texts(directories@) == recent_places(root@, days@).take(index + 1),
        decreases days.len() - index,
    {
        let year = join_path(root, days[index].0.as_str());
        let month = join_path(year.as_str(), days[index].1.as_str());
        let day = join_path(month.as_str(), days[index].2.as_str());
        let ghost before = texts(directories@);
        directories.push(day);
        proof {
            let places = recent_places(root@, days@);
            assert(places[index + 1] == day@);
            assert(texts(directories@) =~= before.push(day@));
            assert(places.take(index + 2) =~= places.take(index + 1).push(day@));
        }
        index = index + 1;
    }
    proof {
        let places = recent_places(root@, days@);
        assert(places.take(places.len() as int) =~= places);
    }
    directories
}

} // verus!
