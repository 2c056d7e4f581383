//! The entries that began within a range of days.

use crate::clock::{instant_of, Instant, Timestamp};
use crate::error::TrackError;
use crate::store::{load_all, loaded, log_view, text_view};
use crate::task::{Task, TaskView};
use vstd::prelude::*;
use vstd::string::StringExecFns;

verus! {

/// What follows a day to name its first instant.
pub const DAY_START: &'static str = "T00:00:00+00:00";

/// What follows a day to name its last instant.
pub const DAY_END: &'static str = "T23:59:59.999999999+00:00";

/// The instant named by `day` followed by `time`; no day gives no bound,
/// and a day that cannot be read is refused.
pub open spec fn day_bound(day: Option<Seq<char>>, time: Seq<char>) -> Result<Option<Instant>, TrackError> {
    match day {
        None => Ok(None),
        Some(d) => match instant_of(d + time) {
            Some(at) => Ok(Some(at)),
            None => Err(TrackError::InvalidInput),
        },
    }
}

/// `at` lies between the two bounds, each of them included where it is
/// given.
pub open spec fn within(at: Instant, from: Option<Instant>, to: Option<Instant>) -> bool {
    &&& from matches Some(f) ==> f.at_or_before(at)
    &&& to matches Some(t) ==> at.at_or_before(t)
}

/// The entries of `log` that began within the bounds, in the order of the
/// log.
pub open spec fn selection(log: Seq<TaskView>, from: Option<Instant>, to: Option<Instant>) -> Seq<TaskView>
    decreases log.len(),
{
    if log.len() == 0 {
        Seq::empty()
    } else {
        let before = selection(log.drop_last(), from, to);
        if within(log.last().start.at, from, to) {
            before.push(log.last())
        } else {
            before
        }
    }
}

/// Every selected entry began within the bounds, and no more entries are
/// selected than the log holds.
pub proof fn lemma_selection_within(log: Seq<TaskView>, from: Option<Instant>, to: Option<Instant>)
    ensures
        selection(log, from, to).len() <= log.len(),
        forall|i: int|
            0 <= i < selection(log, from, to).len() ==> within(
                (#[trigger] selection(log, from, to)[i]).start.at,
                from,
                to,
            ),
    decreases log.len(),
{
    if log.len() > 0 {
        lemma_selection_within(log.drop_last(), from, to);
    }
}

/// Reads an optional day as a bound of a range.
pub fn read_bound(day: Option<&str>, time: &str) -> (r: Result<Option<Instant>, TrackError>)
    ensures
        r == day_bound(text_view(day), time@),
{
    match day {
        None => Ok(None),
        Some(d) => {
            let text = String::from_str(d).concat(time);
            match Timestamp::parse(text) {
                Some(stamp) => Ok(Some(stamp.instant())),
                None => Err(TrackError::InvalidInput),
            }
        },
    }
}

/// Whether `at` lies within the bounds.
pub fn is_within(at: Instant, from: Option<Instant>, to: Option<Instant>) -> (r: bool)
    ensures
        r == within(at, from, to),
{
    let after_from = match from {
        Some(f) => f.not_after(at),
        None => true,
    };
    let before_to = match to {
        Some(t) => at.not_after(t),
        None => true,
    };
    after_from && before_to
}

/// The entries of `tasks` that began within the bounds, in their order.
pub fn select(tasks: &Vec<Task>, from: Option<Instant>, to: Option<Instant>) -> (chosen: Vec<Task>)
    ensures
        log_view(chosen@) == selection(log_view(tasks@), from, to),
{
    let mut chosen: Vec<Task> = Vec::new();
    let ghost log = log_view(tasks@);
    let mut i: usize = 0;
    assert(log.take(0) =~= Seq::empty());
    assert(log_view(chosen@) =~= Seq::empty());
    while i < tasks.len()
        invariant
            i <= tasks.len(),
            log == log_view(tasks@),
            log_view(chosen@) == selection(log.take(i as int), from, to),
        decreases tasks.len() - i,
    {
        let ghost before = log_view(chosen@);
        assert(log.take(i + 1).drop_last() =~= log.take(i as int));
        assert(log.take(i + 1).last() == tasks@[i as int]@);
        if is_within(tasks[i].start_date(), from, to) {
            chosen.push(tasks[i].clone());
            assert(log_view(chosen@) =~= before.push(tasks@[i as int]@));
        }
        i += 1;
    }
    assert(log.take(i as int) =~= log);
    chosen
}

/// The entries of the store that began from the day `from` to the day
/// `to`, both included; a day that is not given leaves that side open.
/// The days are looked at before the store is.
pub fn report(contents: Option<&str>, from: Option<&str>, to: Option<&str>) -> (r: Result<Vec<Task>, TrackError>)
    ensures
        match (day_bound(text_view(from), DAY_START@), day_bound(text_view(to), DAY_END@)) {
            (Ok(first), Ok(last)) => match loaded(text_view(contents)) {
                Ok(log) => r matches Ok(chosen) && log_view(chosen@) == selection(log, first, last),
                Err(e) => r matches Err(f) && f == e,
            },
            _ => r matches Err(f) && f == TrackError::InvalidInput,
        },
{
    let first = read_bound(from, DAY_START)?;
    let last = read_bound(to, DAY_END)?;
    let tasks = load_all(contents)?;
    Ok(select(&tasks, first, last))
}

} // verus!
