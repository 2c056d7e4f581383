//! The commands of the tracker as steps from the contents of the store to
//! its new contents: start, stop, continue, status and report. Reading and
//! writing the file is left to the caller.

use crate::clock::{Stamp, Timestamp};
use crate::error::TrackError;
use crate::store::{current, load_all, loaded, log_view, save_all, saved, text_view};
use crate::task::{fresh, text_of, view_of, Task, TaskView};
use vstd::prelude::*;

verus! {

/// What a command that changes the store hands back: the new contents and
/// the entry it made or changed.
#[derive(Debug)]
pub struct Change {
    pub contents: String,
    pub entry: Task,
}

/// `r` is the change to `log` and `entry`, or the error that saving `log`
/// gives.
pub open spec fn changes_to(r: Result<Change, TrackError>, log: Seq<TaskView>, entry: TaskView) -> bool {
    match saved(log) {
        Ok(text) => r matches Ok(c) && c.contents@ == text && c.entry@ == entry,
        Err(e) => r matches Err(f) && f == e,
    }
}

/// `r` is the error `e`.
pub open spec fn fails_with<T>(r: Result<T, TrackError>, e: TrackError) -> bool {
    r matches Err(f) && f == e
}

/// What starting a task named `task` at `now` makes of a store.
pub open spec fn started(
    r: Result<Change, TrackError>,
    contents: Option<Seq<char>>,
    task: Seq<char>,
    project: Option<Seq<char>>,
    now: Stamp,
) -> bool {
    if task.len() == 0 {
        fails_with(r, TrackError::InvalidInput)
    } else {
        match loaded(contents) {
            Err(e) => fails_with(r, e),
            Ok(log) => changes_to(r, log.push(fresh(task, project, now)), fresh(task, project, now)),
        }
    }
}

/// The log after its current entry is stopped at `now`: the entries
/// before it stay as they are.
pub open spec fn log_stopped(log: Seq<TaskView>, now: Stamp) -> Result<Seq<TaskView>, TrackError> {
    if log.len() == 0 {
        Err(TrackError::EmptyStore)
    } else if !log.last().in_progress() {
        Err(TrackError::AlreadyStopped)
    } else {
        Ok(log.drop_last().push(log.last().stopped(now)))
    }
}

/// The log after its current entry is taken up again: the entries before
/// it stay as they are.
pub open spec fn log_resumed(log: Seq<TaskView>) -> Result<Seq<TaskView>, TrackError> {
    if log.len() == 0 {
        Err(TrackError::EmptyStore)
    } else {
        Ok(log.drop_last().push(log.last().resumed()))
    }
}

/// Stopping or continuing the current entry keeps the number of entries
/// and every entry but the last; of the last it keeps the name, the
/// project and the start.
pub proof fn lemma_history_is_kept(log: Seq<TaskView>, now: Stamp, i: int)
    requires
        0 <= i < log.len(),
    ensures
        log_stopped(log, now) matches Ok(next) ==> next.len() == log.len() && (i < log.len() - 1 ==> next[i]
            == log[i]) && next[i].task == log[i].task && next[i].project == log[i].project && next[i].start
            == log[i].start,
        log_resumed(log) matches Ok(next) && next.len() == log.len() && (i < log.len() - 1 ==> next[i]
            == log[i]) && next[i].task == log[i].task && next[i].project == log[i].project && next[i].start
            == log[i].start,
{
}

/// Stopping the current entry and then continuing it gives back a log
/// whose current entry was in progress, entry for entry.
pub proof fn lemma_stop_then_resume(log: Seq<TaskView>, now: Stamp)
    requires
        log_stopped(log, now) is Ok,
    ensures
        log_resumed(log_stopped(log, now)->Ok_0) == Ok::<Seq<TaskView>, TrackError>(log),
{
    let next = log_stopped(log, now)->Ok_0;
    assert(next.drop_last() =~= log.drop_last());
    assert(log.last().stopped(now).resumed() == log.last());
    assert(next.drop_last().push(next.last().resumed()) =~= log);
}

/// What stopping the current entry at `now` makes of a store.
pub open spec fn stopped(r: Result<Change, TrackError>, contents: Option<Seq<char>>, now: Stamp) -> bool {
    match loaded(contents) {
        Err(e) => fails_with(r, e),
        Ok(log) => match log_stopped(log, now) {
            Err(e) => fails_with(r, e),
            Ok(next) => changes_to(r, next, next.last()),
        },
    }
}

/// What continuing the current entry makes of a store.
pub open spec fn resumed(r: Result<Change, TrackError>, contents: Option<Seq<char>>) -> bool {
    match loaded(contents) {
        Err(e) => fails_with(r, e),
        Ok(log) => match log_resumed(log) {
            Err(e) => fails_with(r, e),
            Ok(next) => changes_to(r, next, next.last()),
        },
    }
}

/// Stops the current entry of `tasks` at `now`. The tasks are left as
/// they are where there is none or it has an end already.
pub fn stop_current(tasks: &mut Vec<Task>, now: Timestamp) -> (r: Result<(), TrackError>)
    ensures
        match log_stopped(log_view(old(tasks)@), now@) {
            Ok(next) => r is Ok && log_view(final(tasks)@) == next,
            Err(e) => fails_with(r, e) && log_view(final(tasks)@) == log_view(old(tasks)@),
        },
{
    let ghost log = log_view(tasks@);
    let mut entry = match tasks.pop() {
        Some(e) => e,
        None => {
            return Err(TrackError::EmptyStore);
        },
    };
    let outcome = entry.stop_at(now);
    tasks.push(entry);
    match outcome {
        Ok(()) => {
            assert(log_view(tasks@) =~= log.drop_last().push(log.last().stopped(now@)));
            Ok(())
        },
        Err(e) => {
            assert(log_view(tasks@) =~= log);
            Err(e)
        },
    }
}

/// Takes the current entry of `tasks` up again: its end is cleared,
/// whether or not it had one.
pub fn resume_current(tasks: &mut Vec<Task>) -> (r: Result<(), TrackError>)
    ensures
        match log_resumed(log_view(old(tasks)@)) {
            Ok(next) => r is Ok && log_view(final(tasks)@) == next,
            Err(e) => fails_with(r, e) && log_view(final(tasks)@) == log_view(old(tasks)@),
        },
{
    let ghost log = log_view(tasks@);
    let mut entry = match tasks.pop() {
        Some(e) => e,
        None => {
            return Err(TrackError::EmptyStore);
        },
    };
    entry.continue_task();
    tasks.push(entry);
    assert(log_view(tasks@) =~= log.drop_last().push(log.last().resumed()));
    Ok(())
}

fn commit(tasks: Vec<Task>) -> (r: Result<Change, TrackError>)
    requires
        tasks@.len() > 0,
    ensures
        changes_to(r, log_view(tasks@), log_view(tasks@).last()),
{
    let contents = save_all(&tasks)?;
    let entry = tasks[tasks.len() - 1].clone();
    Ok(Change { contents, entry })
}

/// Starts a task at `now`: a new entry goes behind all others. An empty
/// name is refused before the store is looked at.
pub fn start_at(contents: Option<&str>, task: String, project: Option<String>, now: Timestamp) -> (r: Result<
    Change,
    TrackError,
>)
    ensures
        started(r, text_view(contents), task@, text_of(project), now@),
{
    let entry = Task::started_at(task, project, now)?;
    let mut tasks = load_all(contents)?;
    let ghost log = log_view(tasks@);
    tasks.push(entry);
    assert(log_view(tasks@) =~= log.push(fresh(task@, text_of(project), now@)));
    commit(tasks)
}

/// Starts a task now.
pub fn start(contents: Option<&str>, task: String, project: Option<String>) -> (r: Result<Change, TrackError>)
    ensures
        task@.len() == 0 ==> fails_with(r, TrackError::InvalidInput),
        task@.len() > 0 ==> fails_with(r, TrackError::CorruptStore) || exists|now: Stamp|
            now.wf() && started(r, text_view(contents), task@, text_of(project), now),
{
    if task.as_str().is_empty() {
        return Err(TrackError::InvalidInput);
    }
    match Timestamp::now() {
        Some(now) => start_at(contents, task, project, now),
        None => Err(TrackError::CorruptStore),
    }
}

fn stop_loaded(tasks: Vec<Task>, now: Timestamp) -> (r: Result<Change, TrackError>)
    ensures
        match log_stopped(log_view(tasks@), now@) {
            Err(e) => fails_with(r, e),
            Ok(next) => changes_to(r, next, next.last()),
        },
{
    let mut tasks = tasks;
    stop_current(&mut tasks, now)?;
    assert(log_view(tasks@).len() > 0);
    commit(tasks)
}

/// Stops the current entry at `now`. Nothing changes where the store is
/// empty or the entry has an end already.
pub fn stop_at(contents: Option<&str>, now: Timestamp) -> (r: Result<Change, TrackError>)
    ensures
        stopped(r, text_view(contents), now@),
{
    let tasks = load_all(contents)?;
    stop_loaded(tasks, now)
}

/// Stops the current entry now. The store is looked at first: one that
/// does not load, one without entries and one whose current entry has an
/// end give their errors whatever the clock says. The clock is read only
/// for an entry in progress.
pub fn stop(contents: Option<&str>) -> (r: Result<Change, TrackError>)
    ensures
        match loaded(text_view(contents)) {
            Err(e) => fails_with(r, e),
            Ok(log) => if log.len() == 0 {
                fails_with(r, TrackError::EmptyStore)
            } else if !log.last().in_progress() {
                fails_with(r, TrackError::AlreadyStopped)
            } else {
                fails_with(r, TrackError::CorruptStore) || exists|now: Stamp|
                    now.wf() && stopped(r, text_view(contents), now)
            },
        },
{
    let tasks = load_all(contents)?;
    if tasks.len() == 0 {
        return Err(TrackError::EmptyStore);
    }
    if !tasks[tasks.len() - 1].in_progress() {
        return Err(TrackError::AlreadyStopped);
    }
    match Timestamp::now() {
        Some(now) => {
            let ghost stamp = now@;
            let r = stop_loaded(tasks, now);
            assert(stamp.wf() && stopped(r, text_view(contents), stamp));
            r
        },
        None => Err(TrackError::CorruptStore),
    }
}

/// Takes the current entry up again: its end is cleared, whether or not
/// it had one.
pub fn resume(contents: Option<&str>) -> (r: Result<Change, TrackError>)
    ensures
        resumed(r, text_view(contents)),
{
    let mut tasks = load_all(contents)?;
    resume_current(&mut tasks)?;
    assert(log_view(tasks@).len() > 0);
    commit(tasks)
}

/// The entry being worked on: the current one, where it is in progress.
pub fn status(contents: Option<&str>) -> (r: Result<Option<Task>, TrackError>)
    ensures
        match loaded(text_view(contents)) {
            Err(e) => fails_with(r, e),
            Ok(log) => r matches Ok(entry) && view_of(entry) == match current(log) {
                Some(last) => if last.in_progress() {
                    Some(last)
                } else {
                    None
                },
                None => None,
            },
        },
{
    let mut tasks = load_all(contents)?;
    match tasks.pop() {
        Some(entry) => if entry.in_progress() {
            Ok(Some(entry))
        } else {
            Ok(None)
        },
        None => Ok(None),
    }
}

} // verus!
