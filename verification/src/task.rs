//! One task entry and its transitions: started, stopped, continued.

use crate::clock::{elapsed_seconds, lemma_span_monotonic, span_seconds, Instant, Stamp, Timestamp};
use crate::error::TrackError;
use crate::text::{duration_text, format_duration, json_object, json_object_text, json_quoted, quote_json};
use vstd::prelude::*;
use vstd::string::StringExecFns;

verus! {

/// One recorded work session.
#[derive(Debug)]
pub struct Task {
    /// What is being worked on.
    pub task: String,
    /// The group the task belongs to, if any.
    pub project: Option<String>,
    /// When the session began.
    pub start: Timestamp,
    /// When it was stopped; absent while it is in progress.
    pub end: Option<Timestamp>,
}

/// What a `Task` is.
pub struct TaskView {
    pub task: Seq<char>,
    pub project: Option<Seq<char>>,
    pub start: Stamp,
    pub end: Option<Stamp>,
}

/// The text of an optional string.
pub open spec fn text_of(s: Option<String>) -> Option<Seq<char>> {
    match s {
        Some(t) => Some(t@),
        None => None,
    }
}

/// The content of an optional timestamp.
pub open spec fn stamp_of(s: Option<Timestamp>) -> Option<Stamp> {
    match s {
        Some(t) => Some(t@),
        None => None,
    }
}

/// The content of an optional entry.
pub open spec fn view_of(entry: Option<Task>) -> Option<TaskView> {
    match entry {
        Some(t) => Some(t@),
        None => None,
    }
}

impl View for Task {
    type V = TaskView;

    open spec fn view(&self) -> TaskView {
        TaskView {
            task: self.task@,
            project: text_of(self.project),
            start: self.start@,
            end: stamp_of(self.end),
        }
    }
}

impl TaskView {
    /// Both timestamps read as what they say.
    pub open spec fn wf(self) -> bool {
        &&& self.start.wf()
        &&& self.end matches Some(e) ==> e.wf()
    }

    /// No end has been recorded.
    pub open spec fn in_progress(self) -> bool {
        self.end is None
    }

    /// Seconds worked: up to the end where there is one, else up to `now`.
    pub open spec fn duration(self, now: Instant) -> int {
        match self.end {
            Some(e) => span_seconds(self.start.at, e.at),
            None => span_seconds(self.start.at, now),
        }
    }

    /// The entry with its end set to `now`.
    pub open spec fn stopped(self, now: Stamp) -> TaskView {
        TaskView { end: Some(now), ..self }
    }

    /// The entry with its end cleared.
    pub open spec fn resumed(self) -> TaskView {
        TaskView { end: None, ..self }
    }

    /// The entry as a JSON object of its four fields, an absent one as
    /// `null`; nothing where a field cannot be written.
    pub open spec fn json(self) -> Option<Seq<char>> {
        match (
            json_quoted(self.task),
            json_or_null(self.project),
            json_quoted(self.start.text),
            json_or_null(
                match self.end {
                    Some(e) => Some(e.text),
                    None => None,
                },
            ),
        ) {
            (Some(task), Some(project), Some(start), Some(end)) => Some(json_object_text(task, project, start, end)),
            _ => None,
        }
    }
}

/// An optional text as a JSON value.
pub open spec fn json_or_null(text: Option<Seq<char>>) -> Option<Seq<char>> {
    match text {
        Some(t) => json_quoted(t),
        None => Some("null"@),
    }
}

/// The starting state of an entry: named, begun at `start`, not ended.
pub open spec fn fresh(task: Seq<char>, project: Option<Seq<char>>, start: Stamp) -> TaskView {
    TaskView { task, project, start, end: None }
}

fn quote_or_null(text: Option<&str>) -> (r: Option<String>)
    ensures
        text_of(r) == json_or_null(
            match text {
                Some(t) => Some(t@),
                None => None,
            },
        ),
{
    match text {
        Some(t) => quote_json(t),
        None => Some(String::from_str("null")),
    }
}

impl Clone for Task {
    fn clone(&self) -> (r: Self)
        ensures
            r@ == self@,
    {
        Task {
            task: self.task.clone(),
            project: match &self.project {
                Some(p) => Some(p.clone()),
                None => None,
            },
            start: self.start.clone(),
            end: match &self.end {
                Some(e) => Some(e.clone()),
                None => None,
            },
        }
    }
}

impl Task {
    /// A new entry that begins at `start`. An empty name is refused.
    pub fn started_at(task: String, project: Option<String>, start: Timestamp) -> (r: Result<Task, TrackError>)
        ensures
            task@.len() == 0 <==> r is Err,
            r matches Err(e) ==> e == TrackError::InvalidInput,
            r matches Ok(t) ==> t@ == fresh(task@, text_of(project), start@) && t@.in_progress(),
    {
        if task.as_str().is_empty() {
            return Err(TrackError::InvalidInput);
        }
        Ok(Task { task, project, start, end: None })
    }

    /// A new entry that begins now. An empty name is refused; where the
    /// name is good, the only failure left is a clock that cannot be read
    /// or whose text does not read back as a timestamp.
    pub fn new(task: String, project: Option<String>) -> (r: Result<Task, TrackError>)
        ensures
            task@.len() == 0 <==> (r matches Err(e) && e == TrackError::InvalidInput),
            r matches Err(e) ==> e == TrackError::InvalidInput || e == TrackError::CorruptStore,
            r matches Ok(t) ==> {
                &&& t@.task == task@
                &&& t@.project == text_of(project)
                &&& t@.in_progress()
                &&& t@.wf()
            },
    {
        if task.as_str().is_empty() {
            return Err(TrackError::InvalidInput);
        }
        match Timestamp::now() {
            Some(start) => Task::started_at(task, project, start),
            None => Err(TrackError::CorruptStore),
        }
    }

    /// The instant at which the entry began.
    pub fn start_date(&self) -> (r: Instant)
        ensures
            r == self@.start.at,
            self@.start.wf(),
    {
        self.start.instant()
    }

    /// The instant at which the entry was stopped, if it was.
    pub fn end_date(&self) -> (r: Option<Instant>)
        ensures
            r == match self@.end {
                Some(e) => Some(e.at),
                None => None,
            },
            self@.wf(),
    {
        let _ = self.start.instant();
        match &self.end {
            Some(e) => Some(e.instant()),
            None => None,
        }
    }

    /// Seconds worked on the entry as seen at `now`.
    pub fn duration_at(&self, now: Instant) -> (r: i64)
        ensures
            r == self@.duration(now),
            r >= 0,
    {
        match &self.end {
            Some(e) => elapsed_seconds(self.start.instant(), e.instant()),
            None => elapsed_seconds(self.start.instant(), now),
        }
    }

    /// Seconds worked on the entry, up to this moment where it is still in
    /// progress. The clock is read only for an entry in progress; where it
    /// cannot be read, nothing comes back.
    pub fn duration(&self) -> (r: Option<i64>)
        ensures
            self@.end matches Some(e) ==> (r matches Some(d) && d == span_seconds(self@.start.at, e.at)),
            r matches Some(d) ==> d >= 0 && exists|now: Instant| d == self@.duration(now),
    {
        match &self.end {
            Some(_) => {
                let at = self.start.instant();
                let d = self.duration_at(at);
                assert(d == self@.duration(at));
                Some(d)
            },
            None => match Instant::now() {
                Some(now) => {
                    let d = self.duration_at(now);
                    assert(d == self@.duration(now));
                    Some(d)
                },
                None => None,
            },
        }
    }

    /// The duration seen at `now`, as hours, minutes and seconds.
    pub fn duration_str_at(&self, now: Instant) -> (r: String)
        ensures
            r@ == duration_text(self@.duration(now)),
    {
        format_duration(self.duration_at(now))
    }

    /// The duration up to this moment, as hours, minutes and seconds.
    /// The clock is read only for an entry in progress; where it cannot be
    /// read, nothing comes back.
    pub fn duration_str(&self) -> (r: Option<String>)
        ensures
            self@.end matches Some(e) ==> (r matches Some(s) && s@ == duration_text(
                span_seconds(self@.start.at, e.at),
            )),
            r matches Some(s) ==> exists|now: Instant| s@ == duration_text(self@.duration(now)),
    {
        match self.duration() {
            Some(d) => {
                let s = format_duration(d);
                let ghost now = choose|now: Instant| d == self@.duration(now);
                assert(s@ == duration_text(self@.duration(now)));
                Some(s)
            },
            None => None,
        }
    }

    /// Whether the entry has no end yet.
    pub fn in_progress(&self) -> (r: bool)
        ensures
            r == self@.in_progress(),
    {
        self.end.is_none()
    }

    /// Clears the end, whether or not one was set.
    pub fn continue_task(&mut self)
        ensures
            final(self)@ == old(self)@.resumed(),
            final(self)@.in_progress(),
    {
        self.end = None;
    }

    /// Ends the entry at `now`. An entry that has an end is left as it is.
    pub fn stop_at(&mut self, now: Timestamp) -> (r: Result<(), TrackError>)
        ensures
            old(self)@.in_progress() <==> r is Ok,
            r is Ok ==> final(self)@ == old(self)@.stopped(now@),
            r matches Err(e) ==> e == TrackError::AlreadyStopped && final(self)@ == old(self)@,
    {
        if self.end.is_some() {
            return Err(TrackError::AlreadyStopped);
        }
        self.end = Some(now);
        Ok(())
    }

    /// Ends the entry now. An entry that has an end is left as it is, and
    /// the clock is not asked; one in progress is left as it is only where
    /// the clock cannot be read or its text does not read back.
    pub fn stop_task(&mut self) -> (r: Result<(), TrackError>)
        ensures
            !old(self)@.in_progress() <==> (r matches Err(e) && e == TrackError::AlreadyStopped),
            r matches Err(e) ==> final(self)@ == old(self)@ && (e == TrackError::AlreadyStopped || e
                == TrackError::CorruptStore),
            r is Ok ==> exists|now: Stamp| now.wf() && final(self)@ == old(self)@.stopped(now),
    {
        if self.end.is_some() {
            return Err(TrackError::AlreadyStopped);
        }
        match Timestamp::now() {
            Some(now) => {
                let ghost stamp = now@;
                let r = self.stop_at(now);
                assert(stamp.wf() && self@ == old(self)@.stopped(stamp));
                r
            },
            None => Err(TrackError::CorruptStore),
        }
    }

    /// The entry as a JSON object, or nothing where a field cannot be
    /// written.
    pub fn to_json(&self) -> (r: Option<String>)
        ensures
            text_of(r) == self@.json(),
    {
        let task = quote_json(self.task.as_str());
        let project = quote_or_null(
            match &self.project {
                Some(p) => Some(p.as_str()),
                None => None,
            },
        );
        let start = quote_json(self.start.as_str());
        let end = quote_or_null(
            match &self.end {
                Some(e) => Some(e.as_str()),
                None => None,
            },
        );
        match (task, project, start, end) {
            (Some(t), Some(p), Some(s), Some(e)) => Some(json_object(t.as_str(), p.as_str(), s.as_str(), e.as_str())),
            _ => None,
        }
    }
}

/// Stopping an entry and then continuing it leaves it in progress, with
/// the name, the project and the start it had.
pub proof fn lemma_stop_then_continue(entry: TaskView, now: Stamp)
    ensures
        entry.stopped(now).resumed().in_progress(),
        entry.stopped(now).resumed().start == entry.start,
        entry.stopped(now).resumed().task == entry.task,
        entry.stopped(now).resumed().project == entry.project,
        entry.in_progress() ==> entry.stopped(now).resumed() == entry,
{
}

/// While an entry is in progress its duration never shrinks as the moment
/// of asking moves on, and it is never negative.
pub proof fn lemma_duration_monotonic(entry: TaskView, earlier: Instant, later: Instant)
    requires
        earlier.at_or_before(later),
    ensures
        0 <= entry.duration(earlier) <= entry.duration(later),
{
    lemma_span_monotonic(entry.start.at, earlier, later);
}

/// Once an entry has an end, its duration is the same whenever it is
/// asked for.
pub proof fn lemma_duration_fixed(entry: TaskView, one: Instant, other: Instant)
    requires
        !entry.in_progress(),
    ensures
        entry.duration(one) == entry.duration(other),
{
}

} // verus!
