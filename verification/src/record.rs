//! An entry as one record of the log: four text fields, in the order
//! task, project, start, end. An absent project or end is an empty field.

use crate::clock::{instant_of, Stamp, Timestamp};
use crate::error::TrackError;
use crate::task::{Task, TaskView};
use vstd::prelude::*;
use vstd::string::StringExecFns;

verus! {

/// The field that stands for an optional text.
pub open spec fn field_of(text: Option<Seq<char>>) -> Seq<char> {
    match text {
        Some(t) => t,
        None => Seq::empty(),
    }
}

/// The optional text that a field stands for.
pub open spec fn optional_of(field: Seq<char>) -> Option<Seq<char>> {
    if field.len() == 0 {
        None
    } else {
        Some(field)
    }
}

/// The record that holds `entry`.
pub open spec fn record_of(entry: TaskView) -> Seq<Seq<char>> {
    seq![
        entry.task,
        field_of(entry.project),
        entry.start.text,
        field_of(
            match entry.end {
                Some(e) => Some(e.text),
                None => None,
            },
        ),
    ]
}

/// The entry that `fields` hold, or nothing where they are not four or a
/// timestamp among them cannot be read.
pub open spec fn entry_of(fields: Seq<Seq<char>>) -> Option<TaskView> {
    if fields.len() != 4 {
        None
    } else {
        match instant_of(fields[2]) {
            None => None,
            Some(start) => {
                let begun = TaskView {
                    task: fields[0],
                    project: optional_of(fields[1]),
                    start: Stamp { text: fields[2], at: start },
                    end: None,
                };
                if fields[3].len() == 0 {
                    Some(begun)
                } else {
                    match instant_of(fields[3]) {
                        None => None,
                        Some(end) => Some(begun.stopped(Stamp { text: fields[3], at: end })),
                    }
                }
            },
        }
    }
}

/// An entry that a record can hold as it is: its timestamps read as what
/// they say, and its project, where it has one, is not the empty text
/// (which a record keeps for "no project").
pub open spec fn storable(entry: TaskView) -> bool {
    &&& entry.wf()
    &&& entry.project matches Some(p) ==> p.len() > 0
}

/// Writing an entry into a record and reading the record gives the entry
/// back, field for field, with or without a project and an end.
pub proof fn lemma_record_round_trip(entry: TaskView)
    requires
        storable(entry),
    ensures
        entry_of(record_of(entry)) == Some(entry),
{
    let fields = record_of(entry);
    assert(optional_of(fields[1]) == entry.project);
    match entry.end {
        Some(e) => {
            assert(fields[3] == e.text);
            assert(instant_of(e.text) == Some(e.at));
        },
        None => {},
    }
}

/// The four fields of `entry`.
pub fn to_record(entry: &Task) -> (fields: Vec<String>)
    ensures
        fields.deep_view() == record_of(entry@),
{
    let mut fields: Vec<String> = Vec::new();
    fields.push(entry.task.clone());
    fields.push(
        match &entry.project {
            Some(p) => p.clone(),
            None => String::new(),
        },
    );
    fields.push(String::from_str(entry.start.as_str()));
    fields.push(
        match &entry.end {
            Some(e) => String::from_str(e.as_str()),
            None => String::new(),
        },
    );
    assert(fields.deep_view() =~= record_of(entry@));
    fields
}

/// Reads an entry out of a record. A record that does not have four
/// fields, or whose start or non-empty end is no timestamp, is corrupt.
pub fn from_record(fields: &Vec<String>) -> (r: Result<Task, TrackError>)
    ensures
        match entry_of(fields.deep_view()) {
            Some(entry) => r matches Ok(t) && t@ == entry,
            None => r matches Err(e) && e == TrackError::CorruptStore,
        },
{
    if fields.len() != 4 {
        return Err(TrackError::CorruptStore);
    }
    let ghost view = fields.deep_view();
    assert(view[0] == fields@[0]@ && view[1] == fields@[1]@ && view[2] == fields@[2]@ && view[3]
        == fields@[3]@);
    let start = match Timestamp::parse(fields[2].clone()) {
        Some(s) => s,
        None => {
            return Err(TrackError::CorruptStore);
        },
    };
    let end = if fields[3].as_str().is_empty() {
        None
    } else {
        match Timestamp::parse(fields[3].clone()) {
            Some(e) => Some(e),
            None => {
                return Err(TrackError::CorruptStore);
            },
        }
    };
    let project = if fields[1].as_str().is_empty() {
        None
    } else {
        Some(fields[1].clone())
    };
    Ok(Task { task: fields[0].clone(), project, start, end })
}

} // verus!
