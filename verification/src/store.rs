//! The log of entries as the text of one file: a header row, then one
//! record per entry, oldest first. The last entry is the current one.

use crate::error::TrackError;
use crate::record::{entry_of, from_record, record_of, storable, to_record};
use crate::task::{Task, TaskView};
use vstd::prelude::*;
use vstd::string::StringExecFns;

verus! {

/// The rows that the `csv` crate reads out of `text` without treating the
/// first row as a header, or nothing where it reports an error.
pub uninterp spec fn csv_rows(text: Seq<char>) -> Option<Seq<Seq<Seq<char>>>>;

/// The text that the `csv` crate writes for `rows`, or nothing where it
/// reports an error.
pub uninterp spec fn csv_text(rows: Seq<Seq<Seq<char>>>) -> Option<Seq<char>>;

/// Reads `text` with a `csv::Reader` built by `csv::ReaderBuilder` with
/// headers switched off, and collects what its `records` hands out.
/// Claimed: the outcome is a function of the text alone.
#[verifier::external_body]
fn read_csv(text: &str) -> (r: Option<Vec<Vec<String>>>)
    ensures
        match r {
            Some(rows) => csv_rows(text@) == Some(rows.deep_view()),
            None => csv_rows(text@) is None,
        },
{
    let mut reader = csv::ReaderBuilder::new().has_headers(false).from_reader(text.as_bytes());
    let mut rows: Vec<Vec<String>> = Vec::new();
    for record in reader.records() {
        match record {
            Ok(fields) => rows.push(fields.iter().map(String::from).collect()),
            Err(_) => return None,
        }
    }
    Some(rows)
}

/// Writes `rows` with `csv::Writer::write_record` into memory and takes
/// the text out with `into_inner`. Claimed: the outcome is a function of
/// the rows alone.
#[verifier::external_body]
fn write_csv(rows: &Vec<Vec<String>>) -> (r: Option<String>)
    ensures
        match r {
            Some(text) => csv_text(rows.deep_view()) == Some(text@),
            None => csv_text(rows.deep_view()) is None,
        },
{
    let mut writer = csv::Writer::from_writer(Vec::new());
    for row in rows.iter() {
        if writer.write_record(row).is_err() {
            return None;
        }
    }
    match writer.into_inner() {
        Ok(bytes) => String::from_utf8(bytes).ok(),
        Err(_) => None,
    }
}

/// The names of the four columns.
pub open spec fn header() -> Seq<Seq<char>> {
    seq!["task"@, "project"@, "start"@, "end"@]
}

/// What a vector of entries is: the sequence of what each is.
pub open spec fn log_view(tasks: Seq<Task>) -> Seq<TaskView> {
    Seq::new(tasks.len(), |i: int| tasks[i]@)
}

/// The rows that hold `log`: none for an empty log, else the header and
/// one record per entry, in order.
pub open spec fn rows_of(log: Seq<TaskView>) -> Seq<Seq<Seq<char>>> {
    if log.len() == 0 {
        Seq::empty()
    } else {
        Seq::new(log.len() + 1, |i: int| if i == 0 { header() } else { record_of(log[i - 1]) })
    }
}

/// Every row after the first holds an entry.
pub open spec fn readable(rows: Seq<Seq<Seq<char>>>) -> bool {
    forall|i: int| 1 <= i < rows.len() ==> entry_of(#[trigger] rows[i]) is Some
}

/// The log that `rows` hold, or nothing where the first row is not the
/// header or a later row holds no entry.
pub open spec fn log_of(rows: Seq<Seq<Seq<char>>>) -> Option<Seq<TaskView>> {
    if rows.len() == 0 {
        Some(Seq::empty())
    } else if rows[0] != header() || !readable(rows) {
        None
    } else {
        Some(Seq::new((rows.len() - 1) as nat, |i: int| entry_of(rows[i + 1]).unwrap()))
    }
}

/// The log kept in a store with the given contents; a store that does not
/// exist yet has none and keeps the empty log.
pub open spec fn loaded(contents: Option<Seq<char>>) -> Result<Seq<TaskView>, TrackError> {
    match contents {
        None => Ok(Seq::empty()),
        Some(text) => match csv_rows(text) {
            None => Err(TrackError::CorruptStore),
            Some(rows) => match log_of(rows) {
                None => Err(TrackError::CorruptStore),
                Some(log) => Ok(log),
            },
        },
    }
}

/// The contents that keep `log`: the text written for its rows, provided
/// that the same rows are read back from it.
pub open spec fn saved(log: Seq<TaskView>) -> Result<Seq<char>, TrackError> {
    match csv_text(rows_of(log)) {
        None => Err(TrackError::IOFailure),
        Some(text) => if csv_rows(text) == Some(rows_of(log)) {
            Ok(text)
        } else {
            Err(TrackError::IOFailure)
        },
    }
}

/// Every entry of the log can be held by a record as it is.
pub open spec fn all_storable(log: Seq<TaskView>) -> bool {
    forall|i: int| 0 <= i < log.len() ==> storable(#[trigger] log[i])
}

/// The rows written for a log hold that log.
pub proof fn lemma_rows_round_trip(log: Seq<TaskView>)
    requires
        all_storable(log),
    ensures
        log_of(rows_of(log)) == Some(log),
{
    let rows = rows_of(log);
    if log.len() > 0 {
        assert forall|i: int| 1 <= i < rows.len() implies entry_of(#[trigger] rows[i]) == Some(
            log[i - 1],
        ) by {
            crate::record::lemma_record_round_trip(log[i - 1]);
        }
        assert(log_of(rows).unwrap() =~= log);
    } else {
        assert(log =~= Seq::empty());
    }
}

/// Contents that were saved for a log load as that log, entry for entry
/// and in the same order.
pub proof fn lemma_save_then_load(log: Seq<TaskView>, text: Seq<char>)
    requires
        all_storable(log),
        saved(log) == Ok::<Seq<char>, TrackError>(text),
    ensures
        loaded(Some(text)) == Ok::<Seq<TaskView>, TrackError>(log),
{
    lemma_rows_round_trip(log);
}

fn header_row() -> (row: Vec<String>)
    ensures
        row.deep_view() == header(),
{
    let mut row: Vec<String> = Vec::new();
    row.push(String::from_str("task"));
    row.push(String::from_str("project"));
    row.push(String::from_str("start"));
    row.push(String::from_str("end"));
    assert(row.deep_view() =~= header());
    row
}

fn same_fields(a: &Vec<String>, b: &Vec<String>) -> (same: bool)
    ensures
        same == (a.deep_view() == b.deep_view()),
{
    if a.len() != b.len() {
        assert(a.deep_view().len() != b.deep_view().len());
        return false;
    }
    let mut i: usize = 0;
    while i < a.len()
        invariant
            i <= a.len(),
            a.len() == b.len(),
            forall|j: int| 0 <= j < i ==> a@[j]@ == b@[j]@,
        decreases a.len() - i,
    {
        if a[i] != b[i] {
            assert(a.deep_view()[i as int] == a@[i as int]@);
            assert(b.deep_view()[i as int] == b@[i as int]@);
            return false;
        }
        i += 1;
    }
    assert(a.deep_view() =~= b.deep_view());
    true
}

fn same_rows(a: &Vec<Vec<String>>, b: &Vec<Vec<String>>) -> (same: bool)
    ensures
        same == (a.deep_view() == b.deep_view()),
{
    if a.len() != b.len() {
        assert(a.deep_view().len() != b.deep_view().len());
        return false;
    }
    let mut i: usize = 0;
    while i < a.len()
        invariant
            i <= a.len(),
            a.len() == b.len(),
            forall|j: int| 0 <= j < i ==> a@[j].deep_view() == b@[j].deep_view(),
        decreases a.len() - i,
    {
        if !same_fields(&a[i], &b[i]) {
            assert(a.deep_view()[i as int] == a@[i as int].deep_view());
            assert(b.deep_view()[i as int] == b@[i as int].deep_view());
            return false;
        }
        i += 1;
    }
    assert(a.deep_view() =~= b.deep_view());
    true
}

/// The rows that hold `tasks`.
pub fn encode_log(tasks: &Vec<Task>) -> (rows: Vec<Vec<String>>)
    ensures
        rows.deep_view() == rows_of(log_view(tasks@)),
{
    let mut rows: Vec<Vec<String>> = Vec::new();
    if tasks.len() == 0 {
        assert(rows.deep_view() =~= rows_of(log_view(tasks@)));
        return rows;
    }
    rows.push(header_row());
    let mut i: usize = 0;
    while i < tasks.len()
        invariant
            i <= tasks.len(),
            rows.len() == i + 1,
            rows@[0].deep_view() == header(),
            forall|j: int| 0 <= j < i ==> rows@[j + 1].deep_view() == record_of(#[trigger] tasks@[j]@),
        decreases tasks.len() - i,
    {
        rows.push(to_record(&tasks[i]));
        i += 1;
    }
    assert(rows.deep_view() =~= rows_of(log_view(tasks@)));
    rows
}

/// Reads the log out of its rows.
pub fn decode_log(rows: &Vec<Vec<String>>) -> (r: Result<Vec<Task>, TrackError>)
    ensures
        match log_of(rows.deep_view()) {
            Some(log) => r matches Ok(tasks) && log_view(tasks@) == log,
            None => r matches Err(e) && e == TrackError::CorruptStore,
        },
{
    let mut tasks: Vec<Task> = Vec::new();
    let ghost view = rows.deep_view();
    if rows.len() == 0 {
        assert(log_view(tasks@) =~= Seq::empty());
        return Ok(tasks);
    }
    assert(view[0] == rows@[0].deep_view());
    let expected = header_row();
    if !same_fields(&rows[0], &expected) {
        return Err(TrackError::CorruptStore);
    }
    let mut i: usize = 1;
    while i < rows.len()
        invariant
            1 <= i <= rows.len(),
            view == rows.deep_view(),
            tasks.len() == i - 1,
            forall|j: int| 1 <= j < i ==> entry_of(#[trigger] view[j]) == Some(tasks@[j - 1]@),
        decreases rows.len() - i,
    {
        assert(view[i as int] == rows@[i as int].deep_view());
        match from_record(&rows[i]) {
            Ok(task) => {
                tasks.push(task);
            },
            Err(_) => {
                assert(entry_of(view[i as int]) is None);
                return Err(TrackError::CorruptStore);
            },
        }
        i += 1;
    }
    assert(readable(view));
    assert(log_view(tasks@) =~= log_of(view).unwrap());
    Ok(tasks)
}

/// Loads every entry of the store, oldest first. `contents` is the text
/// of the backing file, or nothing where the file does not exist yet:
/// that store is empty, which is no error.
pub fn load_all(contents: Option<&str>) -> (r: Result<Vec<Task>, TrackError>)
    ensures
        match loaded(text_view(contents)) {
            Ok(log) => r matches Ok(tasks) && log_view(tasks@) == log,
            Err(e) => r matches Err(f) && f == e,
        },
        contents is None ==> (r matches Ok(tasks) && tasks@.len() == 0),
{
    match contents {
        None => {
            let tasks: Vec<Task> = Vec::new();
            assert(log_view(tasks@) =~= Seq::empty());
            Ok(tasks)
        },
        Some(text) => match read_csv(text) {
            None => Err(TrackError::CorruptStore),
            Some(rows) => decode_log(&rows),
        },
    }
}

/// The text of optional contents.
pub open spec fn text_view(contents: Option<&str>) -> Option<Seq<char>> {
    match contents {
        Some(t) => Some(t@),
        None => None,
    }
}

/// The last entry of a log, if it has one.
pub open spec fn current(log: Seq<TaskView>) -> Option<TaskView> {
    if log.len() == 0 {
        None
    } else {
        Some(log.last())
    }
}

/// Loads the current entry: the last of the store, or nothing where the
/// store is empty.
pub fn load_last(contents: Option<&str>) -> (r: Result<Option<Task>, TrackError>)
    ensures
        match loaded(text_view(contents)) {
            Ok(log) => r matches Ok(last) && crate::task::view_of(last) == current(log),
            Err(e) => r matches Err(f) && f == e,
        },
{
    let mut tasks = load_all(contents)?;
    Ok(tasks.pop())
}

/// The new contents of the store for `tasks`, in the order given; they
/// replace whatever the store held. Text from which the same rows would
/// not be read back is not handed out.
pub fn save_all(tasks: &Vec<Task>) -> (r: Result<String, TrackError>)
    ensures
        match saved(log_view(tasks@)) {
            Ok(text) => r matches Ok(t) && t@ == text,
            Err(e) => r matches Err(f) && f == e,
        },
{
    let rows = encode_log(tasks);
    match write_csv(&rows) {
        None => Err(TrackError::IOFailure),
        Some(text) => match read_csv(text.as_str()) {
            None => Err(TrackError::IOFailure),
            Some(back) => if same_rows(&back, &rows) {
                Ok(text)
            } else {
                Err(TrackError::IOFailure)
            },
        },
    }
}

/// The contents after `entry` is added behind all that the store holds.
pub fn append(contents: Option<&str>, entry: Task) -> (r: Result<String, TrackError>)
    ensures
        match loaded(text_view(contents)) {
            Ok(log) => match saved(log.push(entry@)) {
                Ok(text) => r matches Ok(t) && t@ == text,
                Err(e) => r matches Err(f) && f == e,
            },
            Err(e) => r matches Err(f) && f == e,
        },
{
    let mut tasks = load_all(contents)?;
    let ghost log = log_view(tasks@);
    tasks.push(entry);
    assert(log_view(tasks@) =~= log.push(entry@));
    save_all(&tasks)
}

/// The contents after `entry` takes the place of the current entry. A
/// store without entries has none to replace.
pub fn replace_last(contents: Option<&str>, entry: Task) -> (r: Result<String, TrackError>)
    ensures
        match loaded(text_view(contents)) {
            Ok(log) => if log.len() == 0 {
                r matches Err(f) && f == TrackError::EmptyStore
            } else {
                match saved(log.drop_last().push(entry@)) {
                    Ok(text) => r matches Ok(t) && t@ == text,
                    Err(e) => r matches Err(f) && f == e,
                }
            },
            Err(e) => r matches Err(f) && f == e,
        },
{
    let mut tasks = load_all(contents)?;
    let ghost log = log_view(tasks@);
    if tasks.len() == 0 {
        return Err(TrackError::EmptyStore);
    }
    tasks.pop();
    tasks.push(entry);
    assert(log_view(tasks@) =~= log.drop_last().push(entry@));
    save_all(&tasks)
}

} // verus!
