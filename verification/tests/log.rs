use rtracker::clock::Timestamp;
use rtracker::command::{resume, resume_current, start, start_at, status, stop, stop_at, stop_current};
use rtracker::error::TrackError;
use rtracker::report::{read_bound, report, select, DAY_END, DAY_START};
use rtracker::store::{append, decode_log, encode_log, load_all, load_last, replace_last, save_all};
use rtracker::task::Task;
use rtracker::clock::Instant;

const T0: &str = "2024-01-01T10:00:00+00:00";
const T1: &str = "2024-01-01T10:00:42+00:00";

fn stamp(text: &str) -> Timestamp {
    Timestamp::parse(text.to_string()).unwrap()
}

fn entry(name: &str, project: Option<&str>, start: &str, end: Option<&str>) -> Task {
    let mut t = Task::started_at(name.to_string(), project.map(String::from), stamp(start)).unwrap();
    if let Some(e) = end {
        t.stop_at(stamp(e)).unwrap();
    }
    t
}

fn same(a: &Task, b: &Task) -> bool {
    a.task == b.task
        && a.project == b.project
        && a.start.as_str() == b.start.as_str()
        && a.start_date() == b.start_date()
        && a.end.as_ref().map(|e| e.as_str()) == b.end.as_ref().map(|e| e.as_str())
        && a.end_date() == b.end_date()
}

fn sample() -> Vec<Task> {
    vec![
        entry("first", Some("alpha"), "2023-12-31T23:59:59.999999999+00:00", Some("2024-01-01T00:30:00+00:00")),
        entry("second, with \"quotes\"", None, T0, Some(T1)),
        entry("third\nline", Some("beta"), "2024-01-31T23:59:59.5+00:00", None),
    ]
}

#[test]
fn load_all_of_a_missing_store_is_empty() {
    assert!(load_all(None).unwrap().is_empty());
    assert!(load_last(None).unwrap().is_none());
}

#[test]
fn load_all_of_an_empty_file_is_empty() {
    assert!(load_all(Some("")).unwrap().is_empty());
    assert!(load_all(Some("task,project,start,end\n")).unwrap().is_empty());
}

#[test]
fn load_all_reads_the_rows_in_order() {
    let text = "task,project,start,end\nwrite spec,rtracker,2024-01-01T10:00:00.123456789+00:00,\nrest,,2024-01-01T11:00:00+00:00,2024-01-01T11:30:00+00:00\n";
    let tasks = load_all(Some(text)).unwrap();
    assert_eq!(tasks.len(), 2);
    assert_eq!(tasks[0].task, "write spec");
    assert_eq!(tasks[0].project.as_deref(), Some("rtracker"));
    assert_eq!(tasks[0].start.as_str(), "2024-01-01T10:00:00.123456789+00:00");
    assert_eq!(tasks[0].start_date(), Instant { secs: 1_704_103_200, nanos: 123_456_789 });
    assert!(tasks[0].in_progress());
    assert_eq!(tasks[1].task, "rest");
    assert_eq!(tasks[1].project, None);
    assert_eq!(tasks[1].duration(), Some(1800));
    let last = load_last(Some(text)).unwrap().unwrap();
    assert!(same(&last, &tasks[1]));
}

#[test]
fn load_all_refuses_a_corrupt_store() {
    let bad_header = "name,project,start,end\na,,2024-01-01T10:00:00+00:00,\n";
    assert_eq!(load_all(Some(bad_header)).unwrap_err(), TrackError::CorruptStore);
    let bad_start = "task,project,start,end\na,,soon,\n";
    assert_eq!(load_all(Some(bad_start)).unwrap_err(), TrackError::CorruptStore);
    let bad_end = "task,project,start,end\na,,2024-01-01T10:00:00+00:00,later\n";
    assert_eq!(load_all(Some(bad_end)).unwrap_err(), TrackError::CorruptStore);
    let short_row = "task,project,start,end\na,,2024-01-01T10:00:00+00:00\n";
    assert_eq!(load_all(Some(short_row)).unwrap_err(), TrackError::CorruptStore);
    let three_columns = "task,project,start\na,,2024-01-01T10:00:00+00:00\n";
    assert_eq!(load_all(Some(three_columns)).unwrap_err(), TrackError::CorruptStore);
    assert_eq!(load_last(Some(bad_start)).unwrap_err(), TrackError::CorruptStore);
    assert_eq!(status(Some(bad_start)).unwrap_err(), TrackError::CorruptStore);
}

#[test]
fn save_all_writes_header_and_rows() {
    assert_eq!(save_all(&Vec::new()).unwrap(), "");
    let tasks = vec![entry("write spec", Some("rtracker"), T0, None), entry("a,b", None, T0, Some(T1))];
    assert_eq!(
        save_all(&tasks).unwrap(),
        "task,project,start,end\nwrite spec,rtracker,2024-01-01T10:00:00+00:00,\n\"a,b\",,2024-01-01T10:00:00+00:00,2024-01-01T10:00:42+00:00\n"
    );
}

#[test]
fn save_then_load_returns_what_was_written() {
    let tasks = sample();
    let text = save_all(&tasks).unwrap();
    let back = load_all(Some(&text)).unwrap();
    assert_eq!(back.len(), tasks.len());
    for (a, b) in tasks.iter().zip(back.iter()) {
        assert!(same(a, b));
    }
    assert_eq!(save_all(&back).unwrap(), text);
}

#[test]
fn rows_round_trip() {
    let tasks = sample();
    let rows = encode_log(&tasks);
    assert_eq!(rows.len(), 4);
    assert_eq!(rows[0], vec!["task", "project", "start", "end"]);
    assert_eq!(rows[2][0], "second, with \"quotes\"");
    let back = decode_log(&rows).unwrap();
    assert_eq!(back.len(), 3);
    for (a, b) in tasks.iter().zip(back.iter()) {
        assert!(same(a, b));
    }
    assert!(encode_log(&Vec::new()).is_empty());
    assert!(decode_log(&Vec::new()).unwrap().is_empty());
    let mut wrong = rows.clone();
    wrong[0][3] = "stop".to_string();
    assert_eq!(decode_log(&wrong).unwrap_err(), TrackError::CorruptStore);
    let mut broken = rows;
    broken[3][2] = String::new();
    assert_eq!(decode_log(&broken).unwrap_err(), TrackError::CorruptStore);
}

#[test]
fn append_adds_behind_the_others() {
    let one = append(None, entry("a", None, T0, Some(T1))).unwrap();
    let two = append(Some(&one), entry("b", Some("p"), T1, None)).unwrap();
    let tasks = load_all(Some(&two)).unwrap();
    assert_eq!(tasks.len(), 2);
    assert_eq!(tasks[0].task, "a");
    assert_eq!(tasks[1].task, "b");
    assert!(tasks[1].in_progress());
    assert_eq!(append(Some("x,y\n1\n"), entry("c", None, T0, None)).unwrap_err(), TrackError::CorruptStore);
}

#[test]
fn replace_last_changes_only_the_current_entry() {
    let text = save_all(&sample()).unwrap();
    let next = replace_last(Some(&text), entry("new", None, T0, None)).unwrap();
    let tasks = load_all(Some(&next)).unwrap();
    let before = sample();
    assert_eq!(tasks.len(), 3);
    assert!(same(&tasks[0], &before[0]));
    assert!(same(&tasks[1], &before[1]));
    assert_eq!(tasks[2].task, "new");
    assert_eq!(replace_last(None, entry("new", None, T0, None)).unwrap_err(), TrackError::EmptyStore);
    assert_eq!(replace_last(Some(""), entry("new", None, T0, None)).unwrap_err(), TrackError::EmptyStore);
}

#[test]
fn start_stop_continue_scenario() {
    let started = start_at(None, "write spec".to_string(), Some("rtracker".to_string()), stamp(T0)).unwrap();
    assert_eq!(started.contents, "task,project,start,end\nwrite spec,rtracker,2024-01-01T10:00:00+00:00,\n");
    assert!(started.entry.in_progress());
    let rows = load_all(Some(&started.contents)).unwrap();
    assert_eq!(rows.len(), 1);
    assert!(rows[0].end.is_none());

    let running = status(Some(&started.contents)).unwrap().unwrap();
    assert_eq!(
        running.to_json().unwrap(),
        "{\"task\":\"write spec\",\"project\":\"rtracker\",\"start\":\"2024-01-01T10:00:00+00:00\",\"end\":null}"
    );

    let stopped = stop_at(Some(&started.contents), stamp(T1)).unwrap();
    assert_eq!(
        stopped.contents,
        "task,project,start,end\nwrite spec,rtracker,2024-01-01T10:00:00+00:00,2024-01-01T10:00:42+00:00\n"
    );
    assert_eq!(stopped.entry.duration_str().as_deref(), Some("0h 0m 42s"));
    assert!(status(Some(&stopped.contents)).unwrap().is_none());
    assert_eq!(stop_at(Some(&stopped.contents), stamp(T1)).unwrap_err(), TrackError::AlreadyStopped);

    let resumed = resume(Some(&stopped.contents)).unwrap();
    assert_eq!(resumed.contents, started.contents);
    assert!(resumed.entry.in_progress());
    assert_eq!(resumed.entry.start.as_str(), T0);
    let again = resume(Some(&resumed.contents)).unwrap();
    assert_eq!(again.contents, started.contents);
}

#[test]
fn commands_on_an_empty_store() {
    assert_eq!(stop_at(None, stamp(T1)).unwrap_err(), TrackError::EmptyStore);
    assert_eq!(stop(Some("")).unwrap_err(), TrackError::EmptyStore);
    assert_eq!(resume(None).unwrap_err(), TrackError::EmptyStore);
    assert!(status(None).unwrap().is_none());
    assert_eq!(start_at(None, String::new(), None, stamp(T0)).unwrap_err(), TrackError::InvalidInput);
    assert_eq!(start(Some("garbage"), String::new(), None).unwrap_err(), TrackError::InvalidInput);
    assert_eq!(start_at(Some("garbage\n"), "a".to_string(), None, stamp(T0)).unwrap_err(), TrackError::CorruptStore);
}

#[test]
fn commands_touch_only_the_last_entry() {
    let text = save_all(&sample()).unwrap();
    let stopped = stop_at(Some(&text), stamp("2024-02-01T00:00:00+00:00")).unwrap();
    let tasks = load_all(Some(&stopped.contents)).unwrap();
    let before = sample();
    assert_eq!(tasks.len(), 3);
    assert!(same(&tasks[0], &before[0]));
    assert!(same(&tasks[1], &before[1]));
    assert_eq!(tasks[2].task, before[2].task);
    assert_eq!(tasks[2].end.as_ref().unwrap().as_str(), "2024-02-01T00:00:00+00:00");
    let added = start_at(Some(&stopped.contents), "fourth".to_string(), None, stamp("2024-02-02T00:00:00+00:00")).unwrap();
    let tasks = load_all(Some(&added.contents)).unwrap();
    assert_eq!(tasks.len(), 4);
    assert!(same(&tasks[3], &added.entry));
}

#[test]
fn start_and_stop_by_the_clock() {
    let started = start(None, "timed".to_string(), None).unwrap();
    assert!(started.entry.in_progress());
    assert_eq!(load_all(Some(&started.contents)).unwrap().len(), 1);
    let stopped = stop(Some(&started.contents)).unwrap();
    assert!(!stopped.entry.in_progress());
    assert!(stopped.entry.duration_str().unwrap().starts_with("0h 0m "));
    assert_eq!(stop(Some(&stopped.contents)).unwrap_err(), TrackError::AlreadyStopped);
}

#[test]
fn report_keeps_the_entries_that_began_in_the_range() {
    let text = save_all(&sample()).unwrap();
    let all = report(Some(&text), None, None).unwrap();
    assert_eq!(all.len(), 3);
    let january = report(Some(&text), Some("2024-01-01"), Some("2024-01-31")).unwrap();
    assert_eq!(january.len(), 2);
    assert_eq!(january[0].task, "second, with \"quotes\"");
    assert_eq!(january[1].task, "third\nline");
    let first_day = report(Some(&text), Some("2024-01-01"), Some("2024-01-01")).unwrap();
    assert_eq!(first_day.len(), 1);
    let until = report(Some(&text), None, Some("2023-12-31")).unwrap();
    assert_eq!(until.len(), 1);
    assert_eq!(until[0].task, "first");
    let from = report(Some(&text), Some("2024-01-31"), None).unwrap();
    assert_eq!(from.len(), 1);
    assert!(report(Some(&text), Some("2024-02-01"), None).unwrap().is_empty());
    assert!(report(None, Some("2024-01-01"), Some("2024-01-31")).unwrap().is_empty());
}

#[test]
fn report_refuses_a_day_it_cannot_read() {
    assert_eq!(report(None, Some("January"), None).unwrap_err(), TrackError::InvalidInput);
    assert_eq!(report(None, None, Some("2024-02-30")).unwrap_err(), TrackError::InvalidInput);
    assert_eq!(report(Some("garbage"), Some(""), None).unwrap_err(), TrackError::InvalidInput);
    assert_eq!(report(Some("garbage\n"), None, None).unwrap_err(), TrackError::CorruptStore);
}

#[test]
fn day_bounds_are_the_first_and_last_instant() {
    assert_eq!(read_bound(None, DAY_START), Ok(None));
    assert_eq!(
        read_bound(Some("2024-01-01"), DAY_START),
        Ok(Some(Instant { secs: 1_704_067_200, nanos: 0 }))
    );
    assert_eq!(
        read_bound(Some("2024-01-01"), DAY_END),
        Ok(Some(Instant { secs: 1_704_067_200 + 86_399, nanos: 999_999_999 }))
    );
    let tasks = sample();
    let bound = Instant { secs: 1_704_103_200, nanos: 0 };
    assert_eq!(select(&tasks, Some(bound), Some(bound)).len(), 1);
    assert_eq!(select(&tasks, Some(bound), None).len(), 2);
    assert_eq!(select(&tasks, None, Some(bound)).len(), 2);
}

#[test]
fn stop_and_resume_in_memory_keep_the_history() {
    let mut tasks = sample();
    assert_eq!(stop_current(&mut tasks, stamp("2024-02-01T00:00:00+00:00")), Ok(()));
    let before = sample();
    assert_eq!(tasks.len(), 3);
    assert!(same(&tasks[0], &before[0]));
    assert!(same(&tasks[1], &before[1]));
    assert!(!tasks[2].in_progress());
    assert_eq!(stop_current(&mut tasks, stamp("2024-02-02T00:00:00+00:00")), Err(TrackError::AlreadyStopped));
    assert_eq!(tasks[2].end.as_ref().unwrap().as_str(), "2024-02-01T00:00:00+00:00");
    assert_eq!(resume_current(&mut tasks), Ok(()));
    for (a, b) in tasks.iter().zip(before.iter()) {
        assert!(same(a, b));
    }
    let mut none: Vec<Task> = Vec::new();
    assert_eq!(stop_current(&mut none, stamp(T0)), Err(TrackError::EmptyStore));
    assert_eq!(resume_current(&mut none), Err(TrackError::EmptyStore));
    assert!(none.is_empty());
}

#[test]
fn stop_by_the_clock_looks_at_the_store_first() {
    assert_eq!(stop(None).unwrap_err(), TrackError::EmptyStore);
    assert_eq!(stop(Some("garbage\n")).unwrap_err(), TrackError::CorruptStore);
    let ended = save_all(&vec![entry("a", None, T0, Some(T1))]).unwrap();
    assert_eq!(stop(Some(&ended)).unwrap_err(), TrackError::AlreadyStopped);
    let running = save_all(&vec![entry("a", None, T0, Some(T1)), entry("b", None, T1, None)]).unwrap();
    let stopped = stop(Some(&running)).unwrap();
    let tasks = load_all(Some(&stopped.contents)).unwrap();
    assert_eq!(tasks.len(), 2);
    assert_eq!(tasks[0].end.as_ref().unwrap().as_str(), T1);
    assert!(!tasks[1].in_progress());
    assert!(tasks[1].duration().unwrap() > 0);
}
