//! Text that the tracker shows: decimal numbers, durations, JSON strings.

use vstd::prelude::*;
use vstd::string::StringExecFns;

verus! {

/// The character of one decimal digit.
pub open spec fn digit_char(d: nat) -> char {
    if d == 0 {
        '0'
    } else if d == 1 {
        '1'
    } else if d == 2 {
        '2'
    } else if d == 3 {
        '3'
    } else if d == 4 {
        '4'
    } else if d == 5 {
        '5'
    } else if d == 6 {
        '6'
    } else if d == 7 {
        '7'
    } else if d == 8 {
        '8'
    } else {
        '9'
    }
}

/// `n` in decimal, without leading zeros.
pub open spec fn decimal(n: nat) -> Seq<char>
    decreases n,
{
    if n < 10 {
        seq![digit_char(n)]
    } else {
        decimal(n / 10).push(digit_char(n % 10))
    }
}

/// A duration as hours, minutes and seconds; a negative one reads as zero.
pub open spec fn duration_text(seconds: int) -> Seq<char> {
    let s: nat = if seconds < 0 { 0 } else { seconds as nat };
    decimal(s / 3600) + seq!['h', ' '] + decimal((s % 3600) / 60) + seq!['m', ' '] + decimal(s % 60) + seq!['s']
}

/// The text of one decimal digit.
fn digit_text(d: u64) -> (t: &'static str)
    requires
        d < 10,
    ensures
        t@ == seq![digit_char(d as nat)],
{
    proof {
        reveal_strlit("0");
        reveal_strlit("1");
        reveal_strlit("2");
        reveal_strlit("3");
        reveal_strlit("4");
        reveal_strlit("5");
        reveal_strlit("6");
        reveal_strlit("7");
        reveal_strlit("8");
        reveal_strlit("9");
    }
    let t = if d == 0 {
        "0"
    } else if d == 1 {
        "1"
    } else if d == 2 {
        "2"
    } else if d == 3 {
        "3"
    } else if d == 4 {
        "4"
    } else if d == 5 {
        "5"
    } else if d == 6 {
        "6"
    } else if d == 7 {
        "7"
    } else if d == 8 {
        "8"
    } else {
        "9"
    };
    assert(t@ =~= seq![digit_char(d as nat)]);
    t
}

/// Appends `n` in decimal to `out`.
pub fn push_decimal(out: &mut String, n: u64)
    ensures
        final(out)@ == old(out)@ + decimal(n as nat),
    decreases n,
{
    if n >= 10 {
        push_decimal(out, n / 10);
    }
    out.append(digit_text(n % 10));
    assert(out@ =~= old(out)@ + decimal(n as nat));
}

/// Writes a number of seconds as `{h}h {m}m {s}s`.
pub fn format_duration(seconds: i64) -> (r: String)
    ensures
        r@ == duration_text(seconds as int),
{
    let s: u64 = if seconds < 0 { 0 } else { seconds as u64 };
    let mut out = String::new();
    proof {
        reveal_strlit("h ");
        reveal_strlit("m ");
        reveal_strlit("s");
    }
    push_decimal(&mut out, s / 3600);
    out.append("h ");
    push_decimal(&mut out, (s % 3600) / 60);
    out.append("m ");
    push_decimal(&mut out, s % 60);
    out.append("s");
    assert("h "@ =~= seq!['h', ' ']);
    assert("m "@ =~= seq!['m', ' ']);
    assert("s"@ =~= seq!['s']);
    assert(out@ =~= duration_text(seconds as int));
    out
}

/// What `serde_json` writes for a string: the text in double quotes, with
/// the characters escaped that JSON does not take as they are; or nothing
/// where it reports an error.
pub uninterp spec fn json_quoted(text: Seq<char>) -> Option<Seq<char>>;

/// Calls `serde_json::to_string` on a string slice. Claimed: the outcome
/// is a function of the text alone.
#[verifier::external_body]
pub(crate) fn quote_json(text: &str) -> (r: Option<String>)
    ensures
        match r {
            Some(q) => json_quoted(text@) == Some(q@),
            None => json_quoted(text@) is None,
        },
{
    match serde_json::to_string(text) {
        Ok(q) => Some(q),
        Err(_) => None,
    }
}

/// A JSON object of the four fields of an entry, each value given as it
/// is to stand in the object.
pub open spec fn json_object_text(task: Seq<char>, project: Seq<char>, start: Seq<char>, end: Seq<char>) -> Seq<
    char,
> {
    "{\"task\":"@ + task + ",\"project\":"@ + project + ",\"start\":"@ + start + ",\"end\":"@ + end + "}"@
}

/// Frames four JSON values as the object of an entry.
pub fn json_object(task: &str, project: &str, start: &str, end: &str) -> (r: String)
    ensures
        r@ == json_object_text(task@, project@, start@, end@),
{
    let mut out = String::new();
    out.append("{\"task\":");
    out.append(task);
    out.append(",\"project\":");
    out.append(project);
    out.append(",\"start\":");
    out.append(start);
    out.append(",\"end\":");
    out.append(end);
    out.append("}");
    assert(out@ =~= json_object_text(task@, project@, start@, end@));
    out
}

} // verus!
