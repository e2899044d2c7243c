use vstd::prelude::*;
use crate::dispatch::starts_with;
use crate::matcher::{literal_at, slice_vec};
use crate::number::{decimal_exec, decimal_of, parse_bounded, parse_unsigned};
use crate::text::{chars_of, string_of};

verus! {

pub open spec fn ends_with(s: Seq<char>, suf: Seq<char>) -> bool {
    suf.len() <= s.len() && s.subrange(s.len() - suf.len(), s.len() as int) == suf
}

/// The index of a log file of day `date`, named `{date}-{index}.log`.
pub open spec fn log_index(name: Seq<char>, date: Seq<char>) -> Option<u32> {
    let pre = date.push('-');
    if starts_with(name, pre) && ends_with(name, ".log"@) && pre.len() + 4 <= name.len() {
        match parse_unsigned(name.subrange(pre.len() as int, name.len() - 4), u32::MAX as nat) {
            Some(n) => Some(n as u32),
            None => None,
        }
    } else {
        None
    }
}

/// The name of log file `index` of day `date`.
pub open spec fn log_name(date: Seq<char>, index: u32) -> Seq<char> {
    date.push('-') + decimal_of(index as nat) + ".log"@
}

fn ends_with_exec(s: &Vec<char>, suf: &Vec<char>) -> (r: bool)
    ensures
        r == ends_with(s@, suf@),
{
    if suf.len() > s.len() {
        return false;
    }
    literal_at(s, s.len() - suf.len(), suf)
}

/// The index of a log file of day `date` from its name, if it is one.
pub fn log_index_of(name: &str, date: &str) -> (r: Option<u32>)
    ensures
        r == log_index(name@, date@),
{
    let n = chars_of(name);
    let mut pre = chars_of(date);
    pre.push('-');
    let suffix = chars_of(".log");
    proof {
        reveal_strlit(".log");
    }
    if literal_at(&n, 0, &pre) && ends_with_exec(&n, &suffix) && pre.len() <= n.len() - 4 {
        let middle = slice_vec(&n, pre.len(), n.len() - 4);
        match parse_bounded(&middle, u32::MAX as u64) {
            Some(n) => Some(n as u32),
            None => None,
        }
    } else {
        None
    }
}

/// The name of log file `index` of day `date`: `{date}-{index}.log`.
pub fn log_file_name(date: &str, index: u32) -> (r: String)
    ensures
        r@ == log_name(date@, index),
{
    let mut v = chars_of(date);
    v.push('-');
    let mut d = decimal_exec(index);
    v.append(&mut d);
    let mut s = chars_of(".log");
    v.append(&mut s);
    string_of(&v)
}

/// A file found in the log directory: its name and, where known, its size.
#[derive(Clone, Debug)]
pub struct LogEntry {
    pub name: String,
    pub size: Option<u64>,
}

/// The file to append to on day `date`, from what the directory holds: the
/// highest index of that day (at least 1) and the size of that file (0 where
/// unknown or absent). Of two files with the same index the later one counts.
pub open spec fn log_state(entries: Seq<(Seq<char>, Option<u64>)>, date: Seq<char>) -> (u32, u64)
    decreases entries.len(),
{
    if entries.len() == 0 {
        (1, 0)
    } else {
        let (idx, size) = log_state(entries.drop_last(), date);
        let e = entries.last();
        match log_index(e.0, date) {
            Some(i) => if i >= idx {
                (
                    i,
                    match e.1 {
                        Some(s) => s,
                        None => size,
                    },
                )
            } else {
                (idx, size)
            },
            None => (idx, size),
        }
    }
}

pub open spec fn entries_view(v: Seq<LogEntry>) -> Seq<(Seq<char>, Option<u64>)> {
    v.map_values(|e: LogEntry| (e.name@, e.size))
}

/// Where logging resumes on day `date`: the index of the file and its size.
pub fn current_log_state(entries: &Vec<LogEntry>, date: &str) -> (r: (u32, u64))
    ensures
        r == log_state(entries_view(entries@), date@),
{
    let ghost ev = entries_view(entries@);
    let mut idx: u32 = 1;
    let mut size: u64 = 0;
    let mut k: usize = 0;
    while k < entries.len()
        invariant
            k <= entries@.len(),
            ev == entries_view(entries@),
            (idx, size) == log_state(ev.subrange(0, k as int), date@),
        decreases entries@.len() - k,
    {
        assert(ev.subrange(0, k + 1).drop_last() =~= ev.subrange(0, k as int));
        assert(ev.subrange(0, k + 1).last() == (entries@[k as int].name@, entries@[k as int].size));
        match log_index_of(entries[k].name.as_str(), date) {
            Some(i) => {
                if i >= idx {
                    idx = i;
                    match entries[k].size {
                        Some(s) => {
                            size = s;
                        },
                        None => {},
                    }
                }
            },
            None => {},
        }
        k = k + 1;
    }
    assert(ev.subrange(0, k as int) =~= ev);
    (idx, size)
}

/// What to do with the current log file before writing.
#[derive(Clone, Copy, Debug, PartialEq, Eq, Structural)]
pub enum Rotation {
    /// Keep writing to the current file.
    Keep,
    /// The day changed: start file 1 of the new day.
    NewDay,
    /// The file is full: start the next file of the same day.
    NextFile,
}

/// Decides whether the log file rotates: a new day first, then a full file.
pub fn rotation(same_day: bool, current_size: u64, max_size_bytes: u64) -> (r: Rotation)
    ensures
        r == (if !same_day {
            Rotation::NewDay
        } else if current_size >= max_size_bytes {
            Rotation::NextFile
        } else {
            Rotation::Keep
        }),
{
    if !same_day {
        Rotation::NewDay
    } else if current_size >= max_size_bytes {
        Rotation::NextFile
    } else {
        Rotation::Keep
    }
}

/// The calendar date that a text names in the form `YYYY-MM-DD`, as year,
/// month and day.
pub uninterp spec fn calendar_date(s: Seq<char>) -> Option<(i32, u32, u32)>;

/// Relies on chrono's `NaiveDate::parse_from_str` with the format `%Y-%m-%d`,
/// and on its `year`, `month` and `day`: the date that the text names, if any.
#[verifier::external_body]
fn parse_calendar_date(s: &str) -> (r: Option<(i32, u32, u32)>)
    ensures
        r == calendar_date(s@),
{
    match chrono::NaiveDate::parse_from_str(s, "%Y-%m-%d") {
        Ok(d) => Some((chrono::Datelike::year(&d), chrono::Datelike::month(&d), chrono::Datelike::day(&d))),
        Err(_) => None,
    }
}

/// Calendar order on (year, month, day).
pub open spec fn date_before(a: (i32, u32, u32), b: (i32, u32, u32)) -> bool {
    a.0 < b.0 || (a.0 == b.0 && (a.1 < b.1 || (a.1 == b.1 && a.2 < b.2)))
}

/// A log file is expired when its name ends in `.log` and starts with a date
/// before the cutoff; `date` is what its first ten characters parse to.
pub open spec fn expired_given(
    name: Seq<char>,
    date: Option<(i32, u32, u32)>,
    cutoff: (i32, u32, u32),
) -> bool {
    ends_with(name, ".log"@) && name.len() >= 10 && match date {
        Some(d) => date_before(d, cutoff),
        None => false,
    }
}

/// Whether a log file is expired, given what the start of its name parses to.
pub fn is_expired_given(name: &str, date: Option<(i32, u32, u32)>, cutoff: (i32, u32, u32)) -> (r:
    bool)
    ensures
        r == expired_given(name@, date, cutoff),
{
    let n = chars_of(name);
    let suffix = chars_of(".log");
    if !ends_with_exec(&n, &suffix) || n.len() < 10 {
        return false;
    }
    match date {
        Some(d) => d.0 < cutoff.0 || (d.0 == cutoff.0 && (d.1 < cutoff.1 || (d.1 == cutoff.1 && d.2
            < cutoff.2))),
        None => false,
    }
}

/// Whether the log file `name` is older than `cutoff` and is to be removed.
pub fn is_expired_log(name: &str, cutoff: (i32, u32, u32)) -> (r: bool)
    ensures
        r == expired_given(
            name@,
            if name@.len() >= 10 {
                calendar_date(name@.subrange(0, 10))
            } else {
                None
            },
            cutoff,
        ),
{
    let n = chars_of(name);
    if n.len() < 10 {
        return is_expired_given(name, None, cutoff);
    }
    let head = string_of(&slice_vec(&n, 0, 10));
    let date = parse_calendar_date(head.as_str());
    is_expired_given(name, date, cutoff)
}

} // verus!
