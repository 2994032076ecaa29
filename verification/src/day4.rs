//! Guard shift puzzle: timestamped logs of guards falling asleep and
//! waking, the sleepiest guard's favourite minute, and the guard most
//! asleep on any single minute.

use vstd::prelude::*;

use crate::day::{Day, DayResult};
use crate::text;

verus! {

pub struct Instance;

/// A log timestamp, minute precision.
#[derive(Debug, PartialEq, Eq, Structural, Clone, Copy)]
pub struct Timestamp {
    pub year: u16,
    pub month: u8,
    pub day: u8,
    pub hour: u8,
    pub minute: u8,
}

/// Lexicographic order on timestamps, the order the log is sorted by.
pub open spec fn ts_before(a: Timestamp, b: Timestamp) -> bool {
    if a.year != b.year {
        a.year < b.year
    } else if a.month != b.month {
        a.month < b.month
    } else if a.day != b.day {
        a.day < b.day
    } else if a.hour != b.hour {
        a.hour < b.hour
    } else {
        a.minute < b.minute
    }
}

/// Runtime form of `ts_before`.
fn ts_less(a: &Timestamp, b: &Timestamp) -> (r: bool)
    ensures
        r == ts_before(*a, *b),
{
    if a.year != b.year {
        a.year < b.year
    } else if a.month != b.month {
        a.month < b.month
    } else if a.day != b.day {
        a.day < b.day
    } else if a.hour != b.hour {
        a.hour < b.hour
    } else {
        a.minute < b.minute
    }
}

/// How many days the month has in the puzzle's calendar (no leap years).
pub fn days_in_month(month: u8) -> (r: u8)
    ensures
        28 <= r <= 31,
{
    if month == 2 {
        28
    } else if month == 4 || month == 6 || month == 9 || month == 11 {
        30
    } else {
        31
    }
}

impl Timestamp {
    /// The minute-of-hour labels of every minute from this timestamp up
    /// to, and not including, `other`; counting stops early if the clock
    /// arithmetic would leave its fields or an ample budget runs out.
    pub fn minutes_till(&self, other: &Timestamp) -> (r: Vec<u8>) {
        let mut minutes: Vec<u8> = Vec::new();
        let mut current = *self;
        let mut budget: u64 = 4_000_000;
        while budget > 0
            decreases budget,
        {
            budget = budget - 1;
            if !ts_less(&current, other) {
                return minutes;
            }
            minutes.push(current.minute);
            if current.minute < 59 {
                current.minute = current.minute + 1;
            } else if current.minute == 59 {
                current.minute = 0;
                if current.hour < 23 {
                    current.hour = current.hour + 1;
                } else if current.hour == 23 {
                    current.hour = 0;
                    if current.day >= days_in_month(current.month) {
                        current.day = 1;
                        if current.month < 12 {
                            current.month = current.month + 1;
                        } else if current.month == 12 {
                            current.month = 1;
                            if current.year == u16::MAX {
                                return minutes;
                            }
                            current.year = current.year + 1;
                        } else {
                            // A month outside the calendar cannot roll
                            // over meaningfully.
                            return minutes;
                        }
                    } else {
                        if current.day == u8::MAX {
                            return minutes;
                        }
                        current.day = current.day + 1;
                    }
                } else {
                    return minutes;
                }
            } else {
                return minutes;
            }
        }
        minutes
    }
}

/// One log message.
#[derive(Debug, PartialEq, Eq, Structural, Clone, Copy)]
pub enum Message {
    BeginShift(u16),
    FallAsleep,
    WakeUp,
}

/// One log line: when, and what happened.
#[derive(Debug, PartialEq, Eq, Structural, Clone, Copy)]
pub struct LogEntry {
    pub timestamp: Timestamp,
    pub message: Message,
}

impl Timestamp {
    /// Reads `YYYY-MM-DD HH:MM`.
    fn parse(s: &[u8]) -> Result<Timestamp, String> {
        let mut normalized: Vec<u8> = Vec::new();
        let n = s.len();
        for i in 0..n
            invariant
                n == s@.len(),
        {
            let b = s[i];
            if b == 45 || b == 58 {
                normalized.push(32);
            } else {
                normalized.push(b);
            }
        }
        let parts = text::split_fields(normalized.as_slice());
        if parts.len() != 5 {
            return Err("Invalid timestamp".to_owned());
        }
        let year = match text::parse_u64(parts[0].as_slice()) {
            Some(v) if v <= 65535 => v as u16,
            _ => {
                return Err("Invalid year".to_owned());
            },
        };
        let month = match text::parse_u64(parts[1].as_slice()) {
            Some(v) if v <= 255 => v as u8,
            _ => {
                return Err("Invalid month".to_owned());
            },
        };
        let day = match text::parse_u64(parts[2].as_slice()) {
            Some(v) if v <= 255 => v as u8,
            _ => {
                return Err("Invalid day".to_owned());
            },
        };
        let hour = match text::parse_u64(parts[3].as_slice()) {
            Some(v) if v <= 255 => v as u8,
            _ => {
                return Err("Invalid hour".to_owned());
            },
        };
        let minute = match text::parse_u64(parts[4].as_slice()) {
            Some(v) if v <= 255 => v as u8,
            _ => {
                return Err("Invalid minute".to_owned());
            },
        };
        Ok(Timestamp { year, month, day, hour, minute })
    }
}

impl Message {
    /// Reads `Guard #N begins shift`, `falls asleep` or `wakes up`.
    fn parse(s: &[u8]) -> Result<Message, String> {
        let parts = text::split_fields(s);
        if parts.len() == 0 {
            return Err("Invalid message".to_owned());
        }
        if text::bytes_eq(parts[0].as_slice(), "Guard".as_bytes()) {
            if parts.len() < 2 {
                return Err("Invalid message".to_owned());
            }
            let tag = parts[1].as_slice();
            let tn = tag.len();
            let mut start: usize = 0;
            while start < tn && tag[start] == 35
                invariant
                    start <= tn,
                    tn == tag@.len(),
                decreases tn - start,
            {
                start = start + 1;
            }
            match text::parse_u64(&tag[start..tn]) {
                Some(v) if v <= 65535 => Ok(Message::BeginShift(v as u16)),
                _ => Err("Invalid id".to_owned()),
            }
        } else if text::bytes_eq(parts[0].as_slice(), "falls".as_bytes()) {
            Ok(Message::FallAsleep)
        } else if text::bytes_eq(parts[0].as_slice(), "wakes".as_bytes()) {
            Ok(Message::WakeUp)
        } else {
            Err("Invalid message".to_owned())
        }
    }
}

impl LogEntry {
    /// Reads `[timestamp] message`.
    fn parse(s: &[u8]) -> Result<LogEntry, String> {
        let parts = text::split_byte(s, 93);
        if parts.len() != 2 {
            return Err("Invalid log entry".to_owned());
        }
        let head = parts[0].as_slice();
        let hn = head.len();
        let mut start: usize = 0;
        while start < hn && head[start] == 91
            invariant
                start <= hn,
                hn == head@.len(),
            decreases hn - start,
        {
            start = start + 1;
        }
        let timestamp = Timestamp::parse(&head[start..hn])?;
        let message = Message::parse(parts[1].as_slice())?;
        Ok(LogEntry { timestamp, message })
    }
}

impl core::str::FromStr for LogEntry {
    type Err = String;

    fn from_str(s: &str) -> Result<LogEntry, String> {
        if !s.is_ascii() {
            return Err("Invalid log entry".to_owned());
        }
        LogEntry::parse(s.as_bytes())
    }
}

/// The log, sorted by timestamp.
pub struct Logs {
    entries: Vec<LogEntry>,
}

impl Logs {
    /// Sorts the entries chronologically; the insertion sort is stable,
    /// so simultaneous entries keep their input order.
    fn new(logs: Vec<LogEntry>) -> (r: Logs) {
        let mut sorted: Vec<LogEntry> = Vec::new();
        let n = logs.len();
        for i in 0..n
            invariant
                n == logs@.len(),
        {
            let entry = logs[i];
            let mut at = sorted.len();
            while at > 0
                invariant
                    at <= sorted@.len(),
                decreases at,
            {
                if ts_less(&entry.timestamp, &sorted[at - 1].timestamp) {
                    at = at - 1;
                } else {
                    break ;
                }
            }
            sorted.insert(at, entry);
        }
        Logs { entries: sorted }
    }

    /// Per guard, how often each of the sixty midnight minutes was slept
    /// through.  A wake-up without a shift or a sleep start is a
    /// construction failure.
    fn guard_sleep_times(&self) -> (r: Result<Vec<(u16, Vec<u64>)>, String>)
        ensures
            r matches Ok(v) ==> forall|k: int| 0 <= k < v@.len() ==> (#[trigger] v@[k]).1@.len()
                == 60,
    {
        let mut sleep_times: Vec<(u16, Vec<u64>)> = Vec::new();
        let mut current_guard: Option<u16> = None;
        let mut sleep_start: Option<Timestamp> = None;
        let n = self.entries.len();
        for i in 0..n
            invariant
                n == self.entries@.len(),
                forall|k: int|
                    0 <= k < sleep_times@.len() ==> (#[trigger] sleep_times@[k]).1@.len() == 60,
        {
            let entry = self.entries[i];
            match entry.message {
                Message::BeginShift(id) => {
                    current_guard = Some(id);
                },
                Message::FallAsleep => {
                    sleep_start = Some(entry.timestamp);
                },
                Message::WakeUp => {
                    let guard = match current_guard {
                        Some(g) => g,
                        None => {
                            return Err("wake-up before any shift".to_owned());
                        },
                    };
                    let start = match sleep_start {
                        Some(s) => s,
                        None => {
                            return Err("wake-up without falling asleep".to_owned());
                        },
                    };
                    let at = find_guard(&mut sleep_times, guard);
                    let minutes = start.minutes_till(&entry.timestamp);
                    let mut counts = sleep_times.remove(at);
                    let m = minutes.len();
                    for k in 0..m
                        invariant
                            m == minutes@.len(),
                            counts.1@.len() == 60,
                    {
                        let minute = minutes[k];
                        if minute < 60 {
                            let c = counts.1[minute as usize];
                            if c < u64::MAX {
                                counts.1.set(minute as usize, c + 1);
                            }
                        }
                    }
                    sleep_times.insert(at, counts);
                    proof {
                        assert forall|k: int|
                            0 <= k < sleep_times@.len() implies (#[trigger] sleep_times@[k]).1@.len()
                            == 60 by {}
                    }
                },
            }
        }
        Ok(sleep_times)
    }
}

/// The index of the guard's row, creating a zeroed one if needed.
fn find_guard(sleep_times: &mut Vec<(u16, Vec<u64>)>, guard: u16) -> (r: usize)
    requires
        forall|k: int|
            0 <= k < old(sleep_times)@.len() ==> (#[trigger] old(sleep_times)@[k]).1@.len() == 60,
    ensures
        r < final(sleep_times)@.len(),
        forall|k: int|
            0 <= k < final(sleep_times)@.len() ==> (#[trigger] final(sleep_times)@[k]).1@.len()
                == 60,
{
    let n = sleep_times.len();
    for i in 0..n
        invariant
            n == sleep_times@.len(),
            forall|k: int|
                0 <= k < sleep_times@.len() ==> (#[trigger] sleep_times@[k]).1@.len() == 60,
    {
        if sleep_times[i].0 == guard {
            return i;
        }
    }
    let mut zeros: Vec<u64> = Vec::new();
    for i in 0..60usize
        invariant
            zeros@.len() == i,
    {
        zeros.push(0);
    }
    sleep_times.push((guard, zeros));
    sleep_times.len() - 1
}

impl Day for Instance {
    fn run(&self, input: &str) -> Result<DayResult, String> {
        if !input.is_ascii() {
            return Err("input is not ascii".to_owned());
        }
        let logs = parse_input(input)?;
        let sleep_times = logs.guard_sleep_times()?;
        let part1 = part1(&sleep_times)?;
        let part2 = part2(&sleep_times)?;
        Ok(DayResult { part1, part2: Some(part2) })
    }
}

/// Reads one log entry per line and sorts them.
fn parse_input(input: &str) -> Result<Logs, String> {
    let lines = text::split_lines(input.as_bytes());
    let mut entries: Vec<LogEntry> = Vec::new();
    let n = lines.len();
    for i in 0..n
        invariant
            n == lines@.len(),
    {
        match LogEntry::parse(lines[i].as_slice()) {
            Ok(e) => entries.push(e),
            Err(e) => {
                return Err(e);
            },
        }
    }
    Ok(Logs::new(entries))
}

/// The sleepiest guard's id times that guard's most-slept minute.
fn part1(sleep_times: &Vec<(u16, Vec<u64>)>) -> Result<String, String>
    requires
        forall|k: int|
            0 <= k < sleep_times@.len() ==> (#[trigger] sleep_times@[k]).1@.len() == 60,
{
    let n = sleep_times.len();
    let mut best: Option<(usize, u64)> = None;
    for i in 0..n
        invariant
            n == sleep_times@.len(),
            best matches Some(b) ==> b.0 < n,
    {
        let mut total: u64 = 0;
        let row = &sleep_times[i].1;
        let m = row.len();
        for k in 0..m
            invariant
                m == row@.len(),
        {
            total = match total.checked_add(row[k]) {
                Some(t) => t,
                None => u64::MAX,
            };
        }
        best = match best {
            Some((bi, bt)) => if total > bt {
                Some((i, total))
            } else {
                Some((bi, bt))
            },
            None => Some((i, total)),
        };
    }
    let (guard_at, _) = match best {
        Some(b) => b,
        None => {
            return Err("no sleeping guard".to_owned());
        },
    };
    let guard = sleep_times[guard_at].0;
    let minute = best_minute(&sleep_times[guard_at].1);
    proof {
        assert((guard as u64) * minute <= 65535 * 59) by (nonlinear_arith)
            requires
                guard <= 65535,
                minute <= 59,
        ;
    }
    Ok(((guard as u64) * minute).to_string())
}

/// The minute with the highest count; the first such minute on a tie.
fn best_minute(row: &Vec<u64>) -> (r: u64)
    ensures
        r < 60,
{
    let m = row.len();
    let mut best: u64 = 0;
    let mut best_count: u64 = 0;
    let mut started = false;
    for k in 0..m
        invariant
            m == row@.len(),
            best < 60,
    {
        if k < 60 && (!started || row[k] > best_count) {
            started = true;
            best = k as u64;
            best_count = row[k];
        }
    }
    best
}

/// The guard most asleep on one specific minute, id times that minute.
fn part2(sleep_times: &Vec<(u16, Vec<u64>)>) -> Result<String, String>
    requires
        forall|k: int|
            0 <= k < sleep_times@.len() ==> (#[trigger] sleep_times@[k]).1@.len() == 60,
{
    let n = sleep_times.len();
    let mut best: Option<(u16, u64, u64)> = None;
    for i in 0..n
        invariant
            n == sleep_times@.len(),
            forall|k: int|
                0 <= k < sleep_times@.len() ==> (#[trigger] sleep_times@[k]).1@.len() == 60,
            best matches Some(b) ==> b.1 < 60,
    {
        let row = &sleep_times[i].1;
        let guard = sleep_times[i].0;
        let m = row.len();
        for k in 0..m
            invariant
                m == row@.len(),
                m == 60,
                best matches Some(b) ==> b.1 < 60,
        {
            let count = row[k];
            best = match best {
                Some((bg, bm, bc)) => if count > bc {
                    Some((guard, k as u64, count))
                } else {
                    Some((bg, bm, bc))
                },
                None => Some((guard, k as u64, count)),
            };
        }
    }
    match best {
        Some((guard, minute, _)) => {
            proof {
                assert((guard as u64) * minute <= 65535 * 59) by (nonlinear_arith)
                    requires
                        guard <= 65535,
                        minute <= 59,
                ;
            }
            Ok(((guard as u64) * minute).to_string())
        },
        None => Err("no sleeping guard".to_owned()),
    }
}

} // verus!
