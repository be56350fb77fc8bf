//! The task entity: a priority, a creation timestamp with second precision,
//! and the task record itself.

use vstd::prelude::*;
use vstd::string::StrSliceExecFns;
use vstd::string::StringExecFns;
use chrono::Datelike;
use chrono::Timelike;
use crate::text::pad2;
use crate::text::pad4;
use crate::text::push_pad2;
use crate::text::push_pad4;
use crate::text::string_from_chars;

verus! {

/// A task's priority: one of three values, with a fixed textual form.
#[derive(Clone, Copy, PartialEq, Eq, Structural, Debug)]
pub enum Priority {
    Low,
    Medium,
    High,
}

impl Priority {
    /// The exact textual form of a priority, used for display and persistence.
    pub open spec fn spec_text(self) -> Seq<char> {
        match self {
            Priority::Low => "Low"@,
            Priority::Medium => "Medium"@,
            Priority::High => "High"@,
        }
    }

    /// Renders the priority as its tag text: `Low`, `Medium` or `High`.
    pub fn to_string(&self) -> (s: String)
        ensures
            s@ == self.spec_text(),
    {
        match self {
            Priority::Low => String::from_str("Low"),
            Priority::Medium => String::from_str("Medium"),
            Priority::High => String::from_str("High"),
        }
    }

    /// What [`Priority::from_text`] returns: the priority whose tag matches
    /// `s` ignoring ASCII case, and `Low` for any unrecognized text.
    pub open spec fn spec_from_text(s: Seq<char>) -> Priority {
        if s.len() == 3 && (s[0] == 'l' || s[0] == 'L') && (s[1] == 'o' || s[1] == 'O') && (s[2]
            == 'w' || s[2] == 'W') {
            Priority::Low
        } else if s.len() == 6 && (s[0] == 'm' || s[0] == 'M') && (s[1] == 'e' || s[1] == 'E') && (
        s[2] == 'd' || s[2] == 'D') && (s[3] == 'i' || s[3] == 'I') && (s[4] == 'u' || s[4] == 'U')
            && (s[5] == 'm' || s[5] == 'M') {
            Priority::Medium
        } else if s.len() == 4 && (s[0] == 'h' || s[0] == 'H') && (s[1] == 'i' || s[1] == 'I') && (
        s[2] == 'g' || s[2] == 'G') && (s[3] == 'h' || s[3] == 'H') {
            Priority::High
        } else {
            Priority::Low
        }
    }

    /// Reads a priority from user text, ignoring ASCII case; any text that is
    /// not one of the three tags is coerced to `Low`, never rejected.
    pub fn from_text(s: &str) -> (p: Priority)
        ensures
            p == Self::spec_from_text(s@),
    {
        let n = s.unicode_len();
        if n == 3 {
            let c0 = s.get_char(0);
            let c1 = s.get_char(1);
            let c2 = s.get_char(2);
            if (c0 == 'l' || c0 == 'L') && (c1 == 'o' || c1 == 'O') && (c2 == 'w' || c2 == 'W') {
                return Priority::Low;
            }
        } else if n == 6 {
            let c0 = s.get_char(0);
            let c1 = s.get_char(1);
            let c2 = s.get_char(2);
            let c3 = s.get_char(3);
            let c4 = s.get_char(4);
            let c5 = s.get_char(5);
            if (c0 == 'm' || c0 == 'M') && (c1 == 'e' || c1 == 'E') && (c2 == 'd' || c2 == 'D') && (
            c3 == 'i' || c3 == 'I') && (c4 == 'u' || c4 == 'U') && (c5 == 'm' || c5 == 'M') {
                return Priority::Medium;
            }
        } else if n == 4 {
            let c0 = s.get_char(0);
            let c1 = s.get_char(1);
            let c2 = s.get_char(2);
            let c3 = s.get_char(3);
            if (c0 == 'h' || c0 == 'H') && (c1 == 'i' || c1 == 'I') && (c2 == 'g' || c2 == 'G') && (
            c3 == 'h' || c3 == 'H') {
                return Priority::High;
            }
        }
        Priority::Low
    }
}

/// A local-time calendar timestamp with second precision.
///
/// Field ranges are the well-formedness invariant [`Timestamp::wf`]; every
/// constructor of this library establishes it.
#[derive(Clone, Copy, PartialEq, Eq, Structural, Debug)]
pub struct Timestamp {
    pub year: u32,
    pub month: u32,
    pub day: u32,
    pub hour: u32,
    pub minute: u32,
    pub second: u32,
}

impl Timestamp {
    /// Well-formedness: each field lies in its calendar range, and the year
    /// fits the four-digit textual form.
    pub open spec fn wf(self) -> bool {
        &&& self.year <= 9999
        &&& 1 <= self.month <= 12
        &&& 1 <= self.day <= 31
        &&& self.hour <= 23
        &&& self.minute <= 59
        &&& self.second <= 59
    }

    /// What [`Timestamp::from_parts`] returns: each part clamped into its range.
    pub open spec fn spec_clamped(
        year: i32,
        month: u32,
        day: u32,
        hour: u32,
        minute: u32,
        second: u32,
    ) -> Timestamp {
        Timestamp {
            year: if year < 0 { 0 } else if year > 9999 { 9999 } else { year as u32 },
            month: if month < 1 { 1 } else if month > 12 { 12 } else { month },
            day: if day < 1 { 1 } else if day > 31 { 31 } else { day },
            hour: if hour > 23 { 23 } else { hour },
            minute: if minute > 59 { 59 } else { minute },
            second: if second > 59 { 59 } else { second },
        }
    }

    /// Builds a timestamp from raw clock parts, clamping each part into its
    /// calendar range so that the result is well formed.
    pub fn from_parts(year: i32, month: u32, day: u32, hour: u32, minute: u32, second: u32) -> (t:
        Timestamp)
        ensures
            t == Self::spec_clamped(year, month, day, hour, minute, second),
            t.wf(),
    {
        Timestamp {
            year: if year < 0 {
                0
            } else if year > 9999 {
                9999
            } else {
                year as u32
            },
            month: if month < 1 {
                1
            } else if month > 12 {
                12
            } else {
                month
            },
            day: if day < 1 {
                1
            } else if day > 31 {
                31
            } else {
                day
            },
            hour: if hour > 23 {
                23
            } else {
                hour
            },
            minute: if minute > 59 {
                59
            } else {
                minute
            },
            second: if second > 59 {
                59
            } else {
                second
            },
        }
    }

    /// The current local time, well formed.
    pub fn now() -> (t: Timestamp)
        ensures
            t.wf(),
    {
        let (year, month, day, hour, minute, second) = now_parts();
        Timestamp::from_parts(year, month, day, hour, minute, second)
    }

    /// The display form of a timestamp: `DD-MM-YYYY HH:MM:SS`, zero padded,
    /// 24-hour clock.
    pub open spec fn spec_display(self) -> Seq<char> {
        pad2(self.day as int) + seq!['-'] + pad2(self.month as int) + seq!['-'] + pad4(
            self.year as int,
        ) + seq![' '] + pad2(self.hour as int) + seq![':'] + pad2(self.minute as int) + seq![':']
            + pad2(self.second as int)
    }

    /// Appends the display form of the timestamp to `out`.
    pub fn push_display(self, out: &mut Vec<char>)
        requires
            self.wf(),
        ensures
            final(out)@ == old(out)@ + self.spec_display(),
    {
        push_pad2(out, self.day);
        out.push('-');
        push_pad2(out, self.month);
        out.push('-');
        push_pad4(out, self.year);
        out.push(' ');
        push_pad2(out, self.hour);
        out.push(':');
        push_pad2(out, self.minute);
        out.push(':');
        push_pad2(out, self.second);
        assert(final(out)@ =~= old(out)@ + self.spec_display());
    }
}

/// The mathematical content of a [`Task`]: its strings as character
/// sequences, with the priority and timestamp unchanged.
pub ghost struct TaskView {
    pub name: Seq<char>,
    pub description: Seq<char>,
    pub priority: Priority,
    pub add_time: Timestamp,
}

/// One unit of work: a name (the lookup key), a free-text description, a
/// priority, and the creation timestamp, which is set once at construction
/// and never changed afterwards.
pub struct Task {
    pub name: String,
    pub description: String,
    pub priority: Priority,
    pub add_time: Timestamp,
}

impl View for Task {
    type V = TaskView;

    open spec fn view(&self) -> TaskView {
        TaskView {
            name: self.name@,
            description: self.description@,
            priority: self.priority,
            add_time: self.add_time,
        }
    }
}

impl TaskView {
    /// Validity of a task's content: its timestamp is well formed.
    pub open spec fn wf(self) -> bool {
        self.add_time.wf()
    }

    /// The rendered form of a task: the header line
    /// `name | priority | DD-MM-YYYY HH:MM:SS`, then the description on its
    /// own quoted line, then a blank line.
    pub open spec fn spec_render(self) -> Seq<char> {
        self.name + " | "@ + self.priority.spec_text() + " | "@ + self.add_time.spec_display()
            + "\n\""@ + self.description + "\"\n\n"@
    }
}

impl Task {
    /// Builds a task with the given fields, capturing the current local time
    /// as its creation timestamp.
    pub fn new(name: String, description: String, priority: Priority) -> (t: Task)
        ensures
            t@.name == name@,
            t@.description == description@,
            t@.priority == priority,
            t@.wf(),
    {
        Task { name, description, priority, add_time: Timestamp::now() }
    }

    /// Builds a task with the given fields and creation timestamp.
    pub fn with_time(name: String, description: String, priority: Priority, add_time: Timestamp)
        -> (t: Task)
        ensures
            t@ == (TaskView { name: name@, description: description@, priority, add_time }),
    {
        Task { name, description, priority, add_time }
    }

    /// Renders the task as its human-readable block.
    pub fn render(&self) -> (s: String)
        requires
            self@.wf(),
        ensures
            s@ == self@.spec_render(),
    {
        let mut s = self.name.clone();
        s.append(" | ");
        let pri = self.priority.to_string();
        s.append(pri.as_str());
        s.append(" | ");
        let mut time_chars: Vec<char> = Vec::new();
        self.add_time.push_display(&mut time_chars);
        let time = string_from_chars(&time_chars);
        s.append(time.as_str());
        s.append("\n\"");
        s.append(self.description.as_str());
        s.append("\"\n\n");
        s
    }
}

/// Relies on `chrono::Local::now` and chrono's `Datelike` / `Timelike`
/// accessors: for a valid date-time, `month` is 1..=12, `day` is 1..=31,
/// `hour` is below 24, and `minute` and `second` are below 60.
#[verifier::external_body]
fn now_parts() -> (r: (i32, u32, u32, u32, u32, u32))
    ensures
        1 <= r.1 <= 12,
        1 <= r.2 <= 31,
        r.3 < 24,
        r.4 < 60,
        r.5 < 60,
{
    let now = chrono::Local::now();
    (now.year(), now.month(), now.day(), now.hour(), now.minute(), now.second())
}

} // verus!
