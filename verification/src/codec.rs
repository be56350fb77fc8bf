//! The persistence format: a JSON array of task objects, each with the
//! fields `name`, `description`, `priority` (its tag text) and `add_time`
//! (an ISO-8601-like local timestamp with second precision).
//!
//! The encoder emits one canonical text per task sequence; the parser
//! accepts exactly the canonical texts and is proved to invert the encoder.

use vstd::prelude::*;
use crate::task::Priority;
use crate::task::Task;
use crate::task::TaskView;
use crate::task::Timestamp;
use crate::text::digit_char;
use crate::text::hex_char;
use crate::text::pad2;
use crate::text::pad4;
use crate::text::push_pad2;
use crate::text::push_pad4;

verus! {

// ---------------------------------------------------------------------------
// The encoding, at the specification level.
// ---------------------------------------------------------------------------
/// How one character appears inside a JSON string literal: quote and
/// backslash are escaped, control characters take the `\u00XX` form with
/// lower-case hexadecimal digits, and every other character stands as itself.
pub open spec fn esc_char(c: char) -> Seq<char> {
    if c == '"' {
        seq!['\\', '"']
    } else if c == '\\' {
        seq!['\\', '\\']
    } else if (c as u32) < 32 {
        seq!['\\', 'u', '0', '0', hex_char((c as u32) as int / 16), hex_char((c as u32) as int % 16)]
    } else {
        seq![c]
    }
}

/// A whole text escaped character by character.
pub open spec fn esc_str(s: Seq<char>) -> Seq<char>
    decreases s.len(),
{
    if s.len() == 0 {
        Seq::empty()
    } else {
        esc_char(s[0]) + esc_str(s.skip(1))
    }
}

/// The serialized tag of a priority.
pub open spec fn pri_chars(p: Priority) -> Seq<char> {
    match p {
        Priority::Low => seq!['L', 'o', 'w'],
        Priority::Medium => seq!['M', 'e', 'd', 'i', 'u', 'm'],
        Priority::High => seq!['H', 'i', 'g', 'h'],
    }
}

/// The serialized timestamp: `YYYY-MM-DDTHH:MM:SS`.
pub open spec fn time_chars(t: Timestamp) -> Seq<char> {
    pad4(t.year as int) + seq!['-'] + pad2(t.month as int) + seq!['-'] + pad2(t.day as int)
        + seq!['T'] + pad2(t.hour as int) + seq![':'] + pad2(t.minute as int) + seq![':'] + pad2(
        t.second as int,
    )
}

/// The object opener together with the `name` key: `{"name":"`.
pub open spec fn lit_name() -> Seq<char> {
    seq!['{', '"', 'n', 'a', 'm', 'e', '"', ':', '"']
}

/// The separator before the `description` key: `","description":"`.
pub open spec fn lit_desc() -> Seq<char> {
    seq![',', '"', 'd', 'e', 's', 'c', 'r', 'i', 'p', 't', 'i', 'o', 'n', '"', ':', '"']
}

/// The separator before the `priority` key: `","priority":"`.
pub open spec fn lit_pri() -> Seq<char> {
    seq![',', '"', 'p', 'r', 'i', 'o', 'r', 'i', 't', 'y', '"', ':', '"']
}

/// The separator before the `add_time` key: `","add_time":"`.
pub open spec fn lit_time() -> Seq<char> {
    seq![',', '"', 'a', 'd', 'd', '_', 't', 'i', 'm', 'e', '"', ':', '"']
}

/// One task as a JSON object.
pub open spec fn task_json(t: TaskView) -> Seq<char> {
    lit_name() + esc_str(t.name) + seq!['"'] + lit_desc() + esc_str(t.description) + seq!['"']
        + lit_pri() + pri_chars(t.priority) + seq!['"'] + lit_time() + time_chars(t.add_time)
        + seq!['"', '}']
}

/// The comma-separated object list of a task sequence.
pub open spec fn list_chars(s: Seq<TaskView>) -> Seq<char>
    decreases s.len(),
{
    if s.len() == 0 {
        Seq::empty()
    } else if s.len() == 1 {
        task_json(s[0])
    } else {
        task_json(s[0]) + seq![','] + list_chars(s.skip(1))
    }
}

/// The whole store as a JSON array.
pub open spec fn tasks_json(s: Seq<TaskView>) -> Seq<char> {
    seq!['['] + list_chars(s) + seq![']']
}

// ---------------------------------------------------------------------------
// The encoder.
// ---------------------------------------------------------------------------
/// Escaping distributes over appending one character at the end.
proof fn lemma_esc_str_snoc(s: Seq<char>, c: char)
    ensures
        esc_str(s.push(c)) == esc_str(s) + esc_char(c),
    decreases s.len(),
{
    if s.len() == 0 {
        assert(s.push(c)[0] == c);
        assert(s.push(c).skip(1) =~= Seq::<char>::empty());
        assert(esc_str(s.push(c)) == esc_char(c) + esc_str(Seq::<char>::empty()));
        assert(esc_char(c) + esc_str(Seq::<char>::empty()) =~= esc_char(c));
        assert(esc_str(s) + esc_char(c) =~= esc_char(c));
    } else {
        assert(s.push(c).skip(1) =~= s.skip(1).push(c));
        lemma_esc_str_snoc(s.skip(1), c);
        assert(esc_str(s.push(c)) =~= esc_str(s) + esc_char(c));
    }
}

/// Appends the escaped form of `s` to `out`.
fn push_esc_str(out: &mut Vec<char>, s: &String)
    ensures
        final(out)@ == old(out)@ + esc_str(s@),
{
    let n = s.as_str().unicode_len();
    let mut i: usize = 0;
    while i < n
        invariant
            i <= n,
            n == s@.len(),
            out@ == old(out)@ + esc_str(s@.take(i as int)),
        decreases n - i,
    {
        let c = s.as_str().get_char(i);
        if c == '"' {
            out.push('\\');
            out.push('"');
        } else if c == '\\' {
            out.push('\\');
            out.push('\\');
        } else if (c as u32) < 32 {
            let v = c as u32;
            out.push('\\');
            out.push('u');
            out.push('0');
            out.push('0');
            out.push((if v / 16 < 10 {
                (48 + v / 16) as u8
            } else {
                (87 + v / 16) as u8
            }) as char);
            out.push((if v % 16 < 10 {
                (48 + v % 16) as u8
            } else {
                (87 + v % 16) as u8
            }) as char);
        } else {
            out.push(c);
        }
        proof {
            assert(s@.take(i + 1) =~= s@.take(i as int).push(s@[i as int]));
            lemma_esc_str_snoc(s@.take(i as int), s@[i as int]);
            assert(out@ =~= old(out)@ + esc_str(s@.take(i + 1)));
        }
        i += 1;
    }
    proof {
        assert(s@.take(n as int) =~= s@);
    }
}

/// Appends the serialized timestamp to `out`.
fn push_time(out: &mut Vec<char>, t: Timestamp)
    requires
        t.wf(),
    ensures
        final(out)@ == old(out)@ + time_chars(t),
{
    push_pad4(out, t.year);
    out.push('-');
    push_pad2(out, t.month);
    out.push('-');
    push_pad2(out, t.day);
    out.push('T');
    push_pad2(out, t.hour);
    out.push(':');
    push_pad2(out, t.minute);
    out.push(':');
    push_pad2(out, t.second);
    assert(final(out)@ =~= old(out)@ + time_chars(t));
}

/// Appends `{"name":"` to `out`.
fn push_name_open(out: &mut Vec<char>)
    ensures
        final(out)@ == old(out)@ + lit_name(),
{
    out.push('{');
    out.push('"');
    out.push('n');
    out.push('a');
    out.push('m');
    out.push('e');
    out.push('"');
    out.push(':');
    out.push('"');
    assert(final(out)@ =~= old(out)@ + lit_name());
}

/// Appends `","description":"` after a closing quote to `out`.
fn push_desc_sep(out: &mut Vec<char>)
    ensures
        final(out)@ == old(out)@ + seq!['"'] + lit_desc(),
{
    out.push('"');
    out.push(',');
    out.push('"');
    out.push('d');
    out.push('e');
    out.push('s');
    out.push('c');
    out.push('r');
    out.push('i');
    out.push('p');
    out.push('t');
    out.push('i');
    out.push('o');
    out.push('n');
    out.push('"');
    out.push(':');
    out.push('"');
    assert(final(out)@ =~= old(out)@ + seq!['"'] + lit_desc());
}

/// Appends `","priority":"` after a closing quote to `out`.
fn push_pri_sep(out: &mut Vec<char>)
    ensures
        final(out)@ == old(out)@ + seq!['"'] + lit_pri(),
{
    out.push('"');
    out.push(',');
    out.push('"');
    out.push('p');
    out.push('r');
    out.push('i');
    out.push('o');
    out.push('r');
    out.push('i');
    out.push('t');
    out.push('y');
    out.push('"');
    out.push(':');
    out.push('"');
    assert(final(out)@ =~= old(out)@ + seq!['"'] + lit_pri());
}

/// Appends `","add_time":"` after a closing quote to `out`.
fn push_time_sep(out: &mut Vec<char>)
    ensures
        final(out)@ == old(out)@ + seq!['"'] + lit_time(),
{
    out.push('"');
    out.push(',');
    out.push('"');
    out.push('a');
    out.push('d');
    out.push('d');
    out.push('_');
    out.push('t');
    out.push('i');
    out.push('m');
    out.push('e');
    out.push('"');
    out.push(':');
    out.push('"');
    assert(final(out)@ =~= old(out)@ + seq!['"'] + lit_time());
}

/// Appends the priority tag to `out`.
fn push_pri_tag(out: &mut Vec<char>, p: Priority)
    ensures
        final(out)@ == old(out)@ + pri_chars(p),
{
    match p {
        Priority::Low => {
            out.push('L');
            out.push('o');
            out.push('w');
        },
        Priority::Medium => {
            out.push('M');
            out.push('e');
            out.push('d');
            out.push('i');
            out.push('u');
            out.push('m');
        },
        Priority::High => {
            out.push('H');
            out.push('i');
            out.push('g');
            out.push('h');
        },
    }
    assert(final(out)@ =~= old(out)@ + pri_chars(p));
}

/// Appends one task's JSON object to `out`.
fn push_task_json(out: &mut Vec<char>, t: &Task)
    requires
        t@.wf(),
    ensures
        final(out)@ == old(out)@ + task_json(t@),
{
    push_name_open(out);
    push_esc_str(out, &t.name);
    push_desc_sep(out);
    push_esc_str(out, &t.description);
    push_pri_sep(out);
    push_pri_tag(out, t.priority);
    push_time_sep(out);
    push_time(out, t.add_time);
    out.push('"');
    out.push('}');
    assert(final(out)@ =~= old(out)@ + task_json(t@));
}

/// The object list distributes over appending one task at the end.
proof fn lemma_list_chars_snoc(s: Seq<TaskView>, t: TaskView)
    ensures
        list_chars(s.push(t)) == if s.len() == 0 {
            task_json(t)
        } else {
            list_chars(s) + seq![','] + task_json(t)
        },
    decreases s.len(),
{
    if s.len() == 0 {
        assert(s.push(t)[0] == t);
        assert(list_chars(s.push(t)) == task_json(t));
    } else {
        assert(s.push(t).skip(1) =~= s.skip(1).push(t));
        lemma_list_chars_snoc(s.skip(1), t);
        if s.len() == 1 {
            assert(list_chars(s.push(t)) =~= list_chars(s) + seq![','] + task_json(t));
        } else {
            assert(list_chars(s.push(t)) =~= list_chars(s) + seq![','] + task_json(t));
        }
    }
}

/// Encodes a task sequence as its canonical JSON array text.
pub fn encode_tasks(tasks: &Vec<Task>) -> (out: Vec<char>)
    requires
        forall|i: int| 0 <= i < tasks@.len() ==> (#[trigger] tasks@[i])@.wf(),
    ensures
        out@ == tasks_json(tasks@.map_values(|t: Task| t@)),
{
    let ghost views = tasks@.map_values(|t: Task| t@);
    let mut out: Vec<char> = Vec::new();
    out.push('[');
    let n = tasks.len();
    let mut i: usize = 0;
    while i < n
        invariant
            i <= n,
            n == tasks@.len(),
            views == tasks@.map_values(|t: Task| t@),
            forall|k: int| 0 <= k < tasks@.len() ==> (#[trigger] tasks@[k])@.wf(),
            out@ == seq!['['] + list_chars(views.take(i as int)),
        decreases n - i,
    {
        if i > 0 {
            out.push(',');
        }
        push_task_json(&mut out, &tasks[i]);
        proof {
            assert(views.take(i + 1) =~= views.take(i as int).push(views[i as int]));
            lemma_list_chars_snoc(views.take(i as int), views[i as int]);
            assert(views[i as int] == tasks@[i as int]@);
            assert(out@ =~= seq!['['] + list_chars(views.take(i + 1)));
        }
        i += 1;
    }
    out.push(']');
    proof {
        assert(views.take(n as int) =~= views);
        assert(out@ =~= tasks_json(views));
    }
    out
}


// ---------------------------------------------------------------------------
// The parser, at the specification level. It accepts exactly the canonical
// texts that the encoder produces.
// ---------------------------------------------------------------------------
/// Drops the exact prefix `lit` from `s`, or fails.
pub open spec fn parse_lit(s: Seq<char>, lit: Seq<char>) -> Option<Seq<char>> {
    if s.len() >= lit.len() && s.take(lit.len() as int) == lit {
        Some(s.skip(lit.len() as int))
    } else {
        None
    }
}

/// The value of a decimal digit character.
pub open spec fn dig_val(c: char) -> Option<int> {
    if '0' <= c && c <= '9' {
        Some((c as u32) as int - 48)
    } else {
        None
    }
}

/// The value of a lower-case hexadecimal digit character.
pub open spec fn hex_val(c: char) -> Option<int> {
    if '0' <= c && c <= '9' {
        Some((c as u32) as int - 48)
    } else if 'a' <= c && c <= 'f' {
        Some((c as u32) as int - 87)
    } else {
        None
    }
}

/// Reads a JSON string body up to and including its closing quote, undoing
/// the escapes that [`esc_char`] writes; unescaped control characters and
/// unknown escapes are rejected.
pub open spec fn parse_string_body(s: Seq<char>) -> Option<(Seq<char>, Seq<char>)>
    decreases s.len(),
{
    if s.len() == 0 {
        None
    } else if s[0] == '"' {
        Some((Seq::empty(), s.skip(1)))
    } else if s[0] == '\\' {
        if s.len() >= 2 && (s[1] == '"' || s[1] == '\\') {
            match parse_string_body(s.skip(2)) {
                Some((body, rest)) => Some((seq![s[1]] + body, rest)),
                None => None,
            }
        } else if s.len() >= 6 && s[1] == 'u' && s[2] == '0' && s[3] == '0' && hex_val(s[4]) is Some
            && hex_val(s[5]) is Some {
            match parse_string_body(s.skip(6)) {
                Some((body, rest)) => Some(
                    (
                        seq![(((16 * hex_val(s[4])->Some_0 + hex_val(s[5])->Some_0) as u8) as char)]
                            + body,
                        rest,
                    ),
                ),
                None => None,
            }
        } else {
            None
        }
    } else if (s[0] as u32) < 32 {
        None
    } else {
        match parse_string_body(s.skip(1)) {
            Some((body, rest)) => Some((seq![s[0]] + body, rest)),
            None => None,
        }
    }
}

/// Reads exactly two decimal digits.
pub open spec fn parse_pad2(s: Seq<char>) -> Option<(int, Seq<char>)> {
    if s.len() >= 2 && dig_val(s[0]) is Some && dig_val(s[1]) is Some {
        Some((10 * dig_val(s[0])->Some_0 + dig_val(s[1])->Some_0, s.skip(2)))
    } else {
        None
    }
}

/// Reads exactly four decimal digits.
pub open spec fn parse_pad4(s: Seq<char>) -> Option<(int, Seq<char>)> {
    if s.len() >= 4 && dig_val(s[0]) is Some && dig_val(s[1]) is Some && dig_val(s[2]) is Some
        && dig_val(s[3]) is Some {
        Some(
            (
                1000 * dig_val(s[0])->Some_0 + 100 * dig_val(s[1])->Some_0 + 10 * dig_val(
                    s[2],
                )->Some_0 + dig_val(s[3])->Some_0,
                s.skip(4),
            ),
        )
    } else {
        None
    }
}

/// Reads a priority tag together with its closing quote.
pub open spec fn parse_pri(s: Seq<char>) -> Option<(Priority, Seq<char>)> {
    if parse_lit(s, seq!['L', 'o', 'w', '"']) is Some {
        Some((Priority::Low, parse_lit(s, seq!['L', 'o', 'w', '"'])->Some_0))
    } else if parse_lit(s, seq!['M', 'e', 'd', 'i', 'u', 'm', '"']) is Some {
        Some((Priority::Medium, parse_lit(s, seq!['M', 'e', 'd', 'i', 'u', 'm', '"'])->Some_0))
    } else if parse_lit(s, seq!['H', 'i', 'g', 'h', '"']) is Some {
        Some((Priority::High, parse_lit(s, seq!['H', 'i', 'g', 'h', '"'])->Some_0))
    } else {
        None
    }
}

/// Reads a `YYYY-MM-DDTHH:MM:SS` timestamp whose parts lie in their calendar
/// ranges.
pub open spec fn parse_time(s: Seq<char>) -> Option<(Timestamp, Seq<char>)> {
    match parse_pad4(s) {
        None => None,
        Some((y, s1)) => match parse_lit(s1, seq!['-']) {
            None => None,
            Some(s2) => match parse_pad2(s2) {
                None => None,
                Some((mo, s3)) => match parse_lit(s3, seq!['-']) {
                    None => None,
                    Some(s4) => match parse_pad2(s4) {
                        None => None,
                        Some((d, s5)) => match parse_lit(s5, seq!['T']) {
                            None => None,
                            Some(s6) => match parse_pad2(s6) {
                                None => None,
                                Some((h, s7)) => match parse_lit(s7, seq![':']) {
                                    None => None,
                                    Some(s8) => match parse_pad2(s8) {
                                        None => None,
                                        Some((mi, s9)) => match parse_lit(s9, seq![':']) {
                                            None => None,
                                            Some(s10) => match parse_pad2(s10) {
                                                None => None,
                                                Some((sec, s11)) => {
                                                    let t = Timestamp {
                                                        year: y as u32,
                                                        month: mo as u32,
                                                        day: d as u32,
                                                        hour: h as u32,
                                                        minute: mi as u32,
                                                        second: sec as u32,
                                                    };
                                                    if t.wf() {
                                                        Some((t, s11))
                                                    } else {
                                                        None
                                                    }
                                                },
                                            },
                                        },
                                    },
                                },
                            },
                        },
                    },
                },
            },
        },
    }
}

/// Reads one task object.
pub open spec fn parse_task(s: Seq<char>) -> Option<(TaskView, Seq<char>)> {
    match parse_lit(s, lit_name()) {
        None => None,
        Some(s1) => match parse_string_body(s1) {
            None => None,
            Some((name, s2)) => match parse_lit(s2, lit_desc()) {
                None => None,
                Some(s3) => match parse_string_body(s3) {
                    None => None,
                    Some((description, s4)) => match parse_lit(s4, lit_pri()) {
                        None => None,
                        Some(s5) => match parse_pri(s5) {
                            None => None,
                            Some((priority, s6)) => match parse_lit(s6, lit_time()) {
                                None => None,
                                Some(s7) => match parse_time(s7) {
                                    None => None,
                                    Some((add_time, s8)) => match parse_lit(s8, seq!['"', '}']) {
                                        None => None,
                                        Some(rest) => Some(
                                            (TaskView { name, description, priority, add_time }, rest),
                                        ),
                                    },
                                },
                            },
                        },
                    },
                },
            },
        },
    }
}

/// Reads the inside of the array after `[`: either an immediate `]` or a
/// non-empty comma-separated object list followed by `]`.
pub open spec fn parse_list(s: Seq<char>) -> Option<(Seq<TaskView>, Seq<char>)>
    decreases s.len(),
{
    match parse_lit(s, seq![']']) {
        Some(rest) => Some((Seq::empty(), rest)),
        None => match parse_task(s) {
            None => None,
            Some((t, r)) => if r.len() < s.len() {
                match parse_lit(r, seq![',']) {
                    Some(r2) => match parse_list(r2) {
                        Some((ts, rest)) => if ts.len() > 0 {
                            Some((seq![t] + ts, rest))
                        } else {
                            None
                        },
                        None => None,
                    },
                    None => match parse_lit(r, seq![']']) {
                        Some(r2) => Some((seq![t], r2)),
                        None => None,
                    },
                }
            } else {
                None
            },
        },
    }
}

/// Decodes a whole text as a JSON task array; the text must be consumed
/// entirely.
pub open spec fn spec_parse_tasks(s: Seq<char>) -> Option<Seq<TaskView>> {
    match parse_lit(s, seq!['[']) {
        None => None,
        Some(r) => match parse_list(r) {
            Some((ts, rest)) => if rest.len() == 0 {
                Some(ts)
            } else {
                None
            },
            None => None,
        },
    }
}

// ---------------------------------------------------------------------------
// The executable parser. Each function returns exactly what its
// specification counterpart returns on the suffix starting at `pos`.
// ---------------------------------------------------------------------------
/// The decimal value of `c`, when `c` is a digit.
fn dig_of(c: char) -> (r: Option<u32>)
    ensures
        match r {
            Some(d) => dig_val(c) == Some(d as int) && d <= 9,
            None => dig_val(c) is None,
        },
{
    if '0' <= c && c <= '9' {
        Some(c as u32 - 48)
    } else {
        None
    }
}

/// The value of `c` as a lower-case hexadecimal digit.
fn hex_of(c: char) -> (r: Option<u32>)
    ensures
        match r {
            Some(d) => hex_val(c) == Some(d as int) && d <= 15,
            None => hex_val(c) is None,
        },
{
    if '0' <= c && c <= '9' {
        Some(c as u32 - 48)
    } else if 'a' <= c && c <= 'f' {
        Some(c as u32 - 87)
    } else {
        None
    }
}

/// Consumes the single character `c` at `pos`.
fn char_lit_at(v: &Vec<char>, pos: usize, c: char) -> (r: Option<usize>)
    requires
        pos <= v@.len(),
    ensures
        match r {
            Some(p2) => p2 == pos + 1 && p2 <= v@.len() && parse_lit(
                v@.skip(pos as int),
                seq![c],
            ) == Some(v@.skip(p2 as int)),
            None => parse_lit(v@.skip(pos as int), seq![c]) is None,
        },
{
    if pos < v.len() && v[pos] == c {
        proof {
            assert(v@.skip(pos as int).take(1) =~= seq![c]);
            assert(v@.skip(pos as int).skip(1) =~= v@.skip(pos + 1));
        }
        Some(pos + 1)
    } else {
        proof {
            if pos < v@.len() {
                assert(v@.skip(pos as int).take(1)[0] == v@[pos as int]);
            }
        }
        None
    }
}

/// Consumes the exact text `lit` at `pos`.
fn lit_at(v: &Vec<char>, pos: usize, lit: &Vec<char>) -> (r: Option<usize>)
    requires
        pos <= v@.len(),
    ensures
        match r {
            Some(p2) => p2 == pos + lit@.len() && p2 <= v@.len() && parse_lit(
                v@.skip(pos as int),
                lit@,
            ) == Some(v@.skip(p2 as int)),
            None => parse_lit(v@.skip(pos as int), lit@) is None,
        },
{
    let n = lit.len();
    let vn = v.len();
    if vn - pos < n {
        return None;
    }
    let mut j: usize = 0;
    while j < n
        invariant
            j <= n,
            n == lit@.len(),
            vn == v@.len(),
            pos + n <= vn,
            forall|k: int| 0 <= k < j ==> v@[pos + k] == lit@[k],
        decreases n - j,
    {
        if v[pos + j] != lit[j] {
            proof {
                let s = v@.skip(pos as int);
                assert(s.take(n as int)[j as int] == v@[pos + j]);
                assert(s.take(n as int) != lit@);
            }
            return None;
        }
        j += 1;
    }
    proof {
        let s = v@.skip(pos as int);
        assert(s.take(n as int) =~= lit@);
        assert(s.skip(n as int) =~= v@.skip(pos + n));
    }
    Some(pos + n)
}

/// Reads a JSON string body at `pos`, returning the unescaped characters and
/// the position after the closing quote.
fn string_body_at(v: &Vec<char>, pos: usize) -> (r: Option<(Vec<char>, usize)>)
    requires
        pos <= v@.len(),
    ensures
        match r {
            Some(p2) => pos < p2.1 <= v@.len() && parse_string_body(v@.skip(pos as int)) == Some(
                (p2.0@, v@.skip(p2.1 as int)),
            ),
            None => parse_string_body(v@.skip(pos as int)) is None,
        },
    decreases v@.len() - pos,
{
    let ghost s = v@.skip(pos as int);
    if pos == v.len() {
        return None;
    }
    let c = v[pos];
    proof {
        assert(s[0] == c);
    }
    if c == '"' {
        proof {
            assert(s.skip(1) =~= v@.skip(pos + 1));
        }
        return Some((Vec::new(), pos + 1));
    }
    if c == '\\' {
        if pos + 1 < v.len() {
            let e = v[pos + 1];
            proof {
                assert(s[1] == e);
            }
            if e == '"' || e == '\\' {
                proof {
                    assert(s.skip(2) =~= v@.skip(pos + 2));
                }
                match string_body_at(v, pos + 2) {
                    Some((mut body, p2)) => {
                        body.insert(0, e);
                        proof {
                            assert(body@ =~= seq![s[1]] + body@.skip(1));
                        }
                        return Some((body, p2));
                    },
                    None => {
                        return None;
                    },
                }
            } else if e == 'u' && v.len() - pos > 5 && v[pos + 2] == '0' && v[pos + 3] == '0' {
                proof {
                    assert(s[2] == v@[pos + 2]);
                    assert(s[3] == v@[pos + 3]);
                    assert(s[4] == v@[pos + 4]);
                    assert(s[5] == v@[pos + 5]);
                    assert(s.len() >= 6);
                }
                match (hex_of(v[pos + 4]), hex_of(v[pos + 5])) {
                    (Some(h1), Some(h2)) => {
                        let code = 16 * h1 + h2;
                        let ch = (code as u8) as char;
                        proof {
                            assert(s.skip(6) =~= v@.skip(pos + 6));
                        }
                        match string_body_at(v, pos + 6) {
                            Some((mut body, p2)) => {
                                body.insert(0, ch);
                                proof {
                                    assert(body@ =~= seq![ch] + body@.skip(1));
                                }
                                return Some((body, p2));
                            },
                            None => {
                                return None;
                            },
                        }
                    },
                    _ => {
                        return None;
                    },
                }
            } else {
                return None;
            }
        } else {
            proof {
                assert(s.len() == 1);
            }
            return None;
        }
    }
    if (c as u32) < 32 {
        return None;
    }
    proof {
        assert(s.skip(1) =~= v@.skip(pos + 1));
    }
    match string_body_at(v, pos + 1) {
        Some((mut body, p2)) => {
            body.insert(0, c);
            proof {
                assert(body@ =~= seq![c] + body@.skip(1));
            }
            Some((body, p2))
        },
        None => None,
    }
}

/// Reads two decimal digits at `pos`.
fn pad2_at(v: &Vec<char>, pos: usize) -> (r: Option<(u32, usize)>)
    requires
        pos <= v@.len(),
    ensures
        match r {
            Some(p2) => p2.1 == pos + 2 && p2.1 <= v@.len() && p2.0 <= 99 && parse_pad2(
                v@.skip(pos as int),
            ) == Some((p2.0 as int, v@.skip(p2.1 as int))),
            None => parse_pad2(v@.skip(pos as int)) is None,
        },
{
    let ghost s = v@.skip(pos as int);
    if v.len() - pos < 2 {
        return None;
    }
    proof {
        assert(s[0] == v@[pos as int]);
        assert(s[1] == v@[pos + 1]);
    }
    match (dig_of(v[pos]), dig_of(v[pos + 1])) {
        (Some(d0), Some(d1)) => {
            proof {
                assert(s.skip(2) =~= v@.skip(pos + 2));
            }
            Some((10 * d0 + d1, pos + 2))
        },
        _ => None,
    }
}

/// Reads four decimal digits at `pos`.
fn pad4_at(v: &Vec<char>, pos: usize) -> (r: Option<(u32, usize)>)
    requires
        pos <= v@.len(),
    ensures
        match r {
            Some(p2) => p2.1 == pos + 4 && p2.1 <= v@.len() && p2.0 <= 9999 && parse_pad4(
                v@.skip(pos as int),
            ) == Some((p2.0 as int, v@.skip(p2.1 as int))),
            None => parse_pad4(v@.skip(pos as int)) is None,
        },
{
    let ghost s = v@.skip(pos as int);
    if v.len() - pos < 4 {
        return None;
    }
    proof {
        assert(s[0] == v@[pos as int]);
        assert(s[1] == v@[pos + 1]);
        assert(s[2] == v@[pos + 2]);
        assert(s[3] == v@[pos + 3]);
    }
    match (dig_of(v[pos]), dig_of(v[pos + 1]), dig_of(v[pos + 2]), dig_of(v[pos + 3])) {
        (Some(d0), Some(d1), Some(d2), Some(d3)) => {
            proof {
                assert(s.skip(4) =~= v@.skip(pos + 4));
            }
            Some((1000 * d0 + 100 * d1 + 10 * d2 + d3, pos + 4))
        },
        _ => None,
    }
}

/// Reads a timestamp at `pos`.
fn time_at(v: &Vec<char>, pos: usize) -> (r: Option<(Timestamp, usize)>)
    requires
        pos <= v@.len(),
    ensures
        match r {
            Some(p2) => pos < p2.1 <= v@.len() && p2.0.wf() && parse_time(v@.skip(pos as int))
                == Some((p2.0, v@.skip(p2.1 as int))),
            None => parse_time(v@.skip(pos as int)) is None,
        },
{
    let (y, p1) = match pad4_at(v, pos) {
        Some(x) => x,
        None => {
            return None;
        },
    };
    let p2 = match char_lit_at(v, p1, '-') {
        Some(x) => x,
        None => {
            return None;
        },
    };
    let (mo, p3) = match pad2_at(v, p2) {
        Some(x) => x,
        None => {
            return None;
        },
    };
    let p4 = match char_lit_at(v, p3, '-') {
        Some(x) => x,
        None => {
            return None;
        },
    };
    let (d, p5) = match pad2_at(v, p4) {
        Some(x) => x,
        None => {
            return None;
        },
    };
    let p6 = match char_lit_at(v, p5, 'T') {
        Some(x) => x,
        None => {
            return None;
        },
    };
    let (h, p7) = match pad2_at(v, p6) {
        Some(x) => x,
        None => {
            return None;
        },
    };
    let p8 = match char_lit_at(v, p7, ':') {
        Some(x) => x,
        None => {
            return None;
        },
    };
    let (mi, p9) = match pad2_at(v, p8) {
        Some(x) => x,
        None => {
            return None;
        },
    };
    let p10 = match char_lit_at(v, p9, ':') {
        Some(x) => x,
        None => {
            return None;
        },
    };
    let (sec, p11) = match pad2_at(v, p10) {
        Some(x) => x,
        None => {
            return None;
        },
    };
    let t = Timestamp { year: y, month: mo, day: d, hour: h, minute: mi, second: sec };
    if 1 <= mo && mo <= 12 && 1 <= d && d <= 31 && h <= 23 && mi <= 59 && sec <= 59 {
        Some((t, p11))
    } else {
        None
    }
}

/// The characters of `{"name":"`, as a vector.
fn lit_name_vec() -> (r: Vec<char>)
    ensures
        r@ == lit_name(),
{
    let mut r: Vec<char> = Vec::new();
    r.push('{');
    r.push('"');
    r.push('n');
    r.push('a');
    r.push('m');
    r.push('e');
    r.push('"');
    r.push(':');
    r.push('"');
    assert(r@ =~= lit_name());
    r
}

/// The characters of `","description":"`, as a vector.
fn lit_desc_vec() -> (r: Vec<char>)
    ensures
        r@ == lit_desc(),
{
    let mut r: Vec<char> = Vec::new();
    r.push(',');
    r.push('"');
    r.push('d');
    r.push('e');
    r.push('s');
    r.push('c');
    r.push('r');
    r.push('i');
    r.push('p');
    r.push('t');
    r.push('i');
    r.push('o');
    r.push('n');
    r.push('"');
    r.push(':');
    r.push('"');
    assert(r@ =~= lit_desc());
    r
}

/// The characters of `","priority":"`, as a vector.
fn lit_pri_vec() -> (r: Vec<char>)
    ensures
        r@ == lit_pri(),
{
    let mut r: Vec<char> = Vec::new();
    r.push(',');
    r.push('"');
    r.push('p');
    r.push('r');
    r.push('i');
    r.push('o');
    r.push('r');
    r.push('i');
    r.push('t');
    r.push('y');
    r.push('"');
    r.push(':');
    r.push('"');
    assert(r@ =~= lit_pri());
    r
}

/// The characters of `","add_time":"`, as a vector.
fn lit_time_vec() -> (r: Vec<char>)
    ensures
        r@ == lit_time(),
{
    let mut r: Vec<char> = Vec::new();
    r.push(',');
    r.push('"');
    r.push('a');
    r.push('d');
    r.push('d');
    r.push('_');
    r.push('t');
    r.push('i');
    r.push('m');
    r.push('e');
    r.push('"');
    r.push(':');
    r.push('"');
    assert(r@ =~= lit_time());
    r
}

/// Reads a priority tag with its closing quote at `pos`.
fn pri_at(v: &Vec<char>, pos: usize) -> (r: Option<(Priority, usize)>)
    requires
        pos <= v@.len(),
    ensures
        match r {
            Some(p2) => pos < p2.1 <= v@.len() && parse_pri(v@.skip(pos as int)) == Some(
                (p2.0, v@.skip(p2.1 as int)),
            ),
            None => parse_pri(v@.skip(pos as int)) is None,
        },
{
    let mut low: Vec<char> = Vec::new();
    low.push('L');
    low.push('o');
    low.push('w');
    low.push('"');
    assert(low@ =~= seq!['L', 'o', 'w', '"']);
    if let Some(p) = lit_at(v, pos, &low) {
        return Some((Priority::Low, p));
    }
    let mut med: Vec<char> = Vec::new();
    med.push('M');
    med.push('e');
    med.push('d');
    med.push('i');
    med.push('u');
    med.push('m');
    med.push('"');
    assert(med@ =~= seq!['M', 'e', 'd', 'i', 'u', 'm', '"']);
    if let Some(p) = lit_at(v, pos, &med) {
        return Some((Priority::Medium, p));
    }
    let mut high: Vec<char> = Vec::new();
    high.push('H');
    high.push('i');
    high.push('g');
    high.push('h');
    high.push('"');
    assert(high@ =~= seq!['H', 'i', 'g', 'h', '"']);
    if let Some(p) = lit_at(v, pos, &high) {
        return Some((Priority::High, p));
    }
    None
}

/// Reads one task object at `pos`.
#[verifier::rlimit(60)]
fn task_at(v: &Vec<char>, pos: usize) -> (r: Option<(Task, usize)>)
    requires
        pos <= v@.len(),
    ensures
        match r {
            Some(p2) => pos < p2.1 <= v@.len() && p2.0@.wf() && parse_task(v@.skip(pos as int))
                == Some((p2.0@, v@.skip(p2.1 as int))),
            None => parse_task(v@.skip(pos as int)) is None,
        },
{
    let lname = lit_name_vec();
    let p1 = match lit_at(v, pos, &lname) {
        Some(x) => x,
        None => {
            return None;
        },
    };
    let (name_chars, p2) = match string_body_at(v, p1) {
        Some(x) => x,
        None => {
            return None;
        },
    };
    let ldesc = lit_desc_vec();
    let p3 = match lit_at(v, p2, &ldesc) {
        Some(x) => x,
        None => {
            return None;
        },
    };
    let (desc_chars, p4) = match string_body_at(v, p3) {
        Some(x) => x,
        None => {
            return None;
        },
    };
    let lpri = lit_pri_vec();
    let p5 = match lit_at(v, p4, &lpri) {
        Some(x) => x,
        None => {
            return None;
        },
    };
    let (priority, p6) = match pri_at(v, p5) {
        Some(x) => x,
        None => {
            return None;
        },
    };
    let ltime = lit_time_vec();
    let p7 = match lit_at(v, p6, &ltime) {
        Some(x) => x,
        None => {
            return None;
        },
    };
    let (add_time, p8) = match time_at(v, p7) {
        Some(x) => x,
        None => {
            return None;
        },
    };
    let mut close: Vec<char> = Vec::new();
    close.push('"');
    close.push('}');
    assert(close@ =~= seq!['"', '}']);
    let p9 = match lit_at(v, p8, &close) {
        Some(x) => x,
        None => {
            return None;
        },
    };
    let name = crate::text::string_from_chars(&name_chars);
    let description = crate::text::string_from_chars(&desc_chars);
    Some((Task { name, description, priority, add_time }, p9))
}

/// Reads the inside of the array after `[` at `pos`.
fn list_at(v: &Vec<char>, pos: usize) -> (r: Option<(Vec<Task>, usize)>)
    requires
        pos <= v@.len(),
    ensures
        match r {
            Some(p2) => {
                &&& pos < p2.1 <= v@.len()
                &&& parse_list(v@.skip(pos as int)) == Some(
                    (p2.0@.map_values(|t: Task| t@), v@.skip(p2.1 as int)),
                )
                &&& forall|i: int| 0 <= i < p2.0@.len() ==> (#[trigger] p2.0@[i])@.wf()
            },
            None => parse_list(v@.skip(pos as int)) is None,
        },
    decreases v@.len() - pos,
{
    if let Some(p) = char_lit_at(v, pos, ']') {
        let empty: Vec<Task> = Vec::new();
        proof {
            assert(empty@.map_values(|t: Task| t@) =~= Seq::<TaskView>::empty());
        }
        return Some((empty, p));
    }
    let (t, p1) = match task_at(v, pos) {
        Some(x) => x,
        None => {
            return None;
        },
    };
    proof {
        assert(v@.skip(p1 as int).len() < v@.skip(pos as int).len());
    }
    match char_lit_at(v, p1, ',') {
        Some(p2) => {
            match list_at(v, p2) {
                Some((mut ts, p3)) => {
                    if ts.len() > 0 {
                        let ghost old_ts = ts@;
                        ts.insert(0, t);
                        proof {
                            assert(ts@.map_values(|t: Task| t@) =~= seq![t@] + old_ts.map_values(
                                |t: Task| t@,
                            ));
                        }
                        Some((ts, p3))
                    } else {
                        None
                    }
                },
                None => None,
            }
        },
        None => {
            match char_lit_at(v, p1, ']') {
                Some(p2) => {
                    let mut one: Vec<Task> = Vec::new();
                    one.push(t);
                    proof {
                        assert(one@.map_values(|t: Task| t@) =~= seq![t@]);
                    }
                    Some((one, p2))
                },
                None => None,
            }
        },
    }
}

/// Decodes a whole text as a JSON task array: exactly the inverse of
/// [`encode_tasks`] on canonical texts, and a failure on everything else.
pub fn decode_tasks(v: &Vec<char>) -> (r: Option<Vec<Task>>)
    ensures
        match r {
            Some(ts) => {
                &&& spec_parse_tasks(v@) == Some(ts@.map_values(|t: Task| t@))
                &&& forall|i: int| 0 <= i < ts@.len() ==> (#[trigger] ts@[i])@.wf()
            },
            None => spec_parse_tasks(v@) is None,
        },
{
    proof {
        assert(v@.skip(0) =~= v@);
    }
    let p0 = match char_lit_at(v, 0, '[') {
        Some(x) => x,
        None => {
            return None;
        },
    };
    match list_at(v, p0) {
        Some((ts, p)) => {
            if p == v.len() {
                proof {
                    assert(v@.skip(p as int).len() == 0);
                }
                Some(ts)
            } else {
                proof {
                    assert(v@.skip(p as int).len() != 0);
                }
                None
            }
        },
        None => None,
    }
}

// ---------------------------------------------------------------------------
// The round trip: parsing a canonical encoding yields the encoded sequence.
// ---------------------------------------------------------------------------
/// A text that begins with `lit` parses as `lit` followed by the remainder.
proof fn lemma_parse_lit_prefix(lit: Seq<char>, rest: Seq<char>)
    ensures
        parse_lit(lit + rest, lit) == Some(rest),
{
    let s = lit + rest;
    assert(s.take(lit.len() as int) =~= lit);
    assert(s.skip(lit.len() as int) =~= rest);
}

/// A decimal digit character reads back as its value.
proof fn lemma_dig_roundtrip(d: int)
    requires
        0 <= d <= 9,
    ensures
        dig_val(digit_char(d)) == Some(d),
{
    assert((digit_char(d) as u32) as int == 48 + d);
}

/// A lower-case hexadecimal digit character reads back as its value.
proof fn lemma_hex_roundtrip(d: int)
    requires
        0 <= d <= 15,
    ensures
        hex_val(hex_char(d)) == Some(d),
{
    if d < 10 {
        assert((hex_char(d) as u32) as int == 48 + d);
    } else {
        assert((hex_char(d) as u32) as int == 87 + d);
    }
}

/// A two-digit number reads back as itself.
proof fn lemma_parse_pad2_enc(n: int, rest: Seq<char>)
    requires
        0 <= n <= 99,
    ensures
        parse_pad2(pad2(n) + rest) == Some((n, rest)),
{
    vstd::arithmetic::div_mod::lemma_fundamental_div_mod(n, 10);
    let s = pad2(n) + rest;
    assert(s[0] == digit_char(n / 10));
    assert(s[1] == digit_char(n % 10));
    assert(0 <= n / 10 <= 9);
    assert(0 <= n % 10 <= 9);
    lemma_dig_roundtrip(n / 10);
    lemma_dig_roundtrip(n % 10);
    assert(10 * (n / 10) + n % 10 == n);
    assert(s.skip(2) =~= rest);
}

/// A four-digit number reads back as itself.
proof fn lemma_parse_pad4_enc(n: int, rest: Seq<char>)
    requires
        0 <= n <= 9999,
    ensures
        parse_pad4(pad4(n) + rest) == Some((n, rest)),
{
    vstd::arithmetic::div_mod::lemma_fundamental_div_mod(n, 100);
    let q = n / 100;
    let r = n % 100;
    assert(0 <= q <= 99);
    assert(0 <= r <= 99);
    vstd::arithmetic::div_mod::lemma_fundamental_div_mod(q, 10);
    vstd::arithmetic::div_mod::lemma_fundamental_div_mod(r, 10);
    let s = pad4(n) + rest;
    assert(s[0] == digit_char(q / 10));
    assert(s[1] == digit_char(q % 10));
    assert(s[2] == digit_char(r / 10));
    assert(s[3] == digit_char(r % 10));
    lemma_dig_roundtrip(q / 10);
    lemma_dig_roundtrip(q % 10);
    lemma_dig_roundtrip(r / 10);
    lemma_dig_roundtrip(r % 10);
    assert(1000 * (q / 10) + 100 * (q % 10) + 10 * (r / 10) + r % 10 == n) by {
        assert(10 * (q / 10) + q % 10 == q);
        assert(10 * (r / 10) + r % 10 == r);
        assert(100 * q + r == n);
    }
    assert(s.skip(4) =~= rest);
}

/// Characters with the same code point are the same character.
proof fn lemma_char_codepoint(a: char, b: char)
    requires
        a as u32 == b as u32,
    ensures
        a == b,
{
}

/// An escaped text followed by its closing quote reads back as the original
/// text.
proof fn lemma_parse_esc(x: Seq<char>, rest: Seq<char>)
    ensures
        parse_string_body(esc_str(x) + seq!['"'] + rest) == Some((x, rest)),
    decreases x.len(),
{
    let s = esc_str(x) + seq!['"'] + rest;
    if x.len() == 0 {
        assert(s[0] == '"');
        assert(s.skip(1) =~= rest);
    } else {
        let c = x[0];
        let tail = esc_str(x.skip(1)) + seq!['"'] + rest;
        assert(s =~= esc_char(c) + tail);
        lemma_parse_esc(x.skip(1), rest);
        if c == '"' {
            assert(s[0] == '\\' && s[1] == '"');
            assert(s.skip(2) =~= tail);
            assert(seq![s[1]] + x.skip(1) =~= x);
        } else if c == '\\' {
            assert(s[0] == '\\' && s[1] == '\\');
            assert(s.skip(2) =~= tail);
            assert(seq![s[1]] + x.skip(1) =~= x);
        } else if (c as u32) < 32 {
            let v = (c as u32) as int;
            vstd::arithmetic::div_mod::lemma_fundamental_div_mod(v, 16);
            assert(0 <= v / 16 <= 1);
            assert(0 <= v % 16 <= 15);
            assert(s[0] == '\\' && s[1] == 'u' && s[2] == '0' && s[3] == '0');
            assert(s[4] == hex_char(v / 16));
            assert(s[5] == hex_char(v % 16));
            lemma_hex_roundtrip(v / 16);
            lemma_hex_roundtrip(v % 16);
            assert(16 * (v / 16) + v % 16 == v);
            assert(16 * hex_val(s[4])->Some_0 + hex_val(s[5])->Some_0 == v);
            let ch = (v as u8) as char;
            assert(ch as u32 == v);
            assert(c as u32 == ch as u32);
            lemma_char_codepoint(c, ch);
            assert((((16 * hex_val(s[4])->Some_0 + hex_val(s[5])->Some_0) as u8) as char) == c);
            assert(s.skip(6) =~= tail);
            assert(seq![c] + x.skip(1) =~= x);
        } else {
            assert(s[0] == c);
            assert(s.skip(1) =~= tail);
            assert(seq![c] + x.skip(1) =~= x);
        }
    }
}

/// A priority tag with its closing quote reads back as itself.
proof fn lemma_parse_pri_enc(p: Priority, rest: Seq<char>)
    ensures
        parse_pri(pri_chars(p) + seq!['"'] + rest) == Some((p, rest)),
{
    let s = pri_chars(p) + seq!['"'] + rest;
    match p {
        Priority::Low => {
            assert(s =~= seq!['L', 'o', 'w', '"'] + rest);
            lemma_parse_lit_prefix(seq!['L', 'o', 'w', '"'], rest);
        },
        Priority::Medium => {
            assert(s =~= seq!['M', 'e', 'd', 'i', 'u', 'm', '"'] + rest);
            lemma_parse_lit_prefix(seq!['M', 'e', 'd', 'i', 'u', 'm', '"'], rest);
            if s.len() >= 4 {
                assert(s.take(4)[0] == 'M');
                assert(s.take(4) != seq!['L', 'o', 'w', '"']);
            }
        },
        Priority::High => {
            assert(s =~= seq!['H', 'i', 'g', 'h', '"'] + rest);
            lemma_parse_lit_prefix(seq!['H', 'i', 'g', 'h', '"'], rest);
            if s.len() >= 4 {
                assert(s.take(4)[0] == 'H');
                assert(s.take(4) != seq!['L', 'o', 'w', '"']);
            }
            if s.len() >= 7 {
                assert(s.take(7)[0] == 'H');
                assert(s.take(7) != seq!['M', 'e', 'd', 'i', 'u', 'm', '"']);
            }
        },
    }
}

/// A serialized timestamp reads back as itself.
proof fn lemma_parse_time_enc(t: Timestamp, rest: Seq<char>)
    requires
        t.wf(),
    ensures
        parse_time(time_chars(t) + rest) == Some((t, rest)),
{
    let r10 = pad2(t.second as int) + rest;
    let r9 = seq![':'] + r10;
    let r8 = pad2(t.minute as int) + r9;
    let r7 = seq![':'] + r8;
    let r6 = pad2(t.hour as int) + r7;
    let r5 = seq!['T'] + r6;
    let r4 = pad2(t.day as int) + r5;
    let r3 = seq!['-'] + r4;
    let r2 = pad2(t.month as int) + r3;
    let r1 = seq!['-'] + r2;
    assert(time_chars(t) + rest =~= pad4(t.year as int) + r1);
    lemma_parse_pad4_enc(t.year as int, r1);
    lemma_parse_lit_prefix(seq!['-'], r2);
    lemma_parse_pad2_enc(t.month as int, r3);
    lemma_parse_lit_prefix(seq!['-'], r4);
    lemma_parse_pad2_enc(t.day as int, r5);
    lemma_parse_lit_prefix(seq!['T'], r6);
    lemma_parse_pad2_enc(t.hour as int, r7);
    lemma_parse_lit_prefix(seq![':'], r8);
    lemma_parse_pad2_enc(t.minute as int, r9);
    lemma_parse_lit_prefix(seq![':'], r10);
    lemma_parse_pad2_enc(t.second as int, rest);
}

/// A serialized task object reads back as itself.
proof fn lemma_parse_task_enc(t: TaskView, rest: Seq<char>)
    requires
        t.wf(),
    ensures
        parse_task(task_json(t) + rest) == Some((t, rest)),
{
    let r8 = seq!['"', '}'] + rest;
    let r7 = time_chars(t.add_time) + r8;
    let r6 = lit_time() + r7;
    let r5 = pri_chars(t.priority) + seq!['"'] + r6;
    let r4 = lit_pri() + r5;
    let r3 = esc_str(t.description) + seq!['"'] + r4;
    let r2 = lit_desc() + r3;
    let r1 = esc_str(t.name) + seq!['"'] + r2;
    assert(task_json(t) + rest =~= lit_name() + r1);
    lemma_parse_lit_prefix(lit_name(), r1);
    lemma_parse_esc(t.name, r2);
    lemma_parse_lit_prefix(lit_desc(), r3);
    lemma_parse_esc(t.description, r4);
    lemma_parse_lit_prefix(lit_pri(), r5);
    lemma_parse_pri_enc(t.priority, r6);
    lemma_parse_lit_prefix(lit_time(), r7);
    lemma_parse_time_enc(t.add_time, r8);
    lemma_parse_lit_prefix(seq!['"', '}'], rest);
    assert(t == (TaskView {
        name: t.name,
        description: t.description,
        priority: t.priority,
        add_time: t.add_time,
    }));
}

/// A task object's text is non-empty and opens with a brace.
proof fn lemma_task_json_head(t: TaskView)
    ensures
        task_json(t).len() > 0,
        task_json(t)[0] == '{',
{
    assert(lit_name()[0] == '{');
}

/// A serialized object list followed by `]` reads back as the original
/// sequence.
#[verifier::rlimit(100)]
#[verifier::spinoff_prover]
proof fn lemma_parse_list_enc(ts: Seq<TaskView>, rest: Seq<char>)
    requires
        forall|i: int| 0 <= i < ts.len() ==> (#[trigger] ts[i]).wf(),
    ensures
        parse_list(list_chars(ts) + seq![']'] + rest) == Some((ts, rest)),
    decreases ts.len(),
{
    let s = list_chars(ts) + seq![']'] + rest;
    if ts.len() == 0 {
        assert(s =~= seq![']'] + rest);
        lemma_parse_lit_prefix(seq![']'], rest);
    } else {
        let t = ts[0];
        assert(t.wf());
        lemma_task_json_head(t);
        if ts.len() == 1 {
            let tail = seq![']'] + rest;
            vstd::seq_lib::lemma_concat_associative(task_json(t), seq![']'], rest);
            assert(s == task_json(t) + tail);
            lemma_parse_task_enc(t, tail);
            assert(s[0] == '{');
            assert(s.take(1) != seq![']']) by {
                assert(s.take(1)[0] == '{');
            }
            assert(tail.len() < s.len());
            assert(tail[0] == ']');
            assert(tail.take(1) != seq![',']) by {
                assert(tail.take(1)[0] == ']');
            }
            lemma_parse_lit_prefix(seq![']'], rest);
            assert(seq![t] =~= ts);
        } else {
            let lc = list_chars(ts.skip(1));
            let after_comma = lc + seq![']'] + rest;
            let tail = seq![','] + after_comma;
            assert(list_chars(ts) == task_json(t) + seq![','] + lc);
            vstd::seq_lib::lemma_concat_associative(task_json(t) + seq![','], lc, seq![']']);
            vstd::seq_lib::lemma_concat_associative(task_json(t) + seq![','], lc + seq![']'], rest);
            vstd::seq_lib::lemma_concat_associative(lc, seq![']'], rest);
            vstd::seq_lib::lemma_concat_associative(task_json(t), seq![','], after_comma);
            assert(s == task_json(t) + tail);
            lemma_parse_task_enc(t, tail);
            assert(s[0] == '{');
            assert(s.take(1) != seq![']']) by {
                assert(s.take(1)[0] == '{');
            }
            assert(tail.len() < s.len());
            lemma_parse_lit_prefix(seq![','], after_comma);
            assert(forall|i: int| 0 <= i < ts.skip(1).len() ==> (#[trigger] ts.skip(1)[i]).wf());
            lemma_parse_list_enc(ts.skip(1), rest);
            assert(ts.skip(1).len() > 0);
            assert(seq![t] + ts.skip(1) =~= ts);
        }
    }
}

/// The round trip: decoding the canonical encoding of any sequence of
/// well-formed tasks yields exactly that sequence — same length, same order,
/// and every field equal.
pub proof fn lemma_round_trip(ts: Seq<TaskView>)
    requires
        forall|i: int| 0 <= i < ts.len() ==> (#[trigger] ts[i]).wf(),
    ensures
        spec_parse_tasks(tasks_json(ts)) == Some(ts),
{
    let s = tasks_json(ts);
    let inner = list_chars(ts) + seq![']'] + Seq::<char>::empty();
    assert(s =~= seq!['['] + inner);
    lemma_parse_lit_prefix(seq!['['], inner);
    lemma_parse_list_enc(ts, Seq::<char>::empty());
    assert(inner =~= list_chars(ts) + seq![']'] + Seq::<char>::empty());
}




} // verus!

