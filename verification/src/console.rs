//! The debug console: how log records read, how the whole log is copied,
//! how many records it keeps, and how a long record is cut into rows.

use vstd::prelude::*;
use vstd::string::*;
use vstd::utf8::*;
use crate::api::{level_label, LogEvent, LogLevel};
use crate::text::{join, join_strings, push_char, views};

verus! {

broadcast use {vstd::utf8::encode_utf8_decode_utf8, vstd::utf8::encode_utf8_valid_utf8};

/// How a log record reads on the console: `[LEVEL] [target] message`.
pub open spec fn log_line(level: LogLevel, target: Seq<char>, message: Seq<char>) -> Seq<char> {
    seq!['['] + level_label(level) + seq![']', ' ', '['] + target + seq![']', ' '] + message
}

/// The console line of `event`.
pub open spec fn event_line(event: LogEvent) -> Seq<char> {
    log_line(event.level, event.target@, event.message@)
}

/// The console lines of `logs`, oldest first.
pub open spec fn event_lines(logs: Seq<LogEvent>) -> Seq<Seq<char>> {
    Seq::new(logs.len(), |i: int| event_line(logs[i]))
}

/// The console line of `event`: `[LEVEL] [target] message`.
pub fn format_log(event: &LogEvent) -> (s: String)
    ensures
        s@ == event_line(*event),
{
    let mut s = String::new();
    push_char(&mut s, '[');
    s.append(event.level_str());
    push_char(&mut s, ']');
    push_char(&mut s, ' ');
    push_char(&mut s, '[');
    s.append(event.target.as_str());
    push_char(&mut s, ']');
    push_char(&mut s, ' ');
    s.append(event.message.as_str());
    assert(s@ =~= event_line(*event));
    s
}

/// All records as one text, one line each, oldest first (what "Copy All" copies).
pub fn all_logs_text(logs: &Vec<LogEvent>) -> (s: String)
    ensures
        s@ == join(event_lines(logs@), seq!['\n']),
{
    let mut lines: Vec<String> = Vec::new();
    let mut i: usize = 0;
    while i < logs.len()
        invariant
            i <= logs.len(),
            views(lines@) == event_lines(logs@).take(i as int),
        decreases logs.len() - i,
    {
        let line = format_log(&logs[i]);
        let ghost before = views(lines@);
        lines.push(line);
        assert(views(lines@) =~= before.push(event_line(logs@[i as int])));
        assert(event_lines(logs@).take(i + 1) =~= event_lines(logs@).take(i as int).push(
            event_line(logs@[i as int]),
        ));
        i += 1;
    }
    assert(event_lines(logs@).take(logs.len() as int) =~= event_lines(logs@));
    let sep = "\n";
    proof {
        reveal_strlit("\n");
    }
    assert(sep@ =~= seq!['\n']);
    join_strings(&lines, sep)
}

/// The lines of the newest `max` records, newest first (what the console lists).
pub fn recent_lines(logs: &Vec<LogEvent>, max: usize) -> (r: Vec<String>)
    ensures
        r@.len() == if logs@.len() < max {
            logs@.len()
        } else {
            max as nat
        },
        forall|i: int|
            0 <= i < r@.len() ==> (#[trigger] r@[i])@ == event_line(logs@[logs@.len() - 1 - i]),
{
    let mut r: Vec<String> = Vec::new();
    let n = logs.len();
    let mut i: usize = 0;
    while i < n && i < max
        invariant
            n == logs.len(),
            i <= n,
            i <= max,
            r@.len() == i,
            forall|j: int| 0 <= j < i ==> (#[trigger] r@[j])@ == event_line(logs@[n - 1 - j]),
        decreases n - i,
    {
        let line = format_log(&logs[n - 1 - i]);
        r.push(line);
        i += 1;
    }
    r
}

/// Adds `event` to the console's records; when they then number more than
/// `cap`, the oldest is dropped.
pub fn push_log(logs: &mut Vec<LogEvent>, event: LogEvent, cap: usize)
    ensures
        old(logs)@.len() + 1 <= cap ==> final(logs)@ == old(logs)@.push(event),
        old(logs)@.len() + 1 > cap ==> final(logs)@ == old(logs)@.push(event).drop_first(),
        old(logs)@.len() <= cap ==> final(logs)@.len() <= cap,
{
    logs.push(event);
    if logs.len() > cap {
        logs.remove(0);
        assert(logs@ =~= old(logs)@.push(event).drop_first());
    }
}

/// The seven spaces that indent a continued row.
pub open spec fn row_indent() -> Seq<char> {
    seq![' ', ' ', ' ', ' ', ' ', ' ', ' ']
}

/// The rows after the first one of the bytes `b`, each indented: chunks of
/// `cpl` bytes, the last one shorter.
pub open spec fn later_rows(b: Seq<u8>, cpl: nat) -> Seq<Seq<char>>
    decreases b.len(),
{
    if b.len() <= cpl || cpl == 0 {
        seq![row_indent() + decode_utf8(b)]
    } else {
        seq![row_indent() + decode_utf8(b.take(cpl as int))] + later_rows(b.skip(cpl as int), cpl)
    }
}

/// The console rows of a line with bytes `b` at `cpl` bytes per row: the line
/// itself when it fits; otherwise its first `cpl` bytes, then the rest cut
/// the same way, each later row indented by seven spaces.
pub open spec fn console_rows_of(b: Seq<u8>, cpl: nat) -> Seq<Seq<char>> {
    if b.len() <= cpl || cpl == 0 {
        seq![decode_utf8(b)]
    } else {
        seq![decode_utf8(b.take(cpl as int))] + later_rows(b.skip(cpl as int), cpl)
    }
}

/// Every cut that rows of `cpl` bytes make in `b` falls between characters.
pub open spec fn splits_cleanly(b: Seq<u8>, cpl: nat) -> bool {
    forall|p: int| 0 < p < b.len() && p % (cpl as int) == 0 ==> #[trigger] is_char_boundary(b, p)
}

/// Whether `line` can be cut into rows of `cpl` bytes: `cpl` is positive and
/// every cut falls between two characters.
pub fn console_rows_ok(line: &str, cpl: usize) -> (ok: bool)
    requires
        line.spec_bytes().len() <= usize::MAX,
    ensures
        ok == (cpl > 0 && splits_cleanly(line.spec_bytes(), cpl as nat)),
{
    if cpl == 0 {
        return false;
    }
    let ghost b = line.spec_bytes();
    let n = line.len();
    let mut q: usize = 1;
    while q < n
        invariant
            cpl > 0,
            b == line.spec_bytes(),
            n == b.len(),
            1 <= q,
            forall|p: int| 0 < p < q && p < n && p % (cpl as int) == 0 ==> #[trigger] is_char_boundary(b, p),
        decreases n - q,
    {
        if q % cpl == 0 && !line.is_char_boundary(q) {
            return false;
        }
        q += 1;
    }
    true
}

/// A boundary of `b` at or after `off` is a boundary of `b.skip(off)`.
proof fn lemma_boundary_skip(b: Seq<u8>, off: int, p: int)
    requires
        valid_utf8(b.skip(off)),
        valid_utf8(b),
        0 <= off < p < b.len(),
        is_char_boundary(b, p),
    ensures
        is_char_boundary(b.skip(off), p - off),
{
    is_char_boundary_iff_not_is_continuation_byte(b, p);
    is_char_boundary_iff_not_is_continuation_byte(b.skip(off), p - off);
}

/// Cuts a console line into rows of `cpl` bytes (the first one plain, the
/// later ones indented by seven spaces); a line that fits is one row.
pub fn console_rows(line: &str, cpl: usize) -> (r: Vec<String>)
    requires
        cpl > 0,
        line.spec_bytes().len() <= usize::MAX,
        splits_cleanly(line.spec_bytes(), cpl as nat),
    ensures
        views(r@) == console_rows_of(line.spec_bytes(), cpl as nat),
{
    let ghost b = line.spec_bytes();
    let mut r: Vec<String> = Vec::new();
    if line.len() <= cpl {
        let whole = line.to_owned();
        r.push(whole);
        assert(decode_utf8(b) == line@);
        assert(views(r@) =~= console_rows_of(b, cpl as nat));
        return r;
    }
    let mut rest: &str = line;
    let mut first = true;
    let ghost mut off: int = 0;
    assert(b.skip(0) =~= b);
    while rest.len() > 0
        invariant
            cpl > 0,
            b == line.spec_bytes(),
            b.len() > cpl,
            b.len() <= usize::MAX,
            splits_cleanly(b, cpl as nat),
            0 <= off <= b.len(),
            off < b.len() ==> off % (cpl as int) == 0,
            first <==> off == 0,
            rest.spec_bytes() == b.skip(off),
            off == 0 ==> r@.len() == 0,
            0 < off < b.len() ==> views(r@) + later_rows(b.skip(off), cpl as nat)
                == console_rows_of(b, cpl as nat),
            off == b.len() ==> views(r@) == console_rows_of(b, cpl as nat),
        decreases b.len() - off,
    {
        let ghost rb = rest.spec_bytes();
        let n = rest.len();
        let end = if n < cpl {
            n
        } else {
            cpl
        };
        proof {
            assert(valid_utf8(encode_utf8(rest@)));
            assert(valid_utf8(encode_utf8(line@)));
            vstd::arithmetic::div_mod::lemma_mod_add_multiples_vanish(off, cpl as int);
            if end < n {
                assert(is_char_boundary(b, off + cpl as int));
                lemma_boundary_skip(b, off, off + cpl as int);
                assert(b.skip(off) == rb);
            } else {
                is_char_boundary_start_end_of_seq(rb);
            }
        }
        let (chunk, tail) = rest.split_at(end);
        let ghost before = views(r@);
        if first {
            r.push(chunk.to_owned());
        } else {
            let indent = "       ";
            proof {
                reveal_strlit("       ");
            }
            assert(indent@ =~= row_indent());
            let mut row = String::new();
            row.append(indent);
            row.append(chunk);
            r.push(row);
        }
        proof {
            assert(decode_utf8(encode_utf8(chunk@)) == chunk@);
            assert(chunk.spec_bytes() =~= rb.take(end as int));
            assert(tail.spec_bytes() =~= b.skip(off + end));
            if off == 0 {
                assert(rb.take(end as int) =~= b.take(cpl as int));
                assert(b.skip(cpl as int) =~= b.skip(off + end));
                assert(views(r@) =~= seq![decode_utf8(b.take(cpl as int))]);
            } else {
                assert(views(r@) =~= before.push(row_indent() + decode_utf8(rb.take(end as int))));
                if end < n {
                    assert(later_rows(rb, cpl as nat) == seq![row_indent() + decode_utf8(rb.take(cpl as int))]
                        + later_rows(rb.skip(cpl as int), cpl as nat));
                    assert(rb.skip(cpl as int) =~= b.skip(off + end));
                    assert(views(r@) + later_rows(b.skip(off + end), cpl as nat) =~= before
                        + later_rows(rb, cpl as nat));
                } else {
                    assert(rb.take(end as int) =~= rb);
                    assert(views(r@) =~= before + later_rows(rb, cpl as nat));
                }
            }
            off = off + end;
        }
        rest = tail;
        first = false;
    }
    r
}

/// Rows with their first seven characters (the indent) taken off.
pub open spec fn unindented(rows: Seq<Seq<char>>) -> Seq<Seq<char>> {
    rows.map_values(|r: Seq<char>| r.skip(7))
}

/// The later rows of `b`, put back together without their indents, give
/// the characters of `b`; each starts with the indent.
proof fn lemma_later_rows(b: Seq<u8>, cpl: nat)
    requires
        cpl > 0,
        valid_utf8(b),
        splits_cleanly(b, cpl),
    ensures
        unindented(later_rows(b, cpl)).flatten() == decode_utf8(b),
        forall|i: int|
            0 <= i < later_rows(b, cpl).len() ==> (#[trigger] later_rows(b, cpl)[i]).take(7) == row_indent(),
    decreases b.len(),
{
    let rows = later_rows(b, cpl);
    if b.len() <= cpl {
        let r = row_indent() + decode_utf8(b);
        assert(rows == seq![r]);
        assert(r.skip(7) =~= decode_utf8(b));
        assert(r.take(7) =~= row_indent());
        let u = unindented(rows);
        assert(u =~= seq![decode_utf8(b)]);
        assert(u.drop_first() =~= Seq::<Seq<char>>::empty());
        assert(u.drop_first().flatten() == Seq::<char>::empty());
        assert(u.flatten() =~= decode_utf8(b));
    } else {
        let c = cpl as int;
        let head = b.take(c);
        let tail = b.skip(c);
        vstd::arithmetic::div_mod::lemma_mod_self_0(c);
        assert(is_char_boundary(b, c));
        decode_utf8_split(b, c);
        valid_utf8_split(b, c);
        assert(b.subrange(0, c) == head);
        assert(b.subrange(c, b.len() as int) == tail);
        assert forall|p: int| 0 < p < tail.len() && p % c == 0 implies #[trigger] is_char_boundary(tail, p) by {
            vstd::arithmetic::div_mod::lemma_mod_add_multiples_vanish(p, c);
            assert((c + p) % c == 0);
            assert(is_char_boundary(b, p + c));
            lemma_boundary_skip(b, c, p + c);
        }
        lemma_later_rows(tail, cpl);
        let first = row_indent() + decode_utf8(head);
        let rest = later_rows(tail, cpl);
        assert(rows == seq![first] + rest);
        assert(first.skip(7) =~= decode_utf8(head));
        assert(first.take(7) =~= row_indent());
        let u = unindented(rows);
        assert(u.first() == decode_utf8(head));
        assert(u.drop_first() =~= unindented(rest));
        assert(u.flatten() =~= decode_utf8(b));
        assert forall|i: int| 0 <= i < rows.len() implies (#[trigger] rows[i]).take(7) == row_indent() by {
            if i > 0 {
                assert(rows[i] == rest[i - 1]);
            }
        }
    }
}

/// The console shows every character of a line: its first row, followed by
/// the later rows without their seven-space indent, gives the line back;
/// every later row starts with that indent.
pub proof fn law_console_rows_keep_line(b: Seq<u8>, cpl: nat)
    requires
        cpl > 0,
        valid_utf8(b),
        splits_cleanly(b, cpl),
    ensures
        console_rows_of(b, cpl)[0] + unindented(console_rows_of(b, cpl).drop_first()).flatten()
            == decode_utf8(b),
        forall|i: int|
            1 <= i < console_rows_of(b, cpl).len() ==> (#[trigger] console_rows_of(b, cpl)[i]).take(7)
                == row_indent(),
{
    let rows = console_rows_of(b, cpl);
    if b.len() <= cpl {
        assert(rows.drop_first() =~= Seq::<Seq<char>>::empty());
        assert(unindented(rows.drop_first()) =~= Seq::<Seq<char>>::empty());
        assert(unindented(rows.drop_first()).flatten() == Seq::<char>::empty());
        assert(rows[0] + Seq::<char>::empty() =~= decode_utf8(b));
    } else {
        let c = cpl as int;
        let tail = b.skip(c);
        vstd::arithmetic::div_mod::lemma_mod_self_0(c);
        assert(is_char_boundary(b, c));
        decode_utf8_split(b, c);
        valid_utf8_split(b, c);
        assert(b.subrange(0, c) == b.take(c));
        assert(b.subrange(c, b.len() as int) == tail);
        assert forall|p: int| 0 < p < tail.len() && p % c == 0 implies #[trigger] is_char_boundary(tail, p) by {
            vstd::arithmetic::div_mod::lemma_mod_add_multiples_vanish(p, c);
            assert((c + p) % c == 0);
            assert(is_char_boundary(b, p + c));
            lemma_boundary_skip(b, c, p + c);
        }
        lemma_later_rows(tail, cpl);
        assert(rows.drop_first() =~= later_rows(tail, cpl));
        assert forall|i: int| 1 <= i < rows.len() implies (#[trigger] rows[i]).take(7) == row_indent() by {
            assert(rows[i] == later_rows(tail, cpl)[i - 1]);
        }
    }
}

} // verus!
