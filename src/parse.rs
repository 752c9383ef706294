//! The trace log format and its parser.
//!
//! A log is a sequence of lines, one record per line, its fields separated by
//! spaces:
//!
//! ```text
//! <timestamp> <pid> start
//! <timestamp> <pid> enter <name> <argument>...
//! <timestamp> <pid> exit <name> <return code>
//! ```
//!
//! Timestamps are nanoseconds on the tracer's clock and pids are unsigned
//! decimals; a return code is a signed decimal. A line of any other shape is
//! a record of a kind this library does not know, and is skipped.

use vstd::prelude::*;
use crate::error::TimingError;
use crate::event::{RawTraceEvent, TraceEvent, event_views};
use crate::number::{is_numeral, is_signed_numeral, numeral_value, parse_i64, parse_u64, signed_value};
use crate::split::{pieces, split_pieces, views};

verus! {

pub open spec fn start_word() -> Seq<u8> {
    seq![115u8, 116, 97, 114, 116]
}

pub open spec fn enter_word() -> Seq<u8> {
    seq![101u8, 110, 116, 101, 114]
}

pub open spec fn exit_word() -> Seq<u8> {
    seq![101u8, 120, 105, 116]
}

/// `s` is a numeral whose value fits in a `u64`.
pub open spec fn is_u64_field(s: Seq<u8>) -> bool {
    is_numeral(s) && numeral_value(s) <= u64::MAX
}

/// `s` is a signed numeral whose value fits in an `i64`.
pub open spec fn is_i64_field(s: Seq<u8>) -> bool {
    is_signed_numeral(s) && i64::MIN <= signed_value(s) <= i64::MAX
}

/// The record that the fields `t` of one line make, if any.
pub open spec fn record_of(t: Seq<Seq<u8>>) -> Option<TraceEvent> {
    if t.len() >= 3 && is_u64_field(t[0]) && is_u64_field(t[1]) {
        let timestamp = numeral_value(t[0]) as u64;
        let pid = numeral_value(t[1]) as u64;
        if t[2] == start_word() && t.len() == 3 {
            Some(TraceEvent::ProcessStart { pid, timestamp })
        } else if t[2] == enter_word() && t.len() >= 4 {
            Some(TraceEvent::SyscallEnter { pid, name: t[3], args: t.subrange(4, t.len() as int), timestamp })
        } else if t[2] == exit_word() && t.len() == 5 && is_i64_field(t[4]) {
            Some(TraceEvent::SyscallExit { pid, name: t[3], return_code: signed_value(t[4]) as i64, timestamp })
        } else {
            None
        }
    } else {
        None
    }
}

/// The record on one line of the log, if it holds one.
pub open spec fn line_record(line: Seq<u8>) -> Option<TraceEvent> {
    record_of(pieces(line, 32))
}

/// The records of a sequence of lines, in order, skipping the lines that
/// hold none.
pub open spec fn records(lines: Seq<Seq<u8>>) -> Seq<TraceEvent>
    decreases lines.len(),
{
    if lines.len() == 0 {
        Seq::empty()
    } else {
        let rest = records(lines.drop_last());
        match line_record(lines.last()) {
            Some(e) => rest.push(e),
            None => rest,
        }
    }
}

/// The line holds a record of a known kind.
pub open spec fn is_known(line: Seq<u8>) -> bool {
    line_record(line) is Some
}

/// Taking out the lines of unknown kinds leaves the records as they were.
pub proof fn lemma_records_of_known_lines(lines: Seq<Seq<u8>>)
    ensures
        records(lines.filter(|l: Seq<u8>| is_known(l))) == records(lines),
    decreases lines.len(),
{
    reveal(Seq::filter);
    if lines.len() > 0 {
        lemma_records_of_known_lines(lines.drop_last());
        let f = lines.filter(|l: Seq<u8>| is_known(l));
        let sub = lines.drop_last().filter(|l: Seq<u8>| is_known(l));
        if is_known(lines.last()) {
            assert(f == sub.push(lines.last()));
            assert(f.drop_last() =~= sub);
        } else {
            assert(f == sub);
        }
    }
}

/// The records of a whole log.
pub open spec fn log_records(log: Seq<u8>) -> Seq<TraceEvent> {
    records(pieces(log, 10))
}

/// The first record of `events` is a process start, the anchor of the
/// measurement.
pub open spec fn anchored(events: Seq<TraceEvent>) -> bool {
    events.len() > 0 && events[0] is ProcessStart
}

pub(crate) fn bytes_eq(a: &[u8], b: &[u8]) -> (r: bool)
    ensures
        r == (a@ == b@),
{
    if a.len() != b.len() {
        return false;
    }
    let mut i: usize = 0;
    while i < a.len()
        invariant
            a@.len() == b@.len(),
            i <= a@.len(),
            a@.subrange(0, i as int) == b@.subrange(0, i as int),
        decreases a@.len() - i,
    {
        if a[i] != b[i] {
            assert(a@[i as int] != b@[i as int]);
            return false;
        }
        assert(a@.subrange(0, i + 1) =~= a@.subrange(0, i as int).push(a@[i as int]));
        assert(b@.subrange(0, i + 1) =~= b@.subrange(0, i as int).push(b@[i as int]));
        i = i + 1;
    }
    assert(a@.subrange(0, i as int) =~= a@);
    assert(b@.subrange(0, i as int) =~= b@);
    true
}

/// Parses one line of the log: the record it holds, or `None` for a line of
/// an unknown kind.
pub fn parse_line(line: &[u8]) -> (r: Option<RawTraceEvent>)
    ensures
        r matches Some(e) ==> line_record(line@) == Some(e@),
        r is None ==> line_record(line@) is None,
{
    let t = split_pieces(line, 32);
    assert(views(t@).len() == t@.len());
    if t.len() < 3 {
        return None;
    }
    assert(views(t@)[0] == t@[0]@ && views(t@)[1] == t@[1]@ && views(t@)[2] == t@[2]@);
    let timestamp = match parse_u64(t[0].as_slice()) {
        Some(v) => v,
        None => return None,
    };
    let pid = match parse_u64(t[1].as_slice()) {
        Some(v) => v,
        None => return None,
    };
    let kind = t[2].as_slice();
    let start: Vec<u8> = vec![115u8, 116, 97, 114, 116];
    let enter: Vec<u8> = vec![101u8, 110, 116, 101, 114];
    let exit: Vec<u8> = vec![101u8, 120, 105, 116];
    assert(start@ =~= start_word());
    assert(enter@ =~= enter_word());
    assert(exit@ =~= exit_word());
    if bytes_eq(kind, start.as_slice()) {
        if t.len() == 3 {
            Some(RawTraceEvent::ProcessStart { pid, timestamp })
        } else {
            None
        }
    } else if bytes_eq(kind, enter.as_slice()) {
        if t.len() >= 4 {
            let name = vstd::slice::slice_to_vec(t[3].as_slice());
            let mut args: Vec<Vec<u8>> = Vec::new();
            let mut k: usize = 4;
            while k < t.len()
                invariant
                    4 <= k <= t@.len(),
                    views(t@).len() == t@.len(),
                    views(args@) =~= views(t@).subrange(4, k as int),
                decreases t@.len() - k,
            {
                let ghost before = args@;
                let a = vstd::slice::slice_to_vec(t[k].as_slice());
                args.push(a);
                assert(views(args@) =~= views(before).push(a@));
                k = k + 1;
            }
            assert(views(t@)[3] == t@[3]@);
            Some(RawTraceEvent::SyscallEnter { pid, name, args, timestamp })
        } else {
            None
        }
    } else if bytes_eq(kind, exit.as_slice()) {
        if t.len() == 5 {
            assert(views(t@)[3] == t@[3]@ && views(t@)[4] == t@[4]@);
            let return_code = match parse_i64(t[4].as_slice()) {
                Some(v) => v,
                None => return None,
            };
            let name = vstd::slice::slice_to_vec(t[3].as_slice());
            Some(RawTraceEvent::SyscallExit { pid, name, return_code, timestamp })
        } else {
            None
        }
    } else {
        None
    }
}

/// Parses a whole log into its records, in file order. Fails with
/// `MalformedTrace` exactly when the log holds no record, or its first record
/// is not a process start.
pub fn parse_trace(log: &[u8]) -> (r: Result<Vec<RawTraceEvent>, TimingError>)
    ensures
        r matches Ok(v) ==> anchored(log_records(log@)) && event_views(v@) == log_records(log@),
        r matches Err(e) ==> e == TimingError::MalformedTrace && !anchored(log_records(log@)),
{
    let lines = split_pieces(log, 10);
    let mut events: Vec<RawTraceEvent> = Vec::new();
    let mut i: usize = 0;
    while i < lines.len()
        invariant
            i <= lines@.len(),
            views(lines@) == pieces(log@, 10),
            event_views(events@) =~= records(views(lines@).subrange(0, i as int)),
        decreases lines@.len() - i,
    {
        let ghost before = events@;
        proof {
            assert(views(lines@).subrange(0, i + 1).drop_last() =~= views(lines@).subrange(0, i as int));
            assert(views(lines@)[i as int] == lines@[i as int]@);
        }
        match parse_line(lines[i].as_slice()) {
            Some(e) => {
                events.push(e);
                assert(event_views(events@) =~= event_views(before).push(e@));
            },
            None => {},
        }
        i = i + 1;
    }
    assert(views(lines@).subrange(0, lines@.len() as int) =~= views(lines@));
    if events.len() == 0 {
        return Err(TimingError::MalformedTrace);
    }
    assert(event_views(events@)[0] == events@[0]@);
    match &events[0] {
        RawTraceEvent::ProcessStart { .. } => Ok(events),
        _ => Err(TimingError::MalformedTrace),
    }
}

} // verus!
