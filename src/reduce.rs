//! Reducing a parsed trace to the user-mode and system-mode time between the
//! process start and the first write to standard output.
//!
//! Only events of the process that the first record started are read. Time
//! spent inside a system call (entry to exit) is system time; time between
//! one event and the next system call entry is user time. A later start of
//! the same process (a new image) starts the measurement again. Should a
//! timestamp run backwards, the step counts as no time.

use vstd::prelude::*;
use crate::error::TimingError;
use crate::event::{RawTraceEvent, TraceEvent, event_views};
use crate::parse::{anchored, is_known, lemma_records_of_known_lines, bytes_eq, log_records, parse_trace};
use crate::split::{pieces, views};

verus! {

/// The state of the scan: the start of the measurement, the latest time
/// seen, the two sums, and whether the last call entered was a write to
/// standard output.
pub ghost struct Scan {
    pub start: int,
    pub last: int,
    pub user: int,
    pub system: int,
    pub pending: bool,
}

pub open spec fn write_word() -> Seq<u8> {
    seq![119u8, 114, 105, 116, 101]
}

/// The argument that names standard output: file descriptor 1.
pub open spec fn stdout_fd() -> Seq<u8> {
    seq![49u8]
}

/// `e` enters a write to standard output.
pub open spec fn enters_stdout_write(e: TraceEvent) -> bool {
    match e {
        TraceEvent::SyscallEnter { name, args, .. } => name == write_word() && args.len() > 0
            && args[0] == stdout_fd(),
        _ => false,
    }
}

/// The time from `last` to `t`, or none if `t` is earlier.
pub open spec fn gap(last: int, t: int) -> int {
    if t >= last {
        t - last
    } else {
        0
    }
}

pub open spec fn later(last: int, t: int) -> int {
    if t >= last {
        t
    } else {
        last
    }
}

/// The scan state after event `e`, for the traced process `pid`.
pub open spec fn step(s: Scan, e: TraceEvent, pid: u64) -> Scan {
    if e.pid() != pid {
        s
    } else {
        let t = e.timestamp() as int;
        match e {
            TraceEvent::ProcessStart { .. } => Scan { start: t, last: t, user: 0, system: 0, pending: false },
            TraceEvent::SyscallEnter { .. } => Scan {
                user: s.user + gap(s.last, t),
                last: later(s.last, t),
                pending: enters_stdout_write(e),
                ..s
            },
            TraceEvent::SyscallExit { .. } => Scan {
                system: s.system + gap(s.last, t),
                last: later(s.last, t),
                pending: false,
                ..s
            },
        }
    }
}

/// `e` is the return of a write to standard output that wrote at least one
/// byte, by the traced process.
pub open spec fn ends_search(s: Scan, e: TraceEvent, pid: u64) -> bool {
    s.pending && match e {
        TraceEvent::SyscallExit { pid: p, name, return_code, .. } => p == pid && name
            == write_word() && return_code > 0,
        _ => false,
    }
}

/// The scan from index `i` on, in state `s`: the state just after the first
/// qualifying write, or `None` if there is none.
pub open spec fn scan_from(events: Seq<TraceEvent>, i: int, pid: u64, s: Scan) -> Option<Scan>
    decreases events.len() - i,
{
    if i < 0 || i >= events.len() {
        None
    } else if ends_search(s, events[i], pid) {
        Some(step(s, events[i], pid))
    } else {
        scan_from(events, i + 1, pid, step(s, events[i], pid))
    }
}

/// What a trace reduces to: the final scan state, or the error.
pub open spec fn outcome(events: Seq<TraceEvent>) -> Result<Scan, TimingError> {
    if !anchored(events) {
        Err(TimingError::MalformedTrace)
    } else {
        let t0 = events[0].timestamp() as int;
        let init = Scan { start: t0, last: t0, user: 0, system: 0, pending: false };
        match scan_from(events, 1, events[0].pid(), init) {
            Some(s) => Ok(s),
            None => Err(TimingError::NoOutputObserved),
        }
    }
}

/// The measured times of one run, in nanoseconds of the tracer's clock.
#[derive(Clone, Copy, Debug, PartialEq, Eq, Structural)]
pub struct Timings {
    /// Time spent outside system calls.
    pub user_ns: u64,
    /// Time spent inside system calls, the first write included.
    pub system_ns: u64,
    /// When the measured image started.
    pub start_ns: u64,
    /// When the first write to standard output returned (or the latest
    /// earlier timestamp, were that one later).
    pub write_ns: u64,
}

impl Timings {
    /// The scan state that these times stand for.
    pub open spec fn scan(self) -> Scan {
        Scan {
            start: self.start_ns as int,
            last: self.write_ns as int,
            user: self.user_ns as int,
            system: self.system_ns as int,
            pending: false,
        }
    }
}

/// Reduces a sequence of events to the times between the start of the traced
/// process and its first write of at least one byte to standard output.
pub fn reduce(events: &Vec<RawTraceEvent>) -> (r: Result<Timings, TimingError>)
    ensures
        r matches Ok(t) ==> outcome(event_views(events@)) == Ok::<Scan, TimingError>(t.scan()),
        r matches Err(e) ==> outcome(event_views(events@)) == Err::<Scan, TimingError>(e),
        r matches Ok(t) ==> t.start_ns <= t.write_ns && t.user_ns + t.system_ns == t.write_ns
            - t.start_ns,
{
    let ghost evs = event_views(events@);
    if events.len() == 0 {
        return Err(TimingError::MalformedTrace);
    }
    assert(evs[0] == events@[0]@);
    match &events[0] {
        RawTraceEvent::ProcessStart { .. } => {},
        _ => return Err(TimingError::MalformedTrace),
    }
    let pid = events[0].pid();
    let mut start = events[0].timestamp();
    let mut last = start;
    let mut user: u64 = 0;
    let mut system: u64 = 0;
    let mut pending = false;
    let ghost init = Scan { start: start as int, last: last as int, user: 0, system: 0, pending: false };
    let write: Vec<u8> = vec![119u8, 114, 105, 116, 101];
    let one: Vec<u8> = vec![49u8];
    assert(write@ =~= write_word());
    assert(one@ =~= stdout_fd());
    let mut i: usize = 1;
    while i < events.len()
        invariant
            1 <= i <= events@.len(),
            evs == event_views(events@),
            anchored(evs),
            pid == evs[0].pid(),
            init == (Scan { start: evs[0].timestamp() as int, last: evs[0].timestamp() as int, user: 0, system: 0, pending: false }),
            write@ == write_word(),
            one@ == stdout_fd(),
            start <= last,
            user + system == last - start,
            scan_from(evs, i as int, pid, Scan { start: start as int, last: last as int, user: user as int, system: system as int, pending })
                == scan_from(evs, 1, pid, init),
        decreases events@.len() - i,
    {
        let ghost s = Scan { start: start as int, last: last as int, user: user as int, system: system as int, pending };
        let e = &events[i];
        assert(evs[i as int] == e@);
        if e.pid() == pid {
            let t = e.timestamp();
            let g: u64 = if t >= last { t - last } else { 0 };
            let l: u64 = if t >= last { t } else { last };
            match e {
                RawTraceEvent::ProcessStart { .. } => {
                    start = t;
                    last = t;
                    user = 0;
                    system = 0;
                    pending = false;
                },
                RawTraceEvent::SyscallEnter { name, args, .. } => {
                    user = user + g;
                    last = l;
                    let is_write = bytes_eq(name.as_slice(), write.as_slice());
                    pending = if is_write && args.len() > 0 {
                        assert(views(args@)[0] == args@[0]@);
                        bytes_eq(args[0].as_slice(), one.as_slice())
                    } else {
                        false
                    };
                },
                RawTraceEvent::SyscallExit { name, return_code, .. } => {
                    if pending && *return_code > 0 && bytes_eq(name.as_slice(), write.as_slice()) {
                        assert(ends_search(s, evs[i as int], pid));
                        return Ok(Timings { user_ns: user, system_ns: system + g, start_ns: start, write_ns: l });
                    }
                    system = system + g;
                    last = l;
                    pending = false;
                },
            }
        }
        assert(!ends_search(s, evs[i as int], pid));
        i = i + 1;
    }
    Err(TimingError::NoOutputObserved)
}

proof fn lemma_scan_without_write(events: Seq<TraceEvent>, i: int, pid: u64, s: Scan)
    requires
        0 <= i,
        !s.pending,
        forall|j: int| i <= j < events.len() ==> !(events[j].pid() == pid && enters_stdout_write(#[trigger] events[j])),
    ensures
        scan_from(events, i, pid, s) is None,
    decreases events.len() - i,
{
    if i < events.len() {
        assert(!(events[i].pid() == pid && enters_stdout_write(events[i])));
        lemma_scan_without_write(events, i + 1, pid, step(s, events[i], pid));
    }
}

/// A process that never enters a write to standard output yields no
/// measurement: a trace whose first record is a start, and in which that
/// process never enters a write to file descriptor 1, reduces to
/// `NoOutputObserved`.
pub proof fn silent_process_has_no_output(events: Seq<TraceEvent>)
    requires
        anchored(events),
        forall|j: int| 0 <= j < events.len() ==> !(events[j].pid() == events[0].pid() && enters_stdout_write(#[trigger] events[j])),
    ensures
        outcome(events) == Err::<Scan, TimingError>(TimingError::NoOutputObserved),
{
    let t0 = events[0].timestamp() as int;
    lemma_scan_without_write(events, 1, events[0].pid(), Scan { start: t0, last: t0, user: 0, system: 0, pending: false });
}

/// Records of unknown kinds, wherever they stand between the known ones,
/// change nothing: a log has the records, and so the measurement, of the same
/// log with its unknown lines taken out.
pub proof fn unknown_records_change_nothing(log: Seq<u8>, stripped: Seq<u8>)
    requires
        pieces(stripped, 10) == pieces(log, 10).filter(|l: Seq<u8>| is_known(l)),
    ensures
        log_records(stripped) == log_records(log),
        outcome(log_records(stripped)) == outcome(log_records(log)),
{
    lemma_records_of_known_lines(pieces(log, 10));
}

/// Parses a log and reduces its records: the whole measurement on the text
/// of a trace.
pub fn measure(log: &[u8]) -> (r: Result<Timings, TimingError>)
    ensures
        r matches Ok(t) ==> outcome(log_records(log@)) == Ok::<Scan, TimingError>(t.scan()),
        r matches Err(e) ==> outcome(log_records(log@)) == Err::<Scan, TimingError>(e),
        r matches Ok(t) ==> t.start_ns <= t.write_ns && t.user_ns + t.system_ns == t.write_ns
            - t.start_ns,
{
    match parse_trace(log) {
        Ok(events) => reduce(&events),
        Err(e) => Err(e),
    }
}

} // verus!
