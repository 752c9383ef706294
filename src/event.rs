//! Trace events, as executable values and as their mathematical model.

use vstd::prelude::*;
use crate::split::views;

verus! {

/// One record of the trace log.
pub enum RawTraceEvent {
    /// The traced process began executing a new image.
    ProcessStart { pid: u64, timestamp: u64 },
    /// A system call was entered, with its arguments as written in the log.
    SyscallEnter { pid: u64, name: Vec<u8>, args: Vec<Vec<u8>>, timestamp: u64 },
    /// A system call returned.
    SyscallExit { pid: u64, name: Vec<u8>, return_code: i64, timestamp: u64 },
}

/// The model of a [`RawTraceEvent`]: the same record over sequences.
pub ghost enum TraceEvent {
    ProcessStart { pid: u64, timestamp: u64 },
    SyscallEnter { pid: u64, name: Seq<u8>, args: Seq<Seq<u8>>, timestamp: u64 },
    SyscallExit { pid: u64, name: Seq<u8>, return_code: i64, timestamp: u64 },
}

impl TraceEvent {
    pub open spec fn pid(self) -> u64 {
        match self {
            TraceEvent::ProcessStart { pid, .. } => pid,
            TraceEvent::SyscallEnter { pid, .. } => pid,
            TraceEvent::SyscallExit { pid, .. } => pid,
        }
    }

    pub open spec fn timestamp(self) -> u64 {
        match self {
            TraceEvent::ProcessStart { timestamp, .. } => timestamp,
            TraceEvent::SyscallEnter { timestamp, .. } => timestamp,
            TraceEvent::SyscallExit { timestamp, .. } => timestamp,
        }
    }
}

impl View for RawTraceEvent {
    type V = TraceEvent;

    open spec fn view(&self) -> TraceEvent {
        match self {
            RawTraceEvent::ProcessStart { pid, timestamp } => TraceEvent::ProcessStart {
                pid: *pid,
                timestamp: *timestamp,
            },
            RawTraceEvent::SyscallEnter { pid, name, args, timestamp } => TraceEvent::SyscallEnter {
                pid: *pid,
                name: name@,
                args: views(args@),
                timestamp: *timestamp,
            },
            RawTraceEvent::SyscallExit { pid, name, return_code, timestamp } =>
                TraceEvent::SyscallExit {
                pid: *pid,
                name: name@,
                return_code: *return_code,
                timestamp: *timestamp,
            },
        }
    }
}

impl RawTraceEvent {
    pub fn pid(&self) -> (r: u64)
        ensures
            r == self@.pid(),
    {
        match self {
            RawTraceEvent::ProcessStart { pid, .. } => *pid,
            RawTraceEvent::SyscallEnter { pid, .. } => *pid,
            RawTraceEvent::SyscallExit { pid, .. } => *pid,
        }
    }

    pub fn timestamp(&self) -> (r: u64)
        ensures
            r == self@.timestamp(),
    {
        match self {
            RawTraceEvent::ProcessStart { timestamp, .. } => *timestamp,
            RawTraceEvent::SyscallEnter { timestamp, .. } => *timestamp,
            RawTraceEvent::SyscallExit { timestamp, .. } => *timestamp,
        }
    }
}

/// The models of a sequence of events.
pub open spec fn event_views(v: Seq<RawTraceEvent>) -> Seq<TraceEvent> {
    v.map_values(|e: RawTraceEvent| e@)
}

} // verus!
