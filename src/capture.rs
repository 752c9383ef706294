//! The decisions around running the tracer: the argument vector that wraps
//! the caller's command, and what the way the run ended means.

use vstd::prelude::*;
use crate::error::TimingError;
use crate::split::views;

verus! {

/// The tracer's subcommand that selects trace mode.
pub open spec fn trace_word() -> Seq<u8> {
    seq![116u8, 114, 97, 99, 101]
}

/// The tracer's option that names the log file.
pub open spec fn output_flag() -> Seq<u8> {
    seq![45u8, 111]
}

/// The arguments handed to the tracer: trace mode, the log destination, then
/// the program and its own arguments, unchanged and in order.
pub open spec fn tracer_argv(log_path: Seq<u8>, program: Seq<u8>, args: Seq<Seq<u8>>) -> Seq<Seq<u8>> {
    seq![trace_word(), output_flag(), log_path, program] + args
}

/// Builds the tracer's argument vector for running `program` with `args`
/// and writing the log to `log_path`.
pub fn tracer_args(log_path: &[u8], program: &[u8], args: &Vec<Vec<u8>>) -> (r: Vec<Vec<u8>>)
    ensures
        views(r@) == tracer_argv(log_path@, program@, views(args@)),
{
    let mut r: Vec<Vec<u8>> = Vec::new();
    let trace: Vec<u8> = vec![116u8, 114, 97, 99, 101];
    let flag: Vec<u8> = vec![45u8, 111];
    let path = vstd::slice::slice_to_vec(log_path);
    let prog = vstd::slice::slice_to_vec(program);
    let ghost heads = seq![trace@, flag@, path@, prog@];
    r.push(trace);
    r.push(flag);
    r.push(path);
    r.push(prog);
    assert(views(r@) =~= heads);
    let mut i: usize = 0;
    while i < args.len()
        invariant
            i <= args@.len(),
            views(r@) =~= heads + views(args@).subrange(0, i as int),
        decreases args@.len() - i,
    {
        let ghost before = r@;
        let a = vstd::slice::slice_to_vec(args[i].as_slice());
        assert(views(args@)[i as int] == args@[i as int]@);
        r.push(a);
        assert(views(r@) =~= views(before).push(a@));
        i = i + 1;
    }
    assert(views(args@).subrange(0, i as int) =~= views(args@));
    assert(heads =~= seq![trace_word(), output_flag(), log_path@, program@]);
    r
}

/// What the end of a tracer run means: `LaunchFailure` when the program was
/// not found or the tracer could not be started (nothing ran), `ChildCrashed`
/// when the tracer ended without an exit code (killed by a signal), else the
/// exit code, which is passed on and is no error even when it is not zero.
pub fn classify_run(program_found: bool, tracer_spawned: bool, exit_code: Option<i32>) -> (r: Result<i32, TimingError>)
    ensures
        !program_found || !tracer_spawned ==> r == Err::<i32, TimingError>(TimingError::LaunchFailure),
        program_found && tracer_spawned && exit_code is None ==> r == Err::<i32, TimingError>(TimingError::ChildCrashed),
        program_found && tracer_spawned ==> (exit_code matches Some(c) ==> r == Ok::<i32, TimingError>(c)),
{
    if !program_found || !tracer_spawned {
        Err(TimingError::LaunchFailure)
    } else {
        match exit_code {
            Some(c) => Ok(c),
            None => Err(TimingError::ChildCrashed),
        }
    }
}

} // verus!
