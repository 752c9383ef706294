use childtime::capture::{classify_run, tracer_args};
use childtime::error::TimingError;
use childtime::event::RawTraceEvent;
use childtime::number::{parse_i64, parse_u64};
use childtime::parse::{parse_line, parse_trace};
use childtime::reduce::{measure, reduce, Timings};
use childtime::split::split_pieces;

fn times(user: u64, system: u64, start: u64, write: u64) -> Timings {
    Timings { user_ns: user, system_ns: system, start_ns: start, write_ns: write }
}

#[test]
fn split_drops_empty_pieces() {
    let r = split_pieces(b"  a bc  d ", b' ');
    assert_eq!(r, vec![b"a".to_vec(), b"bc".to_vec(), b"d".to_vec()]);
    assert!(split_pieces(b"", b'\n').is_empty());
    assert!(split_pieces(b"\n\n", b'\n').is_empty());
}

#[test]
fn numerals() {
    assert_eq!(parse_u64(b"0"), Some(0));
    assert_eq!(parse_u64(b"1234"), Some(1234));
    assert_eq!(parse_u64(b"18446744073709551615"), Some(u64::MAX));
    assert_eq!(parse_u64(b"18446744073709551616"), None);
    assert_eq!(parse_u64(b""), None);
    assert_eq!(parse_u64(b"12a"), None);
    assert_eq!(parse_i64(b"-14"), Some(-14));
    assert_eq!(parse_i64(b"-9223372036854775808"), Some(i64::MIN));
    assert_eq!(parse_i64(b"9223372036854775808"), None);
    assert_eq!(parse_i64(b"-"), None);
}

#[test]
fn lines_of_each_kind() {
    match parse_line(b"100 7 start") {
        Some(RawTraceEvent::ProcessStart { pid, timestamp }) => {
            assert_eq!((pid, timestamp), (7, 100));
        }
        _ => panic!("expected a start"),
    }
    match parse_line(b"150 7 enter write 1 0x10 2") {
        Some(RawTraceEvent::SyscallEnter { pid, name, args, timestamp }) => {
            assert_eq!((pid, timestamp), (7, 150));
            assert_eq!(name, b"write".to_vec());
            assert_eq!(args, vec![b"1".to_vec(), b"0x10".to_vec(), b"2".to_vec()]);
        }
        _ => panic!("expected an entry"),
    }
    match parse_line(b"170 7 exit write -9") {
        Some(RawTraceEvent::SyscallExit { pid, name, return_code, timestamp }) => {
            assert_eq!((pid, timestamp, return_code), (7, 170, -9));
            assert_eq!(name, b"write".to_vec());
        }
        _ => panic!("expected an exit"),
    }
    assert!(parse_line(b"170 7 signal SIGCHLD").is_none());
    assert!(parse_line(b"170 7 start extra").is_none());
    assert!(parse_line(b"x 7 start").is_none());
    assert!(parse_line(b"170 7 exit write").is_none());
    assert!(parse_line(b"").is_none());
}

#[test]
fn immediate_write_is_mostly_system_time() {
    let log = b"1000 42 start\n1010 42 enter write 1 0x1 2\n1800 42 exit write 2\n";
    assert_eq!(measure(log), Ok(times(10, 790, 1000, 1800)));
}

#[test]
fn computing_before_writing_adds_user_time() {
    let quick = measure(b"1000 42 start\n1010 42 enter write 1 0x1 2\n1800 42 exit write 2\n").unwrap();
    let slow = measure(b"1000 42 start\n900000 42 enter write 1 0x1 2\n900790 42 exit write 2\n").unwrap();
    assert_eq!(slow, times(899000, 790, 1000, 900790));
    assert!(slow.user_ns > quick.user_ns);
}

#[test]
fn every_call_is_counted() {
    let log = b"0 5 start\n\
                100 5 enter brk 0\n\
                130 5 exit brk 4096\n\
                200 5 enter read 0 0x2 10\n\
                260 5 exit read 0\n\
                400 5 enter write 1 0x3 3\n\
                450 5 exit write 3\n\
                600 5 enter write 1 0x3 3\n\
                650 5 exit write 3\n";
    let t = measure(log).unwrap();
    assert_eq!(t, times(100 + 70 + 140, 30 + 60 + 50, 0, 450));
    assert_eq!(t.user_ns + t.system_ns, t.write_ns - t.start_ns);
}

#[test]
fn silent_program_has_no_output() {
    let log = b"0 5 start\n100 5 enter brk 0\n130 5 exit brk 4096\n200 5 enter exit_group 0\n";
    assert_eq!(measure(log), Err(TimingError::NoOutputObserved));
}

#[test]
fn other_descriptors_and_empty_writes_do_not_count() {
    let stderr = b"0 5 start\n10 5 enter write 2 0x1 4\n20 5 exit write 4\n";
    assert_eq!(measure(stderr), Err(TimingError::NoOutputObserved));
    let empty = b"0 5 start\n10 5 enter write 1 0x1 0\n20 5 exit write 0\n";
    assert_eq!(measure(empty), Err(TimingError::NoOutputObserved));
    let failed = b"0 5 start\n10 5 enter write 1 0x1 4\n20 5 exit write -32\n";
    assert_eq!(measure(failed), Err(TimingError::NoOutputObserved));
}

#[test]
fn first_record_must_be_a_start() {
    let log = b"10 5 enter write 1 0x1 4\n0 5 start\n20 5 exit write 4\n";
    assert!(matches!(parse_trace(log), Err(TimingError::MalformedTrace)));
    assert_eq!(measure(log), Err(TimingError::MalformedTrace));
    assert_eq!(measure(b""), Err(TimingError::MalformedTrace));
    assert_eq!(measure(b"garbage only\n"), Err(TimingError::MalformedTrace));
    assert!(matches!(reduce(&Vec::new()), Err(TimingError::MalformedTrace)));
}

#[test]
fn unknown_records_are_skipped() {
    let plain = b"0 5 start\n10 5 enter write 1 0x1 4\n20 5 exit write 4\n";
    let noisy = b"# tracer 2.0\n0 5 start\n5 5 signal 17\nrandom text\n10 5 enter write 1 0x1 4\n\n15 5 sched switch\n20 5 exit write 4\n";
    assert_eq!(measure(noisy), measure(plain));
    assert_eq!(measure(plain), Ok(times(10, 10, 0, 20)));
    assert_eq!(parse_trace(noisy).unwrap().len(), 3);
}

#[test]
fn descendants_are_ignored() {
    let log = b"0 5 start\n10 6 start\n12 6 enter write 1 0x1 4\n14 6 exit write 4\n\
                30 5 enter write 1 0x1 4\n40 5 exit write 4\n";
    assert_eq!(measure(log), Ok(times(30, 10, 0, 40)));
}

#[test]
fn new_image_restarts_measurement() {
    let log = b"0 5 start\n10 5 enter execve 0\n500 5 start\n510 5 enter write 1 0x1 4\n530 5 exit write 4\n";
    assert_eq!(measure(log), Ok(times(10, 20, 500, 530)));
}

#[test]
fn backwards_timestamps_count_as_no_time() {
    let log = b"100 5 start\n50 5 enter write 1 0x1 4\n120 5 exit write 4\n";
    assert_eq!(measure(log), Ok(times(0, 20, 100, 120)));
}

#[test]
fn tracer_argument_vector() {
    let args = vec![b"-c".to_vec(), b"echo hi".to_vec()];
    let r = tracer_args(b"/tmp/log", b"/bin/sh", &args);
    let expected: Vec<Vec<u8>> = vec![
        b"trace".to_vec(),
        b"-o".to_vec(),
        b"/tmp/log".to_vec(),
        b"/bin/sh".to_vec(),
        b"-c".to_vec(),
        b"echo hi".to_vec(),
    ];
    assert_eq!(r, expected);
}

#[test]
fn run_outcomes() {
    assert_eq!(classify_run(false, true, Some(0)), Err(TimingError::LaunchFailure));
    assert_eq!(classify_run(true, false, None), Err(TimingError::LaunchFailure));
    assert_eq!(classify_run(true, true, None), Err(TimingError::ChildCrashed));
    assert_eq!(classify_run(true, true, Some(3)), Ok(3));
    assert_eq!(classify_run(true, true, Some(0)), Ok(0));
}
