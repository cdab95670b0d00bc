use dataflow::parse::{first_line_end, parse_memory, parse_number, parse_pid};
use dataflow::server::{
    blind_wait_secs, needs_restart, start_plan, stat_source, wait_step, worker_command,
    zookeeper_gave_up, Arg, Backend, Probe, Process, StartStep, StatSource, WaitStep,
};

fn netsoup() -> Backend {
    Backend::Netsoup { workers: 4, readers: 2, shards: Some(8) }
}

fn std_pid(s: &str) -> Option<usize> {
    s.lines().next().and_then(|line| line.parse().ok())
}

fn std_mem(s: &str) -> Option<usize> {
    s.lines()
        .next()
        .and_then(|line| line.split_whitespace().skip(1).next())
        .and_then(|col| col.parse().ok())
}

#[test]
fn a_pid_is_the_first_line_as_a_number() {
    assert_eq!(parse_pid(b"1234\n5678\n"), Some(1234));
    assert_eq!(parse_pid(b"7"), Some(7));
    assert_eq!(parse_pid(b"42\r\n"), Some(42));
    assert_eq!(parse_pid(b"+5\n"), Some(5));
    assert_eq!(parse_pid(b"0012\n"), Some(12));
    assert_eq!(parse_pid(b""), None);
    assert_eq!(parse_pid(b"\n12\n"), None);
    assert_eq!(parse_pid(b"12 \n"), None);
    assert_eq!(parse_pid(b"12a\n"), None);
    assert_eq!(parse_pid(b"-3\n"), None);
    assert_eq!(parse_pid(b"+\n"), None);
    assert_eq!(parse_pid(b"42\r"), None);
}

#[test]
fn numbers_that_do_not_fit_are_refused() {
    let max = usize::MAX.to_string();
    assert_eq!(parse_pid(max.as_bytes()), Some(usize::MAX));
    let more = format!("{}0", max);
    assert_eq!(parse_pid(more.as_bytes()), None);
    assert_eq!(parse_pid(b"18446744073709551616"), None);
    assert_eq!(parse_pid(b"99999999999999999999999999"), None);
}

#[test]
fn memory_is_the_second_column() {
    assert_eq!(parse_memory(b"VmRSS:\t  123456 kB\n"), Some(123456));
    assert_eq!(parse_memory(b"  VmRSS: 9\nVmRSS: 10\n"), Some(9));
    assert_eq!(parse_memory(b"VmRSS: 77"), Some(77));
    assert_eq!(parse_memory(b"VmRSS:\n12\n"), None);
    assert_eq!(parse_memory(b"VmRSS: kB 12\n"), None);
    assert_eq!(parse_memory(b"   \n"), None);
    assert_eq!(parse_memory(b""), None);
}

#[test]
fn parsing_agrees_with_the_standard_library() {
    let samples = [
        "", "1", "12\n", "12\r\n", "12\r", "+12", "++12", "a", " 12", "12 34", "x 34 y", "x\t34",
        "x  y", "\n", "\r\n", "x 18446744073709551615", "x 18446744073709551616", "x +4\nz 9",
        "x\x0b5", "x\x0c6 7",
    ];
    for s in samples {
        assert_eq!(parse_pid(s.as_bytes()), std_pid(s), "pid of {:?}", s);
        assert_eq!(parse_memory(s.as_bytes()), std_mem(s), "memory of {:?}", s);
    }
}

#[test]
fn a_range_of_the_output_is_read_as_a_number() {
    let out = b"ab 305 cd";
    assert_eq!(parse_number(out, 3, 6), Some(305));
    assert_eq!(parse_number(out, 3, 7), None);
    assert_eq!(parse_number(out, 3, 3), None);
    assert_eq!(parse_number(out, 4, 5), Some(0));
    assert_eq!(first_line_end(b"ab\ncd"), Some(2));
    assert_eq!(first_line_end(b"ab\r\ncd"), Some(2));
    assert_eq!(first_line_end(b"\n"), Some(0));
    assert_eq!(first_line_end(b"abc"), Some(3));
    assert_eq!(first_line_end(b""), None);
}

#[test]
fn only_some_backends_restart_between_runs() {
    assert!(needs_restart(&netsoup()));
    assert!(needs_restart(&Backend::Memcached));
    assert!(!needs_restart(&Backend::Mysql));
    assert!(!needs_restart(&Backend::Mssql));
    assert_eq!(blind_wait_secs(&netsoup()), Some(10));
    assert_eq!(blind_wait_secs(&Backend::Mysql), None);
}

#[test]
fn waiting_for_a_server() {
    assert_eq!(wait_step(0, Some(Probe::Connected)), WaitStep::Ready);
    assert_eq!(wait_step(299, Some(Probe::Failed(-21))), WaitStep::Retry);
    assert_eq!(wait_step(5, Some(Probe::Failed(-9))), WaitStep::Fail(-9));
    assert_eq!(wait_step(5, None), WaitStep::Retry);
    assert_eq!(wait_step(300, Some(Probe::Connected)), WaitStep::NeverStarted);
    assert_eq!(wait_step(301, None), WaitStep::NeverStarted);
    assert!(!zookeeper_gave_up(10));
    assert!(zookeeper_gave_up(11));
}

#[test]
fn the_worker_command_line() {
    assert_eq!(
        worker_command(&netsoup(), true),
        Some(vec![
            Arg::EnterSource,
            Arg::Perflock,
            Arg::Worker,
            Arg::DurabilityMemory,
            Arg::Shards(8),
            Arg::Deployment,
            Arg::Address,
            Arg::Workers(4),
            Arg::Readers(2),
        ])
    );
    let unsharded = Backend::Netsoup { workers: 1, readers: 1, shards: None };
    assert_eq!(
        worker_command(&unsharded, false),
        Some(vec![
            Arg::EnterSource,
            Arg::Worker,
            Arg::DurabilityMemory,
            Arg::Shards(0),
            Arg::Deployment,
            Arg::Address,
            Arg::Workers(1),
            Arg::Readers(1),
        ])
    );
    assert_eq!(worker_command(&Backend::Mysql, true), None);
}

#[test]
fn the_steps_of_a_start() {
    assert_eq!(
        start_plan(&netsoup()),
        vec![
            StartStep::BuildWorker,
            StartStep::WipeZookeeper,
            StartStep::StartZookeeper,
            StartStep::AwaitZookeeper,
            StartStep::StartWorker,
        ]
    );
    assert_eq!(start_plan(&Backend::Memcached), vec![StartStep::StartService]);
    assert_eq!(stat_source(&netsoup()), StatSource::Memory(Process::Souplet));
    assert_eq!(stat_source(&Backend::Memcached), StatSource::Memory(Process::Memcached));
    assert_eq!(stat_source(&Backend::Mysql), StatSource::MysqlTables);
    assert_eq!(stat_source(&Backend::Mssql), StatSource::MssqlDiskAndTables);
}
