//! Decisions of the benchmark harness that starts, probes and restarts a
//! server on a remote machine. Running the commands is the caller's part;
//! what to run, how long to wait and when to give up is decided here.

use vstd::prelude::*;

verus! {

/// The system under test.
#[derive(Clone, Copy, Debug, PartialEq, Eq, Structural)]
pub enum Backend {
    Netsoup { workers: u64, readers: u64, shards: Option<u64> },
    Memcached,
    Mysql,
    Mssql,
}

/// Whether the server has to be stopped and started again between two
/// runs, because it keeps what the last run wrote.
pub fn needs_restart(backend: &Backend) -> (yes: bool)
    ensures
        yes == (*backend is Netsoup || *backend is Memcached),
{
    match backend {
        Backend::Netsoup { .. } => true,
        Backend::Memcached => true,
        Backend::Mysql => false,
        Backend::Mssql => false,
    }
}

/// How long to wait for a server that cannot be probed, in seconds; `None`
/// for one whose port is probed instead.
pub fn blind_wait_secs(backend: &Backend) -> (secs: Option<u64>)
    ensures
        secs == (if *backend is Netsoup {
            Some(10u64)
        } else {
            None
        }),
{
    match backend {
        Backend::Netsoup { .. } => Some(10),
        _ => None,
    }
}

/// The longest that a probed server is waited for, in seconds.
pub const START_TIMEOUT_SECS: u64 = 300;

/// How long each probe may take, in milliseconds.
pub const PROBE_TIMEOUT_MS: u32 = 10000;

/// The error code of a probe that found nobody listening yet.
pub const CONNECT_FAILED: i32 = -21;

/// How long the coordination service gets to come up, in seconds.
pub const ZOOKEEPER_TIMEOUT_SECS: u64 = 10;

/// What one probe of the server's port found.
#[derive(Clone, Copy, Debug, PartialEq, Eq, Structural)]
pub enum Probe {
    Connected,
    Failed(i32),
}

/// What to do while waiting for the server.
#[derive(Clone, Copy, Debug, PartialEq, Eq, Structural)]
pub enum WaitStep {
    /// The server answers.
    Ready,
    /// Nobody listens yet: probe again.
    Retry,
    /// The probe failed for another reason: report this code.
    Fail(i32),
    /// The time is up: the server never started.
    NeverStarted,
}

/// Decides what follows a probe that was started `elapsed_secs` after the
/// wait began. `probe` is `None` where the time was up before probing.
pub open spec fn wait_decision(elapsed_secs: u64, probe: Option<Probe>) -> WaitStep {
    if elapsed_secs >= START_TIMEOUT_SECS {
        WaitStep::NeverStarted
    } else {
        match probe {
            Some(Probe::Connected) => WaitStep::Ready,
            Some(Probe::Failed(code)) => if code == CONNECT_FAILED {
                WaitStep::Retry
            } else {
                WaitStep::Fail(code)
            },
            None => WaitStep::Retry,
        }
    }
}

/// Decides what follows a probe; see `wait_decision`.
pub fn wait_step(elapsed_secs: u64, probe: Option<Probe>) -> (step: WaitStep)
    ensures
        step == wait_decision(elapsed_secs, probe),
{
    if elapsed_secs >= START_TIMEOUT_SECS {
        return WaitStep::NeverStarted;
    }
    match probe {
        Some(Probe::Connected) => WaitStep::Ready,
        Some(Probe::Failed(code)) => {
            if code == CONNECT_FAILED {
                WaitStep::Retry
            } else {
                WaitStep::Fail(code)
            }
        },
        None => WaitStep::Retry,
    }
}

/// Whether the wait for the coordination service is over without success:
/// it is, once more than the timeout has passed.
pub fn zookeeper_gave_up(elapsed_secs: u64) -> (yes: bool)
    ensures
        yes == (elapsed_secs > ZOOKEEPER_TIMEOUT_SECS),
{
    elapsed_secs > ZOOKEEPER_TIMEOUT_SECS
}

/// One step of bringing a server up.
#[derive(Clone, Copy, Debug, PartialEq, Eq, Structural)]
pub enum StartStep {
    BuildWorker,
    WipeZookeeper,
    StartZookeeper,
    AwaitZookeeper,
    StartWorker,
    StartService,
}

/// The steps that bring `backend` up, in order.
pub open spec fn start_steps(backend: Backend) -> Seq<StartStep> {
    if backend is Netsoup {
        seq![
            StartStep::BuildWorker,
            StartStep::WipeZookeeper,
            StartStep::StartZookeeper,
            StartStep::AwaitZookeeper,
            StartStep::StartWorker,
        ]
    } else {
        seq![StartStep::StartService]
    }
}

/// The steps that bring `backend` up, in order.
pub fn start_plan(backend: &Backend) -> (plan: Vec<StartStep>)
    ensures
        plan@ == start_steps(*backend),
{
    let mut plan: Vec<StartStep> = Vec::new();
    match backend {
        Backend::Netsoup { .. } => {
            plan.push(StartStep::BuildWorker);
            plan.push(StartStep::WipeZookeeper);
            plan.push(StartStep::StartZookeeper);
            plan.push(StartStep::AwaitZookeeper);
            plan.push(StartStep::StartWorker);
        },
        _ => {
            plan.push(StartStep::StartService);
        },
    }
    assert(plan@ =~= start_steps(*backend));
    plan
}

/// One word of the worker's command line.
#[derive(Clone, Copy, Debug, PartialEq, Eq, Structural)]
pub enum Arg {
    /// `cd distributary &&`, which comes first.
    EnterSource,
    /// The wrapper that keeps other benchmarks off the machine.
    Perflock,
    /// The worker's binary.
    Worker,
    /// `--durability memory`.
    DurabilityMemory,
    /// `--shards` and the number of shards, 0 for an unsharded run.
    Shards(u64),
    /// `--deployment votebench`.
    Deployment,
    /// `--address` and the address to listen on, which the caller holds.
    Address,
    /// `-w` and the number of workers.
    Workers(u64),
    /// `-r` and the number of readers.
    Readers(u64),
}

/// The worker's command line for a Netsoup backend.
pub open spec fn worker_args(has_pl: bool, workers: u64, readers: u64, shards: Option<u64>) -> Seq<
    Arg,
> {
    let head = if has_pl {
        seq![Arg::EnterSource, Arg::Perflock]
    } else {
        seq![Arg::EnterSource]
    };
    head + seq![
        Arg::Worker,
        Arg::DurabilityMemory,
        Arg::Shards(
            match shards {
                Some(n) => n,
                None => 0,
            },
        ),
        Arg::Deployment,
        Arg::Address,
        Arg::Workers(workers),
        Arg::Readers(readers),
    ]
}

/// The worker's command line for `backend`; `None` for a backend that is
/// started as a system service.
pub fn worker_command(backend: &Backend, has_pl: bool) -> (cmd: Option<Vec<Arg>>)
    ensures
        match *backend {
            Backend::Netsoup { workers, readers, shards } => cmd.is_some() && cmd.unwrap()@
                == worker_args(has_pl, workers, readers, shards),
            _ => cmd.is_none(),
        },
{
    match backend {
        Backend::Netsoup { workers, readers, shards } => {
            let mut cmd: Vec<Arg> = Vec::new();
            cmd.push(Arg::EnterSource);
            if has_pl {
                cmd.push(Arg::Perflock);
            }
            cmd.push(Arg::Worker);
            cmd.push(Arg::DurabilityMemory);
            let n: u64 = match shards {
                Some(n) => *n,
                None => 0,
            };
            cmd.push(Arg::Shards(n));
            cmd.push(Arg::Deployment);
            cmd.push(Arg::Address);
            cmd.push(Arg::Workers(*workers));
            cmd.push(Arg::Readers(*readers));
            assert(cmd@ =~= worker_args(has_pl, *workers, *readers, *shards));
            Some(cmd)
        },
        _ => None,
    }
}

/// What a statistics report holds for a backend.
#[derive(Clone, Copy, Debug, PartialEq, Eq, Structural)]
pub enum StatSource {
    /// The resident memory of the process with this name.
    Memory(Process),
    /// The table sizes that the database reports.
    MysqlTables,
    /// The size of the data directory, then the table sizes.
    MssqlDiskAndTables,
}

/// A server process that is found by its name.
#[derive(Clone, Copy, Debug, PartialEq, Eq, Structural)]
pub enum Process {
    Memcached,
    Souplet,
}

/// Which statistics follow the machine's load for `backend`.
pub fn stat_source(backend: &Backend) -> (s: StatSource)
    ensures
        s == (match *backend {
            Backend::Netsoup { .. } => StatSource::Memory(Process::Souplet),
            Backend::Memcached => StatSource::Memory(Process::Memcached),
            Backend::Mysql => StatSource::MysqlTables,
            Backend::Mssql => StatSource::MssqlDiskAndTables,
        }),
{
    match backend {
        Backend::Netsoup { .. } => StatSource::Memory(Process::Souplet),
        Backend::Memcached => StatSource::Memory(Process::Memcached),
        Backend::Mysql => StatSource::MysqlTables,
        Backend::Mssql => StatSource::MssqlDiskAndTables,
    }
}

} // verus!
