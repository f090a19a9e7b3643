//! Program runner with resource limit and system call filter.
//!
//! A runner describes one run of one program. It performs nothing itself:
//! it says, step by step, what is to be done with the operating system, and
//! makes up the report from what the operating system answered.
pub mod cgroup;
pub mod seccomp;

use crate::executor::Watchdog;
use crate::paths::joined;
use crate::structures::Resource;
use crate::text::{decimal, string_views};
use crate::time::Duration;
use cgroup::controller::{Controller, CpuAcctController, CpuController, MemoryController};
use cgroup::hierarchy::{count_in, nanos_in, AttrFile, FileWrite};
use cgroup::{is_uuid_text, leaf, write_views, ContextModel};
use seccomp::{rule_call, Act, CmpOp, FilterModel, FilterProgram, Rule, RuleModel, Syscall};
use vstd::prelude::*;
use vstd::string::*;

verus! {

/// Nanoseconds in a scheduling period: one second.
pub const PERIOD_NANOS: u64 = 1_000_000_000;

/// Report of the program.
#[derive(Clone, Copy, Debug, PartialEq, Eq, Structural)]
pub struct RunnerReport {
    /// set to `true` if the program exit with code zero and
    /// set to `false` if exited with non-zero code or be killed
    pub exit_success: bool,
    /// time the program use in real world
    pub resource_usage: Resource,
}

/// Why a run produced no report.
#[derive(Clone, Copy, Debug, PartialEq, Eq, Structural)]
pub enum RunError {
    /// The limit grants no whole microsecond of real time, or so much more
    /// CPU time than real time that the quota cannot be written.
    InvalidLimit,
    /// A step failed in the operating system.
    Io,
    /// The child neither exited nor was killed by a signal.
    UnexpectedStatus,
    /// A usage file did not hold a number.
    Malformed,
    /// An answer came that fits no step that was asked for.
    Unexpected,
    /// The run is over.
    Finished,
}

/// What the kernel detaches the child from before the program starts.
#[derive(Clone, Copy, Debug, PartialEq, Eq, Structural)]
pub enum Namespace {
    /// The table of file descriptors.
    Files,
    /// Root directory, working directory and umask.
    Fs,
    /// The cgroup namespace.
    NewCgroup,
    /// The IPC namespace.
    NewIpc,
    /// The network namespace.
    NewNet,
    /// The mount namespace.
    NewNs,
    /// The PID namespace.
    NewPid,
    /// The user namespace.
    NewUser,
    /// The UTS namespace.
    NewUts,
    /// The undo values of System V semaphores.
    SysvSem,
}

/// Everything that the child is detached from, in the order in which the
/// flags are named.
pub open spec fn all_namespaces() -> Seq<Namespace> {
    seq![
        Namespace::Files,
        Namespace::Fs,
        Namespace::NewCgroup,
        Namespace::NewIpc,
        Namespace::NewNet,
        Namespace::NewNs,
        Namespace::NewPid,
        Namespace::NewUser,
        Namespace::NewUts,
        Namespace::SysvSem,
    ]
}

/// The CPU time, in nanoseconds, that a limit grants in each period of one
/// second: the share that the CPU time has in the real time, both taken in
/// whole microseconds.
pub open spec fn quota_nanos(limit: Resource) -> nat {
    (PERIOD_NANOS as nat * (limit.cpu_time@ / 1_000)) / (limit.real_time@ / 1_000)
}

/// A limit has a quota where it grants at least one microsecond of real
/// time and the quota is a span that can be represented.
pub open spec fn has_quota(limit: Resource) -> bool {
    &&& limit.real_time@ / 1_000 > 0
    &&& quota_nanos(limit) <= Duration::max_nanos()
}

/// The CPU time that `limit` grants in each period of one second.
///
/// Returns `None` exactly when the limit has no quota.
pub fn cpu_quota(limit: &Resource) -> (r: Option<Duration>)
    ensures
        r is Some <==> has_quota(*limit),
        r matches Some(quota) ==> quota@ == quota_nanos(*limit) && quota.wf(),
{
    let cpu: u128 = limit.cpu_time.as_micros();
    let wall: u128 = limit.real_time.as_micros();
    if wall == 0 {
        return None;
    }
    assert(1_000_000_000 * cpu <= u128::MAX) by (nonlinear_arith)
        requires
            cpu <= 18_446_744_073_709_551_615_999_999,
    ;
    let scaled: u128 = (PERIOD_NANOS as u128) * cpu;
    Duration::checked_from_nanos(scaled / wall)
}

/// A limit that grants as much CPU time as real time grants the whole
/// period.
pub proof fn lemma_full_budget(limit: Resource)
    requires
        limit.cpu_time@ == limit.real_time@,
        limit.real_time@ / 1_000 > 0,
    ensures
        has_quota(limit),
        quota_nanos(limit) == PERIOD_NANOS,
{
    let m = limit.real_time@ / 1_000;
    assert((1_000_000_000 * m) / m == 1_000_000_000) by (nonlinear_arith)
        requires
            m > 0,
    ;
}

/// In microseconds, as it is written, the quota is the period times the
/// CPU time over the real time, rounded down.
pub proof fn lemma_quota_in_micros(limit: Resource)
    requires
        limit.real_time@ / 1_000 > 0,
    ensures
        quota_nanos(limit) / 1_000 == (1_000_000 * (limit.cpu_time@ / 1_000)) / (limit.real_time@
            / 1_000),
{
    let c = limit.cpu_time@ / 1_000;
    let r = limit.real_time@ / 1_000;
    let q = (1_000_000 * c) / r;
    let rest = (1_000_000 * c) % r;
    assert(1_000_000 * c == q * r + rest && 0 <= rest < r) by (nonlinear_arith)
        requires
            r > 0,
            q == (1_000_000 * c) / r,
            rest == (1_000_000 * c) % r,
    ;
    let fine = (1_000 * rest) / r;
    assert(0 <= fine < 1_000 && 1_000 * rest == fine * r + (1_000 * rest) % r && 0 <= (1_000 * rest)
        % r < r) by (nonlinear_arith)
        requires
            r > 0,
            0 <= rest < r,
            fine == (1_000 * rest) / r,
    ;
    let low = (1_000 * rest) % r;
    assert((1_000_000_000 * c) / r == 1_000 * q + fine) by (nonlinear_arith)
        requires
            r > 0,
            1_000_000 * c == q * r + rest,
            1_000 * rest == fine * r + low,
            0 <= low < r,
    ;
    assert((1_000 * q + fine) / 1_000 == q) by (nonlinear_arith)
        requires
            0 <= fine < 1_000,
            q >= 0,
    ;
}

/// A limit that grants no more CPU time than real time grants at most the
/// whole period.
pub proof fn lemma_quota_within_period(limit: Resource)
    requires
        limit.cpu_time@ <= limit.real_time@,
        limit.real_time@ / 1_000 > 0,
    ensures
        has_quota(limit),
        quota_nanos(limit) <= PERIOD_NANOS,
{
    let c = limit.cpu_time@ / 1_000;
    let m = limit.real_time@ / 1_000;
    assert(c <= m);
    assert((1_000_000_000 * c) / m <= 1_000_000_000) by (nonlinear_arith)
        requires
            m > 0,
            c <= m,
    ;
}

/// One step that prepares the cgroup of a run.
#[derive(Debug, PartialEq)]
pub enum CgroupStep {
    /// Create the directory unless it exists.
    EnsureDir { path: String },
    /// Write the content to the file.
    Write { file: FileWrite },
}

/// What a step that prepares the cgroup holds, as mathematical values.
pub enum CgroupStepModel {
    EnsureDir { path: Seq<char> },
    Write { path: Seq<char>, content: Seq<u8> },
}

impl View for CgroupStep {
    type V = CgroupStepModel;

    open spec fn view(&self) -> CgroupStepModel {
        match self {
            CgroupStep::EnsureDir { path } => CgroupStepModel::EnsureDir { path: path@ },
            CgroupStep::Write { file } => CgroupStepModel::Write {
                path: file.path@,
                content: file.content@,
            },
        }
    }
}

/// What a list of steps holds, as mathematical values.
pub open spec fn step_views(steps: Seq<CgroupStep>) -> Seq<CgroupStepModel> {
    Seq::new(steps.len(), |i: int| steps[i]@)
}

/// The steps that prepare the cgroup `name` for a run under `limit`: the
/// three leaf directories, then a period of one second, the quota of the
/// limit in microseconds, and the memory of the limit in bytes.
pub open spec fn setup_plan(name: Seq<char>, limit: Resource) -> Seq<CgroupStepModel> {
    seq![
        CgroupStepModel::EnsureDir { path: leaf("cpu"@, name) },
        CgroupStepModel::EnsureDir { path: leaf("cpuacct"@, name) },
        CgroupStepModel::EnsureDir { path: leaf("memory"@, name) },
        CgroupStepModel::Write {
            path: joined(leaf("cpu"@, name), "cpu.cfs_period_us"@),
            content: decimal(PERIOD_NANOS as nat / 1_000),
        },
        CgroupStepModel::Write {
            path: joined(leaf("cpu"@, name), "cpu.cfs_quota_us"@),
            content: decimal(quota_nanos(limit) / 1_000),
        },
        CgroupStepModel::Write {
            path: joined(leaf("memory"@, name), "memory.limit_in_bytes"@),
            content: decimal(limit.memory as nat),
        },
    ]
}

/// One step of the child between the fork and the start of the program. A
/// step that fails ends the child with a code that is not zero.
#[derive(Debug, PartialEq)]
pub enum ChildStep {
    /// Open the file for reading and make it the standard input.
    RedirectInput { path: String },
    /// Create the file, or empty it, and make it the standard output.
    RedirectOutput { path: String },
    /// Detach from what the parent shares.
    Unshare { namespaces: Vec<Namespace> },
    /// Change the working directory.
    Chdir { path: String },
    /// Change the root directory.
    Chroot { path: String },
    /// Allow the start of the program and nothing like it afterwards: the
    /// filter of the runner gets the rule for `execve` and is installed.
    InstallFilter,
    /// Start the program, with its path as its only argument and with an
    /// empty environment.
    Exec { program: String },
}

/// What a step of the child holds, as mathematical values.
pub enum ChildStepModel {
    RedirectInput { path: Seq<char> },
    RedirectOutput { path: Seq<char> },
    Unshare { namespaces: Seq<Namespace> },
    Chdir { path: Seq<char> },
    Chroot { path: Seq<char> },
    InstallFilter,
    Exec { program: Seq<char> },
}

impl View for ChildStep {
    type V = ChildStepModel;

    open spec fn view(&self) -> ChildStepModel {
        match self {
            ChildStep::RedirectInput { path } => ChildStepModel::RedirectInput { path: path@ },
            ChildStep::RedirectOutput { path } => ChildStepModel::RedirectOutput { path: path@ },
            ChildStep::Unshare { namespaces } => ChildStepModel::Unshare {
                namespaces: namespaces@,
            },
            ChildStep::Chdir { path } => ChildStepModel::Chdir { path: path@ },
            ChildStep::Chroot { path } => ChildStepModel::Chroot { path: path@ },
            ChildStep::InstallFilter => ChildStepModel::InstallFilter,
            ChildStep::Exec { program } => ChildStepModel::Exec { program: program@ },
        }
    }
}

/// What a list of steps of the child holds, as mathematical values.
pub open spec fn child_views(steps: Seq<ChildStep>) -> Seq<ChildStepModel> {
    Seq::new(steps.len(), |i: int| steps[i]@)
}

/// What a runner holds, as mathematical values.
pub struct RunnerModel {
    pub program: Seq<char>,
    pub input_file: Seq<char>,
    pub output_file: Seq<char>,
    pub resource_limit: Resource,
    pub cgroup: ContextModel,
    pub chroot: Option<Seq<char>>,
    pub seccomp: Option<FilterModel>,
}

impl RunnerModel {
    /// The steps of the child, in order: the two redirections, the
    /// detaching, the change to the root directory, the change of the root
    /// where one is asked for, the filter where one is asked for, and the
    /// start of the program.
    pub open spec fn child_plan(self) -> Seq<ChildStepModel> {
        seq![
            ChildStepModel::RedirectInput { path: self.input_file },
            ChildStepModel::RedirectOutput { path: self.output_file },
            ChildStepModel::Unshare { namespaces: all_namespaces() },
            ChildStepModel::Chdir { path: "/"@ },
        ] + (match self.chroot {
            Some(path) => seq![ChildStepModel::Chroot { path }],
            None => Seq::empty(),
        }) + (if self.seccomp is Some {
            seq![ChildStepModel::InstallFilter]
        } else {
            Seq::empty()
        }) + seq![ChildStepModel::Exec { program: self.program }]
    }

    /// The rule that allows `execve` when its first argument is the
    /// address `program_ptr`.
    pub open spec fn execve_rule(execve: Syscall, program_ptr: i64) -> RuleModel {
        RuleModel { act: Act::Allow, syscall: execve, pattern: seq![(CmpOp::EQ, program_ptr)] }
    }
}

/// Program runner with resource limit, cgroup, chroot and seccomp support.
#[derive(Debug)]
pub struct Runner {
    program: String,
    input_file: String,
    output_file: String,
    resource_limit: Resource,
    cgroup: cgroup::Context,
    chroot: Option<String>,
    seccomp: Option<seccomp::Context>,
}

impl View for Runner {
    type V = RunnerModel;

    closed spec fn view(&self) -> RunnerModel {
        RunnerModel {
            program: self.program@,
            input_file: self.input_file@,
            output_file: self.output_file@,
            resource_limit: self.resource_limit,
            cgroup: self.cgroup@,
            chroot: match self.chroot {
                Some(path) => Some(path@),
                None => None,
            },
            seccomp: match self.seccomp {
                Some(filter) => Some(filter@),
                None => None,
            },
        }
    }
}

impl Runner {
    /// Create a new runner with resource limit.
    ///
    /// The runner gets a cgroup of its own with a fresh random name, no
    /// change of root and no filter.
    pub fn new(program: &str, input_file: &str, output_file: &str, resource_limit: Resource) -> (runner:
        Runner)
        ensures
            runner@.program == program@,
            runner@.input_file == input_file@,
            runner@.output_file == output_file@,
            runner@.resource_limit == resource_limit,
            is_uuid_text(runner@.cgroup.name),
            runner@.cgroup.is_fresh(),
            runner@.chroot is None,
            runner@.seccomp is None,
    {
        Runner {
            program: String::from_str(program),
            input_file: String::from_str(input_file),
            output_file: String::from_str(output_file),
            resource_limit,
            cgroup: cgroup::Context::new(),
            chroot: None,
            seccomp: None,
        }
    }

    /// Chroot to the given path.
    pub fn chroot(self, chroot_path: &str) -> (runner: Runner)
        ensures
            runner@ == (RunnerModel { chroot: Some(chroot_path@), ..self@ }),
    {
        let mut runner = self;
        runner.chroot = Some(String::from_str(chroot_path));
        runner
    }

    /// Load the seccomp config before executing the program.
    pub fn seccomp(self, seccomp: seccomp::Context) -> (runner: Runner)
        ensures
            runner@ == (RunnerModel { seccomp: Some(seccomp@), ..self@ }),
    {
        let mut runner = self;
        runner.seccomp = Some(seccomp);
        runner
    }

    /// Add the process to the cgroup before it start running.
    pub fn cgroup(self, cgroup: cgroup::Context) -> (runner: Runner)
        ensures
            runner@ == (RunnerModel { cgroup: cgroup@, ..self@ }),
    {
        let mut runner = self;
        runner.cgroup = cgroup;
        runner
    }

    /// The resource limit of the run.
    pub fn resource_limit(&self) -> (limit: Resource)
        ensures
            limit == self@.resource_limit,
    {
        self.resource_limit
    }

    /// Everything that the child is detached from.
    pub fn unshare_namespace() -> (namespaces: Vec<Namespace>)
        ensures
            namespaces@ == all_namespaces(),
    {
        let mut namespaces: Vec<Namespace> = Vec::new();
        namespaces.push(Namespace::Files);
        namespaces.push(Namespace::Fs);
        namespaces.push(Namespace::NewCgroup);
        namespaces.push(Namespace::NewIpc);
        namespaces.push(Namespace::NewNet);
        namespaces.push(Namespace::NewNs);
        namespaces.push(Namespace::NewPid);
        namespaces.push(Namespace::NewUser);
        namespaces.push(Namespace::NewUts);
        namespaces.push(Namespace::SysvSem);
        assert(namespaces@ =~= all_namespaces());
        namespaces
    }

    /// The steps that prepare the cgroup of the run, in order, where the
    /// limit has a quota. The three controllers count as initialized from
    /// then on.
    ///
    /// Where the limit has no quota, no step is given and nothing changes.
    /// A memory limit of zero is written like any other.
    pub fn init_cgroup(&mut self) -> (r: Result<Vec<CgroupStep>, RunError>)
        ensures
            has_quota(old(self)@.resource_limit) ==> ({
                &&& r matches Ok(steps)
                &&& step_views(steps@) == setup_plan(
                    old(self)@.cgroup.name,
                    old(self)@.resource_limit,
                )
                &&& final(self)@ == (RunnerModel {
                    cgroup: ContextModel {
                        name: old(self)@.cgroup.name,
                        cpu: true,
                        cpuacct: true,
                        memory: true,
                    },
                    ..old(self)@
                })
            }),
            !has_quota(old(self)@.resource_limit) ==> r == Err::<Vec<CgroupStep>, RunError>(
                RunError::InvalidLimit,
            ) && final(self)@ == old(self)@,
    {
        let quota = match cpu_quota(&self.resource_limit) {
            Some(quota) => quota,
            None => {
                return Err(RunError::InvalidLimit);
            },
        };
        let period = Duration::from_nanos(PERIOD_NANOS);
        let mut steps: Vec<CgroupStep> = Vec::new();
        steps.push(CgroupStep::EnsureDir { path: CpuController::initialize(&mut self.cgroup) });
        steps.push(CgroupStep::EnsureDir { path: CpuAcctController::initialize(&mut self.cgroup) });
        steps.push(CgroupStep::EnsureDir { path: MemoryController::initialize(&mut self.cgroup) });
        let cpu_controller = self.cgroup.cpu_controller();
        let memory_controller = self.cgroup.memory_controller();
        steps.push(CgroupStep::Write { file: cpu_controller.period().write(&period) });
        steps.push(CgroupStep::Write { file: cpu_controller.quota().write(&quota) });
        steps.push(
            CgroupStep::Write {
                file: memory_controller.limit_in_bytes().write(&self.resource_limit.memory),
            },
        );
        assert(step_views(steps@) =~= setup_plan(old(self)@.cgroup.name, old(self)@.resource_limit));
        Ok(steps)
    }

    /// The steps of the child between the fork and the start of the
    /// program.
    pub fn start_child(&self) -> (steps: Vec<ChildStep>)
        ensures
            child_views(steps@) == self@.child_plan(),
    {
        let mut steps: Vec<ChildStep> = Vec::new();
        steps.push(ChildStep::RedirectInput { path: self.input_file.clone() });
        steps.push(ChildStep::RedirectOutput { path: self.output_file.clone() });
        steps.push(ChildStep::Unshare { namespaces: Runner::unshare_namespace() });
        steps.push(ChildStep::Chdir { path: String::from_str("/") });
        match &self.chroot {
            Some(path) => {
                steps.push(ChildStep::Chroot { path: path.clone() });
            },
            None => {},
        }
        if self.seccomp.is_some() {
            steps.push(ChildStep::InstallFilter);
        }
        steps.push(ChildStep::Exec { program: self.program.clone() });
        assert(child_views(steps@) =~= self@.child_plan());
        steps
    }

    /// The filter to install in the child, where the runner has one: the
    /// rules of the runner's filter and, behind them, the rule that allows
    /// `execve` when its first argument is `program_ptr`, the address of
    /// the program's path in the child.
    ///
    /// Returns `None` exactly when the runner has no filter.
    pub fn init_seccomp(&self, execve: Syscall, program_ptr: i64) -> (r: Option<FilterProgram>)
        ensures
            r is Some <==> self@.seccomp is Some,
            r matches Some(program) ==> {
                let filter = self@.seccomp->0;
                &&& program.default_action == filter.default_action.spec_code()
                &&& program.rules@.len() == filter.rules.len() + 1
                &&& forall|i: int|
                    0 <= i < filter.rules.len() ==> (#[trigger] program.rules@[i])@ == rule_call(
                        filter.rules[i],
                    )
                &&& program.rules@.last()@ == rule_call(
                    RunnerModel::execve_rule(execve, program_ptr),
                )
            },
    {
        match &self.seccomp {
            Some(filter) => {
                let mut installed = filter.duplicate();
                let mut execve_whitelist = Rule::whitelist(execve);
                execve_whitelist.match_arg(CmpOp::EQ, program_ptr);
                let ghost rule = execve_whitelist@;
                assert(rule.pattern =~= seq![(CmpOp::EQ, program_ptr)]);
                // A rule with one comparison is never rejected.
                let accepted = installed.add_rule(execve_whitelist);
                assert(accepted is Ok);
                let ghost all = installed@;
                let program = installed.load();
                proof {
                    assert(all.rules.len() == filter@.rules.len() + 1);
                    assert forall|i: int| 0 <= i < filter@.rules.len() implies (
                    #[trigger] program.rules@[i])@ == rule_call(filter@.rules[i]) by {
                        assert(all.rules[i] == filter@.rules[i]);
                    }
                    assert(all.rules[filter@.rules.len() as int] == rule);
                }
                Some(program)
            },
            None => None,
        }
    }
}

/// How the child ended, as the parent learns it when it waits.
#[derive(Clone, Copy, Debug, PartialEq, Eq, Structural)]
pub enum WaitStatus {
    /// The child exited with a code.
    Exited { code: i32 },
    /// A signal killed the child.
    Signaled,
    /// Anything else; it does not occur for a child that is waited for
    /// without options.
    Other,
}

/// How a run ends.
#[derive(Clone, Copy, Debug, PartialEq, Eq, Structural)]
pub enum Outcome {
    Report { report: RunnerReport },
    Error { error: RunError },
}

/// Where the parent stands in a run.
#[derive(Clone, Copy, Debug, PartialEq, Eq, Structural)]
pub enum Stage {
    /// Nothing has been done yet.
    Configured,
    /// The cgroup is being prepared.
    Setup,
    /// The child is being forked.
    Forking,
    /// The child is being put into the cgroup.
    Attaching { child: i32 },
    /// The killer for the real time is being armed.
    Arming { child: i32 },
    /// The child runs and the parent waits for it.
    Waiting { child: i32 },
    /// The CPU time of the child is being read.
    ReadingCpu { exit_success: bool, real_time: Duration },
    /// The memory of the child is being read.
    ReadingMemory { exit_success: bool, real_time: Duration, cpu_time: Duration },
    /// The directories of the cgroup are being removed.
    Cleaning { outcome: Outcome },
    /// The run is over.
    Finished,
}

impl Stage {
    /// How far a stage is into the run.
    pub open spec fn rank(self) -> nat {
        match self {
            Stage::Configured => 0,
            Stage::Setup => 1,
            Stage::Forking => 2,
            Stage::Attaching { .. } => 3,
            Stage::Arming { .. } => 4,
            Stage::Waiting { .. } => 5,
            Stage::ReadingCpu { .. } => 6,
            Stage::ReadingMemory { .. } => 7,
            Stage::Cleaning { .. } => 8,
            Stage::Finished => 9,
        }
    }
}

/// What the operating system answered to the step before.
#[derive(Debug, PartialEq)]
pub enum Event {
    /// The run begins.
    Start,
    /// The step was done.
    Done,
    /// The step failed.
    Failed,
    /// The fork succeeded, and this is the parent.
    Forked { child: i32 },
    /// The wait returned; `elapsed` is the time since the fork.
    Reaped { status: WaitStatus, elapsed: Duration },
    /// The file was read.
    Content { bytes: Vec<u8> },
}

/// What the parent asks for next. Every step is answered with an event:
/// `Done` or `Failed` where nothing else is said.
#[derive(Debug, PartialEq)]
pub enum Action {
    /// Prepare the cgroup: take the steps in order, up to the first that
    /// fails.
    Setup { steps: Vec<CgroupStep> },
    /// Fork. The child takes the steps of `start_child`; the parent
    /// answers with `Forked`.
    Fork,
    /// Put the child into the cgroup: make the writes in order, up to the
    /// first that fails.
    Attach { writes: Vec<FileWrite> },
    /// Start the timer that kills the child once the real time of the
    /// limit has passed.
    ArmKiller { watchdog: Watchdog },
    /// Wait for the child, then call the timer off; answered with
    /// `Reaped`.
    Wait { child: i32 },
    /// Read the file; answered with `Content`.
    Read { path: String },
    /// Remove the directories. One that cannot be removed is left behind,
    /// and the answer is `Done` all the same.
    Cleanup { directories: Vec<String> },
    /// The run is over, and this is its report.
    Report { report: RunnerReport },
    /// The run is over without a report.
    Fail { error: RunError },
}

/// What an action holds, as mathematical values.
pub enum ActionModel {
    Setup { steps: Seq<CgroupStepModel> },
    Fork,
    Attach { writes: Seq<(Seq<char>, Seq<u8>)> },
    ArmKiller { watchdog: Watchdog },
    Wait { child: i32 },
    Read { path: Seq<char> },
    Cleanup { directories: Seq<Seq<char>> },
    Report { report: RunnerReport },
    Fail { error: RunError },
}

impl View for Action {
    type V = ActionModel;

    open spec fn view(&self) -> ActionModel {
        match self {
            Action::Setup { steps } => ActionModel::Setup { steps: step_views(steps@) },
            Action::Fork => ActionModel::Fork,
            Action::Attach { writes } => ActionModel::Attach { writes: write_views(writes@) },
            Action::ArmKiller { watchdog } => ActionModel::ArmKiller { watchdog: *watchdog },
            Action::Wait { child } => ActionModel::Wait { child: *child },
            Action::Read { path } => ActionModel::Read { path: path@ },
            Action::Cleanup { directories } => ActionModel::Cleanup {
                directories: string_views(directories@),
            },
            Action::Report { report } => ActionModel::Report { report: *report },
            Action::Fail { error } => ActionModel::Fail { error: *error },
        }
    }
}

/// One move of the parent: the stage it reaches, what its cgroup then keeps
/// track of, and what it asks for.
pub struct Transition {
    pub stage: Stage,
    pub cgroup: ContextModel,
    pub action: ActionModel,
}

/// Whether the child ended with success: it exited, and with code zero.
pub open spec fn exit_success(status: WaitStatus) -> Option<bool> {
    match status {
        WaitStatus::Exited { code } => Some(code == 0),
        WaitStatus::Signaled => Some(false),
        WaitStatus::Other => None,
    }
}

impl RunnerModel {
    /// The file that holds the CPU time that the cgroup has used.
    pub open spec fn cpu_usage_file(self) -> Seq<char> {
        joined(leaf("cpuacct"@, self.cgroup.name), "cpuacct.usage"@)
    }

    /// The file that holds the most memory that the cgroup has used.
    pub open spec fn memory_usage_file(self) -> Seq<char> {
        joined(leaf("memory"@, self.cgroup.name), "memory.max_usage_in_bytes"@)
    }

    /// The move that ends the run with `outcome`: the directories of the
    /// initialized controllers are removed, and the cgroup keeps track of
    /// none any more.
    pub open spec fn wind_up(self, outcome: Outcome) -> Transition {
        Transition {
            stage: Stage::Cleaning { outcome },
            cgroup: self.cgroup.cleared(),
            action: ActionModel::Cleanup { directories: self.cgroup.leaves() },
        }
    }

    /// The move that ends the run without a report.
    pub open spec fn fail(self, error: RunError) -> Transition {
        self.wind_up(Outcome::Error { error })
    }

    /// The move to a stage that leaves the cgroup as it is.
    pub open spec fn go(self, stage: Stage, action: ActionModel) -> Transition {
        Transition { stage, cgroup: self.cgroup, action }
    }

    /// The error of an answer that does not fit the stage: a failed step
    /// is an error of the operating system, and any other answer is out of
    /// place.
    pub open spec fn misfit(event: Event) -> RunError {
        if event is Failed {
            RunError::Io
        } else {
            RunError::Unexpected
        }
    }

    /// The move of the parent of a run at `stage` on the answer `event`.
    ///
    /// In order: the cgroup is prepared, the child is forked, put into the
    /// cgroup, watched by the killer and waited for; then its CPU time and
    /// its memory are read, the cgroup is removed, and the report is
    /// given. Whatever goes wrong on the way ends the run without a
    /// report, after the cgroup is removed.
    pub open spec fn step(self, stage: Stage, event: Event) -> Transition {
        match stage {
            Stage::Configured => if event is Start {
                if has_quota(self.resource_limit) {
                    Transition {
                        stage: Stage::Setup,
                        cgroup: ContextModel {
                            name: self.cgroup.name,
                            cpu: true,
                            cpuacct: true,
                            memory: true,
                        },
                        action: ActionModel::Setup {
                            steps: setup_plan(self.cgroup.name, self.resource_limit),
                        },
                    }
                } else {
                    self.fail(RunError::InvalidLimit)
                }
            } else {
                self.fail(Self::misfit(event))
            },
            Stage::Setup => if event is Done {
                self.go(Stage::Forking, ActionModel::Fork)
            } else {
                self.fail(Self::misfit(event))
            },
            Stage::Forking => match event {
                Event::Forked { child } => self.go(
                    Stage::Attaching { child },
                    ActionModel::Attach {
                        writes: self.cgroup.attachments("cgroup.procs"@, child as int),
                    },
                ),
                _ => self.fail(Self::misfit(event)),
            },
            Stage::Attaching { child } => if event is Done {
                self.go(
                    Stage::Arming { child },
                    ActionModel::ArmKiller {
                        watchdog: Watchdog { pid: child, timeout: self.resource_limit.real_time },
                    },
                )
            } else {
                self.fail(Self::misfit(event))
            },
            Stage::Arming { child } => if event is Done {
                self.go(Stage::Waiting { child }, ActionModel::Wait { child })
            } else {
                self.fail(Self::misfit(event))
            },
            Stage::Waiting { child } => match event {
                Event::Reaped { status, elapsed } => match exit_success(status) {
                    Some(success) => self.go(
                        Stage::ReadingCpu { exit_success: success, real_time: elapsed },
                        ActionModel::Read { path: self.cpu_usage_file() },
                    ),
                    None => self.fail(RunError::UnexpectedStatus),
                },
                _ => self.fail(Self::misfit(event)),
            },
            Stage::ReadingCpu { exit_success, real_time } => match event {
                Event::Content { bytes } => match nanos_in(bytes@) {
                    Some(nanos) => self.go(
                        Stage::ReadingMemory {
                            exit_success,
                            real_time,
                            cpu_time: Duration::of_nanos(nanos),
                        },
                        ActionModel::Read { path: self.memory_usage_file() },
                    ),
                    None => self.fail(RunError::Malformed),
                },
                _ => self.fail(Self::misfit(event)),
            },
            Stage::ReadingMemory { exit_success, real_time, cpu_time } => match event {
                Event::Content { bytes } => match count_in(bytes@) {
                    Some(memory) => self.wind_up(
                        Outcome::Report {
                            report: RunnerReport {
                                exit_success,
                                resource_usage: Resource { cpu_time, real_time, memory },
                            },
                        },
                    ),
                    None => self.fail(RunError::Malformed),
                },
                _ => self.fail(Self::misfit(event)),
            },
            Stage::Cleaning { outcome } => self.go(
                Stage::Finished,
                match outcome {
                    Outcome::Report { report } => ActionModel::Report { report },
                    Outcome::Error { error } => ActionModel::Fail { error },
                },
            ),
            Stage::Finished => self.go(
                Stage::Finished,
                ActionModel::Fail { error: RunError::Finished },
            ),
        }
    }
}

/// One run of a runner: the runner, and where its parent stands.
#[derive(Debug)]
pub struct Run {
    runner: Runner,
    stage: Stage,
}

impl Run {
    /// The runner of the run.
    pub closed spec fn runner(&self) -> RunnerModel {
        self.runner@
    }

    /// Where the parent stands.
    pub closed spec fn stage(&self) -> Stage {
        self.stage
    }

    /// The cgroup of the run keeps track of what the stage asks for.
    pub open spec fn on_track(&self) -> bool {
        keeps_track(self.stage(), self.runner().cgroup)
    }

    /// The runner of the run.
    pub fn as_runner(&self) -> (runner: &Runner)
        ensures
            runner@ == self.runner(),
    {
        &self.runner
    }

    /// Where the parent stands.
    pub fn current_stage(&self) -> (stage: Stage)
        ensures
            stage == self.stage(),
    {
        self.stage
    }

    /// The steps of the child between the fork and the start of the
    /// program.
    pub fn start_child(&self) -> (steps: Vec<ChildStep>)
        ensures
            child_views(steps@) == self.runner().child_plan(),
    {
        self.runner.start_child()
    }

    /// Ends the run with `outcome`, after the cgroup is removed.
    fn wind_up(&mut self, outcome: Outcome) -> (action: Action)
        ensures
            final(self).stage() == old(self).runner().wind_up(outcome).stage,
            final(self).runner() == (RunnerModel {
                cgroup: old(self).runner().wind_up(outcome).cgroup,
                ..old(self).runner()
            }),
            action@ == old(self).runner().wind_up(outcome).action,
    {
        let directories = self.runner.cgroup.teardown();
        self.stage = Stage::Cleaning { outcome };
        Action::Cleanup { directories }
    }

    /// Moves to `stage` and asks for `action`.
    fn go(&mut self, stage: Stage, action: Action) -> (r: Action)
        ensures
            final(self).stage() == stage,
            final(self).runner() == old(self).runner(),
            r == action,
    {
        self.stage = stage;
        action
    }

    /// Ends the run without a report, on an answer that does not fit.
    fn misfit(&mut self, event: &Event) -> (action: Action)
        ensures
            final(self).stage() == old(self).runner().fail(RunnerModel::misfit(*event)).stage,
            final(self).runner() == (RunnerModel {
                cgroup: old(self).runner().fail(RunnerModel::misfit(*event)).cgroup,
                ..old(self).runner()
            }),
            action@ == old(self).runner().fail(RunnerModel::misfit(*event)).action,
    {
        let error = match event {
            Event::Failed => RunError::Io,
            _ => RunError::Unexpected,
        };
        self.wind_up(Outcome::Error { error })
    }

    /// Takes the answer to the step before and says what to do next.
    ///
    /// The first answer is `Start`. The run is over when the action is a
    /// report or a failure.
    pub fn advance(&mut self, event: Event) -> (action: Action)
        ensures
            ({
                let t = old(self).runner().step(old(self).stage(), event);
                &&& final(self).stage() == t.stage
                &&& final(self).runner() == (RunnerModel { cgroup: t.cgroup, ..old(self).runner() })
                &&& action@ == t.action
            }),
            old(self).on_track() ==> final(self).on_track(),
    {
        proof {
            if self.on_track() {
                lemma_keeps_track(self.runner(), self.stage(), event);
            }
        }
        match self.stage {
            Stage::Configured => match event {
                Event::Start => match self.runner.init_cgroup() {
                    Ok(steps) => self.go(Stage::Setup, Action::Setup { steps }),
                    Err(error) => self.wind_up(Outcome::Error { error }),
                },
                _ => self.misfit(&event),
            },
            Stage::Setup => match event {
                Event::Done => self.go(Stage::Forking, Action::Fork),
                _ => self.misfit(&event),
            },
            Stage::Forking => match event {
                Event::Forked { child } => {
                    let writes = self.runner.cgroup.add_process(child);
                    self.go(Stage::Attaching { child }, Action::Attach { writes })
                },
                _ => self.misfit(&event),
            },
            Stage::Attaching { child } => match event {
                Event::Done => {
                    let timeout = self.runner.resource_limit.real_time;
                    let watchdog = Watchdog { pid: child, timeout };
                    self.go(Stage::Arming { child }, Action::ArmKiller { watchdog })
                },
                _ => self.misfit(&event),
            },
            Stage::Arming { child } => match event {
                Event::Done => self.go(Stage::Waiting { child }, Action::Wait { child }),
                _ => self.misfit(&event),
            },
            Stage::Waiting { child } => match event {
                Event::Reaped { status, elapsed } => {
                    let success = match status {
                        WaitStatus::Exited { code } => Some(code == 0),
                        WaitStatus::Signaled => Some(false),
                        WaitStatus::Other => None,
                    };
                    match success {
                        Some(success) => {
                            let file = self.runner.cgroup.cpuacct_controller().usage();
                            self.go(
                                Stage::ReadingCpu { exit_success: success, real_time: elapsed },
                                Action::Read { path: file.path },
                            )
                        },
                        None => self.wind_up(Outcome::Error { error: RunError::UnexpectedStatus }),
                    }
                },
                _ => self.misfit(&event),
            },
            Stage::ReadingCpu { exit_success, real_time } => match event {
                Event::Content { bytes } => {
                    let usage = self.runner.cgroup.cpuacct_controller().usage();
                    match usage.read(bytes.as_slice()) {
                        Some(cpu_time) => {
                            proof {
                                cpu_time.lemma_is_of_nanos();
                            }
                            let file = self.runner.cgroup.memory_controller().max_usage_in_bytes();
                            self.go(
                                Stage::ReadingMemory { exit_success, real_time, cpu_time },
                                Action::Read { path: file.path },
                            )
                        },
                        None => self.wind_up(Outcome::Error { error: RunError::Malformed }),
                    }
                },
                _ => self.misfit(&event),
            },
            Stage::ReadingMemory { exit_success, real_time, cpu_time } => match event {
                Event::Content { bytes } => {
                    let usage = self.runner.cgroup.memory_controller().max_usage_in_bytes();
                    match usage.read(bytes.as_slice()) {
                        Some(memory) => {
                            let resource_usage = Resource::new(cpu_time, real_time, memory);
                            self.wind_up(
                                Outcome::Report {
                                    report: RunnerReport { exit_success, resource_usage },
                                },
                            )
                        },
                        None => self.wind_up(Outcome::Error { error: RunError::Malformed }),
                    }
                },
                _ => self.misfit(&event),
            },
            Stage::Cleaning { outcome } => {
                let action = match outcome {
                    Outcome::Report { report } => Action::Report { report },
                    Outcome::Error { error } => Action::Fail { error },
                };
                self.go(Stage::Finished, action)
            },
            Stage::Finished => self.go(Stage::Finished, Action::Fail { error: RunError::Finished }),
        }
    }
}

impl Runner {
    /// Begins the run of the program. The runner is used up: a runner is
    /// for one run.
    pub fn run(self) -> (run: Run)
        ensures
            run.runner() == self@,
            run.stage() == Stage::Configured,
            run.on_track(),
    {
        Run { runner: self, stage: Stage::Configured }
    }
}

/// What is asked for on reaching a stage: the preparation on reaching
/// `Setup`, the fork on reaching `Forking`, and so on; a report or a failure
/// on reaching the end, and nothing on the way to where the run began.
pub open spec fn fits(stage: Stage, action: ActionModel) -> bool {
    match stage {
        Stage::Configured => false,
        Stage::Setup => action is Setup,
        Stage::Forking => action is Fork,
        Stage::Attaching { child } => action is Attach,
        Stage::Arming { child } => action matches ActionModel::ArmKiller { watchdog }
            && watchdog.pid == child,
        Stage::Waiting { child } => action == (ActionModel::Wait { child }),
        Stage::ReadingCpu { .. } => action is Read,
        Stage::ReadingMemory { .. } => action is Read,
        Stage::Cleaning { .. } => action is Cleanup,
        Stage::Finished => action is Report || action is Fail,
    }
}

/// The cgroup of a run keeps track of its three controllers from the
/// preparation up to the readout, and of none once it is removed.
pub open spec fn keeps_track(stage: Stage, cgroup: ContextModel) -> bool {
    &&& 1 <= stage.rank() <= 7 ==> cgroup.cpu && cgroup.cpuacct && cgroup.memory
    &&& stage.rank() >= 8 ==> cgroup.is_fresh()
}

/// A run never goes back: every move reaches a later stage, until the run
/// is over, and then it stays over. So the cgroup is prepared before the
/// fork, the child is put into it before the parent waits, and the usage
/// is read after the child has ended.
pub proof fn lemma_stage_advances(runner: RunnerModel, stage: Stage, event: Event)
    ensures
        stage != Stage::Finished ==> runner.step(stage, event).stage.rank() > stage.rank(),
        stage == Stage::Finished ==> runner.step(stage, event).stage == Stage::Finished,
        runner.step(stage, event).cgroup.name == runner.cgroup.name,
{
}

/// What a move asks for goes with the stage that it reaches. In
/// particular no report and no failure is given before the cgroup has been
/// removed.
pub proof fn lemma_action_fits_stage(runner: RunnerModel, stage: Stage, event: Event)
    ensures
        fits(runner.step(stage, event).stage, runner.step(stage, event).action),
{
}

/// Every move keeps the cgroup on track.
pub proof fn lemma_keeps_track(runner: RunnerModel, stage: Stage, event: Event)
    requires
        keeps_track(stage, runner.cgroup),
    ensures
        keeps_track(runner.step(stage, event).stage, runner.step(stage, event).cgroup),
{
}

/// A run removes what it made: once the cgroup is prepared, the move that
/// winds the run up, for whatever reason, asks for the removal of the three
/// directories that the preparation asked for.
pub proof fn lemma_cleanup_removes_what_setup_made(
    runner: RunnerModel,
    stage: Stage,
    event: Event,
)
    requires
        keeps_track(stage, runner.cgroup),
        1 <= stage.rank() <= 7,
        runner.step(stage, event).stage is Cleaning,
    ensures
        runner.step(stage, event).action matches ActionModel::Cleanup { directories } && {
            let plan = setup_plan(runner.cgroup.name, runner.resource_limit);
            &&& directories.len() == 3
            &&& forall|i: int|
                0 <= i < 3 ==> plan[i] == (CgroupStepModel::EnsureDir {
                    path: #[trigger] directories[i],
                })
        },
{
    let t = runner.step(stage, event);
    assert(t.action == (ActionModel::Cleanup { directories: runner.cgroup.leaves() }));
    assert(runner.cgroup.leaves() =~= seq![
        leaf("cpu"@, runner.cgroup.name),
        leaf("cpuacct"@, runner.cgroup.name),
        leaf("memory"@, runner.cgroup.name),
    ]);
}

/// The child counts as successful exactly when it exited with code zero.
pub proof fn lemma_exit_success(status: WaitStatus)
    ensures
        exit_success(status) == Some(true) <==> status == (WaitStatus::Exited { code: 0 }),
{
}

impl RunnerModel {
    /// The runner after a move.
    pub open spec fn after(self, t: Transition) -> RunnerModel {
        RunnerModel { cgroup: t.cgroup, ..self }
    }
}

/// A run in which every step succeeds ends with a report: the child
/// counts as successful exactly when it exited with code zero, its CPU time
/// is what `cpuacct.usage` held in nanoseconds, its real time is what the
/// wait took, and its memory is what `memory.max_usage_in_bytes` held.
/// On the way the child is put into the three hierarchies and the killer
/// is armed with the real time of the limit; at the end the three
/// directories are removed.
pub proof fn lemma_successful_run(
    runner: RunnerModel,
    child: i32,
    status: WaitStatus,
    elapsed: Duration,
    cpu_usage: Vec<u8>,
    memory_usage: Vec<u8>,
)
    requires
        has_quota(runner.resource_limit),
        exit_success(status) is Some,
        nanos_in(cpu_usage@) is Some,
        count_in(memory_usage@) is Some,
    ensures
        ({
            let t1 = runner.step(Stage::Configured, Event::Start);
            let r1 = runner.after(t1);
            let t2 = r1.step(t1.stage, Event::Done);
            let t3 = r1.after(t2).step(t2.stage, Event::Forked { child });
            let t4 = r1.after(t3).step(t3.stage, Event::Done);
            let t5 = r1.after(t4).step(t4.stage, Event::Done);
            let t6 = r1.after(t5).step(t5.stage, Event::Reaped { status, elapsed });
            let t7 = r1.after(t6).step(t6.stage, Event::Content { bytes: cpu_usage });
            let t8 = r1.after(t7).step(t7.stage, Event::Content { bytes: memory_usage });
            let t9 = r1.after(t8).step(t8.stage, Event::Done);
            &&& t1.action == (ActionModel::Setup {
                steps: setup_plan(runner.cgroup.name, runner.resource_limit),
            })
            &&& t2.action == ActionModel::Fork
            &&& t3.action == (ActionModel::Attach {
                writes: r1.cgroup.attachments("cgroup.procs"@, child as int),
            })
            &&& r1.cgroup.attachments("cgroup.procs"@, child as int).len() == 3
            &&& t4.action == (ActionModel::ArmKiller {
                watchdog: Watchdog { pid: child, timeout: runner.resource_limit.real_time },
            })
            &&& t5.action == (ActionModel::Wait { child })
            &&& t6.action == (ActionModel::Read { path: runner.cpu_usage_file() })
            &&& t7.action == (ActionModel::Read { path: runner.memory_usage_file() })
            &&& t8.action == (ActionModel::Cleanup { directories: r1.cgroup.leaves() })
            &&& r1.cgroup.leaves().len() == 3
            &&& t9.stage == Stage::Finished
            &&& t9.cgroup.is_fresh()
            &&& t9.action == (ActionModel::Report {
                report: RunnerReport {
                    exit_success: exit_success(status)->0,
                    resource_usage: Resource {
                        cpu_time: Duration::of_nanos(nanos_in(cpu_usage@)->0),
                        real_time: elapsed,
                        memory: count_in(memory_usage@)->0,
                    },
                },
            })
        }),
{
    let t1 = runner.step(Stage::Configured, Event::Start);
    let r1 = runner.after(t1);
    assert(r1.cgroup.leaves() =~= seq![
        leaf("cpu"@, runner.cgroup.name),
        leaf("cpuacct"@, runner.cgroup.name),
        leaf("memory"@, runner.cgroup.name),
    ]);
}

/// A step that fails in the operating system ends the run: the cgroup is
/// removed, whatever the removal answers, and then the failure is given.
pub proof fn lemma_failure_ends_the_run(runner: RunnerModel, stage: Stage, answer: Event)
    requires
        stage.rank() <= 7,
    ensures
        ({
            let t = runner.step(stage, Event::Failed);
            let last = runner.after(t).step(t.stage, answer);
            &&& t.action == (ActionModel::Cleanup { directories: runner.cgroup.leaves() })
            &&& t.cgroup.is_fresh()
            &&& last.stage == Stage::Finished
            &&& last.action == (ActionModel::Fail { error: RunError::Io })
        }),
{
}

/// The child installs the filter after everything else that prepares it
/// and right before it starts the program: the start of the program is the
/// last step, the filter, where there is one, is the step before it, and
/// no other step is one of these two.
pub proof fn lemma_filter_is_installed_last(runner: RunnerModel)
    ensures
        ({
            let plan = runner.child_plan();
            let n = plan.len() as int;
            &&& n >= 5
            &&& plan[n - 1] == (ChildStepModel::Exec { program: runner.program })
            &&& runner.seccomp is Some ==> plan[n - 2] == ChildStepModel::InstallFilter
            &&& forall|i: int|
                0 <= i < n - 1 && !(runner.seccomp is Some && i == n - 2) ==> !(
                #[trigger] plan[i] is InstallFilter) && !(plan[i] is Exec)
        }),
{
    let head = seq![
        ChildStepModel::RedirectInput { path: runner.input_file },
        ChildStepModel::RedirectOutput { path: runner.output_file },
        ChildStepModel::Unshare { namespaces: all_namespaces() },
        ChildStepModel::Chdir { path: "/"@ },
    ];
    let jail: Seq<ChildStepModel> = match runner.chroot {
        Some(path) => seq![ChildStepModel::Chroot { path }],
        None => Seq::empty(),
    };
    let filter: Seq<ChildStepModel> = if runner.seccomp is Some {
        seq![ChildStepModel::InstallFilter]
    } else {
        Seq::empty()
    };
    let last = seq![ChildStepModel::Exec { program: runner.program }];
    let plan = runner.child_plan();
    assert(plan == head + jail + filter + last);
    let n = plan.len() as int;
    assert(plan[n - 1] == last[0]);
    if runner.seccomp is Some {
        assert(plan[n - 2] == filter[0]);
    }
    assert forall|i: int|
        0 <= i < n - 1 && !(runner.seccomp is Some && i == n - 2) implies !(
    #[trigger] plan[i] is InstallFilter) && !(plan[i] is Exec) by {
        if i < 4 {
            assert(plan[i] == head[i]);
        } else {
            assert(plan[i] == jail[i - 4]);
        }
    }
}

} // verus!
