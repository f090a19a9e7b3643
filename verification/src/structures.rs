//! Structures of the online judge system.
use crate::text::{decimal_string, decimal_text};
use crate::time::Duration;
use vstd::prelude::*;
use vstd::string::*;

verus! {

/// Basic judge task.
#[derive(Clone, Debug, PartialEq)]
pub struct Task {
    pub source: Source,
    pub problem: Problem,
}

/// Definition of some common problem types.
#[derive(Clone, Debug, PartialEq)]
pub enum Problem {
    Normal { limit: Resource, cases: Vec<TestCase> },
    Special { limit: Resource, cases: Vec<TestCase>, spj: Source },
}

impl Problem {
    /// The test cases of the problem, whatever its kind.
    pub open spec fn cases(&self) -> Seq<TestCase> {
        match self {
            Problem::Normal { cases, .. } => cases@,
            Problem::Special { cases, .. } => cases@,
        }
    }

    /// The resource limit of the problem, whatever its kind.
    pub open spec fn limit(&self) -> Resource {
        match self {
            Problem::Normal { limit, .. } => *limit,
            Problem::Special { limit, .. } => *limit,
        }
    }

    /// Return the number of test cases in this problem.
    pub fn len(&self) -> (n: usize)
        ensures
            n == self.cases().len(),
    {
        match self {
            Problem::Normal { cases, .. } => cases.len(),
            Problem::Special { cases, .. } => cases.len(),
        }
    }

    /// Return `true` if the problem contains no test case.
    pub fn is_empty(&self) -> (empty: bool)
        ensures
            empty <==> self.cases().len() == 0,
    {
        self.len() == 0
    }
}

/// Basic test case.
///
/// Only include a input content and a answer content.
#[derive(Clone, Debug, PartialEq)]
pub struct TestCase {
    pub input: String,
    pub answer: String,
}

/// Basic source with the language and code.
///
/// The language is usually formatted into "{suffix}.{compiler}"
#[derive(Clone, Debug, PartialEq)]
pub struct Source {
    pub language: String,
    pub code: String,
}

/// Definition of all kinds of judge report.
#[derive(Clone, Debug, PartialEq)]
pub enum Report {
    Accepted { resource_usage: Resource },
    WrongAnswer,
    TimeLimitExceeded,
    MemoryLimitExceeded,
    RuntimeError,
    CompileError,
    SystemError,
}

impl Report {
    /// The text of a report: the verdict on a line of its own, and for an
    /// accepted run the resources it used, followed by an empty line.
    pub open spec fn text(self) -> Seq<char> {
        match self {
            Report::Accepted { resource_usage } => "Accepted:\n"@ + resource_usage.text() + "\n"@,
            Report::WrongAnswer => "Wrong Answer\n"@,
            Report::TimeLimitExceeded => "Time Limit Exceeded\n"@,
            Report::MemoryLimitExceeded => "Memory Limit Exceeded\n"@,
            Report::RuntimeError => "Runtime Error\n"@,
            Report::CompileError => "Compile Error\n"@,
            Report::SystemError => "System Error\n"@,
        }
    }

    /// The report as text for a reader.
    pub fn to_text(&self) -> (out: String)
        ensures
            out@ == self.text(),
    {
        match self {
            Report::Accepted { resource_usage } => {
                let mut out = String::from_str("Accepted:\n");
                let usage = resource_usage.to_text();
                out.append(usage.as_str());
                out.append("\n");
                out
            },
            Report::WrongAnswer => String::from_str("Wrong Answer\n"),
            Report::TimeLimitExceeded => String::from_str("Time Limit Exceeded\n"),
            Report::MemoryLimitExceeded => String::from_str("Memory Limit Exceeded\n"),
            Report::RuntimeError => String::from_str("Runtime Error\n"),
            Report::CompileError => String::from_str("Compile Error\n"),
            Report::SystemError => String::from_str("System Error\n"),
        }
    }
}

/// Definition of resource.
#[derive(Clone, Copy, Debug, PartialEq, Eq, Structural)]
pub struct Resource {
    pub cpu_time: Duration,
    pub real_time: Duration,
    pub memory: usize,  // in bytes
}

impl Resource {
    /// A resource record is fit to be a limit when some CPU time is granted,
    /// no more of it than real time, and some memory.
    pub open spec fn is_limit(self) -> bool {
        &&& 0 < self.cpu_time@
        &&& self.cpu_time@ <= self.real_time@
        &&& self.memory > 0
    }

    /// The text of a resource record: the real time and the CPU time in
    /// nanoseconds and the memory in bytes, each on a line of its own.
    pub open spec fn text(self) -> Seq<char> {
        "Real Time: "@ + decimal_text(self.real_time@) + "\n"@ + "CPU Time: "@ + decimal_text(
            self.cpu_time@,
        ) + "\n"@ + "Memory: "@ + decimal_text(self.memory as nat) + "\n"@
    }

    pub fn new(cpu_time: Duration, real_time: Duration, memory: usize) -> (r: Resource)
        ensures
            r.cpu_time == cpu_time,
            r.real_time == real_time,
            r.memory == memory,
    {
        Resource { real_time, cpu_time, memory }
    }

    /// Whether the record is fit to be a limit.
    pub fn check_limit(&self) -> (ok: bool)
        ensures
            ok == self.is_limit(),
    {
        let cpu: u128 = self.cpu_time.as_nanos();
        let wall: u128 = self.real_time.as_nanos();
        0 < cpu && cpu <= wall && self.memory > 0
    }

    /// The record as text for a reader.
    pub fn to_text(&self) -> (out: String)
        ensures
            out@ == self.text(),
    {
        let mut out = String::from_str("Real Time: ");
        let wall = decimal_string(self.real_time.as_nanos());
        out.append(wall.as_str());
        out.append("\n");
        out.append("CPU Time: ");
        let cpu = decimal_string(self.cpu_time.as_nanos());
        out.append(cpu.as_str());
        out.append("\n");
        out.append("Memory: ");
        let memory = decimal_string(self.memory as u128);
        out.append(memory.as_str());
        out.append("\n");
        out
    }
}

} // verus!
