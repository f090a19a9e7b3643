//! The cpu controller: the period and the quota of the scheduler.
use super::super::hierarchy::{CpuTimeFile, Hierarchy, PidFile};
use super::super::{leaf, Context, ContextModel};
use super::Controller;
use crate::paths::{join, joined};
use vstd::prelude::*;
use vstd::string::*;

verus! {

/// The cpu controller of a cgroup.
#[derive(Debug, PartialEq)]
pub struct CpuController {
    inner: String,
    initialized: bool,
}

impl CpuController {
    /// The leaf directory of the controller.
    pub closed spec fn spec_path(&self) -> Seq<char> {
        self.inner@
    }

    /// Whether the controller was initialized when the handle was made.
    pub closed spec fn initialized(&self) -> bool {
        self.initialized
    }

    /// The length of a scheduling period, in `cpu.cfs_period_us`.
    pub fn period(&self) -> (file: CpuTimeFile)
        ensures
            file.path@ == joined(self.spec_path(), "cpu.cfs_period_us"@),
    {
        CpuTimeFile { path: join(self.inner.as_str(), "cpu.cfs_period_us") }
    }

    /// The CPU time that the cgroup may use in one period, in
    /// `cpu.cfs_quota_us`.
    pub fn quota(&self) -> (file: CpuTimeFile)
        ensures
            file.path@ == joined(self.spec_path(), "cpu.cfs_quota_us"@),
    {
        CpuTimeFile { path: join(self.inner.as_str(), "cpu.cfs_quota_us") }
    }
}

impl Controller for CpuController {
    open spec fn spec_name() -> Seq<char> {
        "cpu"@
    }

    open spec fn enabled(context: ContextModel) -> bool {
        context.cpu
    }

    open spec fn enable(context: ContextModel) -> ContextModel {
        ContextModel { cpu: true, ..context }
    }

    open spec fn directory(&self) -> Seq<char> {
        self.spec_path()
    }

    open spec fn ready(&self) -> bool {
        self.initialized()
    }

    fn name() -> (name: &'static str) {
        "cpu"
    }

    fn from_ctx(context: &Context) -> (controller: CpuController) {
        CpuController { inner: context.leaf_of("cpu"), initialized: context.has_cpu() }
    }

    fn is_initialized(&self) -> (b: bool) {
        self.initialized
    }

    fn initialize(context: &mut Context) -> (directory: String) {
        let directory = context.leaf_of("cpu");
        context.mark_cpu();
        directory
    }
}

impl Hierarchy for CpuController {
    open spec fn spec_path(&self) -> Seq<char> {
        self.directory()
    }

    fn path(&self) -> (p: String) {
        self.inner.clone()
    }

    fn procs(&self) -> (f: PidFile) {
        PidFile { path: join(self.inner.as_str(), "cgroup.procs") }
    }

    fn tasks(&self) -> (f: PidFile) {
        PidFile { path: join(self.inner.as_str(), "tasks") }
    }
}

} // verus!
