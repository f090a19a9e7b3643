//! The memory controller: the limit and the usage of a cgroup.
use super::super::hierarchy::{CountFile, Hierarchy, PidFile};
use super::super::{leaf, Context, ContextModel};
use super::Controller;
use crate::paths::{join, joined};
use vstd::prelude::*;
use vstd::string::*;

verus! {

/// The memory controller of a cgroup.
#[derive(Debug, PartialEq)]
pub struct MemoryController {
    inner: String,
    initialized: bool,
}

impl MemoryController {
    /// The leaf directory of the controller.
    pub closed spec fn spec_path(&self) -> Seq<char> {
        self.inner@
    }

    /// Whether the controller was initialized when the handle was made.
    pub closed spec fn initialized(&self) -> bool {
        self.initialized
    }

    /// The memory that the cgroup uses now, in `memory.usage_in_bytes`.
    pub fn usage_in_bytes(&self) -> (file: CountFile)
        ensures
            file.path@ == joined(self.spec_path(), "memory.usage_in_bytes"@),
    {
        CountFile { path: join(self.inner.as_str(), "memory.usage_in_bytes") }
    }

    /// The most memory that the cgroup has used, in
    /// `memory.max_usage_in_bytes`.
    pub fn max_usage_in_bytes(&self) -> (file: CountFile)
        ensures
            file.path@ == joined(self.spec_path(), "memory.max_usage_in_bytes"@),
    {
        CountFile { path: join(self.inner.as_str(), "memory.max_usage_in_bytes") }
    }

    /// The memory that the cgroup may use, in `memory.limit_in_bytes`.
    pub fn limit_in_bytes(&self) -> (file: CountFile)
        ensures
            file.path@ == joined(self.spec_path(), "memory.limit_in_bytes"@),
    {
        CountFile { path: join(self.inner.as_str(), "memory.limit_in_bytes") }
    }

    /// How often the cgroup has hit its limit, in `memory.failcnt`.
    pub fn failcnt(&self) -> (file: CountFile)
        ensures
            file.path@ == joined(self.spec_path(), "memory.failcnt"@),
    {
        CountFile { path: join(self.inner.as_str(), "memory.failcnt") }
    }

    /// How readily the kernel swaps the cgroup out, in
    /// `memory.swappiness`.
    pub fn swappiness(&self) -> (file: CountFile)
        ensures
            file.path@ == joined(self.spec_path(), "memory.swappiness"@),
    {
        CountFile { path: join(self.inner.as_str(), "memory.swappiness") }
    }
}

impl Controller for MemoryController {
    open spec fn spec_name() -> Seq<char> {
        "memory"@
    }

    open spec fn enabled(context: ContextModel) -> bool {
        context.memory
    }

    open spec fn enable(context: ContextModel) -> ContextModel {
        ContextModel { memory: true, ..context }
    }

    open spec fn directory(&self) -> Seq<char> {
        self.spec_path()
    }

    open spec fn ready(&self) -> bool {
        self.initialized()
    }

    fn name() -> (name: &'static str) {
        "memory"
    }

    fn from_ctx(context: &Context) -> (controller: MemoryController) {
        MemoryController { inner: context.leaf_of("memory"), initialized: context.has_memory() }
    }

    fn is_initialized(&self) -> (b: bool) {
        self.initialized
    }

    fn initialize(context: &mut Context) -> (directory: String) {
        let directory = context.leaf_of("memory");
        context.mark_memory();
        directory
    }
}

impl Hierarchy for MemoryController {
    open spec fn spec_path(&self) -> Seq<char> {
        self.directory()
    }

    fn path(&self) -> (p: String) {
        self.inner.clone()
    }

    fn procs(&self) -> (f: PidFile) {
        PidFile { path: join(self.inner.as_str(), "cgroup.procs") }
    }

    fn tasks(&self) -> (f: PidFile) {
        PidFile { path: join(self.inner.as_str(), "tasks") }
    }
}

} // verus!
