//! The controllers that have a directory of their own below the root of the
//! cgroup file system.
use crate::paths::{join, joined};
use vstd::prelude::*;
use vstd::string::*;

verus! {

#[derive(PartialEq, Eq, Hash, Clone, Copy, Debug, Structural)]
pub enum Controller {
    Cpu,
    Memory,
}

impl Controller {
    /// The name of the directory of the controller.
    pub open spec fn dir_name(self) -> Seq<char> {
        match self {
            Controller::Cpu => "cpu"@,
            Controller::Memory => "memory"@,
        }
    }

    /// The directory of the controller below the root of the cgroup file
    /// system.
    pub fn cgroup_path(self) -> (path: String)
        ensures
            path@ == joined("/sys/fs/cgroup/"@, self.dir_name()),
    {
        join(
            "/sys/fs/cgroup/",
            match self {
                Controller::Cpu => "cpu",
                Controller::Memory => "memory",
            },
        )
    }
}

} // verus!
