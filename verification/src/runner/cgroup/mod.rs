//! Reduced high-level APIs for cgroup.
pub mod controller;
pub mod hierarchy;
pub mod subsystem;

use crate::paths::{join, joined, no_separator};
use crate::text::{signed_decimal, string_views};
use controller::{Controller, CpuAcctController, CpuController, MemoryController};
use hierarchy::{AttrFile, FileWrite, PidFile};
use vstd::prelude::*;
use vstd::string::*;

verus! {

/// Provide the root path of a cgroup.
pub trait CgroupRoot {
    /// The root path of a cgroup.
    spec fn spec_root() -> Seq<char>;

    /// The root path of a cgroup.
    fn root() -> (r: &'static str)
        ensures
            r@ == Self::spec_root(),
    ;
}

/// The character is a decimal digit or one of the letters `a` to `f`.
pub open spec fn is_lower_hex(c: char) -> bool {
    ('0' <= c && c <= '9') || ('a' <= c && c <= 'f')
}

/// The text has the shape of a random UUID in its usual form: 32
/// hexadecimal digits in lower case, in groups of 8, 4, 4, 4 and 12 with a
/// hyphen between two groups; the third group starts with the version, 4,
/// and the fourth with the variant, one of 8, 9, a and b.
pub open spec fn is_uuid_text(s: Seq<char>) -> bool {
    &&& s.len() == 36
    &&& forall|i: int|
        0 <= i < 36 ==> if i == 8 || i == 13 || i == 18 || i == 23 {
            #[trigger] s[i] == '-'
        } else {
            is_lower_hex(s[i])
        }
    &&& s[14] == '4'
    &&& (s[19] == '8' || s[19] == '9' || s[19] == 'a' || s[19] == 'b')
}

/// A name of the shape of a UUID is not empty and holds no `/`.
pub proof fn lemma_uuid_text_is_plain(s: Seq<char>)
    requires
        is_uuid_text(s),
    ensures
        s.len() > 0,
        no_separator(s),
{
    assert forall|i: int| 0 <= i < s.len() implies #[trigger] s[i] != '/' by {
        if i == 8 || i == 13 || i == 18 || i == 23 {
            assert(s[i] == '-');
        } else {
            assert(is_lower_hex(s[i]));
        }
    }
}

/// A fresh random name. Calls `uuid::Uuid::new_v4` and writes the result
/// out with `to_string`, which gives the hyphenated form in lower case.
/// Only the shape of the text is claimed: which digits come is left open.
#[verifier::external_body]
fn random_name() -> (name: String)
    ensures
        is_uuid_text(name@),
{
    uuid::Uuid::new_v4().to_string()
}

/// What a cgroup context holds, as mathematical values: its name, and for
/// each controller whether it is initialized.
pub struct ContextModel {
    pub name: Seq<char>,
    pub cpu: bool,
    pub cpuacct: bool,
    pub memory: bool,
}

/// The directory of a controller below the root of the cgroup file system.
pub open spec fn controller_dir(controller: Seq<char>) -> Seq<char> {
    joined("/sys/fs/cgroup/"@, controller)
}

/// The leaf directory of the cgroup `name` under a controller.
pub open spec fn leaf(controller: Seq<char>, name: Seq<char>) -> Seq<char> {
    joined(controller_dir(controller), name)
}

impl ContextModel {
    /// No controller is initialized.
    pub open spec fn is_fresh(self) -> bool {
        !self.cpu && !self.cpuacct && !self.memory
    }

    /// The leaf directories of the initialized controllers, in the order
    /// cpu, cpuacct, memory.
    pub open spec fn leaves(self) -> Seq<Seq<char>> {
        (if self.cpu {
            seq![leaf("cpu"@, self.name)]
        } else {
            Seq::empty()
        }) + (if self.cpuacct {
            seq![leaf("cpuacct"@, self.name)]
        } else {
            Seq::empty()
        }) + (if self.memory {
            seq![leaf("memory"@, self.name)]
        } else {
            Seq::empty()
        })
    }

    /// The writes that put the process `pid` into the file `file` of every
    /// initialized hierarchy: one write of the decimal `pid` for each.
    pub open spec fn attachments(self, file: Seq<char>, pid: int) -> Seq<(Seq<char>, Seq<u8>)> {
        Seq::new(
            self.leaves().len(),
            |i: int| (joined(self.leaves()[i], file), signed_decimal(pid)),
        )
    }

    /// The same context with no controller initialized.
    pub open spec fn cleared(self) -> ContextModel {
        ContextModel { name: self.name, cpu: false, cpuacct: false, memory: false }
    }
}

/// What a list of writes holds, as mathematical values.
pub open spec fn write_views(writes: Seq<FileWrite>) -> Seq<(Seq<char>, Seq<u8>)> {
    Seq::new(writes.len(), |i: int| (writes[i].path@, writes[i].content@))
}

/// Cgroup context.
///
/// A context starts with no controller initialized, and keeps track of
/// those that are.
#[derive(Debug)]
pub struct Context {
    name: String,
    cpu: bool,
    cpuacct: bool,
    memory: bool,
}

impl View for Context {
    type V = ContextModel;

    closed spec fn view(&self) -> ContextModel {
        ContextModel {
            name: self.name@,
            cpu: self.cpu,
            cpuacct: self.cpuacct,
            memory: self.memory,
        }
    }
}

impl CgroupRoot for Context {
    open spec fn spec_root() -> Seq<char> {
        "/sys/fs/cgroup/"@
    }

    fn root() -> (r: &'static str) {
        assert(Self::spec_root() == "/sys/fs/cgroup/"@);
        "/sys/fs/cgroup/"
    }
}

impl Default for Context {
    /// A new cgroup context with a random UUID as its name.
    fn default() -> (context: Context)
        ensures
            is_uuid_text(context@.name),
            context@.is_fresh(),
    {
        let name = random_name();
        Context::with_name(name.as_str())
    }
}

impl Context {
    /// Create a new cgroup context with a random UUID as its name.
    pub fn new() -> (context: Context)
        ensures
            is_uuid_text(context@.name),
            context@.is_fresh(),
    {
        Context::default()
    }

    /// Create a new cgroup context with a given name.
    pub fn with_name(name: &str) -> (context: Context)
        ensures
            context@.name == name@,
            context@.is_fresh(),
    {
        Context { name: String::from_str(name), cpu: false, cpuacct: false, memory: false }
    }

    /// The name of the context.
    pub fn name(&self) -> (name: &str)
        ensures
            name@ == self@.name,
    {
        self.name.as_str()
    }

    /// The leaf directory of this context under the controller
    /// `controller`.
    pub fn leaf_of(&self, controller: &str) -> (path: String)
        ensures
            path@ == leaf(controller@, self@.name),
    {
        let dir = join(Context::root(), controller);
        join(dir.as_str(), self.name.as_str())
    }

    /// Get the cpu controller.
    ///
    /// The controller must be initialized before read or write to it.
    pub fn cpu_controller(&self) -> (controller: CpuController)
        ensures
            controller.spec_path() == leaf("cpu"@, self@.name),
            controller.initialized() == self@.cpu,
    {
        CpuController::from_ctx(self)
    }

    /// Get the cpuacct controller.
    ///
    /// The controller must be initialized before read or write to it.
    pub fn cpuacct_controller(&self) -> (controller: CpuAcctController)
        ensures
            controller.spec_path() == leaf("cpuacct"@, self@.name),
            controller.initialized() == self@.cpuacct,
    {
        CpuAcctController::from_ctx(self)
    }

    /// Get the memory controller.
    ///
    /// The controller must be initialized before read or write to it.
    pub fn memory_controller(&self) -> (controller: MemoryController)
        ensures
            controller.spec_path() == leaf("memory"@, self@.name),
            controller.initialized() == self@.memory,
    {
        MemoryController::from_ctx(self)
    }

    /// Whether the cpu controller is initialized.
    pub fn has_cpu(&self) -> (b: bool)
        ensures
            b == self@.cpu,
    {
        self.cpu
    }

    /// Whether the cpuacct controller is initialized.
    pub fn has_cpuacct(&self) -> (b: bool)
        ensures
            b == self@.cpuacct,
    {
        self.cpuacct
    }

    /// Whether the memory controller is initialized.
    pub fn has_memory(&self) -> (b: bool)
        ensures
            b == self@.memory,
    {
        self.memory
    }

    /// Marks the cpu controller as initialized.
    pub(crate) fn mark_cpu(&mut self)
        ensures
            final(self)@ == (ContextModel { cpu: true, ..old(self)@ }),
    {
        self.cpu = true;
    }

    /// Marks the cpuacct controller as initialized.
    pub(crate) fn mark_cpuacct(&mut self)
        ensures
            final(self)@ == (ContextModel { cpuacct: true, ..old(self)@ }),
    {
        self.cpuacct = true;
    }

    /// Marks the memory controller as initialized.
    pub(crate) fn mark_memory(&mut self)
        ensures
            final(self)@ == (ContextModel { memory: true, ..old(self)@ }),
    {
        self.memory = true;
    }

    /// All hierarchies that this cgroup context contains: the leaf
    /// directories of the initialized controllers.
    pub fn hierarchies(&self) -> (paths: Vec<String>)
        ensures
            string_views(paths@) == self@.leaves(),
    {
        let mut paths: Vec<String> = Vec::new();
        if self.cpu {
            paths.push(self.leaf_of("cpu"));
        }
        if self.cpuacct {
            paths.push(self.leaf_of("cpuacct"));
        }
        if self.memory {
            paths.push(self.leaf_of("memory"));
        }
        assert(string_views(paths@) =~= self@.leaves());
        paths
    }

    /// The writes that put `pid` into the file `file` of every hierarchy.
    fn attach(&self, file: &str, pid: i32) -> (writes: Vec<FileWrite>)
        ensures
            write_views(writes@) == self@.attachments(file@, pid as int),
    {
        let leaves = self.hierarchies();
        let mut writes: Vec<FileWrite> = Vec::new();
        let mut i: usize = 0;
        while i < leaves.len()
            invariant
                i <= leaves@.len(),
                string_views(leaves@) == self@.leaves(),
                writes@.len() == i,
                forall|k: int|
                    0 <= k < i ==> (#[trigger] writes@[k]).path@ == joined(self@.leaves()[k], file@)
                        && writes@[k].content@ == signed_decimal(pid as int),
            decreases leaves@.len() - i,
        {
            assert(string_views(leaves@)[i as int] == leaves@[i as int]@);
            let target = PidFile { path: join(leaves[i].as_str(), file) };
            writes.push(target.write(&pid));
            i = i + 1;
        }
        assert(string_views(leaves@).len() == leaves@.len());
        assert(write_views(writes@) =~= self@.attachments(file@, pid as int));
        writes
    }

    /// Add a process to the context: its identifier is written once to
    /// `cgroup.procs` of every initialized hierarchy.
    pub fn add_process(&self, pid: i32) -> (writes: Vec<FileWrite>)
        ensures
            write_views(writes@) == self@.attachments("cgroup.procs"@, pid as int),
    {
        self.attach("cgroup.procs", pid)
    }

    /// Add a task(thread) to the context: its identifier is written once
    /// to `tasks` of every initialized hierarchy.
    pub fn add_task(&self, pid: i32) -> (writes: Vec<FileWrite>)
        ensures
            write_views(writes@) == self@.attachments("tasks"@, pid as int),
    {
        self.attach("tasks", pid)
    }

    /// Gives the context up: the directories to remove are the leaf
    /// directories of the initialized controllers, and afterwards no
    /// controller is initialized.
    pub fn teardown(&mut self) -> (paths: Vec<String>)
        ensures
            string_views(paths@) == old(self)@.leaves(),
            final(self)@ == old(self)@.cleared(),
            final(self)@.leaves() == Seq::<Seq<char>>::empty(),
    {
        let paths = self.hierarchies();
        self.cpu = false;
        self.cpuacct = false;
        self.memory = false;
        assert(self@.leaves() =~= Seq::<Seq<char>>::empty());
        paths
    }
}

/// The leaf directory of a cgroup whose name does not start with `/` lies
/// below the directory of the controller, which lies below the root.
pub proof fn lemma_leaf_is_below_root(controller: Seq<char>, name: Seq<char>)
    requires
        controller.len() > 0,
        no_separator(controller),
        name.len() == 0 || name[0] != '/',
    ensures
        leaf(controller, name) == "/sys/fs/cgroup/"@ + controller + seq!['/'] + name,
{
    reveal_strlit("/sys/fs/cgroup/");
    let root = "/sys/fs/cgroup/"@;
    assert(root.last() == '/');
    assert(controller[0] != '/');
    assert(controller_dir(controller) == root + controller);
    assert((root + controller).last() == controller.last());
}

/// The leaf directory of a cgroup with a name of the shape of a UUID, as
/// every fresh context has one, is the directory of that name below the
/// directory of the controller.
pub proof fn lemma_uuid_leaf(controller: Seq<char>, name: Seq<char>)
    requires
        controller.len() > 0,
        no_separator(controller),
        is_uuid_text(name),
    ensures
        leaf(controller, name) == "/sys/fs/cgroup/"@ + controller + seq!['/'] + name,
{
    lemma_uuid_text_is_plain(name);
    lemma_leaf_is_below_root(controller, name);
}

/// What a context gives back when it is torn down is what it was asked to
/// keep track of: the leaf directory of a controller is among the
/// directories to remove exactly when the controller is initialized. Names
/// of the shape of a UUID are taken, as two controllers then never share a
/// directory.
pub proof fn lemma_teardown_removes_what_was_initialized(context: ContextModel)
    requires
        is_uuid_text(context.name),
    ensures
        context.cpu <==> context.leaves().contains(leaf("cpu"@, context.name)),
        context.cpuacct <==> context.leaves().contains(leaf("cpuacct"@, context.name)),
        context.memory <==> context.leaves().contains(leaf("memory"@, context.name)),
        context.cleared().leaves() == Seq::<Seq<char>>::empty(),
{
    reveal_strlit("cpu");
    reveal_strlit("cpuacct");
    reveal_strlit("memory");
    let name = context.name;
    let root = "/sys/fs/cgroup/"@;
    lemma_uuid_leaf("cpu"@, name);
    lemma_uuid_leaf("cpuacct"@, name);
    lemma_uuid_leaf("memory"@, name);
    let cpu = leaf("cpu"@, name);
    let cpuacct = leaf("cpuacct"@, name);
    let memory = leaf("memory"@, name);
    // The three directories differ already in their lengths or in the
    // first letter of the controller.
    assert(cpu.len() == root.len() + 3 + 1 + 36);
    assert(cpuacct.len() == root.len() + 7 + 1 + 36);
    assert(memory.len() == root.len() + 6 + 1 + 36);
    let leaves = context.leaves();
    let a: Seq<Seq<char>> = if context.cpu {
        seq![cpu]
    } else {
        Seq::empty()
    };
    let b: Seq<Seq<char>> = if context.cpuacct {
        seq![cpuacct]
    } else {
        Seq::empty()
    };
    let c: Seq<Seq<char>> = if context.memory {
        seq![memory]
    } else {
        Seq::empty()
    };
    assert(leaves == a + b + c);
    assert forall|d: Seq<char>| leaves.contains(d) implies (context.cpu && d == cpu) || (
    context.cpuacct && d == cpuacct) || (context.memory && d == memory) by {
        let i = choose|i: int| 0 <= i < leaves.len() && leaves[i] == d;
        if i < a.len() {
            assert(leaves[i] == a[i]);
        } else if i < a.len() + b.len() {
            assert(leaves[i] == b[i - a.len()]);
        } else {
            assert(leaves[i] == c[i - a.len() - b.len()]);
        }
    }
    if context.cpu {
        assert(leaves[0] == cpu);
    }
    if context.cpuacct {
        assert(leaves[a.len() as int] == cpuacct);
    }
    if context.memory {
        assert(leaves[(a.len() + b.len()) as int] == memory);
    }
    assert(context.cleared().leaves() =~= Seq::<Seq<char>>::empty());
}

} // verus!
