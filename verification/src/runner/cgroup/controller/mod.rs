//! The controllers of a cgroup.
pub mod cpu;
pub mod cpuacct;
pub mod memory;

pub use cpu::CpuController;
pub use cpuacct::CpuAcctController;
pub use memory::MemoryController;

use super::{leaf, Context, ContextModel};
use vstd::prelude::*;

verus! {

/// Cgroup controller trait.
///
/// A controller is a handle made from a context: it knows the leaf
/// directory of the context under the controller, and whether the context
/// had the controller initialized when the handle was made.
pub trait Controller: Sized {
    /// The name of the controller.
    spec fn spec_name() -> Seq<char>;

    /// Whether a context has this controller initialized.
    spec fn enabled(context: ContextModel) -> bool;

    /// A context with this controller initialized.
    spec fn enable(context: ContextModel) -> ContextModel;

    /// The leaf directory of the controller.
    spec fn directory(&self) -> Seq<char>;

    /// Whether the controller was initialized when the handle was made.
    spec fn ready(&self) -> bool;

    /// The name of the controller.
    fn name() -> (name: &'static str)
        ensures
            name@ == Self::spec_name(),
    ;

    /// Generate a controller from the given context.
    fn from_ctx(context: &Context) -> (controller: Self)
        ensures
            controller.directory() == leaf(Self::spec_name(), context@.name),
            controller.ready() == Self::enabled(context@),
    ;

    /// Has the controller been initialized.
    ///
    /// A controller may be uninitialized when it is created.
    /// In that case, the user should call `initialize` by hand.
    fn is_initialized(&self) -> (b: bool)
        ensures
            b == self.ready(),
    ;

    /// Initialize the controller in a context.
    ///
    /// Returns the leaf directory, which is to be created unless it
    /// exists. The context has the controller initialized from then on,
    /// and gives the directory back when it is torn down.
    fn initialize(context: &mut Context) -> (directory: String)
        ensures
            directory@ == leaf(Self::spec_name(), old(context)@.name),
            final(context)@ == Self::enable(old(context)@),
            Self::enabled(final(context)@),
    ;
}

} // verus!
