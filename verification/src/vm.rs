//! The top-level virtual machine.
//!
//! A `VM` owns the library of instruction streams and the scratch stack that
//! one top-level run shares with every nested call. `run` executes the entry
//! segment in a fresh interpreter instance and reports whether the run
//! halted cleanly.

use vstd::prelude::*;

use crate::bytebuf::segs;
use crate::semantics::Outcome;
use crate::semantics::init_view;
use crate::semantics::run_from;
use crate::stack::ScratchStack;
use crate::vm_script::VMScript;
use bytes::Bytes;

verus! {

/// The top-level machine: the library of segments and the shared scratch
/// stack, which outlives every nested instance of one run.
pub struct VM {
    scripts: Vec<Bytes>,
    /// The scratch stack shared by all nested executions of a run.
    pub heap: ScratchStack,
}

impl VM {
    /// The byte contents of each library segment.
    pub closed spec fn lib_views(&self) -> Seq<Seq<u8>> {
        segs(self.scripts@)
    }

    /// The logical contents of the scratch stack.
    pub closed spec fn heap_view(&self) -> Seq<u8> {
        self.heap@
    }

    /// The stack is well formed and the library has an entry segment.
    pub closed spec fn wf(&self) -> bool {
        self.heap.wf() && self.scripts@.len() >= 1
    }

    /// Creates a machine over a library whose segment 0 is the entry
    /// segment, with an empty scratch stack.
    pub fn new(scripts: Vec<Bytes>) -> (vm: VM)
        requires
            scripts@.len() >= 1,
        ensures
            vm.wf(),
            vm.lib_views() == segs(scripts@),
            vm.heap_view() == Seq::<u8>::empty(),
    {
        VM { scripts, heap: ScratchStack::new() }
    }

    /// Runs the entry segment in a fresh interpreter instance, sharing this
    /// machine's scratch stack. Returns whether the run halted cleanly; a
    /// fault anywhere, nested calls included, makes the whole run report
    /// failure.
    pub fn run(&mut self) -> (r: bool)
        requires
            old(self).wf(),
        ensures
            final(self).wf(),
            final(self).lib_views() == old(self).lib_views(),
            (match run_from(old(self).lib_views(), 0, init_view(), old(self).heap_view()) {
                Outcome::Halt(v, k) => r == true && final(self).heap_view() == k,
                Outcome::Fault(f) => r == false,
            }),
    {
        let mut vm_scr = VMScript::new();
        match vm_scr.run(&self.scripts, &mut self.heap) {
            Ok(()) => true,
            Err(_) => false,
        }
    }
}

} // verus!
