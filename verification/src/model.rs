//! A model of the whole subsystem's resources: which ids hold a
//! registry entry and which ids own a live tunnel process.
//!
//! The registry and the supervisors guarantee, each at its own level,
//! that a process is spawned only for a registered id, that teardown
//! kills the process of the id torn down, and that replacing a
//! supervisor kills the old process before the new attempt spawns.
//! This module states those guarantees as a transition system over
//! sets of ids and proves that along any sequence of such transitions
//! the live processes stay within the registered ids: no sequence of
//! connect, disconnect and shutdown requests can leave more live
//! tunnel processes than registered connections.

use vstd::prelude::*;
use vstd::set_lib::lemma_len_subset;

verus! {

/// The resources of the subsystem at one instant.
pub struct SystemState {
    /// Ids holding a registry entry (an active supervisor handle).
    pub registered: Set<Seq<char>>,
    /// Ids owning a live tunnel process.
    pub running: Set<Seq<char>>,
}

/// The subsystem starts with nothing registered and nothing running.
pub open spec fn sys_init() -> SystemState {
    SystemState { registered: Set::empty(), running: Set::empty() }
}

/// Every live process belongs to a registered id.
pub open spec fn sys_inv(s: SystemState) -> bool {
    &&& s.registered.finite()
    &&& s.running.subset_of(s.registered)
}

/// One observable change of the subsystem's resources.
pub enum SystemOp {
    /// A connect request: any old supervisor for the id is torn down —
    /// its process killed — before the id is (re)registered.
    Connect(Seq<char>),
    /// A disconnect request: the id's entry is removed and its
    /// supervisor kills its process before finishing.
    Disconnect(Seq<char>),
    /// Shutdown: every entry is removed, every process killed.
    DisconnectAll,
    /// A supervisor spawns its process; supervisors exist only for
    /// registered ids.
    SpawnProc(Seq<char>),
    /// A process exits on its own.
    ProcExit(Seq<char>),
}

/// How one operation changes the resources.
pub open spec fn sys_step(s: SystemState, op: SystemOp) -> SystemState {
    match op {
        SystemOp::Connect(id) => SystemState {
            registered: s.registered.insert(id),
            running: s.running.remove(id),
        },
        SystemOp::Disconnect(id) => SystemState {
            registered: s.registered.remove(id),
            running: s.running.remove(id),
        },
        SystemOp::DisconnectAll => SystemState { registered: Set::empty(), running: Set::empty() },
        SystemOp::SpawnProc(id) => if s.registered.contains(id) {
            SystemState { running: s.running.insert(id), ..s }
        } else {
            s
        },
        SystemOp::ProcExit(id) => SystemState { running: s.running.remove(id), ..s },
    }
}

/// The resources after a whole sequence of operations.
pub open spec fn sys_run(s: SystemState, ops: Seq<SystemOp>) -> SystemState
    decreases ops.len(),
{
    if ops.len() == 0 {
        s
    } else {
        sys_run(sys_step(s, ops[0]), ops.drop_first())
    }
}

/// Each operation keeps every live process within the registered ids.
pub proof fn lemma_sys_step_preserves_inv(s: SystemState, op: SystemOp)
    requires
        sys_inv(s),
    ensures
        sys_inv(sys_step(s, op)),
{
    match op {
        SystemOp::Connect(id) => {
            assert(sys_step(s, op).running.subset_of(sys_step(s, op).registered));
        },
        SystemOp::Disconnect(id) => {
            assert(sys_step(s, op).running.subset_of(sys_step(s, op).registered));
        },
        SystemOp::DisconnectAll => {},
        SystemOp::SpawnProc(id) => {
            assert(sys_step(s, op).running.subset_of(sys_step(s, op).registered));
        },
        SystemOp::ProcExit(id) => {
            assert(sys_step(s, op).running.subset_of(sys_step(s, op).registered));
        },
    }
}

/// No sequence of operations breaks the invariant.
pub proof fn lemma_sys_run_preserves_inv(s: SystemState, ops: Seq<SystemOp>)
    requires
        sys_inv(s),
    ensures
        sys_inv(sys_run(s, ops)),
    decreases ops.len(),
{
    if ops.len() > 0 {
        lemma_sys_step_preserves_inv(s, ops[0]);
        lemma_sys_run_preserves_inv(sys_step(s, ops[0]), ops.drop_first());
    }
}

/// No orphaned processes: after any sequence of connect, disconnect,
/// shutdown, spawn and exit events starting from the empty subsystem,
/// the live tunnel processes never outnumber the registered
/// connections.
pub proof fn lemma_no_orphans(ops: Seq<SystemOp>)
    ensures
        sys_inv(sys_run(sys_init(), ops)),
        sys_run(sys_init(), ops).running.len() <= sys_run(sys_init(), ops).registered.len(),
{
    assert(sys_inv(sys_init()));
    lemma_sys_run_preserves_inv(sys_init(), ops);
    let end = sys_run(sys_init(), ops);
    lemma_len_subset(end.running, end.registered);
}

} // verus!
