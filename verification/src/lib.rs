//! A registry of named, lazily evaluated values.
//!
//! Independent parts of a program publish value handles under string names;
//! a monitoring consumer later takes a point-in-time snapshot of all
//! published entries and computes each current reading itself by invoking
//! the handle's capability.
//!
//! The registry is guarded by a three-state gate (`Gate`): publishes issued
//! before `init` has made it ready are silently dropped, and snapshots are
//! absent, so no caller ever observes a partially constructed registry.

use vstd::prelude::*;

pub mod digits;
pub mod gate;
pub mod kinds;
pub mod registry;

pub use crate::digits::to_decimal;
pub use crate::gate::Gate;
pub use crate::kinds::Func;
pub use crate::kinds::Int;
pub use crate::kinds::Var;
pub use crate::registry::Registry;
pub use crate::registry::snapshot_matches;

verus! {

/// The `Gate` read: the registry handle once it is ready, and nothing
/// before that.
fn registry<V>(gate: &Gate<V>) -> (r: Option<&Registry<V>>)
    requires
        gate.wf(),
    ensures
        (r is Some) <==> (gate@ is Some),
        r matches Some(reg) ==> reg.wf() && Some(reg@) == gate@,
{
    match gate {
        Gate::Ready(reg) => Some(reg),
        _ => None,
    }
}

/// Makes `gate` ready, constructing the one empty registry, if no earlier
/// call already did; calling `init` on a ready gate is a no-op and never
/// replaces the registry that readers may hold.
pub fn init<V>(gate: &mut Gate<V>)
    requires
        old(gate).wf(),
    ensures
        final(gate).wf(),
        old(gate)@ is None ==> final(gate)@ == Some(Map::<Seq<char>, V>::empty()),
        old(gate)@ is Some ==> final(gate)@ == old(gate)@,
{
    match gate {
        Gate::Ready(_) => {},
        _ => {
            *gate = Gate::Initializing;
            *gate = Gate::Ready(Registry::new());
        },
    }
}

/// Publishes `var` under `name`: inserts or overwrites the registry's entry
/// for `name` if `gate` is ready, and silently does nothing before that —
/// a designed degraded mode, not an error.
pub fn publish<V>(gate: &mut Gate<V>, name: String, var: V)
    requires
        old(gate).wf(),
    ensures
        final(gate).wf(),
        final(gate)@ == match old(gate)@ {
            Some(m) => Some(m.insert(name@, var)),
            None => None::<Map<Seq<char>, V>>,
        },
{
    match gate {
        Gate::Ready(reg) => {
            reg.publish(name, var);
        },
        _ => {},
    }
}

/// A point-in-time snapshot of all published entries: absent while `gate`
/// is not ready, and present — listing exactly the registry's entries, each
/// name once — from the moment `init` completes, even when nothing was
/// published yet.
pub fn vars<V: Copy>(gate: &Gate<V>) -> (r: Option<Vec<(String, V)>>)
    requires
        gate.wf(),
    ensures
        (r is Some) <==> (gate@ is Some),
        r matches Some(v) ==> snapshot_matches(v@, gate@->Some_0),
{
    match registry(gate) {
        Some(reg) => Some(reg.snapshot()),
        None => None,
    }
}

} // verus!
