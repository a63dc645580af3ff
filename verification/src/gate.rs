//! The one-shot initialization gate guarding the registry.
//!
//! A `Gate` has three states: `Uninitialized` (initial), `Initializing`
//! (transient, while the registry is being constructed) and `Ready`
//! (terminal, holding the one registry). Readers treat anything but `Ready`
//! as "not ready": a publish is silently dropped and a snapshot is absent,
//! so no caller ever observes a partially constructed registry.

use vstd::prelude::*;

use crate::registry::Registry;
use crate::registry::apply_publishes;

verus! {

/// The one-shot state. Once `Ready`, the registry handle never changes.
pub enum Gate<V> {
    Uninitialized,
    Initializing,
    Ready(Registry<V>),
}

impl<V> Gate<V> {
    /// A ready gate holds a well-formed registry.
    pub open spec fn wf(&self) -> bool {
        match self {
            Gate::Ready(r) => r.wf(),
            _ => true,
        }
    }

    /// A gate in its initial, uninitialized state.
    pub fn new() -> (g: Gate<V>)
        ensures
            g.wf(),
            g@ is None,
    {
        Gate::Uninitialized
    }
}

impl<V> View for Gate<V> {
    type V = Option<Map<Seq<char>, V>>;

    /// The registry's map once `Ready`; absent before that.
    open spec fn view(&self) -> Option<Map<Seq<char>, V>> {
        match self {
            Gate::Ready(r) => Some(r@),
            _ => None,
        }
    }
}

/// The map, if any, after a sequence of publishes is routed through a
/// `Gate` in order: a publish against one that is not ready is dropped.
pub open spec fn apply_gate_publishes<V>(
    g: Option<Map<Seq<char>, V>>,
    pubs: Seq<(Seq<char>, V)>,
) -> Option<Map<Seq<char>, V>>
    decreases pubs.len(),
{
    if pubs.len() == 0 {
        g
    } else {
        match apply_gate_publishes(g, pubs.drop_last()) {
            Some(m) => Some(m.insert(pubs.last().0, pubs.last().1)),
            None => None,
        }
    }
}

/// Law: publishes issued before `init` have no observable
/// effect. However many publishes are routed through a gate that is not
/// ready, it still holds no map — so an `init` that then constructs
/// the registry starts from the empty map, exactly as if nothing had been
/// published.
pub proof fn lemma_publishes_before_init_lost<V>(pubs: Seq<(Seq<char>, V)>)
    ensures
        apply_gate_publishes(None::<Map<Seq<char>, V>>, pubs) is None,
    decreases pubs.len(),
{
    if pubs.len() > 0 {
        lemma_publishes_before_init_lost::<V>(pubs.drop_last());
    }
}

/// Law: once a `Gate` is ready, routing publishes through it is exactly
/// applying them to the registry's map, one insert-or-overwrite each.
pub proof fn lemma_ready_gate_publishes<V>(m: Map<Seq<char>, V>, pubs: Seq<(Seq<char>, V)>)
    ensures
        apply_gate_publishes(Some(m), pubs) == Some(apply_publishes(m, pubs)),
    decreases pubs.len(),
{
    if pubs.len() > 0 {
        lemma_ready_gate_publishes(m, pubs.drop_last());
    }
}

} // verus!
