//! Per-actor machinery: the mailbox and its run-task, the cell, and the
//! provider that spawns actors.

pub mod cell;
pub mod laws;
pub mod mailbox;
pub mod model;
pub mod provider;

use crate::actor::{Actor, ActorUri, BasicActorRef};
use crate::kernel::cell::{CellState, CellView, Delivery, ExtendedCell};
use vstd::prelude::*;

verus! {

/// Where an actor is parked between run-tasks: the slot for its instance,
/// its cell, and what a fresh instance is built from.
pub struct Dock<A: Actor> {
    pub actor: Option<A>,
    pub cell: ExtendedCell<A::Msg>,
    pub props: A::Props,
}

impl<A: Actor> Dock<A> {
    /// Builds the first instance from `props` and parks it with a fresh
    /// cell. The instance is what `create` gives for `props`, and the cell
    /// keeps the strategy that `supervisor_strategy` names for it.
    pub fn new(props: A::Props, uri: ActorUri, parent: Option<BasicActorRef>) -> (r: Self)
        ensures
            r.actor matches Some(instance) && call_ensures(A::create, (&props,), instance)
                && call_ensures(A::supervisor_strategy, (&instance,), r.cell@.strategy),
            r.props == props,
            r.cell@ == (CellView {
                uri,
                parent,
                children: Seq::<BasicActorRef>::empty(),
                restart_count: 0,
                state: CellState::Alive,
                strategy: r.cell@.strategy,
                log: Seq::<Delivery<A::Msg>>::empty(),
            }),
    {
        let actor = A::create(&props);
        let strategy = actor.supervisor_strategy();
        Dock { actor: Some(actor), cell: ExtendedCell::new(uri, parent, strategy), props }
    }
}

} // verus!
