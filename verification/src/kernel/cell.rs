//! The cell of an actor: its address, its place in the supervision tree, and
//! where it stands in its lifecycle.

use crate::actor::{
    Actor, ActorUri, BasicActorRef, Context, Effect, Envelope, Outcome, Strategy, SystemCmd,
    SystemEvent, SystemMsg, FIRST_USER_ID,
};
use crate::kernel::mailbox::{flush_to_deadletters, Mailbox};
use crate::kernel::model::{
    answer_to_failure, calm, failure_report, snapshot, stop_order, stop_orders,
};
use std::fmt::Debug;
use vstd::prelude::*;

verus! {

/// Where an actor stands in its lifecycle.
#[derive(Clone, Copy, Debug, PartialEq, Eq, Structural)]
pub enum CellState {
    Alive,
    Restarting,
    Stopping,
    Stopped,
}

/// One message that a run-task took up, as the record of a cell keeps it.
pub enum Delivery<Msg> {
    System(SystemMsg),
    User(Envelope<Msg>),
}

/// Whether `children` holds a handle to the actor that `actor` addresses.
pub open spec fn has_child(children: Seq<BasicActorRef>, actor: BasicActorRef) -> bool {
    exists|i: int| 0 <= i < children.len() && (#[trigger] children[i]).same_as(&actor)
}

/// `children` without the handles to the actor that `actor` addresses, the
/// others in their order.
pub open spec fn without(children: Seq<BasicActorRef>, actor: BasicActorRef) -> Seq<
    BasicActorRef,
>
    decreases children.len(),
{
    if children.len() == 0 {
        children
    } else if children.last().same_as(&actor) {
        without(children.drop_last(), actor)
    } else {
        without(children.drop_last(), actor).push(children.last())
    }
}

/// A cell as contracts see it. `log` is the record of every message that a
/// run-task has taken up for this actor, oldest first.
pub struct CellView<Msg> {
    pub uri: ActorUri,
    pub parent: Option<BasicActorRef>,
    pub children: Seq<BasicActorRef>,
    pub restart_count: u64,
    pub state: CellState,
    pub strategy: Strategy,
    pub log: Seq<Delivery<Msg>>,
}

/// The runtime's record of one actor.
pub struct ExtendedCell<Msg> {
    uri: ActorUri,
    parent: Option<BasicActorRef>,
    children: Vec<BasicActorRef>,
    restart_count: u64,
    state: CellState,
    strategy: Strategy,
    log: Ghost<Seq<Delivery<Msg>>>,
}

impl<Msg> View for ExtendedCell<Msg> {
    type V = CellView<Msg>;

    closed spec fn view(&self) -> CellView<Msg> {
        CellView {
            uri: self.uri,
            parent: self.parent,
            children: self.children@,
            restart_count: self.restart_count,
            state: self.state,
            strategy: self.strategy,
            log: self.log@,
        }
    }
}

impl<Msg> ExtendedCell<Msg> {
    /// A cell for a fresh actor: alive, without children, never restarted,
    /// with an empty record.
    pub fn new(uri: ActorUri, parent: Option<BasicActorRef>, strategy: Strategy) -> (r: Self)
        ensures
            r@ == (CellView {
                uri,
                parent,
                children: Seq::<BasicActorRef>::empty(),
                restart_count: 0,
                state: CellState::Alive,
                strategy,
                log: Seq::<Delivery<Msg>>::empty(),
            }),
    {
        ExtendedCell {
            uri,
            parent,
            children: Vec::new(),
            restart_count: 0,
            state: CellState::Alive,
            strategy,
            log: Ghost(Seq::empty()),
        }
    }

    /// A handle to the actor of this cell.
    pub fn myself(&self) -> (r: BasicActorRef)
        ensures
            r == (BasicActorRef { uri: self@.uri }),
    {
        BasicActorRef { uri: self.uri.clone() }
    }

    pub fn uri(&self) -> (r: &ActorUri)
        ensures
            *r == self@.uri,
    {
        &self.uri
    }

    pub fn parent(&self) -> (r: &Option<BasicActorRef>)
        ensures
            *r == self@.parent,
    {
        &self.parent
    }

    pub fn children(&self) -> (r: &Vec<BasicActorRef>)
        ensures
            r@ == self@.children,
    {
        &self.children
    }

    pub fn restart_count(&self) -> (r: u64)
        ensures
            r == self@.restart_count,
    {
        self.restart_count
    }

    pub fn state(&self) -> (r: CellState)
        ensures
            r == self@.state,
    {
        self.state
    }

    pub fn strategy(&self) -> (r: Strategy)
        ensures
            r == self@.strategy,
    {
        self.strategy
    }

    /// Whether this is the cell of the root.
    pub fn is_root(&self) -> (r: bool)
        ensures
            r == (self@.uri.uid == 0),
    {
        self.uri.uid == 0
    }

    /// Whether this is the cell of a user actor rather than of the root or a
    /// guardian.
    pub fn is_user(&self) -> (r: bool)
        ensures
            r == (self@.uri.uid >= FIRST_USER_ID),
    {
        self.uri.uid >= FIRST_USER_ID
    }

    pub fn has_children(&self) -> (r: bool)
        ensures
            r == (self@.children.len() > 0),
    {
        self.children.len() > 0
    }

    /// Whether `actor` addresses a child of this actor.
    pub fn is_child(&self, actor: &BasicActorRef) -> (r: bool)
        ensures
            r == has_child(self@.children, *actor),
    {
        let mut i: usize = 0;
        while i < self.children.len()
            invariant
                i <= self.children.len(),
                forall|k: int| 0 <= k < i ==> !(#[trigger] self.children@[k]).same_as(actor),
            decreases self.children.len() - i,
        {
            if self.children[i].is_same(actor) {
                return true;
            }
            i += 1;
        }
        false
    }

    /// Adds `child` behind the children that are there, unless a handle to
    /// the same actor is among them already.
    pub fn add_child(&mut self, child: BasicActorRef)
        ensures
            final(self)@ == (CellView {
                children: if has_child(old(self)@.children, child) {
                    old(self)@.children
                } else {
                    old(self)@.children.push(child)
                },
                ..old(self)@
            }),
    {
        if !self.is_child(&child) {
            self.children.push(child);
        }
    }

    /// Removes the handles to the actor that `child` addresses and keeps the
    /// order of the others.
    pub fn remove_child(&mut self, child: &BasicActorRef)
        ensures
            final(self)@ == (CellView {
                children: without(old(self)@.children, *child),
                ..old(self)@
            }),
    {
        let mut kept: Vec<BasicActorRef> = Vec::new();
        let mut i: usize = 0;
        while i < self.children.len()
            invariant
                i <= self.children.len(),
                kept@ == without(self.children@.take(i as int), *child),
            decreases self.children.len() - i,
        {
            proof {
                assert(self.children@.take(i + 1).drop_last() == self.children@.take(i as int));
            }
            if !self.children[i].is_same(child) {
                kept.push(self.children[i].clone());
            }
            i += 1;
        }
        proof {
            assert(self.children@.take(i as int) == self.children@);
        }
        self.children = kept;
    }

    /// Notes that a run-task took up `delivery`.
    pub(crate) fn note(&mut self, delivery: Ghost<Delivery<Msg>>)
        ensures
            final(self)@ == (CellView { log: old(self)@.log.push(delivery@), ..old(self)@ }),
    {
        proof {
            self.log@ = self.log@.push(delivery@);
        }
    }

    pub(crate) fn set_state(&mut self, state: CellState)
        ensures
            final(self)@ == (CellView { state, ..old(self)@ }),
    {
        self.state = state;
    }

    /// Counts one more restart. The count stays at the largest value once it
    /// has reached it.
    pub(crate) fn count_restart(&mut self)
        ensures
            final(self)@ == (CellView {
                restart_count: if old(self)@.restart_count < u64::MAX {
                    (old(self)@.restart_count + 1) as u64
                } else {
                    u64::MAX
                },
                ..old(self)@
            }),
    {
        if self.restart_count < u64::MAX {
            self.restart_count = self.restart_count + 1;
        }
    }
}

impl<Msg: Debug> ExtendedCell<Msg> {
    /// Orders every child to stop, in the order of the children.
    pub fn stop_children(&self, ctx: &mut Context)
        ensures
            final(ctx).myself == old(ctx).myself,
            final(ctx).parent == old(ctx).parent,
            final(ctx).dead_letters@ == old(ctx).dead_letters@,
            final(ctx).effects@ == old(ctx).effects@ + stop_orders(self@.children),
    {
        let mut i: usize = 0;
        while i < self.children.len()
            invariant
                i <= self.children.len(),
                ctx.myself == old(ctx).myself,
                ctx.parent == old(ctx).parent,
                ctx.dead_letters@ == old(ctx).dead_letters@,
                ctx.effects@ == old(ctx).effects@ + stop_orders(self.children@.take(i as int)),
            decreases self.children.len() - i,
        {
            let child = self.children[i].clone();
            ctx.emit(Effect::SysTell { to: child, msg: SystemMsg::Command(SystemCmd::Stop) });
            proof {
                assert(stop_orders(self.children@.take(i + 1)) =~= stop_orders(
                    self.children@.take(i as int),
                ).push(stop_order(self.children@[i as int])));
            }
            i += 1;
        }
        proof {
            assert(self.children@.take(i as int) == self.children@);
        }
    }

    /// Ends a stop when no child is left. `post_stop` runs on the instance
    /// if there is one; whether or not it completes, the termination is
    /// published and reported to the parent, the path is given back, the
    /// user queue is flushed to the dead letters, the system queue is
    /// emptied, the mailbox is closed and the slot is emptied. The outcome
    /// is that of `post_stop`.
    pub fn terminate<A: Actor<Msg = Msg>>(
        &mut self,
        actor: &mut Option<A>,
        mbox: &mut Mailbox<Msg>,
        ctx: &mut Context,
    ) -> (r: Outcome)
        ensures
            final(ctx).myself == old(ctx).myself,
            final(ctx).parent == old(ctx).parent,
            snapshot(final(mbox)@, *final(ctx), final(self)@, final(actor).is_some()) == snapshot(
                old(mbox)@,
                *old(ctx),
                old(self)@,
                old(actor).is_some(),
            ).finish_stop(),
            old(actor).is_none() ==> r == Outcome::Completed,
    {
        let outcome = match actor {
            Some(a) => a.post_stop(),
            None => Outcome::Completed,
        };
        let me = self.myself();
        ctx.emit(Effect::Publish { event: SystemEvent::ActorTerminated { actor: me.clone() } });
        match &self.parent {
            Some(p) => {
                ctx.emit(
                    Effect::SysTell {
                        to: p.clone(),
                        msg: SystemMsg::Event(SystemEvent::ActorTerminated { actor: me.clone() }),
                    },
                );
            },
            None => {},
        }
        ctx.emit(Effect::Unregister { path: self.uri.path.clone() });
        flush_to_deadletters(mbox, &me, ctx);
        mbox.discard_sys_msgs();
        mbox.close();
        self.state = CellState::Stopped;
        *actor = None;
        outcome
    }

    /// Ends a restart, given how `pre_start` ended on the new instance. If
    /// it completed, the restart is published, user traffic flows again,
    /// the restart is counted and the actor is alive. If it was cut short
    /// nothing changes. The outcome is handed on.
    pub fn restarted(&mut self, started: Outcome, mbox: &mut Mailbox<Msg>, ctx: &mut Context) -> (r:
        Outcome)
        ensures
            r == started,
            final(ctx).myself == old(ctx).myself,
            final(ctx).parent == old(ctx).parent,
            final(ctx).dead_letters@ == old(ctx).dead_letters@,
            started == Outcome::Completed ==> snapshot(
                final(mbox)@,
                *final(ctx),
                final(self)@,
                true,
            ) == snapshot(old(mbox)@, *old(ctx), old(self)@, true).finish_restart(),
            started == Outcome::Panicked ==> final(mbox)@ == old(mbox)@ && final(self)@ == old(self)@ && final(ctx).effects@ == old(ctx).effects@,
    {
        match started {
            Outcome::Panicked => {},
            Outcome::Completed => {
                let me = self.myself();
                ctx.emit(Effect::Publish { event: SystemEvent::ActorRestarted { actor: me } });
                mbox.set_suspended(false);
                self.count_restart();
                self.state = CellState::Alive;
            },
        }
        started
    }

    /// Ends a restart when no child is left. `post_stop` runs on the old
    /// instance if there is one, a new instance is built and `pre_start`
    /// runs on it. Then the restart is published, user traffic flows again
    /// and the restart is counted.
    ///
    /// Afterwards the slot holds an instance in every case: the new one,
    /// or the old one if its `post_stop` was cut short. If a callback is
    /// cut short nothing else has changed.
    pub fn revive<A: Actor<Msg = Msg>>(
        &mut self,
        actor: &mut Option<A>,
        mbox: &mut Mailbox<Msg>,
        ctx: &mut Context,
        props: &A::Props,
    ) -> (r: Outcome)
        ensures
            final(actor).is_some(),
            final(ctx).myself == old(ctx).myself,
            final(ctx).parent == old(ctx).parent,
            final(ctx).dead_letters@ == old(ctx).dead_letters@,
            r == Outcome::Completed ==> snapshot(
                final(mbox)@,
                *final(ctx),
                final(self)@,
                final(actor).is_some(),
            ) == snapshot(old(mbox)@, *old(ctx), old(self)@, old(actor).is_some()).finish_restart(),
            r == Outcome::Panicked ==> snapshot(
                final(mbox)@,
                *final(ctx),
                final(self)@,
                final(actor).is_some(),
            ) == snapshot(old(mbox)@, *old(ctx), old(self)@, old(actor).is_some()).with_slot(
                final(actor).is_some(),
            ),
    {
        let stopped = match actor {
            Some(a) => a.post_stop(),
            None => Outcome::Completed,
        };
        match stopped {
            Outcome::Panicked => {
                return Outcome::Panicked;
            },
            Outcome::Completed => {},
        }
        let mut fresh = A::create(props);
        let started = fresh.pre_start(ctx);
        *actor = Some(fresh);
        self.restarted(started, mbox, ctx)
    }

    /// Handles a stop or restart command.
    ///
    /// Stop: the actor is stopping; with children it orders them to stop,
    /// without any it ends at once. Restart: the actor is restarting and its
    /// user traffic is suspended; with children it orders them to stop,
    /// without any it restarts at once. A stopped actor ignores both, a
    /// stopping one ignores the restart.
    ///
    /// A stop ends also if `post_stop` is cut short. If a callback of a
    /// restart is cut short, the actor is restarting and suspended, and
    /// nothing else but the slot has changed.
    pub fn receive_cmd<A: Actor<Msg = Msg>>(
        &mut self,
        cmd: SystemCmd,
        actor: &mut Option<A>,
        mbox: &mut Mailbox<Msg>,
        ctx: &mut Context,
        props: &A::Props,
    ) -> (r: Outcome)
        ensures
            final(ctx).myself == old(ctx).myself,
            final(ctx).parent == old(ctx).parent,
            final(self)@.log == old(self)@.log,
            calm(
                snapshot(old(mbox)@, *old(ctx), old(self)@, old(actor).is_some()),
                snapshot(final(mbox)@, *final(ctx), final(self)@, final(actor).is_some()),
            ),
            cmd == SystemCmd::Stop ==> snapshot(
                final(mbox)@,
                *final(ctx),
                final(self)@,
                final(actor).is_some(),
            ) == snapshot(old(mbox)@, *old(ctx), old(self)@, old(actor).is_some()).on_stop(),
            cmd == SystemCmd::Restart && r == Outcome::Completed ==> snapshot(
                final(mbox)@,
                *final(ctx),
                final(self)@,
                final(actor).is_some(),
            ) == snapshot(old(mbox)@, *old(ctx), old(self)@, old(actor).is_some()).on_restart(),
            cmd == SystemCmd::Restart && r == Outcome::Panicked ==> snapshot(
                final(mbox)@,
                *final(ctx),
                final(self)@,
                final(actor).is_some(),
            ) == snapshot(old(mbox)@, *old(ctx), old(self)@, old(actor).is_some()).in_state(
                CellState::Restarting,
            ).suspended(true).with_slot(final(actor).is_some()),
            cmd == SystemCmd::Stop && old(actor).is_none() ==> r == Outcome::Completed,
            old(self)@.children.len() > 0 || old(self)@.state == CellState::Stopped || (cmd
                == SystemCmd::Restart && old(self)@.state == CellState::Stopping) ==> r
                == Outcome::Completed,
    {
        match cmd {
            SystemCmd::Stop => {
                match self.state {
                    CellState::Stopped => Outcome::Completed,
                    _ => {
                        self.state = CellState::Stopping;
                        if self.children.len() == 0 {
                            self.terminate(actor, mbox, ctx)
                        } else {
                            self.stop_children(ctx);
                            Outcome::Completed
                        }
                    },
                }
            },
            SystemCmd::Restart => {
                match self.state {
                    CellState::Stopped => Outcome::Completed,
                    CellState::Stopping => Outcome::Completed,
                    _ => {
                        self.state = CellState::Restarting;
                        mbox.set_suspended(true);
                        if self.children.len() == 0 {
                            self.revive(actor, mbox, ctx, props)
                        } else {
                            self.stop_children(ctx);
                            Outcome::Completed
                        }
                    },
                }
            },
        }
    }

    /// Takes note that `terminated` is gone. If it is a child it leaves the
    /// children, and if it was the last one a pending stop or restart ends.
    ///
    /// If a callback of a pending restart is cut short, the child has left
    /// the children and nothing else but the slot has changed; if
    /// `post_stop` of a pending stop is, the stop has ended all the same.
    pub fn death_watch<A: Actor<Msg = Msg>>(
        &mut self,
        terminated: &BasicActorRef,
        actor: &mut Option<A>,
        mbox: &mut Mailbox<Msg>,
        ctx: &mut Context,
        props: &A::Props,
    ) -> (r: Outcome)
        ensures
            final(ctx).myself == old(ctx).myself,
            final(ctx).parent == old(ctx).parent,
            final(self)@.log == old(self)@.log,
            calm(
                snapshot(old(mbox)@, *old(ctx), old(self)@, old(actor).is_some()),
                snapshot(final(mbox)@, *final(ctx), final(self)@, final(actor).is_some()),
            ),
            r == Outcome::Completed ==> snapshot(
                final(mbox)@,
                *final(ctx),
                final(self)@,
                final(actor).is_some(),
            ) == snapshot(old(mbox)@, *old(ctx), old(self)@, old(actor).is_some()).on_death(
                *terminated,
            ),
            r == Outcome::Panicked ==> {
                let before = snapshot(old(mbox)@, *old(ctx), old(self)@, old(actor).is_some());
                let after = snapshot(
                    final(mbox)@,
                    *final(ctx),
                    final(self)@,
                    final(actor).is_some(),
                );
                after == before.on_death(*terminated) || after == before.orphaned(
                    *terminated,
                ).with_slot(final(actor).is_some())
            },
            !has_child(old(self)@.children, *terminated) || without(
                old(self)@.children,
                *terminated,
            ).len() > 0 || old(self)@.state == CellState::Alive || old(self)@.state
                == CellState::Stopped || (old(self)@.state == CellState::Stopping && old(
                actor,
            ).is_none()) ==> r == Outcome::Completed,
    {
        if self.is_child(terminated) {
            self.remove_child(terminated);
            if self.children.len() > 0 {
                Outcome::Completed
            } else {
                match self.state {
                    CellState::Stopping => self.terminate(actor, mbox, ctx),
                    CellState::Restarting => self.revive(actor, mbox, ctx, props),
                    _ => Outcome::Completed,
                }
            }
        } else {
            Outcome::Completed
        }
    }

    /// Tells the parent that the actor of this cell failed. The root tells
    /// nobody, and neither does a cell without a parent.
    pub fn report_failure(&self, ctx: &mut Context)
        ensures
            final(ctx).myself == old(ctx).myself,
            final(ctx).parent == old(ctx).parent,
            final(ctx).dead_letters@ == old(ctx).dead_letters@,
            final(ctx).effects@ == old(ctx).effects@ + failure_report(self@),
    {
        if !self.is_root() {
            match &self.parent {
                Some(p) => {
                    let me = self.myself();
                    ctx.emit(Effect::SysTell { to: p.clone(), msg: SystemMsg::Failed(me) });
                },
                None => {},
            }
        }
    }

    /// Answers the failure of `failed` as the strategy of this cell says:
    /// with a restart or stop command to the failed actor, with the request
    /// to resume it, or by reporting this actor as failed to its own parent.
    /// At the root, and where there is no parent, an escalation ends.
    pub fn handle_failure(&self, failed: BasicActorRef, ctx: &mut Context)
        ensures
            final(ctx).myself == old(ctx).myself,
            final(ctx).parent == old(ctx).parent,
            final(ctx).dead_letters@ == old(ctx).dead_letters@,
            final(ctx).effects@ == old(ctx).effects@ + answer_to_failure(self@, failed),
    {
        match self.strategy {
            Strategy::Restart => {
                ctx.emit(
                    Effect::SysTell { to: failed, msg: SystemMsg::Command(SystemCmd::Restart) },
                );
            },
            Strategy::Stop => {
                ctx.emit(
                    Effect::SysTell { to: failed, msg: SystemMsg::Command(SystemCmd::Stop) },
                );
            },
            Strategy::Resume => {
                ctx.emit(Effect::Resume { child: failed });
            },
            Strategy::Escalate => {
                self.report_failure(ctx);
            },
        }
    }
}

} // verus!
