//! The run-task as a mathematical function.
//!
//! A [`RunState`] is everything a run-task reads and changes: the mailbox,
//! the cell, whether the actor's slot holds an instance, and what has been
//! emitted so far. Each step below says what the state is after that step
//! when every callback of the actor completes. The executable functions of
//! the kernel are proved against these steps; what holds when a callback is
//! cut short is said by [`RunState::fail`], [`advanced`] and [`in_hand`],
//! and when no callback is made, so that none can be cut short, by
//! [`RunState::quiet_at`].

use crate::actor::{
    BasicActorRef, Context, Effect, Envelope, Outcome, Sender, Strategy, SystemCmd, SystemEvent,
    SystemMsg, FIRST_USER_ID,
};
use crate::kernel::cell::{has_child, without, CellState, CellView, Delivery};
use crate::kernel::mailbox::MailboxView;
use vstd::prelude::*;

verus! {

/// What a run-task works on.
pub struct RunState<Msg> {
    pub mbox: MailboxView<Msg>,
    pub cell: CellView<Msg>,
    /// Whether the actor's slot holds an instance.
    pub occupied: bool,
    /// The effects emitted so far, oldest first.
    pub effects: Seq<Effect>,
    /// Sender and recipient of each dead letter so far, oldest first.
    pub dead: Seq<(Sender, BasicActorRef)>,
}

/// The state that a run-task works on, put together from its parts.
pub open spec fn snapshot<Msg>(
    mbox: MailboxView<Msg>,
    ctx: Context,
    cell: CellView<Msg>,
    occupied: bool,
) -> RunState<Msg> {
    RunState { mbox, cell, occupied, effects: ctx.effects@, dead: ctx.dead_view() }
}

/// The command that stops `child`, addressed to it.
pub open spec fn stop_order(child: BasicActorRef) -> Effect {
    Effect::SysTell { to: child, msg: SystemMsg::Command(SystemCmd::Stop) }
}

/// A stop command for each of `children`, in their order.
pub open spec fn stop_orders(children: Seq<BasicActorRef>) -> Seq<Effect> {
    children.map_values(|c: BasicActorRef| stop_order(c))
}

/// Sender and recipient of the dead letters that `queue` turns into when the
/// mailbox of `recipient` is flushed.
pub open spec fn undelivered<Msg>(queue: Seq<Envelope<Msg>>, recipient: BasicActorRef) -> Seq<
    (Sender, BasicActorRef),
> {
    queue.map_values(|e: Envelope<Msg>| (e.sender, recipient))
}

/// What a cell answers to the failure of `failed`, as its strategy says: a
/// restart or stop command to the failed actor, the request to resume it,
/// or the failure of its own actor reported to its parent. At the root, and
/// where there is no parent, an escalation ends: the answer is empty.
pub open spec fn answer_to_failure<Msg>(cell: CellView<Msg>, failed: BasicActorRef) -> Seq<
    Effect,
> {
    match cell.strategy {
        Strategy::Restart => seq![
            Effect::SysTell { to: failed, msg: SystemMsg::Command(SystemCmd::Restart) },
        ],
        Strategy::Stop => seq![stop_order(failed)],
        Strategy::Resume => seq![Effect::Resume { child: failed }],
        Strategy::Escalate => failure_report(cell),
    }
}

/// What tells the parent of a cell that the actor of the cell failed. The
/// root tells nobody, and neither does a cell without a parent.
pub open spec fn failure_report<Msg>(cell: CellView<Msg>) -> Seq<Effect> {
    match cell.parent {
        Some(p) if cell.uri.uid != 0 => seq![
            Effect::SysTell { to: p, msg: SystemMsg::Failed(BasicActorRef { uri: cell.uri }) },
        ],
        _ => Seq::empty(),
    }
}

/// The user messages of a record, in the order in which they were taken up.
pub open spec fn user_entries<Msg>(log: Seq<Delivery<Msg>>) -> Seq<Envelope<Msg>>
    decreases log.len(),
{
    if log.len() == 0 {
        Seq::empty()
    } else {
        match log.last() {
            Delivery::User(env) => user_entries(log.drop_last()).push(env),
            Delivery::System(_) => user_entries(log.drop_last()),
        }
    }
}

/// How many user messages a record holds.
pub open spec fn user_count<Msg>(log: Seq<Delivery<Msg>>) -> nat {
    user_entries(log).len()
}

/// The system messages `staged` as entries of a record.
pub open spec fn system_entries<Msg>(staged: Seq<Envelope<SystemMsg>>) -> Seq<Delivery<Msg>> {
    staged.map_values(|e: Envelope<SystemMsg>| Delivery::System(e.msg))
}

/// The user messages `delivered` as entries of a record.
pub open spec fn delivered_entries<Msg>(delivered: Seq<Envelope<Msg>>) -> Seq<Delivery<Msg>> {
    delivered.map_values(|e: Envelope<Msg>| Delivery::User(e))
}

impl<Msg> RunState<Msg> {
    /// The handle of the actor that the state belongs to.
    pub open spec fn me(self) -> BasicActorRef {
        BasicActorRef { uri: self.cell.uri }
    }

    pub open spec fn emit(self, effect: Effect) -> Self {
        RunState { effects: self.effects.push(effect), ..self }
    }

    pub open spec fn noted(self, delivery: Delivery<Msg>) -> Self {
        RunState { cell: CellView { log: self.cell.log.push(delivery), ..self.cell }, ..self }
    }

    pub open spec fn in_state(self, state: CellState) -> Self {
        RunState { cell: CellView { state, ..self.cell }, ..self }
    }

    pub open spec fn suspended(self, b: bool) -> Self {
        RunState { mbox: MailboxView { suspended: b, ..self.mbox }, ..self }
    }

    /// A stop command goes to every child, in the order of the children.
    pub open spec fn stop_children(self) -> Self {
        RunState {
            effects: self.effects + stop_orders(self.cell.children),
            ..self
        }
    }

    /// Every user message still queued becomes a dead letter for this actor.
    pub open spec fn flush(self) -> Self {
        RunState {
            mbox: MailboxView { queue: Seq::empty(), ..self.mbox },
            dead: self.dead + undelivered(self.mbox.queue, self.me()),
            ..self
        }
    }

    /// The end of a stop, once no child is left and `post_stop` has run: the
    /// termination is published and reported to the parent, the path is
    /// given back, what the user queue holds becomes dead letters, what the
    /// system queue holds is discarded, the mailbox is closed and the
    /// instance is given up.
    pub open spec fn finish_stop(self) -> Self {
        let gone = SystemEvent::ActorTerminated { actor: self.me() };
        let s1 = self.emit(Effect::Publish { event: gone });
        let s2 = match self.cell.parent {
            Some(p) => s1.emit(Effect::SysTell { to: p, msg: SystemMsg::Event(gone) }),
            None => s1,
        };
        let s3 = s2.emit(Effect::Unregister { path: self.cell.uri.path }).flush();
        RunState {
            mbox: MailboxView { sys_queue: Seq::empty(), closed: true, ..s3.mbox },
            cell: CellView { state: CellState::Stopped, ..s3.cell },
            occupied: false,
            ..s3
        }
    }

    /// The end of a restart, once no child is left, `post_stop` has run on
    /// the old instance and `pre_start` on the new one: the restart is
    /// published, user traffic flows again and the restart is counted.
    pub open spec fn finish_restart(self) -> Self {
        let s1 = self.emit(
            Effect::Publish { event: SystemEvent::ActorRestarted { actor: self.me() } },
        );
        RunState {
            mbox: MailboxView { suspended: false, ..s1.mbox },
            cell: CellView {
                state: CellState::Alive,
                restart_count: if s1.cell.restart_count < u64::MAX {
                    (s1.cell.restart_count + 1) as u64
                } else {
                    u64::MAX
                },
                ..s1.cell
            },
            occupied: true,
            ..s1
        }
    }

    /// A stop command: the actor is stopping; with children it orders them
    /// to stop and waits for their terminations, without any it ends at
    /// once. A stopped actor ignores the command.
    pub open spec fn on_stop(self) -> Self {
        if self.cell.state == CellState::Stopped {
            self
        } else {
            let s = self.in_state(CellState::Stopping);
            if s.cell.children.len() == 0 {
                s.finish_stop()
            } else {
                s.stop_children()
            }
        }
    }

    /// A restart command: the actor is restarting and its user traffic is
    /// suspended; with children it orders them to stop and waits, without
    /// any it restarts at once. An actor that is stopping or stopped ignores
    /// the command.
    pub open spec fn on_restart(self) -> Self {
        if self.cell.state == CellState::Stopped || self.cell.state == CellState::Stopping {
            self
        } else {
            let s = self.in_state(CellState::Restarting).suspended(true);
            if s.cell.children.len() == 0 {
                s.finish_restart()
            } else {
                s.stop_children()
            }
        }
    }

    /// `gone` has left the children.
    pub open spec fn orphaned(self, gone: BasicActorRef) -> Self {
        RunState {
            cell: CellView { children: without(self.cell.children, gone), ..self.cell },
            ..self
        }
    }

    /// The termination of `gone`: if it is a child it leaves the children,
    /// and if it was the last one a pending stop or restart ends.
    pub open spec fn on_death(self, gone: BasicActorRef) -> Self {
        if has_child(self.cell.children, gone) {
            let s = self.orphaned(gone);
            if s.cell.children.len() > 0 {
                s
            } else if s.cell.state == CellState::Stopping {
                s.finish_stop()
            } else if s.cell.state == CellState::Restarting {
                s.finish_restart()
            } else {
                s
            }
        } else {
            self
        }
    }

    /// The initialisation, once `pre_start` has run: user traffic flows, and
    /// the creation of a user actor is published.
    pub open spec fn on_init(self) -> Self {
        let s = self.suspended(false);
        if s.cell.uri.uid >= FIRST_USER_ID {
            s.emit(Effect::Publish { event: SystemEvent::ActorCreated { actor: s.me() } })
        } else {
            s
        }
    }

    /// An event of the event bus, once `sys_recv` has seen it.
    pub open spec fn on_event(self, event: SystemEvent) -> Self {
        match event {
            SystemEvent::ActorTerminated { actor } => self.on_death(actor),
            _ => self,
        }
    }

    /// The failure of `failed`, answered as the strategy of this cell says.
    pub open spec fn on_failed(self, failed: BasicActorRef) -> Self {
        RunState { effects: self.effects + answer_to_failure(self.cell, failed), ..self }
    }

    /// One system message: it is noted in the record, and unless the actor
    /// is stopped it is handled by its kind.
    pub open spec fn sys_step(self, msg: SystemMsg) -> Self {
        let s = self.noted(Delivery::System(msg));
        if s.cell.state == CellState::Stopped {
            s
        } else {
            match msg {
                SystemMsg::ActorInit => s.on_init(),
                SystemMsg::Command(SystemCmd::Stop) => s.on_stop(),
                SystemMsg::Command(SystemCmd::Restart) => s.on_restart(),
                SystemMsg::Event(event) => s.on_event(event),
                SystemMsg::Failed(failed) => s.on_failed(failed),
            }
        }
    }

    /// The staged system messages, handled in their order.
    pub open spec fn sys_fold(self, staged: Seq<Envelope<SystemMsg>>) -> Self
        decreases staged.len(),
    {
        if staged.len() == 0 {
            self
        } else {
            self.sys_step(staged[0].msg).sys_fold(staged.drop_first())
        }
    }

    /// One drain of the system queue: everything it holds is staged, the
    /// queue is left empty, and the staged messages are handled in order.
    pub open spec fn sys_phase(self) -> Self {
        RunState { mbox: MailboxView { sys_queue: Seq::empty(), ..self.mbox }, ..self }.sys_fold(
            self.mbox.sys_queue,
        )
    }

    /// Whether handling `msg` in this state makes no callback, so that
    /// nothing can cut it short: a stopped actor handles nothing; the
    /// failure of a child is answered by the cell alone; a command at a cell
    /// with children only orders them to stop; a stop at an empty slot has
    /// no instance to call, and a stopping actor ignores a restart; an event
    /// at an empty slot is shown to nobody, unless it is the termination of
    /// the last child that a pending restart waits for.
    pub open spec fn quiet_at(self, msg: SystemMsg) -> bool {
        self.cell.state == CellState::Stopped || match msg {
            SystemMsg::ActorInit => false,
            SystemMsg::Failed(_) => true,
            SystemMsg::Command(SystemCmd::Stop) => self.cell.children.len() > 0 || !self.occupied,
            SystemMsg::Command(SystemCmd::Restart) => self.cell.children.len() > 0
                || self.cell.state == CellState::Stopping,
            SystemMsg::Event(event) => !self.occupied && !(event is ActorTerminated
                && self.cell.state == CellState::Restarting && has_child(
                self.cell.children,
                event.subject(),
            ) && without(self.cell.children, event.subject()).len() == 0),
        }
    }

    /// Whether handling the staged system messages in their order makes no
    /// callback: each of them is quiet in the state that it meets.
    pub open spec fn sys_quiet(self, staged: Seq<Envelope<SystemMsg>>) -> bool
        decreases staged.len(),
    {
        staged.len() == 0 || (self.quiet_at(staged[0].msg) && self.sys_step(
            staged[0].msg,
        ).sys_quiet(staged.drop_first()))
    }

    /// Whether one drain of the system queue makes no callback.
    pub open spec fn quiet_phase(self) -> bool {
        RunState { mbox: MailboxView { sys_queue: Seq::empty(), ..self.mbox }, ..self }.sys_quiet(
            self.mbox.sys_queue,
        )
    }

    /// Whether `b` is a state in which the handling of `msg` can end when
    /// a callback is cut short, with `self` as the state in which `msg` was
    /// noted. An initialisation is cut short before anything has changed
    /// or after everything has; a stop ends all the same; a restart leaves
    /// the actor restarting and suspended; an event is cut short before the
    /// death watch, or in the restart that the death of the last child
    /// sets off, or after the stop that it ends. A stopped actor makes no
    /// callback, nor does the answer to a failure.
    pub open spec fn cut_at(self, msg: SystemMsg, b: Self) -> bool {
        self.cell.state != CellState::Stopped && match msg {
            SystemMsg::ActorInit => b == self || b == self.on_init(),
            SystemMsg::Command(SystemCmd::Stop) => b == self.on_stop(),
            SystemMsg::Command(SystemCmd::Restart) => b == self.in_state(
                CellState::Restarting,
            ).suspended(true).with_slot(b.occupied),
            SystemMsg::Event(event) => b == self || (event is ActorTerminated && (b
                == self.on_death(event.subject()) || b == self.orphaned(
                event.subject(),
            ).with_slot(b.occupied))),
            SystemMsg::Failed(_) => false,
        }
    }

    /// Whether `b` is a state in which handling the staged system messages
    /// can end when a callback is cut short: some of them were handled to
    /// their end, and the next one was noted and cut short.
    pub open spec fn sys_cut(self, staged: Seq<Envelope<SystemMsg>>, b: Self) -> bool {
        exists|j: int|
            0 <= j < staged.len() && #[trigger] self.sys_fold(staged.take(j)).noted(
                Delivery::System(staged[j].msg),
            ).cut_at(staged[j].msg, b)
    }

    /// Whether `b` is a state in which one drain of the system queue can
    /// end when a callback is cut short.
    pub open spec fn drain_cut(self, b: Self) -> bool {
        RunState { mbox: MailboxView { sys_queue: Seq::empty(), ..self.mbox }, ..self }.sys_cut(
            self.mbox.sys_queue,
            b,
        )
    }

    /// Whether `b` is a state in which the user messages of a run-task can
    /// end when a callback is cut short: after some full rounds, the next
    /// message was taken and `recv` cut short, or a callback of the drain
    /// that follows it.
    pub open spec fn user_cut(self, quota: nat, b: Self) -> bool {
        exists|k: nat|
            k < quota && (#[trigger] self.user_phase(k)).deliverable() && (b == self.user_phase(
                k,
            ).deliver() || self.user_phase(k).deliver().drain_cut(b))
    }

    /// Whether `b` is a state in which a run-task can end when a callback
    /// is cut short, before the sentinel cleans up: in the first drain of
    /// the system queue, among the user messages, or in the last drain.
    pub open spec fn run_cut(self, b: Self) -> bool {
        let quota = self.mbox.msg_process_limit as nat;
        ||| self.drain_cut(b)
        ||| self.sys_phase().user_cut(quota, b)
        ||| self.sys_phase().user_phase(quota).drain_cut(b)
    }

    /// Whether the oldest user message may go to the actor now.
    pub open spec fn deliverable(self) -> bool {
        self.occupied && !self.mbox.suspended && self.mbox.queue.len() > 0
    }

    /// The oldest user message leaves the queue and is noted in the record.
    pub open spec fn deliver(self) -> Self {
        RunState {
            mbox: MailboxView { queue: self.mbox.queue.drop_first(), ..self.mbox },
            ..self
        }.noted(Delivery::User(self.mbox.queue[0]))
    }

    /// The user messages of one run-task: while the quota lasts and a message
    /// is deliverable, the oldest goes to the actor and the system queue is
    /// drained after it.
    pub open spec fn user_phase(self, quota: nat) -> Self
        decreases quota,
    {
        if quota > 0 && self.deliverable() {
            self.deliver().sys_phase().user_phase((quota - 1) as nat)
        } else {
            self
        }
    }

    /// The end of a run-task: the schedule flag is lowered, and if a queue
    /// still holds a message one more run-task is asked for.
    pub open spec fn release(self) -> Self {
        let s = RunState { mbox: MailboxView { scheduled: false, ..self.mbox }, ..self };
        if self.mbox.queue.len() > 0 || self.mbox.sys_queue.len() > 0 {
            s.emit(Effect::Schedule)
        } else {
            s
        }
    }

    /// A whole run-task in which every callback completes: the system queue
    /// is drained, then up to `msg_process_limit` user messages are
    /// delivered with a drain after each, then the system queue is drained
    /// once more, then the mailbox is released.
    pub open spec fn run(self) -> Self {
        self.sys_phase().user_phase(self.mbox.msg_process_limit as nat).sys_phase().release()
    }

    /// The state with the slot as `occupied` says.
    pub open spec fn with_slot(self, occupied: bool) -> Self {
        RunState { occupied, ..self }
    }

    /// The sentinel's cleanup after a callback was cut short: user traffic
    /// is suspended, no run-task is scheduled, the slot is empty, and the
    /// parent is told of the failure.
    pub open spec fn fail(self) -> Self {
        RunState {
            mbox: MailboxView { suspended: true, scheduled: false, ..self.mbox },
            occupied: false,
            effects: self.effects + failure_report(self.cell),
            ..self
        }
    }
}

/// Whether `effect` is one that a step of the actor `me` may produce before
/// its run-task ends: a system message to another actor, the request to
/// resume a child, an event about `me`, or the return of the path of `me`.
/// The request for one more run-task is none: only the end of a run-task
/// makes it.
pub open spec fn own_effect(me: BasicActorRef, effect: Effect) -> bool {
    match effect {
        Effect::SysTell { .. } => true,
        Effect::Resume { .. } => true,
        Effect::Publish { event } => event.subject() == me,
        Effect::Unregister { path } => path == me.uri.path,
        Effect::Schedule => false,
    }
}

/// Nothing emitted was taken back, and each effect gained from `a` to `b` is
/// one that a step of the actor may produce.
pub open spec fn in_hand<Msg>(a: RunState<Msg>, b: RunState<Msg>) -> bool {
    &&& a.effects.is_prefix_of(b.effects)
    &&& forall|k: int|
        a.effects.len() <= k < b.effects.len() ==> own_effect(a.me(), #[trigger] b.effects[k])
}

/// What has become of the user messages `rest` that `a` had still to
/// deliver: either they are the queue of `b` and no dead letter was added,
/// or the actor is stopped, its mailbox closed and empty, and they are the
/// dead letters that were added, in their order.
pub open spec fn kept_or_flushed<Msg>(
    a: RunState<Msg>,
    rest: Seq<Envelope<Msg>>,
    b: RunState<Msg>,
) -> bool {
    ||| b.mbox.queue == rest && b.dead == a.dead
    ||| b.mbox.queue.len() == 0 && b.cell.state == CellState::Stopped && b.mbox.closed && b.dead
        == a.dead + undelivered(rest, a.me())
}

/// What holds between the state at the start of a step and any later state
/// of the same run-task, also one in which a callback was cut short: the
/// actor and its parent are the same, the quota and the strategy are the
/// same, nothing emitted or noted was taken back, a stopped actor is still
/// stopped and a closed mailbox still closed, and the user messages that the
/// record has gained are the first of the queue, in the order of the queue.
/// The rest of the queue is still queued, or it was flushed to the dead
/// letters by the stop of the actor.
pub open spec fn advanced<Msg>(a: RunState<Msg>, b: RunState<Msg>) -> bool {
    let taken = user_count(b.cell.log) - user_count(a.cell.log);
    &&& a.cell.uri == b.cell.uri
    &&& a.cell.parent == b.cell.parent
    &&& a.cell.strategy == b.cell.strategy
    &&& a.cell.restart_count <= b.cell.restart_count
    &&& a.mbox.msg_process_limit == b.mbox.msg_process_limit
    &&& a.effects.is_prefix_of(b.effects)
    &&& a.dead.is_prefix_of(b.dead)
    &&& a.cell.log.is_prefix_of(b.cell.log)
    &&& a.cell.state == CellState::Stopped ==> b.cell.state == CellState::Stopped
    &&& a.mbox.closed ==> b.mbox.closed
    &&& 0 <= taken <= a.mbox.queue.len()
    &&& user_entries(b.cell.log) == user_entries(a.cell.log) + a.mbox.queue.take(taken)
    &&& kept_or_flushed(a, a.mbox.queue.skip(taken), b)
}

/// The system queue comes first: if it held a message in `a`, then in `b`
/// either nothing has been taken up yet, or the first entry that the record
/// has gained is the first message of that queue.
pub open spec fn system_first<Msg>(a: RunState<Msg>, b: RunState<Msg>) -> bool {
    a.mbox.sys_queue.len() > 0 ==> {
        ||| b.cell.log == a.cell.log && b.mbox.sys_queue == a.mbox.sys_queue
        ||| b.cell.log.len() > a.cell.log.len() && b.cell.log[a.cell.log.len() as int]
            == Delivery::<Msg>::System(a.mbox.sys_queue[0].msg)
    }
}

/// What a run-task that began in `before` and ended in `after` with the
/// outcome `r` has done.
///
/// If every callback completed, `after` is `before.run()`. If one was cut
/// short, `after` is the sentinel's cleanup of a state in which this
/// run-task can be cut short, as [`RunState::run_cut`] says; that state has
/// taken nothing back ([`advanced`]) and has gained only effects of the
/// actor's own steps ([`in_hand`]). Either way the record has gained no more user messages than the quota
/// allows, and if the system queue held a message the first entry that the
/// record has gained is the first message of that queue. Before the end of
/// a run-task that was cut short, no further run-task was asked for. Where
/// the drain of the system queue makes no callback and no user message can
/// be delivered after it, the run-task completes.
pub open spec fn ran<Msg>(before: RunState<Msg>, after: RunState<Msg>, r: Outcome) -> bool {
    &&& r == Outcome::Completed ==> after == before.run()
    &&& r == Outcome::Panicked ==> exists|mid: RunState<Msg>|
        #[trigger] advanced(before, mid) && in_hand(before, mid) && before.run_cut(mid) && after
            == mid.fail()
    &&& user_count(after.cell.log) <= user_count(before.cell.log) + before.mbox.msg_process_limit
    &&& system_first(before, after)
    &&& before.quiet_phase() && (before.mbox.msg_process_limit == 0
        || !before.sys_phase().deliverable()) ==> r == Outcome::Completed
}

/// What holds between the state at the start of a step that delivers no
/// user message and any later state of that step: as [`advanced`], the
/// record has gained no user message, and each effect gained is one that a
/// step of the actor may produce.
pub open spec fn calm<Msg>(a: RunState<Msg>, b: RunState<Msg>) -> bool {
    &&& a.cell.uri == b.cell.uri
    &&& a.cell.parent == b.cell.parent
    &&& a.cell.strategy == b.cell.strategy
    &&& a.cell.restart_count <= b.cell.restart_count
    &&& a.mbox.msg_process_limit == b.mbox.msg_process_limit
    &&& a.effects.is_prefix_of(b.effects)
    &&& a.dead.is_prefix_of(b.dead)
    &&& a.cell.log.is_prefix_of(b.cell.log)
    &&& a.cell.state == CellState::Stopped ==> b.cell.state == CellState::Stopped
    &&& a.mbox.closed ==> b.mbox.closed
    &&& user_entries(b.cell.log) == user_entries(a.cell.log)
    &&& kept_or_flushed(a, a.mbox.queue, b)
    &&& in_hand(a, b)
}

pub proof fn lemma_calm_advanced<Msg>(a: RunState<Msg>, b: RunState<Msg>)
    requires
        calm(a, b),
    ensures
        advanced(a, b),
{
    assert(a.mbox.queue.take(0) =~= Seq::empty());
    assert(user_entries(a.cell.log) + a.mbox.queue.take(0) =~= user_entries(a.cell.log));
    assert(a.mbox.queue.skip(0) =~= a.mbox.queue);
}

pub proof fn lemma_in_hand_trans<Msg>(a: RunState<Msg>, b: RunState<Msg>, c: RunState<Msg>)
    requires
        a.cell.uri == b.cell.uri,
        in_hand(a, b),
        in_hand(b, c),
    ensures
        in_hand(a, c),
{
    assert forall|k: int| a.effects.len() <= k < c.effects.len() implies own_effect(
        a.me(),
        #[trigger] c.effects[k],
    ) by {
        if k < b.effects.len() {
            assert(c.effects[k] == b.effects[k]);
        }
    }
}

pub proof fn lemma_calm_trans<Msg>(a: RunState<Msg>, b: RunState<Msg>, c: RunState<Msg>)
    requires
        calm(a, b),
        calm(b, c),
    ensures
        calm(a, c),
{
    lemma_in_hand_trans(a, b, c);
    assert(undelivered(Seq::<Envelope<Msg>>::empty(), a.me()) =~= Seq::empty());
    if b.mbox.queue.len() == 0 {
        assert(b.mbox.queue =~= Seq::empty());
        assert(b.dead + Seq::<(Sender, BasicActorRef)>::empty() =~= b.dead);
    }
}

pub proof fn lemma_advanced_trans<Msg>(a: RunState<Msg>, b: RunState<Msg>, c: RunState<Msg>)
    requires
        advanced(a, b),
        advanced(b, c),
    ensures
        advanced(a, c),
{
    let n1 = user_count(b.cell.log) - user_count(a.cell.log);
    let n2 = user_count(c.cell.log) - user_count(b.cell.log);
    let q = a.mbox.queue;
    if b.mbox.queue == q.skip(n1) {
        assert(q.take(n1) + q.skip(n1).take(n2) =~= q.take(n1 + n2));
        assert(q.skip(n1).skip(n2) =~= q.skip(n1 + n2));
        assert(user_entries(c.cell.log) =~= user_entries(a.cell.log) + q.take(n1 + n2));
    } else {
        assert(n2 == 0);
        assert(b.mbox.queue =~= Seq::empty());
        assert(b.mbox.queue.take(n2) =~= Seq::empty());
        assert(b.mbox.queue.skip(n2) =~= Seq::empty());
        assert(user_entries(c.cell.log) =~= user_entries(a.cell.log) + q.take(n1));
        assert(undelivered(Seq::<Envelope<Msg>>::empty(), b.me()) =~= Seq::empty());
        assert(b.dead + Seq::<(Sender, BasicActorRef)>::empty() =~= b.dead);
    }
}

/// Noting a system message adds no user message to the record.
pub proof fn lemma_noted_system<Msg>(log: Seq<Delivery<Msg>>, msg: SystemMsg)
    ensures
        user_entries(log.push(Delivery::System(msg))) == user_entries(log),
{
    assert(log.push(Delivery::<Msg>::System(msg)).drop_last() =~= log);
}

/// Noting a user message adds it to the user messages of the record.
pub proof fn lemma_noted_user<Msg>(log: Seq<Delivery<Msg>>, env: Envelope<Msg>)
    ensures
        user_entries(log.push(Delivery::User(env))) == user_entries(log).push(env),
{
    assert(log.push(Delivery::User(env)).drop_last() =~= log);
}

/// Handling one system message delivers no user message.
pub proof fn lemma_sys_step_calm<Msg>(s: RunState<Msg>, msg: SystemMsg)
    ensures
        calm(s, s.sys_step(msg)),
{
    lemma_noted_system(s.cell.log, msg);
}

/// Handling staged system messages delivers no user message.
pub proof fn lemma_sys_fold_calm<Msg>(s: RunState<Msg>, staged: Seq<Envelope<SystemMsg>>)
    ensures
        calm(s, s.sys_fold(staged)),
    decreases staged.len(),
{
    if staged.len() > 0 {
        lemma_sys_step_calm(s, staged[0].msg);
        lemma_sys_fold_calm(s.sys_step(staged[0].msg), staged.drop_first());
        lemma_calm_trans(s, s.sys_step(staged[0].msg), s.sys_fold(staged));
    }
}

/// A drain of the system queue delivers no user message.
pub proof fn lemma_sys_phase_calm<Msg>(s: RunState<Msg>)
    ensures
        calm(s, s.sys_phase()),
{
    let s0 = RunState { mbox: MailboxView { sys_queue: Seq::empty(), ..s.mbox }, ..s };
    lemma_sys_fold_calm(s0, s.mbox.sys_queue);
}

/// Handling one more staged message is one more step.
pub proof fn lemma_sys_fold_push<Msg>(
    s: RunState<Msg>,
    staged: Seq<Envelope<SystemMsg>>,
    last: Envelope<SystemMsg>,
)
    ensures
        s.sys_fold(staged.push(last)) == s.sys_fold(staged).sys_step(last.msg),
    decreases staged.len(),
{
    if staged.len() > 0 {
        assert(staged.push(last).drop_first() =~= staged.drop_first().push(last));
        lemma_sys_fold_push(s.sys_step(staged[0].msg), staged.drop_first(), last);
    } else {
        assert(staged.push(last).drop_first() =~= Seq::<Envelope<SystemMsg>>::empty());
        assert(s.sys_step(last.msg).sys_fold(Seq::<Envelope<SystemMsg>>::empty()) == s.sys_step(
            last.msg,
        ));
    }
}

/// One more round of user messages: the quota raised by one allows one more
/// delivery with its drain, if a message is deliverable by then.
pub proof fn lemma_user_phase_step<Msg>(s: RunState<Msg>, k: nat)
    ensures
        s.user_phase(k + 1) == if s.user_phase(k).deliverable() {
            s.user_phase(k).deliver().sys_phase()
        } else {
            s.user_phase(k)
        },
    decreases k,
{
    if s.deliverable() {
        let next = s.deliver().sys_phase();
        assert(s.user_phase(k + 1) == next.user_phase(k));
        if k > 0 {
            lemma_user_phase_step(next, (k - 1) as nat);
            assert(s.user_phase(k) == next.user_phase((k - 1) as nat));
        } else {
            assert(next.user_phase(0) == next);
        }
    }
}

/// Handling staged system messages notes exactly these messages, in their
/// order, and an empty system queue stays empty.
pub proof fn lemma_sys_fold_record<Msg>(s: RunState<Msg>, staged: Seq<Envelope<SystemMsg>>)
    ensures
        s.sys_fold(staged).cell.log == s.cell.log + system_entries(staged),
        s.mbox.sys_queue.len() == 0 ==> s.sys_fold(staged).mbox.sys_queue.len() == 0,
    decreases staged.len(),
{
    if staged.len() > 0 {
        let next = s.sys_step(staged[0].msg);
        lemma_sys_fold_record(next, staged.drop_first());
        assert(next.cell.log == s.cell.log.push(Delivery::System(staged[0].msg)));
        assert(s.cell.log.push(Delivery::<Msg>::System(staged[0].msg)) + system_entries::<Msg>(
            staged.drop_first(),
        ) =~= s.cell.log + system_entries::<Msg>(staged));
    } else {
        assert(s.cell.log + system_entries::<Msg>(staged) =~= s.cell.log);
    }
}

/// A drain of the system queue notes what the queue held, in its order, and
/// leaves the queue empty.
pub proof fn lemma_sys_phase_record<Msg>(s: RunState<Msg>)
    ensures
        s.sys_phase().cell.log == s.cell.log + system_entries(s.mbox.sys_queue),
        s.sys_phase().mbox.sys_queue.len() == 0,
{
    let s0 = RunState { mbox: MailboxView { sys_queue: Seq::empty(), ..s.mbox }, ..s };
    lemma_sys_fold_record(s0, s.mbox.sys_queue);
}

/// Delivering the oldest user message takes the first message of the queue.
pub proof fn lemma_deliver_advances<Msg>(s: RunState<Msg>)
    requires
        s.mbox.queue.len() > 0,
    ensures
        advanced(s, s.deliver()),
{
    let q = s.mbox.queue;
    lemma_noted_user(s.cell.log, q[0]);
    assert(q.take(1) =~= seq![q[0]]);
    assert(user_entries(s.cell.log).push(q[0]) =~= user_entries(s.cell.log) + q.take(1));
    assert(q.drop_first() =~= q.skip(1));
}

/// Delivering user messages takes them from the front of the queue, in the
/// order of the queue.
pub proof fn lemma_user_phase_advances<Msg>(s: RunState<Msg>, quota: nat)
    ensures
        advanced(s, s.user_phase(quota)),
    decreases quota,
{
    if quota > 0 && s.deliverable() {
        lemma_deliver_advances(s);
        lemma_sys_phase_calm(s.deliver());
        lemma_calm_advanced(s.deliver(), s.deliver().sys_phase());
        lemma_user_phase_advances(s.deliver().sys_phase(), (quota - 1) as nat);
        lemma_advanced_trans(s.deliver(), s.deliver().sys_phase(), s.user_phase(quota));
        lemma_advanced_trans(s, s.deliver(), s.user_phase(quota));
    } else {
        lemma_calm_advanced(s, s);
    }
}

/// A step that is cut short delivers no user message either.
pub proof fn lemma_cut_at_calm<Msg>(s: RunState<Msg>, msg: SystemMsg, b: RunState<Msg>)
    requires
        s.cut_at(msg, b),
    ensures
        calm(s, b),
{
    assert(undelivered(Seq::<Envelope<Msg>>::empty(), s.me()) =~= Seq::empty());
}

/// A drain that is cut short delivers no user message either.
pub proof fn lemma_sys_cut_calm<Msg>(
    s: RunState<Msg>,
    staged: Seq<Envelope<SystemMsg>>,
    b: RunState<Msg>,
)
    requires
        s.sys_cut(staged, b),
    ensures
        calm(s, b),
{
    let j = choose|j: int|
        0 <= j < staged.len() && #[trigger] s.sys_fold(staged.take(j)).noted(
            Delivery::System(staged[j].msg),
        ).cut_at(staged[j].msg, b);
    let reached = s.sys_fold(staged.take(j));
    let noted = reached.noted(Delivery::System(staged[j].msg));
    lemma_sys_fold_calm(s, staged.take(j));
    lemma_noted_system(reached.cell.log, staged[j].msg);
    assert(calm(reached, noted));
    lemma_cut_at_calm(noted, staged[j].msg, b);
    lemma_calm_trans(reached, noted, b);
    lemma_calm_trans(s, reached, b);
}

} // verus!
