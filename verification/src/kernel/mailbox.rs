//! The mailbox of an actor: a user queue and a system queue, the flag that
//! suspends user traffic, and the flag that says a run-task is scheduled.

pub use crate::config::MailboxConfig;

use crate::actor::{
    Actor, BasicActorRef, Context, DeadLetter, Effect, Envelope, Outcome, Sender, SystemEvent,
    SystemMsg,
};
use crate::kernel::cell::{has_child, without, CellState, Delivery, ExtendedCell};
use crate::kernel::model::{
    advanced, answer_to_failure, calm, failure_report, in_hand, lemma_advanced_trans,
    lemma_calm_advanced, lemma_calm_trans, lemma_deliver_advances, lemma_in_hand_trans,
    lemma_noted_system, lemma_noted_user, lemma_sys_fold_push, lemma_sys_phase_record,
    lemma_user_phase_step, ran, snapshot, system_first, undelivered, user_count, RunState,
};
use crate::kernel::Dock;
use std::collections::VecDeque;
use std::fmt::Debug;
use vstd::prelude::*;

verus! {

/// Flags whether a run-task for a mailbox is queued or running.
pub trait MailboxSchedule {
    /// The flag as contracts see it.
    spec fn scheduled(&self) -> bool;

    fn set_scheduled(&mut self, b: bool)
        ensures
            final(self).scheduled() == b,
    ;

    fn is_scheduled(&self) -> (r: bool)
        ensures
            r == self.scheduled(),
    ;
}

/// The answer to a message that could not be enqueued through
/// [`AnySender`].
#[derive(Clone, Copy, Debug, PartialEq, Eq, Structural)]
pub struct AnyEnqueueError;

impl From<()> for AnyEnqueueError {
    fn from(_unit: ()) -> (r: AnyEnqueueError) {
        AnyEnqueueError
    }
}

impl vstd::std_specs::convert::FromSpecImpl<()> for AnyEnqueueError {
    open spec fn obeys_from_spec() -> bool {
        true
    }

    open spec fn from_spec(_unit: ()) -> AnyEnqueueError {
        AnyEnqueueError
    }
}

/// A message in a slot from which it can be taken once: whoever forwards it
/// to several recipients finds the slot empty after the first that took it.
pub struct AnyMessage<Msg> {
    pub msg: Option<Msg>,
}

impl<Msg> AnyMessage<Msg> {
    pub fn new(msg: Msg) -> (r: Self)
        ensures
            r.msg == Some(msg),
    {
        AnyMessage { msg: Some(msg) }
    }

    /// Takes the message out, or fails if it was taken before.
    pub fn take(&mut self) -> (r: Result<Msg, ()>)
        ensures
            final(self).msg is None,
            match old(self).msg {
                Some(m) => r == Ok::<Msg, ()>(m),
                None => r is Err,
            },
    {
        match self.msg.take() {
            Some(m) => Ok(m),
            None => Err(()),
        }
    }
}

/// A mailbox as a target for messages in slots. The kind of message is
/// fixed by the type of the mailbox; what a sender cannot know is whether
/// the slot still holds the message.
pub trait AnySender<Msg> {
    fn try_any_enqueue(&mut self, msg: &mut AnyMessage<Msg>, sender: Sender) -> Result<
        (),
        AnyEnqueueError,
    >;

    fn set_sched(&mut self, b: bool);

    fn is_sched(&self) -> bool;
}

/// A message that a closed queue handed back.
#[derive(Debug, PartialEq, Eq)]
pub struct EnqueueError<Msg> {
    pub msg: Envelope<Msg>,
}

pub type EnqueueResult<Msg> = Result<(), EnqueueError<Msg>>;

/// The answer of an empty queue.
#[derive(Clone, Copy, Debug, PartialEq, Eq, Structural)]
pub struct QueueEmpty;

/// The write end of one queue of a mailbox: an unbounded queue that keeps the
/// messages in the order in which they were accepted, until the mailbox
/// takes them out. Its view is that sequence, oldest first.
pub struct MailboxSender<Msg> {
    queue: VecDeque<Envelope<Msg>>,
}

impl<Msg> View for MailboxSender<Msg> {
    type V = Seq<Envelope<Msg>>;

    closed spec fn view(&self) -> Seq<Envelope<Msg>> {
        self.queue@
    }
}

impl<Msg> MailboxSender<Msg> {
    /// An empty queue.
    pub fn new() -> (r: Self)
        ensures
            r@ == Seq::<Envelope<Msg>>::empty(),
    {
        MailboxSender { queue: VecDeque::new() }
    }

    /// How many messages the queue holds.
    pub fn len(&self) -> (r: usize)
        ensures
            r == self@.len(),
    {
        self.queue.len()
    }

    /// Appends `msg`. The queue itself never refuses a message: a mailbox
    /// that is closed refuses it before it gets here.
    pub fn try_enqueue(&mut self, msg: Envelope<Msg>) -> (r: EnqueueResult<Msg>)
        ensures
            r == Ok::<(), EnqueueError<Msg>>(()),
            final(self)@ == old(self)@.push(msg),
    {
        self.queue.push_back(msg);
        Ok(())
    }
}

/// A mailbox as contracts see it.
pub struct MailboxView<Msg> {
    pub msg_process_limit: u32,
    pub queue: Seq<Envelope<Msg>>,
    pub sys_queue: Seq<Envelope<SystemMsg>>,
    pub suspended: bool,
    pub scheduled: bool,
    pub closed: bool,
}

/// The state of a mailbox: both queues and both flags.
pub struct MailboxInner<Msg> {
    msg_process_limit: u32,
    queue: MailboxSender<Msg>,
    sys_queue: MailboxSender<SystemMsg>,
    suspended: bool,
    scheduled: bool,
    closed: bool,
}

/// The mailbox of one actor.
pub struct Mailbox<Msg> {
    inner: MailboxInner<Msg>,
}

impl<Msg> View for Mailbox<Msg> {
    type V = MailboxView<Msg>;

    closed spec fn view(&self) -> MailboxView<Msg> {
        MailboxView {
            msg_process_limit: self.inner.msg_process_limit,
            queue: self.inner.queue@,
            sys_queue: self.inner.sys_queue@,
            suspended: self.inner.suspended,
            scheduled: self.inner.scheduled,
            closed: self.inner.closed,
        }
    }
}

impl<Msg> Mailbox<Msg> {
    /// Appends a user message unless the mailbox is closed. It does not ask
    /// for a run-task: that is `request_schedule`.
    pub fn try_enqueue(&mut self, msg: Envelope<Msg>) -> (r: EnqueueResult<Msg>)
        ensures
            old(self)@.closed ==> r == Err::<(), EnqueueError<Msg>>(EnqueueError { msg })
                && final(self)@ == old(self)@,
            !old(self)@.closed ==> r == Ok::<(), EnqueueError<Msg>>(()) && final(self)@ == (
            MailboxView { queue: old(self)@.queue.push(msg), ..old(self)@ }),
    {
        if self.inner.closed {
            Err(EnqueueError { msg })
        } else {
            self.inner.queue.try_enqueue(msg)
        }
    }

    /// Appends a system message unless the mailbox is closed.
    pub fn sys_try_enqueue(&mut self, msg: Envelope<SystemMsg>) -> (r: EnqueueResult<SystemMsg>)
        ensures
            old(self)@.closed ==> r == Err::<(), EnqueueError<SystemMsg>>(EnqueueError { msg })
                && final(self)@ == old(self)@,
            !old(self)@.closed ==> r == Ok::<(), EnqueueError<SystemMsg>>(()) && final(self)@ == (
            MailboxView { sys_queue: old(self)@.sys_queue.push(msg), ..old(self)@ }),
    {
        if self.inner.closed {
            Err(EnqueueError { msg })
        } else {
            self.inner.sys_queue.try_enqueue(msg)
        }
    }

    /// Takes the oldest user message, whether or not the mailbox is
    /// suspended: the run-task decides when to call this.
    pub fn try_dequeue(&mut self) -> (r: Result<Envelope<Msg>, QueueEmpty>)
        ensures
            old(self)@.queue.len() == 0 ==> r == Err::<Envelope<Msg>, QueueEmpty>(QueueEmpty)
                && final(self)@ == old(self)@,
            old(self)@.queue.len() > 0 ==> r == Ok::<Envelope<Msg>, QueueEmpty>(
                old(self)@.queue[0],
            ) && final(self)@ == (MailboxView {
                queue: old(self)@.queue.drop_first(),
                ..old(self)@
            }),
    {
        match self.inner.queue.queue.pop_front() {
            Some(msg) => Ok(msg),
            None => Err(QueueEmpty),
        }
    }

    /// Takes the oldest system message.
    pub fn sys_try_dequeue(&mut self) -> (r: Result<Envelope<SystemMsg>, QueueEmpty>)
        ensures
            old(self)@.sys_queue.len() == 0 ==> r == Err::<Envelope<SystemMsg>, QueueEmpty>(
                QueueEmpty,
            ) && final(self)@ == old(self)@,
            old(self)@.sys_queue.len() > 0 ==> r == Ok::<Envelope<SystemMsg>, QueueEmpty>(
                old(self)@.sys_queue[0],
            ) && final(self)@ == (MailboxView {
                sys_queue: old(self)@.sys_queue.drop_first(),
                ..old(self)@
            }),
    {
        match self.inner.sys_queue.queue.pop_front() {
            Some(msg) => Ok(msg),
            None => Err(QueueEmpty),
        }
    }

    pub fn has_msgs(&self) -> (r: bool)
        ensures
            r == (self@.queue.len() > 0),
    {
        self.inner.queue.queue.len() > 0
    }

    pub fn has_sys_msgs(&self) -> (r: bool)
        ensures
            r == (self@.sys_queue.len() > 0),
    {
        self.inner.sys_queue.queue.len() > 0
    }

    pub fn set_suspended(&mut self, b: bool)
        ensures
            final(self)@ == (MailboxView { suspended: b, ..old(self)@ }),
    {
        self.inner.suspended = b;
    }

    pub fn is_suspended(&self) -> (r: bool)
        ensures
            r == self@.suspended,
    {
        self.inner.suspended
    }

    pub fn msg_process_limit(&self) -> (r: u32)
        ensures
            r == self@.msg_process_limit,
    {
        self.inner.msg_process_limit
    }

    pub fn is_closed(&self) -> (r: bool)
        ensures
            r == self@.closed,
    {
        self.inner.closed
    }

    /// The flip that a sender makes after a successful enqueue: if no
    /// run-task is scheduled the flag is raised and the caller has to submit
    /// one; otherwise the run-task that is under way will see the message.
    pub fn request_schedule(&mut self) -> (won: bool)
        ensures
            won == !old(self)@.scheduled,
            final(self)@ == (MailboxView { scheduled: true, ..old(self)@ }),
    {
        let won = !self.inner.scheduled;
        self.inner.scheduled = true;
        won
    }

    /// Throws away what the system queue holds.
    pub fn discard_sys_msgs(&mut self)
        ensures
            final(self)@ == (MailboxView { sys_queue: Seq::empty(), ..old(self)@ }),
    {
        self.inner.sys_queue.queue.clear();
    }

    /// Closes both queues for good. What they hold stays until it is taken
    /// out.
    pub fn close(&mut self)
        ensures
            final(self)@ == (MailboxView { closed: true, ..old(self)@ }),
    {
        self.inner.closed = true;
    }
}

impl<Msg> MailboxSchedule for Mailbox<Msg> {
    open spec fn scheduled(&self) -> bool {
        self@.scheduled
    }

    fn set_scheduled(&mut self, b: bool)
        ensures
            final(self)@ == (MailboxView { scheduled: b, ..old(self)@ }),
    {
        self.inner.scheduled = b;
    }

    fn is_scheduled(&self) -> (r: bool)
        ensures
            r == self@.scheduled,
    {
        self.inner.scheduled
    }
}

impl<Msg> AnySender<Msg> for Mailbox<Msg> {
    /// Takes the message out of its slot and appends it to the user queue.
    /// Fails, with the mailbox as it was, if the slot is empty or the
    /// mailbox closed; the slot is empty afterwards in every case.
    fn try_any_enqueue(&mut self, msg: &mut AnyMessage<Msg>, sender: Sender) -> (r: Result<
        (),
        AnyEnqueueError,
    >)
        ensures
            final(msg).msg is None,
            match old(msg).msg {
                Some(m) if !old(self)@.closed => r == Ok::<(), AnyEnqueueError>(())
                    && final(self)@ == (MailboxView {
                    queue: old(self)@.queue.push(Envelope { msg: m, sender }),
                    ..old(self)@
                }),
                _ => r == Err::<(), AnyEnqueueError>(AnyEnqueueError) && final(self)@ == old(self)@,
            },
    {
        let actual = match msg.take() {
            Ok(actual) => actual,
            Err(_) => {
                return Err(AnyEnqueueError);
            },
        };
        match self.try_enqueue(Envelope { msg: actual, sender }) {
            Ok(_) => Ok(()),
            Err(_) => Err(AnyEnqueueError),
        }
    }

    fn set_sched(&mut self, b: bool)
        ensures
            final(self)@ == (MailboxView { scheduled: b, ..old(self)@ }),
    {
        self.set_scheduled(b)
    }

    fn is_sched(&self) -> (r: bool)
        ensures
            r == self@.scheduled,
    {
        self.is_scheduled()
    }
}

/// A fresh mailbox: both queues empty and open, user traffic suspended until
/// the actor is initialised, no run-task scheduled.
pub fn mailbox<Msg>(msg_process_limit: u32) -> (r: Mailbox<Msg>)
    ensures
        r@ == (MailboxView {
            msg_process_limit,
            queue: Seq::<Envelope<Msg>>::empty(),
            sys_queue: Seq::<Envelope<SystemMsg>>::empty(),
            suspended: true,
            scheduled: false,
            closed: false,
        }),
{
    let inner = MailboxInner {
        msg_process_limit,
        queue: MailboxSender::new(),
        sys_queue: MailboxSender::new(),
        suspended: true,
        scheduled: false,
        closed: false,
    };
    Mailbox { inner }
}

/// The `Debug` rendering of a message, as `format!` with `{:?}` gives it.
/// Nothing is claimed of the text: it is whatever the message's own `Debug`
/// writes.
#[verifier::external_body]
pub(crate) fn debug_text<Msg: Debug>(msg: &Msg) -> (text: String) {
    format!("{:?}", msg)
}

/// Empties the user queue of a mailbox into the dead letters. Each message
/// becomes one dead letter with its own sender and `actor` as the recipient,
/// in the order of the queue.
pub fn flush_to_deadletters<Msg: Debug>(
    mbox: &mut Mailbox<Msg>,
    actor: &BasicActorRef,
    ctx: &mut Context,
)
    ensures
        final(mbox)@ == (MailboxView { queue: Seq::empty(), ..old(mbox)@ }),
        final(ctx).myself == old(ctx).myself,
        final(ctx).parent == old(ctx).parent,
        final(ctx).effects@ == old(ctx).effects@,
        final(ctx).dead_letters@.len() == old(ctx).dead_letters@.len() + old(mbox)@.queue.len(),
        final(ctx).dead_view() == old(ctx).dead_view() + undelivered(old(mbox)@.queue, *actor),
{
    let ghost all = mbox@.queue;
    let ghost mut done: int = 0;
    proof {
        assert(all.skip(0) =~= all);
        assert(undelivered(all.take(0), *actor) =~= Seq::empty());
    }
    while mbox.has_msgs()
        invariant
            0 <= done <= all.len(),
            all == old(mbox)@.queue,
            mbox@ == (MailboxView { queue: all.skip(done), ..old(mbox)@ }),
            ctx.myself == old(ctx).myself,
            ctx.parent == old(ctx).parent,
            ctx.effects@ == old(ctx).effects@,
            ctx.dead_letters@.len() == old(ctx).dead_letters@.len() + done,
            ctx.dead_view() == old(ctx).dead_view() + undelivered(all.take(done), *actor),
        decreases all.len() - done,
    {
        match mbox.try_dequeue() {
            Ok(env) => {
                let Envelope { msg, sender } = env;
                let letter = DeadLetter { msg: debug_text(&msg), sender, recipient: actor.clone() };
                ctx.bury(letter);
                proof {
                    assert(all.skip(done)[0] == all[done]);
                    assert(all.skip(done).drop_first() =~= all.skip(done + 1));
                    assert(undelivered(all.take(done + 1), *actor) =~= undelivered(
                        all.take(done),
                        *actor,
                    ).push((all[done].sender, *actor)));
                    done = done + 1;
                }
            },
            Err(_) => {},
        }
    }
    proof {
        assert(all.skip(done) =~= Seq::<Envelope<Msg>>::empty());
        assert(all.take(done) =~= all);
    }
}

/// Goes on with the initialisation of an actor, given how `pre_start`
/// ended. If it completed, user traffic flows and the creation of a user
/// actor is published. If it was cut short nothing changes. The outcome is
/// handed on.
pub fn started<Msg: Debug>(
    pre_start: Outcome,
    mbox: &mut Mailbox<Msg>,
    ctx: &mut Context,
    cell: &ExtendedCell<Msg>,
) -> (r: Outcome)
    ensures
        r == pre_start,
        final(ctx).myself == old(ctx).myself,
        final(ctx).parent == old(ctx).parent,
        final(ctx).dead_letters@ == old(ctx).dead_letters@,
        pre_start == Outcome::Completed ==> final(mbox)@ == (MailboxView {
            suspended: false,
            ..old(mbox)@
        }) && final(ctx).effects@ == snapshot(old(mbox)@, *old(ctx), cell@, true).on_init().effects,
        pre_start == Outcome::Panicked ==> final(mbox)@ == old(mbox)@ && final(ctx).effects@
            == old(ctx).effects@,
{
    match pre_start {
        Outcome::Panicked => {},
        Outcome::Completed => {
            mbox.set_suspended(false);
            if cell.is_user() {
                ctx.emit(
                    Effect::Publish { event: SystemEvent::ActorCreated { actor: cell.myself() } },
                );
            }
        },
    }
    pre_start
}

/// Handles the initialisation of an actor: the actor sees `ActorInit`
/// through `sys_recv`, `pre_start` runs, user traffic flows, the creation of
/// a user actor is published, `post_start` runs. So an actor has seen
/// `ActorInit` before its first user message.
///
/// With an empty slot there is nothing to initialise: the outcome is
/// `Panicked` and nothing has changed. If `sys_recv` or `pre_start` is cut
/// short nothing has changed either; if `post_start` is, everything else
/// has happened.
pub fn handle_init<A: Actor>(
    mbox: &mut Mailbox<A::Msg>,
    ctx: &mut Context,
    cell: &ExtendedCell<A::Msg>,
    actor: &mut Option<A>,
) -> (r: Outcome)
    ensures
        final(ctx).myself == old(ctx).myself,
        final(ctx).parent == old(ctx).parent,
        final(actor).is_some() == old(actor).is_some(),
        r == Outcome::Completed ==> snapshot(
            final(mbox)@,
            *final(ctx),
            cell@,
            final(actor).is_some(),
        ) == snapshot(old(mbox)@, *old(ctx), cell@, old(actor).is_some()).on_init(),
        r == Outcome::Panicked ==> {
            let before = snapshot(old(mbox)@, *old(ctx), cell@, old(actor).is_some());
            let after = snapshot(final(mbox)@, *final(ctx), cell@, final(actor).is_some());
            after == before || after == before.on_init()
        },
        old(actor).is_none() ==> r == Outcome::Panicked && final(mbox)@ == old(mbox)@
            && final(ctx).effects@ == old(ctx).effects@,
{
    match actor {
        Some(a) => {
            match a.sys_recv(ctx, SystemMsg::ActorInit, None) {
                Outcome::Panicked => {
                    return Outcome::Panicked;
                },
                Outcome::Completed => {},
            }
            let begun = a.pre_start(ctx);
            match started(begun, mbox, ctx, cell) {
                Outcome::Panicked => Outcome::Panicked,
                Outcome::Completed => a.post_start(ctx),
            }
        },
        None => Outcome::Panicked,
    }
}

/// Handles the failure of a child: the cell answers it as its strategy says.
pub fn handle_failed<Msg: Debug>(failed: BasicActorRef, cell: &ExtendedCell<Msg>, ctx: &mut Context)
    ensures
        final(ctx).myself == old(ctx).myself,
        final(ctx).parent == old(ctx).parent,
        final(ctx).dead_letters@ == old(ctx).dead_letters@,
        final(ctx).effects@ == old(ctx).effects@ + answer_to_failure(cell@, failed),
{
    cell.handle_failure(failed, ctx)
}

/// Handles an event of the event bus: the actor sees it through
/// `sys_recv`, and the termination of an actor goes on to the cell's death
/// watch.
///
/// If `sys_recv` is cut short nothing has changed; if a callback of the
/// death watch is, the state is as the death watch says.
pub fn handle_evt<A: Actor>(
    evt: SystemEvent,
    mbox: &mut Mailbox<A::Msg>,
    ctx: &mut Context,
    cell: &mut ExtendedCell<A::Msg>,
    actor: &mut Option<A>,
    props: &A::Props,
) -> (r: Outcome)
    ensures
        final(ctx).myself == old(ctx).myself,
        final(ctx).parent == old(ctx).parent,
        final(cell)@.log == old(cell)@.log,
        calm(
            snapshot(old(mbox)@, *old(ctx), old(cell)@, old(actor).is_some()),
            snapshot(final(mbox)@, *final(ctx), final(cell)@, final(actor).is_some()),
        ),
        r == Outcome::Completed ==> snapshot(
            final(mbox)@,
            *final(ctx),
            final(cell)@,
            final(actor).is_some(),
        ) == snapshot(old(mbox)@, *old(ctx), old(cell)@, old(actor).is_some()).on_event(evt),
        r == Outcome::Panicked ==> {
            let before = snapshot(old(mbox)@, *old(ctx), old(cell)@, old(actor).is_some());
            let after = snapshot(final(mbox)@, *final(ctx), final(cell)@, final(actor).is_some());
            ||| after == before
            ||| evt is ActorTerminated && after == before.on_death(evt.subject())
            ||| evt is ActorTerminated && after == before.orphaned(evt.subject()).with_slot(
                final(actor).is_some(),
            )
        },
        old(actor).is_none() && !(evt is ActorTerminated && old(cell)@.state
            == CellState::Restarting && has_child(old(cell)@.children, evt.subject()) && without(
            old(cell)@.children,
            evt.subject(),
        ).len() == 0) ==> r == Outcome::Completed,
{
    match actor {
        Some(a) => {
            match a.sys_recv(ctx, SystemMsg::Event(evt.clone()), None) {
                Outcome::Panicked => {
                    return Outcome::Panicked;
                },
                Outcome::Completed => {},
            }
        },
        None => {},
    }
    match evt {
        SystemEvent::ActorTerminated { actor: terminated } => cell.death_watch(
            &terminated,
            actor,
            mbox,
            ctx,
            props,
        ),
        _ => Outcome::Completed,
    }
}

/// Drains the system queue once: everything it holds is staged and then
/// handled in order, so that what arrives meanwhile waits for the next
/// drain. Each staged message is noted in the cell's record; a stopped
/// actor handles none.
///
/// If a callback is cut short the messages still staged are lost. A drain
/// that makes no callback completes: see [`RunState::quiet_phase`].
pub fn process_sys_msgs<A: Actor>(
    mbox: &mut Mailbox<A::Msg>,
    ctx: &mut Context,
    cell: &mut ExtendedCell<A::Msg>,
    actor: &mut Option<A>,
    props: &A::Props,
) -> (r: Outcome)
    ensures
        final(ctx).myself == old(ctx).myself,
        final(ctx).parent == old(ctx).parent,
        calm(
            snapshot(old(mbox)@, *old(ctx), old(cell)@, old(actor).is_some()),
            snapshot(final(mbox)@, *final(ctx), final(cell)@, final(actor).is_some()),
        ),
        system_first(
            snapshot(old(mbox)@, *old(ctx), old(cell)@, old(actor).is_some()),
            snapshot(final(mbox)@, *final(ctx), final(cell)@, final(actor).is_some()),
        ),
        r == Outcome::Completed ==> snapshot(
            final(mbox)@,
            *final(ctx),
            final(cell)@,
            final(actor).is_some(),
        ) == snapshot(old(mbox)@, *old(ctx), old(cell)@, old(actor).is_some()).sys_phase(),
        snapshot(old(mbox)@, *old(ctx), old(cell)@, old(actor).is_some()).quiet_phase() ==> r
            == Outcome::Completed,
        r == Outcome::Panicked ==> snapshot(
            old(mbox)@,
            *old(ctx),
            old(cell)@,
            old(actor).is_some(),
        ).drain_cut(snapshot(final(mbox)@, *final(ctx), final(cell)@, final(actor).is_some())),
{
    let ghost before = snapshot(mbox@, *ctx, cell@, actor.is_some());
    let ghost all = mbox@.sys_queue;
    let mut staged: VecDeque<Envelope<SystemMsg>> = VecDeque::new();
    while mbox.has_sys_msgs()
        invariant
            staged@ + mbox@.sys_queue == all,
            mbox@ == (MailboxView { sys_queue: mbox@.sys_queue, ..old(mbox)@ }),
        decreases mbox@.sys_queue.len(),
    {
        match mbox.sys_try_dequeue() {
            Ok(env) => {
                staged.push_back(env);
                proof {
                    assert(staged@ + mbox@.sys_queue =~= all);
                }
            },
            Err(_) => {},
        }
    }
    proof {
        assert(staged@ =~= all);
        assert(mbox@.sys_queue =~= Seq::<Envelope<SystemMsg>>::empty());
        assert(staged@ =~= all.skip(0));
    }
    let ghost start = snapshot(mbox@, *ctx, cell@, actor.is_some());
    proof {
        assert(all.take(0) =~= Seq::<Envelope<SystemMsg>>::empty());
        assert(start.sys_fold(all.take(0)) == start);
    }
    while staged.len() > 0
        invariant
            ctx.myself == old(ctx).myself,
            ctx.parent == old(ctx).parent,
            before == snapshot(old(mbox)@, *old(ctx), old(cell)@, old(actor).is_some()),
            all == old(mbox)@.sys_queue,
            staged@.len() <= all.len(),
            staged@ == all.skip(all.len() - staged@.len()),
            staged@.len() == all.len() ==> cell@.log == before.cell.log,
            staged@.len() < all.len() ==> cell@.log.len() > before.cell.log.len()
                && cell@.log[before.cell.log.len() as int] == Delivery::<A::Msg>::System(
                all[0].msg,
            ),
            before.cell.log.is_prefix_of(cell@.log),
            calm(before, snapshot(mbox@, *ctx, cell@, actor.is_some())),
            snapshot(mbox@, *ctx, cell@, actor.is_some()).sys_fold(staged@) == start.sys_fold(all),
            start.sys_quiet(all) ==> snapshot(mbox@, *ctx, cell@, actor.is_some()).sys_quiet(
                staged@,
            ),
            snapshot(mbox@, *ctx, cell@, actor.is_some()) == start.sys_fold(
                all.take(all.len() - staged@.len()),
            ),
            start == (RunState {
                mbox: MailboxView { sys_queue: Seq::empty(), ..before.mbox },
                ..before
            }),
        decreases staged@.len(),
    {
        let ghost cur = snapshot(mbox@, *ctx, cell@, actor.is_some());
        let ghost pending = staged@;
        let ghost done = all.len() - staged@.len();
        let env = staged.pop_front().unwrap();
        proof {
            assert(env == all[done]);
            assert(all.take(done + 1) =~= all.take(done).push(env));
            lemma_sys_fold_push(start, all.take(done), env);
            assert(staged@ =~= pending.drop_first());
            assert(staged@ =~= all.skip(all.len() - staged@.len()));
            if pending.len() == all.len() {
                assert(pending =~= all);
            }
            assert(cur.sys_fold(pending) == cur.sys_step(env.msg).sys_fold(staged@));
            assert(cur.sys_quiet(pending) == (cur.quiet_at(env.msg) && cur.sys_step(
                env.msg,
            ).sys_quiet(staged@)));
            lemma_noted_system(cell@.log, env.msg);
        }
        cell.note(Ghost(Delivery::System(env.msg)));
        let outcome = match cell.state() {
            CellState::Stopped => Outcome::Completed,
            _ => match env.msg {
                SystemMsg::ActorInit => handle_init(mbox, ctx, cell, actor),
                SystemMsg::Command(cmd) => cell.receive_cmd(cmd, actor, mbox, ctx, props),
                SystemMsg::Event(evt) => handle_evt(evt, mbox, ctx, cell, actor, props),
                SystemMsg::Failed(failed) => {
                    handle_failed(failed, cell, ctx);
                    Outcome::Completed
                },
            },
        };
        proof {
            let noted = cur.noted(Delivery::System(env.msg));
            let now = snapshot(mbox@, *ctx, cell@, actor.is_some());
            assert(calm(cur, noted));
            assert(calm(noted, now));
            lemma_calm_trans(cur, noted, now);
            lemma_calm_trans(before, cur, now);
            if outcome == Outcome::Panicked {
                assert(start.sys_fold(all.take(done)).noted(
                    Delivery::System(all[done].msg),
                ).cut_at(all[done].msg, now));
                assert(start.sys_cut(all, now));
            }
        }
        match outcome {
            Outcome::Panicked => {
                return Outcome::Panicked;
            },
            Outcome::Completed => {},
        }
    }
    Outcome::Completed
}

/// Delivers user messages to the actor, oldest first, until the quota of the
/// mailbox is used up, the queue is empty, the mailbox is suspended or the
/// slot is empty. After each message the system queue is drained, so that a
/// command that arrived meanwhile takes effect before the next message.
pub fn process_msgs<A: Actor>(
    mbox: &mut Mailbox<A::Msg>,
    ctx: &mut Context,
    cell: &mut ExtendedCell<A::Msg>,
    actor: &mut Option<A>,
    props: &A::Props,
) -> (r: Outcome)
    ensures
        final(ctx).myself == old(ctx).myself,
        final(ctx).parent == old(ctx).parent,
        advanced(
            snapshot(old(mbox)@, *old(ctx), old(cell)@, old(actor).is_some()),
            snapshot(final(mbox)@, *final(ctx), final(cell)@, final(actor).is_some()),
        ),
        in_hand(
            snapshot(old(mbox)@, *old(ctx), old(cell)@, old(actor).is_some()),
            snapshot(final(mbox)@, *final(ctx), final(cell)@, final(actor).is_some()),
        ),
        user_count(final(cell)@.log) <= user_count(old(cell)@.log) + old(mbox)@.msg_process_limit,
        r == Outcome::Completed ==> snapshot(
            final(mbox)@,
            *final(ctx),
            final(cell)@,
            final(actor).is_some(),
        ) == snapshot(old(mbox)@, *old(ctx), old(cell)@, old(actor).is_some()).user_phase(
            old(mbox)@.msg_process_limit as nat,
        ),
        old(mbox)@.msg_process_limit == 0 || !snapshot(
            old(mbox)@,
            *old(ctx),
            old(cell)@,
            old(actor).is_some(),
        ).deliverable() ==> r == Outcome::Completed,
        r == Outcome::Panicked ==> snapshot(
            old(mbox)@,
            *old(ctx),
            old(cell)@,
            old(actor).is_some(),
        ).user_cut(
            old(mbox)@.msg_process_limit as nat,
            snapshot(final(mbox)@, *final(ctx), final(cell)@, final(actor).is_some()),
        ),
{
    let ghost before = snapshot(mbox@, *ctx, cell@, actor.is_some());
    let limit = mbox.msg_process_limit();
    let mut count: u32 = 0;
    proof {
        lemma_calm_advanced(before, before);
    }
    while count < limit && actor.is_some() && !mbox.is_suspended() && mbox.has_msgs()
        invariant
            count <= limit,
            limit == old(mbox)@.msg_process_limit,
            ctx.myself == old(ctx).myself,
            ctx.parent == old(ctx).parent,
            before == snapshot(old(mbox)@, *old(ctx), old(cell)@, old(actor).is_some()),
            count == 0 ==> before == snapshot(mbox@, *ctx, cell@, actor.is_some()),
            count > 0 ==> before.deliverable(),
            advanced(before, snapshot(mbox@, *ctx, cell@, actor.is_some())),
            in_hand(before, snapshot(mbox@, *ctx, cell@, actor.is_some())),
            user_count(cell@.log) == user_count(old(cell)@.log) + count,
            snapshot(mbox@, *ctx, cell@, actor.is_some()).user_phase((limit - count) as nat)
                == before.user_phase(limit as nat),
            snapshot(mbox@, *ctx, cell@, actor.is_some()) == before.user_phase(count as nat),
        decreases limit - count,
    {
        let ghost cur = snapshot(mbox@, *ctx, cell@, actor.is_some());
        proof {
            lemma_user_phase_step(before, count as nat);
        }
        match mbox.try_dequeue() {
            Ok(env) => {
                proof {
                    lemma_noted_user(cell@.log, env);
                    lemma_deliver_advances(cur);
                }
                cell.note(Ghost(Delivery::User(env)));
                let Envelope { msg, sender } = env;
                let received = match actor {
                    Some(a) => a.recv(ctx, msg, sender),
                    None => Outcome::Completed,
                };
                proof {
                    let now = snapshot(mbox@, *ctx, cell@, actor.is_some());
                    assert(now == cur.deliver());
                    assert(advanced(cur, now));
                    lemma_advanced_trans(before, cur, now);
                    assert(in_hand(cur, now));
                    lemma_in_hand_trans(before, cur, now);
                    if received == Outcome::Panicked {
                        assert(before.user_phase(count as nat).deliverable());
                        assert(before.user_cut(limit as nat, now));
                    }
                }
                match received {
                    Outcome::Panicked => {
                        return Outcome::Panicked;
                    },
                    Outcome::Completed => {},
                }
                let drained = process_sys_msgs(mbox, ctx, cell, actor, props);
                proof {
                    let now = snapshot(mbox@, *ctx, cell@, actor.is_some());
                    lemma_calm_advanced(cur.deliver(), now);
                    lemma_advanced_trans(cur, cur.deliver(), now);
                    lemma_advanced_trans(before, cur, now);
                    lemma_in_hand_trans(before, cur.deliver(), now);
                    if drained == Outcome::Panicked {
                        assert(before.user_phase(count as nat).deliverable());
                        assert(before.user_cut(limit as nat, now));
                    }
                }
                match drained {
                    Outcome::Panicked => {
                        return Outcome::Panicked;
                    },
                    Outcome::Completed => {},
                }
                count += 1;
            },
            Err(_) => {},
        }
    }
    Outcome::Completed
}

/// The sentinel's cleanup after a callback was cut short: user traffic is
/// suspended, no run-task is scheduled, and the parent is told once that
/// this actor failed. The root has nobody to tell. The slot is left empty
/// by the run-task.
pub fn sentinel_release<Msg: Debug>(
    mbox: &mut Mailbox<Msg>,
    ctx: &mut Context,
    cell: &ExtendedCell<Msg>,
)
    ensures
        final(ctx).myself == old(ctx).myself,
        final(ctx).parent == old(ctx).parent,
        final(ctx).dead_letters@ == old(ctx).dead_letters@,
        final(ctx).effects@ == old(ctx).effects@ + failure_report(cell@),
        final(mbox)@ == (MailboxView { suspended: true, scheduled: false, ..old(mbox)@ }),
{
    mbox.set_suspended(true);
    mbox.set_scheduled(false);
    cell.report_failure(ctx);
}

/// Ends a run-task whose callbacks ended with `outcome`, with `actor` as
/// the instance that the run-task holds.
///
/// If every callback completed, the instance goes back into its slot, the
/// schedule flag is lowered, and if a queue still holds a message one more
/// run-task is asked for. If a callback was cut short the instance is given
/// up and the slot left empty, and the sentinel cleans up: user traffic is
/// suspended, no run-task is scheduled, and the parent is told once that
/// this actor failed.
pub fn end_run<A: Actor>(
    outcome: Outcome,
    actor: Option<A>,
    mbox: &mut Mailbox<A::Msg>,
    ctx: &mut Context,
    dock: &mut Dock<A>,
)
    ensures
        final(ctx).myself == old(ctx).myself,
        final(ctx).parent == old(ctx).parent,
        final(dock).props == old(dock).props,
        final(dock).cell == old(dock).cell,
        ({
            let held = snapshot(
                old(mbox)@,
                *old(ctx),
                old(dock).cell@,
                actor.is_some() || old(dock).actor.is_some(),
            );
            snapshot(final(mbox)@, *final(ctx), final(dock).cell@, final(dock).actor.is_some())
                == match outcome {
                Outcome::Completed => held.release(),
                Outcome::Panicked => held.fail(),
            }
        }),
{
    match outcome {
        Outcome::Panicked => {
            dock.actor = None;
            sentinel_release(mbox, ctx, &dock.cell);
        },
        Outcome::Completed => {
            if actor.is_some() {
                dock.actor = actor;
            }
            mbox.set_scheduled(false);
            if mbox.has_msgs() || mbox.has_sys_msgs() {
                ctx.emit(Effect::Schedule);
            }
        },
    }
}

/// The three phases of a run-task, put together: what the first drain, the
/// user messages and the last drain have done makes a run-task, once the
/// mailbox is released or the sentinel has cleaned up.
proof fn lemma_run_assembled<Msg>(
    before: RunState<Msg>,
    s1: RunState<Msg>,
    s2: RunState<Msg>,
    s3: RunState<Msg>,
    o1: Outcome,
    o2: Outcome,
    o3: Outcome,
)
    requires
        calm(before, s1),
        system_first(before, s1),
        o1 == Outcome::Completed ==> s1 == before.sys_phase(),
        o1 == Outcome::Panicked ==> before.drain_cut(s1),
        before.quiet_phase() ==> o1 == Outcome::Completed,
        o1 == Outcome::Panicked ==> o2 == Outcome::Panicked && s2 == s1,
        o1 == Outcome::Completed ==> {
            &&& advanced(s1, s2)
            &&& in_hand(s1, s2)
            &&& user_count(s2.cell.log) <= user_count(s1.cell.log) + s1.mbox.msg_process_limit
            &&& o2 == Outcome::Completed ==> s2 == s1.user_phase(s1.mbox.msg_process_limit as nat)
            &&& o2 == Outcome::Panicked ==> s1.user_cut(s1.mbox.msg_process_limit as nat, s2)
            &&& s1.mbox.msg_process_limit == 0 || !s1.deliverable() ==> o2 == Outcome::Completed
        },
        o2 == Outcome::Panicked ==> o3 == Outcome::Panicked && s3 == s2,
        o2 == Outcome::Completed ==> {
            &&& calm(s2, s3)
            &&& o3 == Outcome::Completed ==> s3 == s2.sys_phase()
            &&& o3 == Outcome::Panicked ==> s2.drain_cut(s3)
            &&& s2.quiet_phase() ==> o3 == Outcome::Completed
        },
    ensures
        ran(
            before,
            match o3 {
                Outcome::Completed => s3.release(),
                Outcome::Panicked => s3.fail(),
            },
            o3,
        ),
{
    lemma_calm_advanced(before, s1);
    lemma_calm_advanced(s1, s1);
    lemma_calm_advanced(s2, s2);
    lemma_advanced_trans(before, s1, s2);
    lemma_in_hand_trans(before, s1, s2);
    if o2 == Outcome::Completed {
        lemma_calm_advanced(s2, s3);
    }
    lemma_advanced_trans(before, s2, s3);
    lemma_in_hand_trans(before, s2, s3);
    assert(s1.cell.log.is_prefix_of(s3.cell.log));
    if before.mbox.sys_queue.len() > 0 && s1.cell.log.len() > before.cell.log.len() {
        let at = before.cell.log.len() as int;
        assert(s3.cell.log[at] == s1.cell.log[at]);
    }
    if o1 == Outcome::Completed {
        lemma_sys_phase_record(before);
    }
    assert(system_first(before, s3));
    match o3 {
        Outcome::Completed => {
            assert(s3.release() == before.run());
        },
        Outcome::Panicked => {
            assert(before.run_cut(s3));
            assert(advanced(before, s3) && in_hand(before, s3) && before.run_cut(s3) && s3.fail()
                == s3.fail());
            if before.quiet_phase() && (before.mbox.msg_process_limit == 0
                || !before.sys_phase().deliverable()) {
                assert(o2 == Outcome::Completed);
                assert(s2 == s1);
                assert(s2.mbox.sys_queue =~= Seq::empty());
                assert(s2.quiet_phase());
            }
        },
    }
}

/// One run-task for an actor.
///
/// The instance is taken out of its slot. The system queue is drained; if
/// the slot is occupied and the mailbox is not suspended, up to
/// `msg_process_limit` user messages are delivered, with a drain of the
/// system queue after each; the system queue is drained once more. Then the
/// instance goes back into its slot, the schedule flag is lowered, and if a
/// queue still holds a message one more run-task is asked for.
///
/// If a callback is cut short the run-task ends there with the sentinel's
/// cleanup: the slot stays empty, user traffic is suspended, no run-task is
/// scheduled or asked for, and the parent is told once that this actor
/// failed. The user messages that were not delivered stay queued, unless
/// the actor was stopped in this run-task and its queue flushed. A
/// run-task that makes no callback completes.
pub fn run_mailbox<A: Actor>(
    mbox: &mut Mailbox<A::Msg>,
    ctx: &mut Context,
    dock: &mut Dock<A>,
) -> (r: Outcome)
    ensures
        final(ctx).myself == old(ctx).myself,
        final(ctx).parent == old(ctx).parent,
        final(dock).props == old(dock).props,
        ran(
            snapshot(old(mbox)@, *old(ctx), old(dock).cell@, old(dock).actor.is_some()),
            snapshot(final(mbox)@, *final(ctx), final(dock).cell@, final(dock).actor.is_some()),
            r,
        ),
{
    let ghost before = snapshot(mbox@, *ctx, dock.cell@, dock.actor.is_some());
    let mut actor = dock.actor.take();
    let mut outcome = process_sys_msgs(mbox, ctx, &mut dock.cell, &mut actor, &dock.props);
    let ghost first = outcome;
    let ghost s1 = snapshot(mbox@, *ctx, dock.cell@, actor.is_some());
    match outcome {
        Outcome::Completed => {
            outcome = process_msgs(mbox, ctx, &mut dock.cell, &mut actor, &dock.props);
        },
        Outcome::Panicked => {},
    }
    let ghost s2 = snapshot(mbox@, *ctx, dock.cell@, actor.is_some());
    let ghost second = outcome;
    match outcome {
        Outcome::Completed => {
            outcome = process_sys_msgs(mbox, ctx, &mut dock.cell, &mut actor, &dock.props);
        },
        Outcome::Panicked => {},
    }
    let ghost s3 = snapshot(mbox@, *ctx, dock.cell@, actor.is_some());
    proof {
        lemma_run_assembled(before, s1, s2, s3, first, second, outcome);
    }
    end_run(outcome, actor, mbox, ctx, dock);
    outcome
}

} // verus!
