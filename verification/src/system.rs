//! The actor system: every actor with its mailbox and dock, the run-tasks
//! that wait for the executor, the events that were published and the dead
//! letters.
//!
//! The system is one value with one owner. A host that runs actors on
//! several threads keeps it behind a lock and calls [`ActorSystem::dispatch`]
//! for each run-task; every call is one step that nothing interleaves with.

use crate::actor::{
    Actor, ActorUri, BasicActorRef, Context, DeadLetter, Effect, Envelope, Outcome, Request,
    Sender, SystemCmd, SystemEvent, SystemMsg, DEAD_LETTER_TOPIC,
};
use crate::kernel::cell::{has_child, CellView};
use crate::kernel::mailbox::{debug_text, run_mailbox, Mailbox, MailboxView};
use crate::kernel::model::{ran, snapshot, RunState};
use crate::kernel::provider::{spawned, CreateError, Guardian, Provider, ProviderView, SysActors};
use crate::kernel::Dock;
use std::collections::VecDeque;
use vstd::prelude::*;
use vstd::string::*;

verus! {

/// An actor at rest, as contracts see it.
pub struct Parked<Msg> {
    pub mbox: MailboxView<Msg>,
    pub cell: CellView<Msg>,
    pub occupied: bool,
}

impl<Msg> Parked<Msg> {
    /// The state that a run-task for this actor starts from, with nothing
    /// emitted yet.
    pub open spec fn at_start(self) -> RunState<Msg> {
        RunState {
            mbox: self.mbox,
            cell: self.cell,
            occupied: self.occupied,
            effects: Seq::empty(),
            dead: Seq::empty(),
        }
    }

    /// The system message `env` is accepted and a run-task is scheduled.
    pub open spec fn sys_told(self, env: Envelope<SystemMsg>) -> Self {
        Parked {
            mbox: MailboxView {
                sys_queue: self.mbox.sys_queue.push(env),
                scheduled: true,
                ..self.mbox
            },
            ..self
        }
    }

    /// The user message `env` is accepted and a run-task is scheduled.
    pub open spec fn told(self, env: Envelope<Msg>) -> Self {
        Parked {
            mbox: MailboxView { queue: self.mbox.queue.push(env), scheduled: true, ..self.mbox },
            ..self
        }
    }

    /// `child` is added behind the children, unless it is one already.
    pub open spec fn with_child(self, child: BasicActorRef) -> Self {
        if has_child(self.cell.children, child) {
            self
        } else {
            Parked {
                cell: CellView { children: self.cell.children.push(child), ..self.cell },
                ..self
            }
        }
    }

    /// User traffic flows again and a run-task is scheduled.
    pub open spec fn resumed(self) -> Self {
        Parked { mbox: MailboxView { suspended: false, scheduled: true, ..self.mbox }, ..self }
    }

    /// A run-task is scheduled.
    pub open spec fn scheduled(self) -> Self {
        Parked { mbox: MailboxView { scheduled: true, ..self.mbox }, ..self }
    }
}

/// The part of a run state that stays with the actor between run-tasks.
pub open spec fn parked<Msg>(s: RunState<Msg>) -> Parked<Msg> {
    Parked { mbox: s.mbox, cell: s.cell, occupied: s.occupied }
}

/// One actor of the system as contracts see it: a guardian, whose user
/// messages are system messages, or a user actor.
pub enum Seat<Msg> {
    Guardian(Parked<SystemMsg>),
    User(Parked<Msg>),
}

impl<Msg> Seat<Msg> {
    pub open spec fn uri(self) -> ActorUri {
        match self {
            Seat::Guardian(p) => p.cell.uri,
            Seat::User(p) => p.cell.uri,
        }
    }

    pub open spec fn me(self) -> BasicActorRef {
        BasicActorRef { uri: self.uri() }
    }

    pub open spec fn parent(self) -> Option<BasicActorRef> {
        match self {
            Seat::Guardian(p) => p.cell.parent,
            Seat::User(p) => p.cell.parent,
        }
    }

    pub open spec fn path(self) -> Seq<char> {
        self.uri().path@
    }

    pub open spec fn closed(self) -> bool {
        match self {
            Seat::Guardian(p) => p.mbox.closed,
            Seat::User(p) => p.mbox.closed,
        }
    }

    pub open spec fn scheduled(self) -> bool {
        match self {
            Seat::Guardian(p) => p.mbox.scheduled,
            Seat::User(p) => p.mbox.scheduled,
        }
    }

    pub open spec fn suspended(self) -> bool {
        match self {
            Seat::Guardian(p) => p.mbox.suspended,
            Seat::User(p) => p.mbox.suspended,
        }
    }

    pub open spec fn children(self) -> Seq<BasicActorRef> {
        match self {
            Seat::Guardian(p) => p.cell.children,
            Seat::User(p) => p.cell.children,
        }
    }

    pub open spec fn sys_queue(self) -> Seq<Envelope<SystemMsg>> {
        match self {
            Seat::Guardian(p) => p.mbox.sys_queue,
            Seat::User(p) => p.mbox.sys_queue,
        }
    }

    pub open spec fn restart_count(self) -> u64 {
        match self {
            Seat::Guardian(p) => p.cell.restart_count,
            Seat::User(p) => p.cell.restart_count,
        }
    }

    pub open spec fn sys_told(self, env: Envelope<SystemMsg>) -> Self {
        match self {
            Seat::Guardian(p) => Seat::Guardian(p.sys_told(env)),
            Seat::User(p) => Seat::User(p.sys_told(env)),
        }
    }

    pub open spec fn with_child(self, child: BasicActorRef) -> Self {
        match self {
            Seat::Guardian(p) => Seat::Guardian(p.with_child(child)),
            Seat::User(p) => Seat::User(p.with_child(child)),
        }
    }

    pub open spec fn resumed(self) -> Self {
        match self {
            Seat::Guardian(p) => Seat::Guardian(p.resumed()),
            Seat::User(p) => Seat::User(p.resumed()),
        }
    }

    pub open spec fn rescheduled(self) -> Self {
        match self {
            Seat::Guardian(p) => Seat::Guardian(p.scheduled()),
            Seat::User(p) => Seat::User(p.scheduled()),
        }
    }

    /// Whether the user message of a user actor can be put on the queue of
    /// this seat: it is the seat of a user actor and its mailbox is open.
    pub open spec fn takes_user_msgs(self) -> bool {
        self is User && !self.closed()
    }

    pub open spec fn told(self, env: Envelope<Msg>) -> Self {
        match self {
            Seat::Guardian(p) => self,
            Seat::User(p) => Seat::User(p.told(env)),
        }
    }
}

/// An actor that wants the events of a topic.
#[derive(Debug, PartialEq, Eq)]
pub struct Subscription {
    pub topic: String,
    pub actor: BasicActorRef,
}

/// The topic that matches every lifecycle event.
pub open spec fn all_topics() -> Seq<char> {
    "*"@
}

/// The topic under which an event is published.
pub open spec fn topic_of(event: SystemEvent) -> Seq<char> {
    match event {
        SystemEvent::ActorCreated { .. } => "actor.created"@,
        SystemEvent::ActorRestarted { .. } => "actor.restarted"@,
        SystemEvent::ActorTerminated { .. } => "actor.terminated"@,
        SystemEvent::DeadLetter { .. } => DEAD_LETTER_TOPIC@,
    }
}

/// Whether a subscription asks for `event`: its topic is that of the event,
/// or it is the topic of all lifecycle events and the event is one. A dead
/// letter is none.
pub open spec fn wants(sub: Subscription, event: SystemEvent) -> bool {
    sub.topic@ == topic_of(event) || (sub.topic@ == all_topics() && !(event is DeadLetter))
}

/// The run-tasks of `queue` without those for an actor at `path`, the
/// others in their order.
pub open spec fn cancelled(queue: Seq<BasicActorRef>, path: Seq<char>) -> Seq<BasicActorRef>
    decreases queue.len(),
{
    if queue.len() == 0 {
        queue
    } else if queue.last().path_view() == path {
        cancelled(queue.drop_last(), path)
    } else {
        cancelled(queue.drop_last(), path).push(queue.last())
    }
}

/// The paths that are left of `paths` once `effect` is carried out.
pub open spec fn released(paths: Set<Seq<char>>, effect: Effect) -> Set<Seq<char>> {
    match effect {
        Effect::Unregister { path } => paths.remove(path@),
        _ => paths,
    }
}

/// The paths that are left of `paths` once `effects` are carried out.
pub open spec fn released_all(paths: Set<Seq<char>>, effects: Seq<Effect>) -> Set<Seq<char>>
    decreases effects.len(),
{
    if effects.len() == 0 {
        paths
    } else {
        released(released_all(paths, effects.drop_last()), effects.last())
    }
}

/// Whether an actor with the path `path` has a seat.
pub open spec fn seated<Msg>(seats: Seq<Seat<Msg>>, path: Seq<char>) -> bool {
    exists|i: int| 0 <= i < seats.len() && (#[trigger] seats[i]).path() == path
}

/// Whether `i` is the first seat with the path `path`.
pub open spec fn first_seat<Msg>(seats: Seq<Seat<Msg>>, path: Seq<char>, i: int) -> bool {
    &&& 0 <= i < seats.len()
    &&& seats[i].path() == path
    &&& forall|k: int| 0 <= k < i ==> (#[trigger] seats[k]).path() != path
}

/// The first seat with the path `path`, if there is one.
pub open spec fn seat_of<Msg>(seats: Seq<Seat<Msg>>, path: Seq<char>) -> int {
    choose|i: int| first_seat(seats, path, i)
}

/// One actor of the system: its mailbox and its dock.
#[allow(inconsistent_fields)]
pub enum Resident<A: Actor> {
    Guardian { mbox: Mailbox<SystemMsg>, dock: Dock<Guardian> },
    User { mbox: Mailbox<A::Msg>, dock: Dock<A> },
}

impl<A: Actor> View for Resident<A> {
    type V = Seat<A::Msg>;

    open spec fn view(&self) -> Seat<A::Msg> {
        match *self {
            Resident::Guardian { mbox, dock } => Seat::Guardian(
                Parked { mbox: mbox@, cell: dock.cell@, occupied: dock.actor.is_some() },
            ),
            Resident::User { mbox, dock } => Seat::User(
                Parked { mbox: mbox@, cell: dock.cell@, occupied: dock.actor.is_some() },
            ),
        }
    }
}

impl<A: Actor> Resident<A> {
    pub fn myself(&self) -> (r: BasicActorRef)
        ensures
            r == self@.me(),
    {
        match self {
            Resident::Guardian { dock, .. } => dock.cell.myself(),
            Resident::User { dock, .. } => dock.cell.myself(),
        }
    }

    /// The parent of this resident.
    pub fn parent(&self) -> (r: Option<BasicActorRef>)
        ensures
            r == self@.parent(),
    {
        match self {
            Resident::Guardian { dock, .. } => match dock.cell.parent() {
                Some(p) => Some(p.clone()),
                None => None,
            },
            Resident::User { dock, .. } => match dock.cell.parent() {
                Some(p) => Some(p.clone()),
                None => None,
            },
        }
    }

    /// Whether this resident lives at `path`.
    pub fn is_at(&self, path: &String) -> (r: bool)
        ensures
            r == (self@.path() == path@),
    {
        match self {
            Resident::Guardian { dock, .. } => dock.cell.uri().path == *path,
            Resident::User { dock, .. } => dock.cell.uri().path == *path,
        }
    }

    /// Puts `env` on the system queue and raises the schedule flag, unless
    /// the mailbox is closed. Says whether a run-task has to be submitted.
    pub fn sys_tell(&mut self, env: Envelope<SystemMsg>) -> (submit: bool)
        ensures
            old(self)@.closed() ==> !submit && final(self)@ == old(self)@,
            !old(self)@.closed() ==> submit == !old(self)@.scheduled() && final(self)@
                == old(self)@.sys_told(env),
    {
        match self {
            Resident::Guardian { mbox, .. } => {
                match mbox.sys_try_enqueue(env) {
                    Ok(_) => mbox.request_schedule(),
                    Err(_) => false,
                }
            },
            Resident::User { mbox, .. } => {
                match mbox.sys_try_enqueue(env) {
                    Ok(_) => mbox.request_schedule(),
                    Err(_) => false,
                }
            },
        }
    }

    /// Adds `child` to the children of this resident.
    pub(crate) fn add_child(&mut self, child: BasicActorRef)
        ensures
            final(self)@ == old(self)@.with_child(child),
    {
        match self {
            Resident::Guardian { dock, .. } => dock.cell.add_child(child),
            Resident::User { dock, .. } => dock.cell.add_child(child),
        }
    }

    /// Puts the user message `env` on the user queue and raises the schedule
    /// flag, if this is a user actor with an open mailbox. Otherwise hands
    /// the message back. With `Ok` it says whether a run-task has to be
    /// submitted.
    pub fn tell(&mut self, env: Envelope<A::Msg>) -> (r: Result<bool, Envelope<A::Msg>>)
        ensures
            old(self)@.takes_user_msgs() ==> r == Ok::<bool, Envelope<A::Msg>>(
                !old(self)@.scheduled(),
            ) && final(self)@ == old(self)@.told(env),
            !old(self)@.takes_user_msgs() ==> r == Err::<bool, Envelope<A::Msg>>(env)
                && final(self)@ == old(self)@,
    {
        match self {
            Resident::Guardian { .. } => Err(env),
            Resident::User { mbox, .. } => {
                match mbox.try_enqueue(env) {
                    Ok(_) => Ok(mbox.request_schedule()),
                    Err(e) => Err(e.msg),
                }
            },
        }
    }

    /// Raises the schedule flag. Says whether a run-task has to be
    /// submitted.
    pub fn reschedule(&mut self) -> (submit: bool)
        ensures
            submit == !old(self)@.scheduled(),
            final(self)@ == old(self)@.rescheduled(),
    {
        match self {
            Resident::Guardian { mbox, .. } => mbox.request_schedule(),
            Resident::User { mbox, .. } => mbox.request_schedule(),
        }
    }

    /// Lets user traffic flow again and raises the schedule flag. Says
    /// whether a run-task has to be submitted.
    pub(crate) fn resume(&mut self) -> (submit: bool)
        ensures
            submit == !old(self)@.scheduled(),
            final(self)@ == old(self)@.resumed(),
    {
        match self {
            Resident::Guardian { mbox, .. } => {
                mbox.set_suspended(false);
                mbox.request_schedule()
            },
            Resident::User { mbox, .. } => {
                mbox.set_suspended(false);
                mbox.request_schedule()
            },
        }
    }
}

/// The system as contracts see it.
pub struct SystemView<Msg> {
    pub host: Seq<char>,
    pub msg_process_limit: u32,
    /// The actors, in the order in which they were seated.
    pub seats: Seq<Seat<Msg>>,
    /// The actors for which a run-task waits, oldest first.
    pub run_queue: Seq<BasicActorRef>,
    /// Every event published so far, oldest first.
    pub events: Seq<SystemEvent>,
    /// Every dead letter so far, oldest first.
    pub dead: Seq<DeadLetter>,
    /// Who asked for the events of which topic, oldest first.
    pub subscribers: Seq<Subscription>,
}

impl<Msg> SystemView<Msg> {
    /// The seat `i` is replaced by `seat`.
    pub open spec fn with_seat(self, i: int, seat: Seat<Msg>) -> Self {
        SystemView { seats: self.seats.update(i, seat), ..self }
    }

    /// A run-task is submitted for the first seat at the path of `actor`,
    /// unless one is scheduled already or nobody lives there.
    pub open spec fn submitted(self, actor: BasicActorRef) -> Self {
        if seated(self.seats, actor.path_view()) {
            let i = seat_of(self.seats, actor.path_view());
            let seat = self.seats[i];
            SystemView {
                seats: self.seats.update(i, seat.rescheduled()),
                run_queue: if seat.scheduled() {
                    self.run_queue
                } else {
                    self.run_queue.push(seat.me())
                },
                ..self
            }
        } else {
            self
        }
    }

    /// The first seat at `path` is given up, if there is one, and with it
    /// the run-tasks that wait for an actor at `path`.
    pub open spec fn vacated(self, path: Seq<char>) -> Self {
        if seated(self.seats, path) {
            SystemView {
                seats: self.seats.remove(seat_of(self.seats, path)),
                run_queue: cancelled(self.run_queue, path),
                ..self
            }
        } else {
            self
        }
    }

    /// `letter` is recorded and goes to every subscriber of the topic of
    /// dead letters, in their order.
    pub open spec fn buried(self, letter: DeadLetter) -> Self {
        SystemView { dead: self.dead.push(letter), ..self }.notified(
            self.subscribers,
            SystemEvent::DeadLetter { letter },
        )
    }

    /// Each of `letters` is recorded and goes to the subscribers, in the
    /// order of the letters.
    pub open spec fn buried_all(self, letters: Seq<DeadLetter>) -> Self
        decreases letters.len(),
    {
        if letters.len() == 0 {
            self
        } else {
            self.buried_all(letters.drop_last()).buried(letters.last())
        }
    }

    /// The user message `env` goes to the first seat at the path of `to` if
    /// that seat takes user messages, and a run-task is submitted unless one
    /// is scheduled. Otherwise the message is a dead letter with `text` as
    /// its rendering, from the sender of the message and for `to`, and goes
    /// to the subscribers of the topic of dead letters.
    pub open spec fn told(self, to: BasicActorRef, env: Envelope<Msg>, text: String) -> Self {
        if seated(self.seats, to.path_view()) && self.seats[seat_of(
            self.seats,
            to.path_view(),
        )].takes_user_msgs() {
            let i = seat_of(self.seats, to.path_view());
            let seat = self.seats[i];
            SystemView {
                seats: self.seats.update(i, seat.told(env)),
                run_queue: if seat.scheduled() {
                    self.run_queue
                } else {
                    self.run_queue.push(seat.me())
                },
                ..self
            }
        } else {
            self.buried(DeadLetter { msg: text, sender: env.sender, recipient: to })
        }
    }

    /// `actor` asks for the events of `topic`.
    pub open spec fn subscribed(self, sub: Subscription) -> Self {
        SystemView { subscribers: self.subscribers.push(sub), ..self }
    }

    /// `event` goes to the system queue of every subscriber among `subs`
    /// that wants it, in their order.
    pub open spec fn notified(self, subs: Seq<Subscription>, event: SystemEvent) -> Self
        decreases subs.len(),
    {
        if subs.len() == 0 {
            self
        } else {
            let s = self.notified(subs.drop_last(), event);
            if wants(subs.last(), event) {
                s.sys_told(subs.last().actor, SystemMsg::Event(event))
            } else {
                s
            }
        }
    }

    /// `event` is recorded and goes to every subscriber that wants it.
    pub open spec fn published(self, event: SystemEvent) -> Self {
        SystemView { events: self.events.push(event), ..self }.notified(self.subscribers, event)
    }

    /// One effect of a run-task of `from` is carried out.
    pub open spec fn routed(self, from: BasicActorRef, effect: Effect) -> Self {
        match effect {
            Effect::SysTell { to, msg } => self.sys_told(to, msg),
            Effect::Publish { event } => self.published(event),
            Effect::Resume { child } => self.resumed(child),
            Effect::Unregister { path } => self.vacated(path@),
            Effect::Schedule => self.submitted(from),
        }
    }

    /// The effects of a run-task of `from` are carried out in their order.
    pub open spec fn settled(self, from: BasicActorRef, effects: Seq<Effect>) -> Self
        decreases effects.len(),
    {
        if effects.len() == 0 {
            self
        } else {
            self.settled(from, effects.drop_last()).routed(from, effects.last())
        }
    }

    /// What a run-task of the seat `i` leaves behind: the seat as the
    /// run-task left it, its dead letters recorded and sent to their
    /// subscribers, then its effects carried out.
    pub open spec fn after_run(
        self,
        i: int,
        seat: Seat<Msg>,
        effects: Seq<Effect>,
        letters: Seq<DeadLetter>,
    ) -> Self {
        self.with_seat(i, seat).buried_all(letters).settled(self.seats[i].me(), effects)
    }

    /// The system message `msg` goes to the first seat at the path of `to`.
    /// If there is none, or its mailbox is closed, nothing changes. A
    /// run-task is submitted unless one is scheduled already.
    pub open spec fn sys_told(self, to: BasicActorRef, msg: SystemMsg) -> Self {
        if seated(self.seats, to.path_view()) {
            let i = seat_of(self.seats, to.path_view());
            let seat = self.seats[i];
            if seat.closed() {
                self
            } else {
                SystemView {
                    seats: self.seats.update(
                        i,
                        seat.sys_told(Envelope { msg, sender: None }),
                    ),
                    run_queue: if seat.scheduled() {
                        self.run_queue
                    } else {
                        self.run_queue.push(seat.me())
                    },
                    ..self
                }
            }
        } else {
            self
        }
    }

    /// `child` joins the children of the first seat at the path of
    /// `parent`, if there is one.
    pub open spec fn adopted(self, parent: BasicActorRef, child: BasicActorRef) -> Self {
        if seated(self.seats, parent.path_view()) {
            let i = seat_of(self.seats, parent.path_view());
            SystemView { seats: self.seats.update(i, self.seats[i].with_child(child)), ..self }
        } else {
            self
        }
    }

    /// The first seat at the path of `child` has its user traffic flowing
    /// again and a run-task submitted, unless one is scheduled already.
    pub open spec fn resumed(self, child: BasicActorRef) -> Self {
        if seated(self.seats, child.path_view()) {
            let i = seat_of(self.seats, child.path_view());
            let seat = self.seats[i];
            SystemView {
                seats: self.seats.update(i, seat.resumed()),
                run_queue: if seat.scheduled() {
                    self.run_queue
                } else {
                    self.run_queue.push(seat.me())
                },
                ..self
            }
        } else {
            self
        }
    }

    /// `seat` is added behind the others.
    pub open spec fn seating(self, seat: Seat<Msg>) -> Self {
        SystemView { seats: self.seats.push(seat), ..self }
    }

}

/// Sending an event to subscribers changes no record: the events, the dead
/// letters and the subscribers are as before.
pub proof fn lemma_notified_keeps_record<Msg>(
    sys: SystemView<Msg>,
    subs: Seq<Subscription>,
    event: SystemEvent,
)
    ensures
        sys.notified(subs, event).dead == sys.dead,
        sys.notified(subs, event).events == sys.events,
        sys.notified(subs, event).subscribers == sys.subscribers,
    decreases subs.len(),
{
    if subs.len() > 0 {
        lemma_notified_keeps_record(sys, subs.drop_last(), event);
    }
}

/// What running the oldest run-task that waits has done, with the outcome
/// `outcome`, to a registry and a system.
///
/// The run-task is for the first actor at the path that was submitted. If
/// nobody lives there nothing happens but that the run-task is gone, and
/// the outcome is `Completed`. Otherwise the actor has run as [`ran`] says,
/// starting with nothing emitted; it is seated again as the run-task left
/// it; the dead letters of the run-task, which have the senders and the
/// recipient that the run-task says, are recorded and go to the
/// subscribers of their topic; and the effects of the run-task are carried
/// out in their order, those that give a path back in the registry too.
pub open spec fn dispatched<Msg>(
    registry: ProviderView,
    sys: SystemView<Msg>,
    outcome: Outcome,
    registry_after: ProviderView,
    sys_after: SystemView<Msg>,
) -> bool
    recommends
        sys.run_queue.len() > 0,
{
    let actor = sys.run_queue[0];
    let base = SystemView { run_queue: sys.run_queue.drop_first(), ..sys };
    if seated(base.seats, actor.path_view()) {
        let i = seat_of(base.seats, actor.path_view());
        match base.seats[i] {
            Seat::Guardian(p) => exists|after: RunState<SystemMsg>, letters: Seq<DeadLetter>|
                #![trigger ran(p.at_start(), after, outcome), addressings(letters)]
                {
                    &&& ran(p.at_start(), after, outcome)
                    &&& addressings(letters) == after.dead
                    &&& sys_after == base.after_run(
                        i,
                        Seat::Guardian(parked(after)),
                        after.effects,
                        letters,
                    )
                    &&& registry_after == (ProviderView {
                        paths: released_all(registry.paths, after.effects),
                        ..registry
                    })
                },
            Seat::User(p) => exists|after: RunState<Msg>, letters: Seq<DeadLetter>|
                #![trigger ran(p.at_start(), after, outcome), addressings(letters)]
                {
                    &&& ran(p.at_start(), after, outcome)
                    &&& addressings(letters) == after.dead
                    &&& sys_after == base.after_run(
                        i,
                        Seat::User(parked(after)),
                        after.effects,
                        letters,
                    )
                    &&& registry_after == (ProviderView {
                        paths: released_all(registry.paths, after.effects),
                        ..registry
                    })
                },
        }
    } else {
        outcome == Outcome::Completed && sys_after == base && registry_after == registry
    }
}

/// What one run-task has done, as the host has to know it.
pub struct Ran<Msg, Props> {
    /// The actor that was run.
    pub actor: BasicActorRef,
    /// How the run-task ended.
    pub outcome: Outcome,
    /// What the actor asks of the system.
    pub requests: Vec<Request<Msg, Props>>,
}

/// The actor system.
///
/// Besides the root and the guardians a system seats user actors of one
/// type, `A`: their messages are of the one type `A::Msg`. Actors of
/// several kinds in one system are the variants of one `A`.
pub struct ActorSystem<A: Actor> {
    host: String,
    msg_process_limit: u32,
    residents: Vec<Resident<A>>,
    run_queue: VecDeque<BasicActorRef>,
    events: Vec<SystemEvent>,
    dead_letters: Vec<DeadLetter>,
    subscribers: Vec<Subscription>,
}

/// Sender and recipient of each of `letters`.
pub open spec fn addressings(letters: Seq<DeadLetter>) -> Seq<(Sender, BasicActorRef)> {
    letters.map_values(|d: DeadLetter| crate::actor::addressing(d))
}

impl<A: Actor> View for ActorSystem<A> {
    type V = SystemView<A::Msg>;

    closed spec fn view(&self) -> SystemView<A::Msg> {
        SystemView {
            host: self.host@,
            msg_process_limit: self.msg_process_limit,
            seats: self.residents@.map_values(|r: Resident<A>| r@),
            run_queue: self.run_queue@,
            events: self.events@,
            dead: self.dead_letters@,
            subscribers: self.subscribers@,
        }
    }
}

/// The name of the topic of `event`.
pub fn topic(event: &SystemEvent) -> (r: &'static str)
    ensures
        r@ == topic_of(*event),
{
    match event {
        SystemEvent::ActorCreated { .. } => "actor.created",
        SystemEvent::ActorRestarted { .. } => "actor.restarted",
        SystemEvent::ActorTerminated { .. } => "actor.terminated",
        SystemEvent::DeadLetter { .. } => DEAD_LETTER_TOPIC,
    }
}

impl<A: Actor> ActorSystem<A> {
    /// An empty system on `host`, whose mailboxes get `msg_process_limit` as
    /// their quota.
    pub fn new(host: &str, msg_process_limit: u32) -> (r: Self)
        ensures
            r@ == (SystemView {
                host: host@,
                msg_process_limit,
                seats: Seq::<Seat<A::Msg>>::empty(),
                run_queue: Seq::<BasicActorRef>::empty(),
                events: Seq::<SystemEvent>::empty(),
                dead: Seq::<DeadLetter>::empty(),
                subscribers: Seq::<Subscription>::empty(),
            }),
    {
        let r = ActorSystem {
            host: String::from_str(host),
            msg_process_limit,
            residents: Vec::new(),
            run_queue: VecDeque::new(),
            events: Vec::new(),
            dead_letters: Vec::new(),
            subscribers: Vec::new(),
        };
        proof {
            assert(r@.seats =~= Seq::<Seat<A::Msg>>::empty());
            assert(r@.dead =~= Seq::<DeadLetter>::empty());
        }
        r
    }

    pub fn host(&self) -> (r: &String)
        ensures
            r@ == self@.host,
    {
        &self.host
    }

    pub fn msg_process_limit(&self) -> (r: u32)
        ensures
            r == self@.msg_process_limit,
    {
        self.msg_process_limit
    }

    /// The events published so far, oldest first.
    pub fn events(&self) -> (r: &Vec<SystemEvent>)
        ensures
            r@ == self@.events,
    {
        &self.events
    }

    /// The dead letters so far, oldest first.
    pub fn dead_letters(&self) -> (r: &Vec<DeadLetter>)
        ensures
            r@ == self@.dead,
    {
        &self.dead_letters
    }

    /// How many run-tasks wait for the executor.
    pub fn pending(&self) -> (r: usize)
        ensures
            r == self@.run_queue.len(),
    {
        self.run_queue.len()
    }

    /// How many actors the system holds.
    pub fn len(&self) -> (r: usize)
        ensures
            r == self@.seats.len(),
    {
        self.residents.len()
    }

    /// The actor in seat `i`, if the system has so many seats.
    pub fn resident(&self, i: usize) -> (r: Option<&Resident<A>>)
        ensures
            i >= self@.seats.len() ==> r is None,
            i < self@.seats.len() ==> r is Some && r.unwrap()@ == self@.seats[i as int],
    {
        if i < self.residents.len() {
            Some(&self.residents[i])
        } else {
            None
        }
    }

    /// The place of the first actor at `path`.
    pub fn find(&self, path: &String) -> (r: Option<usize>)
        ensures
            r is None <==> !seated(self@.seats, path@),
            r matches Some(i) ==> i == seat_of(self@.seats, path@) && first_seat(
                self@.seats,
                path@,
                i as int,
            ),
    {
        let mut i: usize = 0;
        while i < self.residents.len()
            invariant
                i <= self.residents.len(),
                forall|k: int| 0 <= k < i ==> (#[trigger] self@.seats[k]).path() != path@,
            decreases self.residents.len() - i,
        {
            if self.residents[i].is_at(path) {
                proof {
                    assert(first_seat(self@.seats, path@, i as int));
                    let j = seat_of(self@.seats, path@);
                    assert(first_seat(self@.seats, path@, j));
                }
                return Some(i);
            }
            i += 1;
        }
        None
    }

    /// Whether an actor lives at the path of `actor`.
    pub fn contains(&self, actor: &BasicActorRef) -> (r: bool)
        ensures
            r == seated(self@.seats, actor.path_view()),
    {
        self.find(&actor.uri.path).is_some()
    }

    /// The paths of the actors, in the order of their seats: the lines of
    /// the tree of actors.
    pub fn paths(&self) -> (r: Vec<String>)
        ensures
            r@.len() == self@.seats.len(),
            forall|i: int| 0 <= i < r@.len() ==> (#[trigger] r@[i])@ == self@.seats[i].path(),
    {
        let mut out: Vec<String> = Vec::new();
        let mut i: usize = 0;
        while i < self.residents.len()
            invariant
                i <= self.residents.len(),
                out@.len() == i,
                forall|k: int| 0 <= k < i ==> (#[trigger] out@[k])@ == self@.seats[k].path(),
            decreases self.residents.len() - i,
        {
            out.push(self.residents[i].myself().uri.path);
            i += 1;
        }
        out
    }

    /// Seats `resident` behind the actors that are there.
    pub(crate) fn seat(&mut self, resident: Resident<A>)
        ensures
            final(self)@ == old(self)@.seating(resident@),
    {
        self.residents.push(resident);
        proof {
            assert(self@.seats =~= old(self)@.seats.push(resident@));
        }
    }

    /// Gives up the first seat at `path`, if there is one, and cancels the
    /// run-tasks that wait for an actor at `path`.
    pub(crate) fn vacate(&mut self, path: &String)
        ensures
            final(self)@ == old(self)@.vacated(path@),
    {
        match self.find(path) {
            Some(i) => {
                let _ = self.residents.remove(i);
                proof {
                    assert(self@.seats =~= old(self)@.seats.remove(i as int));
                }
                let mut kept: VecDeque<BasicActorRef> = VecDeque::new();
                let mut k: usize = 0;
                while k < self.run_queue.len()
                    invariant
                        k <= self.run_queue.len(),
                        self.run_queue@ == old(self).run_queue@,
                        kept@ == cancelled(self.run_queue@.take(k as int), path@),
                    decreases self.run_queue.len() - k,
                {
                    proof {
                        assert(self.run_queue@.take(k + 1).drop_last() =~= self.run_queue@.take(
                            k as int,
                        ));
                    }
                    if self.run_queue[k].uri.path != *path {
                        kept.push_back(self.run_queue[k].clone());
                    }
                    k += 1;
                }
                proof {
                    assert(self.run_queue@.take(k as int) =~= self.run_queue@);
                }
                self.run_queue = kept;
            },
            None => {},
        }
    }

    /// Submits a run-task for `actor` unless one is scheduled already or
    /// nobody lives at its path.
    pub(crate) fn submit(&mut self, actor: &BasicActorRef)
        ensures
            final(self)@ == old(self)@.submitted(*actor),
    {
        match self.find(&actor.uri.path) {
            Some(i) => {
                let mut resident = self.residents.remove(i);
                let submit = resident.reschedule();
                let me = resident.myself();
                self.residents.insert(i, resident);
                if submit {
                    self.run_queue.push_back(me);
                }
                proof {
                    assert(self@.seats =~= old(self)@.seats.update(
                        i as int,
                        old(self)@.seats[i as int].rescheduled(),
                    ));
                }
            },
            None => {},
        }
    }

    /// Sends the system message `msg` to `to` and submits a run-task for it
    /// unless one is scheduled. A message for an actor that is not there, or
    /// whose mailbox is closed, is dropped.
    pub fn sys_tell(&mut self, to: &BasicActorRef, msg: SystemMsg)
        ensures
            final(self)@ == old(self)@.sys_told(*to, msg),
    {
        match self.find(&to.uri.path) {
            Some(i) => {
                let mut resident = self.residents.remove(i);
                let submit = resident.sys_tell(Envelope { msg, sender: None });
                let me = resident.myself();
                self.residents.insert(i, resident);
                if submit {
                    self.run_queue.push_back(me);
                }
                proof {
                    let seat = old(self)@.seats[i as int];
                    assert(self@.seats =~= if seat.closed() {
                        old(self)@.seats
                    } else {
                        old(self)@.seats.update(
                            i as int,
                            seat.sys_told(Envelope { msg, sender: None }),
                        )
                    });
                }
            },
            None => {},
        }
    }

    /// Sends the user message `msg` to `to` and submits a run-task for it
    /// unless one is scheduled. Says whether the message was accepted. A
    /// message for an actor that is not there, that is a guardian, or whose
    /// mailbox is closed becomes a dead letter with `to` as its recipient:
    /// it is recorded as the newest dead letter and goes to the system
    /// queue of every subscriber of the topic of dead letters.
    pub fn tell(&mut self, to: &BasicActorRef, msg: A::Msg, sender: Sender) -> (accepted: bool)
        ensures
            final(self)@ == old(self)@.told(
                *to,
                Envelope { msg, sender },
                final(self)@.dead.last().msg,
            ),
            accepted == (seated(old(self)@.seats, to.path_view()) && old(self)@.seats[seat_of(
                old(self)@.seats,
                to.path_view(),
            )].takes_user_msgs()),
    {
        let env = Envelope { msg, sender };
        let refused = match self.find(&to.uri.path) {
            Some(i) => {
                let mut resident = self.residents.remove(i);
                let told = resident.tell(env);
                let me = resident.myself();
                self.residents.insert(i, resident);
                proof {
                    let seat = old(self)@.seats[i as int];
                    assert(self@.seats =~= if seat.takes_user_msgs() {
                        old(self)@.seats.update(i as int, seat.told(env))
                    } else {
                        old(self)@.seats
                    });
                }
                match told {
                    Ok(submit) => {
                        if submit {
                            self.run_queue.push_back(me);
                        }
                        return true;
                    },
                    Err(back) => back,
                }
            },
            None => env,
        };
        let Envelope { msg, sender } = refused;
        let letter = DeadLetter { msg: debug_text(&msg), sender, recipient: to.clone() };
        self.bury(letter);
        proof {
            lemma_notified_keeps_record(
                SystemView { dead: old(self)@.dead.push(letter), ..old(self)@ },
                old(self)@.subscribers,
                SystemEvent::DeadLetter { letter },
            );
        }
        false
    }

    /// Adds `child` to the children of `parent`, if `parent` is there.
    pub(crate) fn add_child(&mut self, parent: &BasicActorRef, child: BasicActorRef)
        ensures
            final(self)@ == old(self)@.adopted(*parent, child),
    {
        match self.find(&parent.uri.path) {
            Some(i) => {
                let mut resident = self.residents.remove(i);
                resident.add_child(child);
                self.residents.insert(i, resident);
                proof {
                    assert(self@.seats =~= old(self)@.seats.update(
                        i as int,
                        old(self)@.seats[i as int].with_child(child),
                    ));
                }
            },
            None => {},
        }
    }

    /// Lets the user traffic of `child` flow again and submits a run-task
    /// for it unless one is scheduled.
    pub(crate) fn resume(&mut self, child: &BasicActorRef)
        ensures
            final(self)@ == old(self)@.resumed(*child),
    {
        match self.find(&child.uri.path) {
            Some(i) => {
                let mut resident = self.residents.remove(i);
                let submit = resident.resume();
                let me = resident.myself();
                self.residents.insert(i, resident);
                if submit {
                    self.run_queue.push_back(me);
                }
                proof {
                    assert(self@.seats =~= old(self)@.seats.update(
                        i as int,
                        old(self)@.seats[i as int].resumed(),
                    ));
                }
            },
            None => {},
        }
    }

    /// Asks `actor` to stop.
    pub fn stop(&mut self, actor: &BasicActorRef)
        ensures
            final(self)@ == old(self)@.sys_told(*actor, SystemMsg::Command(SystemCmd::Stop)),
    {
        self.sys_tell(actor, SystemMsg::Command(SystemCmd::Stop))
    }

    /// Asks the guardians and then the root to stop: `/user`, `/temp`,
    /// `/system`, `/`, in this order.
    pub fn shutdown(&mut self, actors: &SysActors)
        ensures
            final(self)@ == old(self)@.sys_told(
                actors.user,
                SystemMsg::Command(SystemCmd::Stop),
            ).sys_told(actors.temp, SystemMsg::Command(SystemCmd::Stop)).sys_told(
                actors.sysm,
                SystemMsg::Command(SystemCmd::Stop),
            ).sys_told(actors.root, SystemMsg::Command(SystemCmd::Stop)),
    {
        self.stop(&actors.user);
        self.stop(&actors.temp);
        self.stop(&actors.sysm);
        self.stop(&actors.root);
    }

    /// Notes that `actor` wants the events of `topic`. The topic `*` stands
    /// for every lifecycle event; dead letters have the topic
    /// `dead_letter` and come to those only who ask for it.
    pub fn subscribe(&mut self, topic: &str, actor: BasicActorRef)
        ensures
            final(self)@.subscribers.len() > 0,
            final(self)@.subscribers.last().topic@ == topic@,
            final(self)@.subscribers.last().actor == actor,
            final(self)@ == old(self)@.subscribed(final(self)@.subscribers.last()),
    {
        self.subscribers.push(Subscription { topic: String::from_str(topic), actor });
    }

    /// Carries out one request of the actor `from`.
    ///
    /// A message is sent with `from` as its sender; a stop is asked of the
    /// actor that the request names; a subscription is noted for `from`; a
    /// child is spawned under `from`. Only a spawn can fail, and then the
    /// error is the result.
    pub fn serve(
        &mut self,
        from: &BasicActorRef,
        request: Request<A::Msg, A::Props>,
        provider: &mut Provider,
    ) -> (r: Result<(), CreateError>)
        requires
            old(provider)@.counter < u64::MAX,
        ensures
            match request {
                Request::Tell { to, msg } => r is Ok && final(provider)@ == old(provider)@
                    && final(self)@ == old(self)@.told(
                    to,
                    Envelope { msg, sender: Some(*from) },
                    final(self)@.dead.last().msg,
                ),
                Request::Stop { actor } => r is Ok && final(provider)@ == old(provider)@
                    && final(self)@ == old(self)@.sys_told(
                    actor,
                    SystemMsg::Command(SystemCmd::Stop),
                ),
                Request::Subscribe { topic } => r is Ok && final(provider)@ == old(provider)@
                    && final(self)@ == old(self)@.subscribed(
                    Subscription { topic: final(self)@.subscribers.last().topic, actor: *from },
                ) && final(self)@.subscribers.last().topic@ == topic@,
                Request::Spawn { name, props } => exists|spawn: Result<BasicActorRef, CreateError>|
                    #![trigger spawned(
                        old(provider)@,
                        old(self)@,
                        name@,
                        *from,
                        spawn,
                        final(provider)@,
                        final(self)@,
                    )]
                    spawned(
                        old(provider)@,
                        old(self)@,
                        name@,
                        *from,
                        spawn,
                        final(provider)@,
                        final(self)@,
                    ) && match spawn {
                        Ok(_) => r is Ok,
                        Err(e) => r == Err::<(), CreateError>(e),
                    },
            },
    {
        match request {
            Request::Tell { to, msg } => {
                self.tell(&to, msg, Some(from.clone()));
                Ok(())
            },
            Request::Stop { actor } => {
                self.stop(&actor);
                Ok(())
            },
            Request::Subscribe { topic } => {
                self.subscribe(topic.as_str(), from.clone());
                Ok(())
            },
            Request::Spawn { name, props } => {
                match provider.create_actor(props, name.as_str(), from, self) {
                    Ok(_) => Ok(()),
                    Err(e) => Err(e),
                }
            },
        }
    }

    /// Publishes an event: it is recorded, and it goes as a system message
    /// to every subscriber that asked for its topic, and if it is a
    /// lifecycle event to those that asked for `*`, in the order in which
    /// they subscribed.
    pub fn publish_event(&mut self, event: SystemEvent)
        ensures
            final(self)@ == old(self)@.published(event),
    {
        self.events.push(event.clone());
        self.notify(event);
    }

    /// Sends `event` to the system queue of every subscriber that wants it,
    /// in the order in which they subscribed.
    pub(crate) fn notify(&mut self, event: SystemEvent)
        ensures
            final(self)@ == old(self)@.notified(old(self)@.subscribers, event),
    {
        let every = String::from_str("*");
        let this = String::from_str(topic(&event));
        let lifecycle = match &event {
            SystemEvent::DeadLetter { .. } => false,
            _ => true,
        };
        let ghost base = self@;
        let mut i: usize = 0;
        while i < self.subscribers.len()
            invariant
                i <= self.subscribers.len(),
                every@ == all_topics(),
                this@ == topic_of(event),
                lifecycle == !(event is DeadLetter),
                self@.subscribers == base.subscribers,
                self@ == base.notified(base.subscribers.take(i as int), event),
            decreases self.subscribers.len() - i,
        {
            let wanted = self.subscribers[i].topic == this || (lifecycle
                && self.subscribers[i].topic == every);
            let to = self.subscribers[i].actor.clone();
            proof {
                assert(base.subscribers.take(i + 1).drop_last() =~= base.subscribers.take(
                    i as int,
                ));
            }
            if wanted {
                self.sys_tell(&to, SystemMsg::Event(event.clone()));
            }
            i += 1;
        }
        proof {
            assert(base.subscribers.take(i as int) =~= base.subscribers);
        }
    }

    /// Carries out one effect of a run-task of `from`.
    pub(crate) fn route(&mut self, from: &BasicActorRef, effect: &Effect, provider: &mut Provider)
        ensures
            final(self)@ == old(self)@.routed(*from, *effect),
            final(provider)@ == (ProviderView {
                paths: released(old(provider)@.paths, *effect),
                ..old(provider)@
            }),
    {
        match effect {
            Effect::SysTell { to, msg } => self.sys_tell(to, msg.clone()),
            Effect::Publish { event } => self.publish_event(event.clone()),
            Effect::Resume { child } => self.resume(child),
            Effect::Unregister { path } => {
                provider.unregister(path.as_str());
                self.vacate(path);
            },
            Effect::Schedule => self.submit(from),
        }
    }

    /// Records `letter` and sends it to the subscribers of the topic of
    /// dead letters.
    pub(crate) fn bury(&mut self, letter: DeadLetter)
        ensures
            final(self)@ == old(self)@.buried(letter),
    {
        self.dead_letters.push(letter.clone());
        self.notify(SystemEvent::DeadLetter { letter });
    }

    /// Carries out what a run-task of `from` left in `ctx`: its dead
    /// letters are recorded and sent to their subscribers, then its effects
    /// are carried out in their order.
    pub(crate) fn settle(&mut self, from: &BasicActorRef, ctx: Context, provider: &mut Provider)
        ensures
            final(self)@ == old(self)@.buried_all(ctx.dead_letters@).settled(*from, ctx.effects@),
            final(provider)@ == (ProviderView {
                paths: released_all(old(provider)@.paths, ctx.effects@),
                ..old(provider)@
            }),
    {
        let Context { myself, parent, effects, dead_letters } = ctx;
        let mut k: usize = 0;
        while k < dead_letters.len()
            invariant
                k <= dead_letters.len(),
                provider@ == old(provider)@,
                self@ == old(self)@.buried_all(dead_letters@.take(k as int)),
            decreases dead_letters.len() - k,
        {
            proof {
                assert(dead_letters@.take(k + 1).drop_last() =~= dead_letters@.take(k as int));
            }
            self.bury(dead_letters[k].clone());
            k += 1;
        }
        proof {
            assert(dead_letters@.take(k as int) =~= dead_letters@);
        }
        let ghost buried = self@;
        let mut i: usize = 0;
        while i < effects.len()
            invariant
                i <= effects.len(),
                self@ == buried.settled(*from, effects@.take(i as int)),
                provider@ == (ProviderView {
                    paths: released_all(old(provider)@.paths, effects@.take(i as int)),
                    ..old(provider)@
                }),
            decreases effects.len() - i,
        {
            proof {
                assert(effects@.take(i + 1).drop_last() =~= effects@.take(i as int));
            }
            self.route(from, &effects[i], provider);
            i += 1;
        }
        proof {
            assert(effects@.take(i as int) =~= effects@);
        }
    }

    /// Runs the oldest run-task that waits, if there is one, and says how it
    /// ended and what the actor asks of the system.
    ///
    /// The run-task is for the first actor at the path that was submitted.
    /// If nobody lives there any more nothing happens. Otherwise the actor
    /// is run as [`ran`] says, starting with nothing emitted; then its dead
    /// letters are recorded and sent to their subscribers, and its effects
    /// are carried out. The requests are those that the instance of a user
    /// actor hands over if it is still in its slot; nothing is claimed of
    /// them.
    pub fn dispatch(&mut self, provider: &mut Provider) -> (r: Option<Ran<A::Msg, A::Props>>)
        ensures
            old(self)@.run_queue.len() == 0 ==> r is None && final(self)@ == old(self)@
                && final(provider)@ == old(provider)@,
            old(self)@.run_queue.len() > 0 ==> r is Some && r.unwrap().actor
                == old(self)@.run_queue[0] && dispatched(
                old(provider)@,
                old(self)@,
                r.unwrap().outcome,
                final(provider)@,
                final(self)@,
            ),
            r matches Some(ran) ==> ran.requests@.len() == 0 || (seated(
                old(self)@.seats,
                ran.actor.path_view(),
            ) && old(self)@.seats[seat_of(old(self)@.seats, ran.actor.path_view())] is User),
    {
        let actor = match self.run_queue.pop_front() {
            None => {
                return None;
            },
            Some(actor) => actor,
        };
        let ghost base = self@;
        proof {
            assert(base.run_queue =~= old(self)@.run_queue.drop_first());
            assert(base == (SystemView {
                run_queue: old(self)@.run_queue.drop_first(),
                ..old(self)@
            }));
            assert(actor == old(self)@.run_queue[0]);
        }
        let i = match self.find(&actor.uri.path) {
            None => {
                return Some(Ran { actor, outcome: Outcome::Completed, requests: Vec::new() });
            },
            Some(i) => i,
        };
        let mut resident = self.residents.remove(i);
        let me = resident.myself();
        let mut ctx = Context::new(me.clone(), resident.parent());
        let ghost before = resident@;
        proof {
            assert(ctx.dead_view() =~= Seq::empty());
            match before {
                Seat::Guardian(p) => {
                    assert(snapshot(p.mbox, ctx, p.cell, p.occupied) == p.at_start());
                },
                Seat::User(p) => {
                    assert(snapshot(p.mbox, ctx, p.cell, p.occupied) == p.at_start());
                },
            }
        }
        let mut requests: Vec<Request<A::Msg, A::Props>> = Vec::new();
        let outcome = match &mut resident {
            Resident::Guardian { mbox, dock } => run_mailbox(mbox, &mut ctx, dock),
            Resident::User { mbox, dock } => {
                let outcome = run_mailbox(mbox, &mut ctx, dock);
                match &mut dock.actor {
                    Some(a) => {
                        requests = a.requests();
                    },
                    None => {},
                }
                outcome
            },
        };
        let ghost after = resident@;
        self.residents.insert(i, resident);
        proof {
            assert(self@.seats =~= base.seats.update(i as int, after));
            assert(self@ == base.with_seat(i as int, after));
            assert(base.seats[i as int].me() == me);
        }
        let ghost effects = ctx.effects@;
        let ghost dead = ctx.dead_view();
        let ghost letters = ctx.dead_letters@;
        proof {
            assert(addressings(letters) == dead);
        }
        self.settle(&me, ctx, provider);
        proof {
            match before {
                Seat::Guardian(p) => {
                    let end = RunState {
                        mbox: after->Guardian_0.mbox,
                        cell: after->Guardian_0.cell,
                        occupied: after->Guardian_0.occupied,
                        effects,
                        dead,
                    };
                    assert(ran(p.at_start(), end, outcome));
                    assert(Seat::<A::Msg>::Guardian(parked(end)) == after);
                    assert(self@ == base.after_run(
                        i as int,
                        Seat::Guardian(parked(end)),
                        end.effects,
                        letters,
                    ));
                    assert(base.seats[i as int] == Seat::<A::Msg>::Guardian(p));
                    assert(provider@ == (ProviderView {
                        paths: released_all(old(provider)@.paths, end.effects),
                        ..old(provider)@
                    }));
                },
                Seat::User(p) => {
                    let end = RunState {
                        mbox: after->User_0.mbox,
                        cell: after->User_0.cell,
                        occupied: after->User_0.occupied,
                        effects,
                        dead,
                    };
                    assert(ran(p.at_start(), end, outcome));
                    assert(Seat::<A::Msg>::User(parked(end)) == after);
                    assert(self@ == base.after_run(
                        i as int,
                        Seat::User(parked(end)),
                        end.effects,
                        letters,
                    ));
                    assert(base.seats[i as int] == Seat::<A::Msg>::User(p));
                    assert(provider@ == (ProviderView {
                        paths: released_all(old(provider)@.paths, end.effects),
                        ..old(provider)@
                    }));
                },
            }
        }
        let r = Some(Ran { actor, outcome, requests });
        proof {
            assert(r.unwrap().outcome == outcome);
        }
        r
    }
}

} // verus!
