//! The vocabulary of the runtime: actor addresses, envelopes, system
//! messages, the outcome of a callback, and the behaviour that an actor
//! implementer plugs in.
//!
//! An actor never touches the runtime's state. A run-task hands it one
//! message at a time together with a read-only [`Context`]. What the
//! runtime decides to send leaves a run-task as a list of [`Effect`]s, and
//! what the actor wants sent as a list of [`Request`]s; the system carries
//! both out once the run-task has ended.

use std::fmt::Debug;
use vstd::prelude::*;

verus! {

/// Identifier of an actor: 0 for the root, 1 to 3 for the guardians, 100 and
/// above for user actors.
pub type ActorId = u64;

/// The first identifier handed to a user actor.
pub const FIRST_USER_ID: ActorId = 100;

/// The address of an actor. It is fixed when the actor is spawned and stays
/// the same across restarts.
#[derive(Debug, PartialEq, Eq)]
pub struct ActorUri {
    pub uid: ActorId,
    pub name: String,
    pub path: String,
    pub host: String,
}

impl Clone for ActorUri {
    fn clone(&self) -> (r: Self)
        ensures
            r == *self,
    {
        ActorUri {
            uid: self.uid,
            name: self.name.clone(),
            path: self.path.clone(),
            host: self.host.clone(),
        }
    }
}

/// A cheap handle that addresses an actor. Two handles address the same actor
/// when their paths are equal.
#[derive(Debug, PartialEq, Eq)]
pub struct BasicActorRef {
    pub uri: ActorUri,
}

impl Clone for BasicActorRef {
    fn clone(&self) -> (r: Self)
        ensures
            r == *self,
    {
        BasicActorRef { uri: self.uri.clone() }
    }
}

impl BasicActorRef {
    pub fn new(uri: ActorUri) -> (r: Self)
        ensures
            r.uri == uri,
    {
        BasicActorRef { uri }
    }

    /// The path as a sequence of characters.
    pub open spec fn path_view(&self) -> Seq<char> {
        self.uri.path@
    }

    /// Whether both handles address the same actor.
    pub open spec fn same_as(&self, other: &BasicActorRef) -> bool {
        self.uri.path@ == other.uri.path@
    }

    pub fn uid(&self) -> (r: ActorId)
        ensures
            r == self.uri.uid,
    {
        self.uri.uid
    }

    pub fn path(&self) -> (r: &String)
        ensures
            r == &self.uri.path,
    {
        &self.uri.path
    }

    pub fn name(&self) -> (r: &String)
        ensures
            r == &self.uri.name,
    {
        &self.uri.name
    }

    pub fn is_root(&self) -> (r: bool)
        ensures
            r == (self.uri.uid == 0),
    {
        self.uri.uid == 0
    }

    /// Compares two handles by path.
    pub fn is_same(&self, other: &BasicActorRef) -> (r: bool)
        ensures
            r == self.same_as(other),
    {
        self.uri.path == other.uri.path
    }
}

/// Who sent a message, if the sender said so.
pub type Sender = Option<BasicActorRef>;

/// A message in a queue, with its sender.
#[derive(Debug, PartialEq, Eq)]
pub struct Envelope<Msg> {
    pub msg: Msg,
    pub sender: Sender,
}

/// A control command to an actor.
#[derive(Clone, Copy, Debug, PartialEq, Eq, Structural)]
pub enum SystemCmd {
    Stop,
    Restart,
}

/// What the event bus carries: the lifecycle events, each with the actor it
/// is about, and the dead letters.
#[derive(Debug, PartialEq, Eq)]
pub enum SystemEvent {
    ActorCreated { actor: BasicActorRef },
    ActorRestarted { actor: BasicActorRef },
    ActorTerminated { actor: BasicActorRef },
    /// A message reached no live recipient. This is no lifecycle event: it
    /// goes to the subscribers of the topic of dead letters only.
    DeadLetter { letter: DeadLetter },
}

impl Clone for SystemEvent {
    fn clone(&self) -> (r: Self)
        ensures
            r == *self,
    {
        match self {
            SystemEvent::ActorCreated { actor } => SystemEvent::ActorCreated {
                actor: actor.clone(),
            },
            SystemEvent::ActorRestarted { actor } => SystemEvent::ActorRestarted {
                actor: actor.clone(),
            },
            SystemEvent::ActorTerminated { actor } => SystemEvent::ActorTerminated {
                actor: actor.clone(),
            },
            SystemEvent::DeadLetter { letter } => SystemEvent::DeadLetter {
                letter: letter.clone(),
            },
        }
    }
}

impl SystemEvent {
    /// The actor that the event is about; of a dead letter, the actor that
    /// the message was for.
    pub open spec fn subject(&self) -> BasicActorRef {
        match *self {
            SystemEvent::ActorCreated { actor } => actor,
            SystemEvent::ActorRestarted { actor } => actor,
            SystemEvent::ActorTerminated { actor } => actor,
            SystemEvent::DeadLetter { letter } => letter.recipient,
        }
    }

    pub fn actor(&self) -> (r: &BasicActorRef)
        ensures
            *r == self.subject(),
    {
        match self {
            SystemEvent::ActorCreated { actor } => actor,
            SystemEvent::ActorRestarted { actor } => actor,
            SystemEvent::ActorTerminated { actor } => actor,
            SystemEvent::DeadLetter { letter } => &letter.recipient,
        }
    }
}

/// A message on the system channel of a mailbox.
#[derive(Debug, PartialEq, Eq)]
pub enum SystemMsg {
    ActorInit,
    Command(SystemCmd),
    Event(SystemEvent),
    Failed(BasicActorRef),
}

impl Clone for SystemMsg {
    fn clone(&self) -> (r: Self)
        ensures
            r == *self,
    {
        match self {
            SystemMsg::ActorInit => SystemMsg::ActorInit,
            SystemMsg::Command(cmd) => SystemMsg::Command(*cmd),
            SystemMsg::Event(evt) => SystemMsg::Event(evt.clone()),
            SystemMsg::Failed(actor) => SystemMsg::Failed(actor.clone()),
        }
    }
}

/// What a parent does about a child that failed.
#[derive(Clone, Copy, Debug, PartialEq, Eq, Structural)]
pub enum Strategy {
    Stop,
    Restart,
    Resume,
    Escalate,
}

/// How a callback of an actor ended. `Panicked` stands for a callback that
/// was cut short: the host's catching boundary reports it in this form, and
/// the run-task then ends with the sentinel's cleanup.
#[derive(Clone, Copy, Debug, PartialEq, Eq, Structural)]
pub enum Outcome {
    Completed,
    Panicked,
}

/// A message that reached no live recipient.
#[derive(Debug, PartialEq, Eq)]
pub struct DeadLetter {
    pub msg: String,
    pub sender: Sender,
    pub recipient: BasicActorRef,
}

impl Clone for DeadLetter {
    fn clone(&self) -> (r: Self)
        ensures
            r == *self,
    {
        DeadLetter {
            msg: self.msg.clone(),
            sender: match &self.sender {
                Some(s) => Some(s.clone()),
                None => None,
            },
            recipient: self.recipient.clone(),
        }
    }
}

/// The topic under which dead letters are published.
pub const DEAD_LETTER_TOPIC: &'static str = "dead_letter";

/// Something a run-task has decided and the system carries out once the
/// run-task has ended.
#[derive(Debug, PartialEq, Eq)]
pub enum Effect {
    /// Put `msg` on the system queue of `to` and ask for a run-task for it.
    SysTell { to: BasicActorRef, msg: SystemMsg },
    /// Publish a lifecycle event on the event bus.
    Publish { event: SystemEvent },
    /// Lift the suspension of the mailbox of `child` and ask for a run-task
    /// for it.
    Resume { child: BasicActorRef },
    /// Remove `path` from the registry of live paths.
    Unregister { path: String },
    /// Submit one more run-task for the actor that produced the effect,
    /// unless one is scheduled by then.
    Schedule,
}

/// What a run-task knows of its surroundings: the actor it runs and its
/// parent, and the effects and dead letters it has produced so far.
pub struct Context {
    pub myself: BasicActorRef,
    pub parent: Option<BasicActorRef>,
    pub effects: Vec<Effect>,
    pub dead_letters: Vec<DeadLetter>,
}

/// The part of a dead letter that the runtime decides: who sent the message
/// and whom it was for. The text is the message's own `Debug` rendering.
pub open spec fn addressing(d: DeadLetter) -> (Sender, BasicActorRef) {
    (d.sender, d.recipient)
}

impl Context {
    pub fn new(myself: BasicActorRef, parent: Option<BasicActorRef>) -> (r: Self)
        ensures
            r.myself == myself,
            r.parent == parent,
            r.effects@ == Seq::<Effect>::empty(),
            r.dead_letters@ == Seq::<DeadLetter>::empty(),
    {
        Context { myself, parent, effects: Vec::new(), dead_letters: Vec::new() }
    }

    pub fn parent(&self) -> (r: &Option<BasicActorRef>)
        ensures
            *r == self.parent,
    {
        &self.parent
    }

    pub fn myself(&self) -> (r: BasicActorRef)
        ensures
            r == self.myself,
    {
        self.myself.clone()
    }

    /// Adds `effect` behind the effects emitted so far.
    pub fn emit(&mut self, effect: Effect)
        ensures
            final(self).myself == old(self).myself,
            final(self).parent == old(self).parent,
            final(self).effects@ == old(self).effects@.push(effect),
            final(self).dead_letters@ == old(self).dead_letters@,
    {
        self.effects.push(effect);
    }

    /// Adds `letter` behind the dead letters so far.
    pub fn bury(&mut self, letter: DeadLetter)
        ensures
            final(self).myself == old(self).myself,
            final(self).parent == old(self).parent,
            final(self).effects@ == old(self).effects@,
            final(self).dead_letters@ == old(self).dead_letters@.push(letter),
            final(self).dead_view() == old(self).dead_view().push(addressing(letter)),
    {
        self.dead_letters.push(letter);
        proof {
            assert(self.dead_view() =~= old(self).dead_view().push(addressing(letter)));
        }
    }

    /// Sender and recipient of each dead letter so far, oldest first.
    pub open spec fn dead_view(&self) -> Seq<(Sender, BasicActorRef)> {
        self.dead_letters@.map_values(|d: DeadLetter| addressing(d))
    }
}

/// What an actor asks of the system. An actor collects its requests while
/// it handles messages; the system takes them at the end of a run-task and
/// hands them to its host, which has them served one by one.
#[derive(Debug, PartialEq, Eq)]
pub enum Request<Msg, Props> {
    /// Send `msg` to `to`, with the asking actor as the sender.
    Tell { to: BasicActorRef, msg: Msg },
    /// Spawn a child of the asking actor named `name`, built from `props`.
    Spawn { name: String, props: Props },
    /// Ask `actor` to stop.
    Stop { actor: BasicActorRef },
    /// Let the asking actor have the events of `topic`.
    Subscribe { topic: String },
}

/// The behaviour of an actor. The runtime calls these methods from a
/// run-task, one at a time and never two at once for the same actor.
///
/// Each callback reports how it ended. The runtime promises nothing about
/// what a callback does to the actor's own state, and a callback cannot
/// reach the mailbox or the cell.
pub trait Actor: Sized {
    /// The messages this actor takes from its user queue.
    type Msg: Debug;

    /// What a fresh instance is built from, at spawn and at each restart.
    type Props;

    /// Builds a fresh instance.
    fn create(props: &Self::Props) -> Self;

    /// Called once the actor is initialised, before any user message. The
    /// default does nothing and completes.
    fn pre_start(&mut self, _ctx: &Context) -> (r: Outcome)
        default_ensures
            r == Outcome::Completed,
            *final(self) == *old(self),
    {
        Outcome::Completed
    }

    /// Called after the creation of the actor has been published. The
    /// default does nothing and completes.
    fn post_start(&mut self, _ctx: &Context) -> (r: Outcome)
        default_ensures
            r == Outcome::Completed,
            *final(self) == *old(self),
    {
        Outcome::Completed
    }

    /// Called when the instance is given up, at a stop or before a restart.
    /// The default does nothing and completes.
    fn post_stop(&mut self) -> (r: Outcome)
        default_ensures
            r == Outcome::Completed,
            *final(self) == *old(self),
    {
        Outcome::Completed
    }

    /// How this actor wants failures of its children handled. The default
    /// is to restart them.
    fn supervisor_strategy(&self) -> (r: Strategy)
        default_ensures
            r == Strategy::Restart,
    {
        Strategy::Restart
    }

    /// Called with `ActorInit` before `pre_start`, and with each lifecycle
    /// event and each dead letter that reaches the actor because it
    /// subscribed to their topic. The default ignores the message and
    /// completes.
    fn sys_recv(&mut self, _ctx: &Context, _msg: SystemMsg, _sender: Sender) -> (r: Outcome)
        default_ensures
            r == Outcome::Completed,
            *final(self) == *old(self),
    {
        Outcome::Completed
    }

    /// Called with each user message, in the order of the queue.
    fn recv(&mut self, ctx: &Context, msg: Self::Msg, sender: Sender) -> Outcome;

    /// Called at the end of a run-task for what the actor has asked of the
    /// system since the last call. An actor that asks for nothing keeps the
    /// default, which hands over no request and leaves the actor as it is.
    fn requests(&mut self) -> (r: Vec<Request<Self::Msg, Self::Props>>)
        default_ensures
            r@ == Seq::<Request<Self::Msg, Self::Props>>::empty(),
            *final(self) == *old(self),
    {
        Vec::new()
    }
}

} // verus!
