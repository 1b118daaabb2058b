use std::sync::{Arc, Mutex};

use actor_system::actor::{
    Actor, ActorUri, BasicActorRef, Context, Effect, Envelope, Outcome, Sender, Strategy,
    SystemCmd, SystemEvent, SystemMsg,
};
use actor_system::kernel::cell::{CellState, ExtendedCell};
use actor_system::kernel::mailbox::{
    end_run, handle_evt, handle_failed, handle_init, mailbox, process_msgs, process_sys_msgs,
    run_mailbox, sentinel_release, started, Mailbox, MailboxSchedule,
};
use actor_system::kernel::Dock;

#[derive(Debug, Clone, PartialEq)]
enum Note {
    Say(u32),
    Panic,
}

#[derive(Clone)]
struct Script {
    seen: Arc<Mutex<Vec<String>>>,
    strategy: Strategy,
    fail_pre_start: bool,
    fail_post_start: bool,
    fail_post_stop: bool,
    fail_sys_recv: bool,
}

impl Script {
    fn new() -> Script {
        Script {
            seen: Arc::new(Mutex::new(Vec::new())),
            strategy: Strategy::Restart,
            fail_pre_start: false,
            fail_post_start: false,
            fail_post_stop: false,
            fail_sys_recv: false,
        }
    }

    fn seen(&self) -> Vec<String> {
        self.seen.lock().unwrap().clone()
    }

    fn clear(&self) {
        self.seen.lock().unwrap().clear();
    }
}

struct Probe {
    script: Script,
}

impl Probe {
    fn note(&self, what: String) {
        self.script.seen.lock().unwrap().push(what);
    }

    fn ended(failed: bool) -> Outcome {
        if failed {
            Outcome::Panicked
        } else {
            Outcome::Completed
        }
    }
}

impl Actor for Probe {
    type Msg = Note;
    type Props = Script;

    fn create(props: &Script) -> Probe {
        props.seen.lock().unwrap().push("create".to_string());
        Probe { script: props.clone() }
    }

    fn pre_start(&mut self, _ctx: &Context) -> Outcome {
        self.note("pre_start".to_string());
        Probe::ended(self.script.fail_pre_start)
    }

    fn post_start(&mut self, _ctx: &Context) -> Outcome {
        self.note("post_start".to_string());
        Probe::ended(self.script.fail_post_start)
    }

    fn post_stop(&mut self) -> Outcome {
        self.note("post_stop".to_string());
        Probe::ended(self.script.fail_post_stop)
    }

    fn supervisor_strategy(&self) -> Strategy {
        self.script.strategy
    }

    fn sys_recv(&mut self, _ctx: &Context, msg: SystemMsg, _sender: Sender) -> Outcome {
        self.note(format!("sys {:?}", msg));
        Probe::ended(self.script.fail_sys_recv)
    }

    fn recv(&mut self, _ctx: &Context, msg: Note, _sender: Sender) -> Outcome {
        match msg {
            Note::Say(n) => {
                self.note(format!("say {}", n));
                Outcome::Completed
            }
            Note::Panic => {
                self.note("panic".to_string());
                Outcome::Panicked
            }
        }
    }
}

fn actor_ref(uid: u64, name: &str, path: &str) -> BasicActorRef {
    BasicActorRef::new(ActorUri {
        uid,
        name: name.to_string(),
        path: path.to_string(),
        host: "localhost".to_string(),
    })
}

fn parent() -> BasicActorRef {
    actor_ref(1, "user", "/user")
}

fn me() -> BasicActorRef {
    actor_ref(100, "a", "/user/a")
}

fn child(n: u32) -> BasicActorRef {
    actor_ref(200 + n as u64, &format!("c{}", n), &format!("/user/a/c{}", n))
}

struct Rig {
    script: Script,
    mbox: Mailbox<Note>,
    ctx: Context,
    dock: Dock<Probe>,
}

fn rig_with(script: Script, limit: u32) -> Rig {
    let dock = Dock::<Probe>::new(script.clone(), me().uri.clone(), Some(parent()));
    script.clear();
    Rig { script, mbox: mailbox(limit), ctx: Context::new(me(), Some(parent())), dock }
}

fn rig(limit: u32) -> Rig {
    rig_with(Script::new(), limit)
}

fn say(rig: &mut Rig, n: u32) {
    rig.mbox.try_enqueue(Envelope { msg: Note::Say(n), sender: None }).unwrap();
}

fn sys(rig: &mut Rig, msg: SystemMsg) {
    rig.mbox.sys_try_enqueue(Envelope { msg, sender: None }).unwrap();
}

fn run(rig: &mut Rig) -> Outcome {
    run_mailbox(&mut rig.mbox, &mut rig.ctx, &mut rig.dock)
}

fn stop_order(to: BasicActorRef) -> Effect {
    Effect::SysTell { to, msg: SystemMsg::Command(SystemCmd::Stop) }
}

fn terminated(actor: BasicActorRef) -> SystemEvent {
    SystemEvent::ActorTerminated { actor }
}

#[test]
fn dock_new_builds_the_first_instance() {
    let script = Script::new();
    let dock = Dock::<Probe>::new(script.clone(), me().uri.clone(), Some(parent()));
    assert!(dock.actor.is_some());
    assert_eq!(script.seen(), vec!["create"]);
    assert_eq!(dock.cell.myself(), me());
    assert_eq!(dock.cell.parent(), &Some(parent()));
    assert_eq!(dock.cell.restart_count(), 0);
    assert_eq!(dock.cell.state(), CellState::Alive);
    assert_eq!(dock.cell.strategy(), Strategy::Restart);
    assert!(!dock.cell.has_children());
    assert!(dock.cell.is_user());
    assert!(!dock.cell.is_root());
}

#[test]
fn no_user_message_before_the_initialisation() {
    let mut r = rig(10);
    say(&mut r, 1);
    say(&mut r, 2);
    assert_eq!(run(&mut r), Outcome::Completed);
    assert!(r.script.seen().is_empty());
    assert!(r.mbox.is_suspended());
    assert!(r.mbox.has_msgs());
}

#[test]
fn init_comes_before_the_user_messages() {
    let mut r = rig(10);
    say(&mut r, 1);
    say(&mut r, 2);
    sys(&mut r, SystemMsg::ActorInit);
    assert_eq!(run(&mut r), Outcome::Completed);
    assert_eq!(r.script.seen(), vec!["sys ActorInit", "pre_start", "post_start", "say 1", "say 2"]);
    assert!(!r.mbox.is_suspended());
    assert!(!r.mbox.is_scheduled());
    assert!(!r.mbox.has_msgs());
    assert_eq!(
        r.ctx.effects,
        vec![Effect::Publish { event: SystemEvent::ActorCreated { actor: me() } }]
    );
    assert!(r.dock.actor.is_some());
}

#[test]
fn creation_of_a_guardian_is_not_published() {
    let script = Script::new();
    let uri = actor_ref(1, "user", "/user").uri;
    let mut dock = Dock::<Probe>::new(script.clone(), uri, None);
    let mut mbox: Mailbox<Note> = mailbox(10);
    let mut ctx = Context::new(actor_ref(1, "user", "/user"), None);
    mbox.sys_try_enqueue(Envelope { msg: SystemMsg::ActorInit, sender: None }).unwrap();
    assert_eq!(run_mailbox(&mut mbox, &mut ctx, &mut dock), Outcome::Completed);
    assert!(ctx.effects.is_empty());
    assert!(!mbox.is_suspended());
}

#[test]
fn messages_are_delivered_in_the_order_of_the_queue() {
    let mut r = rig(100);
    r.mbox.set_suspended(false);
    for n in 0..20 {
        say(&mut r, n);
    }
    assert_eq!(run(&mut r), Outcome::Completed);
    let expected: Vec<String> = (0..20).map(|n| format!("say {}", n)).collect();
    assert_eq!(r.script.seen(), expected);
}

#[test]
fn a_run_task_stops_at_the_quota() {
    let mut r = rig(3);
    r.mbox.set_suspended(false);
    r.mbox.set_scheduled(true);
    for n in 1..=5 {
        say(&mut r, n);
    }
    assert_eq!(run(&mut r), Outcome::Completed);
    assert_eq!(r.script.seen(), vec!["say 1", "say 2", "say 3"]);
    assert!(r.mbox.has_msgs());
    assert!(!r.mbox.is_scheduled());
    assert_eq!(r.ctx.effects, vec![Effect::Schedule]);
    r.script.clear();
    assert_eq!(run(&mut r), Outcome::Completed);
    assert_eq!(r.script.seen(), vec!["say 4", "say 5"]);
    assert!(!r.mbox.has_msgs());
    assert!(!r.mbox.is_scheduled());
    assert_eq!(r.ctx.effects, vec![Effect::Schedule]);
}

#[test]
fn a_quota_of_zero_delivers_nothing() {
    let mut r = rig(0);
    r.mbox.set_suspended(false);
    say(&mut r, 1);
    assert_eq!(run(&mut r), Outcome::Completed);
    assert!(r.script.seen().is_empty());
    assert!(!r.mbox.is_scheduled());
    assert_eq!(r.ctx.effects, vec![Effect::Schedule]);
}

#[test]
fn an_idle_run_task_lowers_the_flag() {
    let mut r = rig(10);
    r.mbox.set_scheduled(true);
    assert_eq!(run(&mut r), Outcome::Completed);
    assert!(!r.mbox.is_scheduled());
    assert!(r.ctx.effects.is_empty());
    assert!(r.dock.actor.is_some());
}

#[test]
fn system_messages_come_before_user_messages() {
    let mut r = rig(10);
    r.mbox.set_suspended(false);
    say(&mut r, 1);
    say(&mut r, 2);
    let created = SystemEvent::ActorCreated { actor: child(9) };
    sys(&mut r, SystemMsg::Event(created.clone()));
    sys(&mut r, SystemMsg::Event(SystemEvent::ActorRestarted { actor: child(9) }));
    assert_eq!(run(&mut r), Outcome::Completed);
    assert_eq!(
        r.script.seen(),
        vec![
            format!("sys {:?}", SystemMsg::Event(created)),
            format!(
                "sys {:?}",
                SystemMsg::Event(SystemEvent::ActorRestarted { actor: child(9) })
            ),
            "say 1".to_string(),
            "say 2".to_string(),
        ]
    );
}

#[test]
fn the_sentinel_cleans_up_after_a_panic() {
    let mut r = rig(10);
    r.mbox.set_suspended(false);
    r.mbox.set_scheduled(true);
    say(&mut r, 1);
    r.mbox.try_enqueue(Envelope { msg: Note::Panic, sender: None }).unwrap();
    say(&mut r, 2);
    assert_eq!(run(&mut r), Outcome::Panicked);
    assert_eq!(r.script.seen(), vec!["say 1", "panic"]);
    assert!(r.mbox.is_suspended());
    assert!(!r.mbox.is_scheduled());
    assert!(r.dock.actor.is_none());
    assert!(r.mbox.has_msgs());
    assert_eq!(
        r.ctx.effects,
        vec![Effect::SysTell { to: parent(), msg: SystemMsg::Failed(me()) }]
    );
}

#[test]
fn a_panic_in_pre_start_leaves_the_actor_uncreated() {
    let mut script = Script::new();
    script.fail_pre_start = true;
    let mut r = rig_with(script, 10);
    sys(&mut r, SystemMsg::ActorInit);
    say(&mut r, 1);
    assert_eq!(run(&mut r), Outcome::Panicked);
    assert_eq!(r.script.seen(), vec!["sys ActorInit", "pre_start"]);
    assert!(r.mbox.is_suspended());
    assert!(!r.mbox.is_scheduled());
    assert!(r.dock.actor.is_none());
    assert_eq!(
        r.ctx.effects,
        vec![Effect::SysTell { to: parent(), msg: SystemMsg::Failed(me()) }]
    );
}

#[test]
fn a_panic_at_the_sight_of_init_leaves_the_actor_uncreated() {
    let mut script = Script::new();
    script.fail_sys_recv = true;
    let mut r = rig_with(script, 10);
    sys(&mut r, SystemMsg::ActorInit);
    say(&mut r, 1);
    assert_eq!(run(&mut r), Outcome::Panicked);
    assert_eq!(r.script.seen(), vec!["sys ActorInit"]);
    assert!(r.mbox.is_suspended());
    assert!(r.mbox.has_msgs());
    assert!(r.dock.actor.is_none());
    assert_eq!(
        r.ctx.effects,
        vec![Effect::SysTell { to: parent(), msg: SystemMsg::Failed(me()) }]
    );
}

#[test]
fn a_panic_in_post_start_comes_after_the_publication() {
    let mut script = Script::new();
    script.fail_post_start = true;
    let mut r = rig_with(script, 10);
    sys(&mut r, SystemMsg::ActorInit);
    assert_eq!(run(&mut r), Outcome::Panicked);
    assert_eq!(
        r.ctx.effects,
        vec![
            Effect::Publish { event: SystemEvent::ActorCreated { actor: me() } },
            Effect::SysTell { to: parent(), msg: SystemMsg::Failed(me()) },
        ]
    );
    assert!(r.mbox.is_suspended());
}

#[test]
fn init_without_an_instance_fails() {
    let mut r = rig(10);
    r.dock.actor = None;
    sys(&mut r, SystemMsg::ActorInit);
    assert_eq!(run(&mut r), Outcome::Panicked);
    assert!(r.mbox.is_suspended());
    assert_eq!(
        r.ctx.effects,
        vec![Effect::SysTell { to: parent(), msg: SystemMsg::Failed(me()) }]
    );
}

#[test]
fn handle_init_alone() {
    let mut r = rig(10);
    let mut actor = r.dock.actor.take();
    assert_eq!(
        handle_init(&mut r.mbox, &mut r.ctx, &r.dock.cell, &mut actor),
        Outcome::Completed
    );
    assert!(!r.mbox.is_suspended());
    assert_eq!(r.script.seen(), vec!["sys ActorInit", "pre_start", "post_start"]);
    let mut none: Option<Probe> = None;
    assert_eq!(handle_init(&mut r.mbox, &mut r.ctx, &r.dock.cell, &mut none), Outcome::Panicked);
}

#[test]
fn a_stop_without_children_ends_at_once() {
    let mut r = rig(10);
    r.mbox.set_suspended(false);
    sys(&mut r, SystemMsg::Command(SystemCmd::Stop));
    r.mbox
        .try_enqueue(Envelope { msg: Note::Say(1), sender: Some(child(1)) })
        .unwrap();
    say(&mut r, 2);
    assert_eq!(run(&mut r), Outcome::Completed);
    assert_eq!(r.script.seen(), vec!["post_stop"]);
    assert_eq!(
        r.ctx.effects,
        vec![
            Effect::Publish { event: terminated(me()) },
            Effect::SysTell { to: parent(), msg: SystemMsg::Event(terminated(me())) },
            Effect::Unregister { path: "/user/a".to_string() },
        ]
    );
    assert_eq!(r.ctx.dead_letters.len(), 2);
    assert_eq!(r.ctx.dead_letters[0].msg, "Say(1)");
    assert_eq!(r.ctx.dead_letters[0].sender, Some(child(1)));
    assert_eq!(r.ctx.dead_letters[0].recipient, me());
    assert_eq!(r.ctx.dead_letters[1].msg, "Say(2)");
    assert!(r.mbox.is_closed());
    assert!(!r.mbox.has_msgs());
    assert!(!r.mbox.is_scheduled());
    assert!(r.dock.actor.is_none());
    assert_eq!(r.dock.cell.state(), CellState::Stopped);
}

#[test]
fn a_stop_with_children_waits_for_them() {
    let mut r = rig(10);
    r.mbox.set_suspended(false);
    r.dock.cell.add_child(child(1));
    r.dock.cell.add_child(child(2));
    sys(&mut r, SystemMsg::Command(SystemCmd::Stop));
    assert_eq!(run(&mut r), Outcome::Completed);
    assert_eq!(r.ctx.effects, vec![stop_order(child(1)), stop_order(child(2))]);
    assert_eq!(r.dock.cell.state(), CellState::Stopping);
    assert!(r.script.seen().is_empty());
    assert!(!r.mbox.is_closed());

    r.ctx = Context::new(me(), Some(parent()));
    sys(&mut r, SystemMsg::Event(terminated(child(2))));
    assert_eq!(run(&mut r), Outcome::Completed);
    assert_eq!(r.dock.cell.children(), &vec![child(1)]);
    assert_eq!(r.dock.cell.state(), CellState::Stopping);
    assert!(r.ctx.effects.is_empty());

    r.script.clear();
    sys(&mut r, SystemMsg::Event(terminated(child(1))));
    assert_eq!(run(&mut r), Outcome::Completed);
    assert_eq!(
        r.script.seen(),
        vec![format!("sys {:?}", SystemMsg::Event(terminated(child(1)))), "post_stop".to_string()]
    );
    assert_eq!(
        r.ctx.effects,
        vec![
            Effect::Publish { event: terminated(me()) },
            Effect::SysTell { to: parent(), msg: SystemMsg::Event(terminated(me())) },
            Effect::Unregister { path: "/user/a".to_string() },
        ]
    );
    assert_eq!(r.dock.cell.state(), CellState::Stopped);
    assert!(r.mbox.is_closed());
}

#[test]
fn a_panic_in_post_stop_does_not_keep_the_path() {
    let mut script = Script::new();
    script.fail_post_stop = true;
    let mut r = rig_with(script, 10);
    sys(&mut r, SystemMsg::Command(SystemCmd::Stop));
    assert_eq!(run(&mut r), Outcome::Panicked);
    assert_eq!(
        r.ctx.effects,
        vec![
            Effect::Publish { event: terminated(me()) },
            Effect::SysTell { to: parent(), msg: SystemMsg::Event(terminated(me())) },
            Effect::Unregister { path: "/user/a".to_string() },
            Effect::SysTell { to: parent(), msg: SystemMsg::Failed(me()) },
        ]
    );
    assert_eq!(r.dock.cell.state(), CellState::Stopped);
    assert!(r.mbox.is_closed());
}

#[test]
fn a_stopped_actor_handles_nothing() {
    let mut r = rig(10);
    sys(&mut r, SystemMsg::Command(SystemCmd::Stop));
    sys(&mut r, SystemMsg::Command(SystemCmd::Restart));
    sys(&mut r, SystemMsg::ActorInit);
    sys(&mut r, SystemMsg::Failed(child(1)));
    assert_eq!(run(&mut r), Outcome::Completed);
    assert_eq!(r.script.seen(), vec!["post_stop"]);
    assert_eq!(r.ctx.effects.len(), 3);
    assert_eq!(r.dock.cell.state(), CellState::Stopped);
    assert_eq!(r.dock.cell.restart_count(), 0);
}

#[test]
fn a_restart_keeps_the_identity_and_counts() {
    let mut r = rig(10);
    r.mbox.set_suspended(false);
    let before = r.dock.cell.myself();
    sys(&mut r, SystemMsg::Command(SystemCmd::Restart));
    say(&mut r, 1);
    assert_eq!(run(&mut r), Outcome::Completed);
    assert_eq!(r.script.seen(), vec!["post_stop", "create", "pre_start", "say 1"]);
    assert_eq!(
        r.ctx.effects,
        vec![Effect::Publish { event: SystemEvent::ActorRestarted { actor: me() } }]
    );
    assert_eq!(r.dock.cell.restart_count(), 1);
    assert_eq!(r.dock.cell.myself(), before);
    assert_eq!(r.dock.cell.state(), CellState::Alive);
    assert!(!r.mbox.is_suspended());
    sys(&mut r, SystemMsg::Command(SystemCmd::Restart));
    assert_eq!(run(&mut r), Outcome::Completed);
    assert_eq!(r.dock.cell.restart_count(), 2);
    assert_eq!(r.dock.cell.myself(), before);
}

#[test]
fn a_restart_refills_an_empty_slot() {
    let mut r = rig(10);
    r.dock.actor = None;
    sys(&mut r, SystemMsg::Command(SystemCmd::Restart));
    assert_eq!(run(&mut r), Outcome::Completed);
    assert_eq!(r.script.seen(), vec!["create", "pre_start"]);
    assert!(r.dock.actor.is_some());
    assert!(!r.mbox.is_suspended());
}

#[test]
fn a_restart_with_children_stops_them_first() {
    let mut r = rig(10);
    r.mbox.set_suspended(false);
    r.dock.cell.add_child(child(1));
    sys(&mut r, SystemMsg::Command(SystemCmd::Restart));
    say(&mut r, 1);
    assert_eq!(run(&mut r), Outcome::Completed);
    assert_eq!(r.ctx.effects, vec![stop_order(child(1)), Effect::Schedule]);
    assert_eq!(r.dock.cell.state(), CellState::Restarting);
    assert!(r.mbox.is_suspended());
    assert!(r.script.seen().is_empty());
    assert_eq!(r.dock.cell.restart_count(), 0);

    r.ctx = Context::new(me(), Some(parent()));
    sys(&mut r, SystemMsg::Event(terminated(child(1))));
    assert_eq!(run(&mut r), Outcome::Completed);
    assert_eq!(
        r.script.seen(),
        vec![
            format!("sys {:?}", SystemMsg::Event(terminated(child(1)))),
            "post_stop".to_string(),
            "create".to_string(),
            "pre_start".to_string(),
            "say 1".to_string(),
        ]
    );
    assert_eq!(r.dock.cell.restart_count(), 1);
    assert_eq!(r.dock.cell.state(), CellState::Alive);
    assert!(!r.dock.cell.has_children());
}

#[test]
fn a_stopping_actor_ignores_a_restart() {
    let mut r = rig(10);
    r.dock.cell.add_child(child(1));
    sys(&mut r, SystemMsg::Command(SystemCmd::Stop));
    sys(&mut r, SystemMsg::Command(SystemCmd::Restart));
    assert_eq!(run(&mut r), Outcome::Completed);
    assert_eq!(r.dock.cell.state(), CellState::Stopping);
    assert_eq!(r.ctx.effects, vec![stop_order(child(1))]);
}

#[test]
fn the_termination_of_a_stranger_changes_nothing() {
    let mut r = rig(10);
    r.dock.cell.add_child(child(1));
    sys(&mut r, SystemMsg::Event(terminated(child(7))));
    assert_eq!(run(&mut r), Outcome::Completed);
    assert_eq!(r.dock.cell.children(), &vec![child(1)]);
    assert!(r.ctx.effects.is_empty());
}

#[test]
fn a_panic_in_sys_recv_is_a_failure() {
    let mut script = Script::new();
    script.fail_sys_recv = true;
    let mut r = rig_with(script, 10);
    r.dock.cell.add_child(child(1));
    sys(&mut r, SystemMsg::Event(terminated(child(1))));
    assert_eq!(run(&mut r), Outcome::Panicked);
    assert_eq!(r.dock.cell.children(), &vec![child(1)]);
    assert!(r.dock.actor.is_none());
}

fn failure_effects(strategy: Strategy) -> Vec<Effect> {
    let mut script = Script::new();
    script.strategy = strategy;
    let mut r = rig_with(script, 10);
    sys(&mut r, SystemMsg::Failed(child(1)));
    assert_eq!(run(&mut r), Outcome::Completed);
    r.ctx.effects
}

#[test]
fn a_failure_is_answered_by_the_strategy() {
    assert_eq!(
        failure_effects(Strategy::Restart),
        vec![Effect::SysTell { to: child(1), msg: SystemMsg::Command(SystemCmd::Restart) }]
    );
    assert_eq!(failure_effects(Strategy::Stop), vec![stop_order(child(1))]);
    assert_eq!(failure_effects(Strategy::Resume), vec![Effect::Resume { child: child(1) }]);
    assert_eq!(
        failure_effects(Strategy::Escalate),
        vec![Effect::SysTell { to: parent(), msg: SystemMsg::Failed(me()) }]
    );
}

#[test]
fn an_escalation_at_the_root_ends() {
    let root = actor_ref(0, "root", "/");
    let cell: ExtendedCell<Note> =
        ExtendedCell::new(root.uri.clone(), Some(root.clone()), Strategy::Escalate);
    let mut ctx = Context::new(root.clone(), Some(root));
    handle_failed(child(1), &cell, &mut ctx);
    assert!(ctx.effects.is_empty());
}

#[test]
fn an_escalation_without_a_parent_ends() {
    let cell: ExtendedCell<Note> = ExtendedCell::new(me().uri, None, Strategy::Escalate);
    let mut ctx = Context::new(me(), Some(parent()));
    handle_failed(child(1), &cell, &mut ctx);
    assert!(ctx.effects.is_empty());
}

#[test]
fn handle_evt_alone() {
    let mut r = rig(10);
    r.dock.cell.add_child(child(1));
    let mut actor = r.dock.actor.take();
    let out = handle_evt(
        terminated(child(1)),
        &mut r.mbox,
        &mut r.ctx,
        &mut r.dock.cell,
        &mut actor,
        &r.dock.props,
    );
    assert_eq!(out, Outcome::Completed);
    assert!(!r.dock.cell.has_children());
    assert_eq!(r.dock.cell.state(), CellState::Alive);
}

#[test]
fn process_sys_msgs_leaves_the_system_queue_empty() {
    let mut r = rig(10);
    sys(&mut r, SystemMsg::Failed(child(1)));
    sys(&mut r, SystemMsg::Failed(child(2)));
    let mut actor = r.dock.actor.take();
    let out = process_sys_msgs(
        &mut r.mbox,
        &mut r.ctx,
        &mut r.dock.cell,
        &mut actor,
        &r.dock.props,
    );
    assert_eq!(out, Outcome::Completed);
    assert!(!r.mbox.has_sys_msgs());
    assert_eq!(r.ctx.effects.len(), 2);
}

#[test]
fn process_msgs_drains_the_system_queue_after_each_message() {
    let mut r = rig(10);
    r.mbox.set_suspended(false);
    say(&mut r, 1);
    say(&mut r, 2);
    sys(&mut r, SystemMsg::Command(SystemCmd::Stop));
    let mut actor = r.dock.actor.take();
    let out = process_msgs(
        &mut r.mbox,
        &mut r.ctx,
        &mut r.dock.cell,
        &mut actor,
        &r.dock.props,
    );
    assert_eq!(out, Outcome::Completed);
    assert_eq!(r.script.seen(), vec!["say 1", "post_stop"]);
    assert_eq!(r.ctx.dead_letters.len(), 1);
    assert_eq!(r.ctx.dead_letters[0].msg, "Say(2)");
    assert!(actor.is_none());
}

#[test]
fn process_msgs_stops_when_the_mailbox_is_suspended() {
    let mut r = rig(10);
    r.mbox.set_suspended(false);
    r.dock.cell.add_child(child(1));
    say(&mut r, 1);
    say(&mut r, 2);
    sys(&mut r, SystemMsg::Command(SystemCmd::Restart));
    let mut actor = r.dock.actor.take();
    let out = process_msgs(
        &mut r.mbox,
        &mut r.ctx,
        &mut r.dock.cell,
        &mut actor,
        &r.dock.props,
    );
    assert_eq!(out, Outcome::Completed);
    assert_eq!(r.script.seen(), vec!["say 1"]);
    assert!(r.mbox.is_suspended());
    assert!(r.mbox.has_msgs());
}

#[test]
fn sentinel_release_alone() {
    let mut r = rig(10);
    r.mbox.set_suspended(false);
    r.mbox.set_scheduled(true);
    sentinel_release(&mut r.mbox, &mut r.ctx, &r.dock.cell);
    assert!(r.mbox.is_suspended());
    assert!(!r.mbox.is_scheduled());
    assert_eq!(
        r.ctx.effects,
        vec![Effect::SysTell { to: parent(), msg: SystemMsg::Failed(me()) }]
    );
}

#[test]
fn end_run_puts_the_instance_back_or_gives_it_up() {
    let mut r = rig(10);
    let actor = r.dock.actor.take();
    r.mbox.set_scheduled(true);
    say(&mut r, 1);
    end_run(Outcome::Completed, actor, &mut r.mbox, &mut r.ctx, &mut r.dock);
    assert!(r.dock.actor.is_some());
    assert!(!r.mbox.is_scheduled());
    assert_eq!(r.ctx.effects, vec![Effect::Schedule]);

    let actor = r.dock.actor.take();
    r.ctx = Context::new(me(), Some(parent()));
    r.mbox.set_suspended(false);
    end_run(Outcome::Panicked, actor, &mut r.mbox, &mut r.ctx, &mut r.dock);
    assert!(r.dock.actor.is_none());
    assert!(r.mbox.is_suspended());
    assert!(!r.mbox.is_scheduled());
    assert_eq!(
        r.ctx.effects,
        vec![Effect::SysTell { to: parent(), msg: SystemMsg::Failed(me()) }]
    );
}

#[test]
fn cell_children_are_a_set_in_insertion_order() {
    let mut cell: ExtendedCell<Note> = ExtendedCell::new(me().uri, None, Strategy::Restart);
    cell.add_child(child(1));
    cell.add_child(child(2));
    cell.add_child(child(1));
    cell.add_child(child(3));
    assert_eq!(cell.children(), &vec![child(1), child(2), child(3)]);
    assert!(cell.is_child(&child(2)));
    assert!(!cell.is_child(&child(4)));
    cell.remove_child(&child(2));
    assert_eq!(cell.children(), &vec![child(1), child(3)]);
    cell.remove_child(&child(9));
    assert_eq!(cell.children(), &vec![child(1), child(3)]);
    assert!(cell.has_children());
}

struct Plain;

impl Actor for Plain {
    type Msg = u8;
    type Props = ();

    fn create(_props: &()) -> Plain {
        Plain
    }

    fn recv(&mut self, _ctx: &Context, _msg: u8, _sender: Sender) -> Outcome {
        Outcome::Completed
    }
}

#[test]
fn the_defaults_of_an_actor_do_nothing() {
    let ctx = Context::new(me(), Some(parent()));
    let mut plain = Plain::create(&());
    assert_eq!(plain.pre_start(&ctx), Outcome::Completed);
    assert_eq!(plain.post_start(&ctx), Outcome::Completed);
    assert_eq!(plain.post_stop(), Outcome::Completed);
    assert_eq!(plain.supervisor_strategy(), Strategy::Restart);
    assert_eq!(plain.sys_recv(&ctx, SystemMsg::ActorInit, None), Outcome::Completed);
    assert!(plain.requests().is_empty());
}

#[test]
fn a_dock_keeps_the_default_strategy() {
    let dock = Dock::<Plain>::new((), me().uri, None);
    assert_eq!(dock.cell.strategy(), Strategy::Restart);
    let mut script = Script::new();
    script.strategy = Strategy::Escalate;
    let dock = Dock::<Probe>::new(script, me().uri, None);
    assert_eq!(dock.cell.strategy(), Strategy::Escalate);
}

#[test]
fn started_goes_on_only_after_a_completed_pre_start() {
    let mut r = rig(10);
    assert_eq!(
        started(Outcome::Panicked, &mut r.mbox, &mut r.ctx, &r.dock.cell),
        Outcome::Panicked
    );
    assert!(r.mbox.is_suspended());
    assert!(r.ctx.effects.is_empty());
    assert_eq!(
        started(Outcome::Completed, &mut r.mbox, &mut r.ctx, &r.dock.cell),
        Outcome::Completed
    );
    assert!(!r.mbox.is_suspended());
    assert_eq!(
        r.ctx.effects,
        vec![Effect::Publish { event: SystemEvent::ActorCreated { actor: me() } }]
    );
}

#[test]
fn restarted_counts_only_a_completed_restart() {
    let mut r = rig(10);
    assert_eq!(r.dock.cell.restarted(Outcome::Panicked, &mut r.mbox, &mut r.ctx), Outcome::Panicked);
    assert_eq!(r.dock.cell.restart_count(), 0);
    assert!(r.mbox.is_suspended());
    assert!(r.ctx.effects.is_empty());
    assert_eq!(
        r.dock.cell.restarted(Outcome::Completed, &mut r.mbox, &mut r.ctx),
        Outcome::Completed
    );
    assert_eq!(r.dock.cell.restart_count(), 1);
    assert_eq!(r.dock.cell.state(), CellState::Alive);
    assert!(!r.mbox.is_suspended());
    assert_eq!(
        r.ctx.effects,
        vec![Effect::Publish { event: SystemEvent::ActorRestarted { actor: me() } }]
    );
}

#[test]
fn a_restart_leaves_an_instance_in_the_slot_also_when_cut_short() {
    let mut script = Script::new();
    script.fail_pre_start = true;
    let mut r = rig_with(script, 10);
    let mut actor: Option<Probe> = None;
    let out = r.dock.cell.revive(&mut actor, &mut r.mbox, &mut r.ctx, &r.dock.props);
    assert_eq!(out, Outcome::Panicked);
    assert!(actor.is_some());
    assert_eq!(r.dock.cell.restart_count(), 0);
    assert!(r.ctx.effects.is_empty());

    let mut script = Script::new();
    script.fail_post_stop = true;
    let mut r = rig_with(script, 10);
    let mut actor = r.dock.actor.take();
    let out = r.dock.cell.revive(&mut actor, &mut r.mbox, &mut r.ctx, &r.dock.props);
    assert_eq!(out, Outcome::Panicked);
    assert!(actor.is_some());
    assert_eq!(r.script.seen(), vec!["post_stop"]);
}

#[test]
fn a_cut_short_recv_leaves_the_rest_queued() {
    let mut r = rig(10);
    r.mbox.set_suspended(false);
    r.mbox.set_scheduled(true);
    r.mbox.try_enqueue(Envelope { msg: Note::Panic, sender: None }).unwrap();
    say(&mut r, 2);
    say(&mut r, 3);
    assert_eq!(run(&mut r), Outcome::Panicked);
    assert_eq!(r.script.seen(), vec!["panic"]);
    assert!(r.mbox.is_suspended());
    assert!(!r.mbox.is_scheduled());
    assert!(!r.mbox.is_closed());
    assert!(r.dock.actor.is_none());
    assert!(r.ctx.dead_letters.is_empty());
    assert!(!r.ctx.effects.contains(&Effect::Schedule));
    assert_eq!(
        r.ctx.effects,
        vec![Effect::SysTell { to: parent(), msg: SystemMsg::Failed(me()) }]
    );
    assert_eq!(r.mbox.try_dequeue().map(|e| e.msg), Ok(Note::Say(2)));
    assert_eq!(r.mbox.try_dequeue().map(|e| e.msg), Ok(Note::Say(3)));
    assert!(!r.mbox.has_msgs());
}

#[test]
fn a_drain_that_calls_nobody_completes() {
    let mut script = Script::new();
    script.fail_sys_recv = true;
    script.fail_post_stop = true;
    script.fail_pre_start = true;
    let mut r = rig_with(script, 10);
    r.dock.cell.add_child(child(1));
    r.dock.cell.add_child(child(2));
    sys(&mut r, SystemMsg::Failed(child(1)));
    sys(&mut r, SystemMsg::Command(SystemCmd::Restart));
    sys(&mut r, SystemMsg::Command(SystemCmd::Stop));
    sys(&mut r, SystemMsg::Command(SystemCmd::Restart));
    assert_eq!(run(&mut r), Outcome::Completed);
    assert!(r.script.seen().is_empty());
    assert_eq!(r.dock.cell.state(), CellState::Stopping);
    assert_eq!(
        r.ctx.effects,
        vec![
            Effect::SysTell { to: child(1), msg: SystemMsg::Command(SystemCmd::Restart) },
            stop_order(child(1)),
            stop_order(child(2)),
            stop_order(child(1)),
            stop_order(child(2)),
        ]
    );
}

#[test]
fn an_empty_slot_is_shown_no_event_and_stops_without_a_callback() {
    let mut r = rig(10);
    r.dock.actor = None;
    r.dock.cell.add_child(child(1));
    sys(&mut r, SystemMsg::Event(SystemEvent::ActorCreated { actor: child(7) }));
    sys(&mut r, SystemMsg::Command(SystemCmd::Stop));
    sys(&mut r, SystemMsg::Event(terminated(child(1))));
    say(&mut r, 1);
    assert_eq!(run(&mut r), Outcome::Completed);
    assert!(r.script.seen().is_empty());
    assert_eq!(r.dock.cell.state(), CellState::Stopped);
    assert!(r.mbox.is_closed());
    assert!(!r.mbox.has_msgs());
    assert_eq!(r.ctx.dead_letters.len(), 1);
    assert_eq!(r.ctx.dead_letters[0].recipient, me());
}

#[test]
fn the_last_child_of_a_restart_at_an_empty_slot_brings_a_new_instance() {
    let mut r = rig(10);
    r.dock.actor = None;
    r.dock.cell.add_child(child(1));
    sys(&mut r, SystemMsg::Command(SystemCmd::Restart));
    assert_eq!(run(&mut r), Outcome::Completed);
    assert!(r.script.seen().is_empty());
    sys(&mut r, SystemMsg::Event(terminated(child(1))));
    assert_eq!(run(&mut r), Outcome::Completed);
    assert_eq!(r.script.seen(), vec!["create", "pre_start"]);
    assert!(r.dock.actor.is_some());
    assert_eq!(r.dock.cell.restart_count(), 1);
    assert!(!r.mbox.is_suspended());
}

#[test]
fn three_restarts_count_three() {
    let mut r = rig(10);
    r.mbox.set_suspended(false);
    let before = r.dock.cell.myself();
    sys(&mut r, SystemMsg::Command(SystemCmd::Restart));
    sys(&mut r, SystemMsg::Command(SystemCmd::Restart));
    sys(&mut r, SystemMsg::Command(SystemCmd::Restart));
    say(&mut r, 1);
    assert_eq!(run(&mut r), Outcome::Completed);
    assert_eq!(r.dock.cell.restart_count(), 3);
    assert_eq!(r.dock.cell.myself(), before);
    assert_eq!(r.dock.cell.state(), CellState::Alive);
    assert!(!r.mbox.is_suspended());
    assert_eq!(r.ctx.effects.len(), 3);
    for effect in r.ctx.effects.iter() {
        assert_eq!(
            effect,
            &Effect::Publish { event: SystemEvent::ActorRestarted { actor: me() } }
        );
    }
    assert_eq!(
        r.script.seen(),
        vec![
            "post_stop", "create", "pre_start", "post_stop", "create", "pre_start", "post_stop",
            "create", "pre_start", "say 1"
        ]
    );
}
