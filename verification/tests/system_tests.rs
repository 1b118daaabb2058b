use std::sync::{Arc, Mutex};

use actor_system::actor::{
    Actor, BasicActorRef, Context, DeadLetter, Outcome, Request, Sender, Strategy, SystemCmd,
    SystemEvent, SystemMsg, DEAD_LETTER_TOPIC,
};
use actor_system::kernel::cell::CellState;
use actor_system::kernel::mailbox::MailboxSchedule;
use actor_system::kernel::provider::{create_root, CreateError, Guardian, Provider, SysActors};
use actor_system::system::{topic, ActorSystem, Resident};

#[derive(Debug, Clone, PartialEq)]
enum Note {
    Say(u32),
    Panic,
    Forward(BasicActorRef, u32),
    Spawn(String),
    StopMe,
    Watch(String),
}

#[derive(Clone)]
struct Script {
    name: String,
    seen: Arc<Mutex<Vec<String>>>,
    strategy: Strategy,
}

fn script(name: &str, seen: &Arc<Mutex<Vec<String>>>) -> Script {
    Script { name: name.to_string(), seen: seen.clone(), strategy: Strategy::Restart }
}

struct Probe {
    script: Script,
    outbox: Vec<Request<Note, Script>>,
}

impl Probe {
    fn note(&self, what: String) {
        self.script.seen.lock().unwrap().push(format!("{}: {}", self.script.name, what));
    }
}

impl Actor for Probe {
    type Msg = Note;
    type Props = Script;

    fn create(props: &Script) -> Probe {
        Probe { script: props.clone(), outbox: Vec::new() }
    }

    fn requests(&mut self) -> Vec<Request<Note, Script>> {
        std::mem::take(&mut self.outbox)
    }

    fn pre_start(&mut self, _ctx: &Context) -> Outcome {
        self.note("pre_start".to_string());
        Outcome::Completed
    }

    fn post_stop(&mut self) -> Outcome {
        self.note("post_stop".to_string());
        Outcome::Completed
    }

    fn supervisor_strategy(&self) -> Strategy {
        self.script.strategy
    }

    fn sys_recv(&mut self, _ctx: &Context, msg: SystemMsg, _sender: Sender) -> Outcome {
        if let SystemMsg::Event(event) = msg {
            self.note(format!("{} {}", topic(&event), event.actor().path()));
        }
        Outcome::Completed
    }

    fn recv(&mut self, ctx: &Context, msg: Note, sender: Sender) -> Outcome {
        match msg {
            Note::Say(n) => {
                match sender {
                    Some(from) => self.note(format!("say {} from {}", n, from.path())),
                    None => self.note(format!("say {}", n)),
                }
                Outcome::Completed
            }
            Note::Panic => Outcome::Panicked,
            Note::Forward(to, n) => {
                self.outbox.push(Request::Tell { to, msg: Note::Say(n) });
                Outcome::Completed
            }
            Note::Spawn(name) => {
                let mut props = self.script.clone();
                props.name = name.clone();
                self.outbox.push(Request::Spawn { name, props });
                Outcome::Completed
            }
            Note::StopMe => {
                self.outbox.push(Request::Stop { actor: ctx.myself() });
                Outcome::Completed
            }
            Note::Watch(topic) => {
                self.outbox.push(Request::Subscribe { topic });
                Outcome::Completed
            }
        }
    }
}

struct World {
    sys: ActorSystem<Probe>,
    provider: Provider,
    actors: SysActors,
    seen: Arc<Mutex<Vec<String>>>,
}

fn world() -> World {
    let mut sys = ActorSystem::new("localhost", 1000);
    let actors = create_root(&mut sys);
    World { sys, provider: Provider::new(), actors, seen: Arc::new(Mutex::new(Vec::new())) }
}

impl World {
    fn spawn(&mut self, name: &str, parent: &BasicActorRef) -> Result<BasicActorRef, CreateError> {
        let props = script(name, &self.seen);
        self.provider.create_actor(props, name, parent, &mut self.sys)
    }

    fn spawn_with(
        &mut self,
        name: &str,
        parent: &BasicActorRef,
        strategy: Strategy,
    ) -> BasicActorRef {
        let mut props = script(name, &self.seen);
        props.strategy = strategy;
        self.provider.create_actor(props, name, parent, &mut self.sys).unwrap()
    }

    fn actor_of(&mut self, name: &str) -> Result<BasicActorRef, CreateError> {
        let user = self.actors.user.clone();
        self.spawn(name, &user)
    }

    fn settle(&mut self) -> Vec<Outcome> {
        let mut outcomes = Vec::new();
        let mut steps = 0;
        while let Some(ran) = self.sys.dispatch(&mut self.provider) {
            outcomes.push(ran.outcome);
            for request in ran.requests {
                let _ = self.sys.serve(&ran.actor, request, &mut self.provider);
            }
            steps += 1;
            assert!(steps < 10_000, "the system does not come to rest");
        }
        outcomes
    }

    fn step(&mut self) -> Option<Outcome> {
        self.sys.dispatch(&mut self.provider).map(|ran| ran.outcome)
    }

    fn seen(&self) -> Vec<String> {
        self.seen.lock().unwrap().clone()
    }

    fn resident(&self, actor: &BasicActorRef) -> &Resident<Probe> {
        let i = self.sys.find(actor.path()).expect("no such actor");
        self.sys.resident(i).expect("no such seat")
    }

    fn suspended(&self, actor: &BasicActorRef) -> bool {
        match self.resident(actor) {
            Resident::Guardian { mbox, .. } => mbox.is_suspended(),
            Resident::User { mbox, .. } => mbox.is_suspended(),
        }
    }

    fn scheduled(&self, actor: &BasicActorRef) -> bool {
        match self.resident(actor) {
            Resident::Guardian { mbox, .. } => mbox.is_scheduled(),
            Resident::User { mbox, .. } => mbox.is_scheduled(),
        }
    }

    fn children(&self, actor: &BasicActorRef) -> Vec<BasicActorRef> {
        match self.resident(actor) {
            Resident::Guardian { dock, .. } => dock.cell.children().clone(),
            Resident::User { dock, .. } => dock.cell.children().clone(),
        }
    }

    fn restart_count(&self, actor: &BasicActorRef) -> u64 {
        match self.resident(actor) {
            Resident::Guardian { dock, .. } => dock.cell.restart_count(),
            Resident::User { dock, .. } => dock.cell.restart_count(),
        }
    }

    fn occupied(&self, actor: &BasicActorRef) -> bool {
        match self.resident(actor) {
            Resident::Guardian { dock, .. } => dock.actor.is_some(),
            Resident::User { dock, .. } => dock.actor.is_some(),
        }
    }

    fn position(&self, event: &SystemEvent) -> usize {
        self.sys.events().iter().position(|e| e == event).expect("event was not published")
    }
}

fn created(actor: &BasicActorRef) -> SystemEvent {
    SystemEvent::ActorCreated { actor: actor.clone() }
}

fn restarted(actor: &BasicActorRef) -> SystemEvent {
    SystemEvent::ActorRestarted { actor: actor.clone() }
}

fn terminated(actor: &BasicActorRef) -> SystemEvent {
    SystemEvent::ActorTerminated { actor: actor.clone() }
}

#[test]
fn create_root_seats_the_root_and_the_guardians() {
    let w = world();
    assert_eq!(w.actors.root.uid(), 0);
    assert_eq!(w.actors.root.path(), "/");
    assert_eq!(w.actors.root.name(), "root");
    assert_eq!(w.actors.user.uid(), 1);
    assert_eq!(w.actors.user.path(), "/user");
    assert_eq!(w.actors.user.name(), "user");
    assert_eq!(w.actors.sysm.uid(), 2);
    assert_eq!(w.actors.sysm.path(), "/system");
    assert_eq!(w.actors.sysm.name(), "system");
    assert_eq!(w.actors.temp.uid(), 3);
    assert_eq!(w.actors.temp.path(), "/temp");
    assert_eq!(w.actors.temp.name(), "temp");
    assert_eq!(w.actors.user.uri.host, "localhost");
    assert!(w.actors.root.is_root());
    assert!(!w.actors.user.is_root());
    assert_eq!(w.sys.len(), 4);
    assert_eq!(w.sys.paths(), vec!["/", "/user", "/system", "/temp"]);
    assert_eq!(
        w.children(&w.actors.root),
        vec![w.actors.user.clone(), w.actors.sysm.clone(), w.actors.temp.clone()]
    );
    assert!(w.suspended(&w.actors.user));
    assert!(!w.scheduled(&w.actors.user));
    assert_eq!(w.sys.pending(), 0);
    assert!(w.sys.events().is_empty());
    match w.resident(&w.actors.user) {
        Resident::Guardian { mbox, dock } => {
            assert_eq!(mbox.msg_process_limit(), 100);
            assert_eq!(dock.cell.parent(), &Some(w.actors.root.clone()));
            assert_eq!(dock.cell.strategy(), Strategy::Restart);
            assert_eq!(dock.actor.as_ref().unwrap().name(), "user");
        }
        Resident::User { .. } => panic!("a guardian is no user actor"),
    }
}

#[test]
fn a_system_keeps_its_settings() {
    let sys: ActorSystem<Probe> = ActorSystem::new("here", 5);
    assert_eq!(sys.host(), "here");
    assert_eq!(sys.msg_process_limit(), 5);
    assert_eq!(sys.len(), 0);
    assert!(sys.paths().is_empty());
    assert!(sys.resident(0).is_none());
}

#[test]
fn guardian_new_keeps_the_name() {
    assert_eq!(Guardian::new("temp".to_string()).name(), "temp");
}

#[test]
fn spawn_gives_identity_path_and_init() {
    let mut w = world();
    let a = w.actor_of("a").unwrap();
    assert_eq!(a.uid(), 100);
    assert_eq!(a.name(), "a");
    assert_eq!(a.path(), "/user/a");
    assert_eq!(a.uri.host, "localhost");
    assert!(w.provider.is_registered("/user/a"));
    assert_eq!(w.children(&w.actors.user), vec![a.clone()]);
    assert!(w.suspended(&a));
    assert!(w.scheduled(&a));
    assert_eq!(w.sys.pending(), 1);
    let b = w.actor_of("b").unwrap();
    assert_eq!(b.uid(), 101);
    assert_eq!(w.children(&w.actors.user), vec![a.clone(), b.clone()]);
    let c = w.spawn("c", &a).unwrap();
    assert_eq!(c.uid(), 102);
    assert_eq!(c.path(), "/user/a/c");
    assert_eq!(w.children(&a), vec![c.clone()]);
    match w.resident(&c) {
        Resident::User { mbox, dock } => {
            assert_eq!(mbox.msg_process_limit(), 1000);
            assert_eq!(dock.cell.parent(), &Some(a.clone()));
            assert_eq!(dock.cell.state(), CellState::Alive);
        }
        Resident::Guardian { .. } => panic!("a user actor is no guardian"),
    }
    assert_eq!(w.settle(), vec![Outcome::Completed; 3]);
    assert_eq!(w.seen(), vec!["a: pre_start", "b: pre_start", "c: pre_start"]);
    assert!(!w.suspended(&a));
    assert!(!w.scheduled(&a));
    assert_eq!(w.sys.events(), &vec![created(&a), created(&b), created(&c)]);
}

#[test]
fn invalid_names_are_refused() {
    let mut w = world();
    for name in ["", "a/b", "a b", "*", "ä"] {
        assert_eq!(w.actor_of(name), Err(CreateError::InvalidName));
    }
    assert_eq!(w.sys.len(), 4);
    assert_eq!(w.sys.pending(), 0);
    assert_eq!(w.actor_of("ok").unwrap().uid(), 100);
}

#[test]
fn path_collision() {
    let mut w = world();
    let first = w.actor_of("x");
    assert!(first.is_ok());
    let second = w.actor_of("x");
    assert_eq!(second, Err(CreateError::AlreadyExists("/user/x".to_string())));
    assert_eq!(w.sys.len(), 5);
    assert_eq!(w.children(&w.actors.user), vec![first.unwrap()]);
    assert_eq!(w.actor_of("y").unwrap().uid(), 101);
}

#[test]
fn the_same_name_under_another_parent_is_free() {
    let mut w = world();
    let a = w.actor_of("a").unwrap();
    let inner = w.spawn("a", &a).unwrap();
    assert_eq!(inner.path(), "/user/a/a");
}

#[test]
fn registry_alone() {
    let mut p = Provider::new();
    assert!(!p.is_registered("/user/a"));
    assert_eq!(p.register("/user/a"), Ok(100));
    assert_eq!(p.register("/user/b"), Ok(101));
    assert_eq!(p.register("/user/a"), Err(CreateError::AlreadyExists("/user/a".to_string())));
    assert!(p.is_registered("/user/a"));
    p.unregister("/user/a");
    assert!(!p.is_registered("/user/a"));
    assert!(p.is_registered("/user/b"));
    p.unregister("/user/none");
    assert_eq!(p.register("/user/a"), Ok(102));
}

#[test]
fn panic_and_restart() {
    let mut w = world();
    let a = w.actor_of("a").unwrap();
    w.settle();
    assert!(w.sys.tell(&a, Note::Panic, None));
    assert_eq!(w.step(), Some(Outcome::Panicked));
    assert!(w.suspended(&a));
    assert!(!w.scheduled(&a));
    assert!(!w.occupied(&a));
    match w.resident(&w.actors.user) {
        Resident::Guardian { mbox, .. } => assert!(mbox.has_sys_msgs()),
        Resident::User { .. } => panic!("a guardian is no user actor"),
    }
    w.settle();
    assert_eq!(w.sys.events(), &vec![created(&a), restarted(&a)]);
    assert_eq!(w.restart_count(&a), 1);
    assert!(w.occupied(&a));
    assert!(!w.suspended(&a));
    assert!(w.provider.is_registered("/user/a"));
    assert_eq!(w.actor_of("a"), Err(CreateError::AlreadyExists("/user/a".to_string())));
    assert!(w.sys.tell(&a, Note::Say(4), None));
    w.settle();
    assert_eq!(w.seen(), vec!["a: pre_start", "a: pre_start", "a: say 4"]);
    assert!(w.sys.dead_letters().is_empty());
}

#[test]
fn messages_behind_a_panic_wait_for_the_restart() {
    let mut w = world();
    let a = w.actor_of("a").unwrap();
    w.settle();
    w.sys.tell(&a, Note::Say(1), None);
    w.sys.tell(&a, Note::Panic, None);
    w.sys.tell(&a, Note::Say(2), None);
    w.settle();
    assert_eq!(w.seen(), vec!["a: pre_start", "a: say 1", "a: pre_start", "a: say 2"]);
}

#[test]
fn a_resumed_actor_keeps_its_child() {
    let mut w = world();
    let user = w.actors.user.clone();
    let g = w.spawn_with("g", &user, Strategy::Resume);
    let p = w.spawn("p", &g).unwrap();
    let c = w.spawn("c", &p).unwrap();
    w.settle();
    w.sys.tell(&p, Note::Panic, None);
    assert_eq!(w.step(), Some(Outcome::Panicked));
    assert!(w.suspended(&p));
    w.settle();
    assert!(!w.suspended(&p));
    assert!(w.sys.contains(&c));
    assert_eq!(w.children(&p), vec![c.clone()]);
    assert!(!w.sys.events().contains(&terminated(&c)));
    assert!(!w.sys.events().contains(&restarted(&p)));
    assert_eq!(w.restart_count(&p), 0);
    assert!(w.sys.tell(&c, Note::Say(1), None));
    w.settle();
    assert!(w.seen().contains(&"c: say 1".to_string()));
    assert!(!w.seen().contains(&"c: post_stop".to_string()));
}

#[test]
fn a_stop_strategy_stops_the_failed_child() {
    let mut w = world();
    let user = w.actors.user.clone();
    let g = w.spawn_with("g", &user, Strategy::Stop);
    let p = w.spawn("p", &g).unwrap();
    w.settle();
    w.sys.tell(&p, Note::Panic, None);
    w.sys.tell(&p, Note::Say(1), None);
    w.settle();
    assert!(!w.sys.contains(&p));
    assert!(w.sys.events().contains(&terminated(&p)));
    assert!(w.children(&g).is_empty());
    assert_eq!(w.sys.dead_letters().len(), 1);
    assert_eq!(w.sys.dead_letters()[0].msg, "Say(1)");
    assert_eq!(w.sys.dead_letters()[0].recipient, p);
}

#[test]
fn an_escalation_goes_to_the_grandparent() {
    let mut w = world();
    let user = w.actors.user.clone();
    let g = w.spawn_with("g", &user, Strategy::Escalate);
    let p = w.spawn("p", &g).unwrap();
    w.settle();
    w.sys.tell(&p, Note::Panic, None);
    w.settle();
    assert_eq!(w.restart_count(&g), 1);
    assert!(w.sys.events().contains(&restarted(&g)));
    assert!(w.sys.events().contains(&terminated(&p)));
    assert!(!w.sys.contains(&p));
}

#[test]
fn stop_cascade() {
    let mut w = world();
    let p = w.actor_of("p").unwrap();
    let c1 = w.spawn("c1", &p).unwrap();
    let c2 = w.spawn("c2", &p).unwrap();
    let c3 = w.spawn("c3", &p).unwrap();
    let c4 = w.spawn("c4", &p).unwrap();
    w.settle();
    w.sys.stop(&p);
    w.settle();
    let last = w.position(&terminated(&p));
    for c in [&c1, &c2, &c3, &c4] {
        assert!(w.position(&terminated(c)) < last);
        assert!(!w.sys.contains(c));
        assert!(!w.provider.is_registered(c.path()));
    }
    assert!(!w.sys.contains(&p));
    assert!(!w.sys.paths().contains(&"/user/p".to_string()));
    assert_eq!(w.sys.paths(), vec!["/", "/user", "/system", "/temp"]);
    assert!(!w.provider.is_registered("/user/p"));
    assert!(w.children(&w.actors.user).is_empty());
    let stops: Vec<String> =
        w.seen().into_iter().filter(|s| s.ends_with("post_stop")).collect();
    assert_eq!(stops.len(), 5);
    assert_eq!(stops[4], "p: post_stop");
    assert!(w.actor_of("p").is_ok());
}

#[test]
fn dead_letters() {
    let mut w = world();
    let a = w.actor_of("a").unwrap();
    let b = w.actor_of("b").unwrap();
    w.settle();
    w.sys.stop(&a);
    w.settle();
    assert!(w.sys.dead_letters().is_empty());
    assert!(!w.sys.tell(&a, Note::Say(7), Some(b.clone())));
    assert_eq!(w.sys.dead_letters().len(), 1);
    assert_eq!(w.sys.dead_letters()[0].msg, "Say(7)");
    assert_eq!(w.sys.dead_letters()[0].recipient, a);
    assert_eq!(w.sys.dead_letters()[0].sender, Some(b));
    assert_eq!(w.sys.pending(), 0);
}

#[test]
fn a_user_message_for_a_guardian_is_a_dead_letter() {
    let mut w = world();
    let user = w.actors.user.clone();
    assert!(!w.sys.tell(&user, Note::Say(1), None));
    assert_eq!(w.sys.dead_letters().len(), 1);
    assert_eq!(w.sys.dead_letters()[0].recipient, user);
}

#[test]
fn wildcard_subscription() {
    let mut w = world();
    let s = w.actor_of("s").unwrap();
    w.sys.subscribe("*", s.clone());
    w.settle();
    let d = w.actor_of("d").unwrap();
    w.settle();
    w.sys.stop(&d);
    w.settle();
    let seen: Vec<String> = w.seen().into_iter().filter(|l| l.starts_with("s: actor.")).collect();
    assert_eq!(
        seen,
        vec!["s: actor.created /user/s", "s: actor.created /user/d", "s: actor.terminated /user/d"]
    );
}

#[test]
fn a_topic_subscription_gets_only_its_topic() {
    let mut w = world();
    let s = w.actor_of("s").unwrap();
    w.sys.subscribe("actor.terminated", s.clone());
    w.settle();
    let d = w.actor_of("d").unwrap();
    w.settle();
    w.sys.stop(&d);
    w.settle();
    let seen: Vec<String> = w.seen().into_iter().filter(|l| l.starts_with("s: actor.")).collect();
    assert_eq!(seen, vec!["s: actor.terminated /user/d"]);
}

#[test]
fn topics() {
    let a = BasicActorRef::new(actor_system::actor::ActorUri {
        uid: 100,
        name: "a".to_string(),
        path: "/user/a".to_string(),
        host: "localhost".to_string(),
    });
    assert_eq!(topic(&created(&a)), "actor.created");
    assert_eq!(topic(&restarted(&a)), "actor.restarted");
    assert_eq!(topic(&terminated(&a)), "actor.terminated");
}

#[test]
fn one_run_task_per_actor() {
    let mut w = world();
    let a = w.actor_of("a").unwrap();
    assert_eq!(w.sys.pending(), 1);
    w.sys.tell(&a, Note::Say(1), None);
    w.sys.tell(&a, Note::Say(2), None);
    w.sys.sys_tell(&a, SystemMsg::Event(created(&a)));
    assert_eq!(w.sys.pending(), 1);
    assert_eq!(w.settle(), vec![Outcome::Completed]);
    assert_eq!(w.sys.pending(), 0);
    assert!(!w.scheduled(&a));
    w.sys.tell(&a, Note::Say(3), None);
    assert_eq!(w.sys.pending(), 1);
}

#[test]
fn the_quota_spreads_a_long_queue_over_run_tasks() {
    let mut sys: ActorSystem<Probe> = ActorSystem::new("localhost", 2);
    let actors = create_root(&mut sys);
    let mut w =
        World { sys, provider: Provider::new(), actors, seen: Arc::new(Mutex::new(Vec::new())) };
    let a = w.actor_of("a").unwrap();
    w.settle();
    for n in 0..5 {
        w.sys.tell(&a, Note::Say(n), None);
    }
    assert_eq!(w.settle(), vec![Outcome::Completed; 3]);
    assert_eq!(
        w.seen(),
        vec!["a: pre_start", "a: say 0", "a: say 1", "a: say 2", "a: say 3", "a: say 4"]
    );
}

#[test]
fn a_system_message_for_nobody_is_dropped() {
    let mut w = world();
    let a = w.actor_of("a").unwrap();
    w.settle();
    w.sys.stop(&a);
    w.settle();
    w.sys.sys_tell(&a, SystemMsg::Command(SystemCmd::Restart));
    assert_eq!(w.sys.pending(), 0);
    assert!(w.sys.dead_letters().is_empty());
}

#[test]
fn shutdown_stops_the_guardians_and_the_root() {
    let mut w = world();
    let a = w.actor_of("a").unwrap();
    w.settle();
    let actors = SysActors {
        root: w.actors.root.clone(),
        user: w.actors.user.clone(),
        sysm: w.actors.sysm.clone(),
        temp: w.actors.temp.clone(),
    };
    w.sys.shutdown(&actors);
    w.settle();
    assert_eq!(w.sys.len(), 0);
    let events = w.sys.events();
    assert_eq!(events.last(), Some(&terminated(&w.actors.root)));
    assert!(w.position(&terminated(&a)) < w.position(&terminated(&w.actors.user)));
    assert!(w.position(&terminated(&w.actors.user)) < w.position(&terminated(&w.actors.root)));
}

#[test]
fn publish_event_records_the_event() {
    let mut w = world();
    let a = w.actor_of("a").unwrap();
    w.sys.publish_event(restarted(&a));
    assert_eq!(w.sys.events(), &vec![restarted(&a)]);
}

#[test]
fn an_actor_sends_with_itself_as_the_sender() {
    let mut w = world();
    let a = w.actor_of("a").unwrap();
    let b = w.actor_of("b").unwrap();
    w.settle();
    w.sys.tell(&a, Note::Forward(b.clone(), 5), None);
    w.settle();
    assert!(w.seen().contains(&"b: say 5 from /user/a".to_string()));
}

#[test]
fn an_actor_spawns_a_child() {
    let mut w = world();
    let a = w.actor_of("a").unwrap();
    w.settle();
    w.sys.tell(&a, Note::Spawn("kid".to_string()), None);
    w.sys.tell(&a, Note::Spawn("kid".to_string()), None);
    w.sys.tell(&a, Note::Spawn("not a name".to_string()), None);
    w.settle();
    assert_eq!(w.sys.paths(), vec!["/", "/user", "/system", "/temp", "/user/a", "/user/a/kid"]);
    assert_eq!(w.children(&a).len(), 1);
    assert_eq!(w.children(&a)[0].path(), "/user/a/kid");
    assert_eq!(w.children(&a)[0].uid(), 101);
    assert!(w.seen().contains(&"kid: pre_start".to_string()));
    assert!(w.provider.is_registered("/user/a/kid"));
}

#[test]
fn an_actor_stops_itself() {
    let mut w = world();
    let a = w.actor_of("a").unwrap();
    w.settle();
    w.sys.tell(&a, Note::StopMe, None);
    w.sys.tell(&a, Note::Say(1), None);
    w.settle();
    assert!(!w.sys.contains(&a));
    assert!(w.seen().contains(&"a: say 1".to_string()));
    assert!(w.sys.events().contains(&terminated(&a)));
}

#[test]
fn an_actor_subscribes_itself() {
    let mut w = world();
    let a = w.actor_of("a").unwrap();
    w.settle();
    w.sys.tell(&a, Note::Watch("actor.created".to_string()), None);
    w.settle();
    let b = w.actor_of("b").unwrap();
    w.settle();
    assert!(w.seen().contains(&format!("a: actor.created {}", b.path())));
}

#[test]
fn serve_reports_a_failed_spawn() {
    let mut w = world();
    let a = w.actor_of("a").unwrap();
    let seen = w.seen.clone();
    let spawn = |name: &str| Request::Spawn { name: name.to_string(), props: script(name, &seen) };
    assert_eq!(w.sys.serve(&a, spawn("x"), &mut w.provider), Ok(()));
    assert_eq!(
        w.sys.serve(&a, spawn("x"), &mut w.provider),
        Err(CreateError::AlreadyExists("/user/a/x".to_string()))
    );
    assert_eq!(w.sys.serve(&a, spawn(""), &mut w.provider), Err(CreateError::InvalidName));
    assert_eq!(
        w.sys.serve(&a, Request::Stop { actor: a.clone() }, &mut w.provider),
        Ok(())
    );
    assert_eq!(
        w.sys.serve(&a, Request::Subscribe { topic: "*".to_string() }, &mut w.provider),
        Ok(())
    );
    assert_eq!(
        w.sys.serve(&a, Request::Tell { to: a.clone(), msg: Note::Say(1) }, &mut w.provider),
        Ok(())
    );
}

#[test]
fn a_spawn_at_the_path_of_a_guardian_is_refused() {
    let mut w = world();
    let nowhere = BasicActorRef::new(actor_system::actor::ActorUri {
        uid: 9,
        name: "".to_string(),
        path: "".to_string(),
        host: "localhost".to_string(),
    });
    assert_eq!(
        w.spawn("user", &nowhere),
        Err(CreateError::AlreadyExists("/user".to_string()))
    );
    assert!(!w.provider.is_registered("/user"));
}

#[test]
fn identifiers_start_at_100_and_only_grow() {
    let mut p = Provider::new();
    assert_eq!(p.counter(), 100);
    assert_eq!(p.register("/user/a"), Ok(100));
    assert_eq!(p.counter(), 101);
    p.unregister("/user/a");
    assert_eq!(p.counter(), 101);
    assert_eq!(p.register("/user/a"), Ok(101));
    assert_eq!(p.counter(), 102);
    let mut w = world();
    let a = w.actor_of("a").unwrap();
    let b = w.actor_of("b").unwrap();
    assert!(a.uri.uid >= 100);
    assert_eq!(b.uri.uid, a.uri.uid + 1);
}

#[test]
fn a_dead_letter_goes_to_the_subscribers_of_its_topic() {
    let mut w = world();
    let s = w.actor_of("s").unwrap();
    let all = w.actor_of("all").unwrap();
    let a = w.actor_of("a").unwrap();
    w.sys.subscribe(DEAD_LETTER_TOPIC, s.clone());
    w.sys.subscribe("*", all.clone());
    w.settle();
    w.sys.stop(&a);
    w.settle();
    let published = w.sys.events().len();
    assert!(!w.sys.tell(&a, Note::Say(7), Some(s.clone())));
    assert_eq!(w.sys.pending(), 1);
    assert_eq!(w.sys.events().len(), published);
    match w.resident(&s) {
        Resident::User { mbox, .. } => assert!(mbox.has_sys_msgs()),
        Resident::Guardian { .. } => panic!("a user actor is no guardian"),
    }
    w.settle();
    let letters: Vec<String> =
        w.seen().into_iter().filter(|l| l.contains("dead_letter")).collect();
    assert_eq!(letters, vec!["s: dead_letter /user/a"]);
    assert_eq!(w.sys.dead_letters().len(), 1);
    assert_eq!(w.sys.dead_letters()[0].msg, "Say(7)");
}

#[test]
fn the_queue_of_a_stopped_actor_goes_to_the_dead_letter_subscribers() {
    let mut w = world();
    let s = w.actor_of("s").unwrap();
    w.sys.subscribe("dead_letter", s.clone());
    w.settle();
    let a = w.actor_of("a").unwrap();
    w.sys.stop(&a);
    assert!(w.sys.tell(&a, Note::Say(1), None));
    assert!(w.sys.tell(&a, Note::Say(2), None));
    w.settle();
    let texts: Vec<String> = w.sys.dead_letters().iter().map(|d| d.msg.clone()).collect();
    assert_eq!(texts, vec!["Say(1)", "Say(2)"]);
    assert!(w.sys.dead_letters().iter().all(|d| d.recipient == a && d.sender.is_none()));
    let letters: Vec<String> =
        w.seen().into_iter().filter(|l| l.contains("dead_letter")).collect();
    assert_eq!(letters, vec!["s: dead_letter /user/a", "s: dead_letter /user/a"]);
    assert!(!w.sys.contains(&a));
}

#[test]
fn a_dead_letter_has_its_own_topic() {
    let a = BasicActorRef::new(actor_system::actor::ActorUri {
        uid: 100,
        name: "a".to_string(),
        path: "/user/a".to_string(),
        host: "localhost".to_string(),
    });
    let letter = DeadLetter { msg: "Say(1)".to_string(), sender: None, recipient: a.clone() };
    let event = SystemEvent::DeadLetter { letter: letter.clone() };
    assert_eq!(topic(&event), "dead_letter");
    assert_eq!(topic(&event), DEAD_LETTER_TOPIC);
    assert_eq!(event.actor(), &a);
    assert_eq!(event.clone(), event);
    assert_eq!(letter.clone(), letter);
}
