//! The provider: it keeps the registry of live paths, hands out actor
//! identifiers, and spawns actors into the system.

use crate::actor::{
    Actor, ActorId, ActorUri, BasicActorRef, Context, Outcome, Sender, Strategy, SystemMsg,
    FIRST_USER_ID,
};
use crate::kernel::cell::{CellState, CellView, ExtendedCell};
use crate::kernel::mailbox::{mailbox, MailboxView};
use crate::kernel::Dock;
use crate::system::{seated, ActorSystem, Parked, Resident, Seat, SystemView};
use crate::validate::{valid_name, validate_name};
use vstd::prelude::*;
use vstd::string::*;

verus! {

/// Why an actor could not be spawned.
#[derive(Debug, PartialEq, Eq)]
pub enum CreateError {
    /// The name is empty or holds a character that no name may hold.
    InvalidName,
    /// An actor lives at this path already.
    AlreadyExists(String),
}

/// The path of a child: the path of its parent, a slash, and its name.
pub open spec fn child_path(parent: Seq<char>, name: Seq<char>) -> Seq<char> {
    parent + seq!['/'] + name
}

/// The quota of the mailboxes of the root and the guardians.
pub const GUARDIAN_MSG_PROCESS_LIMIT: u32 = 100;

/// The registry as contracts see it.
pub struct ProviderView {
    /// The paths of the live actors.
    pub paths: Set<Seq<char>>,
    /// The identifier that the next actor gets.
    pub counter: ActorId,
}

struct ProviderInner {
    paths: Vec<String>,
    /// How many identifiers were handed out.
    issued: u64,
}

/// The identifier that comes after `issued` others: the first is 100, and
/// the last one there is ends the count.
pub open spec fn next_id(issued: u64) -> ActorId {
    if issued <= u64::MAX - FIRST_USER_ID {
        (FIRST_USER_ID + issued) as u64
    } else {
        u64::MAX
    }
}

/// The registry of live paths and the source of actor identifiers.
pub struct Provider {
    inner: ProviderInner,
}

/// Whether `path` is among `paths`.
pub open spec fn listed(paths: Seq<String>, path: Seq<char>) -> bool {
    exists|i: int| 0 <= i < paths.len() && (#[trigger] paths[i])@ == path
}

proof fn lemma_listed_push(paths: Seq<String>, last: String, path: Seq<char>)
    ensures
        listed(paths.push(last), path) <==> listed(paths, path) || last@ == path,
{
    let longer = paths.push(last);
    if listed(paths, path) {
        let i = choose|i: int| 0 <= i < paths.len() && (#[trigger] paths[i])@ == path;
        assert(longer[i]@ == path);
    }
    if last@ == path {
        assert(longer[paths.len() as int]@ == path);
    }
    if listed(longer, path) {
        let i = choose|i: int| 0 <= i < longer.len() && (#[trigger] longer[i])@ == path;
        if i < paths.len() {
            assert(paths[i]@ == path);
        }
    }
}

impl View for Provider {
    type V = ProviderView;

    closed spec fn view(&self) -> ProviderView {
        ProviderView {
            paths: Set::new(|p: Seq<char>| listed(self.inner.paths@, p)),
            counter: next_id(self.inner.issued),
        }
    }
}

impl Provider {
    /// A registry without paths. The first identifier it hands out is 100.
    pub fn new() -> (r: Self)
        ensures
            r@ == (ProviderView { paths: Set::<Seq<char>>::empty(), counter: FIRST_USER_ID }),
    {
        let r = Provider { inner: ProviderInner { paths: Vec::new(), issued: 0 } };
        proof {
            assert(r@.paths =~= Set::<Seq<char>>::empty());
        }
        r
    }

    /// The identifier that the next actor gets. It is never under 100: the
    /// identifiers below are those of the root and the guardians.
    pub fn counter(&self) -> (r: ActorId)
        ensures
            r == self@.counter,
            r >= FIRST_USER_ID,
    {
        if self.inner.issued <= u64::MAX - FIRST_USER_ID {
            FIRST_USER_ID + self.inner.issued
        } else {
            u64::MAX
        }
    }

    /// No registry hands out an identifier under 100.
    pub proof fn law_counter_from_first(&self)
        ensures
            self@.counter >= FIRST_USER_ID,
    {
    }

    /// Whether an actor lives at `path`.
    pub fn is_registered(&self, path: &str) -> (r: bool)
        ensures
            r == self@.paths.contains(path@),
    {
        let key = String::from_str(path);
        let mut i: usize = 0;
        while i < self.inner.paths.len()
            invariant
                i <= self.inner.paths.len(),
                key@ == path@,
                forall|k: int| 0 <= k < i ==> (#[trigger] self.inner.paths@[k])@ != path@,
            decreases self.inner.paths.len() - i,
        {
            if self.inner.paths[i] == key {
                return true;
            }
            i += 1;
        }
        false
    }

    /// Registers `path` and hands out the next identifier, or refuses a path
    /// at which an actor lives already. The identifier is 100 or more.
    pub fn register(&mut self, path: &str) -> (r: Result<ActorId, CreateError>)
        requires
            old(self)@.counter < u64::MAX,
        ensures
            old(self)@.counter >= FIRST_USER_ID,
            final(self)@.counter >= FIRST_USER_ID,
            r matches Ok(id) ==> id >= FIRST_USER_ID,
            old(self)@.paths.contains(path@) ==> final(self)@ == old(self)@ && (
            r matches Err(CreateError::AlreadyExists(p)) && p@ == path@),
            !old(self)@.paths.contains(path@) ==> r == Ok::<ActorId, CreateError>(
                old(self)@.counter,
            ) && final(self)@ == (ProviderView {
                paths: old(self)@.paths.insert(path@),
                counter: (old(self)@.counter + 1) as u64,
            }),
    {
        if self.is_registered(path) {
            return Err(CreateError::AlreadyExists(String::from_str(path)));
        }
        let key = String::from_str(path);
        self.inner.paths.push(key);
        let id = self.counter();
        self.inner.issued = self.inner.issued + 1;
        proof {
            assert forall|p: Seq<char>| self@.paths.contains(p) == old(self)@.paths.insert(
                path@,
            ).contains(p) by {
                lemma_listed_push(old(self).inner.paths@, key, p);
            }
            assert(self@.paths =~= old(self)@.paths.insert(path@));
        }
        Ok(id)
    }

    /// Gives `path` back. The identifiers go on from where they are.
    pub fn unregister(&mut self, path: &str)
        ensures
            final(self)@.counter >= FIRST_USER_ID,
            final(self)@ == (ProviderView {
                paths: old(self)@.paths.remove(path@),
                counter: old(self)@.counter,
            }),
    {
        let key = String::from_str(path);
        let mut kept: Vec<String> = Vec::new();
        let mut i: usize = 0;
        while i < self.inner.paths.len()
            invariant
                i <= self.inner.paths.len(),
                key@ == path@,
                forall|p: Seq<char>|
                    #![trigger listed(kept@, p)]
                    listed(kept@, p) <==> listed(self.inner.paths@.take(i as int), p) && p
                        != path@,
            decreases self.inner.paths.len() - i,
        {
            let ghost before = kept@;
            let ghost seen = self.inner.paths@.take(i as int);
            let ghost current = self.inner.paths@[i as int];
            proof {
                assert(self.inner.paths@.take(i + 1) =~= seen.push(current));
            }
            if self.inner.paths[i] != key {
                kept.push(self.inner.paths[i].clone());
                proof {
                    assert forall|p: Seq<char>|
                        #![trigger listed(kept@, p)]
                        listed(kept@, p) <==> listed(seen.push(current), p) && p != path@ by {
                        lemma_listed_push(before, current, p);
                        lemma_listed_push(seen, current, p);
                        assert(listed(before, p) <==> listed(seen, p) && p != path@);
                    }
                }
            } else {
                proof {
                    assert forall|p: Seq<char>|
                        #![trigger listed(kept@, p)]
                        listed(kept@, p) <==> listed(seen.push(current), p) && p != path@ by {
                        lemma_listed_push(seen, current, p);
                        assert(listed(before, p) <==> listed(seen, p) && p != path@);
                    }
                }
            }
            i += 1;
        }
        proof {
            assert(self.inner.paths@.take(i as int) =~= self.inner.paths@);
        }
        self.inner.paths = kept;
        proof {
            assert forall|p: Seq<char>| self@.paths.contains(p) == old(self)@.paths.remove(
                path@,
            ).contains(p) by {
                assert(listed(kept@, p) <==> listed(old(self).inner.paths@, p) && p != path@);
            }
            assert(self@.paths =~= old(self)@.paths.remove(path@));
        }
    }
}

/// The behaviour of the root and of the guardians: they take no user
/// traffic and leave the failures of their children to the default
/// strategy.
pub struct Guardian {
    name: String,
}

impl Guardian {
    /// The name that the guardian was made with.
    pub closed spec fn named(&self) -> String {
        self.name
    }

    pub fn new(name: String) -> (r: Self)
        ensures
            r.named() == name,
    {
        Guardian { name }
    }

    pub fn name(&self) -> (r: &String)
        ensures
            *r == self.named(),
    {
        &self.name
    }
}

impl Actor for Guardian {
    type Msg = SystemMsg;

    type Props = String;

    fn create(props: &String) -> (r: Self)
        ensures
            r.named() == *props,
    {
        Guardian::new(props.clone())
    }

    fn supervisor_strategy(&self) -> (r: Strategy)
        ensures
            r == Strategy::Restart,
    {
        Strategy::Restart
    }

    fn recv(&mut self, _ctx: &Context, _msg: SystemMsg, _sender: Sender) -> (r: Outcome)
        ensures
            r == Outcome::Completed,
            *final(self) == *old(self),
    {
        Outcome::Completed
    }
}

/// The seat of an actor that was spawned a moment ago: its mailbox is empty,
/// open and suspended, its cell is alive with no child, no restart and an
/// empty record, and its slot is occupied.
pub open spec fn fresh<Msg>(
    uri: ActorUri,
    parent: BasicActorRef,
    msg_process_limit: u32,
    strategy: Strategy,
) -> Parked<Msg> {
    Parked {
        mbox: MailboxView {
            msg_process_limit,
            queue: Seq::empty(),
            sys_queue: Seq::empty(),
            suspended: true,
            scheduled: false,
            closed: false,
        },
        cell: CellView {
            uri,
            parent: Some(parent),
            children: Seq::empty(),
            restart_count: 0,
            state: CellState::Alive,
            strategy,
            log: Seq::empty(),
        },
        occupied: true,
    }
}

/// Whether `path` is taken: an actor is seated at it, or it is registered.
pub open spec fn taken<Msg>(registry: ProviderView, sys: SystemView<Msg>, path: Seq<char>) -> bool {
    registry.paths.contains(path) || seated(sys.seats, path)
}

/// What a spawn of a child named `name` under `parent` has done, with the
/// result `r`, to a registry and a system.
///
/// The spawn fails with `InvalidName` exactly if the name is not valid, and
/// with `AlreadyExists` and the path of the child exactly if the name is
/// valid and that path is taken; a spawn that fails changes nothing.
/// Otherwise the child has the next identifier, which is 100 or more, the
/// name, the path of its parent extended by the name, and the host of the
/// system; its path is registered and the next identifier is one more; and
/// the system has the child seated as a fresh user actor with the quota of
/// the system, adopted by its parent, and told to initialise.
pub open spec fn spawned<Msg>(
    registry: ProviderView,
    sys: SystemView<Msg>,
    name: Seq<char>,
    parent: BasicActorRef,
    r: Result<BasicActorRef, CreateError>,
    registry_after: ProviderView,
    sys_after: SystemView<Msg>,
) -> bool {
    let path = child_path(parent.path_view(), name);
    &&& r is Err ==> registry_after == registry && sys_after == sys
    &&& (r matches Err(CreateError::InvalidName)) <==> !valid_name(name)
    &&& (r matches Err(CreateError::AlreadyExists(_))) <==> valid_name(name) && taken(
        registry,
        sys,
        path,
    )
    &&& (r matches Err(CreateError::AlreadyExists(p)) ==> p@ == path)
    &&& r matches Ok(actor) ==> {
        &&& actor.uri.uid == registry.counter
        &&& actor.uri.uid >= FIRST_USER_ID
        &&& actor.uri.name@ == name
        &&& actor.uri.path@ == path
        &&& actor.uri.host@ == sys.host
        &&& registry_after == (ProviderView {
            paths: registry.paths.insert(path),
            counter: (registry.counter + 1) as u64,
        })
        &&& exists|strategy: Strategy|
            sys_after == sys.seating(
                Seat::User(#[trigger] fresh(actor.uri, parent, sys.msg_process_limit, strategy)),
            ).adopted(parent, actor).sys_told(actor, SystemMsg::ActorInit)
    }
}

impl Provider {
    /// Spawns an actor named `name` under `parent`.
    ///
    /// The name has to be valid and the path of the child free: no actor
    /// may be seated at it and it may not be registered. Then the path is
    /// registered, the child gets the next identifier, a mailbox with the
    /// quota of the system and a dock with a first instance built from
    /// `props`; it takes its seat, joins the children of its parent if the
    /// parent is there, and finds `ActorInit` as the first message on its
    /// system queue, with a run-task submitted for it.
    pub fn create_actor<A: Actor>(
        &mut self,
        props: A::Props,
        name: &str,
        parent: &BasicActorRef,
        sys: &mut ActorSystem<A>,
    ) -> (r: Result<BasicActorRef, CreateError>)
        requires
            old(self)@.counter < u64::MAX,
        ensures
            spawned(old(self)@, old(sys)@, name@, *parent, r, final(self)@, final(sys)@),
    {
        match validate_name(name) {
            Err(_) => {
                return Err(CreateError::InvalidName);
            },
            Ok(_) => {},
        }
        let mut path = parent.uri.path.clone();
        path.append("/");
        path.append(name);
        proof {
            reveal_strlit("/");
            assert("/"@ =~= seq!['/']);
            assert(path@ =~= child_path(parent.path_view(), name@));
        }
        if sys.find(&path).is_some() {
            return Err(CreateError::AlreadyExists(path));
        }
        let uid = match self.register(path.as_str()) {
            Err(e) => {
                return Err(e);
            },
            Ok(uid) => uid,
        };
        let uri = ActorUri { uid, name: String::from_str(name), path, host: sys.host().clone() };
        let mbox = mailbox::<A::Msg>(sys.msg_process_limit());
        let dock = Dock::<A>::new(props, uri.clone(), Some(parent.clone()));
        let actor = BasicActorRef::new(uri);
        let ghost strategy = dock.cell@.strategy;
        sys.seat(Resident::User { mbox, dock });
        sys.add_child(parent, actor.clone());
        sys.sys_tell(&actor, SystemMsg::ActorInit);
        proof {
            assert(Resident::<A>::User { mbox, dock }@ == Seat::<A::Msg>::User(
                fresh(actor.uri, *parent, old(sys)@.msg_process_limit, strategy),
            ));
        }
        Ok(actor)
    }
}

/// The root and the three guardians.
pub struct SysActors {
    pub root: BasicActorRef,
    pub user: BasicActorRef,
    pub sysm: BasicActorRef,
    pub temp: BasicActorRef,
}

/// The seat of a guardian that was created a moment ago.
pub open spec fn guardian_seat<Msg>(uri: ActorUri, parent: BasicActorRef) -> Seat<Msg> {
    Seat::Guardian(fresh(uri, parent, GUARDIAN_MSG_PROCESS_LIMIT, Strategy::Restart))
}

fn seat_guardian<A: Actor>(uri: ActorUri, parent: BasicActorRef, sys: &mut ActorSystem<A>) -> (r:
    BasicActorRef)
    ensures
        r.uri == uri,
        final(sys)@ == old(sys)@.seating(guardian_seat(uri, parent)),
{
    let mbox = mailbox::<SystemMsg>(GUARDIAN_MSG_PROCESS_LIMIT);
    let dock = Dock {
        actor: Some(Guardian::new(uri.name.clone())),
        cell: ExtendedCell::new(uri.clone(), Some(parent), Strategy::Restart),
        props: uri.name.clone(),
    };
    sys.seat(Resident::Guardian { mbox, dock });
    BasicActorRef::new(uri)
}

/// Creates the root: the actor with identifier 0 at the path `/`. Its
/// parent is a handle with the root's own address, behind which no actor
/// lives. The root is not initialised: its mailbox stays suspended.
pub(crate) fn root<A: Actor>(sys: &mut ActorSystem<A>) -> (r: BasicActorRef)
    ensures
        r.uri.uid == 0,
        r.uri.name@ == "root"@,
        r.uri.path@ == "/"@,
        r.uri.host@ == "localhost"@,
        final(sys)@ == old(sys)@.seating(guardian_seat(r.uri, r)),
{
    let uri = ActorUri {
        uid: 0,
        name: String::from_str("root"),
        path: String::from_str("/"),
        host: String::from_str("localhost"),
    };
    let bigbang = BasicActorRef::new(uri.clone());
    seat_guardian(uri, bigbang, sys)
}

/// Creates a guardian with the given identifier, name and path under
/// `root`, and adds it to the children of the root. A guardian is not
/// initialised: its mailbox stays suspended.
pub(crate) fn guardian<A: Actor>(
    uid: ActorId,
    name: &str,
    path: &str,
    root: &BasicActorRef,
    sys: &mut ActorSystem<A>,
) -> (r: BasicActorRef)
    ensures
        r.uri.uid == uid,
        r.uri.name@ == name@,
        r.uri.path@ == path@,
        r.uri.host@ == "localhost"@,
        final(sys)@ == old(sys)@.seating(guardian_seat(r.uri, *root)).adopted(*root, r),
{
    let uri = ActorUri {
        uid,
        name: String::from_str(name),
        path: String::from_str(path),
        host: String::from_str("localhost"),
    };
    let actor = seat_guardian(uri, root.clone(), sys);
    sys.add_child(root, actor.clone());
    actor
}

/// Creates the root and, under it, the guardians `/user`, `/system` and
/// `/temp` with the identifiers 1, 2 and 3, in this order.
pub fn create_root<A: Actor>(sys: &mut ActorSystem<A>) -> (r: SysActors)
    ensures
        r.root.uri.uid == 0 && r.root.uri.path@ == "/"@,
        r.user.uri.uid == 1 && r.user.uri.path@ == "/user"@ && r.user.uri.name@ == "user"@,
        r.sysm.uri.uid == 2 && r.sysm.uri.path@ == "/system"@ && r.sysm.uri.name@ == "system"@,
        r.temp.uri.uid == 3 && r.temp.uri.path@ == "/temp"@ && r.temp.uri.name@ == "temp"@,
        final(sys)@ == old(sys)@.seating(guardian_seat(r.root.uri, r.root)).seating(
            guardian_seat(r.user.uri, r.root),
        ).adopted(r.root, r.user).seating(guardian_seat(r.sysm.uri, r.root)).adopted(
            r.root,
            r.sysm,
        ).seating(guardian_seat(r.temp.uri, r.root)).adopted(r.root, r.temp),
{
    let root = root(sys);
    let user = guardian(1, "user", "/user", &root, sys);
    let sysm = guardian(2, "system", "/system", &root, sys);
    let temp = guardian(3, "temp", "/temp", &root, sys);
    SysActors { root, user, sysm, temp }
}

} // verus!
