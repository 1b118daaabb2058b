//! Identifiers: every user actor has an identifier of its own, at least 100
//! and below the one that the registry hands out next.

use crate::actor::{
    ActorUri, BasicActorRef, DeadLetter, Effect, Envelope, Outcome, Strategy, SystemEvent,
    SystemMsg, FIRST_USER_ID,
};
use crate::invariants::seats::lemma_choice_is_first;
use crate::kernel::laws::lemma_ran_advances;
use crate::kernel::model::{ran, RunState};
use crate::kernel::provider::{fresh, spawned, CreateError, ProviderView};
use crate::system::{parked, seat_of, seated, Seat, Subscription, SystemView};
use vstd::prelude::*;

verus! {

/// Who sits where: the address of each actor of a system and whether it is
/// a user actor, in the order of the seats.
pub open spec fn identities<Msg>(sys: SystemView<Msg>) -> Seq<(ActorUri, bool)> {
    sys.seats.map_values(|s: Seat<Msg>| (s.uri(), s is User))
}

/// The identifiers are in order: the registry hands out identifiers from
/// 100 on, every user actor has one that was handed out, and no two user
/// actors have the same.
pub open spec fn ids_in_order(counter: u64, who: Seq<(ActorUri, bool)>) -> bool {
    &&& counter >= FIRST_USER_ID
    &&& forall|i: int|
        0 <= i < who.len() && (#[trigger] who[i]).1 ==> FIRST_USER_ID <= who[i].0.uid < counter
    &&& forall|i: int, j: int|
        #![trigger who[i], who[j]]
        0 <= i < j < who.len() && who[i].1 && who[j].1 ==> who[i].0.uid != who[j].0.uid
}

proof fn lemma_update_keeps_identities<Msg>(sys: SystemView<Msg>, i: int, seat: Seat<Msg>)
    requires
        0 <= i < sys.seats.len(),
        seat.uri() == sys.seats[i].uri(),
        seat is User <==> sys.seats[i] is User,
    ensures
        identities(sys.with_seat(i, seat)) == identities(sys),
{
    assert(identities(sys.with_seat(i, seat)) =~= identities(sys));
}

pub(crate) proof fn lemma_sys_told_keeps_identities<Msg>(
    sys: SystemView<Msg>,
    to: BasicActorRef,
    msg: SystemMsg,
)
    ensures
        identities(sys.sys_told(to, msg)) == identities(sys),
{
    if seated(sys.seats, to.path_view()) {
        lemma_choice_is_first(sys.seats, to.path_view());
        let i = seat_of(sys.seats, to.path_view());
        if !sys.seats[i].closed() {
            lemma_update_keeps_identities(
                sys,
                i,
                sys.seats[i].sys_told(Envelope { msg, sender: None }),
            );
        }
    }
}

pub(crate) proof fn lemma_told_keeps_identities<Msg>(
    sys: SystemView<Msg>,
    to: BasicActorRef,
    env: Envelope<Msg>,
    text: String,
)
    ensures
        identities(sys.told(to, env, text)) == identities(sys),
{
    lemma_buried_keeps_identities(
        sys,
        DeadLetter { msg: text, sender: env.sender, recipient: to },
    );
    if seated(sys.seats, to.path_view()) {
        lemma_choice_is_first(sys.seats, to.path_view());
        let i = seat_of(sys.seats, to.path_view());
        if sys.seats[i].takes_user_msgs() {
            lemma_update_keeps_identities(sys, i, sys.seats[i].told(env));
        }
    }
}

pub(crate) proof fn lemma_notified_keeps_identities<Msg>(
    sys: SystemView<Msg>,
    subs: Seq<Subscription>,
    event: SystemEvent,
)
    ensures
        identities(sys.notified(subs, event)) == identities(sys),
    decreases subs.len(),
{
    if subs.len() > 0 {
        lemma_notified_keeps_identities(sys, subs.drop_last(), event);
        lemma_sys_told_keeps_identities(
            sys.notified(subs.drop_last(), event),
            subs.last().actor,
            SystemMsg::Event(event),
        );
    }
}

pub(crate) proof fn lemma_buried_keeps_identities<Msg>(sys: SystemView<Msg>, letter: DeadLetter)
    ensures
        identities(sys.buried(letter)) == identities(sys),
{
    let recorded = SystemView { dead: sys.dead.push(letter), ..sys };
    lemma_notified_keeps_identities(
        recorded,
        sys.subscribers,
        SystemEvent::DeadLetter { letter },
    );
    assert(identities(recorded) == identities(sys));
}

pub(crate) proof fn lemma_buried_all_keeps_identities<Msg>(
    sys: SystemView<Msg>,
    letters: Seq<DeadLetter>,
)
    ensures
        identities(sys.buried_all(letters)) == identities(sys),
    decreases letters.len(),
{
    if letters.len() > 0 {
        lemma_buried_all_keeps_identities(sys, letters.drop_last());
        lemma_buried_keeps_identities(sys.buried_all(letters.drop_last()), letters.last());
    }
}

proof fn lemma_removal_keeps_ids(counter: u64, who: Seq<(ActorUri, bool)>, i: int)
    requires
        ids_in_order(counter, who),
        0 <= i < who.len(),
    ensures
        ids_in_order(counter, who.remove(i)),
{
    let after = who.remove(i);
    assert forall|k: int| 0 <= k < after.len() && (#[trigger] after[k]).1 implies FIRST_USER_ID
        <= after[k].0.uid < counter by {
        let k0 = if k < i {
            k
        } else {
            k + 1
        };
        assert(after[k] == who[k0]);
    }
    assert forall|a: int, b: int|
        #![trigger after[a], after[b]]
        0 <= a < b < after.len() && after[a].1 && after[b].1 implies after[a].0.uid
        != after[b].0.uid by {
        let a0 = if a < i {
            a
        } else {
            a + 1
        };
        let b0 = if b < i {
            b
        } else {
            b + 1
        };
        assert(after[a] == who[a0]);
        assert(after[b] == who[b0]);
        assert(who[a0].0.uid != who[b0].0.uid);
    }
}

/// Carrying out an effect keeps the identifiers in order.
pub proof fn law_route_keeps_ids<Msg>(
    counter: u64,
    sys: SystemView<Msg>,
    from: BasicActorRef,
    effect: Effect,
)
    requires
        ids_in_order(counter, identities(sys)),
    ensures
        ids_in_order(counter, identities(sys.routed(from, effect))),
{
    match effect {
        Effect::SysTell { to, msg } => {
            lemma_sys_told_keeps_identities(sys, to, msg);
        },
        Effect::Publish { event } => {
            let recorded = SystemView { events: sys.events.push(event), ..sys };
            assert(identities(recorded) == identities(sys));
            lemma_notified_keeps_identities(recorded, sys.subscribers, event);
        },
        Effect::Resume { child } => {
            if seated(sys.seats, child.path_view()) {
                lemma_choice_is_first(sys.seats, child.path_view());
                let i = seat_of(sys.seats, child.path_view());
                lemma_update_keeps_identities(sys, i, sys.seats[i].resumed());
            }
        },
        Effect::Unregister { path } => {
            if seated(sys.seats, path@) {
                lemma_choice_is_first(sys.seats, path@);
                let i = seat_of(sys.seats, path@);
                assert(identities(sys.vacated(path@)) =~= identities(sys).remove(i));
                lemma_removal_keeps_ids(counter, identities(sys), i);
            }
        },
        Effect::Schedule => {
            if seated(sys.seats, from.path_view()) {
                lemma_choice_is_first(sys.seats, from.path_view());
                let i = seat_of(sys.seats, from.path_view());
                lemma_update_keeps_identities(sys, i, sys.seats[i].rescheduled());
            }
        },
    }
}

/// Carrying out the effects of a run-task keeps the identifiers in order.
pub proof fn law_settle_keeps_ids<Msg>(
    counter: u64,
    sys: SystemView<Msg>,
    from: BasicActorRef,
    effects: Seq<Effect>,
)
    requires
        ids_in_order(counter, identities(sys)),
    ensures
        ids_in_order(counter, identities(sys.settled(from, effects))),
    decreases effects.len(),
{
    if effects.len() > 0 {
        law_settle_keeps_ids(counter, sys, from, effects.drop_last());
        law_route_keeps_ids(counter, sys.settled(from, effects.drop_last()), from, effects.last());
    }
}

/// A run-task keeps the identifiers in order, however it ends: it leaves
/// the address of its actor as it was.
pub proof fn law_run_keeps_ids<Msg>(
    counter: u64,
    sys: SystemView<Msg>,
    i: int,
    after: RunState<Msg>,
    r: Outcome,
    letters: Seq<DeadLetter>,
)
    requires
        ids_in_order(counter, identities(sys)),
        0 <= i < sys.seats.len(),
        sys.seats[i] is User,
        ran(sys.seats[i]->User_0.at_start(), after, r),
    ensures
        ids_in_order(
            counter,
            identities(sys.after_run(i, Seat::User(parked(after)), after.effects, letters)),
        ),
{
    lemma_ran_advances(sys.seats[i]->User_0.at_start(), after, r);
    let seat = Seat::User(parked(after));
    lemma_update_keeps_identities(sys, i, seat);
    lemma_buried_all_keeps_identities(sys.with_seat(i, seat), letters);
    law_settle_keeps_ids(
        counter,
        sys.with_seat(i, seat).buried_all(letters),
        sys.seats[i].me(),
        after.effects,
    );
}

/// A run-task of a guardian keeps the identifiers in order, however it
/// ends.
pub proof fn law_guardian_run_keeps_ids<Msg>(
    counter: u64,
    sys: SystemView<Msg>,
    i: int,
    after: RunState<SystemMsg>,
    r: Outcome,
    letters: Seq<DeadLetter>,
)
    requires
        ids_in_order(counter, identities(sys)),
        0 <= i < sys.seats.len(),
        sys.seats[i] is Guardian,
        ran(sys.seats[i]->Guardian_0.at_start(), after, r),
    ensures
        ids_in_order(
            counter,
            identities(
                sys.after_run(i, Seat::Guardian(parked(after)), after.effects, letters),
            ),
        ),
{
    lemma_ran_advances(sys.seats[i]->Guardian_0.at_start(), after, r);
    let seat = Seat::<Msg>::Guardian(parked(after));
    lemma_update_keeps_identities(sys, i, seat);
    lemma_buried_all_keeps_identities(sys.with_seat(i, seat), letters);
    law_settle_keeps_ids(
        counter,
        sys.with_seat(i, seat).buried_all(letters),
        sys.seats[i].me(),
        after.effects,
    );
}

/// A spawn keeps the identifiers in order: the child gets the next
/// identifier, which nobody has, and the one after it is the next.
pub proof fn law_spawn_keeps_ids<Msg>(
    registry: ProviderView,
    sys: SystemView<Msg>,
    name: Seq<char>,
    parent: BasicActorRef,
    r: Result<BasicActorRef, CreateError>,
    registry_after: ProviderView,
    sys_after: SystemView<Msg>,
)
    requires
        registry.counter < u64::MAX,
        ids_in_order(registry.counter, identities(sys)),
        spawned(registry, sys, name, parent, r, registry_after, sys_after),
    ensures
        ids_in_order(registry_after.counter, identities(sys_after)),
        r matches Ok(actor) ==> actor.uri.uid >= FIRST_USER_ID,
{
    match r {
        Ok(actor) => {
            let strategy = choose|strategy: Strategy|
                sys_after == sys.seating(
                    Seat::User(
                        #[trigger] fresh(actor.uri, parent, sys.msg_process_limit, strategy),
                    ),
                ).adopted(parent, actor).sys_told(actor, SystemMsg::ActorInit);
            let seat = Seat::<Msg>::User(
                fresh(actor.uri, parent, sys.msg_process_limit, strategy),
            );
            let s1 = sys.seating(seat);
            let s2 = s1.adopted(parent, actor);
            assert(identities(s1) =~= identities(sys).push((actor.uri, true)));
            if seated(s1.seats, parent.path_view()) {
                lemma_choice_is_first(s1.seats, parent.path_view());
                let i = seat_of(s1.seats, parent.path_view());
                lemma_update_keeps_identities(s1, i, s1.seats[i].with_child(actor));
            }
            lemma_sys_told_keeps_identities(s2, actor, SystemMsg::ActorInit);
            let who = identities(s1);
            let n = identities(sys).len() as int;
            assert forall|i: int| 0 <= i < who.len() && (#[trigger] who[i]).1 implies FIRST_USER_ID
                <= who[i].0.uid < registry_after.counter by {
                if i < n {
                    assert(who[i] == identities(sys)[i]);
                }
            }
            assert forall|i: int, j: int|
                #![trigger who[i], who[j]]
                0 <= i < j < who.len() && who[i].1 && who[j].1 implies who[i].0.uid
                != who[j].0.uid by {
                assert(who[i] == identities(sys)[i]);
                if j < n {
                    assert(who[j] == identities(sys)[j]);
                    assert(identities(sys)[i].0.uid != identities(sys)[j].0.uid);
                }
            }
        },
        Err(_) => {},
    }
}

} // verus!
