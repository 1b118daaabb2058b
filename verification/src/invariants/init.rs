//! `ActorInit` comes first: every user actor takes up `ActorInit` before
//! every other message.

use crate::actor::{
    BasicActorRef, DeadLetter, Effect, Envelope, Outcome, Strategy, SystemEvent, SystemMsg,
};
use crate::invariants::seats::{lemma_adopted_shape, lemma_choice_is_first};
use crate::kernel::laws::{init_comes_first, law_init_stays_first};
use crate::kernel::model::{ran, RunState};
use crate::kernel::provider::{fresh, spawned, CreateError, ProviderView};
use crate::system::{first_seat, parked, seat_of, seated, Seat, Subscription, SystemView};
use vstd::prelude::*;

verus! {

/// Whether `ActorInit` is first for the actor of a seat. Guardians are not
/// initialised, so nothing is asked of them.
pub open spec fn seat_init_first<Msg>(seat: Seat<Msg>) -> bool {
    match seat {
        Seat::User(p) => init_comes_first(p.cell.log, p.mbox.sys_queue),
        Seat::Guardian(_) => true,
    }
}

/// Whether `ActorInit` is first for every user actor of a system.
pub open spec fn init_first_everywhere<Msg>(sys: SystemView<Msg>) -> bool {
    forall|i: int| 0 <= i < sys.seats.len() ==> seat_init_first(#[trigger] sys.seats[i])
}

proof fn lemma_sys_told_keeps_init<Msg>(sys: SystemView<Msg>, to: BasicActorRef, msg: SystemMsg)
    requires
        init_first_everywhere(sys),
    ensures
        init_first_everywhere(sys.sys_told(to, msg)),
{
    if seated(sys.seats, to.path_view()) {
        lemma_choice_is_first(sys.seats, to.path_view());
        let i = seat_of(sys.seats, to.path_view());
        assert(seat_init_first(sys.seats[i]));
    }
}

pub(crate) proof fn lemma_notified_keeps_init<Msg>(
    sys: SystemView<Msg>,
    subs: Seq<Subscription>,
    event: SystemEvent,
)
    requires
        init_first_everywhere(sys),
    ensures
        init_first_everywhere(sys.notified(subs, event)),
    decreases subs.len(),
{
    if subs.len() > 0 {
        lemma_notified_keeps_init(sys, subs.drop_last(), event);
        lemma_sys_told_keeps_init(
            sys.notified(subs.drop_last(), event),
            subs.last().actor,
            SystemMsg::Event(event),
        );
    }
}

pub(crate) proof fn lemma_buried_all_keeps_init<Msg>(
    sys: SystemView<Msg>,
    letters: Seq<DeadLetter>,
)
    requires
        init_first_everywhere(sys),
    ensures
        init_first_everywhere(sys.buried_all(letters)),
    decreases letters.len(),
{
    if letters.len() > 0 {
        lemma_buried_all_keeps_init(sys, letters.drop_last());
        let s = sys.buried_all(letters.drop_last());
        let recorded = SystemView { dead: s.dead.push(letters.last()), ..s };
        assert(init_first_everywhere(recorded));
        lemma_notified_keeps_init(
            recorded,
            s.subscribers,
            SystemEvent::DeadLetter { letter: letters.last() },
        );
    }
}

/// Carrying out an effect keeps `ActorInit` first everywhere.
pub proof fn law_route_keeps_init<Msg>(sys: SystemView<Msg>, from: BasicActorRef, effect: Effect)
    requires
        init_first_everywhere(sys),
    ensures
        init_first_everywhere(sys.routed(from, effect)),
{
    match effect {
        Effect::SysTell { to, msg } => {
            lemma_sys_told_keeps_init(sys, to, msg);
        },
        Effect::Publish { event } => {
            let recorded = SystemView { events: sys.events.push(event), ..sys };
            assert(init_first_everywhere(recorded));
            lemma_notified_keeps_init(recorded, sys.subscribers, event);
        },
        Effect::Resume { child } => {
            if seated(sys.seats, child.path_view()) {
                lemma_choice_is_first(sys.seats, child.path_view());
                let i = seat_of(sys.seats, child.path_view());
                assert(seat_init_first(sys.seats[i]));
            }
        },
        Effect::Unregister { path } => {
            if seated(sys.seats, path@) {
                lemma_choice_is_first(sys.seats, path@);
                let i = seat_of(sys.seats, path@);
                let after = sys.seats.remove(i);
                assert forall|k: int| 0 <= k < after.len() implies seat_init_first(
                    #[trigger] after[k],
                ) by {
                    if k < i {
                        assert(after[k] == sys.seats[k]);
                    } else {
                        assert(after[k] == sys.seats[k + 1]);
                    }
                }
            }
        },
        Effect::Schedule => {
            if seated(sys.seats, from.path_view()) {
                lemma_choice_is_first(sys.seats, from.path_view());
                let i = seat_of(sys.seats, from.path_view());
                assert(seat_init_first(sys.seats[i]));
            }
        },
    }
}

/// Carrying out the effects of a run-task keeps `ActorInit` first
/// everywhere.
pub proof fn law_settle_keeps_init<Msg>(
    sys: SystemView<Msg>,
    from: BasicActorRef,
    effects: Seq<Effect>,
)
    requires
        init_first_everywhere(sys),
    ensures
        init_first_everywhere(sys.settled(from, effects)),
    decreases effects.len(),
{
    if effects.len() > 0 {
        law_settle_keeps_init(sys, from, effects.drop_last());
        law_route_keeps_init(sys.settled(from, effects.drop_last()), from, effects.last());
    }
}

/// A run-task keeps `ActorInit` first everywhere, however it ends.
pub proof fn law_run_keeps_init<Msg>(
    sys: SystemView<Msg>,
    i: int,
    after: RunState<Msg>,
    r: Outcome,
    letters: Seq<DeadLetter>,
)
    requires
        init_first_everywhere(sys),
        0 <= i < sys.seats.len(),
        sys.seats[i] is User,
        ran(sys.seats[i]->User_0.at_start(), after, r),
    ensures
        init_first_everywhere(
            sys.after_run(i, Seat::User(parked(after)), after.effects, letters),
        ),
{
    assert(seat_init_first(sys.seats[i]));
    law_init_stays_first(sys.seats[i]->User_0.at_start(), after, r);
    let seated_again = sys.with_seat(i, Seat::User(parked(after)));
    assert(init_first_everywhere(seated_again));
    lemma_buried_all_keeps_init(seated_again, letters);
    law_settle_keeps_init(seated_again.buried_all(letters), sys.seats[i].me(), after.effects);
}

/// A run-task of a guardian keeps `ActorInit` first everywhere, however it
/// ends.
pub proof fn law_guardian_run_keeps_init<Msg>(
    sys: SystemView<Msg>,
    i: int,
    after: RunState<SystemMsg>,
    r: Outcome,
    letters: Seq<DeadLetter>,
)
    requires
        init_first_everywhere(sys),
        0 <= i < sys.seats.len(),
        sys.seats[i] is Guardian,
        ran(sys.seats[i]->Guardian_0.at_start(), after, r),
    ensures
        init_first_everywhere(
            sys.after_run(i, Seat::Guardian(parked(after)), after.effects, letters),
        ),
{
    let seated_again = sys.with_seat(i, Seat::Guardian(parked(after)));
    assert(init_first_everywhere(seated_again));
    lemma_buried_all_keeps_init(seated_again, letters);
    law_settle_keeps_init(seated_again.buried_all(letters), sys.seats[i].me(), after.effects);
}

/// A user message keeps `ActorInit` first everywhere: it waits on the user
/// queue, behind the system queue.
pub proof fn law_tell_keeps_init<Msg>(
    sys: SystemView<Msg>,
    to: BasicActorRef,
    env: Envelope<Msg>,
    text: String,
)
    requires
        init_first_everywhere(sys),
    ensures
        init_first_everywhere(sys.told(to, env, text)),
{
    let letter = DeadLetter { msg: text, sender: env.sender, recipient: to };
    assert(sys.buried_all(seq![letter]) == sys.buried(letter)) by {
        assert(seq![letter].drop_last() =~= Seq::<DeadLetter>::empty());
        assert(sys.buried_all(Seq::<DeadLetter>::empty()) == sys);
    }
    lemma_buried_all_keeps_init(sys, seq![letter]);
    if seated(sys.seats, to.path_view()) {
        lemma_choice_is_first(sys.seats, to.path_view());
        let i = seat_of(sys.seats, to.path_view());
        assert(seat_init_first(sys.seats[i]));
    }
}

/// A system message keeps `ActorInit` first everywhere: it waits behind
/// what the system queue holds.
pub proof fn law_sys_tell_keeps_init<Msg>(sys: SystemView<Msg>, to: BasicActorRef, msg: SystemMsg)
    requires
        init_first_everywhere(sys),
    ensures
        init_first_everywhere(sys.sys_told(to, msg)),
{
    lemma_sys_told_keeps_init(sys, to, msg);
}

/// A spawn keeps `ActorInit` first everywhere: the child finds `ActorInit`
/// as the only message on its system queue.
pub proof fn law_spawn_keeps_init<Msg>(
    registry: ProviderView,
    sys: SystemView<Msg>,
    name: Seq<char>,
    parent: BasicActorRef,
    r: Result<BasicActorRef, CreateError>,
    registry_after: ProviderView,
    sys_after: SystemView<Msg>,
)
    requires
        init_first_everywhere(sys),
        spawned(registry, sys, name, parent, r, registry_after, sys_after),
    ensures
        init_first_everywhere(sys_after),
{
    match r {
        Ok(actor) => {
            let strategy = choose|strategy: Strategy|
                sys_after == sys.seating(
                    Seat::User(
                        #[trigger] fresh(actor.uri, parent, sys.msg_process_limit, strategy),
                    ),
                ).adopted(parent, actor).sys_told(actor, SystemMsg::ActorInit);
            let seat = Seat::<Msg>::User(
                fresh(actor.uri, parent, sys.msg_process_limit, strategy),
            );
            let n = sys.seats.len() as int;
            let s1 = sys.seating(seat);
            let s2 = s1.adopted(parent, actor);
            let path = actor.path_view();
            let init = Envelope { msg: SystemMsg::ActorInit, sender: None };
            assert(!seated(sys.seats, path));
            assert(s1.seats.len() == n + 1);
            assert(s1.seats[n] == seat);
            lemma_adopted_shape(s1, parent, actor);
            assert(s2.seats[n].path() == path);
            assert forall|k: int| 0 <= k < n implies (#[trigger] s2.seats[k]).path() != path by {
                assert(s1.seats[k] == sys.seats[k]);
                assert(s2.seats[k].path() == s1.seats[k].path());
            }
            assert(first_seat(s2.seats, path, n));
            assert(seated(s2.seats, path));
            lemma_choice_is_first(s2.seats, path);
            assert(seat_of(s2.seats, path) == n);
            assert(!s2.seats[n].closed());
            assert(sys_after.seats == s2.seats.update(n, s2.seats[n].sys_told(init)));
            assert forall|k: int| 0 <= k < sys_after.seats.len() implies seat_init_first(
                #[trigger] sys_after.seats[k],
            ) by {
                if k < n {
                    assert(s1.seats[k] == sys.seats[k]);
                    assert(seat_init_first(sys.seats[k]));
                    assert(sys_after.seats[k] == s2.seats[k]);
                } else {
                    assert(s2.seats[n].sys_queue() =~= Seq::empty());
                    assert(sys_after.seats[n].sys_queue() =~= seq![init]);
                    assert(sys_after.seats[n] is User);
                    assert(sys_after.seats[n]->User_0.cell.log =~= Seq::empty());
                }
            }
        },
        Err(_) => {},
    }
}

} // verus!
