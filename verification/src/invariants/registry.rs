//! The registry and the seats: at every registered path an actor is
//! seated.

use crate::actor::{BasicActorRef, DeadLetter, Effect, Outcome, Strategy, SystemMsg};
use crate::invariants::seats::{
    lemma_adopted_keeps_paths, lemma_buried_all_keeps_paths, lemma_notified_keeps_paths,
    lemma_resumed_keeps_paths,
    lemma_submitted_keeps_paths, lemma_sys_told_keeps_paths, lemma_update_keeps_paths,
    lemma_vacated_keeps_others,
};
use crate::kernel::laws::lemma_ran_advances;
use crate::kernel::model::{ran, RunState};
use crate::kernel::provider::{fresh, spawned, taken, CreateError, ProviderView};
use crate::system::{parked, released, released_all, seated, Seat, SystemView};
use vstd::prelude::*;

verus! {

/// At every registered path an actor is seated.
pub open spec fn in_step<Msg>(paths: Set<Seq<char>>, sys: SystemView<Msg>) -> bool {
    forall|p: Seq<char>| paths.contains(p) ==> seated(sys.seats, p)
}

/// Carrying out an effect keeps registry and system in step.
pub proof fn law_route_in_step<Msg>(
    paths: Set<Seq<char>>,
    sys: SystemView<Msg>,
    from: BasicActorRef,
    effect: Effect,
)
    requires
        in_step(paths, sys),
    ensures
        in_step(released(paths, effect), sys.routed(from, effect)),
{
    match effect {
        Effect::SysTell { to, msg } => {
            lemma_sys_told_keeps_paths(sys, to, msg);
        },
        Effect::Publish { event } => {
            let recorded = SystemView { events: sys.events.push(event), ..sys };
            lemma_notified_keeps_paths(recorded, sys.subscribers, event);
        },
        Effect::Resume { child } => {
            lemma_resumed_keeps_paths(sys, child);
        },
        Effect::Unregister { path } => {
            lemma_vacated_keeps_others(sys, path@);
        },
        Effect::Schedule => {
            lemma_submitted_keeps_paths(sys, from);
        },
    }
}

/// Carrying out the effects of a run-task keeps registry and system in
/// step.
pub proof fn law_settle_in_step<Msg>(
    paths: Set<Seq<char>>,
    sys: SystemView<Msg>,
    from: BasicActorRef,
    effects: Seq<Effect>,
)
    requires
        in_step(paths, sys),
    ensures
        in_step(released_all(paths, effects), sys.settled(from, effects)),
    decreases effects.len(),
{
    if effects.len() > 0 {
        law_settle_in_step(paths, sys, from, effects.drop_last());
        law_route_in_step(
            released_all(paths, effects.drop_last()),
            sys.settled(from, effects.drop_last()),
            from,
            effects.last(),
        );
    }
}

/// A run-task of a user actor keeps registry and system in step, however
/// it ends.
pub proof fn law_run_in_step<Msg>(
    paths: Set<Seq<char>>,
    sys: SystemView<Msg>,
    i: int,
    after: RunState<Msg>,
    r: Outcome,
    letters: Seq<DeadLetter>,
)
    requires
        in_step(paths, sys),
        0 <= i < sys.seats.len(),
        sys.seats[i] is User,
        ran(sys.seats[i]->User_0.at_start(), after, r),
    ensures
        in_step(
            released_all(paths, after.effects),
            sys.after_run(i, Seat::User(parked(after)), after.effects, letters),
        ),
{
    lemma_ran_advances(sys.seats[i]->User_0.at_start(), after, r);
    let seat = Seat::User(parked(after));
    lemma_update_keeps_paths(sys.seats, i, seat);
    lemma_buried_all_keeps_paths(sys.with_seat(i, seat), letters);
    law_settle_in_step(
        paths,
        sys.with_seat(i, seat).buried_all(letters),
        sys.seats[i].me(),
        after.effects,
    );
}

/// A run-task of a guardian keeps registry and system in step, however it
/// ends.
pub proof fn law_guardian_run_in_step<Msg>(
    paths: Set<Seq<char>>,
    sys: SystemView<Msg>,
    i: int,
    after: RunState<SystemMsg>,
    r: Outcome,
    letters: Seq<DeadLetter>,
)
    requires
        in_step(paths, sys),
        0 <= i < sys.seats.len(),
        sys.seats[i] is Guardian,
        ran(sys.seats[i]->Guardian_0.at_start(), after, r),
    ensures
        in_step(
            released_all(paths, after.effects),
            sys.after_run(i, Seat::Guardian(parked(after)), after.effects, letters),
        ),
{
    lemma_ran_advances(sys.seats[i]->Guardian_0.at_start(), after, r);
    let seat = Seat::<Msg>::Guardian(parked(after));
    lemma_update_keeps_paths(sys.seats, i, seat);
    lemma_buried_all_keeps_paths(sys.with_seat(i, seat), letters);
    law_settle_in_step(
        paths,
        sys.with_seat(i, seat).buried_all(letters),
        sys.seats[i].me(),
        after.effects,
    );
}

/// Spawning an actor keeps registry and system in step, whether the spawn
/// succeeds or fails: a child that was spawned is registered and seated.
pub proof fn law_spawn_in_step<Msg>(
    registry: ProviderView,
    sys: SystemView<Msg>,
    name: Seq<char>,
    parent: BasicActorRef,
    r: Result<BasicActorRef, CreateError>,
    registry_after: ProviderView,
    sys_after: SystemView<Msg>,
)
    requires
        in_step(registry.paths, sys),
        spawned(registry, sys, name, parent, r, registry_after, sys_after),
    ensures
        in_step(registry_after.paths, sys_after),
        r matches Ok(actor) ==> seated(sys_after.seats, actor.path_view()),
{
    match r {
        Ok(actor) => {
            let strategy = choose|strategy: Strategy|
                sys_after == sys.seating(
                    Seat::User(
                        #[trigger] fresh(actor.uri, parent, sys.msg_process_limit, strategy),
                    ),
                ).adopted(parent, actor).sys_told(actor, SystemMsg::ActorInit);
            let seat = Seat::<Msg>::User(
                fresh(actor.uri, parent, sys.msg_process_limit, strategy),
            );
            let s1 = sys.seating(seat);
            let s2 = s1.adopted(parent, actor);
            assert forall|p: Seq<char>| seated(sys.seats, p) || p == seat.path() implies seated(
                s1.seats,
                p,
            ) by {
                if seated(sys.seats, p) {
                    let k = choose|k: int|
                        0 <= k < sys.seats.len() && (#[trigger] sys.seats[k]).path() == p;
                    assert(s1.seats[k].path() == p);
                } else {
                    assert(s1.seats[sys.seats.len() as int].path() == p);
                }
            }
            lemma_adopted_keeps_paths(s1, parent, actor);
            lemma_sys_told_keeps_paths(s2, actor, SystemMsg::ActorInit);
        },
        Err(_) => {},
    }
}

/// A path is taken exactly when an actor lives there.
///
/// While registry and system are in step, a spawn finds the path of the
/// child taken if and only if an actor is seated at that path. An actor
/// that is restarting keeps its seat and its registration, so its path is
/// taken all through the restart.
pub proof fn law_path_taken_iff_seated<Msg>(
    registry: ProviderView,
    sys: SystemView<Msg>,
    path: Seq<char>,
)
    requires
        in_step(registry.paths, sys),
    ensures
        taken(registry, sys, path) <==> seated(sys.seats, path),
{
}

/// A stop gives the path back: once the effects of an actor that has
/// ended its stop are carried out, its path is registered no more.
pub proof fn law_stop_frees_path<Msg>(paths: Set<Seq<char>>, s: RunState<Msg>)
    ensures
        !released_all(paths, s.finish_stop().effects).contains(s.cell.uri.path@),
{
    let effects = s.finish_stop().effects;
    assert(effects.last() == Effect::Unregister { path: s.cell.uri.path });
}

} // verus!
