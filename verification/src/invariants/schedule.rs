//! The schedule flags: exactly one run-task waits for each actor whose flag
//! is raised, and none for anybody else.

use crate::actor::{
    BasicActorRef, DeadLetter, Effect, Envelope, Outcome, Strategy, SystemEvent, SystemMsg,
};
use crate::invariants::seats::{
    law_spawn_keeps_apart, lemma_choice_is_first, lemma_only_seat, lemma_update_keeps_apart,
    lemma_update_keeps_first, lemma_update_keeps_paths, paths_apart,
};
use crate::kernel::laws::lemma_ran_advances;
use crate::kernel::model::{ran, RunState};
use crate::kernel::provider::{fresh, spawned, CreateError, ProviderView};
use crate::system::{cancelled, parked, seat_of, seated, Seat, Subscription, SystemView};
use vstd::prelude::*;

verus! {

/// At most one run-task per actor.
///
/// A system message for an actor for which a run-task was submitted a
/// moment ago submits no second one: the run-task that waits will see the
/// message.
pub proof fn law_one_run_task<Msg>(
    sys: SystemView<Msg>,
    to: BasicActorRef,
    first: SystemMsg,
    second: SystemMsg,
)
    ensures
        sys.sys_told(to, first).sys_told(to, second).run_queue == sys.sys_told(
            to,
            first,
        ).run_queue,
        sys.sys_told(to, first).run_queue.len() <= sys.run_queue.len() + 1,
{
    if seated(sys.seats, to.path_view()) {
        lemma_choice_is_first(sys.seats, to.path_view());
        let i = seat_of(sys.seats, to.path_view());
        let seat = sys.seats[i];
        if !seat.closed() {
            let told = seat.sys_told(Envelope { msg: first, sender: None });
            lemma_update_keeps_paths(sys.seats, i, told);
            lemma_update_keeps_first(sys.seats, i, told, to.path_view());
            assert(sys.sys_told(to, first).seats[i].scheduled());
        }
    }
}

/// A user message for an actor for which a run-task was submitted a moment
/// ago submits no second one either.
pub proof fn law_one_run_task_for_user_messages<Msg>(
    sys: SystemView<Msg>,
    to: BasicActorRef,
    first: Envelope<Msg>,
    second: Envelope<Msg>,
    text: String,
)
    requires
        seated(sys.seats, to.path_view()),
        sys.seats[seat_of(sys.seats, to.path_view())].takes_user_msgs(),
    ensures
        sys.told(to, first, text).told(to, second, text).run_queue == sys.told(
            to,
            first,
            text,
        ).run_queue,
        sys.told(to, first, text).run_queue.len() <= sys.run_queue.len() + 1,
{
    if seated(sys.seats, to.path_view()) {
        lemma_choice_is_first(sys.seats, to.path_view());
        let i = seat_of(sys.seats, to.path_view());
        let seat = sys.seats[i];
        if seat.takes_user_msgs() {
            let told = seat.told(first);
            lemma_update_keeps_paths(sys.seats, i, told);
            lemma_update_keeps_first(sys.seats, i, told, to.path_view());
            assert(sys.told(to, first, text).seats[i].scheduled());
        }
    }
}

/// How many run-tasks of `queue` are for an actor at `path`.
pub open spec fn tasks_for(queue: Seq<BasicActorRef>, path: Seq<char>) -> nat
    decreases queue.len(),
{
    if queue.len() == 0 {
        0
    } else {
        tasks_for(queue.drop_last(), path) + if queue.last().path_view() == path {
            1nat
        } else {
            0nat
        }
    }
}

/// How many run-tasks should wait for an actor at `path`: one if an actor
/// lives there and its schedule flag is raised, none otherwise.
pub open spec fn tasks_due<Msg>(sys: SystemView<Msg>, path: Seq<char>) -> nat {
    if seated(sys.seats, path) && sys.seats[seat_of(sys.seats, path)].scheduled() {
        1
    } else {
        0
    }
}

/// The schedule flags tell the truth: the paths of the actors are apart,
/// exactly one run-task waits for each actor whose flag is raised, and none
/// for anybody else.
pub open spec fn orderly<Msg>(sys: SystemView<Msg>) -> bool {
    &&& paths_apart(sys)
    &&& forall|p: Seq<char>| #[trigger] tasks_for(sys.run_queue, p) == tasks_due(sys, p)
}

proof fn lemma_tasks_push(queue: Seq<BasicActorRef>, actor: BasicActorRef, path: Seq<char>)
    ensures
        tasks_for(queue.push(actor), path) == tasks_for(queue, path) + if actor.path_view()
            == path {
            1nat
        } else {
            0nat
        },
{
    assert(queue.push(actor).drop_last() =~= queue);
}

proof fn lemma_tasks_drop_first(queue: Seq<BasicActorRef>, path: Seq<char>)
    requires
        queue.len() > 0,
    ensures
        tasks_for(queue, path) == tasks_for(queue.drop_first(), path) + if queue[0].path_view()
            == path {
            1nat
        } else {
            0nat
        },
    decreases queue.len(),
{
    if queue.len() == 1 {
        assert(queue.drop_last() =~= Seq::<BasicActorRef>::empty());
        assert(queue.drop_first() =~= Seq::<BasicActorRef>::empty());
        assert(tasks_for(queue.drop_last(), path) == 0);
    } else {
        lemma_tasks_drop_first(queue.drop_last(), path);
        assert(queue.drop_last().drop_first() =~= queue.drop_first().drop_last());
        assert(queue.drop_first().last() == queue.last());
        assert(queue.drop_last()[0] == queue[0]);
    }
}

proof fn lemma_tasks_cancelled(queue: Seq<BasicActorRef>, gone: Seq<char>, path: Seq<char>)
    ensures
        tasks_for(cancelled(queue, gone), path) == if path == gone {
            0nat
        } else {
            tasks_for(queue, path)
        },
    decreases queue.len(),
{
    if queue.len() > 0 {
        lemma_tasks_cancelled(queue.drop_last(), gone, path);
        if queue.last().path_view() != gone {
            lemma_tasks_push(cancelled(queue.drop_last(), gone), queue.last(), path);
        }
    }
}

/// Raising the schedule flag of a seat, and submitting a run-task for it if
/// the flag was down, keeps the flags telling the truth.
proof fn lemma_raise_keeps_orderly<Msg>(sys: SystemView<Msg>, i: int, seat: Seat<Msg>)
    requires
        orderly(sys),
        0 <= i < sys.seats.len(),
        seat.path() == sys.seats[i].path(),
        seat.scheduled(),
    ensures
        orderly(
            SystemView {
                seats: sys.seats.update(i, seat),
                run_queue: if sys.seats[i].scheduled() {
                    sys.run_queue
                } else {
                    sys.run_queue.push(sys.seats[i].me())
                },
                ..sys
            },
        ),
{
    let after = SystemView {
        seats: sys.seats.update(i, seat),
        run_queue: if sys.seats[i].scheduled() {
            sys.run_queue
        } else {
            sys.run_queue.push(sys.seats[i].me())
        },
        ..sys
    };
    let here = sys.seats[i].path();
    lemma_update_keeps_apart(sys, i, seat);
    lemma_update_keeps_paths(sys.seats, i, seat);
    lemma_only_seat(sys, i);
    assert forall|p: Seq<char>| #[trigger] tasks_for(after.run_queue, p) == tasks_due(
        after,
        p,
    ) by {
        assert(tasks_for(sys.run_queue, p) == tasks_due(sys, p));
        lemma_tasks_push(sys.run_queue, sys.seats[i].me(), p);
        if seated(sys.seats, p) {
            lemma_update_keeps_first(sys.seats, i, seat, p);
            lemma_choice_is_first(sys.seats, p);
            let j = seat_of(sys.seats, p);
            if j != i {
                assert(after.seats[j] == sys.seats[j]);
                if p == here {
                    lemma_only_seat(sys, j);
                }
            }
        }
    }
}

/// Replacing a seat by one with the same path and the same schedule flag
/// keeps the flags telling the truth.
proof fn lemma_same_flag_keeps_orderly<Msg>(sys: SystemView<Msg>, i: int, seat: Seat<Msg>)
    requires
        orderly(sys),
        0 <= i < sys.seats.len(),
        seat.path() == sys.seats[i].path(),
        seat.scheduled() == sys.seats[i].scheduled(),
    ensures
        orderly(sys.with_seat(i, seat)),
{
    let after = sys.with_seat(i, seat);
    lemma_update_keeps_apart(sys, i, seat);
    lemma_update_keeps_paths(sys.seats, i, seat);
    assert forall|p: Seq<char>| #[trigger] tasks_for(after.run_queue, p) == tasks_due(
        after,
        p,
    ) by {
        assert(tasks_for(sys.run_queue, p) == tasks_due(sys, p));
        if seated(sys.seats, p) {
            lemma_update_keeps_first(sys.seats, i, seat, p);
            lemma_choice_is_first(sys.seats, p);
            let j = seat_of(sys.seats, p);
            if j != i {
                assert(after.seats[j] == sys.seats[j]);
            }
        }
    }
}

proof fn lemma_sys_told_keeps_orderly<Msg>(sys: SystemView<Msg>, to: BasicActorRef, msg: SystemMsg)
    requires
        orderly(sys),
    ensures
        orderly(sys.sys_told(to, msg)),
{
    if seated(sys.seats, to.path_view()) {
        lemma_choice_is_first(sys.seats, to.path_view());
        let i = seat_of(sys.seats, to.path_view());
        if !sys.seats[i].closed() {
            lemma_raise_keeps_orderly(
                sys,
                i,
                sys.seats[i].sys_told(Envelope { msg, sender: None }),
            );
        }
    }
}

pub(crate) proof fn lemma_notified_keeps_orderly<Msg>(
    sys: SystemView<Msg>,
    subs: Seq<Subscription>,
    event: SystemEvent,
)
    requires
        orderly(sys),
    ensures
        orderly(sys.notified(subs, event)),
    decreases subs.len(),
{
    if subs.len() > 0 {
        lemma_notified_keeps_orderly(sys, subs.drop_last(), event);
        lemma_sys_told_keeps_orderly(
            sys.notified(subs.drop_last(), event),
            subs.last().actor,
            SystemMsg::Event(event),
        );
    }
}

pub(crate) proof fn lemma_buried_keeps_orderly<Msg>(sys: SystemView<Msg>, letter: DeadLetter)
    requires
        orderly(sys),
    ensures
        orderly(sys.buried(letter)),
{
    let recorded = SystemView { dead: sys.dead.push(letter), ..sys };
    assert forall|p: Seq<char>| #[trigger] tasks_for(recorded.run_queue, p) == tasks_due(
        recorded,
        p,
    ) by {
        assert(tasks_for(sys.run_queue, p) == tasks_due(sys, p));
    }
    lemma_notified_keeps_orderly(recorded, sys.subscribers, SystemEvent::DeadLetter { letter });
}

pub(crate) proof fn lemma_buried_all_keeps_orderly<Msg>(
    sys: SystemView<Msg>,
    letters: Seq<DeadLetter>,
)
    requires
        orderly(sys),
    ensures
        orderly(sys.buried_all(letters)),
    decreases letters.len(),
{
    if letters.len() > 0 {
        lemma_buried_all_keeps_orderly(sys, letters.drop_last());
        lemma_buried_keeps_orderly(sys.buried_all(letters.drop_last()), letters.last());
    }
}

/// Giving up a seat and cancelling its run-tasks keeps the flags telling
/// the truth.
proof fn lemma_vacated_keeps_orderly<Msg>(sys: SystemView<Msg>, path: Seq<char>)
    requires
        orderly(sys),
    ensures
        orderly(sys.vacated(path)),
{
    if seated(sys.seats, path) {
        lemma_choice_is_first(sys.seats, path);
        let i = seat_of(sys.seats, path);
        let after = sys.vacated(path);
        assert(after.seats =~= sys.seats.remove(i));
        // The paths stay apart, and nobody is left at `path`.
        assert forall|a: int, b: int|
            #![trigger after.seats[a], after.seats[b]]
            0 <= a < b < after.seats.len() implies after.seats[a].path()
            != after.seats[b].path() by {
            let a0 = if a < i {
                a
            } else {
                a + 1
            };
            let b0 = if b < i {
                b
            } else {
                b + 1
            };
            assert(after.seats[a] == sys.seats[a0]);
            assert(after.seats[b] == sys.seats[b0]);
            assert(sys.seats[a0].path() != sys.seats[b0].path());
        }
        assert(!seated(after.seats, path)) by {
            if seated(after.seats, path) {
                let k = choose|k: int|
                    0 <= k < after.seats.len() && (#[trigger] after.seats[k]).path() == path;
                let k0 = if k < i {
                    k
                } else {
                    k + 1
                };
                assert(after.seats[k] == sys.seats[k0]);
                lemma_only_seat(sys, k0);
            }
        }
        assert forall|p: Seq<char>| #[trigger] tasks_for(after.run_queue, p) == tasks_due(
            after,
            p,
        ) by {
            assert(tasks_for(sys.run_queue, p) == tasks_due(sys, p));
            lemma_tasks_cancelled(sys.run_queue, path, p);
            if p != path {
                if seated(sys.seats, p) {
                    lemma_choice_is_first(sys.seats, p);
                    let j = seat_of(sys.seats, p);
                    let j1 = if j < i {
                        j
                    } else {
                        j - 1
                    };
                    assert(after.seats[j1] == sys.seats[j]);
                    lemma_only_seat(after, j1);
                } else if seated(after.seats, p) {
                    let k = choose|k: int|
                        0 <= k < after.seats.len() && (#[trigger] after.seats[k]).path() == p;
                    let k0 = if k < i {
                        k
                    } else {
                        k + 1
                    };
                    assert(after.seats[k] == sys.seats[k0]);
                }
            }
        }
    }
}

/// Carrying out an effect keeps the schedule flags telling the truth.
pub proof fn law_route_keeps_orderly<Msg>(sys: SystemView<Msg>, from: BasicActorRef, effect: Effect)
    requires
        orderly(sys),
    ensures
        orderly(sys.routed(from, effect)),
{
    match effect {
        Effect::SysTell { to, msg } => {
            lemma_sys_told_keeps_orderly(sys, to, msg);
        },
        Effect::Publish { event } => {
            let recorded = SystemView { events: sys.events.push(event), ..sys };
            assert(orderly(recorded)) by {
                assert forall|p: Seq<char>| #[trigger] tasks_for(recorded.run_queue, p)
                    == tasks_due(recorded, p) by {
                    assert(tasks_for(sys.run_queue, p) == tasks_due(sys, p));
                }
            }
            lemma_notified_keeps_orderly(recorded, sys.subscribers, event);
        },
        Effect::Resume { child } => {
            if seated(sys.seats, child.path_view()) {
                lemma_choice_is_first(sys.seats, child.path_view());
                let i = seat_of(sys.seats, child.path_view());
                lemma_raise_keeps_orderly(sys, i, sys.seats[i].resumed());
            }
        },
        Effect::Unregister { path } => {
            lemma_vacated_keeps_orderly(sys, path@);
        },
        Effect::Schedule => {
            if seated(sys.seats, from.path_view()) {
                lemma_choice_is_first(sys.seats, from.path_view());
                let i = seat_of(sys.seats, from.path_view());
                lemma_raise_keeps_orderly(sys, i, sys.seats[i].rescheduled());
            }
        },
    }
}

/// Carrying out the effects of a run-task keeps the schedule flags telling
/// the truth.
pub proof fn law_settle_keeps_orderly<Msg>(
    sys: SystemView<Msg>,
    from: BasicActorRef,
    effects: Seq<Effect>,
)
    requires
        orderly(sys),
    ensures
        orderly(sys.settled(from, effects)),
    decreases effects.len(),
{
    if effects.len() > 0 {
        law_settle_keeps_orderly(sys, from, effects.drop_last());
        law_route_keeps_orderly(sys.settled(from, effects.drop_last()), from, effects.last());
    }
}

/// A message, of the user or of the system, keeps the schedule flags
/// telling the truth: it raises the flag of its recipient and submits a
/// run-task only if the flag was down.
pub proof fn law_tell_keeps_orderly<Msg>(
    sys: SystemView<Msg>,
    to: BasicActorRef,
    env: Envelope<Msg>,
    text: String,
    msg: SystemMsg,
)
    requires
        orderly(sys),
    ensures
        orderly(sys.told(to, env, text)),
        orderly(sys.sys_told(to, msg)),
{
    lemma_buried_keeps_orderly(sys, DeadLetter { msg: text, sender: env.sender, recipient: to });
    lemma_sys_told_keeps_orderly(sys, to, msg);
    if seated(sys.seats, to.path_view()) {
        lemma_choice_is_first(sys.seats, to.path_view());
        let i = seat_of(sys.seats, to.path_view());
        if sys.seats[i].takes_user_msgs() {
            lemma_raise_keeps_orderly(sys, i, sys.seats[i].told(env));
        }
    }
}

/// The oldest run-task that waits is for an actor that lives and whose
/// schedule flag is raised.
pub proof fn law_run_task_has_its_actor<Msg>(sys: SystemView<Msg>)
    requires
        orderly(sys),
        sys.run_queue.len() > 0,
    ensures
        seated(sys.seats, sys.run_queue[0].path_view()),
        sys.seats[seat_of(sys.seats, sys.run_queue[0].path_view())].scheduled(),
        tasks_for(sys.run_queue.drop_first(), sys.run_queue[0].path_view()) == 0,
{
    let path = sys.run_queue[0].path_view();
    lemma_tasks_drop_first(sys.run_queue, path);
    assert(tasks_for(sys.run_queue, path) == tasks_due(sys, path));
}

/// One run-task at a time for each actor.
///
/// While the schedule flags tell the truth, running the oldest run-task
/// that waits keeps them telling the truth, however the run-task ends:
/// while an actor runs no other run-task waits for it, and afterwards one
/// waits for it exactly if its flag was raised again.
pub proof fn law_run_keeps_orderly<Msg>(
    sys: SystemView<Msg>,
    after: RunState<Msg>,
    r: Outcome,
    letters: Seq<DeadLetter>,
)
    requires
        orderly(sys),
        sys.run_queue.len() > 0,
        sys.seats[seat_of(sys.seats, sys.run_queue[0].path_view())] is User,
        ran(
            sys.seats[seat_of(sys.seats, sys.run_queue[0].path_view())]->User_0.at_start(),
            after,
            r,
        ),
    ensures
        orderly(
            SystemView { run_queue: sys.run_queue.drop_first(), ..sys }.after_run(
                seat_of(sys.seats, sys.run_queue[0].path_view()),
                Seat::User(parked(after)),
                after.effects,
                letters,
            ),
        ),
{
    let path = sys.run_queue[0].path_view();
    let i = seat_of(sys.seats, path);
    law_run_task_has_its_actor(sys);
    lemma_choice_is_first(sys.seats, path);
    let before = sys.seats[i]->User_0.at_start();
    lemma_ran_advances(before, after, r);
    lemma_ran_lowers_flag(before, after, r);
    let seat = Seat::User(parked(after));
    let base = SystemView { run_queue: sys.run_queue.drop_first(), ..sys };
    lemma_popped_keeps_orderly(sys, seat);
    lemma_buried_all_keeps_orderly(base.with_seat(i, seat), letters);
    law_settle_keeps_orderly(
        base.with_seat(i, seat).buried_all(letters),
        sys.seats[i].me(),
        after.effects,
    );
}

/// One run-task at a time for each guardian, too.
pub proof fn law_guardian_run_keeps_orderly<Msg>(
    sys: SystemView<Msg>,
    after: RunState<SystemMsg>,
    r: Outcome,
    letters: Seq<DeadLetter>,
)
    requires
        orderly(sys),
        sys.run_queue.len() > 0,
        sys.seats[seat_of(sys.seats, sys.run_queue[0].path_view())] is Guardian,
        ran(
            sys.seats[seat_of(sys.seats, sys.run_queue[0].path_view())]->Guardian_0.at_start(),
            after,
            r,
        ),
    ensures
        orderly(
            SystemView { run_queue: sys.run_queue.drop_first(), ..sys }.after_run(
                seat_of(sys.seats, sys.run_queue[0].path_view()),
                Seat::Guardian(parked(after)),
                after.effects,
                letters,
            ),
        ),
{
    let path = sys.run_queue[0].path_view();
    let i = seat_of(sys.seats, path);
    law_run_task_has_its_actor(sys);
    lemma_choice_is_first(sys.seats, path);
    let before = sys.seats[i]->Guardian_0.at_start();
    lemma_ran_advances(before, after, r);
    lemma_ran_lowers_flag(before, after, r);
    let seat = Seat::<Msg>::Guardian(parked(after));
    let base = SystemView { run_queue: sys.run_queue.drop_first(), ..sys };
    lemma_popped_keeps_orderly(sys, seat);
    lemma_buried_all_keeps_orderly(base.with_seat(i, seat), letters);
    law_settle_keeps_orderly(
        base.with_seat(i, seat).buried_all(letters),
        sys.seats[i].me(),
        after.effects,
    );
}

/// Every run-task ends with the schedule flag down.
proof fn lemma_ran_lowers_flag<Msg>(before: RunState<Msg>, after: RunState<Msg>, r: Outcome)
    requires
        ran(before, after, r),
    ensures
        !after.mbox.scheduled,
{
}

/// Taking the oldest run-task off the queue and seating its actor again
/// with the flag down keeps the flags telling the truth.
proof fn lemma_popped_keeps_orderly<Msg>(sys: SystemView<Msg>, seat: Seat<Msg>)
    requires
        orderly(sys),
        sys.run_queue.len() > 0,
        seat.path() == sys.run_queue[0].path_view(),
        !seat.scheduled(),
    ensures
        orderly(
            SystemView { run_queue: sys.run_queue.drop_first(), ..sys }.with_seat(
                seat_of(sys.seats, sys.run_queue[0].path_view()),
                seat,
            ),
        ),
{
    let path = sys.run_queue[0].path_view();
    let i = seat_of(sys.seats, path);
    law_run_task_has_its_actor(sys);
    lemma_choice_is_first(sys.seats, path);
    let after = SystemView { run_queue: sys.run_queue.drop_first(), ..sys }.with_seat(i, seat);
    lemma_update_keeps_apart(sys, i, seat);
    lemma_update_keeps_paths(sys.seats, i, seat);
    assert(paths_apart(after)) by {
        assert forall|a: int, b: int|
            #![trigger after.seats[a], after.seats[b]]
            0 <= a < b < after.seats.len() implies after.seats[a].path()
            != after.seats[b].path() by {
            assert(sys.with_seat(i, seat).seats[a].path() != sys.with_seat(i, seat).seats[b].path());
        }
    }
    assert forall|p: Seq<char>| #[trigger] tasks_for(after.run_queue, p) == tasks_due(
        after,
        p,
    ) by {
        assert(tasks_for(sys.run_queue, p) == tasks_due(sys, p));
        lemma_tasks_drop_first(sys.run_queue, p);
        if seated(sys.seats, p) {
            lemma_update_keeps_first(sys.seats, i, seat, p);
            lemma_choice_is_first(sys.seats, p);
            let j = seat_of(sys.seats, p);
            if j != i {
                assert(after.seats[j] == sys.seats[j]);
            }
        }
    }
}

/// Dead letters change nothing about run-tasks.
/// A spawn keeps the schedule flags telling the truth: the child is seated
/// with its flag raised and one run-task submitted for it.
pub proof fn law_spawn_keeps_orderly<Msg>(
    registry: ProviderView,
    sys: SystemView<Msg>,
    name: Seq<char>,
    parent: BasicActorRef,
    r: Result<BasicActorRef, CreateError>,
    registry_after: ProviderView,
    sys_after: SystemView<Msg>,
)
    requires
        orderly(sys),
        spawned(registry, sys, name, parent, r, registry_after, sys_after),
    ensures
        orderly(sys_after),
{
    match r {
        Ok(actor) => {
            let strategy = choose|strategy: Strategy|
                sys_after == sys.seating(
                    Seat::User(
                        #[trigger] fresh(actor.uri, parent, sys.msg_process_limit, strategy),
                    ),
                ).adopted(parent, actor).sys_told(actor, SystemMsg::ActorInit);
            let seat = Seat::<Msg>::User(
                fresh(actor.uri, parent, sys.msg_process_limit, strategy),
            );
            let n = sys.seats.len() as int;
            let s1 = sys.seating(seat);
            let s2 = s1.adopted(parent, actor);
            let path = seat.path();
            assert(!seated(sys.seats, path));
            law_spawn_keeps_apart(registry, sys, name, parent, r, registry_after, sys_after);
            assert(paths_apart(s1)) by {
                assert forall|a: int, b: int|
                    #![trigger s1.seats[a], s1.seats[b]]
                    0 <= a < b < s1.seats.len() implies s1.seats[a].path()
                    != s1.seats[b].path() by {
                    assert(s1.seats[a] == sys.seats[a]);
                    if b < n {
                        assert(s1.seats[b] == sys.seats[b]);
                        assert(sys.seats[a].path() != sys.seats[b].path());
                    }
                }
            }
            assert(orderly(s1)) by {
                assert forall|p: Seq<char>| #[trigger] tasks_for(s1.run_queue, p) == tasks_due(
                    s1,
                    p,
                ) by {
                    assert(tasks_for(sys.run_queue, p) == tasks_due(sys, p));
                    if seated(sys.seats, p) {
                        lemma_choice_is_first(sys.seats, p);
                        let j = seat_of(sys.seats, p);
                        assert(s1.seats[j] == sys.seats[j]);
                        lemma_only_seat(s1, j);
                    } else if p == path {
                        assert(s1.seats[n] == seat);
                        lemma_only_seat(s1, n);
                    } else if seated(s1.seats, p) {
                        let k = choose|k: int|
                            0 <= k < s1.seats.len() && (#[trigger] s1.seats[k]).path() == p;
                        if k < n {
                            assert(s1.seats[k] == sys.seats[k]);
                        }
                    }
                }
            }
            if seated(s1.seats, parent.path_view()) {
                lemma_choice_is_first(s1.seats, parent.path_view());
                let i = seat_of(s1.seats, parent.path_view());
                lemma_same_flag_keeps_orderly(s1, i, s1.seats[i].with_child(actor));
            }
            lemma_sys_told_keeps_orderly(s2, actor, SystemMsg::ActorInit);
        },
        Err(_) => {},
    }
}

} // verus!
