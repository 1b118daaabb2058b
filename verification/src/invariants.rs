//! What stays true of a registry and a system from step to step: at every
//! registered path an actor is seated, no two actors share a path or an
//! identifier, every user actor takes up `ActorInit` first, and exactly one
//! run-task waits for each actor whose schedule flag is raised.

pub mod ids;
pub mod init;
pub mod registry;
pub mod schedule;
pub mod seats;

use crate::actor::{
    BasicActorRef, DeadLetter, Effect, Envelope, Outcome, SystemEvent, SystemMsg,
    DEAD_LETTER_TOPIC, FIRST_USER_ID,
};
use crate::invariants::ids::{
    identities, ids_in_order, law_guardian_run_keeps_ids, law_run_keeps_ids, law_spawn_keeps_ids,
    lemma_notified_keeps_identities, lemma_sys_told_keeps_identities,
    lemma_told_keeps_identities,
};
use crate::invariants::init::{
    init_first_everywhere, law_guardian_run_keeps_init, law_run_keeps_init,
    law_spawn_keeps_init, law_sys_tell_keeps_init, law_tell_keeps_init,
    lemma_notified_keeps_init, seat_init_first,
};
use crate::invariants::registry::{
    in_step, law_guardian_run_in_step, law_run_in_step, law_spawn_in_step,
};
use crate::invariants::schedule::{
    law_guardian_run_keeps_orderly, law_run_keeps_orderly, law_run_task_has_its_actor,
    law_spawn_keeps_orderly, law_tell_keeps_orderly, lemma_notified_keeps_orderly, orderly,
    tasks_due, tasks_for,
};
use crate::kernel::laws::law_sentinel;
use crate::invariants::seats::{
    lemma_sys_told_keeps_first,
    lemma_adopted_shape, lemma_choice_is_first, lemma_notified_keeps_paths,
    lemma_sys_told_keeps_paths, lemma_told_keeps_paths, paths_apart,
};
use crate::kernel::model::{ran, RunState};
use crate::kernel::provider::{guardian_seat, spawned, CreateError, ProviderView};
use crate::system::{
    addressings, dispatched, lemma_notified_keeps_record, parked, released_all, seat_of, seated,
    wants, Seat, Subscription, SystemView,
};
use vstd::prelude::*;
use vstd::string::*;

verus! {

/// A system that holds the root and the three guardians and nothing else
/// is sound together with a registry that holds no path and hands out
/// identifiers from 100 on.
pub proof fn law_root_in_order<Msg>(
    empty: SystemView<Msg>,
    root: BasicActorRef,
    user: BasicActorRef,
    sysm: BasicActorRef,
    temp: BasicActorRef,
)
    requires
        empty.seats.len() == 0,
        empty.run_queue.len() == 0,
        root.path_view() == "/"@,
        user.path_view() == "/user"@,
        sysm.path_view() == "/system"@,
        temp.path_view() == "/temp"@,
    ensures
        ({
            let sys = empty.seating(guardian_seat(root.uri, root)).seating(
                guardian_seat(user.uri, root),
            ).adopted(root, user).seating(guardian_seat(sysm.uri, root)).adopted(
                root,
                sysm,
            ).seating(guardian_seat(temp.uri, root)).adopted(root, temp);
            &&& sys.seats.len() == 4
            &&& sound(
                ProviderView { paths: Set::<Seq<char>>::empty(), counter: FIRST_USER_ID },
                sys,
            )
        }),
{
    reveal_strlit("/");
    reveal_strlit("/user");
    reveal_strlit("/system");
    reveal_strlit("/temp");
    assert("/user"@[1] == 'u');
    assert("/temp"@[1] == 't');
    let s1 = empty.seating(guardian_seat(root.uri, root));
    let s2 = s1.seating(guardian_seat(user.uri, root));
    let s3 = s2.adopted(root, user);
    let s4 = s3.seating(guardian_seat(sysm.uri, root));
    let s5 = s4.adopted(root, sysm);
    let s6 = s5.seating(guardian_seat(temp.uri, root));
    let s7 = s6.adopted(root, temp);
    lemma_adopted_shape(s2, root, user);
    lemma_adopted_shape(s4, root, sysm);
    lemma_adopted_shape(s6, root, temp);
    assert(s7.seats.len() == 4);
    assert(s7.seats[0].path() == "/"@ && s7.seats[0] is Guardian && !s7.seats[0].scheduled()) by {
        assert(s1.seats[0].path() == "/"@ && s1.seats[0] is Guardian && !s1.seats[0].scheduled());
        assert(s2.seats[0] == s1.seats[0]);
        assert(s3.seats[0].path() == s2.seats[0].path() && s3.seats[0] is Guardian && !s3.seats[0].scheduled());
        assert(s4.seats[0] == s3.seats[0]);
        assert(s5.seats[0].path() == s4.seats[0].path() && s5.seats[0] is Guardian && !s5.seats[0].scheduled());
        assert(s6.seats[0] == s5.seats[0]);
        assert(s7.seats[0].path() == s6.seats[0].path() && s7.seats[0] is Guardian && !s7.seats[0].scheduled());
    }
    assert(s7.seats[1].path() == "/user"@ && s7.seats[1] is Guardian && !s7.seats[1].scheduled()) by {
        assert(s2.seats[1].path() == "/user"@ && s2.seats[1] is Guardian && !s2.seats[1].scheduled());
        assert(s3.seats[1].path() == s2.seats[1].path() && s3.seats[1] is Guardian && !s3.seats[1].scheduled());
        assert(s4.seats[1] == s3.seats[1]);
        assert(s5.seats[1].path() == s4.seats[1].path() && s5.seats[1] is Guardian && !s5.seats[1].scheduled());
        assert(s6.seats[1] == s5.seats[1]);
        assert(s7.seats[1].path() == s6.seats[1].path() && s7.seats[1] is Guardian && !s7.seats[1].scheduled());
    }
    assert(s7.seats[2].path() == "/system"@ && s7.seats[2] is Guardian && !s7.seats[2].scheduled()) by {
        assert(s4.seats[2].path() == "/system"@ && s4.seats[2] is Guardian && !s4.seats[2].scheduled());
        assert(s5.seats[2].path() == s4.seats[2].path() && s5.seats[2] is Guardian && !s5.seats[2].scheduled());
        assert(s6.seats[2] == s5.seats[2]);
        assert(s7.seats[2].path() == s6.seats[2].path() && s7.seats[2] is Guardian && !s7.seats[2].scheduled());
    }
    assert(s7.seats[3].path() == "/temp"@ && s7.seats[3] is Guardian && !s7.seats[3].scheduled()) by {
        assert(s6.seats[3].path() == "/temp"@ && s6.seats[3] is Guardian && !s6.seats[3].scheduled());
        assert(s7.seats[3].path() == s6.seats[3].path() && s7.seats[3] is Guardian && !s7.seats[3].scheduled());
    }
    assert("/"@.len() == 1 && "/user"@.len() == 5 && "/system"@.len() == 7 && "/temp"@.len() == 5);
    assert(paths_apart(s7)) by {
        assert forall|i: int, j: int|
            #![trigger s7.seats[i], s7.seats[j]]
            0 <= i < j < s7.seats.len() implies s7.seats[i].path() != s7.seats[j].path() by {
            if i == 1 && j == 3 {
                assert(s7.seats[1].path()[1] != s7.seats[3].path()[1]);
            }
        }
    }
    assert(orderly(s7)) by {
        assert(s7.run_queue =~= Seq::<BasicActorRef>::empty());
        assert forall|p: Seq<char>| #[trigger] tasks_for(s7.run_queue, p) == tasks_due(s7, p) by {
            if seated(s7.seats, p) {
                lemma_choice_is_first(s7.seats, p);
                let i = seat_of(s7.seats, p);
                assert(i == 0 || i == 1 || i == 2 || i == 3);
            }
        }
    }
    assert(ids_in_order(FIRST_USER_ID, identities(s7))) by {
        let who = identities(s7);
        assert forall|i: int| 0 <= i < who.len() implies !(#[trigger] who[i]).1 by {
            assert(i == 0 || i == 1 || i == 2 || i == 3);
            assert(who[i] == (s7.seats[i].uri(), s7.seats[i] is User));
        }
    }
    assert(init_first_everywhere(s7)) by {
        assert forall|i: int| 0 <= i < s7.seats.len() implies seat_init_first(
            #[trigger] s7.seats[i],
        ) by {
            assert(i == 0 || i == 1 || i == 2 || i == 3);
        }
    }
}

/// A registry and a system are sound together when at every registered
/// path an actor is seated, the identifiers are in order, every user actor
/// takes up `ActorInit` first, and the schedule flags tell the truth, which
/// includes that no two actors live at the same path.
pub open spec fn sound<Msg>(registry: ProviderView, sys: SystemView<Msg>) -> bool {
    &&& in_step(registry.paths, sys)
    &&& ids_in_order(registry.counter, identities(sys))
    &&& init_first_everywhere(sys)
    &&& orderly(sys)
}

/// A spawn keeps registry and system sound, whether it succeeds or fails.
pub proof fn law_spawn_keeps_sound<Msg>(
    registry: ProviderView,
    sys: SystemView<Msg>,
    name: Seq<char>,
    parent: BasicActorRef,
    r: Result<BasicActorRef, CreateError>,
    registry_after: ProviderView,
    sys_after: SystemView<Msg>,
)
    requires
        registry.counter < u64::MAX,
        sound(registry, sys),
        spawned(registry, sys, name, parent, r, registry_after, sys_after),
    ensures
        sound(registry_after, sys_after),
{
    law_spawn_keeps_ids(registry, sys, name, parent, r, registry_after, sys_after);
    law_spawn_in_step(registry, sys, name, parent, r, registry_after, sys_after);
    law_spawn_keeps_init(registry, sys, name, parent, r, registry_after, sys_after);
    law_spawn_keeps_orderly(registry, sys, name, parent, r, registry_after, sys_after);
}

/// A message keeps registry and system sound, be it a user message or a
/// system message, and whether it reaches its recipient or becomes a dead
/// letter, whatever the rendering of the letter.
pub proof fn law_tell_keeps_sound<Msg>(
    registry: ProviderView,
    sys: SystemView<Msg>,
    to: BasicActorRef,
    env: Envelope<Msg>,
    text: String,
    msg: SystemMsg,
)
    requires
        sound(registry, sys),
    ensures
        sound(registry, sys.told(to, env, text)),
        sound(registry, sys.sys_told(to, msg)),
{
    lemma_told_keeps_identities(sys, to, env, text);
    lemma_sys_told_keeps_identities(sys, to, msg);
    lemma_told_keeps_paths(sys, to, env, text);
    lemma_sys_told_keeps_paths(sys, to, msg);
    law_tell_keeps_init(sys, to, env, text);
    law_sys_tell_keeps_init(sys, to, msg);
    law_tell_keeps_orderly(sys, to, env, text, msg);
}

/// Publishing an event keeps registry and system sound.
pub proof fn law_publish_keeps_sound<Msg>(
    registry: ProviderView,
    sys: SystemView<Msg>,
    event: SystemEvent,
)
    requires
        sound(registry, sys),
    ensures
        sound(registry, sys.published(event)),
{
    let recorded = SystemView { events: sys.events.push(event), ..sys };
    assert(init_first_everywhere(recorded));
    assert(orderly(recorded)) by {
        assert forall|p: Seq<char>| #[trigger] tasks_for(recorded.run_queue, p) == tasks_due(
            recorded,
            p,
        ) by {
            assert(tasks_for(sys.run_queue, p) == tasks_due(sys, p));
        }
    }
    assert(identities(recorded) == identities(sys));
    lemma_notified_keeps_identities(recorded, sys.subscribers, event);
    lemma_notified_keeps_paths(recorded, sys.subscribers, event);
    lemma_notified_keeps_init(recorded, sys.subscribers, event);
    lemma_notified_keeps_orderly(recorded, sys.subscribers, event);
}

/// A subscription keeps registry and system sound.
pub proof fn law_subscribe_keeps_sound<Msg>(
    registry: ProviderView,
    sys: SystemView<Msg>,
    sub: Subscription,
)
    requires
        sound(registry, sys),
    ensures
        sound(registry, sys.subscribed(sub)),
{
    let after = sys.subscribed(sub);
    assert(identities(after) == identities(sys));
    assert forall|p: Seq<char>| #[trigger] tasks_for(after.run_queue, p) == tasks_due(
        after,
        p,
    ) by {
        assert(tasks_for(sys.run_queue, p) == tasks_due(sys, p));
    }
}

/// The failure of an actor reaches its parent.
///
/// When the oldest run-task that waits is cut short, the last thing that
/// happens to the system queues is that the parent of the actor, if it
/// lives and its mailbox is open, finds the failure of the actor as the
/// newest message on its system queue. This holds of every user actor
/// that has a parent.
pub proof fn law_failure_reaches_parent<Msg>(
    registry: ProviderView,
    sys: SystemView<Msg>,
    registry_after: ProviderView,
    sys_after: SystemView<Msg>,
)
    requires
        sys.run_queue.len() > 0,
        seated(sys.seats, sys.run_queue[0].path_view()),
        sys.seats[seat_of(sys.seats, sys.run_queue[0].path_view())] is User,
        sys.seats[seat_of(sys.seats, sys.run_queue[0].path_view())].parent() is Some,
        sys.seats[seat_of(sys.seats, sys.run_queue[0].path_view())].uri().uid != 0,
        dispatched(registry, sys, Outcome::Panicked, registry_after, sys_after),
    ensures
        ({
            let child = sys.seats[seat_of(sys.seats, sys.run_queue[0].path_view())];
            let parent = child.parent().unwrap();
            seated(sys_after.seats, parent.path_view()) ==> {
                let seat = sys_after.seats[seat_of(sys_after.seats, parent.path_view())];
                seat.closed() || (seat.sys_queue().len() > 0 && seat.sys_queue().last().msg
                    == SystemMsg::Failed(child.me()))
            }
        }),
{
    let actor = sys.run_queue[0];
    let base = SystemView { run_queue: sys.run_queue.drop_first(), ..sys };
    let i = seat_of(sys.seats, actor.path_view());
    lemma_choice_is_first(sys.seats, actor.path_view());
    let child = sys.seats[i];
    let p = child->User_0;
    let parent = child.parent().unwrap();
    let (after, letters) = choose|after: RunState<Msg>, letters: Seq<DeadLetter>|
        #![trigger ran(p.at_start(), after, Outcome::Panicked), addressings(letters)]
        {
            &&& ran(p.at_start(), after, Outcome::Panicked)
            &&& addressings(letters) == after.dead
            &&& sys_after == base.after_run(
                i,
                Seat::User(parked(after)),
                after.effects,
                letters,
            )
            &&& registry_after == (ProviderView {
                paths: released_all(registry.paths, after.effects),
                ..registry
            })
        };
    law_sentinel(p.at_start(), after);
    let report = Effect::SysTell { to: parent, msg: SystemMsg::Failed(child.me()) };
    assert(after.effects.last() == report);
    let before_report = base.with_seat(i, Seat::User(parked(after))).buried_all(
        letters,
    ).settled(child.me(), after.effects.drop_last());
    let told = before_report.sys_told(parent, SystemMsg::Failed(child.me()));
    assert(sys_after.seats == told.seats);
    lemma_sys_told_keeps_paths(before_report, parent, SystemMsg::Failed(child.me()));
    if seated(sys_after.seats, parent.path_view()) {
        assert(seated(before_report.seats, parent.path_view()));
        lemma_choice_is_first(before_report.seats, parent.path_view());
        let j = seat_of(before_report.seats, parent.path_view());
        if !before_report.seats[j].closed() {
            lemma_sys_told_keeps_first(before_report, parent, SystemMsg::Failed(child.me()));
        }
    }
}

/// Running a run-task keeps registry and system sound, however it ends.
pub proof fn law_dispatch_keeps_sound<Msg>(
    registry: ProviderView,
    sys: SystemView<Msg>,
    outcome: Outcome,
    registry_after: ProviderView,
    sys_after: SystemView<Msg>,
)
    requires
        sound(registry, sys),
        sys.run_queue.len() > 0,
        dispatched(registry, sys, outcome, registry_after, sys_after),
    ensures
        sound(registry_after, sys_after),
{
    let actor = sys.run_queue[0];
    let base = SystemView { run_queue: sys.run_queue.drop_first(), ..sys };
    law_run_task_has_its_actor(sys);
    let i = seat_of(sys.seats, actor.path_view());
    lemma_choice_is_first(sys.seats, actor.path_view());
    assert(in_step(registry.paths, base));
    assert(init_first_everywhere(base));
    assert(identities(base) == identities(sys));
    match base.seats[i] {
        Seat::Guardian(p) => {
            let (after, letters) = choose|after: RunState<SystemMsg>, letters: Seq<DeadLetter>|
                #![trigger ran(p.at_start(), after, outcome), addressings(letters)]
                {
                    &&& ran(p.at_start(), after, outcome)
                    &&& addressings(letters) == after.dead
                    &&& sys_after == base.after_run(
                        i,
                        Seat::Guardian(parked(after)),
                        after.effects,
                        letters,
                    )
                    &&& registry_after == (ProviderView {
                        paths: released_all(registry.paths, after.effects),
                        ..registry
                    })
                };
            law_guardian_run_keeps_ids(registry.counter, base, i, after, outcome, letters);
            law_guardian_run_in_step(registry.paths, base, i, after, outcome, letters);
            law_guardian_run_keeps_init(base, i, after, outcome, letters);
            law_guardian_run_keeps_orderly(sys, after, outcome, letters);
        },
        Seat::User(p) => {
            let (after, letters) = choose|after: RunState<Msg>, letters: Seq<DeadLetter>|
                #![trigger ran(p.at_start(), after, outcome), addressings(letters)]
                {
                    &&& ran(p.at_start(), after, outcome)
                    &&& addressings(letters) == after.dead
                    &&& sys_after == base.after_run(
                        i,
                        Seat::User(parked(after)),
                        after.effects,
                        letters,
                    )
                    &&& registry_after == (ProviderView {
                        paths: released_all(registry.paths, after.effects),
                        ..registry
                    })
                };
            law_run_keeps_ids(registry.counter, base, i, after, outcome, letters);
            law_run_in_step(registry.paths, base, i, after, outcome, letters);
            law_run_keeps_init(base, i, after, outcome, letters);
            law_run_keeps_orderly(sys, after, outcome, letters);
        },
    }
}

/// Dead letters are recorded and reach their subscribers only through
/// their system queues: after the dead letters of a run-task were recorded
/// and sent out, the dead letters of the system are those there were and
/// then these, in their order; no event was recorded, nobody subscribed or
/// left, and the same actors are seated at the same paths.
pub proof fn law_dead_letters_are_recorded<Msg>(sys: SystemView<Msg>, letters: Seq<DeadLetter>)
    ensures
        sys.buried_all(letters).dead == sys.dead + letters,
        sys.buried_all(letters).events == sys.events,
        sys.buried_all(letters).subscribers == sys.subscribers,
        sys.buried_all(letters).seats.len() == sys.seats.len(),
    decreases letters.len(),
{
    if letters.len() > 0 {
        law_dead_letters_are_recorded(sys, letters.drop_last());
        let s = sys.buried_all(letters.drop_last());
        lemma_notified_keeps_record(
            SystemView { dead: s.dead.push(letters.last()), ..s },
            s.subscribers,
            SystemEvent::DeadLetter { letter: letters.last() },
        );
        lemma_notified_keeps_identities(
            SystemView { dead: s.dead.push(letters.last()), ..s },
            s.subscribers,
            SystemEvent::DeadLetter { letter: letters.last() },
        );
        assert(sys.dead + letters.drop_last() + seq![letters.last()] =~= sys.dead + letters);
        assert(identities(sys.buried_all(letters)).len() == sys.buried_all(letters).seats.len());
        assert(identities(s).len() == s.seats.len());
    } else {
        assert(sys.dead + letters =~= sys.dead);
    }
}

/// A dead letter goes to the one subscriber of its topic: if nobody but
/// `sub` has subscribed and `sub` asked for dead letters, a user message
/// that reaches no recipient is recorded as the newest dead letter and is
/// put, as an event, on the system queue of the subscriber.
pub proof fn law_dead_letter_reaches_its_subscriber<Msg>(
    sys: SystemView<Msg>,
    to: BasicActorRef,
    env: Envelope<Msg>,
    text: String,
    sub: Subscription,
)
    requires
        !seated(sys.seats, to.path_view()),
        sys.subscribers == seq![sub],
        sub.topic@ == DEAD_LETTER_TOPIC@,
    ensures
        ({
            let letter = DeadLetter { msg: text, sender: env.sender, recipient: to };
            sys.told(to, env, text) == SystemView {
                dead: sys.dead.push(letter),
                ..sys
            }.sys_told(sub.actor, SystemMsg::Event(SystemEvent::DeadLetter { letter }))
        }),
{
    let letter = DeadLetter { msg: text, sender: env.sender, recipient: to };
    let recorded = SystemView { dead: sys.dead.push(letter), ..sys };
    let event = SystemEvent::DeadLetter { letter };
    assert(seq![sub].drop_last() =~= Seq::<Subscription>::empty());
    assert(recorded.notified(Seq::<Subscription>::empty(), event) == recorded);
    assert(wants(sub, event));
}

} // verus!
