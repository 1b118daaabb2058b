//! Seats and paths: what the operations of a system do to the paths at
//! which actors live.

use crate::actor::{BasicActorRef, DeadLetter, Envelope, Strategy, SystemEvent, SystemMsg};
use crate::kernel::provider::{fresh, spawned, CreateError, ProviderView};
use crate::system::{first_seat, seat_of, seated, Seat, Subscription, SystemView};
use vstd::prelude::*;

verus! {

/// Whether two systems seat actors at the same paths.
pub open spec fn same_paths<Msg>(a: SystemView<Msg>, b: SystemView<Msg>) -> bool {
    forall|p: Seq<char>| seated(a.seats, p) <==> seated(b.seats, p)
}

pub(crate) proof fn lemma_choice_is_first<Msg>(seats: Seq<Seat<Msg>>, path: Seq<char>)
    requires
        seated(seats, path),
    ensures
        first_seat(seats, path, seat_of(seats, path)),
    decreases seats.len(),
{
    let i = choose|i: int| 0 <= i < seats.len() && (#[trigger] seats[i]).path() == path;
    lemma_first_up_to(seats, path, i);
}

proof fn lemma_first_up_to<Msg>(seats: Seq<Seat<Msg>>, path: Seq<char>, i: int)
    requires
        0 <= i < seats.len(),
        seats[i].path() == path,
    ensures
        exists|j: int| first_seat(seats, path, j),
    decreases i,
{
    if forall|k: int| 0 <= k < i ==> (#[trigger] seats[k]).path() != path {
        assert(first_seat(seats, path, i));
    } else {
        let k = choose|k: int| 0 <= k < i && (#[trigger] seats[k]).path() == path;
        lemma_first_up_to(seats, path, k);
    }
}

/// Replacing a seat by one with the same path leaves the seated paths as
/// they were.
pub(crate) proof fn lemma_update_keeps_paths<Msg>(seats: Seq<Seat<Msg>>, i: int, seat: Seat<Msg>)
    requires
        0 <= i < seats.len(),
        seat.path() == seats[i].path(),
    ensures
        forall|p: Seq<char>| seated(seats.update(i, seat), p) <==> seated(seats, p),
{
    let after = seats.update(i, seat);
    assert forall|p: Seq<char>| seated(after, p) <==> seated(seats, p) by {
        if seated(seats, p) {
            let k = choose|k: int| 0 <= k < seats.len() && (#[trigger] seats[k]).path() == p;
            assert(after[k].path() == p);
        }
        if seated(after, p) {
            let k = choose|k: int| 0 <= k < after.len() && (#[trigger] after[k]).path() == p;
            assert(seats[k].path() == p);
        }
    }
}

/// A system message changes no path.
pub proof fn lemma_sys_told_keeps_paths<Msg>(
    sys: SystemView<Msg>,
    to: BasicActorRef,
    msg: SystemMsg,
)
    ensures
        same_paths(sys, sys.sys_told(to, msg)),
{
    if seated(sys.seats, to.path_view()) {
        lemma_choice_is_first(sys.seats, to.path_view());
        let i = seat_of(sys.seats, to.path_view());
        if !sys.seats[i].closed() {
            lemma_update_keeps_paths(
                sys.seats,
                i,
                sys.seats[i].sys_told(Envelope { msg, sender: None }),
            );
        }
    }
}

/// A system message leaves the first seat of its recipient where it was.
pub(crate) proof fn lemma_sys_told_keeps_first<Msg>(
    sys: SystemView<Msg>,
    to: BasicActorRef,
    msg: SystemMsg,
)
    requires
        seated(sys.seats, to.path_view()),
    ensures
        seat_of(sys.sys_told(to, msg).seats, to.path_view()) == seat_of(
            sys.seats,
            to.path_view(),
        ),
{
    lemma_choice_is_first(sys.seats, to.path_view());
    let i = seat_of(sys.seats, to.path_view());
    if !sys.seats[i].closed() {
        lemma_update_keeps_first(
            sys.seats,
            i,
            sys.seats[i].sys_told(Envelope { msg, sender: None }),
            to.path_view(),
        );
    }
}

/// Lifting a suspension changes no path.
pub proof fn lemma_resumed_keeps_paths<Msg>(sys: SystemView<Msg>, child: BasicActorRef)
    ensures
        same_paths(sys, sys.resumed(child)),
{
    if seated(sys.seats, child.path_view()) {
        lemma_choice_is_first(sys.seats, child.path_view());
        let i = seat_of(sys.seats, child.path_view());
        lemma_update_keeps_paths(sys.seats, i, sys.seats[i].resumed());
    }
}

/// Submitting a run-task changes no path.
pub proof fn lemma_submitted_keeps_paths<Msg>(sys: SystemView<Msg>, actor: BasicActorRef)
    ensures
        same_paths(sys, sys.submitted(actor)),
{
    if seated(sys.seats, actor.path_view()) {
        lemma_choice_is_first(sys.seats, actor.path_view());
        let i = seat_of(sys.seats, actor.path_view());
        lemma_update_keeps_paths(sys.seats, i, sys.seats[i].rescheduled());
    }
}

/// Adopting a child changes no path.
pub proof fn lemma_adopted_keeps_paths<Msg>(
    sys: SystemView<Msg>,
    parent: BasicActorRef,
    child: BasicActorRef,
)
    ensures
        same_paths(sys, sys.adopted(parent, child)),
{
    if seated(sys.seats, parent.path_view()) {
        lemma_choice_is_first(sys.seats, parent.path_view());
        let i = seat_of(sys.seats, parent.path_view());
        lemma_update_keeps_paths(sys.seats, i, sys.seats[i].with_child(child));
    }
}

/// Notifying subscribers changes no path.
pub proof fn lemma_notified_keeps_paths<Msg>(
    sys: SystemView<Msg>,
    subs: Seq<Subscription>,
    event: SystemEvent,
)
    ensures
        same_paths(sys, sys.notified(subs, event)),
    decreases subs.len(),
{
    if subs.len() > 0 {
        let s = sys.notified(subs.drop_last(), event);
        lemma_notified_keeps_paths(sys, subs.drop_last(), event);
        lemma_sys_told_keeps_paths(s, subs.last().actor, SystemMsg::Event(event));
    }
}

/// Recording a dead letter and sending it to its subscribers changes no
/// path.
pub proof fn lemma_buried_keeps_paths<Msg>(sys: SystemView<Msg>, letter: DeadLetter)
    ensures
        same_paths(sys, sys.buried(letter)),
{
    let recorded = SystemView { dead: sys.dead.push(letter), ..sys };
    lemma_notified_keeps_paths(recorded, sys.subscribers, SystemEvent::DeadLetter { letter });
}

/// Recording dead letters and sending them to their subscribers changes no
/// path.
pub proof fn lemma_buried_all_keeps_paths<Msg>(sys: SystemView<Msg>, letters: Seq<DeadLetter>)
    ensures
        same_paths(sys, sys.buried_all(letters)),
    decreases letters.len(),
{
    if letters.len() > 0 {
        lemma_buried_all_keeps_paths(sys, letters.drop_last());
        lemma_buried_keeps_paths(sys.buried_all(letters.drop_last()), letters.last());
    }
}

/// Giving up the seat at a path leaves every other seated path seated.
pub proof fn lemma_vacated_keeps_others<Msg>(sys: SystemView<Msg>, path: Seq<char>)
    ensures
        forall|p: Seq<char>|
            p != path && seated(sys.seats, p) ==> seated(sys.vacated(path).seats, p),
{
    if seated(sys.seats, path) {
        lemma_choice_is_first(sys.seats, path);
        let i = seat_of(sys.seats, path);
        let after = sys.seats.remove(i);
        assert forall|p: Seq<char>| p != path && seated(sys.seats, p) implies seated(after, p) by {
            let k = choose|k: int|
                0 <= k < sys.seats.len() && (#[trigger] sys.seats[k]).path() == p;
            if k < i {
                assert(after[k].path() == p);
            } else {
                assert(after[k - 1].path() == p);
            }
        }
    }
}

/// A user message changes no path.
pub proof fn lemma_told_keeps_paths<Msg>(
    sys: SystemView<Msg>,
    to: BasicActorRef,
    env: Envelope<Msg>,
    text: String,
)
    ensures
        same_paths(sys, sys.told(to, env, text)),
{
    lemma_buried_keeps_paths(sys, DeadLetter { msg: text, sender: env.sender, recipient: to });
    if seated(sys.seats, to.path_view()) {
        lemma_choice_is_first(sys.seats, to.path_view());
        let i = seat_of(sys.seats, to.path_view());
        if sys.seats[i].takes_user_msgs() {
            lemma_update_keeps_paths(sys.seats, i, sys.seats[i].told(env));
        }
    }
}

/// Replacing a seat by one with the same path leaves the first seat of
/// every path where it was.
pub(crate) proof fn lemma_update_keeps_first<Msg>(
    seats: Seq<Seat<Msg>>,
    i: int,
    seat: Seat<Msg>,
    path: Seq<char>,
)
    requires
        0 <= i < seats.len(),
        seat.path() == seats[i].path(),
        seated(seats, path),
    ensures
        seat_of(seats.update(i, seat), path) == seat_of(seats, path),
{
    let after = seats.update(i, seat);
    lemma_update_keeps_paths(seats, i, seat);
    lemma_choice_is_first(seats, path);
    lemma_choice_is_first(after, path);
    let a = seat_of(seats, path);
    let b = seat_of(after, path);
    if a < b {
        assert(after[a].path() == path);
    } else if b < a {
        assert(seats[b].path() == path);
    }
}

/// No two actors of the system live at the same path.
pub open spec fn paths_apart<Msg>(sys: SystemView<Msg>) -> bool {
    forall|i: int, j: int|
        #![trigger sys.seats[i], sys.seats[j]]
        0 <= i < j < sys.seats.len() ==> sys.seats[i].path() != sys.seats[j].path()
}

pub(crate) proof fn lemma_update_keeps_apart<Msg>(sys: SystemView<Msg>, i: int, seat: Seat<Msg>)
    requires
        paths_apart(sys),
        0 <= i < sys.seats.len(),
        seat.path() == sys.seats[i].path(),
    ensures
        paths_apart(sys.with_seat(i, seat)),
{
    let after = sys.with_seat(i, seat);
    assert forall|a: int, b: int|
        #![trigger after.seats[a], after.seats[b]]
        0 <= a < b < after.seats.len() implies after.seats[a].path() != after.seats[b].path() by {
        assert(sys.seats[a].path() != sys.seats[b].path());
    }
}

proof fn lemma_sys_told_keeps_apart<Msg>(sys: SystemView<Msg>, to: BasicActorRef, msg: SystemMsg)
    requires
        paths_apart(sys),
    ensures
        paths_apart(sys.sys_told(to, msg)),
{
    if seated(sys.seats, to.path_view()) {
        lemma_choice_is_first(sys.seats, to.path_view());
        let i = seat_of(sys.seats, to.path_view());
        if !sys.seats[i].closed() {
            lemma_update_keeps_apart(
                sys,
                i,
                sys.seats[i].sys_told(Envelope { msg, sender: None }),
            );
        }
    }
}

/// A spawn keeps the paths of the actors apart: a child is seated only at
/// a path at which nobody lives.
pub proof fn law_spawn_keeps_apart<Msg>(
    registry: ProviderView,
    sys: SystemView<Msg>,
    name: Seq<char>,
    parent: BasicActorRef,
    r: Result<BasicActorRef, CreateError>,
    registry_after: ProviderView,
    sys_after: SystemView<Msg>,
)
    requires
        paths_apart(sys),
        spawned(registry, sys, name, parent, r, registry_after, sys_after),
    ensures
        paths_apart(sys_after),
{
    match r {
        Ok(actor) => {
            let strategy = choose|strategy: Strategy|
                sys_after == sys.seating(
                    Seat::User(
                        #[trigger] fresh(actor.uri, parent, sys.msg_process_limit, strategy),
                    ),
                ).adopted(parent, actor).sys_told(actor, SystemMsg::ActorInit);
            let seat = Seat::<Msg>::User(
                fresh(actor.uri, parent, sys.msg_process_limit, strategy),
            );
            let s1 = sys.seating(seat);
            let s2 = s1.adopted(parent, actor);
            assert(!seated(sys.seats, seat.path()));
            assert forall|a: int, b: int|
                #![trigger s1.seats[a], s1.seats[b]]
                0 <= a < b < s1.seats.len() implies s1.seats[a].path() != s1.seats[b].path() by {
                assert(s1.seats[a] == sys.seats[a]);
                if b < sys.seats.len() {
                    assert(s1.seats[b] == sys.seats[b]);
                    assert(sys.seats[a].path() != sys.seats[b].path());
                }
            }
            if seated(s1.seats, parent.path_view()) {
                lemma_choice_is_first(s1.seats, parent.path_view());
                let i = seat_of(s1.seats, parent.path_view());
                lemma_update_keeps_apart(s1, i, s1.seats[i].with_child(actor));
            }
            lemma_sys_told_keeps_apart(s2, actor, SystemMsg::ActorInit);
        },
        Err(_) => {},
    }
}

/// Adopting a child changes at most the children of one seat.
pub(crate) proof fn lemma_adopted_shape<Msg>(sys: SystemView<Msg>, parent: BasicActorRef, child: BasicActorRef)
    ensures
        sys.adopted(parent, child).seats.len() == sys.seats.len(),
        forall|k: int|
            0 <= k < sys.seats.len() ==> {
                let now = #[trigger] sys.adopted(parent, child).seats[k];
                now == sys.seats[k] || now == sys.seats[k].with_child(child)
            },
{
    if seated(sys.seats, parent.path_view()) {
        lemma_choice_is_first(sys.seats, parent.path_view());
    }
}

/// Where the paths are apart, the seat at a path is the first and only
/// seat at that path.
pub(crate) proof fn lemma_only_seat<Msg>(sys: SystemView<Msg>, i: int)
    requires
        paths_apart(sys),
        0 <= i < sys.seats.len(),
    ensures
        seated(sys.seats, sys.seats[i].path()),
        seat_of(sys.seats, sys.seats[i].path()) == i,
{
    let path = sys.seats[i].path();
    lemma_choice_is_first(sys.seats, path);
    let j = seat_of(sys.seats, path);
    if j < i {
        assert(sys.seats[j].path() != sys.seats[i].path());
    } else if i < j {
        assert(sys.seats[i].path() != sys.seats[j].path());
    }
}

} // verus!
