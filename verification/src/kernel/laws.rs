//! What holds of every run-task, proved from the steps of the model.

use crate::actor::{Effect, Envelope, Outcome, SystemCmd, SystemEvent, SystemMsg};
use crate::kernel::cell::{CellState, Delivery};
use crate::kernel::mailbox::MailboxView;
use crate::kernel::model::{
    advanced, calm, delivered_entries, in_hand, lemma_advanced_trans, lemma_calm_advanced,
    lemma_noted_user, lemma_sys_cut_calm, lemma_sys_phase_calm, lemma_sys_phase_record,
    lemma_user_phase_advances,
    own_effect, ran, system_entries, undelivered, user_count, user_entries, RunState,
};
use vstd::prelude::*;

verus! {

/// A whole run-task in which every callback completes takes nothing back.
pub proof fn lemma_run_advances<Msg>(s: RunState<Msg>)
    ensures
        advanced(s, s.run()),
{
    let s1 = s.sys_phase();
    let s2 = s1.user_phase(s.mbox.msg_process_limit as nat);
    let s3 = s2.sys_phase();
    lemma_sys_phase_calm(s);
    lemma_calm_advanced(s, s1);
    lemma_user_phase_advances(s1, s.mbox.msg_process_limit as nat);
    lemma_advanced_trans(s, s1, s2);
    lemma_sys_phase_calm(s2);
    lemma_calm_advanced(s2, s3);
    lemma_advanced_trans(s, s2, s3);
    lemma_calm_advanced(s3, s3);
    assert(advanced(s3, s3.release()));
    lemma_advanced_trans(s, s3, s3.release());
}

/// Every run-task, however it ends, takes nothing back.
pub proof fn lemma_ran_advances<Msg>(before: RunState<Msg>, after: RunState<Msg>, r: Outcome)
    requires
        ran(before, after, r),
    ensures
        advanced(before, after),
{
    match r {
        Outcome::Completed => {
            lemma_run_advances(before);
        },
        Outcome::Panicked => {
            let mid = choose|mid: RunState<Msg>|
                #[trigger] advanced(before, mid) && after == mid.fail();
            assert(calm(mid, mid.fail()));
            lemma_calm_advanced(mid, mid.fail());
            lemma_advanced_trans(before, mid, after);
        },
    }
}

/// User messages are delivered in the order in which they were queued.
///
/// Whatever a run-task delivers is the front of the user queue as it stood
/// at the start: the actor sees the message at place `i` of the queue as
/// the `i`-th message of this run-task, so of two messages the one that was
/// queued first is seen first. This holds also of a run-task in which a
/// callback was cut short.
pub proof fn law_fifo<Msg>(before: RunState<Msg>, after: RunState<Msg>, r: Outcome)
    requires
        ran(before, after, r),
    ensures
        ({
            let seen = user_entries(before.cell.log).len();
            let taken = user_entries(after.cell.log).len() - seen;
            &&& 0 <= taken <= before.mbox.queue.len()
            &&& forall|i: int|
                0 <= i < taken ==> #[trigger] user_entries(after.cell.log)[seen + i]
                    == before.mbox.queue[i]
        }),
{
    lemma_ran_advances(before, after, r);
}

/// One run-task delivers at most as many user messages as the quota of the
/// mailbox says, also when more are queued.
pub proof fn law_quota<Msg>(before: RunState<Msg>, after: RunState<Msg>, r: Outcome)
    requires
        ran(before, after, r),
    ensures
        user_count(after.cell.log) - user_count(before.cell.log)
            <= before.mbox.msg_process_limit,
{
}

/// With an empty system queue, delivering user messages notes user messages
/// only, and the system queue stays empty.
pub proof fn lemma_user_phase_record<Msg>(s: RunState<Msg>, quota: nat)
    requires
        s.mbox.sys_queue.len() == 0,
    ensures
        s.user_phase(quota).mbox.sys_queue.len() == 0,
        s.user_phase(quota).cell.log == s.cell.log + delivered_entries(
            s.mbox.queue.take(user_count(s.user_phase(quota).cell.log) - user_count(s.cell.log)),
        ),
    decreases quota,
{
    let q = s.mbox.queue;
    if quota > 0 && s.deliverable() {
        let s1 = s.deliver();
        let s2 = s1.sys_phase();
        lemma_sys_phase_record(s1);
        assert(s1.mbox.sys_queue =~= Seq::empty());
        assert(s2.cell.log =~= s1.cell.log);
        lemma_user_phase_record(s2, (quota - 1) as nat);
        lemma_user_phase_advances(s2, (quota - 1) as nat);
        lemma_sys_phase_calm(s1);
        lemma_noted_user(s.cell.log, q[0]);
        let end = s.user_phase(quota);
        let n2 = user_count(end.cell.log) - user_count(s2.cell.log);
        assert(user_count(s2.cell.log) == user_count(s.cell.log) + 1);
        if s2.mbox.queue == s1.mbox.queue {
            assert(s1.mbox.queue =~= q.skip(1));
            assert(s.cell.log.push(Delivery::User(q[0])) + delivered_entries(
                q.skip(1).take(n2),
            ) =~= s.cell.log + delivered_entries(q.take(n2 + 1)));
        } else {
            assert(s2.mbox.queue.take(n2) =~= Seq::empty());
            assert(n2 == 0);
            assert(s.cell.log.push(Delivery::User(q[0])) + delivered_entries(
                s2.mbox.queue.take(n2),
            ) =~= s.cell.log + delivered_entries(q.take(1)));
        }
    } else {
        assert(s.cell.log + delivered_entries(q.take(0)) =~= s.cell.log);
    }
}

/// System messages come before user messages.
///
/// In a run-task in which every callback completes, the record gains first
/// every system message that the system queue held at the start, in the
/// order of the queue, and only then the user messages that were delivered,
/// in the order of the user queue.
pub proof fn law_system_priority<Msg>(s: RunState<Msg>)
    ensures
        ({
            let taken = user_count(s.run().cell.log) - user_count(s.cell.log);
            s.run().cell.log == s.cell.log + system_entries(s.mbox.sys_queue) + delivered_entries(
                s.mbox.queue.take(taken),
            )
        }),
{
    let s1 = s.sys_phase();
    let s2 = s1.user_phase(s.mbox.msg_process_limit as nat);
    let s3 = s2.sys_phase();
    lemma_sys_phase_record(s);
    lemma_sys_phase_calm(s);
    lemma_user_phase_record(s1, s.mbox.msg_process_limit as nat);
    lemma_sys_phase_record(s2);
    lemma_sys_phase_calm(s2);
    assert(s2.mbox.sys_queue =~= Seq::empty());
    assert(s3.cell.log =~= s2.cell.log);
    assert(s.run().cell.log == s3.cell.log);
    let taken = user_count(s2.cell.log) - user_count(s1.cell.log);
    if s1.mbox.queue != s.mbox.queue {
        assert(s1.mbox.queue.take(taken) =~= Seq::empty());
        lemma_user_phase_advances(s1, s.mbox.msg_process_limit as nat);
        assert(taken == 0);
        assert(s.mbox.queue.take(0) =~= Seq::empty());
    }
}

/// Whether handling `msg` can lift the suspension of a mailbox.
pub open spec fn may_lift(msg: SystemMsg) -> bool {
    msg is ActorInit || msg == SystemMsg::Command(SystemCmd::Restart) || msg is Event
}

/// Handling system messages none of which can lift the suspension leaves a
/// suspended mailbox suspended.
pub proof fn lemma_stays_suspended<Msg>(s: RunState<Msg>, staged: Seq<Envelope<SystemMsg>>)
    requires
        s.mbox.suspended,
        forall|i: int| 0 <= i < staged.len() ==> !may_lift(#[trigger] staged[i].msg),
    ensures
        s.sys_fold(staged).mbox.suspended,
    decreases staged.len(),
{
    if staged.len() > 0 {
        let rest = staged.drop_first();
        assert(!may_lift(staged[0].msg));
        assert forall|i: int| 0 <= i < rest.len() implies !may_lift(#[trigger] rest[i].msg) by {
            assert(rest[i] == staged[i + 1]);
        }
        lemma_stays_suspended(s.sys_step(staged[0].msg), rest);
    }
}

/// No user message before the initialisation.
///
/// A mailbox starts suspended. While it is suspended and its system queue
/// holds neither `ActorInit` nor a restart command nor an event, a
/// run-task in which every callback completes delivers no user message.
pub proof fn law_init_first<Msg>(s: RunState<Msg>)
    requires
        s.mbox.suspended,
        forall|i: int|
            0 <= i < s.mbox.sys_queue.len() ==> !may_lift(#[trigger] s.mbox.sys_queue[i].msg),
    ensures
        user_entries(s.run().cell.log) == user_entries(s.cell.log),
{
    let s0 = RunState { mbox: MailboxView { sys_queue: Seq::empty(), ..s.mbox }, ..s };
    lemma_stays_suspended(s0, s.mbox.sys_queue);
    let s1 = s.sys_phase();
    lemma_sys_phase_calm(s);
    assert(!s1.deliverable());
    lemma_sys_phase_calm(s1);
}

/// `ActorInit` is the first message that a fresh actor takes up.
///
/// If the record is empty and `ActorInit` is the first message on the
/// system queue, the first entry of the record after a run-task in which
/// every callback completes is `ActorInit`.
pub proof fn law_init_is_first_entry<Msg>(s: RunState<Msg>)
    requires
        s.cell.log.len() == 0,
        s.mbox.sys_queue.len() > 0,
        s.mbox.sys_queue[0].msg is ActorInit,
    ensures
        s.run().cell.log.len() > 0,
        s.run().cell.log[0] == Delivery::<Msg>::System(SystemMsg::ActorInit),
{
    law_system_priority(s);
    assert(system_entries::<Msg>(s.mbox.sys_queue)[0] == Delivery::<Msg>::System(
        s.mbox.sys_queue[0].msg,
    ));
}

/// Whether `ActorInit` is first: an actor that has taken up nothing yet
/// has `ActorInit` as the first message on its system queue, and the
/// record of one that has taken up something begins with `ActorInit`.
pub open spec fn init_comes_first<Msg>(
    log: Seq<Delivery<Msg>>,
    sys_queue: Seq<Envelope<SystemMsg>>,
) -> bool {
    if log.len() == 0 {
        sys_queue.len() > 0 && sys_queue[0].msg is ActorInit
    } else {
        log[0] == Delivery::<Msg>::System(SystemMsg::ActorInit)
    }
}

/// `ActorInit` stays first.
///
/// If `ActorInit` is first before a run-task it is first after it, however
/// the run-task ends: an actor takes up `ActorInit` before every other
/// message, and so before any user message.
pub proof fn law_init_stays_first<Msg>(before: RunState<Msg>, after: RunState<Msg>, r: Outcome)
    requires
        ran(before, after, r),
        init_comes_first(before.cell.log, before.mbox.sys_queue),
    ensures
        init_comes_first(after.cell.log, after.mbox.sys_queue),
{
    lemma_ran_advances(before, after, r);
    if before.cell.log.len() > 0 {
        assert(after.cell.log[0] == before.cell.log[0]);
    }
}

/// A restart keeps the identity of the actor and counts.
///
/// The end of a restart leaves the address of the actor, and with it its
/// handle and its path, as they were, and the restart count is one more
/// than before unless it had reached the largest value.
pub proof fn law_restart_keeps_identity<Msg>(s: RunState<Msg>)
    requires
        s.cell.restart_count < u64::MAX,
    ensures
        s.finish_restart().me() == s.me(),
        s.finish_restart().cell.uri.path == s.cell.uri.path,
        s.finish_restart().cell.restart_count == s.cell.restart_count + 1,
        s.on_restart().me() == s.me(),
        s.on_restart().cell.restart_count >= s.cell.restart_count,
{
}

/// A restart gives no path back: among the effects of a restart command
/// there is no request to unregister a path.
pub proof fn law_restart_keeps_registration<Msg>(s: RunState<Msg>)
    ensures
        s.effects.is_prefix_of(s.on_restart().effects),
        forall|k: int|
            s.effects.len() <= k < s.on_restart().effects.len() ==> !(
            #[trigger] s.on_restart().effects[k] is Unregister),
{
}

/// The sentinel.
///
/// When a callback is cut short the run-task leaves the mailbox suspended
/// and not scheduled and the slot empty, and the last effect of the
/// run-task, and the only one that the cleanup adds, tells the parent that
/// this actor failed. The root, and an actor without a parent, has nobody
/// to tell.
pub proof fn law_sentinel<Msg>(before: RunState<Msg>, after: RunState<Msg>)
    requires
        ran(before, after, Outcome::Panicked),
    ensures
        after.mbox.suspended,
        !after.mbox.scheduled,
        !after.occupied,
        match before.cell.parent {
            Some(parent) if before.cell.uri.uid != 0 => {
                &&& after.effects.len() > before.effects.len()
                &&& after.effects.last() == (Effect::SysTell {
                    to: parent,
                    msg: SystemMsg::Failed(before.me()),
                })
                &&& before.effects.is_prefix_of(after.effects.drop_last())
            },
            _ => before.effects.is_prefix_of(after.effects),
        },
{
    let mid = choose|mid: RunState<Msg>| #[trigger] advanced(before, mid) && after == mid.fail();
    match before.cell.parent {
        Some(parent) if before.cell.uri.uid != 0 => {
            assert(after.effects.drop_last() =~= mid.effects);
        },
        _ => {
            assert(after.effects =~= mid.effects);
        },
    }
}

/// A stopped actor stays stopped: no system message brings it back, and
/// none makes it emit anything.
pub proof fn law_stopped_is_final<Msg>(s: RunState<Msg>, msg: SystemMsg)
    requires
        s.cell.state == CellState::Stopped,
    ensures
        s.sys_step(msg) == s.noted(Delivery::System(msg)),
{
}

/// A run-task that was cut short takes nothing from the user queue but what
/// it delivered, and asks for no further run-task.
///
/// Unless the actor was stopped in this run-task, the user messages that
/// were not delivered are still queued, in their order, and no dead letter
/// was added. In every case none of the effects gained asks for one more
/// run-task: the mailbox stays unscheduled until somebody else submits one.
pub proof fn law_cut_short_keeps_the_rest<Msg>(before: RunState<Msg>, after: RunState<Msg>)
    requires
        ran(before, after, Outcome::Panicked),
    ensures
        after.cell.state != CellState::Stopped ==> {
            let taken = user_count(after.cell.log) - user_count(before.cell.log);
            &&& 0 <= taken <= before.mbox.queue.len()
            &&& after.mbox.queue == before.mbox.queue.skip(taken)
            &&& after.dead == before.dead
        },
        before.effects.is_prefix_of(after.effects),
        forall|k: int|
            before.effects.len() <= k < after.effects.len() ==> !(
            #[trigger] after.effects[k] is Schedule),
{
    let mid = choose|mid: RunState<Msg>|
        #[trigger] advanced(before, mid) && in_hand(before, mid) && after == mid.fail();
    assert forall|k: int| before.effects.len() <= k < after.effects.len() implies !(
    #[trigger] after.effects[k] is Schedule) by {
        if k < mid.effects.len() {
            assert(own_effect(before.me(), mid.effects[k]));
        }
    }
}

/// A queue that fits into the quota is delivered whole.
///
/// If the slot is occupied, user traffic flows and no system message
/// waits, then delivering with a quota of at least the length of the queue
/// leaves the queue empty, and the record has gained the messages of the
/// queue, each once and in the order of the queue.
pub proof fn law_delivers_all_within_quota<Msg>(s: RunState<Msg>, quota: nat)
    requires
        s.occupied,
        !s.mbox.suspended,
        s.mbox.sys_queue.len() == 0,
        s.mbox.queue.len() <= quota,
    ensures
        s.user_phase(quota).mbox.queue.len() == 0,
        s.user_phase(quota).cell.log == s.cell.log + delivered_entries(s.mbox.queue),
        s.user_phase(quota).effects == s.effects,
        s.user_phase(quota).dead == s.dead,
    decreases quota,
{
    let q = s.mbox.queue;
    if quota > 0 && s.deliverable() {
        let s1 = s.deliver();
        assert(s1.mbox.sys_queue =~= Seq::empty());
        assert(s1.sys_phase() == s1);
        law_delivers_all_within_quota(s1, (quota - 1) as nat);
        assert(s.cell.log.push(Delivery::User(q[0])) + delivered_entries(q.drop_first())
            =~= s.cell.log + delivered_entries(q));
    } else {
        assert(q.len() == 0);
        assert(s.cell.log + delivered_entries(q) =~= s.cell.log);
    }
}

/// Restarts are counted: when an alive actor without children handles `k`
/// restart commands, each to its end, its restart count is `k` more than
/// before; it never falls. The actor is the same, it is alive, and once a
/// restart was handled its slot is occupied and its user traffic flows.
pub proof fn law_restarts_are_counted<Msg>(s: RunState<Msg>, staged: Seq<Envelope<SystemMsg>>)
    requires
        s.cell.state == CellState::Alive,
        s.cell.children.len() == 0,
        s.cell.restart_count + staged.len() <= u64::MAX,
        forall|i: int|
            0 <= i < staged.len() ==> (#[trigger] staged[i]).msg == SystemMsg::Command(
                SystemCmd::Restart,
            ),
    ensures
        s.sys_fold(staged).cell.restart_count == s.cell.restart_count + staged.len(),
        s.sys_fold(staged).me() == s.me(),
        s.sys_fold(staged).cell.state == CellState::Alive,
        s.sys_fold(staged).cell.children.len() == 0,
        staged.len() > 0 ==> s.sys_fold(staged).occupied && !s.sys_fold(staged).mbox.suspended,
    decreases staged.len(),
{
    if staged.len() > 0 {
        let rest = staged.drop_first();
        assert(staged[0].msg == SystemMsg::Command(SystemCmd::Restart));
        assert forall|i: int| 0 <= i < rest.len() implies (#[trigger] rest[i]).msg
            == SystemMsg::Command(SystemCmd::Restart) by {
            assert(rest[i] == staged[i + 1]);
        }
        law_restarts_are_counted(s.sys_step(staged[0].msg), rest);
    }
}

/// A restart refills an empty slot: an actor without children that is
/// neither stopping nor stopped has, after a restart command, an instance
/// in its slot and its user traffic flowing, whether the slot was occupied
/// or not, and exactly one event was published, the restart of this actor.
pub proof fn law_restart_refills_the_slot<Msg>(s: RunState<Msg>)
    requires
        s.cell.state == CellState::Alive || s.cell.state == CellState::Restarting,
        s.cell.children.len() == 0,
    ensures
        s.on_restart().occupied,
        !s.on_restart().mbox.suspended,
        s.on_restart().cell.state == CellState::Alive,
        s.on_restart().mbox.queue == s.mbox.queue,
        s.on_restart().effects == s.effects.push(
            Effect::Publish { event: SystemEvent::ActorRestarted { actor: s.me() } },
        ),
{
}

/// A run-task that finds nothing to handle completes and only releases the
/// mailbox: with an empty system queue, and with a quota of zero or no
/// deliverable user message, no callback is made, nothing is noted, and
/// the state afterwards is the state before with the schedule flag
/// lowered and, if user messages wait, one more run-task asked for.
pub proof fn law_idle_run_completes<Msg>(before: RunState<Msg>, after: RunState<Msg>, r: Outcome)
    requires
        ran(before, after, r),
        before.mbox.sys_queue.len() == 0,
        before.mbox.msg_process_limit == 0 || !before.deliverable(),
    ensures
        r == Outcome::Completed,
        after == before.release(),
{
    assert(before.mbox.sys_queue =~= Seq::empty());
    assert(before.sys_phase() == before);
    assert(before.quiet_phase());
    assert(before.user_phase(before.mbox.msg_process_limit as nat) == before);
}

/// A stopped actor makes no callback, whatever its system queue holds: the
/// drain of its system queue completes.
pub proof fn law_stopped_is_quiet<Msg>(s: RunState<Msg>, staged: Seq<Envelope<SystemMsg>>)
    requires
        s.cell.state == CellState::Stopped,
    ensures
        s.sys_quiet(staged),
        s.sys_fold(staged).cell.state == CellState::Stopped,
    decreases staged.len(),
{
    if staged.len() > 0 {
        law_stopped_is_quiet(s.sys_step(staged[0].msg), staged.drop_first());
    }
}

/// One staged message that makes no callback makes a quiet drain.
pub proof fn law_one_quiet_message<Msg>(s: RunState<Msg>, env: Envelope<SystemMsg>)
    requires
        s.quiet_at(env.msg),
    ensures
        s.sys_quiet(seq![env]),
{
    assert(seq![env].drop_first() =~= Seq::<Envelope<SystemMsg>>::empty());
    assert(s.sys_step(env.msg).sys_quiet(Seq::<Envelope<SystemMsg>>::empty()));
}

/// The end of a stop flushes the user queue: every message still queued
/// becomes a dead letter with its sender and with this actor as its
/// recipient, in the order of the queue and behind the dead letters there
/// were; the queues are empty and the mailbox is closed.
pub proof fn law_stop_flushes_the_queue<Msg>(s: RunState<Msg>)
    ensures
        s.finish_stop().dead == s.dead + undelivered(s.mbox.queue, s.me()),
        s.finish_stop().dead.len() == s.dead.len() + s.mbox.queue.len(),
        forall|i: int|
            0 <= i < s.mbox.queue.len() ==> #[trigger] s.finish_stop().dead[s.dead.len() + i] == (
                s.mbox.queue[i].sender,
                s.me(),
            ),
        s.finish_stop().mbox.queue.len() == 0,
        s.finish_stop().mbox.sys_queue.len() == 0,
        s.finish_stop().mbox.closed,
{
}

/// A suspended mailbox keeps its user messages waiting: if the mailbox is
/// suspended and no system message that waits could lift the suspension,
/// a run-task delivers no user message, however it ends, and unless it
/// stops the actor, which flushes the queue, the user queue is afterwards
/// what it was.
pub proof fn law_suspended_queue_waits<Msg>(
    before: RunState<Msg>,
    after: RunState<Msg>,
    r: Outcome,
)
    requires
        ran(before, after, r),
        before.mbox.suspended,
        forall|i: int|
            0 <= i < before.mbox.sys_queue.len() ==> !may_lift(
                #[trigger] before.mbox.sys_queue[i].msg,
            ),
    ensures
        user_entries(after.cell.log) == user_entries(before.cell.log),
        after.cell.state != CellState::Stopped ==> after.mbox.queue == before.mbox.queue,
{
    let start = RunState {
        mbox: MailboxView { sys_queue: Seq::empty(), ..before.mbox },
        ..before
    };
    let quota = before.mbox.msg_process_limit as nat;
    let s1 = before.sys_phase();
    lemma_stays_suspended(start, before.mbox.sys_queue);
    lemma_sys_phase_record(before);
    assert(!s1.deliverable());
    assert(before.mbox.queue.skip(0) =~= before.mbox.queue);
    match r {
        Outcome::Completed => {
            law_init_first(before);
            lemma_run_advances(before);
        },
        Outcome::Panicked => {
            let mid = choose|mid: RunState<Msg>|
                #[trigger] advanced(before, mid) && in_hand(before, mid) && before.run_cut(mid)
                    && after == mid.fail();
            if before.drain_cut(mid) {
                lemma_sys_cut_calm(start, before.mbox.sys_queue, mid);
            } else if s1.user_cut(quota, mid) {
                let k = choose|k: nat|
                    k < quota && (#[trigger] s1.user_phase(k)).deliverable() && (mid
                        == s1.user_phase(k).deliver() || s1.user_phase(k).deliver().drain_cut(
                        mid,
                    ));
                assert(s1.user_phase(k) == s1);
            } else {
                assert(s1.user_phase(quota) == s1);
                assert(s1.mbox.sys_queue =~= Seq::empty());
            }
        },
    }
}

/// System messages are handled between user messages: when a user message
/// is delivered, the system messages that wait by then are noted right
/// after it, in their order, and before the next user message.
pub proof fn law_drain_follows_each_message<Msg>(s: RunState<Msg>, quota: nat)
    requires
        quota > 0,
        s.deliverable(),
    ensures
        (s.cell.log.push(Delivery::User(s.mbox.queue[0])) + system_entries(
            s.mbox.sys_queue,
        )).is_prefix_of(s.user_phase(quota).cell.log),
{
    let s1 = s.deliver();
    let s2 = s1.sys_phase();
    lemma_sys_phase_record(s1);
    lemma_user_phase_advances(s2, (quota - 1) as nat);
}

} // verus!
