use actor_system::actor::{
    ActorUri, BasicActorRef, Context, Envelope, SystemCmd, SystemMsg,
};
use actor_system::kernel::mailbox::{
    flush_to_deadletters, mailbox, AnyEnqueueError, AnyMessage, AnySender, EnqueueError, Mailbox,
    MailboxConfig, MailboxSchedule, MailboxSender, QueueEmpty,
};

fn actor_ref(uid: u64, name: &str, path: &str) -> BasicActorRef {
    BasicActorRef::new(ActorUri {
        uid,
        name: name.to_string(),
        path: path.to_string(),
        host: "localhost".to_string(),
    })
}

fn envelope(n: u32) -> Envelope<u32> {
    Envelope { msg: n, sender: None }
}

#[test]
fn a_sender_never_refuses() {
    let mut queue: MailboxSender<u32> = MailboxSender::new();
    assert_eq!(queue.len(), 0);
    assert_eq!(queue.try_enqueue(envelope(1)), Ok(()));
    assert_eq!(queue.try_enqueue(envelope(2)), Ok(()));
    assert_eq!(queue.len(), 2);
}

#[test]
fn the_default_quota_is_1000() {
    assert_eq!(MailboxConfig::default().msg_process_limit, 1000);
}

#[test]
fn fresh_mailbox_is_suspended_and_not_scheduled() {
    let mbox: Mailbox<u32> = mailbox(7);
    assert!(mbox.is_suspended());
    assert!(!mbox.is_scheduled());
    assert!(!mbox.has_msgs());
    assert!(!mbox.has_sys_msgs());
    assert!(!mbox.is_closed());
    assert_eq!(mbox.msg_process_limit(), 7);
}

#[test]
fn user_queue_is_fifo() {
    let mut mbox: Mailbox<u32> = mailbox(10);
    assert_eq!(mbox.try_enqueue(envelope(1)), Ok(()));
    assert_eq!(mbox.try_enqueue(envelope(2)), Ok(()));
    assert_eq!(mbox.try_enqueue(envelope(3)), Ok(()));
    assert!(mbox.has_msgs());
    assert_eq!(mbox.try_dequeue(), Ok(envelope(1)));
    assert_eq!(mbox.try_dequeue(), Ok(envelope(2)));
    assert_eq!(mbox.try_dequeue(), Ok(envelope(3)));
    assert_eq!(mbox.try_dequeue(), Err(QueueEmpty));
    assert!(!mbox.has_msgs());
}

#[test]
fn system_queue_is_fifo_and_apart_from_the_user_queue() {
    let mut mbox: Mailbox<u32> = mailbox(10);
    let init = Envelope { msg: SystemMsg::ActorInit, sender: None };
    let stop = Envelope { msg: SystemMsg::Command(SystemCmd::Stop), sender: None };
    assert_eq!(mbox.sys_try_enqueue(init), Ok(()));
    assert_eq!(mbox.sys_try_enqueue(stop), Ok(()));
    assert!(mbox.has_sys_msgs());
    assert!(!mbox.has_msgs());
    assert_eq!(mbox.try_dequeue(), Err(QueueEmpty));
    assert_eq!(
        mbox.sys_try_dequeue(),
        Ok(Envelope { msg: SystemMsg::ActorInit, sender: None })
    );
    assert_eq!(
        mbox.sys_try_dequeue(),
        Ok(Envelope { msg: SystemMsg::Command(SystemCmd::Stop), sender: None })
    );
    assert_eq!(mbox.sys_try_dequeue(), Err(QueueEmpty));
}

#[test]
fn dequeue_keeps_the_sender() {
    let mut mbox: Mailbox<u32> = mailbox(10);
    let from = actor_ref(100, "a", "/user/a");
    mbox.try_enqueue(Envelope { msg: 5, sender: Some(from.clone()) }).unwrap();
    let got = mbox.try_dequeue().unwrap();
    assert_eq!(got.msg, 5);
    assert_eq!(got.sender, Some(from));
}

#[test]
fn closed_mailbox_hands_the_message_back() {
    let mut mbox: Mailbox<u32> = mailbox(10);
    mbox.try_enqueue(envelope(1)).unwrap();
    mbox.close();
    assert!(mbox.is_closed());
    assert_eq!(mbox.try_enqueue(envelope(2)), Err(EnqueueError { msg: envelope(2) }));
    let stop = Envelope { msg: SystemMsg::Command(SystemCmd::Stop), sender: None };
    assert_eq!(
        mbox.sys_try_enqueue(stop),
        Err(EnqueueError {
            msg: Envelope { msg: SystemMsg::Command(SystemCmd::Stop), sender: None }
        })
    );
    assert_eq!(mbox.try_dequeue(), Ok(envelope(1)));
    assert_eq!(mbox.try_dequeue(), Err(QueueEmpty));
}

#[test]
fn enqueue_does_not_schedule() {
    let mut mbox: Mailbox<u32> = mailbox(10);
    mbox.try_enqueue(envelope(1)).unwrap();
    assert!(!mbox.is_scheduled());
}

#[test]
fn request_schedule_wins_once() {
    let mut mbox: Mailbox<u32> = mailbox(10);
    assert!(mbox.request_schedule());
    assert!(mbox.is_scheduled());
    assert!(!mbox.request_schedule());
    assert!(!mbox.request_schedule());
    assert!(mbox.is_scheduled());
    mbox.set_scheduled(false);
    assert!(!mbox.is_scheduled());
    assert!(mbox.request_schedule());
}

#[test]
fn flags_are_set_and_read() {
    let mut mbox: Mailbox<u32> = mailbox(10);
    mbox.set_suspended(false);
    assert!(!mbox.is_suspended());
    mbox.set_suspended(true);
    assert!(mbox.is_suspended());
    mbox.set_scheduled(true);
    assert!(mbox.is_scheduled());
    mbox.set_sched(false);
    assert!(!mbox.is_sched());
    assert!(!mbox.is_scheduled());
}

#[test]
fn any_sender_takes_the_message_once() {
    let mut first: Mailbox<u32> = mailbox(10);
    let mut second: Mailbox<u32> = mailbox(10);
    let mut msg = AnyMessage::new(9u32);
    assert_eq!(first.try_any_enqueue(&mut msg, None), Ok(()));
    assert_eq!(second.try_any_enqueue(&mut msg, None), Err(AnyEnqueueError));
    assert_eq!(first.try_dequeue(), Ok(envelope(9)));
    assert_eq!(second.try_dequeue(), Err(QueueEmpty));
}

#[test]
fn any_sender_fails_on_a_closed_mailbox() {
    let mut mbox: Mailbox<u32> = mailbox(10);
    mbox.close();
    let mut msg = AnyMessage::new(9u32);
    assert_eq!(mbox.try_any_enqueue(&mut msg, None), Err(AnyEnqueueError));
    assert!(msg.msg.is_none());
    assert!(!mbox.has_msgs());
}

#[test]
fn any_enqueue_error_comes_from_unit() {
    assert_eq!(AnyEnqueueError::from(()), AnyEnqueueError);
}

#[test]
fn any_message_take_twice() {
    let mut msg = AnyMessage::new(3u8);
    assert_eq!(msg.take(), Ok(3));
    assert_eq!(msg.take(), Err(()));
}

#[test]
fn discard_sys_msgs_empties_only_the_system_queue() {
    let mut mbox: Mailbox<u32> = mailbox(10);
    mbox.try_enqueue(envelope(1)).unwrap();
    mbox.sys_try_enqueue(Envelope { msg: SystemMsg::ActorInit, sender: None }).unwrap();
    mbox.discard_sys_msgs();
    assert!(!mbox.has_sys_msgs());
    assert!(mbox.has_msgs());
}

#[test]
fn flush_turns_every_message_into_a_dead_letter() {
    let mut mbox: Mailbox<u32> = mailbox(10);
    let me = actor_ref(100, "a", "/user/a");
    let from = actor_ref(101, "b", "/user/b");
    mbox.try_enqueue(Envelope { msg: 1, sender: None }).unwrap();
    mbox.try_enqueue(Envelope { msg: 2, sender: Some(from.clone()) }).unwrap();
    let mut ctx = Context::new(me.clone(), None);
    flush_to_deadletters(&mut mbox, &me, &mut ctx);
    assert!(!mbox.has_msgs());
    assert!(ctx.effects.is_empty());
    assert_eq!(ctx.dead_letters.len(), 2);
    assert_eq!(ctx.dead_letters[0].msg, "1");
    assert_eq!(ctx.dead_letters[0].sender, None);
    assert_eq!(ctx.dead_letters[0].recipient, me);
    assert_eq!(ctx.dead_letters[1].msg, "2");
    assert_eq!(ctx.dead_letters[1].sender, Some(from));
    assert_eq!(ctx.dead_letters[1].recipient, me);
}

#[test]
fn flush_of_an_empty_queue_adds_nothing() {
    let mut mbox: Mailbox<u32> = mailbox(10);
    let me = actor_ref(100, "a", "/user/a");
    let mut ctx = Context::new(me.clone(), None);
    flush_to_deadletters(&mut mbox, &me, &mut ctx);
    assert!(ctx.dead_letters.is_empty());
}
