use xhc_core::task_message::Enqueued;
use xhc_core::task_message::InterruptQueueWaiter;
use xhc_core::task_message::Queueing;
use xhc_core::task_message::TaskMessage;
use xhc_core::task_message::TaskQueue;
use xhc_core::task_message::Wait;

fn is_controller(wait: &Wait<TaskMessage<u32>>) -> bool {
    matches!(wait, Wait::Ready(TaskMessage::ControllerHasEvents))
}

fn dispatched(wait: &Wait<TaskMessage<u32>>) -> Option<u32> {
    match wait {
        Wait::Ready(TaskMessage::Dispatch(work)) => Some(*work),
        _ => None,
    }
}

#[test]
fn a_message_for_a_halted_task_gives_exactly_one_cycle() {
    let mut waiter = InterruptQueueWaiter::new(TaskQueue::<u32>::new(4));
    assert!(matches!(waiter.poll(), Wait::Halt));
    assert_eq!(waiter.notify(TaskMessage::ControllerHasEvents), Enqueued::Queued);
    assert!(is_controller(&waiter.poll()));
    assert!(matches!(waiter.poll(), Wait::Halt));
    assert!(matches!(waiter.poll(), Wait::Halt));
}

#[test]
fn messages_of_the_controller_coalesce_while_one_waits() {
    let mut waiter = InterruptQueueWaiter::new(TaskQueue::<u32>::new(4));
    assert_eq!(waiter.notify(TaskMessage::ControllerHasEvents), Enqueued::Queued);
    assert_eq!(waiter.notify(TaskMessage::ControllerHasEvents), Enqueued::Coalesced);
    assert_eq!(waiter.notify(TaskMessage::ControllerHasEvents), Enqueued::Coalesced);
    assert!(is_controller(&waiter.poll()));
    assert!(matches!(waiter.poll(), Wait::Halt));
    assert_eq!(waiter.notify(TaskMessage::ControllerHasEvents), Enqueued::Queued);
    assert!(is_controller(&waiter.poll()));
}

#[test]
fn messages_are_taken_in_the_order_in_which_they_came() {
    let mut waiter = InterruptQueueWaiter::new(TaskQueue::<u32>::new(4));
    assert_eq!(waiter.notify(TaskMessage::Dispatch(1)), Enqueued::Queued);
    assert_eq!(waiter.notify(TaskMessage::ControllerHasEvents), Enqueued::Queued);
    assert_eq!(waiter.notify(TaskMessage::Dispatch(2)), Enqueued::Queued);
    assert_eq!(waiter.notify(TaskMessage::ControllerHasEvents), Enqueued::Coalesced);
    assert_eq!(dispatched(&waiter.poll()), Some(1));
    assert!(is_controller(&waiter.poll()));
    assert_eq!(dispatched(&waiter.poll()), Some(2));
    assert!(matches!(waiter.poll(), Wait::Halt));
}

#[test]
fn a_full_queue_drops_the_message_and_does_not_wait() {
    let mut queue = TaskQueue::<u32>::new(2);
    assert_eq!(queue.enqueue(TaskMessage::Dispatch(1)), Enqueued::Queued);
    assert_eq!(queue.enqueue(TaskMessage::Dispatch(2)), Enqueued::Queued);
    assert_eq!(queue.enqueue(TaskMessage::Dispatch(3)), Enqueued::Dropped);
    assert_eq!(queue.enqueue(TaskMessage::ControllerHasEvents), Enqueued::Dropped);
    assert_eq!(queue.len(), 2);
    assert!(matches!(queue.dequeue(), Some(TaskMessage::Dispatch(1))));
    assert!(matches!(queue.dequeue(), Some(TaskMessage::Dispatch(2))));
    assert!(queue.dequeue().is_none());
}

#[test]
fn a_full_queue_still_coalesces_messages_of_the_controller() {
    let mut queue = TaskQueue::<u32>::new(2);
    assert_eq!(queue.enqueue(TaskMessage::ControllerHasEvents), Enqueued::Queued);
    assert_eq!(queue.enqueue(TaskMessage::Dispatch(2)), Enqueued::Queued);
    assert_eq!(queue.enqueue(TaskMessage::ControllerHasEvents), Enqueued::Coalesced);
    assert_eq!(queue.len(), 2);
}

#[test]
fn a_queue_without_room_drops_everything() {
    let mut queue = TaskQueue::<u32>::new(0);
    assert_eq!(queue.enqueue(TaskMessage::ControllerHasEvents), Enqueued::Dropped);
    assert!(queue.dequeue().is_none());
}

#[test]
fn dispatched_work_is_never_coalesced() {
    let mut queue = TaskQueue::<u32>::new(4);
    assert_eq!(queue.enqueue(TaskMessage::Dispatch(7)), Enqueued::Queued);
    assert_eq!(queue.enqueue(TaskMessage::Dispatch(7)), Enqueued::Queued);
    assert_eq!(queue.len(), 2);
}

#[test]
fn the_waiter_gives_its_queue_back() {
    let mut waiter = InterruptQueueWaiter::new(TaskQueue::<u32>::new(4));
    waiter.notify(TaskMessage::Dispatch(5));
    let mut queue = waiter.into_queue();
    assert_eq!(queue.len(), 1);
    assert!(matches!(queue.dequeue(), Some(TaskMessage::Dispatch(5))));
}

#[test]
fn a_look_at_an_empty_queue_leaves_room_for_the_next_message() {
    let mut waiter = InterruptQueueWaiter::new(TaskQueue::<u32>::new(1));
    assert!(matches!(waiter.poll_message(), Wait::Halt));
    assert_eq!(waiter.notify(TaskMessage::Dispatch(7)), Enqueued::Queued);
    assert_eq!(waiter.notify(TaskMessage::Dispatch(8)), Enqueued::Dropped);
    assert_eq!(dispatched(&waiter.poll_message()), Some(7));
    assert_eq!(waiter.notify(TaskMessage::Dispatch(9)), Enqueued::Queued);
    assert_eq!(dispatched(&waiter.poll_message()), Some(9));
    assert!(matches!(waiter.poll_message(), Wait::Halt));
}

#[test]
fn many_messages_of_the_controller_before_a_look_give_one_cycle() {
    for k in 1..6 {
        let mut waiter = InterruptQueueWaiter::new(TaskQueue::<u32>::new(4));
        for i in 0..k {
            let expected = if i == 0 { Enqueued::Queued } else { Enqueued::Coalesced };
            assert_eq!(waiter.notify(TaskMessage::ControllerHasEvents), expected);
        }
        assert!(is_controller(&waiter.poll_message()));
        assert!(matches!(waiter.poll_message(), Wait::Halt));
    }
}
