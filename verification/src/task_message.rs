use vstd::prelude::*;

verus! {

/// What the interrupt handlers ask the task of the driver to do. `H` is
/// whatever stands for a piece of work that is handed over as it is.
#[derive(Debug)]
pub enum TaskMessage<H> {
    /// The controller has raised an interrupt: its event ring has to be
    /// emptied.
    ControllerHasEvents,
    /// Work to be done in the task instead of in the interrupt handler.
    Dispatch(H),
}

/// What became of a message handed to a queue.
#[derive(Debug, Clone, Copy, PartialEq, Eq, Structural)]
pub enum Enqueued {
    /// The message is in the queue.
    Queued,
    /// The queue already told the task what the message says.
    Coalesced,
    /// The queue was full and the message was dropped.
    Dropped,
}

/// The number of messages in `pending` that say that the controller has
/// events.
pub open spec fn controller_messages<H>(pending: Seq<TaskMessage<H>>) -> nat
    decreases pending.len(),
{
    if pending.len() == 0 {
        0
    } else {
        controller_messages(pending.drop_last()) + if pending.last() is ControllerHasEvents {
            1nat
        } else {
            0nat
        }
    }
}

/// What a queue of `capacity` messages that holds `pending` makes of
/// `message`.
///
/// One pass over the event ring takes all events there are, so a second
/// message that the controller has events says nothing new while the first
/// is still in the queue: it is coalesced with it. Any other message is
/// queued behind the others while there is room and dropped when there is
/// none, since an interrupt handler cannot wait.
pub open spec fn fate<H>(pending: Seq<TaskMessage<H>>, capacity: nat, message: TaskMessage<H>)
    -> Enqueued {
    if message is ControllerHasEvents && controller_messages(pending) > 0 {
        Enqueued::Coalesced
    } else if pending.len() >= capacity {
        Enqueued::Dropped
    } else {
        Enqueued::Queued
    }
}

/// The messages of a queue of `capacity` messages that held `pending`,
/// after `message` was handed to it.
pub open spec fn after_enqueue<H>(
    pending: Seq<TaskMessage<H>>,
    capacity: nat,
    message: TaskMessage<H>,
) -> Seq<TaskMessage<H>> {
    if fate(pending, capacity, message) == Enqueued::Queued {
        pending.push(message)
    } else {
        pending
    }
}

/// What the task takes from a queue that holds `pending`: the oldest
/// message, or `None` from an empty queue.
pub open spec fn taken<H>(pending: Seq<TaskMessage<H>>) -> Option<TaskMessage<H>> {
    if pending.len() == 0 {
        None
    } else {
        Some(pending[0])
    }
}

/// The messages of a queue that held `pending`, after the task took one.
pub open spec fn after_dequeue<H>(pending: Seq<TaskMessage<H>>) -> Seq<TaskMessage<H>> {
    if pending.len() == 0 {
        pending
    } else {
        pending.skip(1)
    }
}

/// A message that the controller has events, handed to an empty queue
/// while the task is halted, is taken by the task exactly once: the task
/// takes it at its next look at the queue and finds the queue empty at the
/// look after that.
pub proof fn lemma_one_message_one_cycle<H>(capacity: nat)
    requires
        capacity >= 1,
    ensures
        ({
            let queue = after_enqueue(
                Seq::<TaskMessage<H>>::empty(),
                capacity,
                TaskMessage::ControllerHasEvents,
            );
            &&& taken(queue) == Some(TaskMessage::<H>::ControllerHasEvents)
            &&& taken(after_dequeue(queue)) is None
        }),
{
    let empty = Seq::<TaskMessage<H>>::empty();
    let queue = after_enqueue(empty, capacity, TaskMessage::ControllerHasEvents);
    assert(controller_messages(empty) == 0);
    assert(queue =~= seq![TaskMessage::<H>::ControllerHasEvents]);
    assert(after_dequeue(queue) =~= empty);
}

/// While a message that the controller has events waits in the queue,
/// more such messages change nothing: the task will empty the event ring
/// once for all of them.
pub proof fn lemma_controller_messages_coalesce<H>(pending: Seq<TaskMessage<H>>, capacity: nat)
    ensures
        ({
            let once = after_enqueue(pending, capacity, TaskMessage::ControllerHasEvents);
            &&& pending.len() < capacity ==> controller_messages(once) >= 1
            &&& controller_messages(once) >= 1 ==> after_enqueue(
                once,
                capacity,
                TaskMessage::ControllerHasEvents,
            ) == once
            &&& controller_messages(pending) <= 1 ==> controller_messages(once) <= 1
        }),
{
    let message = TaskMessage::<H>::ControllerHasEvents;
    let once = after_enqueue(pending, capacity, message);
    if fate(pending, capacity, message) == Enqueued::Queued {
        assert(once.drop_last() =~= pending);
    }
}

/// The messages of a queue of `capacity` messages that held `pending`,
/// after the message that the controller has events was handed to it `k`
/// times and the task took nothing in between.
pub open spec fn after_notifications<H>(pending: Seq<TaskMessage<H>>, capacity: nat, k: nat) -> Seq<
    TaskMessage<H>,
>
    decreases k,
{
    if k == 0 {
        pending
    } else {
        after_enqueue(
            after_notifications(pending, capacity, (k - 1) as nat),
            capacity,
            TaskMessage::ControllerHasEvents,
        )
    }
}

/// However often the message that the controller has events is handed to
/// a queue before the task looks at it, the queue is as after the first
/// time: the task empties the event ring once for all of them, never more
/// often than messages were handed over, and at least once where the first
/// of them found room or a message of its kind.
pub proof fn lemma_notifications_coalesce<H>(pending: Seq<TaskMessage<H>>, capacity: nat, k: nat)
    requires
        k >= 1,
    ensures
        after_notifications(pending, capacity, k) == after_enqueue(
            pending,
            capacity,
            TaskMessage::ControllerHasEvents,
        ),
        controller_messages(after_notifications(pending, capacity, k)) <= controller_messages(
            pending,
        ) + 1,
        pending.len() < capacity || controller_messages(pending) >= 1 ==> controller_messages(
            after_notifications(pending, capacity, k),
        ) >= 1,
        controller_messages(pending) == 0 ==> controller_messages(
            after_notifications(pending, capacity, k),
        ) <= 1,
    decreases k,
{
    let message = TaskMessage::<H>::ControllerHasEvents;
    let once = after_enqueue(pending, capacity, message);
    if fate(pending, capacity, message) == Enqueued::Queued {
        assert(once.drop_last() =~= pending);
    }
    if k == 1 {
        assert(after_notifications(pending, capacity, 0) == pending);
    } else {
        lemma_notifications_coalesce(pending, capacity, (k - 1) as nat);
        lemma_controller_messages_coalesce(pending, capacity);
    }
}

/// The message that the controller has events, handed `k` times to an
/// empty queue while the task is halted, is taken by the task exactly
/// once: at its next look, and the look after that finds the queue empty.
pub proof fn lemma_many_messages_one_cycle<H>(capacity: nat, k: nat)
    requires
        capacity >= 1,
        k >= 1,
    ensures
        ({
            let queue = after_notifications(Seq::<TaskMessage<H>>::empty(), capacity, k);
            &&& taken(queue) == Some(TaskMessage::<H>::ControllerHasEvents)
            &&& taken(after_dequeue(queue)) is None
        }),
{
    lemma_notifications_coalesce(Seq::<TaskMessage<H>>::empty(), capacity, k);
    lemma_one_message_one_cycle::<H>(capacity);
}

/// Taking a message from a queue leaves at most as many messages that the
/// controller has events as there were.
pub proof fn lemma_dequeue_controller_messages<H>(pending: Seq<TaskMessage<H>>)
    ensures
        controller_messages(after_dequeue(pending)) + (if taken(pending) matches Some(
            TaskMessage::ControllerHasEvents,
        ) {
            1nat
        } else {
            0nat
        }) == controller_messages(pending),
    decreases pending.len(),
{
    if pending.len() == 1 {
        assert(pending.drop_last() =~= Seq::<TaskMessage<H>>::empty());
        assert(after_dequeue(pending) =~= Seq::<TaskMessage<H>>::empty());
        assert(controller_messages(Seq::<TaskMessage<H>>::empty()) == 0);
    } else if pending.len() > 1 {
        lemma_dequeue_controller_messages(pending.drop_last());
        assert(after_dequeue(pending).drop_last() =~= after_dequeue(pending.drop_last()));
        assert(after_dequeue(pending).last() == pending.last());
        assert(taken(pending) == taken(pending.drop_last()));
    }
}

/// A queue between the interrupt handlers and the task of the driver.
pub trait Queueing<Value> {
    /// The values in the queue, oldest first.
    spec fn pending(&self) -> Seq<Value>;

    /// The queue is in order.
    spec fn wf(&self) -> bool;

    /// Takes the oldest value out of the queue, if there is one.
    fn dequeue(&mut self) -> (value: Option<Value>)
        requires
            old(self).wf(),
        ensures
            final(self).wf(),
            old(self).pending().len() == 0 ==> {
                &&& value is None
                &&& final(self).pending() == old(self).pending()
            },
            old(self).pending().len() > 0 ==> {
                &&& value == Some(old(self).pending()[0])
                &&& final(self).pending() == old(self).pending().skip(1)
            },
    ;
}

/// The queue of the messages for the task of the driver. It holds a fixed
/// number of messages at most and never makes the one who hands it a
/// message wait.
pub struct TaskQueue<H> {
    messages: Vec<TaskMessage<H>>,
    capacity: usize,
    controller_pending: bool,
}

impl<H> TaskQueue<H> {
    /// The number of messages the queue can hold.
    pub closed spec fn capacity(&self) -> nat {
        self.capacity as nat
    }

    /// The messages in the queue, oldest first.
    pub closed spec fn messages(&self) -> Seq<TaskMessage<H>> {
        self.messages@
    }

    /// The queue's note of whether it holds a message that the controller
    /// has events is right.
    pub closed spec fn noted(&self) -> bool {
        self.controller_pending == (controller_messages(self.messages@) > 0)
    }

    /// The queue is in order: it holds no more than it can, at most one
    /// message that the controller has events, and knows whether it holds
    /// one.
    pub open spec fn in_order(&self) -> bool {
        &&& self.messages().len() <= self.capacity()
        &&& controller_messages(self.messages()) <= 1
        &&& self.noted()
    }

    /// An empty queue for `capacity` messages.
    pub fn new(capacity: usize) -> (queue: Self)
        ensures
            queue.in_order(),
            queue.capacity() == capacity,
            queue.messages() == Seq::<TaskMessage<H>>::empty(),
    {
        TaskQueue { messages: Vec::new(), capacity, controller_pending: false }
    }

    /// The number of messages in the queue.
    pub fn len(&self) -> (len: usize)
        ensures
            len == self.messages().len(),
    {
        self.messages.len()
    }

    /// Hands `message` to the queue and says what became of it; see
    /// [`fate`]. The call never waits.
    pub fn enqueue(&mut self, message: TaskMessage<H>) -> (r: Enqueued)
        requires
            old(self).in_order(),
        ensures
            final(self).in_order(),
            final(self).capacity() == old(self).capacity(),
            r == fate(old(self).messages(), old(self).capacity(), message),
            final(self).messages() == after_enqueue(
                old(self).messages(),
                old(self).capacity(),
                message,
            ),
    {
        let is_controller = match &message {
            TaskMessage::ControllerHasEvents => true,
            TaskMessage::Dispatch(_) => false,
        };
        if is_controller && self.controller_pending {
            return Enqueued::Coalesced;
        }
        if self.messages.len() >= self.capacity {
            return Enqueued::Dropped;
        }
        proof {
            assert(self.messages@.push(message).drop_last() =~= self.messages@);
        }
        self.messages.push(message);
        if is_controller {
            self.controller_pending = true;
        }
        Enqueued::Queued
    }
}

impl<H> Queueing<TaskMessage<H>> for TaskQueue<H> {
    open spec fn pending(&self) -> Seq<TaskMessage<H>> {
        self.messages()
    }

    open spec fn wf(&self) -> bool {
        self.in_order()
    }

    fn dequeue(&mut self) -> (value: Option<TaskMessage<H>>)
        ensures
            final(self).capacity() == old(self).capacity(),
    {
        if self.messages.len() == 0 {
            return None;
        }
        proof {
            lemma_dequeue_controller_messages(self.messages@);
            assert(self.messages@.remove(0) =~= self.messages@.skip(1));
        }
        let message = self.messages.remove(0);
        if let TaskMessage::ControllerHasEvents = &message {
            self.controller_pending = false;
        }
        Some(message)
    }
}

/// What the task does next.
#[derive(Debug)]
pub enum Wait<Value> {
    /// Handle this value, with interrupts off until it is handled.
    Ready(Value),
    /// Nothing is queued: switch interrupts on and halt until the next
    /// one, then look again.
    Halt,
}

/// The side of a queue on which the task of the driver waits for work.
///
/// The task looks at the queue; where it is empty, the task lets the
/// processor halt until an interrupt and looks again. An interrupt that
/// queued nothing costs one more look and nothing else.
pub struct InterruptQueueWaiter<Queue> {
    queue: Queue,
}

impl<Queue> InterruptQueueWaiter<Queue> {
    /// The queue that is waited on.
    pub closed spec fn queue(&self) -> Queue {
        self.queue
    }

    pub fn new(queue: Queue) -> (waiter: InterruptQueueWaiter<Queue>)
        ensures
            waiter.queue() == queue,
    {
        Self { queue }
    }

    /// Gives the queue back.
    pub fn into_queue(self) -> (queue: Queue)
        ensures
            queue == self.queue(),
    {
        self.queue
    }

    /// Looks at the queue once: the oldest value is taken and handed out as
    /// `Ready`, and an empty queue says `Halt`.
    pub fn poll<Value>(&mut self) -> (r: Wait<Value>) where Queue: Queueing<Value>
        requires
            old(self).queue().wf(),
        ensures
            final(self).queue().wf(),
            old(self).queue().pending().len() == 0 ==> r is Halt && final(self).queue().pending()
                == old(self).queue().pending(),
            old(self).queue().pending().len() > 0 ==> r == Wait::Ready(
                old(self).queue().pending()[0],
            ) && final(self).queue().pending() == old(self).queue().pending().skip(1),
    {
        match self.queue.dequeue() {
            Some(value) => Wait::Ready(value),
            None => Wait::Halt,
        }
    }
}

impl<H> InterruptQueueWaiter<TaskQueue<H>> {
    /// Looks at the queue of messages once, as [`InterruptQueueWaiter::poll`]
    /// does. The look leaves the queue in order and as large as it was, so
    /// what becomes of the next message that is handed over is known.
    pub fn poll_message(&mut self) -> (r: Wait<TaskMessage<H>>)
        requires
            old(self).queue().in_order(),
        ensures
            final(self).queue().in_order(),
            final(self).queue().capacity() == old(self).queue().capacity(),
            final(self).queue().messages() == after_dequeue(old(self).queue().messages()),
            match taken(old(self).queue().messages()) {
                Some(message) => r == Wait::Ready(message),
                None => r is Halt,
            },
    {
        match self.queue.dequeue() {
            Some(value) => Wait::Ready(value),
            None => Wait::Halt,
        }
    }

    /// Hands `message` to the queue from an interrupt handler; see
    /// [`TaskQueue::enqueue`].
    pub fn notify(&mut self, message: TaskMessage<H>) -> (r: Enqueued)
        requires
            old(self).queue().in_order(),
        ensures
            final(self).queue().in_order(),
            final(self).queue().capacity() == old(self).queue().capacity(),
            r == fate(old(self).queue().messages(), old(self).queue().capacity(), message),
            final(self).queue().messages() == after_enqueue(
                old(self).queue().messages(),
                old(self).queue().capacity(),
                message,
            ),
    {
        self.queue.enqueue(message)
    }
}

} // verus!
