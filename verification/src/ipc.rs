//! Bounded, directional message channels between two tasks.
//!
//! A [`Channel`] joins exactly two tasks: its sender may only send and its
//! receiver may only receive. It holds at most `CAP` unread messages in
//! arrival order; a send to a full channel and a receive from an empty one
//! fail closed, and nothing ever blocks, grows or overwrites. Whether a pair
//! may talk at all is decided by a [`ChannelPolicy`].

use vstd::prelude::*;
use crate::sched::TaskId;

verus! {

/// Errors [`Channel::send`] and [`Channel::receive`] fail closed with.
#[derive(Debug, Clone, Copy, PartialEq, Eq, Structural)]
pub enum ChannelError {
    /// The caller is not the endpoint permitted this operation.
    NotAnEndpoint,
    /// The policy denies this pair.
    PolicyDenied,
    /// `CAP` unread messages are already queued.
    Full,
    /// Nothing is queued.
    Empty,
}

/// Errors [`Message::new`] fails closed with.
#[derive(Debug, Clone, Copy, PartialEq, Eq, Structural)]
pub enum MessageError {
    /// The payload is longer than the message capacity `N`.
    TooLong,
}

/// A message payload of at most `N` bytes.
#[derive(Debug, PartialEq, Eq)]
pub struct Message<const N: usize> {
    bytes: Vec<u8>,
}

impl<const N: usize> View for Message<N> {
    type V = Seq<u8>;

    closed spec fn view(&self) -> Seq<u8> {
        self.bytes@
    }
}

impl<const N: usize> Message<N> {
    #[verifier::type_invariant]
    spec fn fits(&self) -> bool {
        self.bytes@.len() <= N
    }

    /// A message carrying exactly `payload`, or [`MessageError::TooLong`]
    /// when it exceeds `N` bytes (never a truncated message).
    pub fn new(payload: &[u8]) -> (r: Result<Self, MessageError>)
        ensures
            payload@.len() > N ==> (r matches Err(e) && e == MessageError::TooLong),
            payload@.len() <= N ==> (r matches Ok(m) && m@ == payload@),
    {
        if payload.len() > N {
            return Err(MessageError::TooLong);
        }
        let mut bytes: Vec<u8> = Vec::new();
        let mut i: usize = 0;
        while i < payload.len()
            invariant
                i <= payload@.len(),
                payload@.len() <= N,
                bytes@ == payload@.subrange(0, i as int),
            decreases payload@.len() - i,
        {
            bytes.push(payload[i]);
            i = i + 1;
        }
        proof {
            assert(payload@.subrange(0, payload@.len() as int) == payload@);
        }
        Ok(Message { bytes })
    }

    /// The payload bytes.
    pub fn as_bytes(&self) -> (r: &[u8])
        ensures
            r@ == self@,
    {
        self.bytes.as_slice()
    }
}

/// Whether a sender may send a receiver a message. Implemented by whoever
/// grants channel capabilities.
pub trait ChannelPolicy {
    /// Whether the policy grants `sender` the capability to send `receiver`
    /// a message.
    spec fn grants(&self, sender: TaskId, receiver: TaskId) -> bool;

    /// Whether `sender` is currently granted the capability to send
    /// `receiver` a message.
    fn is_granted(&self, sender: TaskId, receiver: TaskId) -> (r: bool)
        ensures
            r == self.grants(sender, receiver),
    ;
}

/// A policy that grants every channel.
pub struct AllowAllPolicy;

impl ChannelPolicy for AllowAllPolicy {
    /// Every pair is granted.
    open spec fn grants(&self, sender: TaskId, receiver: TaskId) -> bool {
        true
    }

    /// Always grants.
    fn is_granted(&self, sender: TaskId, receiver: TaskId) -> (r: bool)
        ensures
            r,
    {
        true
    }
}

/// A bounded, directional channel between two tasks, holding at most `CAP`
/// messages of at most `MSG_LEN` bytes each.
pub struct Channel<const CAP: usize, const MSG_LEN: usize> {
    sender: TaskId,
    receiver: TaskId,
    buffer: Vec<Option<Message<MSG_LEN>>>,
    head: usize,
    len: usize,
}

/// `i` reduced into `0..cap`, for `i < 2 * cap`.
pub open spec fn ring_index(i: int, cap: int) -> int {
    if i < cap {
        i
    } else {
        i - cap
    }
}

impl<const CAP: usize, const MSG_LEN: usize> Channel<CAP, MSG_LEN> {
    /// The ring buffer's invariant: `CAP` slots, and the `len` slots from
    /// `head` (wrapping) all occupied.
    pub closed spec fn well_formed(&self) -> bool {
        &&& self.buffer@.len() == CAP
        &&& self.len <= CAP
        &&& (CAP == 0 || self.head < CAP)
        &&& (CAP == 0 ==> self.head == 0)
        &&& forall|k: int|
            0 <= k < self.len ==> (#[trigger] self.buffer@[ring_index(
                self.head + k,
                CAP as int,
            )]) is Some
    }

    /// The only task that may send.
    pub closed spec fn sender(&self) -> TaskId {
        self.sender
    }

    /// The only task that may receive.
    pub closed spec fn receiver(&self) -> TaskId {
        self.receiver
    }

    /// The unread messages, oldest first.
    pub closed spec fn queue(&self) -> Seq<Message<MSG_LEN>> {
        Seq::new(
            self.len as nat,
            |k: int| self.buffer@[ring_index(self.head + k, CAP as int)]->Some_0,
        )
    }

    /// What a send by `caller` does when the policy's answer is `granted`:
    /// the error it fails with, if any, in the order the checks are made.
    pub open spec fn send_refusal(&self, caller: TaskId, granted: bool) -> Option<ChannelError> {
        if caller != self.sender() {
            Some(ChannelError::NotAnEndpoint)
        } else if !granted {
            Some(ChannelError::PolicyDenied)
        } else if self.queue().len() == CAP {
            Some(ChannelError::Full)
        } else {
            None
        }
    }

    /// What a receive by `caller` does when the policy's answer is
    /// `granted`: the error it fails with, if any.
    pub open spec fn receive_refusal(&self, caller: TaskId, granted: bool) -> Option<
        ChannelError,
    > {
        if caller != self.receiver() {
            Some(ChannelError::NotAnEndpoint)
        } else if !granted {
            Some(ChannelError::PolicyDenied)
        } else if self.queue().len() == 0 {
            Some(ChannelError::Empty)
        } else {
            None
        }
    }

    /// An empty channel whose only endpoints, for its whole life, are
    /// `sender` and `receiver`.
    pub fn new(sender: TaskId, receiver: TaskId) -> (c: Self)
        ensures
            c.well_formed(),
            c.sender() == sender,
            c.receiver() == receiver,
            c.queue() == Seq::<Message<MSG_LEN>>::empty(),
    {
        let mut buffer: Vec<Option<Message<MSG_LEN>>> = Vec::new();
        let mut i: usize = 0;
        while i < CAP
            invariant
                i <= CAP,
                buffer@.len() == i,
            decreases CAP - i,
        {
            buffer.push(None);
            i = i + 1;
        }
        let c = Channel { sender, receiver, buffer, head: 0, len: 0 };
        assert(c.queue() =~= Seq::<Message<MSG_LEN>>::empty());
        c
    }

    /// Enqueues `message` from `caller` given the policy's answer
    /// `granted`: refused (channel unchanged) when `caller` is not the
    /// sender, the policy denies the pair, or the channel is full; otherwise
    /// `message` joins the back of the queue.
    pub fn send_with_grant(&mut self, caller: TaskId, granted: bool, message: Message<MSG_LEN>) -> (r:
        Result<(), ChannelError>)
        requires
            old(self).well_formed(),
        ensures
            final(self).well_formed(),
            final(self).sender() == old(self).sender(),
            final(self).receiver() == old(self).receiver(),
            old(self).send_refusal(caller, granted) matches Some(e) ==> r == Err::<(), ChannelError>(e)
                && final(self).queue() == old(self).queue(),
            old(self).send_refusal(caller, granted) is None ==> r == Ok::<(), ChannelError>(())
                && final(self).queue() == old(self).queue().push(message),
    {
        if caller != self.sender {
            return Err(ChannelError::NotAnEndpoint);
        }
        if !granted {
            return Err(ChannelError::PolicyDenied);
        }
        if self.len == CAP {
            return Err(ChannelError::Full);
        }
        let tail: usize = if self.len < CAP - self.head {
            self.head + self.len
        } else {
            self.len - (CAP - self.head)
        };
        assert(tail == ring_index(self.head + self.len, CAP as int));
        let ghost before = self.queue();
        self.buffer.set(tail, Some(message));
        self.len = self.len + 1;
        proof {
            assert forall|k: int| 0 <= k < self.len implies (#[trigger] self.buffer@[ring_index(
                self.head + k,
                CAP as int,
            )]) is Some by {
                if k < self.len - 1 {
                    assert(ring_index(self.head + k, CAP as int) != tail);
                }
            }
            assert forall|k: int| 0 <= k < self.len - 1 implies #[trigger] ring_index(
                self.head + k,
                CAP as int,
            ) != tail by {}
            assert(self.queue() =~= before.push(message));
        }
        Ok(())
    }

    /// Enqueues `message`, sent by `caller`: refused when `caller` is not
    /// the sender (the policy is not consulted then), when `policy` denies
    /// the pair, or when the channel is full. Never blocks.
    pub fn send<P: ChannelPolicy>(&mut self, policy: &P, caller: TaskId, message: Message<MSG_LEN>) -> (r:
        Result<(), ChannelError>)
        requires
            old(self).well_formed(),
        ensures
            final(self).well_formed(),
            final(self).sender() == old(self).sender(),
            final(self).receiver() == old(self).receiver(),
            ({
                let granted = policy.grants(old(self).sender(), old(self).receiver());
                &&& (old(self).send_refusal(caller, granted) matches Some(e) ==> r == Err::<
                    (),
                    ChannelError,
                >(e) && final(self).queue() == old(self).queue())
                &&& (old(self).send_refusal(caller, granted) is None ==> r == Ok::<
                    (),
                    ChannelError,
                >(()) && final(self).queue() == old(self).queue().push(message))
            }),
    {
        let granted = if caller == self.sender {
            policy.is_granted(self.sender, self.receiver)
        } else {
            false
        };
        self.send_with_grant(caller, granted, message)
    }

    /// Dequeues the oldest message for `caller` given the policy's answer
    /// `granted`: refused (channel unchanged) when `caller` is not the
    /// receiver, the policy denies the pair, or nothing is queued.
    pub fn receive_with_grant(&mut self, caller: TaskId, granted: bool) -> (r: Result<
        Message<MSG_LEN>,
        ChannelError,
    >)
        requires
            old(self).well_formed(),
        ensures
            final(self).well_formed(),
            final(self).sender() == old(self).sender(),
            final(self).receiver() == old(self).receiver(),
            old(self).receive_refusal(caller, granted) matches Some(e) ==> (r matches Err(x) && x
                == e && final(self).queue() == old(self).queue()),
            old(self).receive_refusal(caller, granted) is None ==> (r matches Ok(m) && m
                == old(self).queue()[0] && final(self).queue() == old(self).queue().drop_first()),
    {
        if caller != self.receiver {
            return Err(ChannelError::NotAnEndpoint);
        }
        if !granted {
            return Err(ChannelError::PolicyDenied);
        }
        if self.len == 0 {
            return Err(ChannelError::Empty);
        }
        let ghost before = self.queue();
        let head: usize = self.head;
        let mut taken: Option<Message<MSG_LEN>> = None;
        std::mem::swap(&mut self.buffer[head], &mut taken);
        assert(ring_index(head + 0, CAP as int) == head);
        let next: usize = head + 1;
        self.head = if next >= CAP {
            next - CAP
        } else {
            next
        };
        self.len = self.len - 1;
        proof {
            assert forall|k: int| 0 <= k < self.len implies (#[trigger] self.buffer@[ring_index(
                self.head + k,
                CAP as int,
            )]) is Some by {
                assert(old(self).buffer@[ring_index(old(self).head + (k + 1), CAP as int)] is Some);
                assert(ring_index(self.head + k, CAP as int) == ring_index(head + k + 1, CAP as int));
                assert(ring_index(head + k + 1, CAP as int) != head);
            }
            assert forall|k: int| 0 <= k < self.len implies #[trigger] ring_index(
                self.head + k,
                CAP as int,
            ) == ring_index(head + k + 1, CAP as int) && ring_index(head + k + 1, CAP as int)
                != head by {}
            assert(self.queue() =~= before.drop_first());
        }
        match taken {
            Some(m) => Ok(m),
            None => Err(ChannelError::Empty),
        }
    }

    /// Dequeues the oldest unread message for `caller`: refused when
    /// `caller` is not the receiver (the policy is not consulted then), when
    /// `policy` denies the pair, or when nothing is queued. Never blocks.
    pub fn receive<P: ChannelPolicy>(&mut self, policy: &P, caller: TaskId) -> (r: Result<
        Message<MSG_LEN>,
        ChannelError,
    >)
        requires
            old(self).well_formed(),
        ensures
            final(self).well_formed(),
            final(self).sender() == old(self).sender(),
            final(self).receiver() == old(self).receiver(),
            ({
                let granted = policy.grants(old(self).sender(), old(self).receiver());
                &&& (old(self).receive_refusal(caller, granted) matches Some(e) ==> (r matches Err(
                    x,
                ) && x == e && final(self).queue() == old(self).queue()))
                &&& (old(self).receive_refusal(caller, granted) is None ==> (r matches Ok(m) && m
                    == old(self).queue()[0] && final(self).queue() == old(
                    self,
                ).queue().drop_first()))
            }),
    {
        let granted = if caller == self.receiver {
            policy.is_granted(self.sender, self.receiver)
        } else {
            false
        };
        self.receive_with_grant(caller, granted)
    }
}

/// The channel is first in, first out: a send appends behind everything
/// queued, so the next receive still yields the oldest message (the one just
/// sent, when nothing else was queued), and what remains after it keeps the
/// new message last.
pub proof fn lemma_send_then_receive_is_fifo<const N: usize>(
    queue: Seq<Message<N>>,
    message: Message<N>,
)
    ensures
        queue.len() == 0 ==> queue.push(message)[0] == message && queue.push(message).drop_first()
            == queue,
        queue.len() > 0 ==> queue.push(message)[0] == queue[0] && queue.push(message).drop_first()
            == queue.drop_first().push(message),
{
    assert(queue.len() == 0 ==> queue.push(message).drop_first() =~= queue);
    assert(queue.len() > 0 ==> queue.push(message).drop_first() =~= queue.drop_first().push(
        message,
    ));
}

} // verus!
