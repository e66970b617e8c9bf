//! The state that a channel of bytes shares between its sender and its
//! receiver: the bytes sent and not yet received, up to a limit, and whether
//! either side has gone.

use vstd::prelude::*;

use bytes::BytesMut;

use crate::protocol::codec::{
    bytes_contents, bytes_new, bytes_reserve, bytes_slice, bytes_split, bytes_split_off_at_len,
    bytes_split_to, bytes_unsplit,
};

verus! {

/// Why bytes could not be sent without waiting.
#[derive(PartialEq, Eq, Debug)]
pub enum TrySendError {
    /// The other side has gone; these are the bytes that were not sent.
    Disconnected(BytesMut),
    /// The channel is full; these are the bytes that did not fit.
    Full(BytesMut),
}

/// The other side has gone; these are the bytes that were not sent.
#[derive(PartialEq, Eq, Debug)]
pub struct SendError(pub BytesMut);

impl SendError {
    pub fn into_inner(self) -> (b: BytesMut)
        ensures
            bytes_contents(b) == bytes_contents(self.0),
    {
        self.0
    }
}

/// Why bytes could not be received without waiting.
#[derive(Clone, Copy, PartialEq, Eq, Debug, Structural)]
pub enum TryRecvError {
    /// No bytes are waiting.
    Empty,
    /// No bytes are waiting and the other side has gone.
    Disconnected,
}

/// No bytes are waiting and the other side has gone.
#[derive(Clone, Copy, PartialEq, Eq, Debug, Structural)]
pub enum RecvError {
    Disconnected,
}

/// The bytes sent and not yet received, at most `limit` of them, and
/// whether the sender or the receiver has gone.
pub struct ChannelState {
    bytes: BytesMut,
    disconnected: bool,
    limit: usize,
}

impl ChannelState {
    #[verifier::type_invariant]
    spec fn within_limit(self) -> bool {
        bytes_contents(self.bytes).len() <= self.limit
    }

    /// The bytes waiting to be received.
    pub closed spec fn spec_bytes(&self) -> Seq<u8> {
        bytes_contents(self.bytes)
    }

    pub closed spec fn spec_disconnected(&self) -> bool {
        self.disconnected
    }

    /// The most bytes that can wait.
    pub closed spec fn spec_limit(&self) -> usize {
        self.limit
    }

    /// A channel that holds at most `limit` bytes, with nothing sent.
    pub fn new(limit: usize) -> (c: Self)
        ensures
            c.spec_bytes() == Seq::<u8>::empty(),
            !c.spec_disconnected(),
            c.spec_limit() == limit,
    {
        ChannelState { bytes: bytes_new(), disconnected: false, limit }
    }

    /// The number of bytes waiting, which is never more than the limit.
    pub fn len(&self) -> (n: usize)
        ensures
            n == self.spec_bytes().len(),
            n <= self.spec_limit(),
    {
        proof {
            use_type_invariant(self);
        }
        bytes_slice(&self.bytes).len()
    }

    /// Whether the sender or the receiver has gone.
    pub fn is_disconnected(&self) -> (d: bool)
        ensures
            d == self.spec_disconnected(),
    {
        self.disconnected
    }

    /// Records that the sender or the receiver has gone.
    pub fn disconnect(&mut self)
        ensures
            final(self).spec_disconnected(),
            final(self).spec_bytes() == old(self).spec_bytes(),
            final(self).spec_limit() == old(self).spec_limit(),
    {
        proof {
            use_type_invariant(&*self);
        }
        self.disconnected = true;
    }

    /// Makes room for `additional` more bytes and hands out an empty buffer
    /// for the sender to fill; what waits is unchanged.
    pub fn take_capacity(&mut self, additional: usize) -> (room: BytesMut)
        ensures
            bytes_contents(room) == Seq::<u8>::empty(),
            final(self).spec_bytes() == old(self).spec_bytes(),
            final(self).spec_disconnected() == old(self).spec_disconnected(),
            final(self).spec_limit() == old(self).spec_limit(),
    {
        proof {
            use_type_invariant(&*self);
        }
        let mut b = bytes_new();
        std::mem::swap(&mut b, &mut self.bytes);
        bytes_reserve(&mut b, additional);
        let len = bytes_slice(&b).len();
        let room = bytes_split_off_at_len(&mut b, len);
        self.bytes = b;
        room
    }

    /// Sends `bytes` without waiting. Nothing is sent once either side has
    /// gone. Otherwise as many bytes as fit under the limit are added, in
    /// order, and those that did not fit are handed back.
    pub fn try_send(&mut self, bytes: BytesMut) -> (r: Result<(), TrySendError>)
        ensures
            final(self).spec_disconnected() == old(self).spec_disconnected(),
            final(self).spec_limit() == old(self).spec_limit(),
            ({
                let sent = bytes_contents(bytes);
                let available = old(self).spec_limit() - old(self).spec_bytes().len();
                if old(self).spec_disconnected() {
                    &&& r matches Err(TrySendError::Disconnected(b)) && bytes_contents(b) == sent
                    &&& final(self).spec_bytes() == old(self).spec_bytes()
                } else if sent.len() <= available {
                    &&& r is Ok
                    &&& final(self).spec_bytes() == old(self).spec_bytes() + sent
                } else {
                    &&& r matches Err(TrySendError::Full(b)) && bytes_contents(b) == sent.skip(
                        available,
                    )
                    &&& final(self).spec_bytes() == old(self).spec_bytes() + sent.take(available)
                }
            }),
    {
        proof {
            use_type_invariant(&*self);
        }
        if self.disconnected {
            return Err(TrySendError::Disconnected(bytes));
        }
        let mut bytes = bytes;
        let n = bytes_slice(&bytes).len();
        if n == 0 {
            proof {
                assert(self.spec_bytes() + bytes_contents(bytes) =~= self.spec_bytes());
            }
            return Ok(());
        }
        let mut buf = bytes_new();
        std::mem::swap(&mut buf, &mut self.bytes);
        let available = self.limit - bytes_slice(&buf).len();
        if n > available {
            if available > 0 {
                let front = bytes_split_to(&mut bytes, available);
                bytes_unsplit(&mut buf, front);
            } else {
                proof {
                    assert(bytes_contents(buf) + bytes_contents(bytes).take(0) =~= bytes_contents(buf));
                    assert(bytes_contents(bytes).skip(0) =~= bytes_contents(bytes));
                }
            }
            self.bytes = buf;
            return Err(TrySendError::Full(bytes));
        }
        bytes_unsplit(&mut buf, bytes);
        self.bytes = buf;
        Ok(())
    }

    /// Receives every waiting byte without waiting, if any wait.
    pub fn try_recv(&mut self) -> (r: Result<BytesMut, TryRecvError>)
        ensures
            final(self).spec_disconnected() == old(self).spec_disconnected(),
            final(self).spec_limit() == old(self).spec_limit(),
            old(self).spec_bytes().len() > 0 ==> (r matches Ok(b) && bytes_contents(b)
                == old(self).spec_bytes()) && final(self).spec_bytes() == Seq::<u8>::empty(),
            old(self).spec_bytes().len() == 0 ==> final(self).spec_bytes() == old(self).spec_bytes()
                && r == Err::<BytesMut, TryRecvError>(
                if old(self).spec_disconnected() {
                    TryRecvError::Disconnected
                } else {
                    TryRecvError::Empty
                },
            ),
    {
        proof {
            use_type_invariant(&*self);
        }
        if bytes_slice(&self.bytes).len() > 0 {
            let mut buf = bytes_new();
            std::mem::swap(&mut buf, &mut self.bytes);
            let taken = bytes_split(&mut buf);
            self.bytes = buf;
            return Ok(taken);
        }
        if self.disconnected {
            Err(TryRecvError::Disconnected)
        } else {
            Err(TryRecvError::Empty)
        }
    }
}

/// No byte sent is lost or reordered: what waits after a send, followed by
/// what was handed back, is what waited before followed by what was sent.
pub proof fn send_keeps_bytes_law(waiting: Seq<u8>, sent: Seq<u8>, available: nat)
    requires
        available < sent.len(),
    ensures
        (waiting + sent.take(available as int)) + sent.skip(available as int) == waiting + sent,
{
    assert((waiting + sent.take(available as int)) + sent.skip(available as int) =~= waiting
        + sent);
}

} // verus!
