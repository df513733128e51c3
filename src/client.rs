//! One accepted connection, and the policy of its read loop.

use vstd::prelude::*;

verus! {

/// Size of the read buffer when a read loop starts.
pub const INITIAL_CAPACITY: usize = 4096;

/// What the read buffer grows by whenever a read fills it exactly.
pub const GROWTH: usize = 1024;

/// An accepted connection as the registry sees it: its handle and the
/// textual form of its peer's address. The socket itself stays with the
/// caller, keyed by the same handle.
pub struct Client {
    token: usize,
    addr: String,
}

impl Client {
    pub closed spec fn spec_token(&self) -> usize {
        self.token
    }

    pub closed spec fn spec_addr(&self) -> Seq<char> {
        self.addr@
    }

    pub fn new(token: usize, addr: String) -> (c: Client)
        ensures
            c.spec_token() == token,
            c.spec_addr() == addr@,
    {
        Client { token, addr }
    }

    pub fn token(&self) -> (r: usize)
        ensures
            r == self.spec_token(),
    {
        self.token
    }

    pub fn socket_address(&self) -> (r: &String)
        ensures
            r@ == self.spec_addr(),
    {
        &self.addr
    }
}

/// What one non-blocking read of the socket reported.
#[derive(Debug, PartialEq, Eq)]
pub enum ReadOutcome {
    /// The read returned these bytes; none means the peer closed its side.
    Bytes(Vec<u8>),
    /// No more data is available for now.
    WouldBlock,
    /// The read was interrupted by a signal.
    Interrupted,
    /// Any other error.
    Failed,
}

/// How a read loop ended.
#[derive(Debug, PartialEq, Eq)]
pub enum ReadResult {
    /// Everything that was available, possibly nothing.
    Data(Vec<u8>),
    /// A read returned zero bytes: clean end of stream.
    Closed,
    /// A read failed with an unrecoverable error.
    Failed,
}

/// The state of one read loop: the bytes gathered so far and the current
/// size of the buffer they are read into.
pub struct ReadBuffer {
    received: Vec<u8>,
    capacity: usize,
}

/// The buffer size after a read left `len` bytes in a buffer of `cap`:
/// grown by `GROWTH` when exactly filled and there is room to grow.
pub open spec fn grown(len: nat, cap: nat) -> nat {
    if len == cap && cap + GROWTH <= usize::MAX {
        (cap + GROWTH) as nat
    } else {
        cap
    }
}

impl ReadBuffer {
    pub closed spec fn received(&self) -> Seq<u8> {
        self.received@
    }

    pub closed spec fn capacity(&self) -> nat {
        self.capacity as nat
    }

    pub open spec fn wf(&self) -> bool {
        &&& INITIAL_CAPACITY <= self.capacity()
        &&& self.received().len() <= self.capacity()
        &&& self.capacity() <= usize::MAX
    }

    /// Room left in the buffer: the most the next read may return.
    pub open spec fn spec_window(&self) -> nat {
        (self.capacity() - self.received().len()) as nat
    }

    pub fn new() -> (b: ReadBuffer)
        ensures
            b.wf(),
            b.received().len() == 0,
            b.capacity() == INITIAL_CAPACITY,
    {
        ReadBuffer { received: Vec::new(), capacity: INITIAL_CAPACITY }
    }

    pub fn window(&self) -> (r: usize)
        requires
            self.wf(),
        ensures
            r == self.spec_window(),
    {
        self.capacity - self.received.len()
    }

    /// Takes the outcome of one read and says whether the loop is over.
    /// `None` asks for another read into a buffer of `window()` bytes.
    pub fn advance(&mut self, outcome: ReadOutcome) -> (r: Option<ReadResult>)
        requires
            old(self).wf(),
            outcome matches ReadOutcome::Bytes(b) ==> b@.len() <= old(self).spec_window(),
        ensures
            final(self).wf(),
            match outcome {
                ReadOutcome::Bytes(b) => if b@.len() == 0 {
                    &&& r matches Some(ReadResult::Closed)
                    &&& final(self).received() == old(self).received()
                } else {
                    let len = old(self).received().len() + b@.len();
                    &&& final(self).received() == old(self).received() + b@
                    &&& final(self).capacity() == grown(len, old(self).capacity())
                    &&& if final(self).spec_window() == 0 {
                        r matches Some(ReadResult::Data(d)) && d@ == final(self).received()
                    } else {
                        r is None
                    }
                },
                ReadOutcome::WouldBlock => {
                    &&& r matches Some(ReadResult::Data(d)) && d@ == old(self).received()
                    &&& final(self).received() == old(self).received()
                    &&& final(self).capacity() == old(self).capacity()
                },
                ReadOutcome::Interrupted => {
                    &&& r is None
                    &&& final(self).received() == old(self).received()
                    &&& final(self).capacity() == old(self).capacity()
                },
                ReadOutcome::Failed => r matches Some(ReadResult::Failed),
            },
    {
        match outcome {
            ReadOutcome::Bytes(b) => {
                if b.len() == 0 {
                    return Some(ReadResult::Closed);
                }
                let mut i: usize = 0;
                let ghost start = self.received@;
                while i < b.len()
                    invariant
                        i <= b@.len(),
                        self.received@ == start + b@.subrange(0, i as int),
                        self.capacity == old(self).capacity,
                        start == old(self).received(),
                        b@.len() <= old(self).spec_window(),
                    decreases b@.len() - i,
                {
                    self.received.push(b[i]);
                    i = i + 1;
                }
                assert(b@.subrange(0, b@.len() as int) =~= b@);
                if self.received.len() == self.capacity && self.capacity <= usize::MAX - GROWTH {
                    self.capacity = self.capacity + GROWTH;
                }
                if self.received.len() == self.capacity {
                    Some(ReadResult::Data(self.received.clone()))
                } else {
                    None
                }
            },
            ReadOutcome::WouldBlock => Some(ReadResult::Data(self.received.clone())),
            ReadOutcome::Interrupted => None,
            ReadOutcome::Failed => Some(ReadResult::Failed),
        }
    }
}

} // verus!
