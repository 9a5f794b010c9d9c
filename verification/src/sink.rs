//! Where a machine's output instructions write.

use vstd::prelude::*;

verus! {

/// A byte-oriented output that only ever grows.
pub trait Sink {
    /// Every byte that the sink has taken so far, oldest first.
    spec fn written(&self) -> Seq<u8>;

    /// Whether the sink takes whatever it is given, now and from now on.
    spec fn infallible(&self) -> bool;

    /// Offers `bytes` to the sink and says whether it took all of them.
    ///
    /// When it did, they stand at the end of what was written. When it did
    /// not, what was written before is still there, in front of whatever part
    /// got through.
    fn put(&mut self, bytes: &[u8]) -> (taken: bool)
        ensures
            taken ==> final(self).written() == old(self).written() + bytes@,
            old(self).written().is_prefix_of(final(self).written()),
            old(self).infallible() ==> taken && final(self).infallible(),
    ;
}

/// A growable byte vector takes everything.
impl Sink for Vec<u8> {
    open spec fn written(&self) -> Seq<u8> {
        self@
    }

    open spec fn infallible(&self) -> bool {
        true
    }

    fn put(&mut self, bytes: &[u8]) -> (taken: bool) {
        let mut i: usize = 0;
        while i < bytes.len()
            invariant
                i <= bytes.len(),
                self@ =~= old(self)@ + bytes@.subrange(0, i as int),
            decreases bytes.len() - i,
        {
            self.push(bytes[i]);
            i += 1;
        }
        assert(bytes@.subrange(0, bytes.len() as int) =~= bytes@);
        true
    }
}

/// An output that holds at most a fixed number of bytes: it takes bytes
/// until it is full and refuses the rest.
pub struct Bounded {
    bytes: Vec<u8>,
    limit: usize,
}

impl Bounded {
    /// The number of bytes that the output can hold in all.
    pub closed spec fn limit(&self) -> nat {
        self.limit as nat
    }

    /// How many of `offered` more bytes the output has room for.
    pub open spec fn room_for(&self, offered: nat) -> nat {
        if self.written().len() >= self.limit() {
            0
        } else if self.written().len() + offered <= self.limit() {
            offered
        } else {
            (self.limit() - self.written().len()) as nat
        }
    }

    /// An empty output that holds at most `limit` bytes.
    pub fn new(limit: usize) -> (out: Bounded)
        ensures
            out.written() == Seq::<u8>::empty(),
            out.limit() == limit,
    {
        Bounded { bytes: Vec::new(), limit }
    }

    /// The bytes taken so far, oldest first.
    pub fn bytes(&self) -> (r: &[u8])
        ensures
            r@ == self.written(),
    {
        self.bytes.as_slice()
    }
}

impl Sink for Bounded {
    closed spec fn written(&self) -> Seq<u8> {
        self.bytes@
    }

    open spec fn infallible(&self) -> bool {
        false
    }

    /// Takes as many of `bytes` as there is room for, from the front, and
    /// says whether that was all of them.
    fn put(&mut self, bytes: &[u8]) -> (taken: bool)
        ensures
            final(self).limit() == old(self).limit(),
            final(self).written() == old(self).written() + bytes@.subrange(
                0,
                old(self).room_for(bytes@.len()) as int,
            ),
            taken <==> old(self).room_for(bytes@.len()) == bytes@.len(),
    {
        let room: usize = if self.bytes.len() >= self.limit {
            0
        } else if bytes.len() <= self.limit - self.bytes.len() {
            bytes.len()
        } else {
            self.limit - self.bytes.len()
        };
        let mut i: usize = 0;
        while i < room
            invariant
                i <= room <= bytes.len(),
                self.limit == old(self).limit,
                self.bytes@ =~= old(self).bytes@ + bytes@.subrange(0, i as int),
            decreases room - i,
        {
            self.bytes.push(bytes[i]);
            i += 1;
        }
        assert(bytes@.subrange(0, bytes.len() as int) =~= bytes@);
        room == bytes.len()
    }
}

} // verus!
