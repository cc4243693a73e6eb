//! The capability seam over a byte-oriented duplex connection.
//!
//! The traits model a stream by the bytes consumed from it and the
//! bytes written to it; a live socket, a test double or a recorded
//! byte feed can stand behind them. [`MemStream`] is the library's own
//! in-memory implementation, verified against the same contracts and
//! carrying exact ones of its own.

use vstd::prelude::*;

verus! {

/// What a non-destructive look at the read side reports.
#[derive(Clone, Copy, PartialEq, Eq, Structural, Debug)]
pub enum PeekStatus {
    /// At least one byte is already buffered.
    Ready,
    /// Nothing is buffered right now; more may still arrive.
    Quiet,
    /// The stream has ended: no byte will ever arrive again.
    End,
}

/// The read half of a connection.
///
/// `consumed` is the abstract history of bytes taken from the stream;
/// an implementation must extend it exactly by what `read_byte`
/// returns. Which byte arrives is the peer's choice, so nothing
/// constrains the value itself.
pub trait ReadStream {
    /// The bytes consumed from the stream so far. The default body is
    /// for implementations outside the verified world, which have no
    /// model; every implementation verified here overrides it.
    open spec fn consumed(&self) -> Seq<u8> {
        Seq::<u8>::empty()
    }

    /// Reports what is buffered now, without consuming anything or
    /// blocking forever on a quiet stream.
    fn peek_available(&mut self) -> (r: Result<PeekStatus, std::io::Error>)
        ensures
            final(self).consumed() == old(self).consumed(),
    ;

    /// Takes the next byte, blocking until one is available or the
    /// stream fails.
    fn read_byte(&mut self) -> (r: Result<u8, std::io::Error>)
        ensures
            match r {
                Ok(b) => final(self).consumed() == old(self).consumed().push(b),
                Err(_) => final(self).consumed() == old(self).consumed(),
            },
    ;
}

/// A whole duplex connection: the read half plus writing and
/// cooperative shutdown.
///
/// `written` is the abstract history of bytes handed to the peer. A
/// write that returns `Ok` has accepted all of `data`; after an `Err`
/// the write counts as not delivered.
pub trait ConnectionStream {
    /// The bytes consumed from the read half so far. The default body
    /// is for implementations outside the verified world, which have
    /// no model; every implementation verified here overrides it.
    open spec fn consumed(&self) -> Seq<u8> {
        Seq::<u8>::empty()
    }

    /// The bytes written to the stream so far, modelled as `consumed`
    /// is.
    open spec fn written(&self) -> Seq<u8> {
        Seq::<u8>::empty()
    }

    /// As [`ReadStream::peek_available`].
    fn peek_available(&mut self) -> (r: Result<PeekStatus, std::io::Error>)
        ensures
            final(self).consumed() == old(self).consumed(),
            final(self).written() == old(self).written(),
    ;

    /// As [`ReadStream::read_byte`].
    fn read_byte(&mut self) -> (r: Result<u8, std::io::Error>)
        ensures
            final(self).written() == old(self).written(),
            match r {
                Ok(b) => final(self).consumed() == old(self).consumed().push(b),
                Err(_) => final(self).consumed() == old(self).consumed(),
            },
    ;

    /// Writes all of `data`.
    fn write_bytes(&mut self, data: &[u8]) -> (r: Result<(), std::io::Error>)
        ensures
            final(self).consumed() == old(self).consumed(),
            match r {
                Ok(_) => final(self).written() == old(self).written() + data@,
                Err(_) => final(self).written() == old(self).written(),
            },
    ;

    /// Ends the conversation: afterwards the peer, and any party
    /// blocked reading, observes that no more data will come.
    fn shutdownly(&mut self) -> (r: Result<(), std::io::Error>)
        ensures
            final(self).consumed() == old(self).consumed(),
            final(self).written() == old(self).written(),
    ;
}

/// Relies on `std::io::Error::from(ErrorKind)` to build the error a
/// drained [`MemStream`] reports from `read_byte`, and the one `read`
/// reports when no complete line arrived.
#[verifier::external_body]
pub(crate) fn end_of_input_error() -> std::io::Error {
    std::io::Error::from(std::io::ErrorKind::UnexpectedEof)
}

/// An in-memory duplex stream: reads come from a buffer that a test
/// feeds, writes are collected for inspection. After `shutdownly` the
/// read side permanently reports the end of the stream.
pub struct MemStream {
    incoming: Vec<u8>,
    pos: usize,
    outgoing: Vec<u8>,
    shut: bool,
}

impl MemStream {
    #[verifier::type_invariant]
    spec fn inv(self) -> bool {
        self.pos <= self.incoming.len()
    }

    /// The bytes read from this stream so far.
    pub closed spec fn spec_consumed(self) -> Seq<u8> {
        self.incoming@.take(self.pos as int)
    }

    /// The bytes written to this stream so far.
    pub closed spec fn spec_written(self) -> Seq<u8> {
        self.outgoing@
    }

    /// The fed bytes not yet read.
    pub closed spec fn spec_unread(self) -> Seq<u8> {
        self.incoming@.skip(self.pos as int)
    }

    /// Whether `shutdownly` has been called.
    pub closed spec fn is_shut(self) -> bool {
        self.shut
    }

    /// An empty stream.
    pub fn new() -> (r: MemStream)
        ensures
            r.spec_consumed() == Seq::<u8>::empty(),
            r.spec_written() == Seq::<u8>::empty(),
            r.spec_unread() == Seq::<u8>::empty(),
            !r.is_shut(),
    {
        let r = MemStream { incoming: Vec::new(), pos: 0, outgoing: Vec::new(), shut: false };
        proof {
            assert(r.spec_consumed() =~= Seq::<u8>::empty());
            assert(r.spec_unread() =~= Seq::<u8>::empty());
        }
        r
    }

    /// Makes `data` available to be read, after what is already
    /// pending.
    pub fn feed(&mut self, data: &[u8])
        ensures
            final(self).spec_consumed() == old(self).spec_consumed(),
            final(self).spec_written() == old(self).spec_written(),
            final(self).spec_unread() == old(self).spec_unread() + data@,
            final(self).is_shut() == old(self).is_shut(),
    {
        proof {
            use_type_invariant(&*self);
        }
        let saved_pos = self.pos;
        self.pos = 0;
        let mut buf: Vec<u8> = Vec::new();
        std::mem::swap(&mut buf, &mut self.incoming);
        let mut k: usize = 0;
        let n = data.len();
        while k < n
            invariant
                n == data@.len(),
                k <= n,
                buf@ == old(self).incoming@ + data@.take(k as int),
            decreases n - k,
        {
            buf.push(data[k]);
            proof {
                assert(buf@ =~= old(self).incoming@ + data@.take(k + 1));
            }
            k += 1;
        }
        proof {
            assert(buf@ =~= old(self).incoming@ + data@);
        }
        std::mem::swap(&mut buf, &mut self.incoming);
        self.pos = saved_pos;
        proof {
            assert(self.spec_consumed() =~= old(self).spec_consumed());
            assert(self.spec_unread() =~= old(self).spec_unread() + data@);
        }
    }

    /// Makes the characters of `line` available to be read; the
    /// protocol is ASCII, and each character becomes one byte.
    pub fn feed_str(&mut self, line: &str)
        ensures
            final(self).spec_consumed() == old(self).spec_consumed(),
            final(self).spec_written() == old(self).spec_written(),
            final(self).spec_unread() == old(self).spec_unread() + crate::strutil::ascii_bytes_of(
                line@,
            ),
            final(self).is_shut() == old(self).is_shut(),
    {
        let bytes = crate::strutil::string_ascii_bytes(line);
        self.feed(bytes.as_slice());
    }

    /// What has been written into this stream, for inspection.
    pub fn written_bytes(&self) -> (r: &Vec<u8>)
        ensures
            r@ == self.spec_written(),
    {
        &self.outgoing
    }

    /// Takes the first unread byte; a drained stream reports an
    /// error. The trait impls of `read_byte` forward here, so this is
    /// the exact statement of what a read from this stream does.
    pub fn take_byte(&mut self) -> (r: Result<u8, std::io::Error>)
        ensures
            final(self).spec_written() == old(self).spec_written(),
            final(self).is_shut() == old(self).is_shut(),
            (r is Ok) == (old(self).spec_unread().len() > 0),
            match r {
                Ok(b) => b == old(self).spec_unread()[0] && final(self).spec_consumed() == old(
                    self,
                ).spec_consumed().push(b) && final(self).spec_unread() == old(
                    self,
                ).spec_unread().skip(1),
                Err(_) => *final(self) == *old(self),
            },
    {
        proof {
            use_type_invariant(&*self);
        }
        if self.pos < self.incoming.len() {
            let b = self.incoming[self.pos];
            self.pos = self.pos + 1;
            proof {
                assert(b == old(self).spec_unread()[0]);
                assert(self.spec_consumed() =~= old(self).spec_consumed().push(b));
                assert(self.spec_unread() =~= old(self).spec_unread().skip(1));
            }
            Ok(b)
        } else {
            Err(end_of_input_error())
        }
    }

    /// What a look at the read side reports: pending bytes win, then
    /// a shutdown, then mere quiet.
    pub open spec fn spec_peek(self) -> PeekStatus {
        if self.spec_unread().len() > 0 && !self.is_shut() {
            PeekStatus::Ready
        } else if self.is_shut() {
            PeekStatus::End
        } else {
            PeekStatus::Quiet
        }
    }

    /// Executable form of `spec_peek`. The trait impls of
    /// `peek_available` forward here, so this is the exact statement
    /// of what a look at this stream reports.
    pub fn peek_status(&self) -> (r: PeekStatus)
        ensures
            r == self.spec_peek(),
    {
        proof {
            use_type_invariant(&*self);
        }
        if self.shut {
            PeekStatus::End
        } else if self.pos < self.incoming.len() {
            PeekStatus::Ready
        } else {
            PeekStatus::Quiet
        }
    }
}

impl ReadStream for MemStream {
    closed spec fn consumed(&self) -> Seq<u8> {
        self.spec_consumed()
    }

    fn peek_available(&mut self) -> (r: Result<PeekStatus, std::io::Error>) {
        Ok(self.peek_status())
    }

    fn read_byte(&mut self) -> (r: Result<u8, std::io::Error>) {
        self.take_byte()
    }
}

impl ConnectionStream for MemStream {
    closed spec fn consumed(&self) -> Seq<u8> {
        self.spec_consumed()
    }

    closed spec fn written(&self) -> Seq<u8> {
        self.spec_written()
    }

    fn peek_available(&mut self) -> (r: Result<PeekStatus, std::io::Error>) {
        Ok(self.peek_status())
    }

    fn read_byte(&mut self) -> (r: Result<u8, std::io::Error>) {
        self.take_byte()
    }

    fn write_bytes(&mut self, data: &[u8]) -> (r: Result<(), std::io::Error>)
        ensures
            r is Ok,
            final(self).spec_unread() == old(self).spec_unread(),
            final(self).is_shut() == old(self).is_shut(),
    {
        proof {
            use_type_invariant(&*self);
        }
        let mut buf: Vec<u8> = Vec::new();
        std::mem::swap(&mut buf, &mut self.outgoing);
        let mut k: usize = 0;
        let n = data.len();
        while k < n
            invariant
                n == data@.len(),
                k <= n,
                buf@ == old(self).outgoing@ + data@.take(k as int),
            decreases n - k,
        {
            buf.push(data[k]);
            proof {
                assert(buf@ =~= old(self).outgoing@ + data@.take(k + 1));
            }
            k += 1;
        }
        proof {
            assert(buf@ =~= old(self).outgoing@ + data@);
        }
        std::mem::swap(&mut buf, &mut self.outgoing);
        Ok(())
    }

    fn shutdownly(&mut self) -> (r: Result<(), std::io::Error>)
        ensures
            r is Ok,
            final(self).is_shut(),
            final(self).spec_unread() == old(self).spec_unread(),
    {
        proof {
            use_type_invariant(&*self);
        }
        self.shut = true;
        Ok(())
    }
}

} // verus!
