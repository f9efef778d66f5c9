//! The inbound side of one connection's byte stream: bytes go in as the
//! transport delivers them, frames come out.

use crate::frame::{decode, decoded, wire_parse, DecodeError, Frame, FrameView};
use vstd::prelude::*;

verus! {

/// The bytes a viewer has sent and that no frame has been taken from yet.
pub struct Inbox {
    buffer: Vec<u8>,
    limit: usize,
}

/// The limit that an inbox applies when it is asked for `limit`: the same,
/// but no more than `isize::MAX`.
pub open spec fn effective_limit(limit: usize) -> nat {
    if limit <= isize::MAX {
        limit as nat
    } else {
        isize::MAX as nat
    }
}

impl View for Inbox {
    type V = Seq<u8>;

    closed spec fn view(&self) -> Seq<u8> {
        self.buffer@
    }
}

impl Inbox {
    /// The longest payload that this inbox accepts in a frame.
    pub closed spec fn limit(&self) -> nat {
        self.limit as nat
    }

    /// The representation invariant: the limit is one that `decode` takes.
    pub closed spec fn wf(&self) -> bool {
        self.limit <= isize::MAX
    }

    /// An empty inbox that refuses frames with a payload over `limit`.
    pub fn new(limit: usize) -> (inbox: Inbox)
        ensures
            inbox.wf(),
            inbox@ == Seq::<u8>::empty(),
            inbox.limit() == effective_limit(limit),
    {
        let capped = if limit <= isize::MAX as usize {
            limit
        } else {
            isize::MAX as usize
        };
        Inbox { buffer: Vec::new(), limit: capped }
    }

    /// The longest payload that this inbox accepts in a frame.
    pub fn payload_limit(&self) -> (limit: usize)
        ensures
            limit == self.limit(),
    {
        self.limit
    }

    /// How many bytes wait in the inbox.
    pub fn len(&self) -> (n: usize)
        ensures
            n == self@.len(),
    {
        self.buffer.len()
    }

    /// Appends what the transport has delivered.
    pub fn feed(&mut self, bytes: &[u8])
        requires
            old(self).wf(),
        ensures
            final(self).wf(),
            final(self).limit() == old(self).limit(),
            final(self)@ == old(self)@ + bytes@,
    {
        let mut i: usize = 0;
        while i < bytes.len()
            invariant
                i <= bytes@.len(),
                self.limit == old(self).limit,
                self.buffer@ == old(self).buffer@ + bytes@.take(i as int),
            decreases bytes@.len() - i,
        {
            self.buffer.push(bytes[i]);
            assert(bytes@.take(i as int + 1) =~= bytes@.take(i as int).push(bytes@[i as int]));
            i += 1;
        }
        assert(bytes@.take(bytes@.len() as int) =~= bytes@);
    }

    /// What taking a frame makes of the bytes `buffered` under `limit`: the
    /// frame at the front and the bytes behind it; nothing yet, with the
    /// bytes kept, where the frame is not complete; or the reason why the
    /// bytes are refused.
    pub open spec fn taken(buffered: Seq<u8>, limit: nat) -> Result<
        (Option<FrameView>, Seq<u8>),
        DecodeError,
    > {
        match decoded(wire_parse(buffered, limit), buffered.len()) {
            Ok(Some((frame, used))) => Ok((Some(frame), buffered.skip(used as int))),
            Ok(None) => Ok((None, buffered)),
            Err(e) => Err(e),
        }
    }

    /// Takes the frame at the front of the inbox, if a whole one is there.
    ///
    /// On a refusal the bytes stay as they are: the connection is beyond
    /// repair and is to be closed.
    pub fn next_frame(&mut self) -> (outcome: Result<Option<Frame>, DecodeError>)
        requires
            old(self).wf(),
        ensures
            final(self).wf(),
            final(self).limit() == old(self).limit(),
            match Inbox::taken(old(self)@, old(self).limit()) {
                Ok((Some(frame), rest)) => {
                    &&& outcome matches Ok(Some(got))
                    &&& got@ == frame
                    &&& frame.encodable()
                    &&& final(self)@ == rest
                    &&& final(self)@.len() < old(self)@.len()
                },
                Ok((None, rest)) => outcome == Ok::<Option<Frame>, DecodeError>(None) && final(self)@ == rest,
                Err(e) => outcome == Err::<Option<Frame>, DecodeError>(e) && final(self)@ == old(self)@,
            },
    {
        match decode(self.buffer.as_slice(), self.limit) {
            Ok(Some((frame, used))) => {
                let rest = self.buffer.split_off(used);
                self.buffer = rest;
                assert(self.buffer@ =~= old(self).buffer@.skip(used as int));
                Ok(Some(frame))
            },
            Ok(None) => Ok(None),
            Err(e) => Err(e),
        }
    }
}

} // verus!
