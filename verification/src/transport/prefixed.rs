//! A stream that first gives back bytes already read from it (such as the
//! request head that routing looked at), then reads on from the stream.
use vstd::prelude::*;
use crate::transport::copy_range;

verus! {

/// The bytes to replay, how many of them have been handed out, and the
/// stream that the rest comes from.
#[derive(Debug)]
pub struct PrefixedStream<S> {
    prefix: Vec<u8>,
    position: usize,
    inner: S,
}

impl<S> PrefixedStream<S> {
    /// The position never passes the end of the prefix.
    #[verifier::type_invariant]
    spec fn position_in_prefix(&self) -> bool {
        self.position <= self.prefix@.len()
    }

    /// The bytes to replay.
    pub closed spec fn prefix(&self) -> Seq<u8> {
        self.prefix@
    }

    /// How many of them have been handed out.
    pub closed spec fn position(&self) -> nat {
        self.position as nat
    }

    /// The stream read after the prefix.
    pub closed spec fn inner(&self) -> S {
        self.inner
    }

    /// A stream that replays `prefix` before reading from `inner`.
    pub fn new(prefix: Vec<u8>, inner: S) -> (s: Self)
        ensures
            s.prefix() == prefix@,
            s.position() == 0,
            s.inner() == inner,
    {
        PrefixedStream { prefix, position: 0, inner }
    }

    /// How many bytes of the prefix are still to be handed out.
    pub fn prefix_remaining(&self) -> (n: usize)
        ensures
            n == self.prefix().len() - self.position(),
    {
        proof {
            use_type_invariant(self);
        }
        self.prefix.len() - self.position
    }

    /// Hands out the next bytes of the prefix, as many as `room` allows:
    /// what a read into a buffer with `room` free bytes gets while the
    /// prefix lasts. Once it is used up, reads go to the inner stream.
    pub fn take_prefix(&mut self, room: usize) -> (out: Vec<u8>)
        ensures
            ({
                let k = if old(self).prefix().len() - old(self).position() < room {
                    old(self).prefix().len() - old(self).position()
                } else {
                    room as int
                };
                &&& out@ == old(self).prefix().subrange(
                    old(self).position() as int,
                    old(self).position() + k,
                )
                &&& final(self).position() == old(self).position() + k
            }),
            final(self).prefix() == old(self).prefix(),
            final(self).inner() == old(self).inner(),
            final(self).position() <= final(self).prefix().len(),
    {
        proof {
            use_type_invariant(&*self);
        }
        let remaining = self.prefix.len() - self.position;
        let k = if remaining < room {
            remaining
        } else {
            room
        };
        let start = self.position;
        let out = copy_range(self.prefix.as_slice(), start, start + k);
        self.position = start + k;
        out
    }

    /// The prefix and the inner stream, taken apart.
    pub fn into_parts(self) -> (parts: (Vec<u8>, usize, S))
        ensures
            parts.0@ == self.prefix(),
            parts.1 == self.position(),
            parts.2 == self.inner(),
    {
        (self.prefix, self.position, self.inner)
    }
}

/// Law: handing out the prefix in two reads gives the same bytes, in order,
/// as one read with room for both.
pub proof fn law_prefix_reads_concatenate(prefix: Seq<u8>, pos: int, a: int, b: int)
    requires
        0 <= pos <= pos + a <= pos + a + b <= prefix.len(),
        0 <= a,
        0 <= b,
    ensures
        prefix.subrange(pos, pos + a) + prefix.subrange(pos + a, pos + a + b) == prefix.subrange(
            pos,
            pos + a + b,
        ),
{
    assert(prefix.subrange(pos, pos + a) + prefix.subrange(pos + a, pos + a + b) =~= prefix.subrange(
        pos,
        pos + a + b,
    ));
}

} // verus!
