//! The bookkeeping of the tunnels that carry many client streams (TCP)
//! or datagrams (UDP) over one work connection: which stream ids are open,
//! which requests wait for a reply, and what each incoming frame calls for.
//! The sinks (`T`) are whatever delivers data to a stream or a waiting
//! request; the caller owns the channels behind them.
use vstd::prelude::*;
use std::collections::HashMap;
use crate::transport::mux::MuxFrame;
use crate::transport::udp_mux::UdpMuxFrame;

verus! {

broadcast use vstd::std_specs::hash::group_hash_axioms;

/// The identifier after `id`, wrapping at the top of `u32` as the atomic
/// counters that hand them out do.
pub open spec fn next_id(id: u32) -> u32 {
    if id == u32::MAX {
        0
    } else {
        (id + 1) as u32
    }
}

fn advance(id: u32) -> (n: u32)
    ensures
        n == next_id(id),
{
    if id == u32::MAX {
        0
    } else {
        id + 1
    }
}

/// What a tunnel does with an incoming multiplexed frame.
pub enum MuxAction {
    /// Hand the payload to the open stream.
    Deliver { stream_id: u32, payload: Vec<u8> },
    /// Send this frame back to the peer.
    Reply(MuxFrame),
    /// The peer opened a stream: connect it and record it.
    Accept { stream_id: u32 },
    /// Nothing to do.
    Ignore,
}

/// The open streams of a multiplexed tunnel, by stream id, and the id the
/// next stream opened on this side gets.
pub struct MuxStreams<T> {
    streams: HashMap<u32, T>,
    next: u32,
}

impl<T> MuxStreams<T> {
    pub closed spec fn view(&self) -> Map<u32, T> {
        self.streams@
    }

    /// The id the next stream opened on this side gets.
    pub closed spec fn next(&self) -> u32 {
        self.next
    }

    /// No stream is open; ids start at 1.
    pub fn new() -> (s: Self)
        ensures
            s.view() == Map::<u32, T>::empty(),
            s.next() == 1,
    {
        MuxStreams { streams: HashMap::new(), next: 1 }
    }

    /// Opens a stream on this side under the next id.
    pub fn open_stream(&mut self, sink: T) -> (id: u32)
        ensures
            id == old(self).next(),
            final(self).next() == next_id(old(self).next()),
            final(self).view() == old(self).view().insert(id, sink),
    {
        let id = self.next;
        self.next = advance(id);
        self.streams.insert(id, sink);
        id
    }

    /// Records a stream that the peer opened.
    pub fn accept_stream(&mut self, stream_id: u32, sink: T)
        ensures
            final(self).next() == old(self).next(),
            final(self).view() == old(self).view().insert(stream_id, sink),
    {
        self.streams.insert(stream_id, sink);
    }

    /// Forgets a stream (closed, or its receiver gone).
    pub fn close_stream(&mut self, stream_id: u32)
        ensures
            final(self).next() == old(self).next(),
            final(self).view() == old(self).view().remove(stream_id),
    {
        self.streams.remove(&stream_id);
    }

    /// Forgets every stream, as when the tunnel's connection ends.
    pub fn clear(&mut self)
        ensures
            final(self).next() == old(self).next(),
            final(self).view() == Map::<u32, T>::empty(),
    {
        self.streams.clear();
    }

    /// The sink of an open stream.
    pub fn sink(&self, stream_id: u32) -> (r: Option<&T>)
        ensures
            r is Some <==> self.view().contains_key(stream_id),
            r matches Some(t) ==> *t == self.view()[stream_id],
    {
        self.streams.get(&stream_id)
    }

    /// The local receiver of stream `stream_id` is gone: the stream is
    /// forgotten, and the peer is to be told with a close.
    pub fn receiver_gone(&mut self, stream_id: u32) -> (f: MuxFrame)
        ensures
            final(self).next() == old(self).next(),
            final(self).view() == old(self).view().remove(stream_id),
            f == (MuxFrame::Close { stream_id }),
    {
        self.close_stream(stream_id);
        MuxFrame::Close { stream_id }
    }

    /// What an incoming frame calls for. Data for an open stream is
    /// delivered, data for an unknown one is answered by closing it; a
    /// close forgets the stream; a ping is answered by a pong. A peer's
    /// open is accepted only where `accepts_open` (the side that connects
    /// the streams locally); elsewhere it, like a pong, is ignored.
    pub fn dispatch(&mut self, frame: MuxFrame, accepts_open: bool) -> (a: MuxAction)
        ensures
            final(self).next() == old(self).next(),
            match frame {
                MuxFrame::Data { stream_id, payload } => final(self).view() == old(self).view() && if old(
                    self,
                ).view().contains_key(stream_id) {
                    a == MuxAction::Deliver { stream_id, payload }
                } else {
                    a == MuxAction::Reply(MuxFrame::Close { stream_id })
                },
                MuxFrame::Close { stream_id } => final(self).view() == old(self).view().remove(stream_id)
                    && a == MuxAction::Ignore,
                MuxFrame::Ping => final(self).view() == old(self).view() && a == MuxAction::Reply(
                    MuxFrame::Pong,
                ),
                MuxFrame::Pong => final(self).view() == old(self).view() && a == MuxAction::Ignore,
                MuxFrame::Open { stream_id } => final(self).view() == old(self).view() && a == if accepts_open {
                    MuxAction::Accept { stream_id }
                } else {
                    MuxAction::Ignore
                },
            },
    {
        match frame {
            MuxFrame::Data { stream_id, payload } => {
                if self.streams.contains_key(&stream_id) {
                    MuxAction::Deliver { stream_id, payload }
                } else {
                    MuxAction::Reply(MuxFrame::Close { stream_id })
                }
            },
            MuxFrame::Close { stream_id } => {
                self.streams.remove(&stream_id);
                MuxAction::Ignore
            },
            MuxFrame::Ping => MuxAction::Reply(MuxFrame::Pong),
            MuxFrame::Pong => MuxAction::Ignore,
            MuxFrame::Open { stream_id } => {
                if accepts_open {
                    MuxAction::Accept { stream_id }
                } else {
                    MuxAction::Ignore
                }
            },
        }
    }
}

/// What the server's UDP tunnel does with an incoming frame.
pub enum UdpAction<T> {
    /// A reply to a waiting request: hand its payload to the waiter.
    Complete { waiter: T, payload: Vec<u8> },
    /// Send this frame back to the peer.
    Reply(UdpMuxFrame),
    /// Nothing to do (a reply nobody waits for any more, a pong, a request).
    Ignore,
}

/// The datagram requests of a UDP tunnel that wait for their reply, by
/// request id, and the id the next request gets.
pub struct UdpPending<T> {
    pending: HashMap<u32, T>,
    next: u32,
}

impl<T> UdpPending<T> {
    pub closed spec fn view(&self) -> Map<u32, T> {
        self.pending@
    }

    pub closed spec fn next(&self) -> u32 {
        self.next
    }

    pub fn new() -> (s: Self)
        ensures
            s.view() == Map::<u32, T>::empty(),
            s.next() == 1,
    {
        UdpPending { pending: HashMap::new(), next: 1 }
    }

    /// Records a request waiting for its reply under the next id.
    pub fn begin(&mut self, waiter: T) -> (id: u32)
        ensures
            id == old(self).next(),
            final(self).next() == next_id(old(self).next()),
            final(self).view() == old(self).view().insert(id, waiter),
    {
        let id = self.next;
        self.next = advance(id);
        self.pending.insert(id, waiter);
        id
    }

    /// Forgets a request whose frame could not be sent.
    pub fn cancel(&mut self, request_id: u32)
        ensures
            final(self).next() == old(self).next(),
            final(self).view() == old(self).view().remove(request_id),
    {
        self.pending.remove(&request_id);
    }

    /// Forgets every request, as when the tunnel's connection ends.
    pub fn clear(&mut self)
        ensures
            final(self).next() == old(self).next(),
            final(self).view() == Map::<u32, T>::empty(),
    {
        self.pending.clear();
    }

    /// What an incoming frame calls for: a reply completes (and forgets)
    /// the request it answers, if it still waits; a ping is answered by a
    /// pong; anything else is ignored.
    pub fn dispatch(&mut self, frame: UdpMuxFrame) -> (a: UdpAction<T>)
        ensures
            final(self).next() == old(self).next(),
            match frame {
                UdpMuxFrame::Resp { request_id, payload } => final(self).view() == old(self).view().remove(
                    request_id,
                ) && if old(self).view().contains_key(request_id) {
                    a == UdpAction::Complete { waiter: old(self).view()[request_id], payload }
                } else {
                    a == UdpAction::<T>::Ignore
                },
                UdpMuxFrame::Ping => final(self).view() == old(self).view() && a == UdpAction::<T>::Reply(
                    UdpMuxFrame::Pong,
                ),
                _ => final(self).view() == old(self).view() && a == UdpAction::<T>::Ignore,
            },
    {
        match frame {
            UdpMuxFrame::Resp { request_id, payload } => match self.pending.remove(&request_id) {
                Some(waiter) => UdpAction::Complete { waiter, payload },
                None => UdpAction::Ignore,
            },
            UdpMuxFrame::Ping => UdpAction::Reply(UdpMuxFrame::Pong),
            _ => UdpAction::Ignore,
        }
    }
}

/// What the client's end of a UDP tunnel does with an incoming frame.
pub enum UdpServeAction {
    /// Forward this datagram to the local service and answer request `request_id`.
    Forward { request_id: u32, payload: Vec<u8> },
    /// Send this frame back.
    Reply(UdpMuxFrame),
    /// Nothing to do.
    Ignore,
}

/// The client's reaction to a frame of a UDP tunnel: requests are served,
/// pings answered, anything else ignored.
pub fn udp_serve_action(frame: UdpMuxFrame) -> (a: UdpServeAction)
    ensures
        match frame {
            UdpMuxFrame::Req { request_id, src_addr: _, payload } => a == UdpServeAction::Forward {
                request_id,
                payload,
            },
            UdpMuxFrame::Ping => a == UdpServeAction::Reply(UdpMuxFrame::Pong),
            _ => a == UdpServeAction::Ignore,
        },
{
    match frame {
        UdpMuxFrame::Req { request_id, src_addr: _, payload } => UdpServeAction::Forward { request_id, payload },
        UdpMuxFrame::Ping => UdpServeAction::Reply(UdpMuxFrame::Pong),
        _ => UdpServeAction::Ignore,
    }
}

} // verus!
