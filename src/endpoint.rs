//! The endpoint model: per-endpoint IN and OUT pipes of packets, the IN URBs
//! that wait for data, and the flags that `poll` reports.

use crate::cmd::UsbIpHeader;
use crate::request::UsbIpCmdSubmit;
use crate::wire::copy_range;
use std::collections::VecDeque;
use vstd::prelude::*;

verus! {

/// The transfer type of an endpoint.
#[derive(Debug, Clone, Copy, PartialEq, Eq, Structural)]
pub enum EndpointType {
    Control,
    Isochronous,
    Bulk,
    Interrupt,
}

/// The direction of an endpoint's pipe, seen from the host.
#[derive(Debug, Clone, Copy, PartialEq, Eq, Structural)]
pub enum UsbDirection {
    Out,
    In,
}

/// One direction of an endpoint: the packets queued in it and its configuration.
#[derive(Debug)]
pub struct Pipe {
    pub data: VecDeque<Vec<u8>>,
    pub ty: EndpointType,
    pub max_packet_size: u16,
    pub interval: u8,
}

/// A pipe as a value: its packets in order, oldest first.
pub struct PipeView {
    pub packets: Seq<Seq<u8>>,
    pub ty: EndpointType,
    pub max_packet_size: u16,
    pub interval: u8,
}

impl PipeView {
    /// Ready to send: it holds a packet and, on a control endpoint, the last
    /// packet is short, which ends the transaction.
    pub open spec fn is_rts(self) -> bool {
        &&& self.packets.len() > 0
        &&& (self.ty != EndpointType::Control || self.packets.last().len()
            < self.max_packet_size)
    }
}

impl View for Pipe {
    type V = PipeView;

    open spec fn view(&self) -> PipeView {
        PipeView {
            packets: self.data@.map_values(|p: Vec<u8>| p@),
            ty: self.ty,
            max_packet_size: self.max_packet_size,
            interval: self.interval,
        }
    }
}

/// What a `transfer_buffer_length` of `room` bytes takes from the packets `p`,
/// oldest first, and the packets that stay: whole packets while they fit, then
/// the head of the packet that does not fit, whose tail stays in front.
pub open spec fn drain(p: Seq<Seq<u8>>, room: nat) -> (Seq<u8>, Seq<Seq<u8>>)
    decreases p.len(),
{
    if p.len() == 0 || room == 0 {
        (Seq::empty(), p)
    } else if p[0].len() <= room {
        let rest = drain(p.drop_first(), (room - p[0].len()) as nat);
        (p[0] + rest.0, rest.1)
    } else {
        (p[0].take(room as int), seq![p[0].skip(room as int)] + p.drop_first())
    }
}

/// The bytes of the packets `p`, in order.
pub open spec fn bytes_of(p: Seq<Seq<u8>>) -> Seq<u8> {
    p.flatten()
}

/// Draining keeps the bytes in order and never takes more than the room given:
/// what is taken, followed by the bytes that stay, are the bytes that were queued.
pub proof fn lemma_drain_keeps_order(p: Seq<Seq<u8>>, room: nat)
    ensures
        drain(p, room).0 + bytes_of(drain(p, room).1) == bytes_of(p),
        drain(p, room).0.len() <= room,
        drain(p, room).0.len() == if bytes_of(p).len() < room {
            bytes_of(p).len()
        } else {
            room
        },
    decreases p.len(),
{
    if p.len() == 0 || room == 0 {
        assert(drain(p, room).0 =~= Seq::<u8>::empty());
        if p.len() == 0 {
            assert(bytes_of(p) =~= Seq::<u8>::empty());
        }
    } else if p[0].len() <= room {
        lemma_drain_keeps_order(p.drop_first(), (room - p[0].len()) as nat);
        assert(p.flatten() == p.first() + p.drop_first().flatten());
        let rest = drain(p.drop_first(), (room - p[0].len()) as nat);
        assert(p[0] + rest.0 + bytes_of(rest.1) =~= p[0] + (rest.0 + bytes_of(rest.1)));
    } else {
        let q = seq![p[0].skip(room as int)] + p.drop_first();
        assert(q.first() == p[0].skip(room as int));
        assert(q.drop_first() =~= p.drop_first());
        assert(q.flatten() == q.first() + q.drop_first().flatten());
        assert(p.flatten() == p.first() + p.drop_first().flatten());
        assert(p[0].take(room as int) + (p[0].skip(room as int) + p.drop_first().flatten())
            =~= p[0] + p.drop_first().flatten());
    }
}

impl Pipe {
    /// A pipe with no packets.
    pub fn new(ty: EndpointType, max_packet_size: u16, interval: u8) -> (r: Pipe)
        ensures
            r@ == (PipeView { packets: Seq::empty(), ty, max_packet_size, interval }),
    {
        let r = Pipe { data: VecDeque::new(), ty, max_packet_size, interval };
        assert(r@.packets =~= Seq::<Seq<u8>>::empty());
        r
    }

    /// Checks, whether the endpoint contains a full transaction
    /// (terminated by a short packet) and is ready to send it.
    pub fn is_rts(&self) -> (r: bool)
        ensures
            r == self@.is_rts(),
    {
        let n = self.data.len();
        if n == 0 {
            false
        } else if self.ty != EndpointType::Control {
            true
        } else {
            self.data[n - 1].len() < self.max_packet_size as usize
        }
    }

    /// Appends a packet.
    pub fn push(&mut self, packet: Vec<u8>)
        ensures
            final(self)@ == (PipeView { packets: old(self)@.packets.push(packet@), ..old(self)@ }),
    {
        self.data.push_back(packet);
        assert(self@.packets =~= old(self)@.packets.push(packet@));
    }

    /// Removes the oldest packet.
    pub fn pop(&mut self) -> (r: Option<Vec<u8>>)
        ensures
            old(self)@.packets.len() == 0 ==> r is None && final(self)@ == old(self)@,
            old(self)@.packets.len() > 0 ==> r is Some && r->0@ == old(self)@.packets[0]
                && final(self)@ == (PipeView {
                packets: old(self)@.packets.drop_first(),
                ..old(self)@
            }),
    {
        let r = self.data.pop_front();
        proof {
            if old(self)@.packets.len() > 0 {
                assert(self@.packets =~= old(self)@.packets.drop_first());
            }
        }
        r
    }

    /// Removes every packet.
    pub fn clear(&mut self)
        ensures
            final(self)@ == (PipeView { packets: Seq::empty(), ..old(self)@ }),
    {
        self.data.clear();
        assert(self@.packets =~= Seq::<Seq<u8>>::empty());
    }

    /// Takes up to `limit` bytes from the front of the pipe, as `drain` says.
    pub fn take_bytes(&mut self, limit: usize) -> (out: Vec<u8>)
        ensures
            out@ == drain(old(self)@.packets, limit as nat).0,
            final(self)@ == (PipeView {
                packets: drain(old(self)@.packets, limit as nat).1,
                ..old(self)@
            }),
    {
        let ghost start = self@;
        let mut out: Vec<u8> = Vec::new();
        while out.len() < limit && self.data.len() > 0
            invariant
                out@.len() <= limit,
                self@ == (PipeView { packets: self@.packets, ..start }),
                out@ + drain(self@.packets, (limit - out@.len()) as nat).0 == drain(
                    start.packets,
                    limit as nat,
                ).0,
                drain(self@.packets, (limit - out@.len()) as nat).1 == drain(
                    start.packets,
                    limit as nat,
                ).1,
            decreases self@.packets.len(), limit - out@.len(),
        {
            let ghost before = self@.packets;
            let ghost room = (limit - out@.len()) as nat;
            let packet = self.data.pop_front().unwrap();
            assert(packet@ == before[0]);
            assert(self@.packets =~= before.drop_first());
            let remaining = limit - out.len();
            if packet.len() <= remaining {
                let ghost old_out = out@;
                crate::wire::append_bytes(&mut out, packet.as_slice());
                assert(old_out + (before[0] + drain(before.drop_first(), (room - before[0].len()) as nat).0)
                    =~= out@ + drain(before.drop_first(), (room - before[0].len()) as nat).0);
                assert((limit - out@.len()) as nat == (room - before[0].len()) as nat);
            } else {
                let head = copy_range(packet.as_slice(), 0, remaining);
                let tail = copy_range(packet.as_slice(), remaining, packet.len());
                crate::wire::append_bytes(&mut out, head.as_slice());
                self.data.push_front(tail);
                assert(head@ =~= before[0].take(room as int));
                assert(tail@ =~= before[0].skip(room as int));
                assert(self@.packets =~= seq![before[0].skip(room as int)] + before.drop_first());
                assert(drain(self@.packets, 0).0 =~= Seq::<u8>::empty());
                assert(out@ + drain(self@.packets, 0).0 =~= out@);
            }
        }
        proof {
            let room = (limit - out@.len()) as nat;
            assert(drain(self@.packets, room).0 =~= Seq::<u8>::empty());
            assert(out@ + drain(self@.packets, room).0 =~= out@);
        }
        out
    }
}

/// An IN URB that waits for data.
#[derive(Debug, Clone, Copy)]
pub struct PendingIn {
    pub header: UsbIpHeader,
    pub cmd: UsbIpCmdSubmit,
}

/// The packets that an OUT payload is cut into: pieces of `mps` bytes, the last
/// one possibly shorter. A pipe without a packet size takes the payload whole.
pub open spec fn chunks(data: Seq<u8>, mps: nat) -> Seq<Seq<u8>>
    decreases data.len(),
{
    if data.len() == 0 {
        Seq::empty()
    } else if mps == 0 || data.len() <= mps {
        seq![data]
    } else {
        seq![data.take(mps as int)] + chunks(data.skip(mps as int), mps)
    }
}

/// The index of the first URB at or after `i` in `q` with sequence number `s`,
/// or -1.
pub open spec fn find_seqnum(q: Seq<PendingIn>, s: u32, i: int) -> int
    decreases q.len() - i,
{
    if i < 0 || i >= q.len() {
        -1
    } else if q[i].header.seqnum == s {
        i
    } else {
        find_seqnum(q, s, i + 1)
    }
}

/// `find_seqnum` finds a URB exactly when one carries the sequence number, and
/// then the first one.
pub proof fn lemma_find_seqnum(q: Seq<PendingIn>, s: u32, i: int)
    requires
        0 <= i <= q.len(),
    ensures
        find_seqnum(q, s, i) == -1 <==> forall|j: int| i <= j < q.len() ==> q[j].header.seqnum != s,
        find_seqnum(q, s, i) != -1 ==> i <= find_seqnum(q, s, i) < q.len() && q[find_seqnum(q, s, i)].header.seqnum == s
            && forall|j: int| i <= j < find_seqnum(q, s, i) ==> q[j].header.seqnum != s,
    decreases q.len() - i,
{
    if i < q.len() {
        lemma_find_seqnum(q, s, i + 1);
    }
}

/// An endpoint: its two optional pipes, the IN URBs that wait for data, and flags.
#[derive(Debug)]
pub struct Endpoint {
    pub pipe_in: Option<Pipe>,
    pub pipe_out: Option<Pipe>,
    pub pending_ins: VecDeque<PendingIn>,
    pub stalled: bool,
    pub setup_flag: bool,
    pub in_complete_flag: bool,
}

/// An endpoint as a value.
pub struct EndpointView {
    pub pipe_in: Option<PipeView>,
    pub pipe_out: Option<PipeView>,
    pub pending: Seq<PendingIn>,
    pub stalled: bool,
    pub setup_flag: bool,
    pub in_complete_flag: bool,
}

/// The view of an optional pipe.
pub open spec fn pipe_view(p: Option<Pipe>) -> Option<PipeView> {
    match p {
        Some(x) => Some(x@),
        None => None,
    }
}

/// An optional pipe with its packets dropped.
pub open spec fn emptied(p: Option<PipeView>) -> Option<PipeView> {
    match p {
        Some(x) => Some(PipeView { packets: Seq::empty(), ..x }),
        None => None,
    }
}

impl View for Endpoint {
    type V = EndpointView;

    open spec fn view(&self) -> EndpointView {
        EndpointView {
            pipe_in: pipe_view(self.pipe_in),
            pipe_out: pipe_view(self.pipe_out),
            pending: self.pending_ins@,
            stalled: self.stalled,
            setup_flag: self.setup_flag,
            in_complete_flag: self.in_complete_flag,
        }
    }
}

impl EndpointView {
    /// An endpoint before allocation: no pipes, stalled.
    pub open spec fn initial() -> EndpointView {
        EndpointView {
            pipe_in: None,
            pipe_out: None,
            pending: Seq::empty(),
            stalled: true,
            setup_flag: false,
            in_complete_flag: false,
        }
    }

    /// The IN pipe exists and is ready to send.
    pub open spec fn is_rts(self) -> bool {
        self.pipe_in is Some && self.pipe_in->0.is_rts()
    }

    /// The pipe of direction `dir`.
    pub open spec fn pipe(self, dir: UsbDirection) -> Option<PipeView> {
        match dir {
            UsbDirection::In => self.pipe_in,
            UsbDirection::Out => self.pipe_out,
        }
    }

    /// The endpoint with `p` as its pipe of direction `dir`.
    pub open spec fn with_pipe(self, dir: UsbDirection, p: PipeView) -> EndpointView {
        match dir {
            UsbDirection::In => EndpointView { pipe_in: Some(p), ..self },
            UsbDirection::Out => EndpointView { pipe_out: Some(p), ..self },
        }
    }

    /// The endpoint with both one-shot flags cleared, as a poll leaves it.
    pub open spec fn flags_cleared(self) -> EndpointView {
        EndpointView { in_complete_flag: false, setup_flag: false, ..self }
    }

    /// The packets queued in the OUT pipe, none if there is no OUT pipe.
    pub open spec fn out_packets(self) -> Seq<Seq<u8>> {
        match self.pipe_out {
            Some(p) => p.packets,
            None => Seq::empty(),
        }
    }

    /// The endpoint with `packet` appended to its OUT pipe.
    pub open spec fn push_out(self, packet: Seq<u8>) -> EndpointView {
        EndpointView {
            pipe_out: Some(
                PipeView { packets: self.pipe_out->0.packets.push(packet), ..self.pipe_out->0 },
            ),
            ..self
        }
    }

    /// The endpoint with the packets `p` appended to its OUT pipe.
    pub open spec fn append_out(self, p: Seq<Seq<u8>>) -> EndpointView {
        EndpointView {
            pipe_out: Some(
                PipeView { packets: self.pipe_out->0.packets + p, ..self.pipe_out->0 },
            ),
            ..self
        }
    }

    /// The endpoint with its packets, waiting URBs and flags dropped and
    /// stalled; the pipes keep their configuration.
    pub open spec fn cleared(self) -> EndpointView {
        EndpointView {
            pipe_in: emptied(self.pipe_in),
            pipe_out: emptied(self.pipe_out),
            pending: Seq::empty(),
            stalled: true,
            setup_flag: false,
            in_complete_flag: false,
        }
    }

    /// The endpoint without its first waiting URB with sequence number `s`, and
    /// whether there was one.
    pub open spec fn unlink(self, s: u32) -> (EndpointView, bool) {
        let k = find_seqnum(self.pending, s, 0);
        if k < 0 {
            (self, false)
        } else {
            (EndpointView { pending: self.pending.remove(k), ..self }, true)
        }
    }
}

impl Endpoint {
    pub fn new() -> (r: Endpoint)
        ensures
            r@ == EndpointView::initial(),
    {
        let r = Endpoint {
            pipe_in: None,
            pipe_out: None,
            pending_ins: VecDeque::new(),
            stalled: true,
            setup_flag: false,
            in_complete_flag: false,
        };
        assert(r@.pending =~= Seq::<PendingIn>::empty());
        r
    }

    /// Checks, whether the input pipe is ready to send data back to the host.
    pub fn is_rts(&self) -> (r: bool)
        ensures
            r == self@.is_rts(),
    {
        match self.pipe_in {
            None => false,
            Some(ref pipe) => pipe.is_rts(),
        }
    }

    /// Installs `pipe` as the pipe of direction `dir`.
    pub fn set_pipe(&mut self, dir: UsbDirection, pipe: Pipe)
        ensures
            final(self)@ == old(self)@.with_pipe(dir, pipe@),
    {
        match dir {
            UsbDirection::In => self.pipe_in = Some(pipe),
            UsbDirection::Out => self.pipe_out = Some(pipe),
        }
    }

    /// Whether the pipe of direction `dir` exists.
    pub fn has_pipe(&self, dir: UsbDirection) -> (r: bool)
        ensures
            r == self@.pipe(dir) is Some,
    {
        match dir {
            UsbDirection::In => self.pipe_in.is_some(),
            UsbDirection::Out => self.pipe_out.is_some(),
        }
    }

    /// Appends a packet to the OUT pipe.
    pub fn push_out(&mut self, packet: Vec<u8>)
        requires
            old(self).pipe_out is Some,
        ensures
            final(self)@ == old(self)@.push_out(packet@),
    {
        match self.pipe_out {
            Some(ref mut p) => p.push(packet),
            None => {},
        }
    }

    /// Takes up to `limit` bytes from the front of the IN pipe, as `drain` says.
    pub fn take_in_bytes(&mut self, limit: usize) -> (out: Vec<u8>)
        requires
            old(self).pipe_in is Some,
        ensures
            out@ == drain(old(self)@.pipe_in->0.packets, limit as nat).0,
            final(self)@ == (EndpointView {
                pipe_in: Some(
                    PipeView {
                        packets: drain(old(self)@.pipe_in->0.packets, limit as nat).1,
                        ..old(self)@.pipe_in->0
                    },
                ),
                ..old(self)@
            }),
    {
        match self.pipe_in {
            Some(ref mut p) => p.take_bytes(limit),
            None => Vec::new(),
        }
    }

    /// Appends a packet to the IN pipe.
    pub fn push_in(&mut self, packet: Vec<u8>)
        requires
            old(self).pipe_in is Some,
        ensures
            final(self)@ == (EndpointView {
                pipe_in: Some(
                    PipeView {
                        packets: old(self)@.pipe_in->0.packets.push(packet@),
                        ..old(self)@.pipe_in->0
                    },
                ),
                ..old(self)@
            }),
    {
        match self.pipe_in {
            Some(ref mut p) => p.push(packet),
            None => {},
        }
    }

    /// Removes the oldest packet of the OUT pipe.
    pub fn pop_out(&mut self) -> (r: Option<Vec<u8>>)
        requires
            old(self).pipe_out is Some,
        ensures
            old(self)@.pipe_out->0.packets.len() == 0 ==> r is None && final(self)@ == old(self)@,
            old(self)@.pipe_out->0.packets.len() > 0 ==> r is Some && r->0@ == old(
                self,
            )@.pipe_out->0.packets[0] && final(self)@ == (EndpointView {
                pipe_out: Some(
                    PipeView {
                        packets: old(self)@.pipe_out->0.packets.drop_first(),
                        ..old(self)@.pipe_out->0
                    },
                ),
                ..old(self)@
            }),
    {
        match self.pipe_out {
            Some(ref mut p) => p.pop(),
            None => None,
        }
    }

    /// Cuts `data` into packets and appends them to the OUT pipe.
    pub fn push_out_chunks(&mut self, data: &[u8])
        requires
            old(self).pipe_out is Some,
        ensures
            final(self)@ == old(self)@.append_out(
                chunks(data@, old(self)@.pipe_out->0.max_packet_size as nat),
            ),
    {
        let mps: usize = match self.pipe_out {
            Some(ref p) => p.max_packet_size as usize,
            None => 0,
        };
        let ghost m = mps as nat;
        let ghost start = self@;
        let mut i: usize = 0;
        assert(data@.skip(0) =~= data@);
        assert(start.append_out(Seq::empty()) =~~= start);
        while i < data.len()
            invariant
                i <= data@.len(),
                self.pipe_out is Some,
                mps as nat == m,
                m == start.pipe_out->0.max_packet_size,
                self@.append_out(chunks(data@.skip(i as int), m)) == start.append_out(
                    chunks(data@, m),
                ),
            decreases data@.len() - i,
        {
            let end: usize = if mps == 0 || data.len() - i <= mps {
                data.len()
            } else {
                i + mps
            };
            let piece = copy_range(data, i, end);
            let ghost rest = data@.skip(i as int);
            proof {
                if !(m == 0 || rest.len() <= m) {
                    assert(rest.take(m as int) =~= data@.subrange(i as int, end as int));
                    assert(rest.skip(m as int) =~= data@.skip(end as int));
                } else {
                    assert(rest =~= data@.subrange(i as int, end as int));
                    assert(data@.skip(end as int) =~= Seq::<u8>::empty());
                }
            }
            let ghost before = self@;
            self.push_out(piece);
            proof {
                let tail = chunks(data@.skip(end as int), m);
                assert(chunks(rest, m) =~= seq![piece@] + tail);
                assert(before.pipe_out->0.packets + (seq![piece@] + tail)
                    =~= before.pipe_out->0.packets.push(piece@) + tail);
                assert(self@.append_out(tail) =~~= before.append_out(chunks(rest, m)));
            }
            i = end;
        }
        assert(data@.skip(i as int) =~= Seq::<u8>::empty());
        assert(self@.append_out(Seq::empty()) =~~= self@);
    }

    /// Processes an unlink and removes the first waiting URB with sequence
    /// number `seqnum` from this endpoint.
    ///
    /// # Returns
    /// - `true` if pending urb was removed
    /// - `false` if it was not found
    pub fn unlink(&mut self, seqnum: u32) -> (r: bool)
        ensures
            (final(self)@, r) == old(self)@.unlink(seqnum),
    {
        let mut i: usize = 0;
        while i < self.pending_ins.len()
            invariant
                self@ == old(self)@,
                i <= self@.pending.len(),
                find_seqnum(self@.pending, seqnum, 0) == find_seqnum(self@.pending, seqnum, i as int),
            decreases self@.pending.len() - i,
        {
            if self.pending_ins[i].header.seqnum == seqnum {
                self.pending_ins.remove(i);
                assert(self@.pending =~= old(self)@.pending.remove(i as int));
                return true;
            }
            i = i + 1;
        }
        false
    }

    /// Drops the packets, waiting URBs and flags, and stalls the endpoint.
    pub fn clear(&mut self)
        ensures
            final(self)@ == old(self)@.cleared(),
    {
        match self.pipe_in {
            Some(ref mut p) => p.clear(),
            None => {},
        }
        match self.pipe_out {
            Some(ref mut p) => p.clear(),
            None => {},
        }
        self.pending_ins.clear();
        self.stalled = true;
        self.setup_flag = false;
        self.in_complete_flag = false;
        assert(self@.pending =~= Seq::<PendingIn>::empty());
    }
}

} // verus!
