//! The bus state machine: it applies host frames and device calls to the
//! endpoint table and queues the replies for the host.
//!
//! The bus is in reset until the host imports the device, and back in reset
//! when the host goes away. The device side sees the bus through the calls that
//! a USB device stack makes of its hardware: allocate endpoints, read, write,
//! stall, poll.

use crate::cmd::{Direction, UsbCmd, UsbIpHeader, ZERO_PACKET};
use crate::endpoint::{
    bytes_of, chunks, drain, lemma_find_seqnum, lemma_drain_keeps_order, Endpoint, EndpointType, EndpointView, PendingIn, Pipe,
    PipeView, UsbDirection,
};
use crate::op::{
    OpDeviceDescriptor, OpHeader, OpInterfaceDescriptor, OpRequest, OpResponse, OpResponseCommand,
};
use crate::request::{UsbIpCmdSubmit, UsbIpCmdUnlink, UsbIpRequest, UsbIpRequestCmd};
use crate::response::{ReplyView, UsbIpResponse, UsbIpResponseCmd, UsbIpRetSubmit, UsbIpRetUnlink};
use crate::wire::copy_range;
use crate::NUM_ENDPOINTS;
use vstd::arithmetic::power2::{lemma2_to64, lemma_pow2_strictly_increases, lemma_pow2_unfold, pow2};
use vstd::prelude::*;

verus! {

/// The bus number of the exported device.
pub const BUSNUM: u32 = 1;

/// The device number of the exported device.
pub const DEVNUM: u32 = 2;

/// The device id in URB replies: `(BUSNUM << 16) | DEVNUM`.
pub const DEVID: u32 = 0x0001_0002;

/// The vendor id reported until one is set.
pub const DEFAULT_VENDOR: u16 = 0x1111;

/// The product id reported until one is set.
pub const DEFAULT_PRODUCT: u16 = 0x1010;

/// The speed reported until one is set.
pub const DEFAULT_SPEED: u32 = 3;

/// The errors that the device side sees.
#[derive(Debug, Clone, Copy, PartialEq, Eq, Structural)]
pub enum UsbError {
    WouldBlock,
    BufferOverflow,
    EndpointMemoryOverflow,
    InvalidEndpoint,
}

/// What a poll reports to the device side.
#[derive(Debug, Clone, Copy, PartialEq, Eq, Structural)]
pub enum PollResult {
    /// The bus waits for the host to import the device.
    Reset,
    /// The device is suspended.
    Suspend,
    /// Bit `i` of a mask stands for endpoint `i`.
    Data { ep_out: u16, ep_in_complete: u16, ep_setup: u16 },
}

/// What the network side should do next for the bus.
#[derive(Debug, Clone, Copy, PartialEq, Eq, Structural)]
pub enum NetworkStep {
    /// No peer: accept one.
    Accept,
    /// In reset: read an OP request.
    ReadOp,
    /// Attached: read a URB request.
    ReadUrb,
}

/// The bus's state and the replies it queued for the host.
#[derive(Debug)]
pub struct UsbIpBus {
    pub endpoint: Vec<Endpoint>,
    pub device_address: u8,
    pub reset: bool,
    pub suspended: bool,
    pub connected: bool,
    pub vendor: u16,
    pub product: u16,
    pub speed: u32,
    pub device_class: u8,
    pub outbox: Vec<UsbIpResponse>,
}

/// The bus as a value.
pub struct BusView {
    pub endpoints: Seq<EndpointView>,
    pub device_address: u8,
    pub reset: bool,
    pub suspended: bool,
    pub connected: bool,
    pub vendor: u16,
    pub product: u16,
    pub speed: u32,
    pub device_class: u8,
    pub outbox: Seq<ReplyView>,
}

impl View for UsbIpBus {
    type V = BusView;

    open spec fn view(&self) -> BusView {
        BusView {
            endpoints: self.endpoint@.map_values(|e: Endpoint| e@),
            device_address: self.device_address,
            reset: self.reset,
            suspended: self.suspended,
            connected: self.connected,
            vendor: self.vendor,
            product: self.product,
            speed: self.speed,
            device_class: self.device_class,
            outbox: self.outbox@.map_values(|r: UsbIpResponse| r@),
        }
    }
}

/// A RET_SUBMIT with status 0 that returns `data`.
pub open spec fn ret_submit(ep: u32, seqnum: u32, direction: Direction, data: Seq<u8>) -> ReplyView {
    ReplyView {
        header: UsbIpHeader { command: UsbCmd::Response, seqnum, devid: DEVID, direction, ep },
        cmd: UsbIpResponseCmd::Cmd(
            UsbIpRetSubmit {
                status: 0,
                actual_length: data.len() as i32,
                start_frame: 0,
                number_of_packets: 0,
                error_count: 0,
            },
        ),
        data,
    }
}

/// A RET_UNLINK with status 0.
pub open spec fn ret_unlink(ep: u32, seqnum: u32) -> ReplyView {
    ReplyView {
        header: UsbIpHeader {
            command: UsbCmd::UnlinkResponse,
            seqnum,
            devid: DEVID,
            direction: Direction::OUT,
            ep,
        },
        cmd: UsbIpResponseCmd::Unlink(UsbIpRetUnlink { status: 0 }),
        data: Seq::empty(),
    }
}

/// How many bytes an IN URB asks for; none when its length is not positive.
pub open spec fn transfer_room(c: UsbIpCmdSubmit) -> nat {
    if c.transfer_buffer_length > 0 {
        c.transfer_buffer_length as nat
    } else {
        0
    }
}

/// The endpoints after unlinking the first waiting URB with sequence number `s`
/// on the first endpoint from `i` on that holds one, and whether one was found.
pub open spec fn unlink_from(eps: Seq<EndpointView>, s: u32, i: int) -> (Seq<EndpointView>, bool)
    decreases eps.len() - i,
{
    if i < 0 || i >= eps.len() {
        (eps, false)
    } else if eps[i].unlink(s).1 {
        (eps.update(i, eps[i].unlink(s).0), true)
    } else {
        unlink_from(eps, s, i + 1)
    }
}

/// The first endpoint from `i` on whose pipe of direction `dir` is free, or -1.
pub open spec fn first_free(eps: Seq<EndpointView>, dir: UsbDirection, i: int) -> int
    decreases eps.len() - i,
{
    if i < 0 || i >= eps.len() {
        -1
    } else if eps[i].pipe(dir) is None {
        i
    } else {
        first_free(eps, dir, i + 1)
    }
}

/// `first_free` finds a free pipe exactly when there is one, and then the first.
pub proof fn lemma_first_free(eps: Seq<EndpointView>, dir: UsbDirection, i: int)
    requires
        0 <= i <= eps.len(),
    ensures
        first_free(eps, dir, i) == -1 <==> forall|j: int| i <= j < eps.len() ==> eps[j].pipe(dir) is Some,
        first_free(eps, dir, i) != -1 ==> i <= first_free(eps, dir, i) < eps.len()
            && eps[first_free(eps, dir, i)].pipe(dir) is None,
    decreases eps.len() - i,
{
    if i < eps.len() {
        lemma_first_free(eps, dir, i + 1);
    }
}

/// The endpoint table of a new or reset bus.
pub open spec fn initial_endpoints() -> Seq<EndpointView> {
    Seq::new(NUM_ENDPOINTS as nat, |i: int| EndpointView::initial())
}

/// The number whose bit `i` is `bits[i]`.
pub open spec fn mask_of(bits: Seq<bool>) -> nat
    decreases bits.len(),
{
    if bits.len() == 0 {
        0
    } else {
        (if bits[0] {
            1nat
        } else {
            0nat
        }) + 2 * mask_of(bits.drop_first())
    }
}

/// A mask of `n` bits is below `2^n`.
pub proof fn lemma_mask_bound(bits: Seq<bool>)
    ensures
        mask_of(bits) < pow2(bits.len()),
    decreases bits.len(),
{
    if bits.len() > 0 {
        lemma_mask_bound(bits.drop_first());
        lemma_pow2_unfold(bits.len());
    } else {
        lemma2_to64();
    }
}

/// A mask of bits that are all clear is zero.
pub proof fn lemma_mask_zero(bits: Seq<bool>)
    requires
        forall|i: int| 0 <= i < bits.len() ==> !bits[i],
    ensures
        mask_of(bits) == 0,
    decreases bits.len(),
{
    if bits.len() > 0 {
        lemma_mask_zero(bits.drop_first());
    }
}

/// Which endpoints hold OUT data.
pub open spec fn out_bits(eps: Seq<EndpointView>) -> Seq<bool> {
    eps.map_values(|e: EndpointView| e.out_packets().len() > 0)
}

/// Which endpoints have their IN-complete flag set.
pub open spec fn in_complete_bits(eps: Seq<EndpointView>) -> Seq<bool> {
    eps.map_values(|e: EndpointView| e.in_complete_flag)
}

/// Which endpoints have their setup flag set.
pub open spec fn setup_bits(eps: Seq<EndpointView>) -> Seq<bool> {
    eps.map_values(|e: EndpointView| e.setup_flag)
}

/// `pkt` copied into the front of `buf`, as far as it fits.
pub open spec fn copied(buf: Seq<u8>, pkt: Seq<u8>) -> Seq<u8> {
    if pkt.len() < buf.len() {
        pkt + buf.skip(pkt.len() as int)
    } else {
        pkt.take(buf.len() as int)
    }
}

/// The path of the exported device.
pub open spec fn device_path() -> Seq<char> {
    "/sys/devices/pci0000:00/0000:00:01.2/usb1/1-1"@
}

/// The bus id of the exported device.
pub open spec fn device_bus_id() -> Seq<char> {
    "1-1"@
}

impl BusView {
    /// The endpoint table has its fixed size.
    pub open spec fn wf(self) -> bool {
        self.endpoints.len() == NUM_ENDPOINTS
    }

    /// The bus with endpoint `i` replaced.
    pub open spec fn with_endpoint(self, i: int, e: EndpointView) -> BusView {
        BusView { endpoints: self.endpoints.update(i, e), ..self }
    }

    /// The bus with `r` queued for the host.
    pub open spec fn reply(self, r: ReplyView) -> BusView {
        BusView { outbox: self.outbox.push(r), ..self }
    }

    /// Answers the oldest IN URB of endpoint `ep` when its IN pipe is ready to
    /// send: the URB leaves the queue, and its reply carries what `drain` takes
    /// from the pipe.
    pub open spec fn send_pending(self, ep: int) -> BusView {
        if !(0 <= ep < self.endpoints.len()) {
            self
        } else {
            let e = self.endpoints[ep];
            if !e.is_rts() || e.pending.len() == 0 {
                self
            } else {
                let p = e.pending[0];
                let d = drain(e.pipe_in->0.packets, transfer_room(p.cmd));
                self.with_endpoint(
                    ep,
                    EndpointView {
                        pipe_in: Some(PipeView { packets: d.1, ..e.pipe_in->0 }),
                        pending: e.pending.drop_first(),
                        in_complete_flag: true,
                        ..e
                    },
                ).reply(ret_submit(ep as u32, p.header.seqnum, Direction::IN, d.0))
            }
        }
    }

    /// Applies a CMD_SUBMIT. Setup bytes go to the OUT pipe and raise the setup
    /// flag. An OUT payload is cut into packets of the pipe's size, followed by
    /// an empty packet when the URB asks for one on a bulk pipe, and is
    /// acknowledged at once. An IN URB waits for data. A URB for an endpoint or
    /// pipe that does not exist is dropped.
    pub open spec fn handle_cmd(self, h: UsbIpHeader, c: UsbIpCmdSubmit, data: Seq<u8>) -> BusView {
        if h.ep >= NUM_ENDPOINTS {
            self
        } else {
            let i = h.ep as int;
            let e = self.endpoints[i];
            if (c.spec_has_setup() || h.direction == Direction::OUT) && e.pipe_out is None {
                self
            } else {
                let e1 = if c.spec_has_setup() {
                    EndpointView { setup_flag: true, ..e.push_out(c.setup@) }
                } else {
                    e
                };
                match h.direction {
                    Direction::OUT => {
                        let p = e1.pipe_out->0;
                        let zlp = if c.transfer_flags.bits & ZERO_PACKET == ZERO_PACKET && p.ty
                            == EndpointType::Bulk {
                            seq![Seq::<u8>::empty()]
                        } else {
                            Seq::empty()
                        };
                        self.with_endpoint(
                            i,
                            e1.append_out(chunks(data, p.max_packet_size as nat) + zlp),
                        ).reply(ret_submit(h.ep, h.seqnum, Direction::OUT, Seq::empty()))
                    },
                    Direction::IN => self.with_endpoint(
                        i,
                        EndpointView { pending: e1.pending.push(PendingIn { header: h, cmd: c }), ..e1 },
                    ).send_pending(i),
                }
            }
        }
    }

    /// Applies a CMD_UNLINK: the URB it names, if one waits, is dropped, and
    /// the unlink is acknowledged with status 0 either way.
    pub open spec fn handle_unlink(self, h: UsbIpHeader, u: UsbIpCmdUnlink) -> BusView {
        BusView { endpoints: unlink_from(self.endpoints, u.seqnum, 0).0, ..self }.reply(
            ret_unlink(h.ep, h.seqnum),
        )
    }

    /// Applies a URB request.
    pub open spec fn handle_request(self, h: UsbIpHeader, cmd: UsbIpRequestCmd, data: Seq<u8>) -> BusView {
        match cmd {
            UsbIpRequestCmd::Cmd(c) => self.handle_cmd(h, c, data),
            UsbIpRequestCmd::Unlink(u) => self.handle_unlink(h, u),
        }
    }

    /// A new bus: in reset, with no peer and no endpoint allocated.
    pub open spec fn initial() -> BusView {
        BusView {
            endpoints: initial_endpoints(),
            device_address: 0,
            reset: true,
            suspended: false,
            connected: false,
            vendor: DEFAULT_VENDOR,
            product: DEFAULT_PRODUCT,
            speed: DEFAULT_SPEED,
            device_class: 0,
            outbox: Seq::empty(),
        }
    }

    /// The device descriptor that OP replies carry.
    pub open spec fn device_descriptor(self) -> OpDeviceDescriptor {
        OpDeviceDescriptor {
            busnum: BUSNUM,
            devnum: DEVNUM,
            speed: self.speed,
            vendor: self.vendor,
            product: self.product,
            bcd_device: 0,
            device_class: self.device_class,
            device_subclass: 0,
            device_protocol: 0,
            configuration_value: 0,
            num_configurations: 1,
            num_interfaces: 1,
        }
    }

    /// Allocates the pipe of direction `dir` on endpoint `i`, unless it exists.
    pub open spec fn alloc_at(
        self,
        i: int,
        dir: UsbDirection,
        ty: EndpointType,
        mps: u16,
        interval: u8,
    ) -> (BusView, Result<usize, UsbError>) {
        if self.endpoints[i].pipe(dir) is Some {
            (self, Err(UsbError::InvalidEndpoint))
        } else {
            (
                self.with_endpoint(
                    i,
                    self.endpoints[i].with_pipe(
                        dir,
                        PipeView { packets: Seq::empty(), ty, max_packet_size: mps, interval },
                    ),
                ),
                Ok(i as usize),
            )
        }
    }

    /// Allocates a pipe: on the endpoint asked for, which must exist, or on the
    /// first endpoint from 1 on whose pipe of that direction is free.
    pub open spec fn alloc_ep(
        self,
        dir: UsbDirection,
        addr: Option<usize>,
        ty: EndpointType,
        mps: u16,
        interval: u8,
    ) -> (BusView, Result<usize, UsbError>) {
        match addr {
            Some(a) => if a >= NUM_ENDPOINTS {
                (self, Err(UsbError::InvalidEndpoint))
            } else {
                self.alloc_at(a as int, dir, ty, mps, interval)
            },
            None => {
                let f = first_free(self.endpoints, dir, 1);
                if f < 0 {
                    (self, Err(UsbError::EndpointMemoryOverflow))
                } else {
                    self.alloc_at(f, dir, ty, mps, interval)
                }
            },
        }
    }

    /// A device-side reset: when attached, the endpoint table starts afresh and
    /// the bus waits for a new import; otherwise nothing changes.
    pub open spec fn reset_device(self) -> BusView {
        if self.reset {
            self
        } else {
            BusView { endpoints: initial_endpoints(), reset: true, suspended: false, ..self }
        }
    }

    /// The peer went away: the replies for it are dropped and, when attached,
    /// the bus goes back to reset with its endpoints cleared and stalled.
    pub open spec fn disconnect(self) -> BusView {
        if self.reset {
            BusView { connected: false, outbox: Seq::empty(), ..self }
        } else {
            BusView {
                endpoints: self.endpoints.map_values(|e: EndpointView| e.cleared()),
                reset: true,
                connected: false,
                outbox: Seq::empty(),
                ..self
            }
        }
    }

    /// Applies an OP request: an import attaches the device.
    pub open spec fn handle_op(self, op: OpRequest) -> BusView {
        match op {
            OpRequest::ListDevices(_) => self,
            OpRequest::ConnectDevice(_) => BusView { reset: false, ..self },
        }
    }

    /// A write of `buf` by the device to endpoint `ep`. It needs a peer and an
    /// IN pipe that is not already ready to send. On endpoint 0 the write
    /// raises the IN-complete flag, and clears it when it would block. A write
    /// that makes the pipe ready answers the oldest waiting IN URB.
    pub open spec fn write(self, ep: int, buf: Seq<u8>) -> (BusView, Result<usize, UsbError>) {
        if !self.connected {
            (self, Err(UsbError::WouldBlock))
        } else if !(0 <= ep < NUM_ENDPOINTS) {
            (self, Err(UsbError::InvalidEndpoint))
        } else {
            let e = self.endpoints[ep];
            if e.pipe_in is None {
                (self, Err(UsbError::InvalidEndpoint))
            } else if e.pipe_in->0.is_rts() {
                (
                    self.with_endpoint(
                        ep,
                        EndpointView {
                            in_complete_flag: if ep == 0 {
                                false
                            } else {
                                e.in_complete_flag
                            },
                            ..e
                        },
                    ),
                    Err(UsbError::WouldBlock),
                )
            } else {
                let p = e.pipe_in->0;
                let e2 = EndpointView {
                    pipe_in: Some(PipeView { packets: p.packets.push(buf), ..p }),
                    in_complete_flag: ep == 0 || e.in_complete_flag,
                    ..e
                };
                (self.with_endpoint(ep, e2).send_pending(ep), Ok(buf.len() as usize))
            }
        }
    }

    /// A read by the device from endpoint `ep`: the oldest OUT packet leaves
    /// the pipe and its length is returned.
    pub open spec fn read(self, ep: int) -> (BusView, Result<usize, UsbError>) {
        if !(0 <= ep < NUM_ENDPOINTS) {
            (self, Err(UsbError::InvalidEndpoint))
        } else {
            let e = self.endpoints[ep];
            if e.pipe_out is None {
                (self, Err(UsbError::InvalidEndpoint))
            } else if e.pipe_out->0.packets.len() == 0 {
                (self, Err(UsbError::WouldBlock))
            } else {
                let p = e.pipe_out->0;
                (
                    self.with_endpoint(
                        ep,
                        EndpointView {
                            pipe_out: Some(PipeView { packets: p.packets.drop_first(), ..p }),
                            ..e
                        },
                    ),
                    Ok(p.packets[0].len() as usize),
                )
            }
        }
    }

    /// A poll by the device. In reset or suspended it reports that. Otherwise
    /// it reports which endpoints hold OUT data and which had their IN-complete
    /// and setup flags set, and clears those flags.
    pub open spec fn poll(self) -> (BusView, PollResult) {
        if self.reset {
            (self, PollResult::Reset)
        } else if self.suspended {
            (self, PollResult::Suspend)
        } else {
            (
                BusView {
                    endpoints: self.endpoints.map_values(|e: EndpointView| e.flags_cleared()),
                    ..self
                },
                PollResult::Data {
                    ep_out: mask_of(out_bits(self.endpoints)) as u16,
                    ep_in_complete: mask_of(in_complete_bits(self.endpoints)) as u16,
                    ep_setup: mask_of(setup_bits(self.endpoints)) as u16,
                },
            )
        }
    }
}

/// A fresh endpoint table.
fn new_endpoints() -> (r: Vec<Endpoint>)
    ensures
        r@.map_values(|e: Endpoint| e@) == initial_endpoints(),
{
    let mut r: Vec<Endpoint> = Vec::new();
    let mut i: usize = 0;
    while i < NUM_ENDPOINTS
        invariant
            i <= NUM_ENDPOINTS,
            r@.len() == i,
            forall|j: int| 0 <= j < i ==> r@[j]@ == EndpointView::initial(),
        decreases NUM_ENDPOINTS - i,
    {
        r.push(Endpoint::new());
        i = i + 1;
    }
    assert(r@.map_values(|e: Endpoint| e@) =~= initial_endpoints());
    r
}

impl UsbIpBus {
    /// Creates a new bus: in reset, with no peer and no endpoint allocated.
    pub fn new() -> (r: Self)
        ensures
            r@ == BusView::initial(),
    {
        let r = UsbIpBus {
            endpoint: new_endpoints(),
            device_address: 0,
            reset: true,
            suspended: false,
            connected: false,
            vendor: DEFAULT_VENDOR,
            product: DEFAULT_PRODUCT,
            speed: DEFAULT_SPEED,
            device_class: 0,
            outbox: Vec::new(),
        };
        assert(r@.outbox =~= Seq::<ReplyView>::empty());
        r
    }

    /// Sets the vendor id that OP replies report.
    pub fn set_vendor(&mut self, vendor: u16)
        ensures
            final(self)@ == (BusView { vendor, ..old(self)@ }),
    {
        self.vendor = vendor;
    }

    /// Sets the product id that OP replies report.
    pub fn set_product(&mut self, product: u16)
        ensures
            final(self)@ == (BusView { product, ..old(self)@ }),
    {
        self.product = product;
    }

    /// Sets the speed that OP replies report.
    pub fn set_speed(&mut self, speed: u32)
        ensures
            final(self)@ == (BusView { speed, ..old(self)@ }),
    {
        self.speed = speed;
    }

    /// Sets the device class that OP replies report.
    pub fn set_device_class(&mut self, device_class: u8)
        ensures
            final(self)@ == (BusView { device_class, ..old(self)@ }),
    {
        self.device_class = device_class;
    }

    /// Whether a peer is attached to the connection.
    pub fn is_connected(&self) -> (r: bool)
        ensures
            r == self@.connected,
    {
        self.connected
    }

    /// A peer connected.
    pub fn connect(&mut self)
        ensures
            final(self)@ == (BusView { connected: true, ..old(self)@ }),
    {
        self.connected = true;
    }

    /// The peer went away or sent what cannot be parsed.
    pub fn disconnect(&mut self)
        requires
            old(self)@.wf(),
        ensures
            final(self)@ == old(self)@.disconnect(),
    {
        self.connected = false;
        self.outbox = Vec::new();
        assert(self@.outbox =~= Seq::<ReplyView>::empty());
        if !self.reset {
            let ghost b0 = old(self)@;
            let mut i: usize = 0;
            while i < NUM_ENDPOINTS
                invariant
                    i <= NUM_ENDPOINTS,
                    b0.wf(),
                    self.endpoint@.len() == NUM_ENDPOINTS,
                    forall|j: int| 0 <= j < i ==> self@.endpoints[j] == b0.endpoints[j].cleared(),
                    forall|j: int| i <= j < NUM_ENDPOINTS ==> self@.endpoints[j] == b0.endpoints[j],
                    self@ == (BusView {
                        endpoints: self@.endpoints,
                        connected: false,
                        outbox: Seq::empty(),
                        ..b0
                    }),
                decreases NUM_ENDPOINTS - i,
            {
                let ghost before = self@;
                self.endpoint[i].clear();
                assert(self@.endpoints =~= before.endpoints.update(
                    i as int,
                    b0.endpoints[i as int].cleared(),
                ));
                i = i + 1;
            }
            self.reset = true;
            assert(self@.endpoints =~= b0.endpoints.map_values(|e: EndpointView| e.cleared()));
        }
        assert(self@.outbox =~= Seq::<ReplyView>::empty());
    }

    /// Returns the first enpoint from 1 on whose pipe of direction `direction`
    /// is free, or `None`, if all are already in use.
    pub fn next_available_endpoint(&self, direction: UsbDirection) -> (r: Option<usize>)
        requires
            self@.wf(),
        ensures
            r == (if first_free(self@.endpoints, direction, 1) < 0 {
                None
            } else {
                Some(first_free(self@.endpoints, direction, 1) as usize)
            }),
    {
        let mut i: usize = 1;
        while i < NUM_ENDPOINTS
            invariant
                1 <= i <= NUM_ENDPOINTS,
                self@.wf(),
                first_free(self@.endpoints, direction, 1) == first_free(self@.endpoints, direction, i as int),
            decreases NUM_ENDPOINTS - i,
        {
            if !self.endpoint[i].has_pipe(direction) {
                return Some(i);
            }
            i = i + 1;
        }
        None
    }

    /// Allocates a pipe of direction `ep_dir` on endpoint `ep_addr`, or on the
    /// first free endpoint from 1 on, and returns the endpoint's index.
    pub fn alloc_ep(
        &mut self,
        ep_dir: UsbDirection,
        ep_addr: Option<usize>,
        ep_type: EndpointType,
        max_packet_size: u16,
        interval: u8,
    ) -> (r: Result<usize, UsbError>)
        requires
            old(self)@.wf(),
        ensures
            (final(self)@, r) == old(self)@.alloc_ep(
                ep_dir,
                ep_addr,
                ep_type,
                max_packet_size,
                interval,
            ),
    {
        let index = match ep_addr {
            Some(addr) => {
                if addr < NUM_ENDPOINTS {
                    addr
                } else {
                    return Err(UsbError::InvalidEndpoint);
                }
            },
            None => match {
                proof {
                    lemma_first_free(self@.endpoints, ep_dir, 1);
                }
                self.next_available_endpoint(ep_dir)
            } {
                Some(i) => i,
                None => return Err(UsbError::EndpointMemoryOverflow),
            },
        };
        if self.endpoint[index].has_pipe(ep_dir) {
            return Err(UsbError::InvalidEndpoint);
        }
        let ghost b0 = self@;
        let pipe = Pipe::new(ep_type, max_packet_size, interval);
        self.endpoint[index].set_pipe(ep_dir, pipe);
        assert(self@.endpoints =~= b0.alloc_at(
            index as int,
            ep_dir,
            ep_type,
            max_packet_size,
            interval,
        ).0.endpoints);
        Ok(index)
    }

    /// Enabling the device changes nothing in the bus.
    pub fn enable(&mut self)
        ensures
            final(self)@ == old(self)@,
    {
    }

    /// A device-side reset: when attached, the endpoint table starts afresh and
    /// the bus waits for a new import; otherwise nothing changes.
    pub fn reset(&mut self)
        requires
            old(self)@.wf(),
        ensures
            final(self)@ == old(self)@.reset_device(),
    {
        if self.reset {
            return;
        }
        self.endpoint = new_endpoints();
        self.reset = true;
        self.suspended = false;
    }

    pub fn set_device_address(&mut self, addr: u8)
        ensures
            final(self)@ == (BusView { device_address: addr, ..old(self)@ }),
    {
        self.device_address = addr;
    }

    /// Queues `buf` as one packet on the IN pipe of endpoint `ep`.
    pub fn write(&mut self, ep: usize, buf: &[u8]) -> (r: Result<usize, UsbError>)
        requires
            old(self)@.wf(),
        ensures
            (final(self)@, r) == old(self)@.write(ep as int, buf@),
    {
        if !self.connected {
            return Err(UsbError::WouldBlock);
        }
        if ep >= NUM_ENDPOINTS {
            return Err(UsbError::InvalidEndpoint);
        }
        if self.endpoint[ep].pipe_in.is_none() {
            return Err(UsbError::InvalidEndpoint);
        }
        let ghost b0 = self@;
        let ghost e = b0.endpoints[ep as int];
        // Control transfers complete per transaction rather than per packet,
        // so endpoint 0 reports completion when the device writes.
        if ep == 0 {
            self.endpoint[ep].in_complete_flag = true;
        }
        if self.endpoint[ep].is_rts() {
            if ep == 0 {
                self.endpoint[ep].in_complete_flag = false;
            }
            assert(self@.endpoints =~= b0.write(ep as int, buf@).0.endpoints);
            return Err(UsbError::WouldBlock);
        }
        let packet = copy_range(buf, 0, buf.len());
        assert(packet@ =~= buf@);
        self.endpoint[ep].push_in(packet);
        let ghost p = e.pipe_in->0;
        assert(self@.endpoints =~= b0.endpoints.update(
            ep as int,
            EndpointView {
                pipe_in: Some(PipeView { packets: p.packets.push(buf@), ..p }),
                in_complete_flag: ep == 0 || e.in_complete_flag,
                ..e
            },
        ));
        if self.endpoint[ep].is_rts() {
            self.try_send_pending(ep);
        }
        Ok(buf.len())
    }

    /// Takes the oldest OUT packet of endpoint `ep`, copies as much of it as
    /// fits into `buf`, and returns its whole length.
    pub fn read(&mut self, ep: usize, buf: &mut [u8]) -> (r: Result<usize, UsbError>)
        requires
            old(self)@.wf(),
        ensures
            (final(self)@, r) == old(self)@.read(ep as int),
            final(buf)@ == if r is Ok {
                copied(old(buf)@, old(self)@.endpoints[ep as int].pipe_out->0.packets[0])
            } else {
                old(buf)@
            },
    {
        if ep >= NUM_ENDPOINTS {
            return Err(UsbError::InvalidEndpoint);
        }
        if self.endpoint[ep].pipe_out.is_none() {
            return Err(UsbError::InvalidEndpoint);
        }
        let ghost b0 = self@;
        let popped = self.endpoint[ep].pop_out();
        let data = match popped {
            None => {
                assert(self@.endpoints =~= b0.endpoints);
                return Err(UsbError::WouldBlock);
            },
            Some(data) => data,
        };
        assert(self@.endpoints =~= b0.read(ep as int).0.endpoints);
        let n: usize = if buf.len() < data.len() {
            buf.len()
        } else {
            data.len()
        };
        let mut k: usize = 0;
        while k < n
            invariant
                k <= n,
                n <= buf@.len(),
                n <= data@.len(),
                buf@.len() == old(buf)@.len(),
                buf@ == data@.take(k as int) + old(buf)@.skip(k as int),
            decreases n - k,
        {
            buf[k] = data[k];
            k = k + 1;
            assert(buf@ =~= data@.take(k as int) + old(buf)@.skip(k as int));
        }
        assert(buf@ =~= copied(old(buf)@, data@));
        Ok(data.len())
    }

    /// Sets the stall state of endpoint `ep`; an endpoint that does not exist
    /// is left alone.
    pub fn set_stalled(&mut self, ep: usize, stalled: bool)
        requires
            old(self)@.wf(),
        ensures
            final(self)@ == if ep < NUM_ENDPOINTS {
                old(self)@.with_endpoint(
                    ep as int,
                    EndpointView { stalled, ..old(self)@.endpoints[ep as int] },
                )
            } else {
                old(self)@
            },
    {
        if ep >= NUM_ENDPOINTS {
            return;
        }
        let ghost b0 = self@;
        self.endpoint[ep].stalled = stalled;
        assert(self@.endpoints =~= b0.endpoints.update(
            ep as int,
            EndpointView { stalled, ..b0.endpoints[ep as int] },
        ));
    }

    /// Whether endpoint `ep` is stalled; an endpoint that does not exist is not.
    pub fn is_stalled(&self, ep: usize) -> (r: bool)
        requires
            self@.wf(),
        ensures
            r == (ep < NUM_ENDPOINTS && self@.endpoints[ep as int].stalled),
    {
        if ep >= NUM_ENDPOINTS {
            return false;
        }
        self.endpoint[ep].stalled
    }

    pub fn suspend(&mut self)
        ensures
            final(self)@ == (BusView { suspended: true, ..old(self)@ }),
    {
        self.suspended = true;
    }

    pub fn resume(&mut self)
        ensures
            final(self)@ == (BusView { suspended: false, ..old(self)@ }),
    {
        self.suspended = false;
    }

    /// Reports what happened since the last poll; the network work that comes
    /// before it is done by the caller, which hands frames to the handlers.
    pub fn poll(&mut self) -> (r: PollResult)
        requires
            old(self)@.wf(),
        ensures
            (final(self)@, r) == old(self)@.poll(),
    {
        if self.reset {
            return PollResult::Reset;
        }
        if self.suspended {
            return PollResult::Suspend;
        }
        let ghost b0 = self@;
        let ghost outs = out_bits(b0.endpoints);
        let ghost ins = in_complete_bits(b0.endpoints);
        let ghost sets = setup_bits(b0.endpoints);
        let mut ep_in: u16 = 0;
        let mut ep_out: u16 = 0;
        let mut ep_setup: u16 = 0;
        let mut i: usize = NUM_ENDPOINTS;
        proof {
            assert(outs.subrange(8, 8) =~= Seq::<bool>::empty());
            assert(ins.subrange(8, 8) =~= Seq::<bool>::empty());
            assert(sets.subrange(8, 8) =~= Seq::<bool>::empty());
        }
        while i > 0
            invariant
                i <= NUM_ENDPOINTS,
                self.endpoint@.len() == NUM_ENDPOINTS,
                outs.len() == NUM_ENDPOINTS,
                ins.len() == NUM_ENDPOINTS,
                sets.len() == NUM_ENDPOINTS,
                ep_out as nat == mask_of(outs.subrange(i as int, 8)),
                ep_in as nat == mask_of(ins.subrange(i as int, 8)),
                ep_setup as nat == mask_of(sets.subrange(i as int, 8)),
                forall|j: int| 0 <= j < i ==> self@.endpoints[j] == b0.endpoints[j],
                forall|j: int|
                    i <= j < NUM_ENDPOINTS ==> self@.endpoints[j] == b0.endpoints[j].flags_cleared(),
                self@ == (BusView { endpoints: self@.endpoints, ..b0 }),
                outs == out_bits(b0.endpoints),
                ins == in_complete_bits(b0.endpoints),
                sets == setup_bits(b0.endpoints),
            decreases i,
        {
            i = i - 1;
            proof {
                lemma_mask_bound(outs.subrange(i + 1, 8));
                lemma_mask_bound(ins.subrange(i + 1, 8));
                lemma_mask_bound(sets.subrange(i + 1, 8));
                lemma2_to64();
                if i > 0 {
                    lemma_pow2_strictly_increases((7 - i) as nat, 7);
                }
                assert(outs.subrange(i as int, 8).drop_first() =~= outs.subrange(i + 1, 8));
                assert(ins.subrange(i as int, 8).drop_first() =~= ins.subrange(i + 1, 8));
                assert(sets.subrange(i as int, 8).drop_first() =~= sets.subrange(i + 1, 8));
            }
            let has_out = match self.endpoint[i].pipe_out {
                Some(ref pipe) => pipe.data.len() > 0,
                None => false,
            };
            ep_out = ep_out * 2 + if has_out {
                1
            } else {
                0
            };
            let ghost before = self@;
            if self.endpoint[i].in_complete_flag {
                self.endpoint[i].in_complete_flag = false;
                ep_in = ep_in * 2 + 1;
            } else {
                ep_in = ep_in * 2;
            }
            if self.endpoint[i].setup_flag {
                self.endpoint[i].setup_flag = false;
                ep_setup = ep_setup * 2 + 1;
            } else {
                ep_setup = ep_setup * 2;
            }
            assert(self@.endpoints =~= before.endpoints.update(
                i as int,
                b0.endpoints[i as int].flags_cleared(),
            ));
        }
        assert(self@.endpoints =~= b0.endpoints.map_values(|e: EndpointView| e.flags_cleared()));
        assert(outs.subrange(0, 8) =~= outs);
        assert(ins.subrange(0, 8) =~= ins);
        assert(sets.subrange(0, 8) =~= sets);
        PollResult::Data { ep_out, ep_in_complete: ep_in, ep_setup }
    }

    /// What the network side should do next: accept a peer, or read the kind
    /// of frame that the bus's state expects.
    pub fn network_step(&self) -> (r: NetworkStep)
        ensures
            r == if !self@.connected {
                NetworkStep::Accept
            } else if self@.reset {
                NetworkStep::ReadOp
            } else {
                NetworkStep::ReadUrb
            },
    {
        if !self.connected {
            NetworkStep::Accept
        } else if self.reset {
            NetworkStep::ReadOp
        } else {
            NetworkStep::ReadUrb
        }
    }

    /// Takes a received OP frame: a valid request is handled and its reply
    /// returned; a frame that does not decode drops the peer.
    pub fn receive_op(&mut self, frame: &[u8]) -> (r: Option<OpResponse>)
        requires
            old(self)@.wf(),
        ensures
            match OpRequest::spec_parse(frame@) {
                Ok(op) => r is Some && final(self)@ == old(self)@.handle_op(op)
                    && r->0.cmd == match op {
                    OpRequest::ListDevices(_) => OpResponseCommand::ListDevices(
                        OpInterfaceDescriptor {
                            interface_class: 0,
                            interface_subclass: 0,
                            interface_protocol: 0,
                            padding: 0,
                        },
                    ),
                    OpRequest::ConnectDevice(_) => OpResponseCommand::ConnectDevice,
                } && r->0.descriptor == old(self)@.device_descriptor() && r->0.path@
                    == device_path() && r->0.bus_id@ == device_bus_id(),
                Err(_) => r is None && final(self)@ == old(self)@.disconnect(),
            },
    {
        match OpRequest::from_slice(frame) {
            Ok(op) => Some(self.handle_op(op)),
            Err(_) => {
                self.disconnect();
                None
            },
        }
    }

    /// Takes a received URB frame: a valid request is applied; a frame that
    /// does not decode drops the peer. Returns whether the frame was valid.
    pub fn receive_urb(&mut self, frame: &[u8]) -> (r: bool)
        requires
            old(self)@.wf(),
        ensures
            r == (frame@.len() >= 48 && UsbIpHeader::spec_parse(frame@) is Ok && match UsbIpHeader::spec_parse(frame@)->Ok_0.command {
                UsbCmd::Request => frame@.len() >= 48 + UsbIpRequest::spec_payload_len(frame@),
                UsbCmd::UnlinkRequest => true,
                _ => false,
            }),
            !r ==> final(self)@ == old(self)@.disconnect(),
            r ==> exists|q: UsbIpRequest|
                UsbIpRequest::spec_decodes(frame@, Ok(q)) && final(self)@ == old(self)@.handle_request(
                    q.header,
                    q.cmd,
                    q.data@,
                ),
    {
        match UsbIpRequest::from_slice(frame) {
            Ok(request) => {
                let ghost q = request;
                self.handle_usbip_pkg(request);
                assert(UsbIpRequest::spec_decodes(frame@, Ok(q)));
                true
            },
            Err(_) => {
                self.disconnect();
                false
            },
        }
    }

    /// Handles an OP request and returns the reply; an import attaches the device.
    pub fn handle_op(&mut self, op: OpRequest) -> (r: OpResponse)
        ensures
            final(self)@ == old(self)@.handle_op(op),
            r.version == match op {
                OpRequest::ListDevices(h) => h.version,
                OpRequest::ConnectDevice(h) => h.version,
            },
            r.path@ == device_path(),
            r.bus_id@ == device_bus_id(),
            r.descriptor == old(self)@.device_descriptor(),
            r.cmd == match op {
                OpRequest::ListDevices(_) => OpResponseCommand::ListDevices(
                    OpInterfaceDescriptor {
                        interface_class: 0,
                        interface_subclass: 0,
                        interface_protocol: 0,
                        padding: 0,
                    },
                ),
                OpRequest::ConnectDevice(_) => OpResponseCommand::ConnectDevice,
            },
    {
        let descriptor = OpDeviceDescriptor {
            busnum: BUSNUM,
            devnum: DEVNUM,
            speed: self.speed,
            vendor: self.vendor,
            product: self.product,
            bcd_device: 0,
            device_class: self.device_class,
            device_subclass: 0,
            device_protocol: 0,
            configuration_value: 0,
            num_configurations: 1,
            num_interfaces: 1,
        };
        let path = "/sys/devices/pci0000:00/0000:00:01.2/usb1/1-1".to_string();
        let bus_id = "1-1".to_string();
        match op {
            OpRequest::ListDevices(header) => OpResponse {
                version: header.version,
                path,
                bus_id,
                descriptor,
                cmd: OpResponseCommand::ListDevices(
                    OpInterfaceDescriptor {
                        interface_class: 0,
                        interface_subclass: 0,
                        interface_protocol: 0,
                        padding: 0,
                    },
                ),
            },
            OpRequest::ConnectDevice(header) => {
                self.reset = false;
                OpResponse {
                    version: header.version,
                    path,
                    bus_id,
                    descriptor,
                    cmd: OpResponseCommand::ConnectDevice,
                }
            },
        }
    }

    /// Handle a [`UsbIpCmdSubmit`] package
    pub fn handle_cmd(&mut self, header: UsbIpHeader, cmd: UsbIpCmdSubmit, data: Vec<u8>)
        requires
            old(self)@.wf(),
        ensures
            final(self)@ == old(self)@.handle_cmd(header, cmd, data@),
    {
        if header.ep >= NUM_ENDPOINTS as u32 {
            return;
        }
        let ep = header.ep as usize;
        let has_setup = cmd.has_setup();
        if (has_setup || header.direction == Direction::OUT) && self.endpoint[ep].pipe_out.is_none() {
            return;
        }
        let ghost b0 = old(self)@;
        let ghost e = b0.endpoints[ep as int];
        let ghost e1 = if cmd.spec_has_setup() {
            EndpointView { setup_flag: true, ..e.push_out(cmd.setup@) }
        } else {
            e
        };
        if has_setup {
            let setup = copy_range(&cmd.setup, 0, 8);
            assert(setup@ =~= cmd.setup@);
            self.endpoint[ep].push_out(setup);
            self.endpoint[ep].setup_flag = true;
        }
        assert(self@.endpoints =~= b0.endpoints.update(ep as int, e1));
        match header.direction {
            Direction::OUT => {
                self.endpoint[ep].push_out_chunks(data.as_slice());
                let (zero, ty) = match self.endpoint[ep].pipe_out {
                    Some(ref p) => (cmd.transfer_flags.contains(ZERO_PACKET), p.ty),
                    None => (false, EndpointType::Control),
                };
                let ghost p = e1.pipe_out->0;
                let ghost c = chunks(data@, p.max_packet_size as nat);
                if zero && ty == EndpointType::Bulk {
                    self.endpoint[ep].push_out(Vec::new());
                    assert(c.push(Seq::<u8>::empty()) =~= c + seq![Seq::<u8>::empty()]);
                    assert(p.packets + c + seq![Seq::<u8>::empty()] =~= p.packets + (c + seq![
                        Seq::<u8>::empty(),
                    ]));
                } else {
                    assert(c + Seq::<Seq<u8>>::empty() =~= c);
                }
                self.ack_cmd_out(header.ep, header.seqnum);
                assert(self@.endpoints =~= b0.handle_cmd(header, cmd, data@).endpoints);
                assert(self@.outbox =~= b0.handle_cmd(header, cmd, data@).outbox);
            },
            Direction::IN => {
                self.endpoint[ep].pending_ins.push_back(PendingIn { header, cmd });
                assert(self@.endpoints =~= b0.endpoints.update(
                    ep as int,
                    EndpointView { pending: e1.pending.push(PendingIn { header, cmd }), ..e1 },
                ));
                self.try_send_pending(ep);
            },
        }
    }

    /// Send an acknowledgement after recieving a cmd out package.
    pub fn ack_cmd_out(&mut self, ep: u32, seqnum: u32)
        ensures
            final(self)@ == old(self)@.reply(ret_submit(ep, seqnum, Direction::OUT, Seq::empty())),
    {
        let response = UsbIpResponse {
            header: UsbIpHeader {
                command: UsbCmd::Response,
                seqnum,
                devid: DEVID,
                direction: Direction::OUT,
                ep,
            },
            cmd: UsbIpResponseCmd::Cmd(
                UsbIpRetSubmit {
                    status: 0,
                    actual_length: 0,
                    start_frame: 0,
                    number_of_packets: 0,
                    error_count: 0,
                },
            ),
            data: Vec::new(),
        };
        self.outbox.push(response);
        assert(response@.data =~= Seq::<u8>::empty());
        assert(self@.outbox =~= old(self)@.outbox.push(
            ret_submit(ep, seqnum, Direction::OUT, Seq::empty()),
        ));
    }

    /// Processes an unlink and removes the first waiting URB with sequence
    /// number `seqnum`, scanning the endpoints in order.
    ///
    /// # Returns
    /// - `true` if pending urb was removed
    /// - `false` if it was not found
    pub fn unlink(&mut self, seqnum: u32) -> (r: bool)
        requires
            old(self)@.wf(),
        ensures
            (final(self)@.endpoints, r) == unlink_from(old(self)@.endpoints, seqnum, 0),
            final(self)@ == (BusView { endpoints: final(self)@.endpoints, ..old(self)@ }),
    {
        let mut i: usize = 0;
        while i < NUM_ENDPOINTS
            invariant
                self@ == old(self)@,
                self@.wf(),
                i <= NUM_ENDPOINTS,
                unlink_from(self@.endpoints, seqnum, 0) == unlink_from(self@.endpoints, seqnum, i as int),
            decreases NUM_ENDPOINTS - i,
        {
            let ghost b = self@;
            if self.endpoint[i].unlink(seqnum) {
                assert(self@.endpoints =~= b.endpoints.update(i as int, b.endpoints[i as int].unlink(seqnum).0));
                return true;
            }
            assert(self@.endpoints =~= b.endpoints);
            i = i + 1;
        }
        false
    }

    /// Handle a received unlink package
    pub fn handle_unlink(&mut self, header: UsbIpHeader, unlink: UsbIpCmdUnlink)
        requires
            old(self)@.wf(),
        ensures
            final(self)@ == old(self)@.handle_unlink(header, unlink),
    {
        self.unlink(unlink.seqnum);
        self.ack_unlink(header.ep, header.seqnum);
    }

    /// Send an acknowledgement after recieving an unlink package.
    pub fn ack_unlink(&mut self, ep: u32, seqnum: u32)
        ensures
            final(self)@ == old(self)@.reply(ret_unlink(ep, seqnum)),
    {
        let response = UsbIpResponse {
            header: UsbIpHeader {
                command: UsbCmd::UnlinkResponse,
                seqnum,
                devid: DEVID,
                direction: Direction::OUT,
                ep,
            },
            cmd: UsbIpResponseCmd::Unlink(UsbIpRetUnlink { status: 0 }),
            data: Vec::new(),
        };
        self.outbox.push(response);
        assert(response@.data =~= Seq::<u8>::empty());
        assert(self@.outbox =~= old(self)@.outbox.push(ret_unlink(ep, seqnum)));
    }

    /// Applies a URB request from the host.
    pub fn handle_usbip_pkg(&mut self, request: UsbIpRequest)
        requires
            old(self)@.wf(),
        ensures
            final(self)@ == old(self)@.handle_request(request.header, request.cmd, request.data@),
    {
        match request.cmd {
            UsbIpRequestCmd::Unlink(unlink) => self.handle_unlink(request.header, unlink),
            UsbIpRequestCmd::Cmd(cmd) => self.handle_cmd(request.header, cmd, request.data),
        }
    }

    /// Answers the oldest IN URB of endpoint `ep` if the IN pipe is ready to send.
    pub fn try_send_pending(&mut self, ep: usize)
        requires
            old(self)@.wf(),
        ensures
            final(self)@ == old(self)@.send_pending(ep as int),
    {
        if ep >= NUM_ENDPOINTS {
            return;
        }
        if !self.endpoint[ep].is_rts() {
            return;
        }
        if self.endpoint[ep].pending_ins.len() == 0 {
            return;
        }
        let ghost e = old(self)@.endpoints[ep as int];
        let ghost b0 = old(self)@;
        let pending = self.endpoint[ep].pending_ins.pop_front().unwrap();
        let limit: usize = if pending.cmd.transfer_buffer_length > 0 {
            pending.cmd.transfer_buffer_length as usize
        } else {
            0
        };
        let out = self.endpoint[ep].take_in_bytes(limit);
        self.endpoint[ep].in_complete_flag = true;
        proof {
            lemma_drain_keeps_order(e.pipe_in->0.packets, limit as nat);
        }
        let response = UsbIpResponse {
            header: UsbIpHeader {
                command: UsbCmd::Response,
                seqnum: pending.header.seqnum,
                devid: DEVID,
                direction: Direction::IN,
                ep: ep as u32,
            },
            cmd: UsbIpResponseCmd::Cmd(
                UsbIpRetSubmit {
                    status: 0,
                    actual_length: out.len() as i32,
                    start_frame: 0,
                    number_of_packets: 0,
                    error_count: 0,
                },
            ),
            data: out,
        };
        self.outbox.push(response);
        proof {
            assert(e.pending[0] == pending);
            assert(self@.endpoints =~= b0.send_pending(ep as int).endpoints);
            assert(self@.outbox =~= b0.send_pending(ep as int).outbox);
        }
    }
}

/// The pending IN URB `k` of endpoint `i` carries sequence number `s`.
pub open spec fn pending_has(eps: Seq<EndpointView>, s: u32, i: int, k: int) -> bool {
    0 <= i < eps.len() && 0 <= k < eps[i].pending.len() && eps[i].pending[k].header.seqnum == s
}

/// No two pending IN URBs carry sequence number `s`.
pub open spec fn at_most_one_pending(eps: Seq<EndpointView>, s: u32) -> bool {
    forall|i1: int, k1: int, i2: int, k2: int|
        pending_has(eps, s, i1, k1) && pending_has(eps, s, i2, k2) ==> i1 == i2 && k1 == k2
}

/// Some pending IN URB carries sequence number `s`.
pub open spec fn any_pending_has(eps: Seq<EndpointView>, s: u32) -> bool {
    exists|i: int, k: int| pending_has(eps, s, i, k)
}

/// Unlinking a sequence number that no URB carries changes nothing.
pub proof fn lemma_unlink_absent(eps: Seq<EndpointView>, s: u32, i: int)
    requires
        0 <= i <= eps.len(),
        !any_pending_has(eps, s),
    ensures
        unlink_from(eps, s, i) == (eps, false),
    decreases eps.len() - i,
{
    if i < eps.len() {
        lemma_find_seqnum(eps[i].pending, s, 0);
        if find_seqnum_at(eps, s, i) != -1 {
            assert(pending_has(eps, s, i, find_seqnum_at(eps, s, i)));
        }
        lemma_unlink_absent(eps, s, i + 1);
    }
}

/// Where the unlink scan looks on endpoint `i`.
pub open spec fn find_seqnum_at(eps: Seq<EndpointView>, s: u32, i: int) -> int {
    crate::endpoint::find_seqnum(eps[i].pending, s, 0)
}

/// When at most one URB carries `s`, none carries it after an unlink of `s`.
pub proof fn lemma_unlink_removes_the_only(eps: Seq<EndpointView>, s: u32, i: int)
    requires
        0 <= i <= eps.len(),
        at_most_one_pending(eps, s),
        forall|j: int, k: int| 0 <= j < i ==> !pending_has(eps, s, j, k),
    ensures
        !any_pending_has(unlink_from(eps, s, i).0, s),
    decreases eps.len() - i,
{
    if i >= eps.len() {
        assert forall|j: int, k: int| !pending_has(eps, s, j, k) by {}
    } else {
        let q = eps[i].pending;
        lemma_find_seqnum(q, s, 0);
        let f = find_seqnum_at(eps, s, i);
        if f == -1 {
            assert forall|j: int, k: int| 0 <= j < i + 1 implies !pending_has(eps, s, j, k) by {}
            lemma_unlink_removes_the_only(eps, s, i + 1);
        } else {
            assert(pending_has(eps, s, i, f));
            let r = unlink_from(eps, s, i).0;
            assert(r == eps.update(i, eps[i].unlink(s).0));
            assert forall|j: int, k: int| !pending_has(r, s, j, k) by {
                if pending_has(r, s, j, k) {
                    if j != i {
                        assert(pending_has(eps, s, j, k));
                    } else if k < f {
                        assert(pending_has(eps, s, i, k));
                    } else {
                        assert(r[i].pending[k] == q[k + 1]);
                        assert(pending_has(eps, s, i, k + 1));
                    }
                }
            }
        }
    }
}

/// Two unlinks of the same sequence number are both acknowledged with status
/// 0, and when at most one waiting URB carried it, the second removes nothing.
pub proof fn lemma_unlink_twice(s: BusView, h1: UsbIpHeader, h2: UsbIpHeader, u: UsbIpCmdUnlink)
    requires
        s.wf(),
        at_most_one_pending(s.endpoints, u.seqnum),
    ensures
        s.handle_unlink(h1, u).outbox.last() == ret_unlink(h1.ep, h1.seqnum),
        s.handle_unlink(h1, u).handle_unlink(h2, u).outbox.last() == ret_unlink(h2.ep, h2.seqnum),
        ret_unlink(h1.ep, h1.seqnum).cmd == UsbIpResponseCmd::Unlink(UsbIpRetUnlink { status: 0 }),
        !unlink_from(s.handle_unlink(h1, u).endpoints, u.seqnum, 0).1,
        s.handle_unlink(h1, u).handle_unlink(h2, u).endpoints == s.handle_unlink(h1, u).endpoints,
{
    lemma_unlink_removes_the_only(s.endpoints, u.seqnum, 0);
    let e1 = unlink_from(s.endpoints, u.seqnum, 0).0;
    lemma_unlink_absent(e1, u.seqnum, 0);
}

/// The device sees the bus in reset until an import: a poll reports reset, and
/// every other step leaves the bus in reset.
pub proof fn lemma_reset_until_import(
    s: BusView,
    h: OpHeader,
    uh: UsbIpHeader,
    cmd: UsbIpRequestCmd,
    data: Seq<u8>,
    ep: int,
    dir: UsbDirection,
    addr: Option<usize>,
    ty: EndpointType,
    mps: u16,
    interval: u8,
    suspended: bool,
)
    requires
        s.reset,
    ensures
        s.poll().1 == PollResult::Reset,
        s.poll().0.reset,
        s.handle_op(OpRequest::ListDevices(h)).reset,
        s.handle_request(uh, cmd, data).reset,
        s.write(ep, data).0.reset,
        s.read(ep).0.reset,
        s.alloc_ep(dir, addr, ty, mps, interval).0.reset,
        s.reset_device().reset,
        s.disconnect().reset,
        (BusView { connected: true, ..s }).reset,
        (BusView { suspended, ..s }).reset,
{
}

/// A disconnect always leaves the bus in reset.
pub proof fn lemma_disconnect_resets(s: BusView)
    ensures
        s.disconnect().reset,
        s.disconnect().poll().1 == PollResult::Reset,
{
}

/// Flags are cleared on read: a poll that follows a poll, with nothing in
/// between, reports no IN completion and no setup packet.
pub proof fn lemma_poll_twice(s: BusView)
    requires
        s.wf(),
    ensures
        s.poll().0.poll().1 is Data ==> s.poll().0.poll().1->ep_in_complete == 0
            && s.poll().0.poll().1->ep_setup == 0,
{
    let t = s.poll().0;
    if !s.reset && !s.suspended {
        lemma_mask_zero(in_complete_bits(t.endpoints));
        lemma_mask_zero(setup_bits(t.endpoints));
    }
}

/// The reply to an IN URB carries bytes in the order the device queued them,
/// and no more than the URB asked for: its data, followed by what stays in the
/// pipe, are the bytes that were queued.
pub proof fn lemma_send_pending_in_order(s: BusView, ep: int)
    requires
        s.wf(),
        0 <= ep < NUM_ENDPOINTS,
        s.endpoints[ep].is_rts(),
        s.endpoints[ep].pending.len() > 0,
    ensures
        s.send_pending(ep).outbox.last().data + bytes_of(
            s.send_pending(ep).endpoints[ep].pipe_in->0.packets,
        ) == bytes_of(s.endpoints[ep].pipe_in->0.packets),
        s.send_pending(ep).outbox.last().data.len() <= transfer_room(s.endpoints[ep].pending[0].cmd),
        s.endpoints[ep].pending[0].cmd.transfer_buffer_length >= 0
            ==> s.send_pending(ep).outbox.last().cmd->Cmd_0.actual_length
            <= s.endpoints[ep].pending[0].cmd.transfer_buffer_length,
        s.send_pending(ep).outbox.last().header.seqnum == s.endpoints[ep].pending[0].header.seqnum,
{
    let e = s.endpoints[ep];
    lemma_drain_keeps_order(e.pipe_in->0.packets, transfer_room(e.pending[0].cmd));
}

/// A write that succeeds appends its bytes behind those already queued: what
/// it sends back to the host, followed by what stays in the pipe, are the
/// bytes queued before and then the written ones.
pub proof fn lemma_write_in_order(s: BusView, ep: int, buf: Seq<u8>)
    requires
        s.wf(),
        s.write(ep, buf).1 is Ok,
    ensures
        (if s.write(ep, buf).0.outbox.len() > s.outbox.len() {
            s.write(ep, buf).0.outbox.last().data
        } else {
            Seq::empty()
        }) + bytes_of(s.write(ep, buf).0.endpoints[ep].pipe_in->0.packets) == bytes_of(
            s.endpoints[ep].pipe_in->0.packets,
        ) + buf,
{
    let e = s.endpoints[ep];
    let p = e.pipe_in->0;
    let e2 = EndpointView {
        pipe_in: Some(PipeView { packets: p.packets.push(buf), ..p }),
        in_complete_flag: ep == 0 || e.in_complete_flag,
        ..e
    };
    let s2 = s.with_endpoint(ep, e2);
    p.packets.lemma_flatten_push(buf);
    if e2.is_rts() && e2.pending.len() > 0 {
        lemma_send_pending_in_order(s2, ep);
    } else {
        assert(Seq::<u8>::empty() + bytes_of(p.packets.push(buf)) =~= bytes_of(p.packets) + buf);
    }
}

} // verus!
