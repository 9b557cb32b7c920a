//! Communicate with MDC displays: session, acknowledgement protocol and
//! the command set.

use vstd::prelude::*;

use crate::commands;
use crate::proto;
use crate::proto::Packet;
use crate::Error;

verus! {

/// First payload byte of a positive acknowledgement: ASCII `A`.
pub const ACK_MARKER: u8 = 0x41;

/// Once the accumulation buffer holds this many bytes, a parse attempt can
/// no longer report an incomplete input: the length byte announces at most
/// 255 payload bytes, so a whole packet spans at most 260 bytes.
pub const MAX_PACKET_LEN: usize = 260;

/// A duplex byte stream an MDC session communicates on. Implementers
/// provide one blocking read and one blocking write-all; a TCP socket is
/// the expected concrete instance, but any transport fits.
pub trait MDCStream {
    /// Blocking read: wait for bytes from the peer and return them.
    /// An empty result means the peer closed the stream; a failure is
    /// reported as [`Error::Io`].
    fn read_some(&mut self) -> (r: Result<Vec<u8>, Error>)
        ensures
            r matches Err(e) ==> e is Io,
    ;

    /// Blocking write of the whole byte sequence; a failure is reported as
    /// [`Error::Io`].
    fn write_all(&mut self, bytes: &Vec<u8>) -> (r: Result<(), Error>)
        ensures
            r matches Err(e) ==> e is Io,
    ;
}

/// One packet was extracted from the front of `b`, a byte sequence that
/// extends the bytes `before` already buffered when the receive began:
/// the packet's fields are the parse of `b`, and `after`, the bytes still
/// buffered afterwards, is what follows the packet in `b`.
pub open spec fn received_from(b: Seq<u8>, before: Seq<u8>, after: Seq<u8>, packet: Packet) -> bool {
    &&& before.is_prefix_of(b)
    &&& proto::parse_ok_spec(b)
    &&& packet.command == b[1]
    &&& packet.display_id == b[2]
    &&& packet.data@ == proto::payload_spec(b)
    &&& after == b.skip(5 + b[3])
}

/// Parsing was abandoned on `b`, a byte sequence that extends the bytes
/// `before` already buffered when the receive began, for the reported
/// reason: a wrong header byte or a wrong checksum.
pub open spec fn rejected_from(b: Seq<u8>, before: Seq<u8>, e: proto::Error) -> bool {
    &&& before.is_prefix_of(b)
    &&& (e == proto::Error::InvalidHeader <==> proto::bad_header_spec(b))
    &&& (e == proto::Error::InvalidChecksum <==> proto::bad_checksum_spec(b))
    &&& (e == proto::Error::InvalidHeader || e == proto::Error::InvalidChecksum)
}

/// Some byte sequence extending the bytes already buffered parses to the
/// received packet, leaving the bytes still buffered afterwards.
pub open spec fn received_ok(before: Seq<u8>, after: Seq<u8>, packet: Packet) -> bool {
    exists|b: Seq<u8>| received_from(b, before, after, packet)
}

/// Some byte sequence extending the bytes already buffered was rejected
/// for the reported reason: a wrong header byte or a wrong checksum.
pub open spec fn receive_failed(before: Seq<u8>, e: proto::Error) -> bool {
    exists|b: Seq<u8>| rejected_from(b, before, e)
}

/// A power status query succeeded: some acknowledgement reply, parsed
/// from bytes extending what the session had buffered, carries at payload
/// offset 2 an in-range byte whose power meaning is the returned status:
/// `0x00` is on, `0x01` is off.
pub open spec fn power_query_ok(before: Seq<u8>, after: Seq<u8>, status: PowerStatus) -> bool {
    exists|resp: Packet| {
        &&& received_ok(before, after, resp)
        &&& resp.data@.len() >= 3
        &&& resp.data@[2] <= 1
        &&& (status is On <==> resp.data@[2] == 0x00)
    }
}

/// A panel status query succeeded: some acknowledgement reply, parsed
/// from bytes extending what the session had buffered, carries at payload
/// offset 2 an in-range byte whose panel meaning is the returned status:
/// `0x00` is off, `0x01` is on — the reverse of the power mapping.
pub open spec fn panel_query_ok(before: Seq<u8>, after: Seq<u8>, status: PanelStatus) -> bool {
    exists|resp: Packet| {
        &&& received_ok(before, after, resp)
        &&& resp.data@.len() >= 3
        &&& resp.data@[2] <= 1
        &&& (status is On <==> resp.data@[2] == 0x01)
    }
}

/// A status query's acknowledgement arrived, but its payload is shorter
/// than the three bytes needed: two reserved fields and the status value.
pub open spec fn query_reply_short(before: Seq<u8>, after: Seq<u8>) -> bool {
    exists|resp: Packet| received_ok(before, after, resp) && resp.data@.len() < 3
}

/// A status query's acknowledgement arrived with a full payload, but the
/// status byte at offset 2 is out of range: neither `0x00` nor `0x01`.
pub open spec fn query_reply_invalid(before: Seq<u8>, after: Seq<u8>) -> bool {
    exists|resp: Packet| {
        &&& received_ok(before, after, resp)
        &&& resp.data@.len() >= 3
        &&& resp.data@[2] >= 2
    }
}

/// A positive acknowledgement was received: some reply, parsed from bytes
/// extending what the session had buffered, carries the
/// acknowledge/not-acknowledge id and starts its payload with the marker.
pub open spec fn ack_received(before: Seq<u8>, after: Seq<u8>) -> bool {
    exists|resp: Packet| {
        &&& received_ok(before, after, resp)
        &&& resp.command == commands::ACK_NACK
        &&& resp.data@.len() >= 1
        &&& resp.data@[0] == ACK_MARKER
    }
}

/// An MDC session where packets can be sent and received.
pub struct MDCSession<S: MDCStream> {
    stream: S,
    buffer: Vec<u8>,
}

impl<S: MDCStream> MDCSession<S> {
    /// Bytes read from the stream but not yet consumed as a packet.
    pub closed spec fn buffered(&self) -> Seq<u8> {
        self.buffer@
    }

    /// Initiate a new session over an arbitrary stream.
    pub fn new_from_stream(stream: S) -> (r: Result<Self, Error>)
        ensures
            r matches Ok(session) && session.buffered() == Seq::<u8>::empty(),
    {
        let new_self = Self { stream, buffer: Vec::new() };
        Ok(new_self)
    }

    /// Send commands to one display id, awaiting acknowledgements.
    pub fn display(&mut self, display_id: u8) -> (r: DisplayCommandBuilder<'_, S>)
        ensures
            r.spec_display_id() == display_id,
    {
        DisplayCommandBuilder { session: self, display_id }
    }

    /// Send commands to all displays available on this session.
    pub fn all_displays(&mut self) -> (r: BroadcastCommandBuilder<'_, S>) {
        BroadcastCommandBuilder { session: self }
    }

    /// Low level method to receive the next packet.
    ///
    /// Parse attempts alternate with blocking reads until the accumulation
    /// buffer yields a packet. A read returning no bytes means the peer
    /// closed the stream mid-frame. On a header or checksum failure the
    /// stream is desynchronized beyond recovery, so the buffer is discarded
    /// before the error is reported.
    #[verifier::loop_isolation(false)]
    pub fn recv_packet(&mut self) -> (r: Result<Packet, Error>)
        ensures
            r matches Ok(packet) ==> proto::packet_wf(packet)
                && received_ok(old(self).buffered(), final(self).buffered(), packet),
            r matches Err(e) ==> {
                ||| (e is Io || e is UnexpectedEndOfStream)
                    && old(self).buffered().is_prefix_of(final(self).buffered())
                ||| e matches Error::InvalidPacket(parse_error)
                    && final(self).buffered() == Seq::<u8>::empty()
                    && receive_failed(old(self).buffered(), parse_error)
            },
            proto::parse_ok_spec(old(self).buffered()) ==> r is Ok
                && final(self).buffered()
                    == old(self).buffered().skip(5 + old(self).buffered()[3]),
            proto::bad_header_spec(old(self).buffered())
                ==> r == Err::<Packet, Error>(Error::InvalidPacket(proto::Error::InvalidHeader)),
            proto::bad_checksum_spec(old(self).buffered())
                ==> r == Err::<Packet, Error>(Error::InvalidPacket(proto::Error::InvalidChecksum)),
    {
        let ghost initial = self.buffer@;
        loop
            invariant
                initial == old(self).buffered(),
                initial.is_prefix_of(self.buffer@),
                self.buffer@ == initial || proto::incomplete_spec(initial),
            decreases (if self.buffer.len() >= MAX_PACKET_LEN {
                0int
            } else {
                MAX_PACKET_LEN - self.buffer.len()
            }),
        {
            let ghost prev = self.buffer@;
            match Packet::from_bytes(&mut self.buffer) {
                Ok((packet, _)) => {
                    proof {
                        let cur = self.buffer@;
                        assert(received_from(prev, initial, cur, packet));
                        assert(received_ok(initial, cur, packet));
                    }
                    return Ok(packet);
                },
                Err(proto::Error::IncompleteInput) => {},
                Err(e) => {
                    self.buffer.clear();
                    proof {
                        assert(rejected_from(prev, initial, e));
                        assert(receive_failed(initial, e));
                    }
                    return Err(Error::InvalidPacket(e));
                },
            }
            assert(self.buffer.len() < MAX_PACKET_LEN);

            let chunk = match self.stream.read_some() {
                Ok(chunk) => chunk,
                Err(e) => {
                    return Err(e);
                },
            };
            if chunk.len() == 0 {
                return Err(Error::UnexpectedEndOfStream);
            }
            let ghost start_len = self.buffer@.len();
            let mut k: usize = 0;
            while k < chunk.len()
                invariant
                    start_len < MAX_PACKET_LEN,
                    k <= chunk@.len(),
                    self.buffer@.len() == start_len + k,
                    initial.is_prefix_of(self.buffer@),
                decreases chunk@.len() - k,
            {
                self.buffer.push(chunk[k]);
                proof {
                    assert(initial =~= self.buffer@.subrange(0, initial.len() as int));
                }
                k = k + 1;
            }
        }
    }

    /// Low level method to send a packet.
    pub fn send_packet(&mut self, packet: Packet) -> (r: Result<(), Error>)
        requires
            proto::packet_wf(packet),
        ensures
            final(self).buffered() == old(self).buffered(),
            r matches Err(e) ==> e is Io,
    {
        let bytes = packet.into_bytes();
        match self.stream.write_all(&bytes) {
            Ok(()) => Ok(()),
            Err(e) => Err(e),
        }
    }

    /// Low level method to send a packet and then wait for an
    /// acknowledgement.
    ///
    /// A positive acknowledgement carries the reserved
    /// acknowledge/not-acknowledge command id and starts its payload with
    /// ASCII `A`; a reply with any other command id is an unexpected
    /// response, and one without the marker a negative acknowledgement,
    /// each carried in the error for diagnostics.
    pub fn send_packet_ack(&mut self, packet: Packet) -> (r: Result<Packet, Error>)
        requires
            proto::packet_wf(packet),
        ensures
            r matches Ok(response) ==> {
                &&& proto::packet_wf(response)
                &&& response.command == commands::ACK_NACK
                &&& response.data@.len() >= 1
                &&& response.data@[0] == ACK_MARKER
                &&& received_ok(old(self).buffered(), final(self).buffered(), response)
            },
            r matches Err(Error::UnexpectedResponse(response)) ==> {
                &&& response.command != commands::ACK_NACK
                &&& received_ok(old(self).buffered(), final(self).buffered(), response)
            },
            r matches Err(Error::Nack(response)) ==> {
                &&& response.command == commands::ACK_NACK
                &&& (response.data@.len() == 0 || response.data@[0] != ACK_MARKER)
                &&& received_ok(old(self).buffered(), final(self).buffered(), response)
            },
            r matches Err(e) ==> !(e is InvalidValue),
            r matches Err(Error::InvalidPacket(parse_error))
                ==> final(self).buffered() == Seq::<u8>::empty()
                    && receive_failed(old(self).buffered(), parse_error),
            r matches Err(e) && (e is Io || e is UnexpectedEndOfStream)
                ==> old(self).buffered().is_prefix_of(final(self).buffered()),
    {
        match self.send_packet(packet) {
            Ok(()) => {},
            Err(e) => {
                return Err(e);
            },
        }
        let response = match self.recv_packet() {
            Ok(response) => response,
            Err(e) => {
                return Err(e);
            },
        };

        if response.command != commands::ACK_NACK {
            return Err(Error::UnexpectedResponse(response));
        }

        if response.data.len() == 0 {
            return Err(Error::Nack(response));
        }
        if response.data[0] != ACK_MARKER {
            return Err(Error::Nack(response));
        }

        Ok(response)
    }
}

/// Power status of a display.
#[derive(Debug, PartialEq, Eq, Structural)]
pub enum PowerStatus {
    /// Display is powered on.
    On,
    /// Display is powered off.
    Off,
}

impl PowerStatus {
    /// Check whether the current status is [`PowerStatus::On`].
    pub fn is_on(&self) -> (r: bool)
        ensures
            r <==> *self is On,
    {
        matches!(self, PowerStatus::On)
    }

    /// Parse the status byte of an acknowledgement payload.
    /// `0x00` means on and `0x01` means off; the mapping is the reverse of
    /// [`PanelStatus`] and must not be unified with it.
    pub fn from_bytes(byte: u8) -> (r: Result<Self, InvalidValueError>)
        ensures
            byte == 0x00 ==> r == Ok::<PowerStatus, InvalidValueError>(PowerStatus::On),
            byte == 0x01 ==> r == Ok::<PowerStatus, InvalidValueError>(PowerStatus::Off),
            byte >= 0x02 ==> r is Err,
    {
        match byte {
            0x00 => Ok(Self::On),
            0x01 => Ok(Self::Off),
            _ => Err(InvalidValueError),
        }
    }
}

/// Power status of a display's panel.
#[derive(Debug, PartialEq, Eq, Structural)]
pub enum PanelStatus {
    /// Panel is turned on.
    On,
    /// Panel is turned off.
    Off,
}

impl PanelStatus {
    /// Check whether the panel is on.
    pub fn is_on(&self) -> (r: bool)
        ensures
            r <==> *self is On,
    {
        matches!(self, PanelStatus::On)
    }

    /// Parse the status byte of an acknowledgement payload.
    /// `0x00` means off and `0x01` means on; the mapping is the reverse of
    /// [`PowerStatus`] and must not be unified with it.
    pub fn from_bytes(byte: u8) -> (r: Result<Self, InvalidValueError>)
        ensures
            byte == 0x00 ==> r == Ok::<PanelStatus, InvalidValueError>(PanelStatus::Off),
            byte == 0x01 ==> r == Ok::<PanelStatus, InvalidValueError>(PanelStatus::On),
            byte >= 0x02 ==> r is Err,
    {
        match byte {
            0x00 => Ok(Self::Off),
            0x01 => Ok(Self::On),
            _ => Err(InvalidValueError),
        }
    }
}

/// Error produced by [`PanelStatus`] or [`PowerStatus`] when an
/// out-of-range status byte was received.
#[derive(Debug, PartialEq, Eq, Structural)]
pub struct InvalidValueError;

/// A high level controller that can change the state of one display or of
/// every display. Status queries are not part of this capability: they are
/// offered only where a single reply can carry the answer, on
/// [`DisplayCommandBuilder`].
pub trait DisplayControl {
    /// Turn the light panel on.
    fn set_panel_on(&mut self) -> (r: Result<(), Error>)
        ensures
            r matches Err(e) ==> !(e is InvalidValue),
    ;

    /// Turn the light panel off and blank the screen.
    fn set_panel_off(&mut self) -> (r: Result<(), Error>)
        ensures
            r matches Err(e) ==> !(e is InvalidValue),
    ;

    /// Turn the screen power on.
    fn set_power_on(&mut self) -> (r: Result<(), Error>)
        ensures
            r matches Err(e) ==> !(e is InvalidValue),
    ;

    /// Turn the screen power off.
    fn set_power_off(&mut self) -> (r: Result<(), Error>)
        ensures
            r matches Err(e) ==> !(e is InvalidValue),
    ;
}

/// Frame of the power-on command: the power-control id with payload `[1]`.
pub fn power_on_packet(display_id: u8) -> (p: Packet)
    ensures
        p.command == commands::POWER_CONTROL,
        p.display_id == display_id,
        p.data@ == seq![1u8],
        proto::packet_wf(p),
{
    let mut data: Vec<u8> = Vec::new();
    data.push(1);
    proof {
        assert(data@ =~= seq![1u8]);
    }
    Packet::new(commands::POWER_CONTROL, display_id, data)
}

/// Frame of the power-off command: the power-control id with payload `[0]`,
/// the reverse of the panel convention; the asymmetry is the device's own.
pub fn power_off_packet(display_id: u8) -> (p: Packet)
    ensures
        p.command == commands::POWER_CONTROL,
        p.display_id == display_id,
        p.data@ == seq![0u8],
        proto::packet_wf(p),
{
    let mut data: Vec<u8> = Vec::new();
    data.push(0);
    proof {
        assert(data@ =~= seq![0u8]);
    }
    Packet::new(commands::POWER_CONTROL, display_id, data)
}

/// Frame of the panel-on command: the panel-on-off id with payload `[0]`,
/// the reverse of the power convention; the asymmetry is the device's own.
pub fn panel_on_packet(display_id: u8) -> (p: Packet)
    ensures
        p.command == commands::PANEL_ON_OFF,
        p.display_id == display_id,
        p.data@ == seq![0u8],
        proto::packet_wf(p),
{
    let mut data: Vec<u8> = Vec::new();
    data.push(0);
    proof {
        assert(data@ =~= seq![0u8]);
    }
    Packet::new(commands::PANEL_ON_OFF, display_id, data)
}

/// Frame of the panel-off command: the panel-on-off id with payload `[1]`.
pub fn panel_off_packet(display_id: u8) -> (p: Packet)
    ensures
        p.command == commands::PANEL_ON_OFF,
        p.display_id == display_id,
        p.data@ == seq![1u8],
        proto::packet_wf(p),
{
    let mut data: Vec<u8> = Vec::new();
    data.push(1);
    proof {
        assert(data@ =~= seq![1u8]);
    }
    Packet::new(commands::PANEL_ON_OFF, display_id, data)
}

/// Frame of the power status query: the power-control id with an empty
/// payload.
pub fn power_query_packet(display_id: u8) -> (p: Packet)
    ensures
        p.command == commands::POWER_CONTROL,
        p.display_id == display_id,
        p.data@ == Seq::<u8>::empty(),
        proto::packet_wf(p),
{
    Packet::new(commands::POWER_CONTROL, display_id, Vec::new())
}

/// Frame of the panel status query: the panel-on-off id with an empty
/// payload.
pub fn panel_query_packet(display_id: u8) -> (p: Packet)
    ensures
        p.command == commands::PANEL_ON_OFF,
        p.display_id == display_id,
        p.data@ == Seq::<u8>::empty(),
        proto::packet_wf(p),
{
    Packet::new(commands::PANEL_ON_OFF, display_id, Vec::new())
}

/// Send and receive commands for a specific display id. Every mutating
/// command waits for the display's acknowledgement.
pub struct DisplayCommandBuilder<'a, S: MDCStream> {
    session: &'a mut MDCSession<S>,
    display_id: u8,
}

impl<S: MDCStream> DisplayControl for DisplayCommandBuilder<'_, S> {
    fn set_panel_off(&mut self) -> (r: Result<(), Error>)
        ensures
            r is Ok ==> ack_received(
                old(self).session_buffered(),
                final(self).session_buffered(),
            ),
    {
        let ghost before = self.session.buffered();
        match self.session.send_packet_ack(panel_off_packet(self.display_id)) {
            Ok(response) => {
                proof {
                    let cur = self.session.buffered();
                    assert(received_ok(before, cur, response)
                        && response.command == commands::ACK_NACK
                        && response.data@.len() >= 1
                        && response.data@[0] == ACK_MARKER);
                    assert(ack_received(before, cur));
                }
                Ok(())
            },
            Err(e) => Err(e),
        }
    }

    fn set_panel_on(&mut self) -> (r: Result<(), Error>)
        ensures
            r is Ok ==> ack_received(
                old(self).session_buffered(),
                final(self).session_buffered(),
            ),
    {
        let ghost before = self.session.buffered();
        match self.session.send_packet_ack(panel_on_packet(self.display_id)) {
            Ok(response) => {
                proof {
                    let cur = self.session.buffered();
                    assert(received_ok(before, cur, response)
                        && response.command == commands::ACK_NACK
                        && response.data@.len() >= 1
                        && response.data@[0] == ACK_MARKER);
                    assert(ack_received(before, cur));
                }
                Ok(())
            },
            Err(e) => Err(e),
        }
    }

    fn set_power_off(&mut self) -> (r: Result<(), Error>)
        ensures
            r is Ok ==> ack_received(
                old(self).session_buffered(),
                final(self).session_buffered(),
            ),
    {
        let ghost before = self.session.buffered();
        match self.session.send_packet_ack(power_off_packet(self.display_id)) {
            Ok(response) => {
                proof {
                    let cur = self.session.buffered();
                    assert(received_ok(before, cur, response)
                        && response.command == commands::ACK_NACK
                        && response.data@.len() >= 1
                        && response.data@[0] == ACK_MARKER);
                    assert(ack_received(before, cur));
                }
                Ok(())
            },
            Err(e) => Err(e),
        }
    }

    fn set_power_on(&mut self) -> (r: Result<(), Error>)
        ensures
            r is Ok ==> ack_received(
                old(self).session_buffered(),
                final(self).session_buffered(),
            ),
    {
        let ghost before = self.session.buffered();
        match self.session.send_packet_ack(power_on_packet(self.display_id)) {
            Ok(response) => {
                proof {
                    let cur = self.session.buffered();
                    assert(received_ok(before, cur, response)
                        && response.command == commands::ACK_NACK
                        && response.data@.len() >= 1
                        && response.data@[0] == ACK_MARKER);
                    assert(ack_received(before, cur));
                }
                Ok(())
            },
            Err(e) => Err(e),
        }
    }
}

impl<S: MDCStream> DisplayCommandBuilder<'_, S> {
    /// The display id every frame this builder sends is addressed to.
    pub closed spec fn spec_display_id(&self) -> u8 {
        self.display_id
    }

    /// Bytes buffered but not yet consumed on the underlying session.
    pub closed spec fn session_buffered(&self) -> Seq<u8> {
        self.session.buffered()
    }

    /// Get the panel status of the display.
    ///
    /// The status byte sits at payload offset 2 of the acknowledgement:
    /// offsets 0 and 1 are reserved fields preceding the value. Its meaning
    /// is pinned by [`PanelStatus::from_bytes`].
    pub fn get_panel_status(&mut self) -> (r: Result<PanelStatus, Error>)
        ensures
            r matches Ok(status) ==> panel_query_ok(
                old(self).session_buffered(),
                final(self).session_buffered(),
                status,
            ),
            r == Err::<PanelStatus, Error>(Error::InvalidPacket(proto::Error::IncompleteInput))
                ==> query_reply_short(
                    old(self).session_buffered(),
                    final(self).session_buffered(),
                ),
            r matches Err(Error::InvalidValue(_)) ==> query_reply_invalid(
                old(self).session_buffered(),
                final(self).session_buffered(),
            ),
            r matches Err(Error::UnexpectedResponse(response))
                ==> response.command != commands::ACK_NACK,
            r matches Err(Error::Nack(response))
                ==> response.command == commands::ACK_NACK,
    {
        let ghost before = self.session.buffered();
        let response = match self.session.send_packet_ack(panel_query_packet(self.display_id)) {
            Ok(response) => response,
            Err(e) => {
                return Err(e);
            },
        };
        if response.data.len() < 3 {
            proof {
                let cur = self.session.buffered();
                assert(received_ok(before, cur, response) && response.data@.len() < 3);
                assert(query_reply_short(before, cur));
            }
            return Err(Error::InvalidPacket(proto::Error::IncompleteInput));
        }
        let value = response.data[2];
        match PanelStatus::from_bytes(value) {
            Ok(status) => {
                proof {
                    let cur = self.session.buffered();
                    assert(received_ok(before, cur, response) && response.data@.len() >= 3
                        && response.data@[2] <= 1 && (status is On <==> response.data@[2] == 0x01));
                    assert(panel_query_ok(before, cur, status));
                }
                Ok(status)
            },
            Err(e) => {
                proof {
                    let cur = self.session.buffered();
                    assert(received_ok(before, cur, response) && response.data@.len() >= 3
                        && response.data@[2] >= 2);
                    assert(query_reply_invalid(before, cur));
                }
                Err(Error::InvalidValue(e))
            },
        }
    }

    /// Get the power status of the display.
    ///
    /// The status byte sits at payload offset 2 of the acknowledgement:
    /// offsets 0 and 1 are reserved fields preceding the value. Its meaning
    /// is pinned by [`PowerStatus::from_bytes`].
    pub fn get_power_status(&mut self) -> (r: Result<PowerStatus, Error>)
        ensures
            r matches Ok(status) ==> power_query_ok(
                old(self).session_buffered(),
                final(self).session_buffered(),
                status,
            ),
            r == Err::<PowerStatus, Error>(Error::InvalidPacket(proto::Error::IncompleteInput))
                ==> query_reply_short(
                    old(self).session_buffered(),
                    final(self).session_buffered(),
                ),
            r matches Err(Error::InvalidValue(_)) ==> query_reply_invalid(
                old(self).session_buffered(),
                final(self).session_buffered(),
            ),
            r matches Err(Error::UnexpectedResponse(response))
                ==> response.command != commands::ACK_NACK,
            r matches Err(Error::Nack(response))
                ==> response.command == commands::ACK_NACK,
    {
        let ghost before = self.session.buffered();
        let response = match self.session.send_packet_ack(power_query_packet(self.display_id)) {
            Ok(response) => response,
            Err(e) => {
                return Err(e);
            },
        };
        if response.data.len() < 3 {
            proof {
                let cur = self.session.buffered();
                assert(received_ok(before, cur, response) && response.data@.len() < 3);
                assert(query_reply_short(before, cur));
            }
            return Err(Error::InvalidPacket(proto::Error::IncompleteInput));
        }
        let value = response.data[2];
        match PowerStatus::from_bytes(value) {
            Ok(status) => {
                proof {
                    let cur = self.session.buffered();
                    assert(received_ok(before, cur, response) && response.data@.len() >= 3
                        && response.data@[2] <= 1 && (status is On <==> response.data@[2] == 0x00));
                    assert(power_query_ok(before, cur, status));
                }
                Ok(status)
            },
            Err(e) => {
                proof {
                    let cur = self.session.buffered();
                    assert(received_ok(before, cur, response) && response.data@.len() >= 3
                        && response.data@[2] >= 2);
                    assert(query_reply_invalid(before, cur));
                }
                Err(Error::InvalidValue(e))
            },
        }
    }
}

/// Send commands to every display reachable over the session. No reply is
/// awaited: each device would answer on its own, and a single reply cannot
/// represent that; for the same reason this variant offers no status query.
pub struct BroadcastCommandBuilder<'a, S: MDCStream> {
    session: &'a mut MDCSession<S>,
}

impl<S: MDCStream> BroadcastCommandBuilder<'_, S> {
    /// Bytes buffered but not yet consumed on the underlying session.
    pub closed spec fn session_buffered(&self) -> Seq<u8> {
        self.session.buffered()
    }
}

impl<S: MDCStream> DisplayControl for BroadcastCommandBuilder<'_, S> {
    fn set_panel_off(&mut self) -> (r: Result<(), Error>)
        ensures
            final(self).session_buffered() == old(self).session_buffered(),
            r matches Err(e) ==> e is Io,
    {
        self.session.send_packet(panel_off_packet(commands::DISPLAY_BROADCAST))
    }

    fn set_panel_on(&mut self) -> (r: Result<(), Error>)
        ensures
            final(self).session_buffered() == old(self).session_buffered(),
            r matches Err(e) ==> e is Io,
    {
        self.session.send_packet(panel_on_packet(commands::DISPLAY_BROADCAST))
    }

    fn set_power_off(&mut self) -> (r: Result<(), Error>)
        ensures
            final(self).session_buffered() == old(self).session_buffered(),
            r matches Err(e) ==> e is Io,
    {
        self.session.send_packet(power_off_packet(commands::DISPLAY_BROADCAST))
    }

    fn set_power_on(&mut self) -> (r: Result<(), Error>)
        ensures
            final(self).session_buffered() == old(self).session_buffered(),
            r matches Err(e) ==> e is Io,
    {
        self.session.send_packet(power_on_packet(commands::DISPLAY_BROADCAST))
    }
}

} // verus!
