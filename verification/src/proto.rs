//! Structures and methods to create and parse packets.

use vstd::prelude::*;

verus! {

/// First byte of every packet on the wire.
pub const HEADER: u8 = 0xAA;

/// A packet sent over an MDC connection.
/// It carries commands to a display and responses coming back.
#[derive(Debug, PartialEq)]
pub struct Packet {
    /// Command id to perform (see [crate::commands] for the known ids).
    pub command: u8,
    /// Display id to send the command to
    /// (or [crate::commands::DISPLAY_BROADCAST] for a broadcast).
    pub display_id: u8,
    /// Data and arguments associated to this command.
    pub data: Vec<u8>,
}

/// Sum of the byte values of a sequence, as an unbounded integer.
pub open spec fn sum_bytes(s: Seq<u8>) -> int
    decreases s.len(),
{
    if s.len() == 0 {
        0
    } else {
        sum_bytes(s.drop_last()) + s.last()
    }
}

/// The checksum of a packet: the low 8 bits of
/// command + display id + payload length + payload bytes.
pub open spec fn checksum_spec(command: u8, display_id: u8, data: Seq<u8>) -> u8 {
    ((command + display_id + data.len() + sum_bytes(data)) % 256) as u8
}

/// A packet can carry at most 255 payload bytes, since the wire format
/// stores the payload length in a single byte.
pub open spec fn packet_wf(p: Packet) -> bool {
    p.data@.len() <= 255
}

proof fn lemma_sum_bytes_bounds(s: Seq<u8>)
    ensures
        0 <= sum_bytes(s) <= 255 * s.len(),
    decreases s.len(),
{
    if s.len() > 0 {
        lemma_sum_bytes_bounds(s.drop_last());
    }
}

/// Running total of `command + display_id + len + payload`, truncated to a byte.
fn compute_checksum(command: u8, display_id: u8, data: &Vec<u8>) -> (r: u8)
    requires
        data@.len() <= 255,
    ensures
        r == checksum_spec(command, display_id, data@),
{
    let mut total: u32 = command as u32 + display_id as u32 + data.len() as u32;
    let mut i: usize = 0;
    while i < data.len()
        invariant
            i <= data@.len() <= 255,
            total == command + display_id + data@.len() + sum_bytes(data@.take(i as int)),
        decreases data@.len() - i,
    {
        proof {
            lemma_sum_bytes_bounds(data@.take(i as int));
            assert(data@.take(i as int + 1).drop_last() =~= data@.take(i as int));
        }
        total = total + data[i] as u32;
        i = i + 1;
    }
    proof {
        assert(data@.take(data@.len() as int) =~= data@);
    }
    (total % 256) as u8
}

/// The wire form of a packet: header byte, command, display id,
/// payload length, payload bytes, checksum byte.
pub open spec fn encode_spec(command: u8, display_id: u8, data: Seq<u8>) -> Seq<u8> {
    seq![HEADER, command, display_id, data.len() as u8] + data
        + seq![checksum_spec(command, display_id, data)]
}

/// The buffer holds the whole packet announced by its length byte:
/// header, command, display id, length, payload and checksum.
pub open spec fn complete_spec(b: Seq<u8>) -> bool {
    b.len() >= 4 && b.len() >= 5 + b[3]
}

/// The payload bytes announced by the length byte of a complete buffer.
pub open spec fn payload_spec(b: Seq<u8>) -> Seq<u8>
    recommends
        complete_spec(b),
{
    b.subrange(4, 4 + b[3] as int)
}

/// The buffer is a (possibly empty) prefix of a packet: more bytes are
/// needed before a packet can be extracted or rejected.
pub open spec fn incomplete_spec(b: Seq<u8>) -> bool {
    b.len() == 0 || (b[0] == HEADER && !complete_spec(b))
}

/// The buffer starts with something other than the fixed header byte.
pub open spec fn bad_header_spec(b: Seq<u8>) -> bool {
    b.len() >= 1 && b[0] != HEADER
}

/// The buffer holds a whole packet whose trailing checksum byte does not
/// match the checksum computed over its contents.
pub open spec fn bad_checksum_spec(b: Seq<u8>) -> bool {
    b.len() >= 1 && b[0] == HEADER && complete_spec(b)
        && b[4 + b[3] as int] != checksum_spec(b[1], b[2], payload_spec(b))
}

/// One packet can be extracted from the front of the buffer: the header
/// is present, the announced length is covered, and the checksum matches.
pub open spec fn parse_ok_spec(b: Seq<u8>) -> bool {
    b.len() >= 1 && b[0] == HEADER && complete_spec(b)
        && b[4 + b[3] as int] == checksum_spec(b[1], b[2], payload_spec(b))
}

/// Round trip: the wire form of any packet with a payload of at most 255
/// bytes parses successfully, yields back the original command, display id
/// and payload, and announces exactly `4 + payload length + 1` bytes, so a
/// parse of the encoding consumes it entirely.
pub proof fn lemma_encode_decode_round_trip(command: u8, display_id: u8, data: Seq<u8>)
    requires
        data.len() <= 255,
    ensures
        parse_ok_spec(encode_spec(command, display_id, data)),
        encode_spec(command, display_id, data).len() == 5 + data.len(),
        encode_spec(command, display_id, data)[1] == command,
        encode_spec(command, display_id, data)[2] == display_id,
        encode_spec(command, display_id, data)[3] == data.len() as u8,
        payload_spec(encode_spec(command, display_id, data)) == data,
{
    let b = encode_spec(command, display_id, data);
    assert(payload_spec(b) =~= data);
}

/// Every buffer falls under exactly one parse outcome: success, incomplete
/// input, bad header, or bad checksum. An incomplete input is therefore
/// always distinguishable from a header or checksum failure, so a caller
/// can retry with more bytes in the one case and resynchronize in the
/// others.
pub proof fn lemma_parse_outcomes_distinct(b: Seq<u8>)
    ensures
        parse_ok_spec(b) || incomplete_spec(b) || bad_header_spec(b) || bad_checksum_spec(b),
        !(incomplete_spec(b) && bad_header_spec(b)),
        !(incomplete_spec(b) && bad_checksum_spec(b)),
        !(bad_header_spec(b) && bad_checksum_spec(b)),
        parse_ok_spec(b)
            ==> !incomplete_spec(b) && !bad_header_spec(b) && !bad_checksum_spec(b),
{
}

/// Error that can occur during packet parsing.
#[derive(Debug, PartialEq, Eq, Structural)]
pub enum Error {
    /// The packet does not start with the fixed header byte.
    InvalidHeader,
    /// The input buffer does not yet contain a full packet;
    /// the caller should append more bytes and retry.
    IncompleteInput,
    /// The received checksum does not match the computed one,
    /// which can mean a corrupted packet.
    InvalidChecksum,
}

impl Packet {
    /// Create a new packet with the provided data.
    pub fn new(command: u8, display_id: u8, data: Vec<u8>) -> (r: Self)
        requires
            data@.len() <= 255,
        ensures
            r.command == command,
            r.display_id == display_id,
            r.data@ == data@,
            packet_wf(r),
    {
        Self { command, display_id, data }
    }

    /// Compute this packet's checksum.
    pub fn checksum(&self) -> (r: u8)
        requires
            packet_wf(*self),
        ensures
            r == checksum_spec(self.command, self.display_id, self.data@),
    {
        compute_checksum(self.command, self.display_id, &self.data)
    }

    /// Convert this packet into bytes ready to be sent.
    /// The packet is consumed: its payload becomes part of the wire bytes.
    pub fn into_bytes(self) -> (r: Vec<u8>)
        requires
            packet_wf(self),
        ensures
            r@ == encode_spec(self.command, self.display_id, self.data@),
    {
        let checksum = self.checksum();
        let Packet { command, display_id, mut data } = self;
        let mut bytes: Vec<u8> = Vec::with_capacity(4 + data.len() + 1);
        bytes.push(HEADER);
        bytes.push(command);
        bytes.push(display_id);
        bytes.push(data.len() as u8);
        bytes.append(&mut data);
        bytes.push(checksum);
        proof {
            assert(bytes@ =~= encode_spec(self.command, self.display_id, self.data@));
        }
        bytes
    }

    /// Parse a packet from the front of the buffer, removing the bytes of
    /// the parsed packet from the buffer.
    ///
    /// Returns the packet and the number of bytes removed from the buffer.
    /// In case of error, the buffer is not modified: the caller can append
    /// more bytes after an incomplete input, or discard the buffer after a
    /// header or checksum failure.
    #[verifier::loop_isolation(false)]
    pub fn from_bytes(input: &mut Vec<u8>) -> (r: Result<(Self, usize), Error>)
        ensures
            r is Ok <==> parse_ok_spec(old(input)@),
            r matches Ok((packet, consumed)) ==> {
                &&& packet.command == old(input)@[1]
                &&& packet.display_id == old(input)@[2]
                &&& packet.data@ == payload_spec(old(input)@)
                &&& packet_wf(packet)
                &&& consumed == 5 + old(input)@[3]
                &&& final(input)@ == old(input)@.skip(consumed as int)
            },
            r matches Err(e) ==> {
                &&& final(input)@ == old(input)@
                &&& (e == Error::IncompleteInput <==> incomplete_spec(old(input)@))
                &&& (e == Error::InvalidHeader <==> bad_header_spec(old(input)@))
                &&& (e == Error::InvalidChecksum <==> bad_checksum_spec(old(input)@))
            },
    {
        if input.len() == 0 {
            return Err(Error::IncompleteInput);
        }
        if input[0] != HEADER {
            return Err(Error::InvalidHeader);
        }
        if input.len() < 4 {
            return Err(Error::IncompleteInput);
        }
        let command = input[1];
        let display_id = input[2];
        let data_length = input[3] as usize;
        if input.len() < 4 + data_length + 1 {
            return Err(Error::IncompleteInput);
        }

        let mut data: Vec<u8> = Vec::with_capacity(data_length);
        let mut i: usize = 0;
        while i < data_length
            invariant
                i <= data_length,
                data@ =~= input@.subrange(4, 4 + i as int),
            decreases data_length - i,
        {
            data.push(input[4 + i]);
            i = i + 1;
        }

        let checksum = compute_checksum(command, display_id, &data);
        let given_checksum = input[4 + data_length];
        if checksum != given_checksum {
            return Err(Error::InvalidChecksum);
        }

        let bytes_read = 4 + data_length + 1;
        let mut rest: Vec<u8> = Vec::with_capacity(input.len() - bytes_read);
        let mut j: usize = bytes_read;
        while j < input.len()
            invariant
                bytes_read <= j <= input@.len(),
                rest@ =~= input@.subrange(bytes_read as int, j as int),
            decreases input@.len() - j,
        {
            rest.push(input[j]);
            j = j + 1;
        }
        proof {
            assert(rest@ =~= input@.skip(bytes_read as int));
        }
        *input = rest;

        Ok((Self { command, display_id, data }, bytes_read))
    }
}

} // verus!
