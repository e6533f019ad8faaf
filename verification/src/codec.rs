//! The packet framing codec.
//!
//! A frame on the wire is `[type, length, payload(length), crc_lo, crc_hi]`,
//! where `length` is at most [`MAX_DATA_LEN`] and the 16-bit CRC is computed
//! over `type, length, payload` and carried little-endian. [`Packet`] is the
//! decoded form; [`PacketCodec`] writes packets to and reads them from an
//! in-memory [`ByteStream`], which stands for the serial transport: whatever
//! owns the real port feeds received bytes into the stream and carries the
//! written bytes out.

use vstd::prelude::*;

use crate::crc::{crc16, crc16_table_driven};

verus! {

/// The protocol's maximum payload length in bytes.
pub const MAX_DATA_LEN: usize = 22;

/// Why reading a packet from the stream failed.
#[derive(Debug, Clone, Copy, PartialEq, Eq, Structural)]
#[non_exhaustive]
pub enum ReadPacketError {
    /// The stream ended before a whole frame was available.
    Io,
    /// The declared payload length exceeds [`MAX_DATA_LEN`]: the stream is
    /// malformed or out of alignment.
    InvalidPacket,
}

/// Why writing a packet to the stream failed.
#[derive(Debug, Clone, Copy, PartialEq, Eq, Structural)]
pub enum WritePacketError {
    /// The underlying transport failed. The in-memory stream never fails,
    /// so this arises only for transports layered above it.
    Io,
    /// The packet's payload exceeds [`MAX_DATA_LEN`].
    InvalidLength,
}

/// A decoded frame: a type byte, up to [`MAX_DATA_LEN`] payload bytes, and
/// a 16-bit CRC. A freshly constructed packet carries a CRC computed from
/// its contents (`trusted_crc`); a packet read from the wire carries the
/// received CRC until [`Packet::check_crc`] compares it with a recomputed
/// one.
#[derive(Debug)]
pub struct Packet {
    packet_type: u8,
    data: Vec<u8>,
    crc: u16,
    trusted_crc: bool,
}

/// The mathematical image of a [`Packet`].
#[verifier::ext_equal]
pub ghost struct PacketView {
    pub packet_type: u8,
    pub data: Seq<u8>,
    pub crc: u16,
    pub trusted_crc: bool,
}

impl View for Packet {
    type V = PacketView;

    closed spec fn view(&self) -> PacketView {
        PacketView {
            packet_type: self.packet_type,
            data: self.data@,
            crc: self.crc,
            trusted_crc: self.trusted_crc,
        }
    }
}

impl PacketView {
    /// Every packet the library hands out satisfies this bound.
    pub open spec fn wf(self) -> bool {
        self.data.len() <= MAX_DATA_LEN
    }

    /// The byte sequence the CRC is computed over: type, length, payload.
    pub open spec fn crc_input(self) -> Seq<u8> {
        seq![self.packet_type, self.data.len() as u8] + self.data
    }

    /// The CRC emitted on the wire: the cached one when it is trusted,
    /// otherwise one freshly computed from the contents.
    pub open spec fn wire_crc(self) -> u16 {
        if self.trusted_crc {
            self.crc
        } else {
            crc16(self.crc_input())
        }
    }

    /// The complete wire encoding of the packet.
    pub open spec fn encoded(self) -> Seq<u8> {
        self.crc_input() + seq![(self.wire_crc() & 0xff) as u8, (self.wire_crc() >> 8) as u8]
    }
}

impl Packet {
    /// Holds of every packet that exists: the payload fits a frame, and a
    /// trusted cached CRC really is the CRC of the contents — so the CRC a
    /// packet emits is always correct for the bytes it emits.
    #[verifier::type_invariant]
    pub(crate) open spec fn type_inv(self) -> bool {
        self@.wf() && (self@.trusted_crc ==> self@.crc == crc16(self@.crc_input()))
    }

    /// Builds a packet to send: the payload is copied and the CRC computed
    /// at once, so the cached CRC is trusted.
    pub fn new(packet_type: u8, data: &[u8]) -> (p: Packet)
        requires
            data@.len() <= MAX_DATA_LEN,
        ensures
            p@.packet_type == packet_type,
            p@.data == data@,
            p@.trusted_crc,
            p@.crc == crc16(p@.crc_input()),
            p@.wf(),
    {
        let mut data_vec: Vec<u8> = Vec::new();
        data_vec.extend_from_slice(data);
        let mut p = Packet { packet_type, data: data_vec, crc: 0, trusted_crc: false };
        p.set_crc();
        p
    }

    /// The frame's type byte (class in bits 7..6, code in bits 5..0).
    pub fn packet_type(&self) -> (t: u8)
        ensures
            t == self@.packet_type,
    {
        self.packet_type
    }

    /// The frame's payload.
    pub fn data(&self) -> (d: &[u8])
        ensures
            d@ == self@.data,
    {
        self.data.as_slice()
    }

    /// The byte sequence used to calculate the CRC.
    ///
    /// Exposed as a convenience for other CRC algorithm implementations.
    pub fn crc_bytes(&self) -> (b: Vec<u8>)
        ensures
            b@ == self@.crc_input(),
    {
        proof {
            use_type_invariant(&*self);
        }
        let mut b: Vec<u8> = Vec::new();
        b.push(self.packet_type);
        b.push(self.data.len() as u8);
        b.extend_from_slice(self.data.as_slice());
        proof {
            assert(b@ =~= self@.crc_input());
        }
        b
    }

    /// Calculates the CRC for the packet's current contents.
    pub fn calculate_crc(&self) -> (c: u16)
        ensures
            c == crc16(self@.crc_input()),
    {
        let bytes = self.crc_bytes();
        crc16_table_driven(bytes.as_slice())
    }

    /// Sets the cached CRC from the current contents and marks it trusted.
    pub fn set_crc(&mut self)
        ensures
            final(self)@.packet_type == old(self)@.packet_type,
            final(self)@.data == old(self)@.data,
            final(self)@.crc == crc16(final(self)@.crc_input()),
            final(self)@.trusted_crc,
    {
        proof {
            use_type_invariant(&*self);
        }
        let c = self.calculate_crc();
        self.crc = c;
        self.trusted_crc = true;
    }

    /// The CRC that would be emitted on the wire: the cached one when it is
    /// trusted, a freshly computed one otherwise.
    pub fn crc(&self) -> (c: u16)
        ensures
            c == self@.wire_crc(),
            c == crc16(self@.crc_input()),
    {
        proof {
            use_type_invariant(&*self);
        }
        if self.trusted_crc {
            self.crc
        } else {
            self.calculate_crc()
        }
    }

    /// Compares the packet's stored (received) CRC with one calculated from
    /// its data, returning `true` if they are equal.
    pub fn check_crc(&self) -> (r: bool)
        ensures
            r == (crc16(self@.crc_input()) == self@.crc),
    {
        let c = self.calculate_crc();
        c == self.crc
    }
}

/// A clone is the same packet: same type byte, payload and CRC state.
impl Clone for Packet {
    fn clone(&self) -> (r: Packet)
        ensures
            r@ == self@,
    {
        proof {
            use_type_invariant(&*self);
        }
        let mut data: Vec<u8> = Vec::new();
        data.extend_from_slice(self.data.as_slice());
        proof {
            assert(data@ =~= self.data@);
        }
        Packet {
            packet_type: self.packet_type,
            data,
            crc: self.crc,
            trusted_crc: self.trusted_crc,
        }
    }
}

/// Packet identity is `(type, payload)`: the CRC is transport metadata, not
/// part of what a packet says.
impl PartialEq for Packet {
    fn eq(&self, other: &Packet) -> (r: bool) {
        if self.packet_type != other.packet_type {
            return false;
        }
        if self.data.len() != other.data.len() {
            return false;
        }
        let mut i: usize = 0;
        while i < self.data.len()
            invariant
                i <= self.data@.len(),
                self.data@.len() == other.data@.len(),
                forall|j: int| 0 <= j < i ==> self.data@[j] == other.data@[j],
            decreases self.data@.len() - i,
        {
            if self.data[i] != other.data[i] {
                return false;
            }
            i = i + 1;
        }
        proof {
            assert(self.data@ =~= other.data@);
        }
        true
    }
}

impl vstd::std_specs::cmp::PartialEqSpecImpl for Packet {
    open spec fn obeys_eq_spec() -> bool {
        true
    }

    open spec fn eq_spec(&self, other: &Packet) -> bool {
        self@.packet_type == other@.packet_type && self@.data == other@.data
    }
}

/// What one attempt to take a frame off the front of a byte sequence yields.
pub ghost enum ParseResult {
    /// Fewer bytes than a whole frame: nothing can be consumed yet.
    NeedMore,
    /// The declared length byte exceeds [`MAX_DATA_LEN`]: the stream is not
    /// frame-aligned.
    TooLong,
    /// A whole frame, and how many bytes of the sequence it occupies.
    Frame { packet_type: u8, data: Seq<u8>, crc: u16, used: int },
}

/// Parses the frame at the front of `s`: type byte, length byte (rejected
/// beyond [`MAX_DATA_LEN`] before anything else is read), payload, then the
/// CRC in little-endian order.
pub open spec fn spec_parse(s: Seq<u8>) -> ParseResult {
    if s.len() < 2 {
        ParseResult::NeedMore
    } else if s[1] as int > MAX_DATA_LEN as int {
        ParseResult::TooLong
    } else if s.len() < 4 + s[1] as int {
        ParseResult::NeedMore
    } else {
        ParseResult::Frame {
            packet_type: s[0],
            data: s.subrange(2, 2 + s[1] as int),
            crc: (s[2 + s[1] as int] as u16) | ((s[3 + s[1] as int] as u16) << 8),
            used: 4 + s[1] as int,
        }
    }
}

/// The in-memory stand-in for the serial transport: bytes that arrived and
/// wait to be decoded (`input`, already consumed up to `pos`), and encoded
/// bytes waiting to be carried to the device (`output`).
pub struct ByteStream {
    input: Vec<u8>,
    pos: usize,
    output: Vec<u8>,
}

/// The mathematical image of a [`ByteStream`].
#[verifier::ext_equal]
pub ghost struct ByteStreamView {
    pub input: Seq<u8>,
    pub pos: int,
    pub output: Seq<u8>,
}

impl View for ByteStream {
    type V = ByteStreamView;

    closed spec fn view(&self) -> ByteStreamView {
        ByteStreamView { input: self.input@, pos: self.pos as int, output: self.output@ }
    }
}

impl ByteStreamView {
    pub open spec fn wf(self) -> bool {
        0 <= self.pos <= self.input.len()
    }

    /// The received bytes not yet consumed.
    pub open spec fn avail(self) -> Seq<u8> {
        self.input.skip(self.pos)
    }
}

impl ByteStream {
    /// An empty stream: nothing received, nothing written.
    pub fn new() -> (s: ByteStream)
        ensures
            s@.input == Seq::<u8>::empty(),
            s@.pos == 0,
            s@.output == Seq::<u8>::empty(),
            s@.wf(),
    {
        ByteStream { input: Vec::new(), pos: 0, output: Vec::new() }
    }

    /// Appends bytes that arrived from the transport.
    pub fn feed(&mut self, bytes: &[u8])
        requires
            old(self)@.wf(),
        ensures
            final(self)@.input == old(self)@.input + bytes@,
            final(self)@.pos == old(self)@.pos,
            final(self)@.output == old(self)@.output,
            final(self)@.wf(),
    {
        self.input.extend_from_slice(bytes);
    }

    /// Hands out everything written so far and leaves the output empty.
    pub fn take_output(&mut self) -> (out: Vec<u8>)
        ensures
            out@ == old(self)@.output,
            final(self)@.output == Seq::<u8>::empty(),
            final(self)@.input == old(self)@.input,
            final(self)@.pos == old(self)@.pos,
    {
        let out = self.output.split_off(0);
        proof {
            assert(out@ =~= old(self)@.output);
            assert(self.output@ =~= Seq::<u8>::empty());
        }
        out
    }

    /// How many received bytes wait to be decoded.
    pub fn bytes_to_read(&self) -> (n: usize)
        requires
            self@.wf(),
        ensures
            n == self@.avail().len(),
    {
        self.input.len() - self.pos
    }
}

/// Reads and writes whole frames against a byte transport. It holds no
/// cross-call frame state: each call works on the bytes alone.
pub struct PacketCodec<T> {
    inner: T,
}

impl<T> PacketCodec<T> {
    /// The transport the codec drives.
    pub closed spec fn spec_inner(&self) -> T {
        self.inner
    }

    pub fn new(inner: T) -> (c: PacketCodec<T>)
        ensures
            c.spec_inner() == inner,
    {
        PacketCodec { inner }
    }

    pub fn into_inner(self) -> (r: T)
        ensures
            r == self.spec_inner(),
    {
        self.inner
    }
}

impl PacketCodec<ByteStream> {
    /// Appends bytes that arrived from the transport.
    pub fn feed(&mut self, bytes: &[u8])
        requires
            old(self).spec_inner()@.wf(),
        ensures
            final(self).spec_inner()@.input == old(self).spec_inner()@.input + bytes@,
            final(self).spec_inner()@.pos == old(self).spec_inner()@.pos,
            final(self).spec_inner()@.output == old(self).spec_inner()@.output,
            final(self).spec_inner()@.wf(),
    {
        self.inner.feed(bytes);
    }

    /// Hands out everything written so far and leaves the output empty.
    pub fn take_output(&mut self) -> (out: Vec<u8>)
        ensures
            out@ == old(self).spec_inner()@.output,
            final(self).spec_inner()@.output == Seq::<u8>::empty(),
            final(self).spec_inner()@.input == old(self).spec_inner()@.input,
            final(self).spec_inner()@.pos == old(self).spec_inner()@.pos,
    {
        self.inner.take_output()
    }

    /// How many received bytes wait to be decoded.
    pub fn bytes_to_read(&self) -> (n: usize)
        requires
            self.spec_inner()@.wf(),
        ensures
            n == self.spec_inner()@.avail().len(),
    {
        self.inner.bytes_to_read()
    }

    /// Takes the frame at the front of the stream.
    ///
    /// Succeeds exactly when [`spec_parse`] finds a whole frame in the
    /// unconsumed bytes, and consumes exactly that frame. A malformed
    /// length yields [`ReadPacketError::InvalidPacket`] with exactly the
    /// two header bytes (type and length) consumed and nothing of the
    /// claimed payload or CRC read; a truncated stream yields
    /// [`ReadPacketError::Io`] and consumes nothing, so that the caller can
    /// feed more bytes and try again.
    pub fn read_packet(&mut self) -> (r: Result<Packet, ReadPacketError>)
        requires
            old(self).spec_inner()@.wf(),
        ensures
            final(self).spec_inner()@.wf(),
            final(self).spec_inner()@.input == old(self).spec_inner()@.input,
            final(self).spec_inner()@.output == old(self).spec_inner()@.output,
            (match spec_parse(old(self).spec_inner()@.avail()) {
                ParseResult::NeedMore => r == Err::<Packet, ReadPacketError>(ReadPacketError::Io)
                    && final(self).spec_inner()@.pos == old(self).spec_inner()@.pos,
                ParseResult::TooLong => r == Err::<Packet, ReadPacketError>(
                    ReadPacketError::InvalidPacket,
                ) && final(self).spec_inner()@.pos == old(self).spec_inner()@.pos + 2,
                ParseResult::Frame { packet_type, data, crc, used } => {
                    &&& r is Ok
                    &&& r->Ok_0@.packet_type == packet_type
                    &&& r->Ok_0@.data == data
                    &&& r->Ok_0@.crc == crc
                    &&& !r->Ok_0@.trusted_crc
                    &&& r->Ok_0@.wf()
                    &&& final(self).spec_inner()@.pos == old(self).spec_inner()@.pos + used
                },
            }),
    {
        let base = self.inner.pos;
        let remaining = self.inner.input.len() - base;
        if remaining < 2 {
            return Err(ReadPacketError::Io);
        }
        let packet_type = self.inner.input[base];
        let len_byte = self.inner.input[base + 1];
        if len_byte as usize > MAX_DATA_LEN {
            self.inner.pos = base + 2;
            return Err(ReadPacketError::InvalidPacket);
        }
        let dl = len_byte as usize;
        if remaining < 4 + dl {
            return Err(ReadPacketError::Io);
        }
        let end: usize = base + 4 + dl;
        let mut data: Vec<u8> = Vec::new();
        let mut i: usize = 0;
        while i < dl
            invariant
                i <= dl,
                end == base + 4 + dl,
                end <= self.inner.input@.len(),
                data@.len() == i,
                forall|j: int| 0 <= j < i ==> data@[j] == self.inner.input@[base + 2 + j],
            decreases dl - i,
        {
            let b = self.inner.input[base + 2 + i];
            data.push(b);
            i = i + 1;
        }
        let crc_lo = self.inner.input[base + 2 + dl];
        let crc_hi = self.inner.input[base + 3 + dl];
        let crc = (crc_lo as u16) | ((crc_hi as u16) << 8);
        self.inner.pos = base + 4 + dl;
        let p = Packet { packet_type, data, crc, trusted_crc: false };
        proof {
            let avail = old(self).spec_inner()@.avail();
            assert(avail =~= self.inner.input@.subrange(base as int, self.inner.input@.len() as int));
            assert(p@.data =~= avail.subrange(2, 2 + avail[1] as int));
        }
        Ok(p)
    }

    /// Appends the packet's wire encoding to the stream's output.
    ///
    /// Rejects a payload beyond [`MAX_DATA_LEN`] (unreachable for packets
    /// this library constructs) and emits a CRC that is correct for the
    /// emitted bytes: the cached CRC when trusted, a recomputed one
    /// otherwise.
    pub fn write_packet(&mut self, packet: &Packet) -> (r: Result<(), WritePacketError>)
        requires
            old(self).spec_inner()@.wf(),
        ensures
            final(self).spec_inner()@.wf(),
            final(self).spec_inner()@.input == old(self).spec_inner()@.input,
            final(self).spec_inner()@.pos == old(self).spec_inner()@.pos,
            if packet@.wf() {
                r == Ok::<(), WritePacketError>(()) && final(self).spec_inner()@.output
                    == old(self).spec_inner()@.output + packet@.encoded()
            } else {
                r == Err::<(), WritePacketError>(WritePacketError::InvalidLength)
                    && final(self).spec_inner()@.output == old(self).spec_inner()@.output
            },
    {
        proof {
            use_type_invariant(&*packet);
        }
        if packet.data.len() > MAX_DATA_LEN {
            return Err(WritePacketError::InvalidLength);
        }
        let crc = packet.crc();
        self.inner.output.push(packet.packet_type);
        self.inner.output.push(packet.data.len() as u8);
        self.inner.output.extend_from_slice(packet.data.as_slice());
        self.inner.output.push((crc & 0xff) as u8);
        self.inner.output.push((crc >> 8) as u8);
        proof {
            assert(self.spec_inner()@.output =~= old(self).spec_inner()@.output
                + packet@.encoded());
        }
        Ok(())
    }

    /// Nothing is buffered below the in-memory stream, so there is nothing
    /// to flush; the call exists to mirror transports that do buffer.
    pub fn flush(&mut self) -> (r: Result<(), WritePacketError>)
        ensures
            r == Ok::<(), WritePacketError>(()),
            *final(self) == *old(self),
    {
        Ok(())
    }
}

/// Law: framing round-trips. Any well-formed packet whose trusted CRC (if
/// trusted) matches its contents decodes from its own encoding with the
/// same type and payload, occupying the whole encoding, and the decoded
/// frame's CRC check passes.
pub proof fn lemma_round_trip(p: PacketView)
    requires
        p.wf(),
        p.trusted_crc ==> p.crc == crc16(p.crc_input()),
    ensures
        (spec_parse(p.encoded()) matches ParseResult::Frame { packet_type, data, crc, used }
            && packet_type == p.packet_type && data == p.data && crc == crc16(p.crc_input())
            && used == p.encoded().len()),
{
    let e = p.encoded();
    let c = p.wire_crc();
    assert(c == crc16(p.crc_input()));
    assert(e.len() == 4 + p.data.len());
    assert(e[1] == p.data.len() as u8);
    assert(e[1] as int == p.data.len());
    assert(e.subrange(2, 2 + e[1] as int) =~= p.data);
    assert(e[2 + e[1] as int] == (c & 0xff) as u8);
    assert(e[3 + e[1] as int] == (c >> 8) as u8);
    assert((((c & 0xff) as u8) as u16) | ((((c >> 8) as u8) as u16) << 8) == c) by (bit_vector);
}

/// Law: an oversized declared length is rejected before anything else is
/// read. Whenever the length byte claims more than [`MAX_DATA_LEN`] payload
/// bytes, parsing refuses the stream as misaligned, whatever else it holds.
pub proof fn lemma_oversized_length_rejected(s: Seq<u8>)
    requires
        s.len() >= 2,
        s[1] as int > MAX_DATA_LEN as int,
    ensures
        spec_parse(s) == ParseResult::TooLong,
{
}

/// Law: the CRC catches every single-bit corruption of a payload. Take a
/// well-formed packet whose encoding carries a correct CRC, and flip any one
/// bit of any payload byte of that encoding: the result still parses as a
/// frame, but the CRC computed from its contents no longer matches the CRC
/// it carries, so its check fails.
pub proof fn lemma_payload_bit_flip_detected(p: PacketView, i: int, k: u8)
    requires
        p.wf(),
        p.trusted_crc ==> p.crc == crc16(p.crc_input()),
        0 <= i < p.data.len(),
        k < 8,
    ensures
        ({
            let corrupted = p.encoded().update(2 + i, p.encoded()[2 + i] ^ (1u8 << k));
            spec_parse(corrupted) matches ParseResult::Frame { packet_type, data, crc, used }
                && crc16(seq![packet_type, data.len() as u8] + data) != crc
        }),
{
    let e = p.encoded();
    let c = p.wire_crc();
    let corrupted = e.update(2 + i, e[2 + i] ^ (1u8 << k));
    assert(e.len() == 4 + p.data.len());
    assert(corrupted.len() == e.len());
    assert(corrupted[1] == e[1]);
    assert(e[1] == p.data.len() as u8);
    let parsed_data = corrupted.subrange(2, 2 + corrupted[1] as int);
    assert(spec_parse(corrupted) matches ParseResult::Frame { .. });
    assert(parsed_data =~= p.data.update(i, p.data[i] ^ (1u8 << k)));
    assert(corrupted[2 + e[1] as int] == e[2 + e[1] as int]);
    assert(corrupted[3 + e[1] as int] == e[3 + e[1] as int]);
    assert((((c & 0xff) as u8) as u16) | ((((c >> 8) as u8) as u16) << 8) == c) by (bit_vector);
    let original_input = p.crc_input();
    let corrupted_input = seq![p.packet_type, parsed_data.len() as u8] + parsed_data;
    assert(corrupted_input.len() == original_input.len());
    assert(corrupted_input[2 + i] == original_input[2 + i] ^ (1u8 << k));
    assert(forall|j: int|
        0 <= j < original_input.len() && j != 2 + i ==> original_input[j] == corrupted_input[j]);
    crate::crc::lemma_crc16_single_bit_flip(original_input, corrupted_input, 2 + i, k);
    assert(c == crc16(original_input));
}

} // verus!
