//! The transaction engine.
//!
//! [`Device`] drives one synchronous command/response exchange at a time
//! over the packet codec, classifying every incoming frame by the two class
//! bits of its type byte: a normal response or an error response to the
//! command just sent, an unsolicited report (buffered FIFO for
//! [`Device::poll_report`]), or a foreign frame, which is discarded and the
//! exchange continues. A malformed length or a CRC mismatch means the byte
//! stream's alignment can no longer be trusted and surfaces as
//! [`Error::InvalidRead`], distinct from the transport running dry
//! ([`Error::Io`]) and from the device explicitly rejecting a command
//! ([`Error::ReturnedError`]).
//!
//! The engine owns an in-memory [`ByteStream`]: whatever drives the real
//! serial port feeds received bytes in with [`Device::feed`], carries
//! written bytes out with [`Device::take_output`], and resumes a pending
//! exchange with [`Device::poll_response`].

use vstd::prelude::*;

use std::collections::VecDeque;

use crate::codec::{
    ByteStream, PacketCodec, Packet, PacketView, ParseResult, ReadPacketError, WritePacketError,
    spec_parse, MAX_DATA_LEN,
};
use crate::crc::crc16;

verus! {

/// How many rows (lines) the display has.
///
/// Rows are numbered starting with zero (0) at the top and increasing as you
/// move down. Acceptable values are in the range `0..NUM_ROWS` (note the
/// exclusive upper bound).
pub const NUM_ROWS: u8 = 4;

/// How many columns (characters per row) the display has.
///
/// Columns are numbered starting with zero (0) at the left and increasing as
/// you move right. Acceptable values are in the range `0..NUM_COLUMNS` (note
/// the exclusive upper bound).
pub const NUM_COLUMNS: u8 = 20;

/// How many indicator LEDs the display has.
///
/// Numbered starting with zero (0) at the top and increasing as you move
/// down. Acceptable values are in the range `0..NUM_LEDS` (note the
/// exclusive upper bound).
pub const NUM_LEDS: u8 = 4;

/// How a transaction can fail, and why.
#[derive(Debug, Clone, Copy, PartialEq, Eq, Structural)]
#[non_exhaustive]
pub enum Error {
    /// The transport ran out of bytes (or, above the in-memory stream, the
    /// port's read or write failed). Fatal to the operation in progress.
    Io,
    /// Read an unexpected/incorrect byte, either because of an
    /// incompatibility or desync: a malformed frame length or a CRC
    /// mismatch. Fatal to the session's assumed alignment.
    InvalidRead,
    /// An argument to a function call had a value that was out of range.
    InvalidArgument,
    /// The device returned an error in its response to our command. The
    /// stream remains aligned; the command was received and rejected.
    ReturnedError,
}

impl From<WritePacketError> for Error {
    fn from(err: WritePacketError) -> (r: Error) {
        match err {
            WritePacketError::Io => Error::Io,
            WritePacketError::InvalidLength => Error::InvalidArgument,
        }
    }
}

impl vstd::std_specs::convert::FromSpecImpl<WritePacketError> for Error {
    open spec fn obeys_from_spec() -> bool {
        true
    }

    open spec fn from_spec(err: WritePacketError) -> Error {
        match err {
            WritePacketError::Io => Error::Io,
            WritePacketError::InvalidLength => Error::InvalidArgument,
        }
    }
}

impl From<ReadPacketError> for Error {
    fn from(err: ReadPacketError) -> (r: Error) {
        match err {
            ReadPacketError::Io => Error::Io,
            ReadPacketError::InvalidPacket => Error::InvalidRead,
        }
    }
}

impl vstd::std_specs::convert::FromSpecImpl<ReadPacketError> for Error {
    open spec fn obeys_from_spec() -> bool {
        true
    }

    open spec fn from_spec(err: ReadPacketError) -> Error {
        match err {
            ReadPacketError::Io => Error::Io,
            ReadPacketError::InvalidPacket => Error::InvalidRead,
        }
    }
}

/// A key on the device's keypad.
#[derive(Debug, Clone, Copy, PartialEq, Eq, Structural)]
pub enum Key {
    Up,
    Down,
    Left,
    Right,
    Enter,
    Exit,
}

impl Key {
    /// The key's bit in a key-reporting configuration mask.
    pub open spec fn spec_mask(self) -> u8 {
        match self {
            Key::Up => 0x01,
            Key::Enter => 0x02,
            Key::Exit => 0x04,
            Key::Left => 0x08,
            Key::Right => 0x10,
            Key::Down => 0x20,
        }
    }

    pub fn mask(&self) -> (m: u8)
        ensures
            m == self.spec_mask(),
    {
        match self {
            Key::Up => 0x01,
            Key::Enter => 0x02,
            Key::Exit => 0x04,
            Key::Left => 0x08,
            Key::Right => 0x10,
            Key::Down => 0x20,
        }
    }
}

/// An unsolicited report decoded from a report-class frame.
#[derive(Debug, Clone, Copy, PartialEq, Eq, Structural)]
pub enum Report {
    KeyActivity { key: Key, pressed: bool },
}

/// The report (if any) that a frame with the given type byte and payload
/// decodes to: key-activity frames (type `0x80`) carry a one-byte code,
/// `1..=6` for presses and `7..=12` for releases; every other code and
/// every other report type is unrecognized and dropped.
pub open spec fn spec_report_from(packet_type: u8, data: Seq<u8>) -> Option<Report> {
    if packet_type != 0x80 {
        None
    } else if data.len() == 0 {
        None
    } else {
        let c = data[0];
        if c == 1 {
            Some(Report::KeyActivity { key: Key::Up, pressed: true })
        } else if c == 2 {
            Some(Report::KeyActivity { key: Key::Down, pressed: true })
        } else if c == 3 {
            Some(Report::KeyActivity { key: Key::Left, pressed: true })
        } else if c == 4 {
            Some(Report::KeyActivity { key: Key::Right, pressed: true })
        } else if c == 5 {
            Some(Report::KeyActivity { key: Key::Enter, pressed: true })
        } else if c == 6 {
            Some(Report::KeyActivity { key: Key::Exit, pressed: true })
        } else if c == 7 {
            Some(Report::KeyActivity { key: Key::Up, pressed: false })
        } else if c == 8 {
            Some(Report::KeyActivity { key: Key::Down, pressed: false })
        } else if c == 9 {
            Some(Report::KeyActivity { key: Key::Left, pressed: false })
        } else if c == 10 {
            Some(Report::KeyActivity { key: Key::Right, pressed: false })
        } else if c == 11 {
            Some(Report::KeyActivity { key: Key::Enter, pressed: false })
        } else if c == 12 {
            Some(Report::KeyActivity { key: Key::Exit, pressed: false })
        } else {
            None
        }
    }
}

impl Report {
    /// Decodes a report frame, best-effort: an unrecognized type byte,
    /// an empty payload or an unknown key code yields `None`.
    pub fn from_raw(packet: &Packet) -> (r: Option<Report>)
        ensures
            r == spec_report_from(packet@.packet_type, packet@.data),
    {
        if packet.packet_type() != 0x80 {
            return None;
        }
        let data = packet.data();
        if data.len() == 0 {
            return None;
        }
        let (key, pressed) = match data[0] {
            1 => (Key::Up, true),
            2 => (Key::Down, true),
            3 => (Key::Left, true),
            4 => (Key::Right, true),
            5 => (Key::Enter, true),
            6 => (Key::Exit, true),
            7 => (Key::Up, false),
            8 => (Key::Down, false),
            9 => (Key::Left, false),
            10 => (Key::Right, false),
            11 => (Key::Enter, false),
            12 => (Key::Exit, false),
            _ => {
                return None;
            },
        };
        Some(Report::KeyActivity { key, pressed })
    }
}

/// The style of the cursor the display draws.
#[derive(Debug, Clone, Copy, PartialEq, Eq, Structural)]
#[non_exhaustive]
pub enum CursorStyle {
    NoCursor,
    BlinkingBlock,
    StaticUnderscore,
    BlinkingUnderscore,
}

impl CursorStyle {
    /// The style's one-byte code on the wire.
    pub open spec fn spec_code(self) -> u8 {
        match self {
            CursorStyle::NoCursor => 0,
            CursorStyle::BlinkingBlock => 1,
            CursorStyle::StaticUnderscore => 2,
            CursorStyle::BlinkingUnderscore => 3,
        }
    }

    pub fn code(&self) -> (c: u8)
        ensures
            c == self.spec_code(),
    {
        match self {
            CursorStyle::NoCursor => 0,
            CursorStyle::BlinkingBlock => 1,
            CursorStyle::StaticUnderscore => 2,
            CursorStyle::BlinkingUnderscore => 3,
        }
    }
}

/// How the engine treats an incoming frame while a command with type byte
/// `sent` awaits its response.
#[derive(Debug, Clone, Copy, PartialEq, Eq, Structural)]
pub enum FrameKind {
    /// Class `0b01` with the sent command's code: the response.
    Normal,
    /// Class `0b11` with the sent command's code: the device rejected the
    /// command.
    Error,
    /// Class `0b10`, whatever the code: an unsolicited report.
    Report,
    /// Anything else, e.g. a stale response to an earlier command: noise to
    /// discard.
    Foreign,
}

/// The classification rule: the class lives in the type byte's top two
/// bits, the code in its bottom six.
pub open spec fn spec_classify(sent: u8, packet_type: u8) -> FrameKind {
    let class = packet_type >> 6;
    let code = packet_type & 0x3f;
    if class == 2 {
        FrameKind::Report
    } else if class == 1 && code == sent {
        FrameKind::Normal
    } else if class == 3 && code == sent {
        FrameKind::Error
    } else {
        FrameKind::Foreign
    }
}

/// Classifies an incoming frame's type byte against the sent command's.
pub fn classify(sent: u8, packet_type: u8) -> (k: FrameKind)
    ensures
        k == spec_classify(sent, packet_type),
{
    let class = packet_type >> 6;
    let code = packet_type & 0x3f;
    if class == 2 {
        FrameKind::Report
    } else if class == 1 && code == sent {
        FrameKind::Normal
    } else if class == 3 && code == sent {
        FrameKind::Error
    } else {
        FrameKind::Foreign
    }
}

/// How waiting for a command's response ends.
pub ghost enum TransactOutcome {
    /// The stream ran dry before a terminal frame arrived: above the
    /// in-memory stream this is the transport's read timing out.
    Timeout,
    /// A malformed frame length or a CRC mismatch: the stream's alignment
    /// can no longer be trusted.
    Desync,
    /// The matching normal response, as parsed off the wire.
    Done { packet_type: u8, data: Seq<u8>, crc: u16 },
    /// A matching error-class response: the device rejected the command.
    Rejected,
}

/// Everything waiting for a response does to the engine: how it ends, the
/// reports it buffers along the way (in arrival order), and how many input
/// bytes it consumes.
pub ghost struct TransactRun {
    pub outcome: TransactOutcome,
    pub reports: Seq<Report>,
    pub used: int,
}

/// The engine's read loop over the unconsumed bytes `s`, waiting for a
/// response to a command with type byte `sent`: frames are taken off the
/// stream one at a time; report frames are decoded and kept, foreign frames
/// dropped, and the first matching normal or error response, a CRC mismatch
/// or a malformed length ends the wait.
pub open spec fn spec_run(s: Seq<u8>, sent: u8) -> TransactRun
    decreases s.len(),
{
    match spec_parse(s) {
        ParseResult::NeedMore => TransactRun {
            outcome: TransactOutcome::Timeout,
            reports: Seq::empty(),
            used: 0,
        },
        ParseResult::TooLong => TransactRun {
            outcome: TransactOutcome::Desync,
            reports: Seq::empty(),
            used: 2,
        },
        ParseResult::Frame { packet_type, data, crc, used } => {
            if crc16(seq![packet_type, data.len() as u8] + data) != crc {
                TransactRun { outcome: TransactOutcome::Desync, reports: Seq::empty(), used }
            } else {
                match spec_classify(sent, packet_type) {
                    FrameKind::Report => {
                        let rest = spec_run(s.skip(used), sent);
                        let reports = match spec_report_from(packet_type, data) {
                            Some(report) => seq![report] + rest.reports,
                            None => rest.reports,
                        };
                        TransactRun { outcome: rest.outcome, reports, used: used + rest.used }
                    },
                    FrameKind::Foreign => {
                        let rest = spec_run(s.skip(used), sent);
                        TransactRun {
                            outcome: rest.outcome,
                            reports: rest.reports,
                            used: used + rest.used,
                        }
                    },
                    FrameKind::Normal => TransactRun {
                        outcome: TransactOutcome::Done { packet_type, data, crc },
                        reports: Seq::empty(),
                        used,
                    },
                    FrameKind::Error => TransactRun {
                        outcome: TransactOutcome::Rejected,
                        reports: Seq::empty(),
                        used,
                    },
                }
            }
        },
    }
}

/// The view of a fresh command packet with the given type byte and payload,
/// as [`Packet::new`] builds it.
pub open spec fn spec_command_view(packet_type: u8, payload: Seq<u8>) -> PacketView {
    PacketView {
        packet_type,
        data: payload,
        crc: crc16(seq![packet_type, payload.len() as u8] + payload),
        trusted_crc: true,
    }
}

/// The transaction engine: owns the transport for its lifetime and buffers
/// unsolicited reports that arrive while a command waits for its response.
pub struct Device {
    codec: PacketCodec<ByteStream>,
    report_buffer: VecDeque<Report>,
}

/// The mathematical image of a [`Device`]: the transport's received bytes
/// (consumed up to `pos`), the bytes written and not yet carried out, and
/// the buffered reports in arrival order.
#[verifier::ext_equal]
pub ghost struct DeviceView {
    pub input: Seq<u8>,
    pub pos: int,
    pub output: Seq<u8>,
    pub reports: Seq<Report>,
}

impl View for Device {
    type V = DeviceView;

    closed spec fn view(&self) -> DeviceView {
        DeviceView {
            input: self.codec.spec_inner()@.input,
            pos: self.codec.spec_inner()@.pos,
            output: self.codec.spec_inner()@.output,
            reports: self.report_buffer@,
        }
    }
}

impl DeviceView {
    pub open spec fn wf(self) -> bool {
        0 <= self.pos <= self.input.len()
    }

    /// The received bytes not yet consumed.
    pub open spec fn avail(self) -> Seq<u8> {
        self.input.skip(self.pos)
    }

    /// The state after the engine ran [`spec_run`] for a fresh command with
    /// the given type byte and payload: the command's encoding appended to
    /// the output, the run's reports appended to the buffer, the run's
    /// bytes consumed from the input.
    pub open spec fn after_command(self, packet_type: u8, payload: Seq<u8>) -> DeviceView {
        let run = spec_run(self.avail(), packet_type);
        DeviceView {
            input: self.input,
            pos: self.pos + run.used,
            output: self.output + spec_command_view(packet_type, payload).encoded(),
            reports: self.reports + run.reports,
        }
    }

    /// How a command with the given type byte, sent in this state, ends.
    pub open spec fn command_result(self, packet_type: u8) -> Result<(), Error> {
        match spec_run(self.avail(), packet_type).outcome {
            TransactOutcome::Timeout => Err(Error::Io),
            TransactOutcome::Desync => Err(Error::InvalidRead),
            TransactOutcome::Rejected => Err(Error::ReturnedError),
            TransactOutcome::Done { .. } => Ok(()),
        }
    }
}

impl Device {
    /// A fresh engine over an empty transport: no bytes received or
    /// written, no reports buffered. Whatever owns the real port feeds and
    /// drains the transport around it.
    pub fn new() -> (d: Device)
        ensures
            d@.input == Seq::<u8>::empty(),
            d@.pos == 0,
            d@.output == Seq::<u8>::empty(),
            d@.reports == Seq::<Report>::empty(),
            d@.wf(),
    {
        Device { codec: PacketCodec::new(ByteStream::new()), report_buffer: VecDeque::new() }
    }

    /// Appends bytes that arrived from the transport.
    pub fn feed(&mut self, bytes: &[u8])
        requires
            old(self)@.wf(),
        ensures
            final(self)@.input == old(self)@.input + bytes@,
            final(self)@.pos == old(self)@.pos,
            final(self)@.output == old(self)@.output,
            final(self)@.reports == old(self)@.reports,
            final(self)@.wf(),
    {
        self.codec.feed(bytes);
    }

    /// Hands out everything written so far and leaves the output empty.
    pub fn take_output(&mut self) -> (out: Vec<u8>)
        ensures
            out@ == old(self)@.output,
            final(self)@.output == Seq::<u8>::empty(),
            final(self)@.input == old(self)@.input,
            final(self)@.pos == old(self)@.pos,
            final(self)@.reports == old(self)@.reports,
    {
        self.codec.take_output()
    }

    /// Encodes a command packet onto the transport's output. Every packet
    /// is well-formed by construction, so this cannot fail.
    pub fn send(&mut self, packet: &Packet) -> (r: Result<(), Error>)
        requires
            old(self)@.wf(),
        ensures
            final(self)@.wf(),
            final(self)@.input == old(self)@.input,
            final(self)@.pos == old(self)@.pos,
            final(self)@.reports == old(self)@.reports,
            final(self)@.output == old(self)@.output + packet@.encoded(),
            r == Ok::<(), Error>(()),
    {
        proof {
            use_type_invariant(&*packet);
        }
        match self.codec.write_packet(packet) {
            Ok(()) => Ok(()),
            Err(e) => Err(Error::from(e)),
        }
    }

    /// Takes the next frame off the transport and verifies its CRC.
    fn recv(&mut self) -> (r: Result<Packet, Error>)
        requires
            old(self)@.wf(),
        ensures
            final(self)@.wf(),
            final(self)@.input == old(self)@.input,
            final(self)@.output == old(self)@.output,
            final(self)@.reports == old(self)@.reports,
            (match spec_parse(old(self)@.avail()) {
                ParseResult::NeedMore => r == Err::<Packet, Error>(Error::Io) && final(self)@.pos
                    == old(self)@.pos,
                ParseResult::TooLong => r == Err::<Packet, Error>(Error::InvalidRead)
                    && final(self)@.pos == old(self)@.pos + 2,
                ParseResult::Frame { packet_type, data, crc, used } => {
                    &&& final(self)@.pos == old(self)@.pos + used
                    &&& if crc16(seq![packet_type, data.len() as u8] + data) == crc {
                        r is Ok && r->Ok_0@.packet_type == packet_type && r->Ok_0@.data == data
                            && r->Ok_0@.crc == crc && !r->Ok_0@.trusted_crc && r->Ok_0@.wf()
                    } else {
                        r == Err::<Packet, Error>(Error::InvalidRead)
                    }
                },
            }),
    {
        let packet = match self.codec.read_packet() {
            Ok(p) => p,
            Err(e) => {
                return Err(Error::from(e));
            },
        };
        if packet.check_crc() {
            proof {
                assert(packet@.crc_input() =~= seq![
                    packet@.packet_type,
                    packet@.data.len() as u8,
                ] + packet@.data);
            }
            Ok(packet)
        } else {
            proof {
                assert(packet@.crc_input() =~= seq![
                    packet@.packet_type,
                    packet@.data.len() as u8,
                ] + packet@.data);
            }
            Err(Error::InvalidRead)
        }
    }

    /// Resumes waiting for the response to a command whose type byte was
    /// `sent`: runs the engine's read loop over whatever bytes are buffered.
    ///
    /// `Ok(None)` means the buffered bytes ran out with the exchange still
    /// pending: feed more bytes and call again. Report frames seen on the
    /// way are buffered; foreign frames are discarded; a matching normal
    /// response is returned, a matching error-class response is
    /// [`Error::ReturnedError`], and a malformed length or CRC mismatch is
    /// [`Error::InvalidRead`].
    pub fn poll_response(&mut self, sent: u8) -> (r: Result<Option<Packet>, Error>)
        requires
            old(self)@.wf(),
        ensures
            final(self)@.wf(),
            final(self)@.input == old(self)@.input,
            final(self)@.output == old(self)@.output,
            ({
                let run = spec_run(old(self)@.avail(), sent);
                &&& final(self)@.pos == old(self)@.pos + run.used
                &&& final(self)@.reports == old(self)@.reports + run.reports
                &&& (match run.outcome {
                    TransactOutcome::Timeout => r == Ok::<Option<Packet>, Error>(None),
                    TransactOutcome::Desync => r == Err::<Option<Packet>, Error>(
                        Error::InvalidRead,
                    ),
                    TransactOutcome::Rejected => r == Err::<Option<Packet>, Error>(
                        Error::ReturnedError,
                    ),
                    TransactOutcome::Done { packet_type, data, crc } => (r matches Ok(Some(p))
                        && p@.packet_type == packet_type && p@.data == data && p@.crc == crc
                        && !p@.trusted_crc && p@.wf()),
                })
            }),
    {
        let ghost pre: DeviceView = self@;
        loop
            invariant
                self@.wf(),
                pre.wf(),
                pre == old(self)@,
                self@.input == pre.input,
                self@.output == pre.output,
                ({
                    let orun = spec_run(pre.avail(), sent);
                    let crun = spec_run(self@.avail(), sent);
                    &&& orun.outcome == crun.outcome
                    &&& pre.reports + orun.reports == self@.reports + crun.reports
                    &&& pre.pos + orun.used == self@.pos + crun.used
                }),
            decreases self@.avail().len(),
        {
            let ghost cur: DeviceView = self@;
            let packet = match self.recv() {
                Ok(p) => p,
                Err(e) => {
                    if e == Error::Io {
                        return Ok(None);
                    } else {
                        return Err(e);
                    }
                },
            };
            let ghost used = (match spec_parse(cur.avail()) {
                ParseResult::Frame { used, .. } => used,
                _ => 0,
            });
            if !packet.check_crc() {
                return Err(Error::InvalidRead);
            }
            proof {
                assert(packet@.crc_input() =~= seq![
                    packet@.packet_type,
                    packet@.data.len() as u8,
                ] + packet@.data);
                assert(self@.avail() =~= cur.avail().skip(used));
            }
            match classify(sent, packet.packet_type()) {
                FrameKind::Normal => {
                    return Ok(Some(packet));
                },
                FrameKind::Error => {
                    return Err(Error::ReturnedError);
                },
                FrameKind::Report => {
                    if let Some(report) = Report::from_raw(&packet) {
                        self.report_buffer.push_back(report);
                        proof {
                            assert(pre.reports + spec_run(pre.avail(), sent).reports
                                =~= self@.reports + spec_run(self@.avail(), sent).reports);
                        }
                    }
                },
                FrameKind::Foreign => {},
            }
        }
    }

    /// Sends one command and waits for its response, absorbing interleaved
    /// reports, over the bytes already buffered. When the buffered bytes
    /// run out before a terminal frame arrives, the exchange fails with
    /// [`Error::Io`], as the port's read timeout would fail it.
    pub fn transact(&mut self, packet: &Packet) -> (r: Result<Packet, Error>)
        requires
            old(self)@.wf(),
        ensures
            final(self)@.wf(),
            final(self)@.input == old(self)@.input,
            final(self)@.output == old(self)@.output + packet@.encoded(),
            ({
                let run = spec_run(old(self)@.avail(), packet@.packet_type);
                &&& final(self)@.pos == old(self)@.pos + run.used
                &&& final(self)@.reports == old(self)@.reports + run.reports
                &&& (match run.outcome {
                    TransactOutcome::Timeout => r == Err::<Packet, Error>(Error::Io),
                    TransactOutcome::Desync => r == Err::<Packet, Error>(Error::InvalidRead),
                    TransactOutcome::Rejected => r == Err::<Packet, Error>(Error::ReturnedError),
                    TransactOutcome::Done { packet_type, data, crc } => (r matches Ok(p)
                        && p@.packet_type == packet_type && p@.data == data && p@.crc == crc
                        && !p@.trusted_crc && p@.wf()),
                })
            }),
    {
        let sent = packet.packet_type();
        match self.send(packet) {
            Ok(()) => {},
            Err(e) => {
                return Err(e);
            },
        }
        match self.poll_response(sent) {
            Ok(Some(response)) => Ok(response),
            Ok(None) => Err(Error::Io),
            Err(e) => Err(e),
        }
    }

    /// Returns the next report packet, or `None` if there are none available
    /// right now. Never waits for data: the buffered reports are drained
    /// first, in arrival order, then whole frames already buffered on the
    /// transport are decoded, dropping everything that is not a report.
    pub fn poll_report(&mut self) -> (r: Result<Option<Report>, Error>)
        requires
            old(self)@.wf(),
        ensures
            final(self)@.wf(),
            final(self)@.input == old(self)@.input,
            final(self)@.output == old(self)@.output,
            if old(self)@.reports.len() > 0 {
                &&& r == Ok::<Option<Report>, Error>(Some(old(self)@.reports[0]))
                &&& final(self)@.reports == old(self)@.reports.drop_first()
                &&& final(self)@.pos == old(self)@.pos
            } else {
                let run = spec_poll(old(self)@.avail());
                &&& final(self)@.pos == old(self)@.pos + run.used
                &&& final(self)@.reports == old(self)@.reports
                &&& (match run.outcome {
                    PollOutcome::Quiet => r == Ok::<Option<Report>, Error>(None),
                    PollOutcome::Found(report) => r == Ok::<Option<Report>, Error>(Some(report)),
                    PollOutcome::Truncated => r == Err::<Option<Report>, Error>(Error::Io),
                    PollOutcome::Desync => r == Err::<Option<Report>, Error>(Error::InvalidRead),
                })
            },
    {
        if let Some(report) = self.report_buffer.pop_front() {
            proof {
                assert(self@.reports =~= old(self)@.reports.drop_first());
            }
            return Ok(Some(report));
        }
        let ghost pre: DeviceView = self@;
        loop
            invariant
                self@.wf(),
                pre.wf(),
                pre == old(self)@,
                self@.input == pre.input,
                self@.output == pre.output,
                self@.reports == pre.reports,
                pre.reports.len() == 0,
                ({
                    let orun = spec_poll(pre.avail());
                    let crun = spec_poll(self@.avail());
                    &&& orun.outcome == crun.outcome
                    &&& pre.pos + orun.used == self@.pos + crun.used
                }),
            decreases self@.avail().len(),
        {
            let ghost cur: DeviceView = self@;
            if self.codec.bytes_to_read() == 0 {
                return Ok(None);
            }
            let packet = match self.recv() {
                Ok(p) => p,
                Err(e) => {
                    return Err(e);
                },
            };
            let ghost used = (match spec_parse(cur.avail()) {
                ParseResult::Frame { used, .. } => used,
                _ => 0,
            });
            proof {
                assert(packet@.crc_input() =~= seq![
                    packet@.packet_type,
                    packet@.data.len() as u8,
                ] + packet@.data);
                assert(self@.avail() =~= cur.avail().skip(used));
            }
            if let Some(report) = Report::from_raw(&packet) {
                return Ok(Some(report));
            }
        }
    }
}

/// How one non-blocking poll of the transport for a report ends.
pub ghost enum PollOutcome {
    /// No data is buffered: there is nothing to report right now.
    Quiet,
    /// A report frame arrived.
    Found(Report),
    /// Data is buffered but a whole frame is not: the blocking read behind
    /// it would time out.
    Truncated,
    /// A malformed frame length or a CRC mismatch.
    Desync,
}

/// What one poll does to the stream: its outcome and how many input bytes
/// it consumes.
pub ghost struct PollRun {
    pub outcome: PollOutcome,
    pub used: int,
}

/// The poll loop over the unconsumed bytes `s`: whole frames are taken off
/// the stream until one decodes to a report; frames that are not reports
/// (a response would be a protocol anomaly here) are dropped.
pub open spec fn spec_poll(s: Seq<u8>) -> PollRun
    decreases s.len(),
{
    if s.len() == 0 {
        PollRun { outcome: PollOutcome::Quiet, used: 0 }
    } else {
        match spec_parse(s) {
            ParseResult::NeedMore => PollRun { outcome: PollOutcome::Truncated, used: 0 },
            ParseResult::TooLong => PollRun { outcome: PollOutcome::Desync, used: 2 },
            ParseResult::Frame { packet_type, data, crc, used } => {
                if crc16(seq![packet_type, data.len() as u8] + data) != crc {
                    PollRun { outcome: PollOutcome::Desync, used }
                } else {
                    match spec_report_from(packet_type, data) {
                        Some(report) => PollRun { outcome: PollOutcome::Found(report), used },
                        None => {
                            let rest = spec_poll(s.skip(used));
                            PollRun { outcome: rest.outcome, used: used + rest.used }
                        },
                    }
                }
            },
        }
    }
}

/// The payload a ping actually sends: at most the first 16 bytes of what
/// the caller handed in.
pub open spec fn spec_ping_payload(data: Seq<u8>) -> Seq<u8> {
    if data.len() <= 16 {
        data
    } else {
        data.take(16)
    }
}

/// The payload of a set-text command: column, row, then at most the first
/// 20 bytes of the text.
pub open spec fn spec_text_payload(row: u8, col: u8, text: Seq<u8>) -> Seq<u8> {
    seq![col, row] + (if text.len() <= MAX_DATA_LEN - 2 {
        text
    } else {
        text.take(MAX_DATA_LEN - 2)
    })
}

/// The key-reporting mask of a set of keys: the OR of their bits.
pub open spec fn spec_mask_fold(keys: Seq<Key>) -> u8
    decreases keys.len(),
{
    if keys.len() == 0 {
        0
    } else {
        spec_mask_fold(keys.drop_last()) | keys.last().spec_mask()
    }
}

/// The GPIO index that drives an LED's red component.
pub open spec fn spec_led_red_gpio(index: u8) -> u8 {
    if index == 0 {
        12
    } else if index == 1 {
        10
    } else if index == 2 {
        8
    } else {
        6
    }
}

/// The GPIO index that drives an LED's green component.
pub open spec fn spec_led_green_gpio(index: u8) -> u8 {
    if index == 0 {
        11
    } else if index == 1 {
        9
    } else if index == 2 {
        7
    } else {
        5
    }
}

/// The GPIO indices (red, green) that drive the given LED. The device
/// addresses LED components as general-purpose outputs; this is the board's
/// wiring table.
pub fn led_gpios(index: u8) -> (r: (u8, u8))
    requires
        index < NUM_LEDS,
    ensures
        r.0 == spec_led_red_gpio(index),
        r.1 == spec_led_green_gpio(index),
{
    if index == 0 {
        (12, 11)
    } else if index == 1 {
        (10, 9)
    } else if index == 2 {
        (8, 7)
    } else {
        (6, 5)
    }
}

/// ORs together the reporting-mask bits of the given keys.
fn fold_masks(keys: &[Key]) -> (m: u8)
    ensures
        m == spec_mask_fold(keys@),
{
    let mut m: u8 = 0;
    let mut i: usize = 0;
    while i < keys.len()
        invariant
            i <= keys@.len(),
            m == spec_mask_fold(keys@.take(i as int)),
        decreases keys@.len() - i,
    {
        m = m | keys[i].mask();
        proof {
            assert(keys@.take(i + 1 as int).drop_last() =~= keys@.take(i as int));
            assert(keys@.take(i + 1 as int).last() == keys@[i as int]);
        }
        i = i + 1;
    }
    proof {
        assert(keys@.take(keys@.len() as int) =~= keys@);
    }
    m
}

impl Device {
    /// Runs one fresh command to completion, keeping only whether it
    /// succeeded.
    fn transact_unit(&mut self, packet_type: u8, payload: &[u8]) -> (r: Result<(), Error>)
        requires
            old(self)@.wf(),
            payload@.len() <= MAX_DATA_LEN,
        ensures
            final(self)@.wf(),
            final(self)@ == old(self)@.after_command(packet_type, payload@),
            r == old(self)@.command_result(packet_type),
    {
        let packet = Packet::new(packet_type, payload);
        proof {
            assert(packet@.crc_input() =~= seq![packet_type, payload@.len() as u8] + payload@);
            assert(packet@ =~= spec_command_view(packet_type, payload@));
        }
        let r = self.transact(&packet);
        proof {
            assert(self@ =~= old(self)@.after_command(packet_type, payload@));
        }
        match r {
            Ok(_) => Ok(()),
            Err(e) => Err(e),
        }
    }

    /// Sends a "Ping" with an arbitrary payload.
    ///
    /// If a correct response is received, this call will return `Ok` with
    /// the bytes sent back from the device. The data returned should be
    /// equal to the payload that was sent.
    ///
    /// Note: The maximum payload size is 16 bytes. If the provided data is
    /// longer, only the first 16 bytes will be sent (and therefore, only up
    /// to 16 bytes will be received).
    pub fn ping(&mut self, data: &[u8]) -> (r: Result<Vec<u8>, Error>)
        requires
            old(self)@.wf(),
        ensures
            final(self)@.wf(),
            final(self)@ == old(self)@.after_command(0x00, spec_ping_payload(data@)),
            (match spec_run(old(self)@.avail(), 0x00).outcome {
                TransactOutcome::Timeout => r == Err::<Vec<u8>, Error>(Error::Io),
                TransactOutcome::Desync => r == Err::<Vec<u8>, Error>(Error::InvalidRead),
                TransactOutcome::Rejected => r == Err::<Vec<u8>, Error>(Error::ReturnedError),
                TransactOutcome::Done { data: response, .. } => (r matches Ok(pong)
                    && pong@ == response),
            }),
    {
        let n = if data.len() <= 16 {
            data.len()
        } else {
            16
        };
        let payload = &data[0..n];
        proof {
            assert(payload@ =~= spec_ping_payload(data@));
        }
        let packet = Packet::new(0x00, payload);
        proof {
            assert(packet@.crc_input() =~= seq![0x00u8, payload@.len() as u8] + payload@);
            assert(packet@ =~= spec_command_view(0x00, spec_ping_payload(data@)));
        }
        let r = self.transact(&packet);
        proof {
            assert(self@ =~= old(self)@.after_command(0x00, spec_ping_payload(data@)));
        }
        let pong = match r {
            Ok(p) => p,
            Err(e) => {
                return Err(e);
            },
        };
        let mut out: Vec<u8> = Vec::new();
        out.extend_from_slice(pong.data());
        proof {
            assert(out@ =~= pong@.data);
        }
        Ok(out)
    }

    /// Saves the current state of the device as its "boot" state, i.e., the
    /// state that will be restored when the device powers on.
    ///
    /// The saved state covers the characters shown on the LCD, the cursor
    /// position and style, the contrast, the backlight, and the report
    /// configuration.
    pub fn save_boot_state(&mut self) -> (r: Result<(), Error>)
        requires
            old(self)@.wf(),
        ensures
            final(self)@.wf(),
            final(self)@ == old(self)@.after_command(0x04, Seq::<u8>::empty()),
            r == old(self)@.command_result(0x04),
    {
        let payload: Vec<u8> = Vec::new();
        self.transact_unit(0x04, payload.as_slice())
    }

    /// Fills the screen with empty / space characters, and moves the cursor
    /// to the top-left character (row 0, column 0).
    pub fn clear_screen(&mut self) -> (r: Result<(), Error>)
        requires
            old(self)@.wf(),
        ensures
            final(self)@.wf(),
            final(self)@ == old(self)@.after_command(0x06, Seq::<u8>::empty()),
            r == old(self)@.command_result(0x06),
    {
        let payload: Vec<u8> = Vec::new();
        self.transact_unit(0x06, payload.as_slice())
    }

    /// Set the text on a region on the LCD screen, starting at the given
    /// position.
    ///
    /// If the text would be written past the right edge, it will be
    /// hard-wrapped to the next line. Text already in the region is
    /// overwritten; text outside it is unaffected.
    ///
    /// Note: The maximum size of `text` is 20 bytes. If more bytes are
    /// passed, only the first 20 are written.
    ///
    /// # Errors
    ///
    /// - `InvalidArgument` - If the row or column index is out of bounds (as
    ///   defined by [`NUM_ROWS`] and [`NUM_COLUMNS`]).
    pub fn set_text(&mut self, row: u8, col: u8, text: &[u8]) -> (r: Result<(), Error>)
        requires
            old(self)@.wf(),
        ensures
            final(self)@.wf(),
            if row >= NUM_ROWS || col >= NUM_COLUMNS {
                final(self)@ == old(self)@ && r == Err::<(), Error>(Error::InvalidArgument)
            } else {
                final(self)@ == old(self)@.after_command(0x1f, spec_text_payload(row, col, text@))
                    && r == old(self)@.command_result(0x1f)
            },
    {
        if row >= NUM_ROWS || col >= NUM_COLUMNS {
            return Err(Error::InvalidArgument);
        }
        let n = if text.len() <= MAX_DATA_LEN - 2 {
            text.len()
        } else {
            MAX_DATA_LEN - 2
        };
        let mut payload: Vec<u8> = Vec::new();
        payload.push(col);
        payload.push(row);
        payload.extend_from_slice(&text[0..n]);
        proof {
            assert(payload@ =~= spec_text_payload(row, col, text@));
        }
        self.transact_unit(0x1f, payload.as_slice())
    }

    /// Sets the cursor position to the character at the given row and
    /// column.
    ///
    /// # Errors
    ///
    /// - `InvalidArgument` - If the row or column index is out of bounds (as
    ///   defined by [`NUM_ROWS`] and [`NUM_COLUMNS`]).
    pub fn set_cursor_position(&mut self, row: u8, col: u8) -> (r: Result<(), Error>)
        requires
            old(self)@.wf(),
        ensures
            final(self)@.wf(),
            if row >= NUM_ROWS || col >= NUM_COLUMNS {
                final(self)@ == old(self)@ && r == Err::<(), Error>(Error::InvalidArgument)
            } else {
                final(self)@ == old(self)@.after_command(0x0b, seq![col, row])
                    && r == old(self)@.command_result(0x0b)
            },
    {
        if row >= NUM_ROWS || col >= NUM_COLUMNS {
            return Err(Error::InvalidArgument);
        }
        let mut payload: Vec<u8> = Vec::new();
        payload.push(col);
        payload.push(row);
        proof {
            assert(payload@ =~= seq![col, row]);
        }
        self.transact_unit(0x0b, payload.as_slice())
    }

    /// Set the cursor style.
    pub fn set_cursor_style(&mut self, style: CursorStyle) -> (r: Result<(), Error>)
        requires
            old(self)@.wf(),
        ensures
            final(self)@.wf(),
            final(self)@ == old(self)@.after_command(0x0c, seq![style.spec_code()]),
            r == old(self)@.command_result(0x0c),
    {
        let mut payload: Vec<u8> = Vec::new();
        payload.push(style.code());
        proof {
            assert(payload@ =~= seq![style.spec_code()]);
        }
        self.transact_unit(0x0c, payload.as_slice())
    }

    /// Set the contrast of the LCD display.
    ///
    /// From the datasheet:
    ///
    /// - 60 = light
    /// - 120 = about right
    /// - 150 = dark
    /// - 151-254 = very dark (may be useful at cold temperatures)
    pub fn set_contrast(&mut self, contrast: u8) -> (r: Result<(), Error>)
        requires
            old(self)@.wf(),
        ensures
            final(self)@.wf(),
            final(self)@ == old(self)@.after_command(
                0x0d,
                seq![if contrast <= 254 { contrast } else { 254 }],
            ),
            r == old(self)@.command_result(0x0d),
    {
        let clamped = if contrast <= 254 {
            contrast
        } else {
            254
        };
        let mut payload: Vec<u8> = Vec::new();
        payload.push(clamped);
        proof {
            assert(payload@ =~= seq![if contrast <= 254 { contrast } else { 254u8 }]);
        }
        self.transact_unit(0x0d, payload.as_slice())
    }

    /// Set the backlight brightness of the screen and keypad.
    ///
    /// The maximum brightness value is 100. Values above this will be
    /// interpreted as max brightness: 0 = off, 1-100 = variable brightness.
    pub fn set_backlight(&mut self, screen: u8, keypad: u8) -> (r: Result<(), Error>)
        requires
            old(self)@.wf(),
        ensures
            final(self)@.wf(),
            final(self)@ == old(self)@.after_command(
                0x0e,
                seq![
                    (if screen <= 100 { screen } else { 100 }),
                    (if keypad <= 100 { keypad } else { 100 }),
                ],
            ),
            r == old(self)@.command_result(0x0e),
    {
        let screen_clamped = if screen <= 100 {
            screen
        } else {
            100
        };
        let keypad_clamped = if keypad <= 100 {
            keypad
        } else {
            100
        };
        let mut payload: Vec<u8> = Vec::new();
        payload.push(screen_clamped);
        payload.push(keypad_clamped);
        proof {
            assert(payload@ =~= seq![
                (if screen <= 100 { screen } else { 100u8 }),
                (if keypad <= 100 { keypad } else { 100u8 }),
            ]);
        }
        self.transact_unit(0x0e, payload.as_slice())
    }

    /// Configure which key events should be reported by the device.
    ///
    /// Any key code that is present in `press` or `release` will be
    /// "enabled" and will be reported for the respective event. Any key code
    /// not present will likewise be "disabled".
    pub fn configure_key_reporting(&mut self, press: &[Key], release: &[Key]) -> (r: Result<
        (),
        Error,
    >)
        requires
            old(self)@.wf(),
        ensures
            final(self)@.wf(),
            final(self)@ == old(self)@.after_command(
                0x17,
                seq![spec_mask_fold(press@), spec_mask_fold(release@)],
            ),
            r == old(self)@.command_result(0x17),
    {
        let press_mask = fold_masks(press);
        let release_mask = fold_masks(release);
        let mut payload: Vec<u8> = Vec::new();
        payload.push(press_mask);
        payload.push(release_mask);
        proof {
            assert(payload@ =~= seq![spec_mask_fold(press@), spec_mask_fold(release@)]);
        }
        self.transact_unit(0x17, payload.as_slice())
    }

    /// Set the state of an indicator LED.
    ///
    /// The brightness of the red and green components is a value between 0
    /// (off) and 100 (max brightness); the device itself interprets higher
    /// values as max brightness. Each component is its own command, so two
    /// exchanges run back to back, the second only if the first succeeded.
    ///
    /// # Errors
    ///
    /// - `InvalidArgument` - If the LED index is out of bounds (as defined
    ///   by [`NUM_LEDS`]).
    pub fn set_led(&mut self, index: u8, red: u8, green: u8) -> (r: Result<(), Error>)
        requires
            old(self)@.wf(),
        ensures
            final(self)@.wf(),
            if index >= NUM_LEDS {
                final(self)@ == old(self)@ && r == Err::<(), Error>(Error::InvalidArgument)
            } else {
                let mid = old(self)@.after_command(0x22, seq![spec_led_red_gpio(index), red]);
                let first = old(self)@.command_result(0x22);
                if first is Ok {
                    final(self)@ == mid.after_command(0x22, seq![spec_led_green_gpio(index), green])
                        && r == mid.command_result(0x22)
                } else {
                    final(self)@ == mid && r == first
                }
            },
    {
        if index >= NUM_LEDS {
            return Err(Error::InvalidArgument);
        }
        let (red_gpio, green_gpio) = led_gpios(index);
        match self.set_gpio(red_gpio, red) {
            Ok(()) => {},
            Err(e) => {
                return Err(e);
            },
        }
        self.set_gpio(green_gpio, green)
    }

    /// Drives one general-purpose output to the given value, as a single
    /// command/response exchange. The indicator LEDs' red and green
    /// components are each one such output (see [`led_gpios`]);
    /// [`Device::set_led`] runs this twice.
    pub fn set_gpio(&mut self, gpio: u8, value: u8) -> (r: Result<(), Error>)
        requires
            old(self)@.wf(),
        ensures
            final(self)@.wf(),
            final(self)@ == old(self)@.after_command(0x22, seq![gpio, value]),
            r == old(self)@.command_result(0x22),
    {
        let mut payload: Vec<u8> = Vec::new();
        payload.push(gpio);
        payload.push(value);
        proof {
            assert(payload@ =~= seq![gpio, value]);
        }
        self.transact_unit(0x22, payload.as_slice())
    }
}

} // verus!
