//! The NTP packet: its in-memory form, its 48-byte wire form, and the
//! conversion of its timestamps into Unix time.
use crate::calendar::{civil_from_unix, DateTime};
use crate::wire::{be_bytes, be_word_at, lemma_be_word_of_bytes, push_be_u32, read_be_u32};
use vstd::prelude::*;

verus! {

/// Size of an encoded packet, in bytes.
pub const PACKET_LEN: usize = 48;

/// Seconds from the NTP epoch (1 January 1900) to the Unix epoch (1 January 1970).
pub const UNIX_EPOCH: i64 = 2208988800;

/// Mode byte of a version 3 client request: leap indicator 0, version 3, mode 3.
pub const CLIENT_MODE: u8 = 0x1b;

/// NTP timestamp: seconds since the NTP epoch and a fraction of a second in
/// units of 2^-32 s.
#[derive(Clone, Copy, Debug, PartialEq, Eq, Structural)]
pub struct Timestamp {
    /// Seconds.
    pub seconds: u32,
    /// A fraction of a second.
    pub fraction: u32,
}

/// Network-Time-Protocol packet: 48 bytes on the wire.
#[derive(Clone, Copy, Debug, PartialEq, Eq, Structural)]
pub struct NTP {
    /// NTP mode byte.
    ///     Bit 7-6: leap indicator.
    ///     Bit 5-3: version.
    ///     Bit 2-0: operation mode.
    pub mode: u8,
    /// Stratum level of the local clock.
    pub stratum: u8,
    /// Maximum interval between messages.
    pub poll: u8,
    /// Precision of the local clock.
    pub precision: u8,
    /// Total round trip delay time.
    pub root_delay: u32,
    /// Maximum error allowed from the primary clock.
    pub root_dispersion: u32,
    /// Reference clock identifier.
    pub ref_id: u32,
    /// Reference timestamp.
    pub ref_timestamp: Timestamp,
    /// Originate timestamp.
    pub originate_timestamp: Timestamp,
    /// Receive timestamp.
    pub rx_timestamp: Timestamp,
    /// Transmit timestamp.
    pub tx_timestamp: Timestamp,
}

/// Why a buffer could not be read as a packet.
#[derive(Clone, Copy, Debug, PartialEq, Eq, Structural)]
pub enum PacketError {
    /// Fewer than 48 bytes were available.
    TruncatedPacket,
}

/// The zero timestamp.
pub open spec fn zero_timestamp() -> Timestamp {
    Timestamp { seconds: 0, fraction: 0 }
}

/// The packet with every field zero.
pub open spec fn zero_packet() -> NTP {
    NTP {
        mode: 0,
        stratum: 0,
        poll: 0,
        precision: 0,
        root_delay: 0,
        root_dispersion: 0,
        ref_id: 0,
        ref_timestamp: zero_timestamp(),
        originate_timestamp: zero_timestamp(),
        rx_timestamp: zero_timestamp(),
        tx_timestamp: zero_timestamp(),
    }
}

/// Leap indicator held in a mode byte (bits 7-6).
pub open spec fn leap_of(mode: u8) -> u8 {
    mode >> 6u8
}

/// Version held in a mode byte (bits 5-3).
pub open spec fn version_of(mode: u8) -> u8 {
    (mode >> 3u8) & 7u8
}

/// Operation mode held in a mode byte (bits 2-0).
pub open spec fn operation_of(mode: u8) -> u8 {
    mode & 7u8
}

/// The packet `p` with the client-request bits set in its mode byte.
pub open spec fn with_client_mode(p: NTP) -> NTP {
    NTP { mode: p.mode | CLIENT_MODE, ..p }
}

/// The wire form of a timestamp.
pub open spec fn timestamp_bytes(t: Timestamp) -> Seq<u8> {
    be_bytes(t.seconds) + be_bytes(t.fraction)
}

/// The wire form of a packet: each field in order, words big-endian.
pub open spec fn encode_spec(p: NTP) -> Seq<u8> {
    seq![p.mode, p.stratum, p.poll, p.precision]
        + be_bytes(p.root_delay)
        + be_bytes(p.root_dispersion)
        + be_bytes(p.ref_id)
        + timestamp_bytes(p.ref_timestamp)
        + timestamp_bytes(p.originate_timestamp)
        + timestamp_bytes(p.rx_timestamp)
        + timestamp_bytes(p.tx_timestamp)
}

/// The timestamp whose wire form starts at position `i` of `b`.
pub open spec fn timestamp_at(b: Seq<u8>, i: int) -> Timestamp {
    Timestamp { seconds: be_word_at(b, i), fraction: be_word_at(b, i + 4) }
}

/// The packet read from the first 48 bytes of `b`, or the truncation error
/// when `b` is shorter.
pub open spec fn decode_spec(b: Seq<u8>) -> Result<NTP, PacketError> {
    if b.len() < 48 {
        Err(PacketError::TruncatedPacket)
    } else {
        Ok(
            NTP {
                mode: b[0],
                stratum: b[1],
                poll: b[2],
                precision: b[3],
                root_delay: be_word_at(b, 4),
                root_dispersion: be_word_at(b, 8),
                ref_id: be_word_at(b, 12),
                ref_timestamp: timestamp_at(b, 16),
                originate_timestamp: timestamp_at(b, 24),
                rx_timestamp: timestamp_at(b, 32),
                tx_timestamp: timestamp_at(b, 40),
            },
        )
    }
}

impl NTP {
    /// A new packet with every field zero.
    pub fn new() -> (r: Self)
        ensures
            r == zero_packet(),
    {
        NTP {
            mode: 0x0,
            stratum: 0x0,
            poll: 0x0,
            precision: 0x0,
            root_delay: 0x0,
            root_dispersion: 0x0,
            ref_id: 0x0,
            ref_timestamp: Timestamp { seconds: 0, fraction: 0 },
            originate_timestamp: Timestamp { seconds: 0, fraction: 0 },
            rx_timestamp: Timestamp { seconds: 0, fraction: 0 },
            tx_timestamp: Timestamp { seconds: 0, fraction: 0 },
        }
    }

    /// Leap indicator (bits 7-6 of the mode byte).
    pub fn leap_indicator(&self) -> (r: u8)
        ensures
            r == leap_of(self.mode),
            r < 4,
    {
        let m = self.mode;
        assert(m >> 6u8 < 4) by (bit_vector);
        m >> 6u8
    }

    /// NTP version (bits 5-3 of the mode byte).
    pub fn version(&self) -> (r: u8)
        ensures
            r == version_of(self.mode),
            r < 8,
    {
        let m = self.mode;
        assert((m >> 3u8) & 7u8 < 8) by (bit_vector);
        (m >> 3u8) & 7u8
    }

    /// Operation mode (bits 2-0 of the mode byte).
    pub fn operation_mode(&self) -> (r: u8)
        ensures
            r == operation_of(self.mode),
            r < 8,
    {
        let m = self.mode;
        assert(m & 7u8 < 8) by (bit_vector);
        m & 7u8
    }

    /// Stores `li` as the leap indicator, keeping the other bits of the mode byte.
    pub fn set_leap_indicator(&mut self, li: u8)
        requires
            li < 4,
        ensures
            final(self).mode == (old(self).mode & 0x3fu8) | (li << 6u8),
            leap_of(final(self).mode) == li,
            version_of(final(self).mode) == version_of(old(self).mode),
            operation_of(final(self).mode) == operation_of(old(self).mode),
            *final(self) == (NTP { mode: final(self).mode, ..*old(self) }),
    {
        let m = self.mode;
        assert(leap_of((m & 0x3fu8) | (li << 6u8)) == li
            && version_of((m & 0x3fu8) | (li << 6u8)) == version_of(m)
            && operation_of((m & 0x3fu8) | (li << 6u8)) == operation_of(m)) by (bit_vector)
            requires
                li < 4,
        ;
        self.mode = (m & 0x3fu8) | (li << 6u8);
    }

    /// Stores `v` as the version, keeping the other bits of the mode byte.
    pub fn set_version(&mut self, v: u8)
        requires
            v < 8,
        ensures
            final(self).mode == (old(self).mode & 0xc7u8) | (v << 3u8),
            leap_of(final(self).mode) == leap_of(old(self).mode),
            version_of(final(self).mode) == v,
            operation_of(final(self).mode) == operation_of(old(self).mode),
            *final(self) == (NTP { mode: final(self).mode, ..*old(self) }),
    {
        let m = self.mode;
        assert(leap_of((m & 0xc7u8) | (v << 3u8)) == leap_of(m)
            && version_of((m & 0xc7u8) | (v << 3u8)) == v
            && operation_of((m & 0xc7u8) | (v << 3u8)) == operation_of(m)) by (bit_vector)
            requires
                v < 8,
        ;
        self.mode = (m & 0xc7u8) | (v << 3u8);
    }

    /// Stores `op` as the operation mode, keeping the other bits of the mode byte.
    pub fn set_operation_mode(&mut self, op: u8)
        requires
            op < 8,
        ensures
            final(self).mode == (old(self).mode & 0xf8u8) | op,
            leap_of(final(self).mode) == leap_of(old(self).mode),
            version_of(final(self).mode) == version_of(old(self).mode),
            operation_of(final(self).mode) == op,
            *final(self) == (NTP { mode: final(self).mode, ..*old(self) }),
    {
        let m = self.mode;
        assert(leap_of((m & 0xf8u8) | op) == leap_of(m)
            && version_of((m & 0xf8u8) | op) == version_of(m)
            && operation_of((m & 0xf8u8) | op) == op) by (bit_vector)
            requires
                op < 8,
        ;
        self.mode = (m & 0xf8u8) | op;
    }

    /// The wire form of the packet: 48 bytes, fields in order, words big-endian.
    /// Encoding does not fail.
    pub fn as_vec_u8(&self) -> (r: Result<Vec<u8>, PacketError>)
        ensures
            r matches Ok(v) && v@ == encode_spec(*self),
            r matches Ok(v) && v@.len() == PACKET_LEN,
    {
        let mut packet: Vec<u8> = Vec::new();
        packet.push(self.mode);
        packet.push(self.stratum);
        packet.push(self.poll);
        packet.push(self.precision);
        push_be_u32(&mut packet, self.root_delay);
        push_be_u32(&mut packet, self.root_dispersion);
        push_be_u32(&mut packet, self.ref_id);
        push_be_u32(&mut packet, self.ref_timestamp.seconds);
        push_be_u32(&mut packet, self.ref_timestamp.fraction);
        push_be_u32(&mut packet, self.originate_timestamp.seconds);
        push_be_u32(&mut packet, self.originate_timestamp.fraction);
        push_be_u32(&mut packet, self.rx_timestamp.seconds);
        push_be_u32(&mut packet, self.rx_timestamp.fraction);
        push_be_u32(&mut packet, self.tx_timestamp.seconds);
        push_be_u32(&mut packet, self.tx_timestamp.fraction);
        assert(packet@ =~= encode_spec(*self));
        Ok(packet)
    }

    /// Reads a packet from the first 48 bytes of `data`; fails with
    /// `TruncatedPacket` when fewer are available. The mode byte is split into
    /// its leap indicator, version and operation mode, each stored on its own.
    pub fn as_ntp(data: &Vec<u8>) -> (r: Result<NTP, PacketError>)
        ensures
            r == decode_spec(data@),
            data@.len() < PACKET_LEN <==> r is Err,
    {
        if data.len() < PACKET_LEN {
            return Err(PacketError::TruncatedPacket);
        }
        let buf = data.as_slice();
        let mut ntp_packet = NTP::new();
        let byte_mode = data[0];
        let li = byte_mode >> 6u8;
        let vn = (byte_mode >> 3u8) & 7u8;
        let op = byte_mode & 7u8;
        assert(li < 4 && vn < 8 && op < 8) by (bit_vector)
            requires
                li == byte_mode >> 6u8,
                vn == (byte_mode >> 3u8) & 7u8,
                op == byte_mode & 7u8,
        ;
        ntp_packet.set_leap_indicator(li);
        ntp_packet.set_version(vn);
        ntp_packet.set_operation_mode(op);
        assert(((((0u8 & 0x3fu8) | (li << 6u8)) & 0xc7u8 | (vn << 3u8)) & 0xf8u8) | op == byte_mode)
            by (bit_vector)
            requires
                li == byte_mode >> 6u8,
                vn == (byte_mode >> 3u8) & 7u8,
                op == byte_mode & 7u8,
        ;
        ntp_packet.stratum = data[1];
        ntp_packet.poll = data[2];
        ntp_packet.precision = data[3];
        ntp_packet.root_delay = read_be_u32(buf, 4);
        ntp_packet.root_dispersion = read_be_u32(buf, 8);
        ntp_packet.ref_id = read_be_u32(buf, 12);
        ntp_packet.ref_timestamp.seconds = read_be_u32(buf, 16);
        ntp_packet.ref_timestamp.fraction = read_be_u32(buf, 20);
        ntp_packet.originate_timestamp.seconds = read_be_u32(buf, 24);
        ntp_packet.originate_timestamp.fraction = read_be_u32(buf, 28);
        ntp_packet.rx_timestamp.seconds = read_be_u32(buf, 32);
        ntp_packet.rx_timestamp.fraction = read_be_u32(buf, 36);
        ntp_packet.tx_timestamp.seconds = read_be_u32(buf, 40);
        ntp_packet.tx_timestamp.fraction = read_be_u32(buf, 44);
        Ok(ntp_packet)
    }

    /// Converts an NTP time (`sec` since 1900, `nsec` in units of 2^-32 s)
    /// into Unix time. The packet is left as it is.
    pub fn as_timespec(&mut self, sec: u32, nsec: u32) -> (r: Timespec)
        ensures
            r.sec == unix_seconds(sec),
            r.nsec == fraction_nanos(nsec),
            0 <= r.nsec < 1_000_000_000,
            *final(self) == *old(self),
    {
        let wide: u64 = nsec as u64 * 1_000_000_000u64;
        let nanos: u64 = wide / 0x1_0000_0000u64;
        assert(nanos < 1_000_000_000) by (nonlinear_arith)
            requires
                wide == nsec as u64 * 1_000_000_000u64,
                nanos == wide / 0x1_0000_0000u64,
                nsec < 0x1_0000_0000,
        ;
        Timespec { sec: sec as i64 - UNIX_EPOCH, nsec: nanos as i32 }
    }

    /// The receive timestamp as Unix time.
    pub fn get_timespec(&mut self) -> (r: Timespec)
        ensures
            r.sec == unix_seconds(old(self).rx_timestamp.seconds),
            r.nsec == fraction_nanos(old(self).rx_timestamp.fraction),
            *final(self) == *old(self),
    {
        let seconds = self.rx_timestamp.seconds;
        let fraction = self.rx_timestamp.fraction;
        self.as_timespec(seconds, fraction)
    }

    /// The receive timestamp as a calendar date and time, to the whole second.
    pub fn as_datetime(&mut self) -> (r: DateTime)
        ensures
            r.denotes(unix_seconds(old(self).rx_timestamp.seconds)),
            *final(self) == *old(self),
    {
        let seconds = self.rx_timestamp.seconds;
        let time = self.as_timespec(seconds, self.rx_timestamp.fraction);
        civil_from_unix(time.sec)
    }

    /// Sets the bits of `byte` in the mode byte.
    /// See RFC 5905, section 7.
    pub fn set_mode(&mut self, byte: u8)
        ensures
            *final(self) == (NTP { mode: old(self).mode | byte, ..*old(self) }),
    {
        self.mode = self.mode | byte;
    }

    /// Marks the packet as a version 3 client request.
    /// See RFC 5905, section 7.
    pub fn set_client_mode(&mut self)
        ensures
            *final(self) == with_client_mode(*old(self)),
    {
        self.mode = self.mode | CLIENT_MODE;
    }
}

/// Unix time: seconds since 1 January 1970 and nanoseconds within the second.
#[derive(Clone, Copy, Debug, PartialEq, Eq, Structural)]
pub struct Timespec {
    /// Seconds since the Unix epoch; negative before 1970.
    pub sec: i64,
    /// Nanoseconds, in `0..1_000_000_000`.
    pub nsec: i32,
}

/// Unix seconds of an NTP seconds count.
pub open spec fn unix_seconds(seconds: u32) -> int {
    seconds - UNIX_EPOCH
}

/// Whole nanoseconds in `fraction` units of 2^-32 s, rounded down.
pub open spec fn fraction_nanos(fraction: u32) -> int {
    (fraction as int * 1_000_000_000) / 0x1_0000_0000
}

/// Decoding the encoding of any packet gives the packet back, and the
/// encoding is always 48 bytes long.
pub proof fn lemma_round_trip(p: NTP)
    ensures
        encode_spec(p).len() == PACKET_LEN,
        decode_spec(encode_spec(p)) == Ok::<NTP, PacketError>(p),
{
    let b = encode_spec(p);
    let words = seq![
        p.root_delay, p.root_dispersion, p.ref_id,
        p.ref_timestamp.seconds, p.ref_timestamp.fraction,
        p.originate_timestamp.seconds, p.originate_timestamp.fraction,
        p.rx_timestamp.seconds, p.rx_timestamp.fraction,
        p.tx_timestamp.seconds, p.tx_timestamp.fraction,
    ];
    assert forall|k: int| 0 <= k < 11 implies be_word_at(b, 4 + 4 * k) == words[k] by {
        lemma_be_word_of_bytes(words[k]);
        assert(b.subrange(4 + 4 * k, 8 + 4 * k) =~= be_bytes(words[k]));
    }
    assert(be_word_at(b, 4) == words[0]);
    assert(be_word_at(b, 8) == words[1]);
    assert(be_word_at(b, 12) == words[2]);
    assert(be_word_at(b, 16) == words[3]);
    assert(be_word_at(b, 20) == words[4]);
    assert(be_word_at(b, 24) == words[5]);
    assert(be_word_at(b, 28) == words[6]);
    assert(be_word_at(b, 32) == words[7]);
    assert(be_word_at(b, 36) == words[8]);
    assert(be_word_at(b, 40) == words[9]);
    assert(be_word_at(b, 44) == words[10]);
}

/// A packet whose mode byte is `0x1B`, once encoded and decoded, has leap
/// indicator 0, version 3 and operation mode 3.
pub proof fn lemma_client_mode_fields(p: NTP)
    requires
        p.mode == 0x1b,
    ensures
        decode_spec(encode_spec(p)) matches Ok(q) && leap_of(q.mode) == 0 && version_of(q.mode)
            == 3 && operation_of(q.mode) == 3,
{
    lemma_round_trip(p);
    let m = p.mode;
    assert(leap_of(m) == 0 && version_of(m) == 3 && operation_of(m) == 3) by (bit_vector)
        requires
            m == 0x1b,
    ;
}

/// Setting client mode twice gives the same packet as setting it once.
pub proof fn lemma_client_mode_idempotent(p: NTP)
    ensures
        with_client_mode(with_client_mode(p)) == with_client_mode(p),
{
    let m = p.mode;
    assert((m | 0x1bu8) | 0x1bu8 == m | 0x1bu8) by (bit_vector);
}

} // verus!
