use cocom::ntp::{PacketError, Timestamp, NTP};
use std::mem::size_of_val;

#[test]
fn test_ntp_packet_size() {
    let packet: NTP = NTP::new();

    assert_eq!(size_of_val(&packet), 48);
}

#[test]
fn test_ntp_packet_vector_size() {
    let packet: NTP = NTP::new();
    let packet_vec: Vec<u8> = packet.as_vec_u8().unwrap();

    assert_eq!(packet_vec.len(), 48);
}

#[test]
fn test_ntp_packet_to_vec_to_ntp_size() {
    let packet: NTP = NTP::new();
    let packet_vec: Vec<u8> = packet.as_vec_u8().unwrap();
    let packet_ntp: NTP = NTP::as_ntp(&packet_vec).unwrap();

    assert_eq!(size_of_val(&packet_ntp), 48);
}

#[test]
fn test_ntp_packet_to_vec_to_ntp() {
    let mut packet: NTP = NTP::new();
    packet.mode = 4;
    let packet_vec: Vec<u8> = packet.as_vec_u8().unwrap();
    let packet_ntp: NTP = NTP::as_ntp(&packet_vec).unwrap();

    assert_eq!(size_of_val(&packet_ntp), 48);
    assert_eq!(packet_ntp.mode, 4);
}

#[test]
fn test_set_mode() {
    let mut packet: NTP = NTP::new();
    packet.set_mode(0x1b);

    assert_eq!(packet.mode, 0x1b);
}

#[test]
fn test_set_client_mode() {
    let mut packet: NTP = NTP::new();
    packet.set_client_mode();

    assert_eq!(packet.mode, 0x1b);
}

#[test]
fn test_as_datetime() {
    let mut packet: NTP = NTP::new();
    packet.rx_timestamp.seconds = 3819404558;
    assert_eq!(packet.as_datetime().to_string(), "2021-01-12 01:42:38");
}

#[test]
fn test_get_timespec() {
    let mut packet: NTP = NTP::new();
    packet.rx_timestamp.seconds = 3819404558;
    assert_eq!(packet.get_timespec().sec, 1610415758);
}

fn sample_packet() -> NTP {
    NTP {
        mode: 0xe4,
        stratum: 2,
        poll: 6,
        precision: 0xec,
        root_delay: 0x0102_0304,
        root_dispersion: 0x0506_0708,
        ref_id: 0xc035_676c,
        ref_timestamp: Timestamp { seconds: 0xe3a1_0000, fraction: 0x8000_0000 },
        originate_timestamp: Timestamp { seconds: 0x1122_3344, fraction: 0x5566_7788 },
        rx_timestamp: Timestamp { seconds: 3819404558, fraction: 0xffff_ffff },
        tx_timestamp: Timestamp { seconds: 0xffff_ffff, fraction: 1 },
    }
}

#[test]
fn round_trip_keeps_every_field() {
    let packet = sample_packet();
    let bytes = packet.as_vec_u8().unwrap();
    assert_eq!(bytes.len(), 48);
    assert_eq!(NTP::as_ntp(&bytes).unwrap(), packet);
}

#[test]
fn encoding_is_big_endian_in_field_order() {
    let bytes = sample_packet().as_vec_u8().unwrap();
    assert_eq!(&bytes[0..4], &[0xe4, 2, 6, 0xec]);
    assert_eq!(&bytes[4..8], &[1, 2, 3, 4]);
    assert_eq!(&bytes[8..12], &[5, 6, 7, 8]);
    assert_eq!(&bytes[12..16], &[0xc0, 0x35, 0x67, 0x6c]);
    assert_eq!(&bytes[16..24], &[0xe3, 0xa1, 0, 0, 0x80, 0, 0, 0]);
    assert_eq!(&bytes[40..48], &[0xff, 0xff, 0xff, 0xff, 0, 0, 0, 1]);
}

#[test]
fn zero_packet_encodes_to_48_zero_bytes() {
    let bytes = NTP::new().as_vec_u8().unwrap();
    assert_eq!(bytes, vec![0u8; 48]);
}

#[test]
fn decoding_reads_only_the_first_48_bytes() {
    let mut bytes = sample_packet().as_vec_u8().unwrap();
    bytes.extend_from_slice(&[0xaa; 952]);
    assert_eq!(bytes.len(), 1000);
    assert_eq!(NTP::as_ntp(&bytes).unwrap(), sample_packet());
}

#[test]
fn decoding_a_short_buffer_fails_as_truncated() {
    let bytes = sample_packet().as_vec_u8().unwrap();
    for n in 0..48 {
        let short: Vec<u8> = bytes[..n].to_vec();
        assert_eq!(NTP::as_ntp(&short), Err(PacketError::TruncatedPacket));
    }
}

#[test]
fn client_mode_byte_splits_into_its_fields() {
    let mut packet = sample_packet();
    packet.mode = 0x1b;
    let decoded = NTP::as_ntp(&packet.as_vec_u8().unwrap()).unwrap();
    assert_eq!(decoded.mode, 0x1b);
    assert_eq!(decoded.leap_indicator(), 0);
    assert_eq!(decoded.version(), 3);
    assert_eq!(decoded.operation_mode(), 3);
}

#[test]
fn mode_fields_are_read_and_written_independently() {
    let mut packet = NTP::new();
    packet.mode = 0xe4;
    assert_eq!(packet.leap_indicator(), 3);
    assert_eq!(packet.version(), 4);
    assert_eq!(packet.operation_mode(), 4);

    packet.set_leap_indicator(1);
    assert_eq!(packet.mode, 0x64);
    packet.set_version(3);
    assert_eq!(packet.mode, 0x5c);
    packet.set_operation_mode(3);
    assert_eq!(packet.mode, 0x5b);
    assert_eq!(packet.leap_indicator(), 1);
    assert_eq!(packet.version(), 3);
    assert_eq!(packet.operation_mode(), 3);
}

#[test]
fn set_client_mode_twice_equals_once() {
    let mut once = sample_packet();
    once.set_client_mode();
    let mut twice = sample_packet();
    twice.set_client_mode();
    twice.set_client_mode();
    assert_eq!(once.mode, 0xff);
    assert_eq!(twice, once);

    let mut zero = NTP::new();
    zero.set_client_mode();
    zero.set_client_mode();
    assert_eq!(zero.mode, 0x1b);
}

#[test]
fn set_client_mode_keeps_other_fields() {
    let mut packet = sample_packet();
    packet.mode = 0;
    packet.set_client_mode();
    let mut expected = sample_packet();
    expected.mode = 0x1b;
    assert_eq!(packet, expected);
}

#[test]
fn zero_timestamp_is_before_the_unix_epoch() {
    let mut packet = NTP::new();
    let t = packet.as_timespec(0, 0);
    assert_eq!(t.sec, -2208988800);
    assert_eq!(t.nsec, 0);
    let dt = packet.as_datetime();
    assert_eq!(dt.to_string(), "1900-01-01 00:00:00");
}

#[test]
fn known_timestamp_converts_to_unix_and_calendar_time() {
    let mut packet = NTP::new();
    let t = packet.as_timespec(3819404558, 0);
    assert_eq!(t.sec, 1610415758);
    assert_eq!(t.nsec, 0);
    packet.rx_timestamp = Timestamp { seconds: 3819404558, fraction: 0 };
    let dt = packet.as_datetime();
    assert_eq!((dt.year, dt.month, dt.day), (2021, 1, 12));
    assert_eq!((dt.hour, dt.minute, dt.second), (1, 42, 38));
    assert_eq!(dt.to_string(), "2021-01-12 01:42:38");
}

#[test]
fn fraction_converts_to_nanoseconds() {
    let mut packet = NTP::new();
    assert_eq!(packet.as_timespec(0, 0x8000_0000).nsec, 500_000_000);
    assert_eq!(packet.as_timespec(0, 0x4000_0000).nsec, 250_000_000);
    assert_eq!(packet.as_timespec(0, 1).nsec, 0);
    assert_eq!(packet.as_timespec(0, 5).nsec, 1);
    assert_eq!(packet.as_timespec(0, 0xffff_ffff).nsec, 999_999_999);
    assert_eq!(packet, NTP::new());
}

#[test]
fn get_timespec_reads_the_receive_timestamp() {
    let mut packet = sample_packet();
    let t = packet.get_timespec();
    assert_eq!(t.sec, 1610415758);
    assert_eq!(t.nsec, 999_999_999);
    assert_eq!(packet, sample_packet());
}

#[test]
fn unix_epoch_and_last_ntp_second_in_calendar_time() {
    let mut packet = NTP::new();
    packet.rx_timestamp.seconds = 2208988800;
    assert_eq!(packet.as_datetime().to_string(), "1970-01-01 00:00:00");
    packet.rx_timestamp.seconds = 0xffff_ffff;
    assert_eq!(packet.as_datetime().to_string(), "2036-02-07 06:28:15");
    packet.rx_timestamp.seconds = 3160771200;
    assert_eq!(packet.as_datetime().to_string(), "2000-02-29 00:00:00");
}
