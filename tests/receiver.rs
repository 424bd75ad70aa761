use hdp::receiver::{
    archive_dir, archive_file_path, describe_reception, format_ipv4, read_ip_metadata, IpVersion,
};

fn ipv4_capture(protocol: u8, source: [u8; 4], payload: &[u8]) -> Vec<u8> {
    let mut data = vec![0x45u8, 0, 0, 0, 0, 0, 0, 0, 64, protocol, 0, 0];
    data.extend_from_slice(&source);
    data.extend_from_slice(&[192, 168, 1, 2]);
    data.extend_from_slice(payload);
    data
}

#[test]
fn ipv4_header_fields_extracted() {
    let data = ipv4_capture(6, [10, 0, 0, 1], &[0, 1, 2, 3, 4]);
    let meta = read_ip_metadata(IpVersion::V4, &data);
    assert_eq!(meta.protocol, 6);
    assert_eq!(meta.source, Some([10, 0, 0, 1]));
    let rec = describe_reception(IpVersion::V4, &data, 1_700_000_000_123_456);
    assert_eq!(rec.ip_protocol, 6);
    assert_eq!(rec.source_addr, "10.0.0.1");
    assert_eq!(rec.byte_count, 25);
    assert_eq!(rec.arrival_time_us, 1_700_000_000_123_456);
}

#[test]
fn ipv6_capture_reports_unknown() {
    let data = vec![1u8, 2, 3, 4, 5, 6, 7, 8, 9, 10, 11, 12, 13, 14, 15, 16, 17, 18, 19, 20, 21];
    let meta = read_ip_metadata(IpVersion::V6, &data);
    assert_eq!(meta.protocol, 0);
    assert_eq!(meta.source, None);
    let rec = describe_reception(IpVersion::V6, &data, 5);
    assert_eq!(rec.ip_protocol, 0);
    assert_eq!(rec.source_addr, "unknown");
    assert_eq!(rec.byte_count, 21);
}

#[test]
fn short_ipv4_capture_reports_unknown() {
    let rec = describe_reception(IpVersion::V4, &[0x45, 0, 0], 7);
    assert_eq!(rec.ip_protocol, 0);
    assert_eq!(rec.source_addr, "unknown");
    assert_eq!(rec.byte_count, 3);
}

#[test]
fn dotted_decimal_formatting() {
    assert_eq!(format_ipv4([10, 0, 0, 1]), "10.0.0.1");
    assert_eq!(format_ipv4([255, 255, 255, 255]), "255.255.255.255");
    assert_eq!(format_ipv4([0, 0, 0, 0]), "0.0.0.0");
    assert_eq!(format_ipv4([192, 168, 100, 9]), "192.168.100.9");
}

#[test]
fn ip_version_numbers() {
    assert_eq!(IpVersion::from_number(4), Some(IpVersion::V4));
    assert_eq!(IpVersion::from_number(6), Some(IpVersion::V6));
    assert_eq!(IpVersion::from_number(5), None);
    assert_eq!(IpVersion::from_number(0), None);
}

#[test]
fn archive_paths_named_by_arrival() {
    assert_eq!(archive_dir(), "/tmp/hdp");
    assert_eq!(archive_file_path(1_700_000_000_123_456), "/tmp/hdp/hdp_1700000000123456.bin");
    assert_eq!(archive_file_path(0), "/tmp/hdp/hdp_0.bin");
    assert_ne!(archive_file_path(10), archive_file_path(11));
    assert_ne!(archive_file_path(1), archive_file_path(10));
    assert_eq!(
        archive_file_path(u128::MAX),
        format!("/tmp/hdp/hdp_{}.bin", u128::MAX)
    );
}
