use speed_test::decimal::{parse_u64, push_decimal, push_signed_decimal};
use speed_test::download::{
    chunk_count, download_url, part_bounds, part_gap, range_header, PartProgress,
};
use speed_test::range_check::{
    accepts_ranges, check_request_range, content_length, header_as_text, status_is_success,
    RangeCheckError,
};
use speed_test::sampling::{ping_message, upload_payload, Exchange, UPLOAD_BLOCK_SIZE};
use speed_test::socket_url::{socket_url, SocketUrlError};
use speed_test::speed_test_structure::server_list_url;
use speed_test::stats::{
    download_jitter, download_jitter_computable, interval_stats, interval_stats_computable,
};
use speed_test::{ApiV3LocationInfo, LocationInfo};

fn decimal_of(n: u64) -> String {
    let mut s = String::new();
    push_decimal(&mut s, n);
    s
}

#[test]
fn decimal_text_of_unsigned() {
    assert_eq!(decimal_of(0), "0");
    assert_eq!(decimal_of(7), "7");
    assert_eq!(decimal_of(10), "10");
    assert_eq!(decimal_of(500_000_000), "500000000");
    assert_eq!(decimal_of(u64::MAX), "18446744073709551615");
}

#[test]
fn decimal_text_appends() {
    let mut s = String::from("n=");
    push_decimal(&mut s, 42);
    assert_eq!(s, "n=42");
}

#[test]
fn decimal_text_of_signed() {
    let mut s = String::new();
    push_signed_decimal(&mut s, -15);
    assert_eq!(s, "-15");
    let mut s = String::new();
    push_signed_decimal(&mut s, i64::MIN);
    assert_eq!(s, "-9223372036854775808");
    let mut s = String::new();
    push_signed_decimal(&mut s, 0);
    assert_eq!(s, "0");
}

#[test]
fn parse_reads_like_std() {
    let cases: [&str; 12] = [
        "123", "+7", "", "+", "-", "-1", "007", "12a", " 1",
        "18446744073709551615", "18446744073709551616", "99999999999999999999999",
    ];
    for c in cases.iter() {
        assert_eq!(parse_u64(c.as_bytes()), c.parse::<u64>().ok(), "case {:?}", c);
    }
    assert_eq!(parse_u64(b"+12"), Some(12));
    assert_eq!(parse_u64(b""), None);
}

#[test]
fn parse_reads_back_decimal_text() {
    for n in [0u64, 1, 9, 10, 99, 100, 1_000_000, 123_456_789_012, u64::MAX - 1, u64::MAX] {
        assert_eq!(parse_u64(decimal_of(n).as_bytes()), Some(n));
    }
}

#[test]
fn status_success_range() {
    assert!(!status_is_success(199));
    assert!(status_is_success(200));
    assert!(status_is_success(206));
    assert!(status_is_success(299));
    assert!(!status_is_success(300));
    assert!(!status_is_success(404));
}

#[test]
fn header_text_needs_visible_ascii() {
    assert_eq!(header_as_text(b"bytes"), Some(&b"bytes"[..]));
    assert_eq!(header_as_text(b"a\tb"), Some(&b"a\tb"[..]));
    assert_eq!(header_as_text(b"a\nb"), None);
    assert_eq!(header_as_text(&[0xC3, 0xA9]), None);
}

#[test]
fn accept_ranges_header() {
    assert!(accepts_ranges(Some(b"bytes")));
    assert!(!accepts_ranges(Some(b"none")));
    assert!(!accepts_ranges(Some(b"Bytes")));
    assert!(!accepts_ranges(Some(b"bytes ")));
    assert!(!accepts_ranges(None));
}

#[test]
fn content_length_header() {
    assert_eq!(content_length(Some(b"500000000")), Some(500_000_000));
    assert_eq!(content_length(Some(b"abc")), None);
    assert_eq!(content_length(Some(b"12\x01")), None);
    assert_eq!(content_length(None), None);
}

#[test]
fn range_probe_answers() {
    assert_eq!(
        check_request_range(200, Some(b"bytes"), Some(b"1024")),
        Ok((true, 1024))
    );
    assert_eq!(check_request_range(200, None, Some(b"88")), Ok((false, 88)));
    assert_eq!(
        check_request_range(404, Some(b"bytes"), Some(b"1024")),
        Err(RangeCheckError::RequestFail)
    );
    assert_eq!(
        check_request_range(200, Some(b"bytes"), None),
        Err(RangeCheckError::GetLengthFail)
    );
    assert_eq!(
        check_request_range(204, None, Some(b"-3")),
        Err(RangeCheckError::GetLengthFail)
    );
}

#[test]
fn range_error_messages() {
    assert_eq!(RangeCheckError::RequestFail.message(), "request fail");
    assert_eq!(RangeCheckError::GetLengthFail.message(), "get length fail");
}

#[test]
fn download_address() {
    assert_eq!(
        download_url("https://dl.example/file", 500_000_000, "0.25"),
        "https://dl.example/file?size=500000000&r=0.25"
    );
}

#[test]
fn range_header_text() {
    assert_eq!(range_header(0, 1_000_000), "bytes=0-1000000");
    assert_eq!(range_header(3, 3), "bytes=3-3");
}

#[test]
fn chunk_counts() {
    assert_eq!(chunk_count(500_000_000, 1_000_000), 500);
    assert_eq!(chunk_count(10, 3), 4);
    assert_eq!(chunk_count(9, 3), 3);
    assert_eq!(chunk_count(0, 3), 0);
    assert_eq!(chunk_count(1, 3), 1);
    assert_eq!(chunk_count(0, 0), 0);
    assert_eq!(chunk_count(5, 0), u64::MAX);
    assert_eq!(chunk_count(u64::MAX, 1), u64::MAX);
    assert_eq!(chunk_count(u64::MAX, 2), u64::MAX / 2 + 1);
}

#[test]
fn part_bounds_of_parts() {
    assert_eq!(part_bounds(0, 10, 3), Some((0, 3)));
    assert_eq!(part_bounds(2, 10, 3), Some((6, 9)));
    assert_eq!(part_bounds(3, 10, 3), Some((9, 10)));
    assert_eq!(part_bounds(4, 0, 0), Some((0, 0)));
    assert_eq!(part_bounds(1, u64::MAX, u64::MAX / 2 + 1), None);
    assert_eq!(part_bounds(u64::MAX, u64::MAX, 2), None);
}

#[test]
fn parts_cover_the_download() {
    for (total, chunk) in [(10u64, 3u64), (9, 3), (1, 5), (500_000_000, 1_000_000), (7, 1)] {
        let n = chunk_count(total, chunk);
        let mut expected_start = 0u64;
        for i in 0..n {
            let (start, end) = part_bounds(i, total, chunk).unwrap();
            assert_eq!(start, expected_start);
            assert!(start < total);
            expected_start = end;
        }
        assert_eq!(expected_start, total);
    }
}

#[test]
fn part_gaps() {
    assert_eq!(part_gap(0, 120, 0), None);
    assert_eq!(part_gap(1, 120, 0), Some(120));
    assert_eq!(part_gap(2, 100, 130), Some(-30));
    assert_eq!(part_gap(3, 1i64 << 32, 0), Some(0));
}

#[test]
fn part_progress_counts_blocks() {
    let mut p = PartProgress::new();
    assert!(p.add_block(100));
    assert!(p.add_block(28));
    assert_eq!(p.received, 128);
    assert!(!p.add_block(u64::MAX));
    assert_eq!(p.received, 128);
}

#[test]
fn download_jitter_values() {
    assert_eq!(download_jitter(&[1, 4, 2]), 1);
    assert_eq!(download_jitter(&[5]), 0);
    assert_eq!(download_jitter(&[0, 10, 0, 10]), 7);
    assert!(download_jitter_computable(&[1, 4, 2]));
    assert!(!download_jitter_computable(&[]));
    assert!(!download_jitter_computable(&[i32::MIN, 0]));
    assert!(!download_jitter_computable(&[0, i32::MAX, 0]));
    assert!(download_jitter_computable(&[0, i32::MAX]));
}

#[test]
fn steady_series_has_no_jitter() {
    assert_eq!(download_jitter(&[7, 7, 7, 7]), 0);
    assert_eq!(interval_stats(&[7, 7, 7, 7]), Some((0, 7)));
}

#[test]
fn interval_stats_values() {
    assert_eq!(interval_stats(&[]), None);
    assert_eq!(interval_stats(&[9]), Some((0, 9)));
    assert_eq!(interval_stats(&[3, 1]), Some((0, 3)));
    assert_eq!(interval_stats(&[3, 1, 2]), Some((0, 1)));
    // steps from the second interval on: |1-5| + |9-1| = 12, over 4 intervals
    assert_eq!(interval_stats(&[4, 5, 1, 9]), Some((3, 1)));
    // the last interval is left out of the ping
    assert_eq!(interval_stats(&[6, 8, 2]), Some((2, 6)));
    assert!(interval_stats_computable(&[]));
    assert!(interval_stats_computable(&[i32::MIN, i32::MAX]));
    assert!(!interval_stats_computable(&[0, i32::MIN, i32::MAX]));
}

#[test]
fn exchange_stops_at_eleventh_message() {
    let mut e = Exchange::new();
    let arrivals: [i64; 11] = [10, 11, 13, 16, 20, 25, 31, 38, 46, 55, 65];
    for (k, t) in arrivals.iter().enumerate() {
        assert!(e.accepts(*t));
        let stop = e.observe(*t);
        assert_eq!(stop, k == 10);
    }
    assert!(e.is_stopped());
    assert!(!e.accepts(70));
    assert_eq!(e.intervals(), &[1, 2, 3, 4, 5, 6, 7, 8, 9, 10]);
    assert_eq!(e.times(), &[10, 11, 13, 16, 20, 25, 31, 38, 46, 65]);
}

#[test]
fn exchange_first_gap_is_from_first_message() {
    let mut e = Exchange::new();
    assert!(!e.observe(1000));
    assert_eq!(e.intervals(), &[] as &[i32]);
    assert!(!e.observe(1003));
    assert_eq!(e.intervals(), &[3]);
}

#[test]
fn exchange_gap_is_truncated() {
    let mut e = Exchange::new();
    e.observe(0);
    e.observe(1i64 << 32 | 5);
    assert_eq!(e.intervals(), &[5]);
    let mut f = Exchange::new();
    f.observe(i64::MAX);
    assert!(!f.accepts(-2));
    assert!(f.accepts(0));
}

#[test]
fn ping_text() {
    assert_eq!(ping_message(0), "PING 0");
    assert_eq!(ping_message(1712345678), "PING 1712345678");
    assert_eq!(ping_message(-4), "PING -4");
}

#[test]
fn upload_block() {
    let data = upload_payload();
    assert_eq!(data.len(), UPLOAD_BLOCK_SIZE);
    assert_eq!(data.len(), 1024 * 1024);
    assert!(data.iter().all(|b| *b == 0));
}

#[test]
fn socket_address_of_ping_url() {
    assert_eq!(
        socket_url("https://ping.example.cn:8080/ws").unwrap(),
        "wss://ping.example.cn:8080/ws?transport=websocket"
    );
    assert_eq!(
        socket_url("http://ping.example.cn/?a=1").unwrap(),
        "wss://ping.example.cn/?a=1&transport=websocket"
    );
    assert_eq!(socket_url("not a url"), Err(SocketUrlError::InvalidUrl));
    assert_eq!(socket_url("mailto:someone@example.cn"), Err(SocketUrlError::SchemeRefused));
}

#[test]
fn location_from_fallback_service() {
    let api = ApiV3LocationInfo {
        ip: "1.2.3.4".to_string(),
        country: "中国".to_string(),
        province: "P".to_string(),
        city: "C".to_string(),
        district: "D".to_string(),
        isp: "I".to_string(),
        operator: "O".to_string(),
        country_code: "CN".to_string(),
        lon: "116.4".to_string(),
        lat: "39.9".to_string(),
    };
    let l = LocationInfo::from(api);
    assert_eq!(l.ip, "1.2.3.4");
    assert_eq!(l.full_ip, "1.2.3.4");
    assert_eq!(l.country, "中国");
    assert_eq!(l.country_code, "CN");
    assert_eq!(l.province, "P");
    assert_eq!(l.city, "C");
    assert_eq!(l.distinct, "D");
    assert_eq!(l.isp, "I");
    assert_eq!(l.operator, "O");
    assert_eq!(l.lon, "116.4");
    assert_eq!(l.lat, "39.9");
    assert_eq!(l.net_str, "");
}

#[test]
fn server_list_address() {
    assert_eq!(
        server_list_url("39.9", "116.4"),
        "https://nodes.speedtest.cn/?https=1&browser=1&page=1&lat=39.9&lon=116.4&q="
    );
}

#[test]
fn content_length_reads_back_decimal_text() {
    for n in [0u64, 42, 500_000_000, u64::MAX] {
        let text = decimal_of(n);
        assert_eq!(content_length(Some(text.as_bytes())), Some(n));
        assert_eq!(check_request_range(206, None, Some(text.as_bytes())), Ok((false, n)));
    }
}
