use hush::logger::{timestamp, Level, Logger};
use hush::time::{unix_time, Clock, Duration, Instant};
use hush::tlv::varint::{decode_varint, encode_varint};
use hush::transport::{server_name, TransportError, DEFAULT_ALPN};

#[test]
fn times_of_day() {
    assert_eq!(timestamp(0), "00:00:00");
    assert_eq!(timestamp(86399), "23:59:59");
    assert_eq!(timestamp(86400 + 3661), "01:01:01");
}

#[test]
fn log_lines() {
    let l = Logger::new("srv");
    assert_eq!(
        l.line_at(Level::Info, 3661, "up"),
        "\x1b[90m01:01:01\x1b[0m \x1b[90m[srv]\x1b[0m \x1b[34m[INF]\x1b[0m up\n"
    );
    let l = Logger::new("");
    assert_eq!(
        l.line_at(Level::Warn, 0, "hot"),
        "\x1b[90m00:00:00\x1b[0m \x1b[33m[WRN]\x1b[0m hot\n"
    );
    assert_eq!(
        l.line_at(Level::Error, 59, ""),
        "\x1b[90m00:00:59\x1b[0m \x1b[31m[ERR]\x1b[0m \n"
    );
    assert!(l.info("i").ends_with(" \x1b[34m[INF]\x1b[0m i\n"));
    assert!(l.warn("w").ends_with(" \x1b[33m[WRN]\x1b[0m w\n"));
    assert!(l.error("e").ends_with(" \x1b[31m[ERR]\x1b[0m e\n"));
}

#[test]
fn spans_of_time() {
    assert_eq!(Duration::from_secs(2).nanos, 2_000_000_000);
    assert_eq!(Duration::from_millis(2).nanos, 2_000_000);
    assert_eq!(Duration::from_nanos(2_999_999).as_millis(), 2);
    assert_eq!(Duration::from_nanos(2_999_999).as_millis_u64(), 2);
    assert_eq!(Duration::from_nanos(1_999_999_999).as_secs(), 1);
    let a = Instant { nanos: 5 };
    let b = Instant { nanos: 8 };
    assert_eq!(b.duration_since(a).nanos, 3);
    assert_eq!(a.duration_since(b).nanos, 0);
    let clock = Clock::start();
    let first = clock.now();
    let second = clock.now();
    assert!(first.nanos <= second.nanos);
    assert!(unix_time().as_secs() > 1_600_000_000);
}

#[test]
fn server_names() {
    assert_eq!(server_name("example.org:443"), "example.org");
    assert_eq!(server_name("example.org"), "example.org");
    assert_eq!(server_name(":1"), "");
    assert_eq!(server_name("a:b:c"), "a");
    assert_eq!(DEFAULT_ALPN, "hush/1");
    assert_eq!(TransportError::Config("x".into()).message(), "transport: x");
}

#[test]
fn varints() {
    let cases: Vec<(u64, Vec<u8>)> = vec![
        (0, vec![0]),
        (127, vec![127]),
        (128, vec![0x80, 1]),
        (300, vec![0xAC, 2]),
        (u64::MAX, vec![255, 255, 255, 255, 255, 255, 255, 255, 255, 1]),
    ];
    for (n, bytes) in cases {
        let mut buf = vec![];
        encode_varint(n, &mut buf);
        assert_eq!(buf, bytes);
        buf.push(7);
        assert_eq!(decode_varint(&buf).unwrap(), (n, bytes.len()));
    }
    assert_eq!(decode_varint(&[]).unwrap_err(), "unterminated varint");
    assert_eq!(decode_varint(&[128; 10]).unwrap_err(), "unterminated varint");
    assert_eq!(decode_varint(&[128; 11]).unwrap_err(), "varint too long");
    assert_eq!(
        decode_varint(&[255, 255, 255, 255, 255, 255, 255, 255, 255, 127]).unwrap(),
        (u64::MAX, 10)
    );
}
