use ghaf_tools::vproxy::{
    check_chunk, chunk_size_of, classify_request, Command, ChunkVerdict, RequestDecision,
    StreamLimits,
};

// Valid INSTREAM commands
#[test]
fn parse_instream_z() {
    let result = Command::parse(b"zINSTREAM\0");
    assert_eq!(result, Some((Command::Instream, 10)));
}

#[test]
fn parse_instream_n() {
    let result = Command::parse(b"nINSTREAM\n");
    assert_eq!(result, Some((Command::Instream, 10)));
}

#[test]
fn parse_instream_with_trailing_data() {
    // INSTREAM followed by chunk data - should still parse command
    let result = Command::parse(b"zINSTREAM\0\x00\x00\x00\x05hello");
    assert_eq!(result, Some((Command::Instream, 10)));
}

// Valid PING commands
#[test]
fn parse_ping_z() {
    let result = Command::parse(b"zPING\0");
    assert_eq!(result, Some((Command::Ping, 6)));
}

#[test]
fn parse_ping_n() {
    let result = Command::parse(b"nPING\n");
    assert_eq!(result, Some((Command::Ping, 6)));
}

// Valid VERSION commands
#[test]
fn parse_version_z() {
    let result = Command::parse(b"zVERSION\0");
    assert_eq!(result, Some((Command::Version, 9)));
}

#[test]
fn parse_version_n() {
    let result = Command::parse(b"nVERSION\n");
    assert_eq!(result, Some((Command::Version, 9)));
}

// Blocked commands
#[test]
fn parse_scan_blocked() {
    assert_eq!(Command::parse(b"zSCAN\0/etc/passwd"), None);
    assert_eq!(Command::parse(b"nSCAN\n/etc/passwd"), None);
}

#[test]
fn parse_contscan_blocked() {
    assert_eq!(Command::parse(b"zCONTSCAN\0/home"), None);
    assert_eq!(Command::parse(b"nCONTSCAN\n/home"), None);
}

#[test]
fn parse_multiscan_blocked() {
    assert_eq!(Command::parse(b"zMULTISCAN\0/"), None);
    assert_eq!(Command::parse(b"nMULTISCAN\n/"), None);
}

#[test]
fn parse_shutdown_blocked() {
    assert_eq!(Command::parse(b"zSHUTDOWN\0"), None);
    assert_eq!(Command::parse(b"nSHUTDOWN\n"), None);
}

#[test]
fn parse_reload_blocked() {
    assert_eq!(Command::parse(b"zRELOAD\0"), None);
    assert_eq!(Command::parse(b"nRELOAD\n"), None);
}

// Invalid inputs
#[test]
fn parse_no_delimiter() {
    assert_eq!(Command::parse(b"zPING"), None);
    assert_eq!(Command::parse(b"zINSTREAM"), None);
}

#[test]
fn parse_empty() {
    assert_eq!(Command::parse(b""), None);
}

#[test]
fn parse_just_delimiter() {
    assert_eq!(Command::parse(b"\0"), None);
    assert_eq!(Command::parse(b"\n"), None);
}

#[test]
fn parse_wrong_prefix() {
    // Must be 'z' or 'n' prefix
    assert_eq!(Command::parse(b"xPING\0"), None);
    assert_eq!(Command::parse(b"PING\0"), None);
    assert_eq!(Command::parse(b"aPING\n"), None);
}

#[test]
fn parse_wrong_delimiter() {
    // z commands need \0, n commands need \n
    assert_eq!(Command::parse(b"zPING\n"), None);
    assert_eq!(Command::parse(b"nPING\0"), None);
}

#[test]
fn parse_case_sensitive() {
    assert_eq!(Command::parse(b"zping\0"), None);
    assert_eq!(Command::parse(b"zPing\0"), None);
    assert_eq!(Command::parse(b"zinstream\0"), None);
}

#[test]
fn parse_extra_whitespace() {
    assert_eq!(Command::parse(b"zPING \0"), None);
    assert_eq!(Command::parse(b" zPING\0"), None);
    assert_eq!(Command::parse(b"z PING\0"), None);
}

// Command helpers
#[test]
fn command_name() {
    assert_eq!(Command::Instream.name(), "INSTREAM");
    assert_eq!(Command::Ping.name(), "PING");
    assert_eq!(Command::Version.name(), "VERSION");
}

#[test]
fn command_is_instream() {
    assert!(Command::Instream.is_instream());
    assert!(!Command::Ping.is_instream());
    assert!(!Command::Version.is_instream());
}

// An eleven-byte command with its single delimiter at position ten is
// none of the six exact tokens, so it is rejected.
#[test]
fn eleven_byte_command_rejected() {
    let buf = b"xINSTREAMY\0";
    assert_eq!(buf.len(), 11);
    assert_eq!(Command::parse(buf), None);
    assert_eq!(classify_request(buf), RequestDecision::Reject);
}

#[test]
fn shutdown_request_rejected() {
    assert_eq!(classify_request(b"zSHUTDOWN\0"), RequestDecision::Reject);
}

#[test]
fn ping_with_trailing_bytes_rejected() {
    assert_eq!(classify_request(b"zPING\0extra"), RequestDecision::Reject);
}

#[test]
fn instream_with_trailing_bytes_forwarded() {
    assert_eq!(
        classify_request(b"zINSTREAM\0\x00\x00\x00\x05hello"),
        RequestDecision::Forward(Command::Instream, 10)
    );
}

#[test]
fn chunk_header_is_big_endian() {
    assert_eq!(chunk_size_of(0, 0, 0, 5), 5);
    assert_eq!(chunk_size_of(0x01, 0x02, 0x03, 0x04), 0x0102_0304);
    assert_eq!(chunk_size_of(0xff, 0xff, 0xff, 0xff), u32::MAX);
}

#[test]
fn oversized_chunk_aborts_stream() {
    // A 30 MiB chunk against the default 25 MiB ceiling.
    let limits = StreamLimits::defaults();
    let chunk = 30 * 1024 * 1024;
    assert_eq!(
        check_chunk(chunk, 0, &limits),
        ChunkVerdict::TooLargeChunk
    );
}

#[test]
fn oversized_stream_aborts_stream() {
    let limits = StreamLimits::defaults();
    let chunk = 20 * 1024 * 1024;
    let total = 90 * 1024 * 1024;
    assert_eq!(
        check_chunk(chunk, total, &limits),
        ChunkVerdict::TooLargeStream
    );
}

#[test]
fn zero_chunk_is_end_marker() {
    let limits = StreamLimits::defaults();
    assert_eq!(check_chunk(0, 1234, &limits), ChunkVerdict::EndMarker);
}

#[test]
fn ordinary_chunk_is_data() {
    let limits = StreamLimits::defaults();
    assert_eq!(check_chunk(4096, 0, &limits), ChunkVerdict::Data);
}

#[test]
fn default_limits_match_documentation() {
    let limits = StreamLimits::defaults();
    assert_eq!(limits.max_stream_size, 100 * 1024 * 1024);
    assert_eq!(limits.max_chunk_size, 25 * 1024 * 1024);
    assert_eq!(limits.command_timeout_secs, 30);
    assert_eq!(limits.read_timeout_secs, 60);
    assert_eq!(limits.stream_timeout_secs, 120);
}
