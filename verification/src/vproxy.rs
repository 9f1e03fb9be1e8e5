//! The guest-to-host scanning proxy: command filtering and stream framing.
//!
//! A guest's first bytes must be exactly one of six scanner command
//! tokens; everything else is rejected and the connection closed.  For
//! the streaming scan, chunk headers are big-endian 32-bit lengths
//! checked against a per-chunk and a cumulative ceiling.  The sockets are
//! driven by the binary; every decision it takes is specified here.

use vstd::prelude::*;

verus! {

/// Longest allowed command token, in bytes.
pub const MAX_COMMAND_LEN: usize = 10;

/// Allowed scanner commands.  Everything else is blocked, including the
/// path-based scans (they could reach host files), shutdown, and
/// signature reload.
#[derive(Debug, Clone, Copy, PartialEq, Eq, Structural)]
pub enum Command {
    Instream,
    Ping,
    Version,
}

/// `b` begins with the ten bytes `zINSTREAM\0`.
pub open spec fn is_z_instream(b: Seq<u8>) -> bool {
    b.len() >= 10 && b[0] == 122u8 && b[1] == 73u8 && b[2] == 78u8 && b[3] == 83u8 && b[4] == 84u8
        && b[5] == 82u8 && b[6] == 69u8 && b[7] == 65u8 && b[8] == 77u8 && b[9] == 0u8
}

/// `b` begins with the ten bytes `nINSTREAM\n`.
pub open spec fn is_n_instream(b: Seq<u8>) -> bool {
    b.len() >= 10 && b[0] == 110u8 && b[1] == 73u8 && b[2] == 78u8 && b[3] == 83u8 && b[4] == 84u8
        && b[5] == 82u8 && b[6] == 69u8 && b[7] == 65u8 && b[8] == 77u8 && b[9] == 10u8
}

/// `b` begins with the six bytes `zPING\0`.
pub open spec fn is_z_ping(b: Seq<u8>) -> bool {
    b.len() >= 6 && b[0] == 122u8 && b[1] == 80u8 && b[2] == 73u8 && b[3] == 78u8 && b[4] == 71u8
        && b[5] == 0u8
}

/// `b` begins with the six bytes `nPING\n`.
pub open spec fn is_n_ping(b: Seq<u8>) -> bool {
    b.len() >= 6 && b[0] == 110u8 && b[1] == 80u8 && b[2] == 73u8 && b[3] == 78u8 && b[4] == 71u8
        && b[5] == 10u8
}

/// `b` begins with the nine bytes `zVERSION\0`.
pub open spec fn is_z_version(b: Seq<u8>) -> bool {
    b.len() >= 9 && b[0] == 122u8 && b[1] == 86u8 && b[2] == 69u8 && b[3] == 82u8 && b[4] == 83u8
        && b[5] == 73u8 && b[6] == 79u8 && b[7] == 78u8 && b[8] == 0u8
}

/// `b` begins with the nine bytes `nVERSION\n`.
pub open spec fn is_n_version(b: Seq<u8>) -> bool {
    b.len() >= 9 && b[0] == 110u8 && b[1] == 86u8 && b[2] == 69u8 && b[3] == 82u8 && b[4] == 83u8
        && b[5] == 73u8 && b[6] == 79u8 && b[7] == 78u8 && b[8] == 10u8
}

/// The allowlist decision: the command and its token length when the
/// buffer begins with one of the six exact tokens (delimiter included),
/// nothing otherwise.  The tokens carry their delimiter as the last byte,
/// so a buffer matching one has its first delimiter exactly there: this
/// is the same decision as splitting at the first `\0` or `\n` and
/// comparing the piece.
pub open spec fn spec_parse_command(b: Seq<u8>) -> Option<(Command, usize)> {
    if is_z_instream(b) || is_n_instream(b) {
        Some((Command::Instream, 10usize))
    } else if is_z_ping(b) || is_n_ping(b) {
        Some((Command::Ping, 6usize))
    } else if is_z_version(b) || is_n_version(b) {
        Some((Command::Version, 9usize))
    } else {
        None
    }
}

impl Command {
    /// Parse and validate a command buffer: the command and its token
    /// length, only for the six exact allowed tokens.
    pub fn parse(buf: &[u8]) -> (r: Option<(Command, usize)>)
        ensures
            r == spec_parse_command(buf@),
    {
        let n = buf.len();
        if n >= 10 && (buf[0] == 122 || buf[0] == 110) && buf[1] == 73 && buf[2] == 78 && buf[3]
            == 83 && buf[4] == 84 && buf[5] == 82 && buf[6] == 69 && buf[7] == 65 && buf[8] == 77 {
            if buf[0] == 122 && buf[9] == 0 {
                return Some((Command::Instream, 10));
            }
            if buf[0] == 110 && buf[9] == 10 {
                return Some((Command::Instream, 10));
            }
        }
        if n >= 6 && (buf[0] == 122 || buf[0] == 110) && buf[1] == 80 && buf[2] == 73 && buf[3]
            == 78 && buf[4] == 71 {
            if buf[0] == 122 && buf[5] == 0 {
                return Some((Command::Ping, 6));
            }
            if buf[0] == 110 && buf[5] == 10 {
                return Some((Command::Ping, 6));
            }
        }
        if n >= 9 && (buf[0] == 122 || buf[0] == 110) && buf[1] == 86 && buf[2] == 69 && buf[3]
            == 82 && buf[4] == 83 && buf[5] == 73 && buf[6] == 79 && buf[7] == 78 {
            if buf[0] == 122 && buf[8] == 0 {
                return Some((Command::Version, 9));
            }
            if buf[0] == 110 && buf[8] == 10 {
                return Some((Command::Version, 9));
            }
        }
        None
    }

    /// The command's name.
    pub fn name(self) -> (r: &'static str)
        ensures
            self == Command::Instream ==> r@ == "INSTREAM"@,
            self == Command::Ping ==> r@ == "PING"@,
            self == Command::Version ==> r@ == "VERSION"@,
    {
        match self {
            Command::Instream => "INSTREAM",
            Command::Ping => "PING",
            Command::Version => "VERSION",
        }
    }

    /// Whether this is the streaming scan command.
    pub fn is_instream(self) -> (r: bool)
        ensures
            r == (self == Command::Instream),
    {
        matches!(self, Command::Instream)
    }
}

/// How a request's first bytes are handled.
#[derive(Debug, Clone, Copy, PartialEq, Eq, Structural)]
pub enum RequestDecision {
    /// Close the connection with `ERROR: Command not allowed`.
    Reject,
    /// Forward the first `usize` bytes (the token) to the scanner.
    Forward(Command, usize),
}

/// Decide a request: the buffer must begin with an allowed token, and a
/// non-streaming command must not be followed by extra bytes.
pub fn classify_request(buf: &[u8]) -> (r: RequestDecision)
    ensures
        ({
            match spec_parse_command(buf@) {
                None => r == RequestDecision::Reject,
                Some((cmd, len)) => if cmd != Command::Instream && buf@.len() > len {
                    r == RequestDecision::Reject
                } else {
                    r == RequestDecision::Forward(cmd, len)
                },
            }
        }),
{
    match Command::parse(buf) {
        None => RequestDecision::Reject,
        Some((cmd, len)) => {
            if !cmd.is_instream() && buf.len() > len {
                RequestDecision::Reject
            } else {
                RequestDecision::Forward(cmd, len)
            }
        },
    }
}

/// Runtime limits for streaming scans; timeouts are in seconds.
#[derive(Debug, Clone, Copy, PartialEq, Eq, Structural)]
pub struct StreamLimits {
    pub max_stream_size: u64,
    pub max_chunk_size: u32,
    pub command_timeout_secs: u64,
    pub read_timeout_secs: u64,
    pub stream_timeout_secs: u64,
}

impl StreamLimits {
    /// Limits from the command-line values.
    pub fn new(
        max_stream_size: u64,
        max_chunk_size: u32,
        command_timeout_secs: u64,
        read_timeout_secs: u64,
        stream_timeout_secs: u64,
    ) -> (r: StreamLimits)
        ensures
            r == (StreamLimits {
                max_stream_size,
                max_chunk_size,
                command_timeout_secs,
                read_timeout_secs,
                stream_timeout_secs,
            }),
    {
        StreamLimits {
            max_stream_size,
            max_chunk_size,
            command_timeout_secs,
            read_timeout_secs,
            stream_timeout_secs,
        }
    }

    /// The documented defaults: a 100 MiB stream of at most 25 MiB
    /// chunks, 30 s to send a command, 60 s per read, 120 s per stream.
    pub fn defaults() -> (r: StreamLimits)
        ensures
            r.max_stream_size == 104857600u64,
            r.max_chunk_size == 26214400u32,
            r.command_timeout_secs == 30u64,
            r.read_timeout_secs == 60u64,
            r.stream_timeout_secs == 120u64,
    {
        StreamLimits {
            max_stream_size: 104857600,
            max_chunk_size: 26214400,
            command_timeout_secs: 30,
            read_timeout_secs: 60,
            stream_timeout_secs: 120,
        }
    }
}

/// The big-endian 32-bit value of four header bytes.
pub open spec fn spec_be32(b0: u8, b1: u8, b2: u8, b3: u8) -> u32 {
    ((b0 as int) * 0x1000000 + (b1 as int) * 0x10000 + (b2 as int) * 0x100 + (b3 as int)) as u32
}

/// Decode a chunk header: four big-endian bytes into the chunk length.
pub fn chunk_size_of(b0: u8, b1: u8, b2: u8, b3: u8) -> (r: u32)
    ensures
        r == spec_be32(b0, b1, b2, b3),
{
    let r = ((b0 as u32) << 24) | ((b1 as u32) << 16) | ((b2 as u32) << 8) | (b3 as u32);
    proof {
        assert(((b0 as u32) << 24) | ((b1 as u32) << 16) | ((b2 as u32) << 8) | (b3 as u32) == (
        b0 as u32) * 0x1000000 + (b1 as u32) * 0x10000 + (b2 as u32) * 0x100 + (b3 as u32))
            by (bit_vector);
    }
    r
}

/// What to do with one announced chunk.
#[derive(Debug, Clone, Copy, PartialEq, Eq, Structural)]
pub enum ChunkVerdict {
    /// The chunk is larger than the per-chunk ceiling: abort the stream.
    TooLargeChunk,
    /// The stream would exceed its total ceiling: abort the stream.
    TooLargeStream,
    /// The zero-length terminator: forward it and finish.
    EndMarker,
    /// An ordinary data chunk: forward the header and the bytes.
    Data,
}

/// Check one announced chunk against the limits, given the bytes already
/// streamed: oversized chunks are refused first, then streams that would
/// overrun the total, then the terminator is recognised.
pub fn check_chunk(chunk_size: u32, total_bytes: u64, limits: &StreamLimits) -> (r: ChunkVerdict)
    ensures
        chunk_size > limits.max_chunk_size ==> r == ChunkVerdict::TooLargeChunk,
        chunk_size <= limits.max_chunk_size && total_bytes + chunk_size > limits.max_stream_size
            ==> r == ChunkVerdict::TooLargeStream,
        chunk_size <= limits.max_chunk_size && total_bytes + chunk_size <= limits.max_stream_size
            && chunk_size == 0 ==> r == ChunkVerdict::EndMarker,
        chunk_size <= limits.max_chunk_size && total_bytes + chunk_size <= limits.max_stream_size
            && chunk_size > 0 ==> r == ChunkVerdict::Data,
{
    if chunk_size > limits.max_chunk_size {
        return ChunkVerdict::TooLargeChunk;
    }
    if total_bytes > u64::MAX - (chunk_size as u64) || total_bytes + (chunk_size as u64)
        > limits.max_stream_size {
        return ChunkVerdict::TooLargeStream;
    }
    if chunk_size == 0 {
        return ChunkVerdict::EndMarker;
    }
    ChunkVerdict::Data
}

/// Account an accepted data chunk: the new running total, which never
/// exceeds the stream ceiling.
pub fn advance_total(total_bytes: u64, chunk_size: u32, limits: &StreamLimits) -> (r: u64)
    requires
        total_bytes + chunk_size <= limits.max_stream_size,
    ensures
        r == total_bytes + chunk_size,
        r <= limits.max_stream_size,
{
    total_bytes + (chunk_size as u64)
}

} // verus!
