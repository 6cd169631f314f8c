//! Binary framing for the node/coordinator protocol.
//!
//! Every message is a length-prefixed record: a little-endian `u32` record
//! length, then the record itself (a one-byte tag plus fixed-width fields).
//! A frame record is immediately followed by exactly `frame_data_len` raw
//! encoded-image bytes, kept outside the record so the potentially large
//! payload is never copied through the generic record encoding.

use crate::device::DeviceId;
use crate::time::UtcTime;
use vstd::arithmetic::div_mod::{lemma_div_denominator, lemma_fundamental_div_mod};
use vstd::prelude::*;

verus! {

// ---------------------------------------------------------------------------
// Little-endian integers
// ---------------------------------------------------------------------------

/// The four little-endian bytes of `x`.
pub open spec fn spec_u32_le(x: u32) -> Seq<u8> {
    seq![
        (x % 256) as u8,
        (x / 256 % 256) as u8,
        (x / 65536 % 256) as u8,
        (x / 16777216 % 256) as u8,
    ]
}

/// The value of four little-endian bytes.
pub open spec fn spec_u32_from_le(s: Seq<u8>) -> int {
    s[0] + s[1] * 256 + s[2] * 65536 + s[3] * 16777216
}

/// The eight little-endian bytes of `x`.
pub open spec fn spec_u64_le(x: u64) -> Seq<u8> {
    seq![
        (x % 256) as u8,
        (x / 0x100 % 256) as u8,
        (x / 0x1_0000 % 256) as u8,
        (x / 0x100_0000 % 256) as u8,
        (x / 0x1_0000_0000 % 256) as u8,
        (x / 0x100_0000_0000 % 256) as u8,
        (x / 0x1_0000_0000_0000 % 256) as u8,
        (x / 0x100_0000_0000_0000 % 256) as u8,
    ]
}

/// The value of eight little-endian bytes.
pub open spec fn spec_u64_from_le(s: Seq<u8>) -> int {
    s[0] + s[1] * 0x100 + s[2] * 0x1_0000 + s[3] * 0x100_0000 + s[4] * 0x1_0000_0000 + s[5]
        * 0x100_0000_0000 + s[6] * 0x1_0000_0000_0000 + s[7] * 0x100_0000_0000_0000
}

/// Reading back the four bytes of `x` yields `x`.
pub proof fn lemma_u32_le_roundtrip(x: u32)
    ensures
        spec_u32_from_le(spec_u32_le(x)) == x,
{
    let n = x as int;
    lemma_fundamental_div_mod(n, 256);
    lemma_fundamental_div_mod(n / 256, 256);
    lemma_fundamental_div_mod(n / 65536, 256);
    lemma_div_denominator(n, 256, 256);
    lemma_div_denominator(n, 65536, 256);
    assert(n / 16777216 < 256) by (nonlinear_arith)
        requires
            0 <= n < 0x1_0000_0000,
    ;
    assert(n / 16777216 % 256 == n / 16777216) by {
        lemma_fundamental_div_mod(n / 16777216, 256);
        lemma_fundamental_div_mod(n / 16777216 % 256, 256);
    }
}

/// Reading back the eight bytes of `x` yields `x`.
pub proof fn lemma_u64_le_roundtrip(x: u64)
    ensures
        spec_u64_from_le(spec_u64_le(x)) == x,
{
    let n = x as int;
    lemma_fundamental_div_mod(n, 0x100);
    lemma_fundamental_div_mod(n / 0x100, 0x100);
    lemma_fundamental_div_mod(n / 0x1_0000, 0x100);
    lemma_fundamental_div_mod(n / 0x100_0000, 0x100);
    lemma_fundamental_div_mod(n / 0x1_0000_0000, 0x100);
    lemma_fundamental_div_mod(n / 0x100_0000_0000, 0x100);
    lemma_fundamental_div_mod(n / 0x1_0000_0000_0000, 0x100);
    lemma_div_denominator(n, 0x100, 0x100);
    lemma_div_denominator(n, 0x1_0000, 0x100);
    lemma_div_denominator(n, 0x100_0000, 0x100);
    lemma_div_denominator(n, 0x1_0000_0000, 0x100);
    lemma_div_denominator(n, 0x100_0000_0000, 0x100);
    lemma_div_denominator(n, 0x1_0000_0000_0000, 0x100);
    assert(n / 0x100_0000_0000_0000 < 256) by (nonlinear_arith)
        requires
            0 <= n < 0x1_0000_0000_0000_0000,
    ;
    assert(n / 0x100_0000_0000_0000 % 256 == n / 0x100_0000_0000_0000) by {
        lemma_fundamental_div_mod(n / 0x100_0000_0000_0000, 256);
        lemma_fundamental_div_mod(n / 0x100_0000_0000_0000 % 256, 256);
    }
}

/// Appends the four little-endian bytes of `x`.
pub fn push_u32_le(out: &mut Vec<u8>, x: u32)
    ensures
        final(out)@ == old(out)@ + spec_u32_le(x),
{
    out.push((x % 256) as u8);
    out.push((x / 256 % 256) as u8);
    out.push((x / 65536 % 256) as u8);
    out.push((x / 16777216 % 256) as u8);
    proof {
        assert(final(out)@ =~= old(out)@ + spec_u32_le(x));
    }
}

/// Appends the eight little-endian bytes of `x`.
pub fn push_u64_le(out: &mut Vec<u8>, x: u64)
    ensures
        final(out)@ == old(out)@ + spec_u64_le(x),
{
    out.push((x % 256) as u8);
    out.push((x / 0x100 % 256) as u8);
    out.push((x / 0x1_0000 % 256) as u8);
    out.push((x / 0x100_0000 % 256) as u8);
    out.push((x / 0x1_0000_0000 % 256) as u8);
    out.push((x / 0x100_0000_0000 % 256) as u8);
    out.push((x / 0x1_0000_0000_0000 % 256) as u8);
    out.push((x / 0x100_0000_0000_0000 % 256) as u8);
    proof {
        assert(final(out)@ =~= old(out)@ + spec_u64_le(x));
    }
}

/// Reads a little-endian `u32` at offset `at`.
pub fn read_u32_le(buf: &Vec<u8>, at: usize) -> (r: u32)
    requires
        at + 4 <= buf@.len(),
    ensures
        r == spec_u32_from_le(buf@.subrange(at as int, at as int + 4)),
{
    let len: usize = buf.len();
    let b0 = buf[at] as u32;
    let b1 = buf[at + 1] as u32;
    let b2 = buf[at + 2] as u32;
    let b3 = buf[at + 3] as u32;
    b0 + b1 * 256 + b2 * 65536 + b3 * 16777216
}

/// Reads a little-endian `u64` at offset `at`.
pub fn read_u64_le(buf: &Vec<u8>, at: usize) -> (r: u64)
    requires
        at + 8 <= buf@.len(),
    ensures
        r == spec_u64_from_le(buf@.subrange(at as int, at as int + 8)),
{
    let _len: usize = buf.len();
    let b0 = buf[at] as u64;
    let b1 = buf[at + 1] as u64;
    let b2 = buf[at + 2] as u64;
    let b3 = buf[at + 3] as u64;
    let b4 = buf[at + 4] as u64;
    let b5 = buf[at + 5] as u64;
    let b6 = buf[at + 6] as u64;
    let b7 = buf[at + 7] as u64;
    b0 + b1 * 0x100 + b2 * 0x1_0000 + b3 * 0x100_0000 + b4 * 0x1_0000_0000 + b5 * 0x100_0000_0000
        + b6 * 0x1_0000_0000_0000 + b7 * 0x100_0000_0000_0000
}

// ---------------------------------------------------------------------------
// Captured frames
// ---------------------------------------------------------------------------

/// The fixed-width part of a frame record: everything but the raw payload.
#[derive(Debug)]
pub struct FrameMetadata {
    pub device_id: DeviceId,
    pub width: u32,
    pub height: u32,
    pub encoding_repr: [u8; 4],
    pub captured_at: UtcTime,
    pub frame_data_len: u32,
}

/// One captured still or preview frame: metadata plus the encoded image
/// bytes.  Immutable once constructed.
#[derive(Debug)]
pub struct CapturedFrame {
    pub metadata: FrameMetadata,
    pub frame_data: Vec<u8>,
}

/// The mathematical content of a `CapturedFrame`.
#[verifier::ext_equal]
pub struct CapturedFrameView {
    pub device_id: DeviceId,
    pub width: u32,
    pub height: u32,
    pub encoding_repr: Seq<u8>,
    pub captured_at: UtcTime,
    pub frame_data: Seq<u8>,
}

impl CapturedFrameView {
    /// Timestamp normalized, four-byte encoding tag, payload small enough
    /// for its length to travel as a `u32`.
    pub open spec fn wf(self) -> bool {
        &&& self.captured_at.wf()
        &&& self.encoding_repr.len() == 4
        &&& self.frame_data.len() <= u32::MAX
    }
}

impl View for CapturedFrame {
    type V = CapturedFrameView;

    open spec fn view(&self) -> CapturedFrameView {
        CapturedFrameView {
            device_id: self.metadata.device_id,
            width: self.metadata.width,
            height: self.metadata.height,
            encoding_repr: self.metadata.encoding_repr@,
            captured_at: self.metadata.captured_at,
            frame_data: self.frame_data@,
        }
    }
}

impl CapturedFrame {
    /// The length field agrees with the payload it describes.
    pub open spec fn wf(self) -> bool {
        &&& self@.wf()
        &&& self.metadata.frame_data_len == self.frame_data@.len()
    }

    /// Builds a frame at buffer-dequeue time: keeps the first `bytes_used`
    /// bytes of the dequeued buffer and translates the kernel timestamp
    /// (monotonic seconds + microseconds) to UTC via the node's boot time.
    pub fn from_frame(
        frame: &Vec<u8>,
        bytes_used: usize,
        width: u32,
        height: u32,
        encoding_repr: [u8; 4],
        ts_secs: i64,
        ts_usec: i64,
        boot_time_utc: UtcTime,
        device_id: DeviceId,
    ) -> (r: CapturedFrame)
        requires
            bytes_used <= frame@.len(),
            bytes_used <= u32::MAX,
            boot_time_utc.wf(),
            0 <= ts_usec < 1_000_000,
            i64::MIN < boot_time_utc.secs + ts_secs,
            boot_time_utc.secs + ts_secs + 1 < i64::MAX,
        ensures
            r.wf(),
            r@.device_id == device_id,
            r@.width == width,
            r@.height == height,
            r@.encoding_repr == encoding_repr@,
            r@.frame_data == frame@.subrange(0, bytes_used as int),
            r@.captured_at.total_nanos() == boot_time_utc.total_nanos() + ts_secs
                * 1_000_000_000 + ts_usec * 1000,
    {
        let mut frame_data: Vec<u8> = Vec::new();
        let mut i: usize = 0;
        while i < bytes_used
            invariant
                i <= bytes_used,
                bytes_used <= frame@.len(),
                frame_data@ == frame@.subrange(0, i as int),
            decreases bytes_used - i,
        {
            frame_data.push(frame[i]);
            i = i + 1;
            proof {
                assert(frame_data@ =~= frame@.subrange(0, i as int));
            }
        }
        let captured_at = crate::time::timestamp_to_utc(ts_secs, ts_usec, boot_time_utc);
        let metadata = FrameMetadata {
            device_id,
            width,
            height,
            encoding_repr,
            captured_at,
            frame_data_len: bytes_used as u32,
        };
        CapturedFrame { metadata, frame_data }
    }

    /// Which device captured this frame.
    pub fn device_id(&self) -> (r: DeviceId)
        ensures
            r == self@.device_id,
    {
        self.metadata.device_id
    }

    /// Pixel width of the encoded image.
    pub fn width(&self) -> (r: u32)
        ensures
            r == self@.width,
    {
        self.metadata.width
    }

    /// Pixel height of the encoded image.
    pub fn height(&self) -> (r: u32)
        ensures
            r == self@.height,
    {
        self.metadata.height
    }

    /// The four-byte encoding tag (for example `MJPG`).
    pub fn encoding_repr(&self) -> (r: [u8; 4])
        ensures
            r@ == self@.encoding_repr,
    {
        self.metadata.encoding_repr
    }

    /// When the frame was captured, in UTC.
    pub fn captured_at(&self) -> (r: UtcTime)
        ensures
            r == self@.captured_at,
    {
        self.metadata.captured_at
    }

    /// The encoded image bytes.
    pub fn frame_data(&self) -> (r: &Vec<u8>)
        ensures
            r@ == self@.frame_data,
    {
        &self.frame_data
    }
}

// ---------------------------------------------------------------------------
// Messages
// ---------------------------------------------------------------------------

/// What a coordinator asks of a node: start a continuous preview stream, or
/// capture one synchronized still per device, each as close as possible to
/// the given target instant.
#[derive(Copy, Clone, Debug)]
pub enum Request {
    Stream,
    Snap(UtcTime),
}

impl Request {
    /// A snap target carries a normalized timestamp.
    pub open spec fn wf(self) -> bool {
        match self {
            Request::Stream => true,
            Request::Snap(t) => t.wf(),
        }
    }
}

/// One message of a node's continuous preview stream: either a frame, or
/// notice that the given device's preview ended.
#[derive(Debug)]
pub enum StreamResponse {
    Stop(DeviceId),
    Frame(CapturedFrame),
}

/// The mathematical content of a `StreamResponse`.
#[verifier::ext_equal]
pub enum StreamResponseView {
    Stop(DeviceId),
    Frame(CapturedFrameView),
}

impl StreamResponseView {
    pub open spec fn wf(self) -> bool {
        match self {
            StreamResponseView::Stop(_) => true,
            StreamResponseView::Frame(f) => f.wf(),
        }
    }
}

impl View for StreamResponse {
    type V = StreamResponseView;

    open spec fn view(&self) -> StreamResponseView {
        match self {
            StreamResponse::Stop(id) => StreamResponseView::Stop(*id),
            StreamResponse::Frame(f) => StreamResponseView::Frame(f@),
        }
    }
}

impl StreamResponse {
    pub open spec fn wf(self) -> bool {
        match self {
            StreamResponse::Stop(_) => true,
            StreamResponse::Frame(f) => f.wf(),
        }
    }
}

/// A node's answer to a snap request: one still per device that successfully
/// produced one.  A device whose worker failed is simply absent.
#[derive(Debug)]
pub struct SnapResponse {
    pub stills: Vec<CapturedFrame>,
}

impl View for SnapResponse {
    type V = Seq<CapturedFrameView>;

    open spec fn view(&self) -> Seq<CapturedFrameView> {
        self.stills@.map(|i: int, f: CapturedFrame| f@)
    }
}

impl SnapResponse {
    pub open spec fn wf(self) -> bool {
        &&& forall|i: int| 0 <= i < self.stills@.len() ==> (#[trigger] self.stills@[i]).wf()
        &&& self.stills@.len() <= u32::MAX
    }
}

// ---------------------------------------------------------------------------
// Byte-level encoding
// ---------------------------------------------------------------------------

/// The 32 fixed-width metadata bytes of a frame record.
pub open spec fn spec_metadata_bytes(f: CapturedFrameView) -> Seq<u8> {
    spec_u32_le(f.device_id.0) + spec_u32_le(f.width) + spec_u32_le(f.height) + f.encoding_repr
        + spec_u64_le(f.captured_at.secs as u64) + spec_u32_le(f.captured_at.nanos) + spec_u32_le(
        f.frame_data.len() as u32,
    )
}

/// A frame block: the metadata record immediately followed by the raw
/// payload bytes.
pub open spec fn spec_frame_block(f: CapturedFrameView) -> Seq<u8> {
    spec_metadata_bytes(f) + f.frame_data
}

/// The wire bytes of one stream response message.
pub open spec fn spec_stream_response_bytes(r: StreamResponseView) -> Seq<u8> {
    match r {
        StreamResponseView::Stop(id) => spec_u32_le(5) + seq![0u8] + spec_u32_le(id.0),
        StreamResponseView::Frame(f) => spec_u32_le(33) + seq![1u8] + spec_frame_block(f),
    }
}

/// The wire bytes of one request message.
pub open spec fn spec_request_bytes(r: Request) -> Seq<u8> {
    match r {
        Request::Stream => spec_u32_le(1) + seq![0u8],
        Request::Snap(t) => spec_u32_le(13) + seq![1u8] + spec_u64_le(t.secs as u64) + spec_u32_le(
            t.nanos,
        ),
    }
}

/// The concatenated frame blocks of a snap response body.
pub open spec fn spec_frame_blocks(frames: Seq<CapturedFrameView>) -> Seq<u8> {
    frames.flat_map(|f: CapturedFrameView| spec_frame_block(f))
}

/// The wire bytes of one snap response message: a count, then that many
/// frame blocks.
pub open spec fn spec_snap_response_bytes(frames: Seq<CapturedFrameView>) -> Seq<u8> {
    spec_u32_le(frames.len() as u32) + spec_frame_blocks(frames)
}

// ---------------------------------------------------------------------------
// Parsing
// ---------------------------------------------------------------------------

/// Why a message could not be decoded: the buffer ends before the message
/// does (read more and retry), or the bytes cannot be a message at all.
#[derive(Copy, Clone, PartialEq, Eq, Structural, Debug)]
pub enum WireError {
    Truncated,
    Malformed,
}

/// The outcome of parsing a byte sequence: more bytes are needed, the bytes
/// are not a valid message, or a value plus how many bytes it took.
pub enum SpecParse<T> {
    Incomplete,
    Invalid,
    Parsed(T, int),
}

/// Parses one frame block: 32 metadata bytes, then the payload whose length
/// the metadata gives.  Rejects a denormalized timestamp.
pub open spec fn spec_parse_frame_block(s: Seq<u8>) -> SpecParse<CapturedFrameView> {
    if s.len() < 32 {
        SpecParse::Incomplete
    } else {
        let nanos = spec_u32_from_le(s.subrange(24, 28));
        let flen = spec_u32_from_le(s.subrange(28, 32));
        if nanos >= 1_000_000_000 {
            SpecParse::Invalid
        } else if s.len() < 32 + flen {
            SpecParse::Incomplete
        } else {
            SpecParse::Parsed(
                CapturedFrameView {
                    device_id: DeviceId(spec_u32_from_le(s.subrange(0, 4)) as u32),
                    width: spec_u32_from_le(s.subrange(4, 8)) as u32,
                    height: spec_u32_from_le(s.subrange(8, 12)) as u32,
                    encoding_repr: s.subrange(12, 16),
                    captured_at: UtcTime {
                        secs: (spec_u64_from_le(s.subrange(16, 24)) as u64) as i64,
                        nanos: nanos as u32,
                    },
                    frame_data: s.subrange(32, 32 + flen),
                },
                32 + flen,
            )
        }
    }
}

/// Parses one stream response message.
pub open spec fn spec_parse_stream_response(s: Seq<u8>) -> SpecParse<StreamResponseView> {
    if s.len() < 5 {
        SpecParse::Incomplete
    } else {
        let record_len = spec_u32_from_le(s.subrange(0, 4));
        let tag = s[4];
        if record_len == 5 && tag == 0 {
            if s.len() < 9 {
                SpecParse::Incomplete
            } else {
                SpecParse::Parsed(
                    StreamResponseView::Stop(DeviceId(spec_u32_from_le(s.subrange(5, 9)) as u32)),
                    9,
                )
            }
        } else if record_len == 33 && tag == 1 {
            match spec_parse_frame_block(s.skip(5)) {
                SpecParse::Parsed(f, n) => SpecParse::Parsed(StreamResponseView::Frame(f), 5 + n),
                SpecParse::Incomplete => SpecParse::Incomplete,
                SpecParse::Invalid => SpecParse::Invalid,
            }
        } else {
            SpecParse::Invalid
        }
    }
}

/// Parses one request message.
pub open spec fn spec_parse_request(s: Seq<u8>) -> SpecParse<Request> {
    if s.len() < 5 {
        SpecParse::Incomplete
    } else {
        let record_len = spec_u32_from_le(s.subrange(0, 4));
        let tag = s[4];
        if record_len == 1 && tag == 0 {
            SpecParse::Parsed(Request::Stream, 5)
        } else if record_len == 13 && tag == 1 {
            if s.len() < 17 {
                SpecParse::Incomplete
            } else {
                let nanos = spec_u32_from_le(s.subrange(13, 17));
                if nanos >= 1_000_000_000 {
                    SpecParse::Invalid
                } else {
                    SpecParse::Parsed(
                        Request::Snap(
                            UtcTime {
                                secs: (spec_u64_from_le(s.subrange(5, 13)) as u64) as i64,
                                nanos: nanos as u32,
                            },
                        ),
                        17,
                    )
                }
            }
        } else {
            SpecParse::Invalid
        }
    }
}

/// Parses `n` consecutive frame blocks.
pub open spec fn spec_parse_frames(s: Seq<u8>, n: int) -> SpecParse<Seq<CapturedFrameView>>
    decreases n,
{
    if n <= 0 {
        SpecParse::Parsed(Seq::empty(), 0)
    } else {
        match spec_parse_frame_block(s) {
            SpecParse::Parsed(f, k) => match spec_parse_frames(s.skip(k), n - 1) {
                SpecParse::Parsed(rest, m) => SpecParse::Parsed(seq![f] + rest, k + m),
                SpecParse::Incomplete => SpecParse::Incomplete,
                SpecParse::Invalid => SpecParse::Invalid,
            },
            SpecParse::Incomplete => SpecParse::Incomplete,
            SpecParse::Invalid => SpecParse::Invalid,
        }
    }
}

/// Parses one snap response message: a count, then that many frame blocks.
pub open spec fn spec_parse_snap_response(s: Seq<u8>) -> SpecParse<Seq<CapturedFrameView>> {
    if s.len() < 4 {
        SpecParse::Incomplete
    } else {
        match spec_parse_frames(s.skip(4), spec_u32_from_le(s.subrange(0, 4))) {
            SpecParse::Parsed(frames, m) => SpecParse::Parsed(frames, 4 + m),
            SpecParse::Incomplete => SpecParse::Incomplete,
            SpecParse::Invalid => SpecParse::Invalid,
        }
    }
}

// ---------------------------------------------------------------------------
// Serializers
// ---------------------------------------------------------------------------

impl CapturedFrame {
    /// Appends this frame's block (metadata record, then raw payload).
    pub fn write_block(&self, out: &mut Vec<u8>)
        requires
            self.wf(),
        ensures
            final(out)@ == old(out)@ + spec_frame_block(self@),
    {
        push_u32_le(out, self.metadata.device_id.0);
        push_u32_le(out, self.metadata.width);
        push_u32_le(out, self.metadata.height);
        out.push(self.metadata.encoding_repr[0]);
        out.push(self.metadata.encoding_repr[1]);
        out.push(self.metadata.encoding_repr[2]);
        out.push(self.metadata.encoding_repr[3]);
        push_u64_le(out, self.metadata.captured_at.secs as u64);
        push_u32_le(out, self.metadata.captured_at.nanos);
        push_u32_le(out, self.metadata.frame_data_len);
        let ghost mid = out@;
        proof {
            assert(mid =~= old(out)@ + spec_metadata_bytes(self@));
        }
        let n: usize = self.frame_data.len();
        let mut i: usize = 0;
        while i < n
            invariant
                i <= n,
                n == self.frame_data@.len(),
                out@ == mid + self.frame_data@.subrange(0, i as int),
            decreases n - i,
        {
            out.push(self.frame_data[i]);
            i = i + 1;
            proof {
                assert(out@ =~= mid + self.frame_data@.subrange(0, i as int));
            }
        }
        proof {
            assert(self.frame_data@.subrange(0, n as int) =~= self.frame_data@);
            assert(final(out)@ =~= old(out)@ + spec_frame_block(self@));
        }
    }
}

impl StreamResponse {
    /// Writes one stream response message onto a byte buffer.
    pub fn serialize_into(&self, out: &mut Vec<u8>)
        requires
            self.wf(),
        ensures
            final(out)@ == old(out)@ + spec_stream_response_bytes(self@),
    {
        match self {
            StreamResponse::Stop(id) => {
                push_u32_le(out, 5);
                out.push(0u8);
                push_u32_le(out, id.0);
                proof {
                    assert(final(out)@ =~= old(out)@ + spec_stream_response_bytes(self@));
                }
            },
            StreamResponse::Frame(f) => {
                push_u32_le(out, 33);
                out.push(1u8);
                f.write_block(out);
                proof {
                    assert(final(out)@ =~= old(out)@ + spec_stream_response_bytes(self@));
                }
            },
        }
    }
}

impl Request {
    /// Writes one request message onto a byte buffer.
    pub fn serialize_into(&self, out: &mut Vec<u8>)
        requires
            self.wf(),
        ensures
            final(out)@ == old(out)@ + spec_request_bytes(*self),
    {
        match self {
            Request::Stream => {
                push_u32_le(out, 1);
                out.push(0u8);
                proof {
                    assert(final(out)@ =~= old(out)@ + spec_request_bytes(*self));
                }
            },
            Request::Snap(t) => {
                push_u32_le(out, 13);
                out.push(1u8);
                push_u64_le(out, t.secs as u64);
                push_u32_le(out, t.nanos);
                proof {
                    assert(final(out)@ =~= old(out)@ + spec_request_bytes(*self));
                }
            },
        }
    }
}

impl SnapResponse {
    /// Writes one snap response message onto a byte buffer.
    pub fn serialize_into(&self, out: &mut Vec<u8>)
        requires
            self.wf(),
        ensures
            final(out)@ == old(out)@ + spec_snap_response_bytes(self@),
    {
        let count: usize = self.stills.len();
        push_u32_le(out, count as u32);
        let ghost head = out@;
        let mut i: usize = 0;
        while i < count
            invariant
                i <= count,
                count == self.stills@.len(),
                self.wf(),
                out@ == head + spec_frame_blocks(self@.take(i as int)),
            decreases count - i,
        {
            proof {
                self@.lemma_flat_map_take_append(
                    |f: CapturedFrameView| spec_frame_block(f),
                    i as int,
                );
            }
            self.stills[i].write_block(out);
            i = i + 1;
            proof {
                assert(out@ =~= head + spec_frame_blocks(self@.take(i as int)));
            }
        }
        proof {
            assert(self@.take(count as int) =~= self@);
        }
    }
}

// ---------------------------------------------------------------------------
// Deserializers
// ---------------------------------------------------------------------------

/// Reads one frame block at offset `at`: the 32 metadata bytes, then the
/// payload the metadata announces.
pub fn read_frame_block(buf: &Vec<u8>, at: usize) -> (r: Result<(CapturedFrame, usize), WireError>)
    requires
        at <= buf@.len(),
    ensures
        match r {
            Ok((f, n)) => f.wf() && at + n <= buf@.len() && spec_parse_frame_block(
                buf@.skip(at as int),
            ) == SpecParse::Parsed(f@, n as int),
            Err(WireError::Truncated) => spec_parse_frame_block(buf@.skip(at as int))
                is Incomplete,
            Err(WireError::Malformed) => spec_parse_frame_block(buf@.skip(at as int)) is Invalid,
        },
{
    let ghost s = buf@.skip(at as int);
    let len: usize = buf.len();
    if len - at < 32 {
        return Err(WireError::Truncated);
    }
    proof {
        assert(s.subrange(0, 4) =~= buf@.subrange(at as int, at as int + 4));
        assert(s.subrange(4, 8) =~= buf@.subrange(at as int + 4, at as int + 8));
        assert(s.subrange(8, 12) =~= buf@.subrange(at as int + 8, at as int + 12));
        assert(s.subrange(12, 16) =~= buf@.subrange(at as int + 12, at as int + 16));
        assert(s.subrange(16, 24) =~= buf@.subrange(at as int + 16, at as int + 24));
        assert(s.subrange(24, 28) =~= buf@.subrange(at as int + 24, at as int + 28));
        assert(s.subrange(28, 32) =~= buf@.subrange(at as int + 28, at as int + 32));
    }
    let device_id = read_u32_le(buf, at);
    let width = read_u32_le(buf, at + 4);
    let height = read_u32_le(buf, at + 8);
    let encoding_repr: [u8; 4] = [buf[at + 12], buf[at + 13], buf[at + 14], buf[at + 15]];
    let secs_u = read_u64_le(buf, at + 16);
    let nanos = read_u32_le(buf, at + 24);
    let flen = read_u32_le(buf, at + 28);
    if nanos >= 1_000_000_000 {
        return Err(WireError::Malformed);
    }
    let at32 = at + 32;
    if len - at32 < flen as usize {
        return Err(WireError::Truncated);
    }
    let mut frame_data: Vec<u8> = Vec::new();
    let mut i: usize = 0;
    while i < flen as usize
        invariant
            i <= flen,
            at32 + flen <= buf@.len(),
            buf@.len() <= usize::MAX,
            frame_data@ == buf@.subrange(at32 as int, at32 as int + i as int),
        decreases flen - i,
    {
        frame_data.push(buf[at32 + i]);
        i = i + 1;
        proof {
            assert(frame_data@ =~= buf@.subrange(at32 as int, at32 as int + i as int));
        }
    }
    let metadata = FrameMetadata {
        device_id: DeviceId(device_id),
        width,
        height,
        encoding_repr,
        captured_at: UtcTime { secs: secs_u as i64, nanos },
        frame_data_len: flen,
    };
    let f = CapturedFrame { metadata, frame_data };
    proof {
        assert(f@.encoding_repr =~= s.subrange(12, 16));
        assert(f@.frame_data =~= s.subrange(32, 32 + flen as int));
        assert(spec_parse_frame_block(s) == SpecParse::Parsed(f@, 32 + flen as int)) by {
            assert(spec_parse_frame_block(s)->Parsed_0 =~= f@);
        }
    }
    Ok((f, 32 + flen as usize))
}

impl StreamResponse {
    /// Reads one stream response message at offset `start`.
    pub fn deserialize_from(buf: &Vec<u8>, start: usize) -> (r: Result<
        (StreamResponse, usize),
        WireError,
    >)
        requires
            start <= buf@.len(),
        ensures
            match r {
                Ok((m, n)) => m.wf() && start + n <= buf@.len() && spec_parse_stream_response(
                    buf@.skip(start as int),
                ) == SpecParse::Parsed(m@, n as int),
                Err(WireError::Truncated) => spec_parse_stream_response(buf@.skip(start as int))
                    is Incomplete,
                Err(WireError::Malformed) => spec_parse_stream_response(buf@.skip(start as int))
                    is Invalid,
            },
    {
        let ghost s = buf@.skip(start as int);
        let len: usize = buf.len();
        if len - start < 5 {
            return Err(WireError::Truncated);
        }
        proof {
            assert(s.subrange(0, 4) =~= buf@.subrange(start as int, start as int + 4));
        }
        let record_len = read_u32_le(buf, start);
        let tag = buf[start + 4];
        if record_len == 5 && tag == 0 {
            if len - start < 9 {
                return Err(WireError::Truncated);
            }
            proof {
                assert(s.subrange(5, 9) =~= buf@.subrange(start as int + 5, start as int + 9));
            }
            let id = read_u32_le(buf, start + 5);
            Ok((StreamResponse::Stop(DeviceId(id)), 9))
        } else if record_len == 33 && tag == 1 {
            proof {
                assert(s.skip(5) =~= buf@.skip(start as int + 5));
            }
            match read_frame_block(buf, start + 5) {
                Ok((f, k)) => Ok((StreamResponse::Frame(f), 5 + k)),
                Err(e) => Err(e),
            }
        } else {
            Err(WireError::Malformed)
        }
    }
}

impl Request {
    /// Reads one request message at offset `start`.
    pub fn deserialize_from(buf: &Vec<u8>, start: usize) -> (r: Result<
        (Request, usize),
        WireError,
    >)
        requires
            start <= buf@.len(),
        ensures
            match r {
                Ok((m, n)) => m.wf() && start + n <= buf@.len() && spec_parse_request(
                    buf@.skip(start as int),
                ) == SpecParse::Parsed(m, n as int),
                Err(WireError::Truncated) => spec_parse_request(buf@.skip(start as int))
                    is Incomplete,
                Err(WireError::Malformed) => spec_parse_request(buf@.skip(start as int))
                    is Invalid,
            },
    {
        let ghost s = buf@.skip(start as int);
        let len: usize = buf.len();
        if len - start < 5 {
            return Err(WireError::Truncated);
        }
        proof {
            assert(s.subrange(0, 4) =~= buf@.subrange(start as int, start as int + 4));
        }
        let record_len = read_u32_le(buf, start);
        let tag = buf[start + 4];
        if record_len == 1 && tag == 0 {
            Ok((Request::Stream, 5))
        } else if record_len == 13 && tag == 1 {
            if len - start < 17 {
                return Err(WireError::Truncated);
            }
            proof {
                assert(s.subrange(5, 13) =~= buf@.subrange(start as int + 5, start as int + 13));
                assert(s.subrange(13, 17) =~= buf@.subrange(start as int + 13, start as int + 17));
            }
            let secs_u = read_u64_le(buf, start + 5);
            let nanos = read_u32_le(buf, start + 13);
            if nanos >= 1_000_000_000 {
                return Err(WireError::Malformed);
            }
            Ok((Request::Snap(UtcTime { secs: secs_u as i64, nanos }), 17))
        } else {
            Err(WireError::Malformed)
        }
    }
}

/// Reads `n` consecutive frame blocks at offset `at`.
pub fn read_frame_blocks(buf: &Vec<u8>, at: usize, n: u32) -> (r: Result<
    (Vec<CapturedFrame>, usize),
    WireError,
>)
    requires
        at <= buf@.len(),
    ensures
        match r {
            Ok((v, k)) => at + k <= buf@.len() && v@.len() == n && (forall|i: int|
                0 <= i < v@.len() ==> (#[trigger] v@[i]).wf()) && spec_parse_frames(
                buf@.skip(at as int),
                n as int,
            ) == SpecParse::Parsed(v@.map(|i: int, f: CapturedFrame| f@), k as int),
            Err(WireError::Truncated) => spec_parse_frames(buf@.skip(at as int), n as int)
                is Incomplete,
            Err(WireError::Malformed) => spec_parse_frames(buf@.skip(at as int), n as int)
                is Invalid,
        },
    decreases n,
{
    let _len: usize = buf.len();
    if n == 0 {
        let v: Vec<CapturedFrame> = Vec::new();
        proof {
            assert(v@.map(|i: int, f: CapturedFrame| f@) =~= Seq::<CapturedFrameView>::empty());
        }
        return Ok((v, 0));
    }
    match read_frame_block(buf, at) {
        Err(e) => Err(e),
        Ok((f, k)) => {
            proof {
                assert(buf@.skip(at as int).skip(k as int) =~= buf@.skip(at as int + k as int));
            }
            match read_frame_blocks(buf, at + k, n - 1) {
                Err(e) => Err(e),
                Ok((mut v, m)) => {
                    let ghost rest_views = v@.map(|i: int, fr: CapturedFrame| fr@);
                    let ghost fv = f@;
                    v.insert(0, f);
                    proof {
                        assert(v@.map(|i: int, fr: CapturedFrame| fr@) =~= seq![fv] + rest_views);
                    }
                    Ok((v, k + m))
                },
            }
        },
    }
}

impl SnapResponse {
    /// Reads one snap response message at offset `start`.
    pub fn deserialize_from(buf: &Vec<u8>, start: usize) -> (r: Result<
        (SnapResponse, usize),
        WireError,
    >)
        requires
            start <= buf@.len(),
        ensures
            match r {
                Ok((m, n)) => m.wf() && start + n <= buf@.len() && spec_parse_snap_response(
                    buf@.skip(start as int),
                ) == SpecParse::Parsed(m@, n as int),
                Err(WireError::Truncated) => spec_parse_snap_response(buf@.skip(start as int))
                    is Incomplete,
                Err(WireError::Malformed) => spec_parse_snap_response(buf@.skip(start as int))
                    is Invalid,
            },
    {
        let ghost s = buf@.skip(start as int);
        let len: usize = buf.len();
        if len - start < 4 {
            return Err(WireError::Truncated);
        }
        proof {
            assert(s.subrange(0, 4) =~= buf@.subrange(start as int, start as int + 4));
            assert(s.skip(4) =~= buf@.skip(start as int + 4));
        }
        let count = read_u32_le(buf, start);
        match read_frame_blocks(buf, start + 4, count) {
            Ok((stills, k)) => Ok((SnapResponse { stills }, 4 + k)),
            Err(e) => Err(e),
        }
    }
}

// ---------------------------------------------------------------------------
// Round trips
// ---------------------------------------------------------------------------

/// Parsing an encoded frame block yields the frame back, whatever bytes
/// follow it.
#[verifier::rlimit(100)]
pub proof fn lemma_frame_block_round_trip(f: CapturedFrameView, rest: Seq<u8>)
    requires
        f.wf(),
    ensures
        spec_frame_block(f).len() == 32 + f.frame_data.len(),
        spec_parse_frame_block(spec_frame_block(f) + rest) == SpecParse::Parsed(
            f,
            spec_frame_block(f).len() as int,
        ),
{
    let s = spec_frame_block(f) + rest;
    let flen = f.frame_data.len() as int;
    assert(spec_metadata_bytes(f).len() == 32);
    assert(s.subrange(0, 4) =~= spec_u32_le(f.device_id.0));
    assert(s.subrange(4, 8) =~= spec_u32_le(f.width));
    assert(s.subrange(8, 12) =~= spec_u32_le(f.height));
    assert(s.subrange(12, 16) =~= f.encoding_repr);
    assert(s.subrange(16, 24) =~= spec_u64_le(f.captured_at.secs as u64));
    assert(s.subrange(24, 28) =~= spec_u32_le(f.captured_at.nanos));
    assert(s.subrange(28, 32) =~= spec_u32_le(f.frame_data.len() as u32));
    assert(s.subrange(32, 32 + flen) =~= f.frame_data);
    lemma_u32_le_roundtrip(f.device_id.0);
    lemma_u32_le_roundtrip(f.width);
    lemma_u32_le_roundtrip(f.height);
    lemma_u32_le_roundtrip(f.captured_at.nanos);
    lemma_u32_le_roundtrip(f.frame_data.len() as u32);
    lemma_u64_le_roundtrip(f.captured_at.secs as u64);
    let se = f.captured_at.secs;
    assert(((se as u64) as i64) == se) by (bit_vector);
    assert(spec_parse_frame_block(s) is Parsed);
    assert(spec_parse_frame_block(s)->Parsed_0 =~= f);
    assert(spec_parse_frame_block(s)->Parsed_1 == 32 + flen);
}

/// Parsing an encoded stream response yields the message back: the protocol
/// round trip for preview traffic.
#[verifier::rlimit(100)]
pub proof fn lemma_stream_response_round_trip(v: StreamResponseView, rest: Seq<u8>)
    requires
        v.wf(),
    ensures
        spec_parse_stream_response(spec_stream_response_bytes(v) + rest) == SpecParse::Parsed(
            v,
            spec_stream_response_bytes(v).len() as int,
        ),
{
    let s = spec_stream_response_bytes(v) + rest;
    match v {
        StreamResponseView::Stop(id) => {
            assert(s.subrange(0, 4) =~= spec_u32_le(5));
            assert(s.subrange(5, 9) =~= spec_u32_le(id.0));
            lemma_u32_le_roundtrip(5);
            lemma_u32_le_roundtrip(id.0);
            assert(s[4] == 0);
        },
        StreamResponseView::Frame(f) => {
            assert(s.subrange(0, 4) =~= spec_u32_le(33));
            lemma_u32_le_roundtrip(33);
            assert(s[4] == 1);
            assert(s.skip(5) =~= spec_frame_block(f) + rest);
            lemma_frame_block_round_trip(f, rest);
        },
    }
}

/// Parsing an encoded request yields the request back.
#[verifier::rlimit(100)]
pub proof fn lemma_request_round_trip(v: Request, rest: Seq<u8>)
    requires
        v.wf(),
    ensures
        spec_parse_request(spec_request_bytes(v) + rest) == SpecParse::Parsed(
            v,
            spec_request_bytes(v).len() as int,
        ),
{
    let s = spec_request_bytes(v) + rest;
    match v {
        Request::Stream => {
            assert(s.subrange(0, 4) =~= spec_u32_le(1));
            lemma_u32_le_roundtrip(1);
            assert(s[4] == 0);
        },
        Request::Snap(t) => {
            assert(s.subrange(0, 4) =~= spec_u32_le(13));
            assert(s.subrange(5, 13) =~= spec_u64_le(t.secs as u64));
            assert(s.subrange(13, 17) =~= spec_u32_le(t.nanos));
            lemma_u32_le_roundtrip(13);
            lemma_u32_le_roundtrip(t.nanos);
            lemma_u64_le_roundtrip(t.secs as u64);
            let se = t.secs;
            assert(((se as u64) as i64) == se) by (bit_vector);
            assert(s[4] == 1);
        },
    }
}

/// Parsing `n` encoded frame blocks yields the frames back.
#[verifier::rlimit(100)]
/// Concatenation is associative.
proof fn lemma_add_assoc(a: Seq<u8>, b: Seq<u8>, c: Seq<u8>)
    ensures
        (a + b) + c == a + (b + c),
{
    assert((a + b) + c =~= a + (b + c));
}

/// Skipping a concatenation's first part leaves its second.
proof fn lemma_add_skip(a: Seq<u8>, b: Seq<u8>)
    ensures
        (a + b).skip(a.len() as int) == b,
{
    assert((a + b).skip(a.len() as int) =~= b);
}

proof fn lemma_frame_blocks_head(frames: Seq<CapturedFrameView>)
    requires
        frames.len() > 0,
    ensures
        spec_frame_blocks(frames) == spec_frame_block(frames[0]) + spec_frame_blocks(
            frames.skip(1),
        ),
{
    let fblock = |f: CapturedFrameView| spec_frame_block(f);
    let mapped = frames.map_values(fblock);
    assert(mapped.first() == spec_frame_block(frames[0]));
    assert(mapped.drop_first() =~= frames.skip(1).map_values(fblock));
}

proof fn lemma_frame_blocks_empty(frames: Seq<CapturedFrameView>)
    requires
        frames.len() == 0,
    ensures
        spec_frame_blocks(frames).len() == 0,
{
    let fblock = |f: CapturedFrameView| spec_frame_block(f);
    assert(frames.map_values(fblock).len() == 0);
}

#[verifier::spinoff_prover]
#[verifier::rlimit(100)]
pub proof fn lemma_frames_round_trip(frames: Seq<CapturedFrameView>, rest: Seq<u8>)
    requires
        forall|i: int| 0 <= i < frames.len() ==> (#[trigger] frames[i]).wf(),
    ensures
        spec_parse_frames(spec_frame_blocks(frames) + rest, frames.len() as int)
            == SpecParse::Parsed(frames, spec_frame_blocks(frames).len() as int),
    decreases frames.len(),
{
    let s = spec_frame_blocks(frames) + rest;
    if frames.len() == 0 {
        lemma_frame_blocks_empty(frames);
        assert(spec_parse_frames(s, 0)->Parsed_0 =~= frames);
    } else {
        lemma_frame_blocks_head(frames);
        let head = spec_frame_block(frames[0]);
        let tail = spec_frame_blocks(frames.skip(1));
        lemma_frame_block_round_trip(frames[0], tail + rest);
        lemma_add_assoc(head, tail, rest);
        assert(s == head + (tail + rest));
        let k = 32 + frames[0].frame_data.len() as int;
        assert(head.len() == k);
        lemma_add_skip(head, tail + rest);
        assert(s.skip(k) == tail + rest);
        lemma_frames_round_trip(frames.skip(1), rest);
        assert(spec_parse_frame_block(s) == SpecParse::Parsed(frames[0], k));
        assert(seq![frames[0]] + frames.skip(1) =~= frames);
    }
}

/// Parsing an encoded snap response yields every still back: the protocol
/// round trip for a snapshot result set.
#[verifier::rlimit(100)]
pub proof fn lemma_snap_response_round_trip(frames: Seq<CapturedFrameView>, rest: Seq<u8>)
    requires
        forall|i: int| 0 <= i < frames.len() ==> (#[trigger] frames[i]).wf(),
        frames.len() <= u32::MAX,
    ensures
        spec_parse_snap_response(spec_snap_response_bytes(frames) + rest) == SpecParse::Parsed(
            frames,
            spec_snap_response_bytes(frames).len() as int,
        ),
{
    let s = spec_snap_response_bytes(frames) + rest;
    let count = spec_u32_le(frames.len() as u32);
    lemma_add_assoc(count, spec_frame_blocks(frames), rest);
    assert(s == count + (spec_frame_blocks(frames) + rest));
    assert(s.subrange(0, 4) =~= count);
    lemma_u32_le_roundtrip(frames.len() as u32);
    lemma_add_skip(count, spec_frame_blocks(frames) + rest);
    assert(s.skip(4) == spec_frame_blocks(frames) + rest);
    lemma_frames_round_trip(frames, rest);
}

} // verus!
