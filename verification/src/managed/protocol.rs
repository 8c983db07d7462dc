//! The management protocol: identifiers, requests and responses, and frames.
//!
//! A frame is a four-byte big-endian length and a payload of at most 64 KiB.

use vstd::prelude::*;

use crate::text;

verus! {

/// The protocol version that this library speaks.
pub const PROTOCOL_MAJOR: u16 = 1;

/// The most bytes that the payload of a frame may have.
pub const MAX_FRAME_BYTES: usize = 65_536;

/// `rand::rng` and `RngExt::random`: sixteen bytes from the thread's random
/// generator. Nothing is promised of them.
#[verifier::external_body]
fn random_bytes() -> [u8; 16] {
    rand::RngExt::random(&mut rand::rng())
}

fn same_bytes(a: &[u8; 16], b: &[u8; 16]) -> (r: bool)
    ensures
        r == (a@ == b@),
{
    let mut i: usize = 0;
    while i < 16
        invariant
            i <= 16,
            forall|k: int| 0 <= k < i ==> a@[k] == b@[k],
        decreases 16 - i,
    {
        if a[i] != b[i] {
            return false;
        }
        i = i + 1;
    }
    assert(a@ =~= b@);
    true
}

fn array_text(bytes: &[u8; 16]) -> (out: String)
    ensures
        out@ == text::hex(bytes@),
{
    let mut list: Vec<u8> = Vec::new();
    let mut i: usize = 0;
    while i < 16
        invariant
            i <= 16,
            list@ == bytes@.take(i as int),
        decreases 16 - i,
    {
        list.push(bytes[i]);
        i = i + 1;
        assert(bytes@.take(i as int) =~= bytes@.take(i - 1).push(bytes@[i - 1]));
    }
    assert(bytes@.take(16) =~= bytes@);
    text::hex_bytes(&list)
}

/// The identifier of one request. Its view is its sixteen bytes.
#[derive(Clone, Copy, Debug, PartialEq, Eq, Hash)]
pub struct RequestId {
    bytes: [u8; 16],
}

impl RequestId {
    pub closed spec fn view(self) -> Seq<u8> {
        self.bytes@
    }

    /// An identifier that was drawn at random: any sixteen bytes.
    pub fn random() -> (r: RequestId)
        ensures
            r@.len() == 16,
    {
        RequestId { bytes: random_bytes() }
    }

    /// The identifier with the given bytes.
    pub fn from_bytes(bytes: [u8; 16]) -> (r: RequestId)
        ensures
            r@ == bytes@,
    {
        RequestId { bytes }
    }

    /// The sixteen bytes.
    pub fn bytes(&self) -> (r: [u8; 16])
        ensures
            r@ == self@,
    {
        self.bytes
    }

    /// Whether two identifiers have the same bytes.
    pub fn same(&self, other: &RequestId) -> (r: bool)
        ensures
            r == (self@ == other@),
    {
        same_bytes(&self.bytes, &other.bytes)
    }

    /// The bytes as thirty-two lower-case hexadecimal digits.
    pub fn text(&self) -> (out: String)
        ensures
            out@ == text::hex(self@),
    {
        array_text(&self.bytes)
    }
}

/// The identifier of one redeploy job. Its view is its sixteen bytes.
#[derive(Clone, Copy, Debug, PartialEq, Eq, Hash)]
pub struct JobId {
    bytes: [u8; 16],
}

/// Whether a text is thirty-two lower-case hexadecimal digits.
pub open spec fn is_job_text(s: Seq<char>) -> bool {
    s.len() == 32 && forall|i: int| 0 <= i < s.len() ==> text::is_lower_hex(#[trigger] s[i])
}

/// The value of a lower-case hexadecimal digit.
pub open spec fn nibble(c: char) -> int {
    if text::is_digit(c) {
        c as int - 48
    } else {
        c as int - 87
    }
}

fn hex_nibble(c: char) -> (r: Option<u8>)
    ensures
        r is Some <==> text::is_lower_hex(c),
        r matches Some(n) ==> n < 16 && n == nibble(c) && text::hex_digit(n as int) == c,
{
    if '0' <= c && c <= '9' {
        Some((c as u8) - 48)
    } else if 'a' <= c && c <= 'f' {
        Some((c as u8) - 87)
    } else {
        None
    }
}

impl JobId {
    pub closed spec fn view(self) -> Seq<u8> {
        self.bytes@
    }

    /// An identifier that was drawn at random: any sixteen bytes, whose text can
    /// be read.
    pub fn random() -> (r: JobId)
        ensures
            r@.len() == 16,
            is_job_text(text::hex(r@)),
    {
        let job = JobId { bytes: random_bytes() };
        proof {
            text::lemma_hex_len(job@);
        }
        job
    }

    /// The identifier with the given bytes.
    pub fn from_bytes(bytes: [u8; 16]) -> (r: JobId)
        ensures
            r@ == bytes@,
    {
        JobId { bytes }
    }

    /// The sixteen bytes.
    pub fn bytes(&self) -> (r: [u8; 16])
        ensures
            r@ == self@,
            r@.len() == 16,
    {
        self.bytes
    }

    /// Reads an identifier from thirty-two lower-case hexadecimal digits.
    pub fn parse(value: &str) -> (r: Result<JobId, ManagementError>)
        ensures
            r is Ok <==> is_job_text(value@),
            r matches Ok(job) ==> job@.len() == 16 && text::hex(job@) == value@,
            r matches Err(e) ==> e is InvalidJobId,
    {
        let v = text::to_chars(value);
        if v.len() != 32 {
            return Err(ManagementError::InvalidJobId);
        }
        let mut bytes: [u8; 16] = [0; 16];
        let mut i: usize = 0;
        assert(text::hex(bytes@.take(0)) =~= v@.take(0));
        while i < 16
            invariant
                i <= 16,
                v@.len() == 32,
                forall|k: int| 0 <= k < 2 * i ==> text::is_lower_hex(#[trigger] v@[k]),
                text::hex(bytes@.take(i as int)) == v@.take(2 * i),
            decreases 16 - i,
        {
            let high: u8 = match hex_nibble(v[2 * i]) {
                Some(n) => n,
                None => return Err(ManagementError::InvalidJobId),
            };
            let low: u8 = match hex_nibble(v[2 * i + 1]) {
                Some(n) => n,
                None => return Err(ManagementError::InvalidJobId),
            };
            let ghost before = bytes@;
            bytes[i] = high * 16 + low;
            proof {
                assert(bytes@.take(i + 1).drop_last() =~= before.take(i as int));
                assert(bytes@.take(i + 1).last() == high * 16 + low);
                assert(v@.take(2 * i + 2) =~= v@.take(2 * i).push(v@[2 * i as int]).push(
                    v@[2 * i + 1],
                ));
            }
            i = i + 1;
        }
        assert(bytes@.take(16) =~= bytes@);
        assert(v@.take(32) =~= v@);
        Ok(JobId { bytes })
    }

    /// Whether two identifiers have the same bytes.
    pub fn same(&self, other: &JobId) -> (r: bool)
        ensures
            r == (self@ == other@),
    {
        same_bytes(&self.bytes, &other.bytes)
    }

    /// The bytes as thirty-two lower-case hexadecimal digits.
    pub fn text(&self) -> (out: String)
        ensures
            out@ == text::hex(self@),
            is_job_text(out@),
    {
        proof {
            text::lemma_hex_len(self@);
        }
        array_text(&self.bytes)
    }
}

/// Two byte sequences with the same hexadecimal digits are the same.
pub proof fn lemma_hex_injective(a: Seq<u8>, b: Seq<u8>)
    requires
        text::hex(a) == text::hex(b),
    ensures
        a == b,
    decreases a.len(),
{
    text::lemma_hex_len(a);
    text::lemma_hex_len(b);
    if a.len() > 0 {
        let ha = text::hex(a);
        let hb = text::hex(b);
        let n = ha.len() as int;
        assert(ha.drop_last().drop_last() =~= text::hex(a.drop_last()));
        assert(hb.drop_last().drop_last() =~= text::hex(b.drop_last()));
        lemma_hex_injective(a.drop_last(), b.drop_last());
        assert(ha[n - 1] == text::hex_digit(a.last() as int % 16));
        assert(hb[n - 1] == text::hex_digit(b.last() as int % 16));
        assert(ha[n - 2] == text::hex_digit(a.last() as int / 16));
        assert(hb[n - 2] == text::hex_digit(b.last() as int / 16));
        assert(a.last() == b.last());
        assert(a =~= a.drop_last().push(a.last()));
        assert(b =~= b.drop_last().push(b.last()));
    } else {
        assert(a =~= b);
    }
}

/// The text of a job identifier is one that can be read, and the identifier
/// `read` from it, whose text is the same, is that identifier.
pub proof fn law_job_text_round_trip(job: JobId, read: JobId)
    requires
        text::hex(read@) == text::hex(job@),
    ensures
        is_job_text(text::hex(job@)),
        read@ == job@,
{
    text::lemma_hex_len(job@);
    lemma_hex_injective(job@, read@);
}

/// Who is at the other end of a management connection.
#[derive(Clone, Copy, Debug, PartialEq, Eq, Structural)]
pub struct PeerCredentials {
    pub pid: u32,
    pub uid: u32,
    pub gid: u32,
}

/// The version that a request asks for.
#[derive(Clone, Debug, PartialEq, Eq)]
pub enum VersionTarget {
    Latest,
    Exact(String),
}

/// What a client asks of the agent.
#[derive(Clone, Debug, PartialEq, Eq)]
pub enum ManagementRequest {
    Info,
    Resolve { target: VersionTarget },
    Redeploy { target: VersionTarget, reinstall_requesting_user: bool },
    JobStatus { job: JobId },
    Repair,
    Unknown,
}

/// What the agent answers.
#[derive(Clone, Debug, PartialEq, Eq)]
pub enum ManagementResponse {
    Info(AgentInfo),
    Resolved { version: String },
    Redeploy(RedeployOutcome),
    Job(RedeployJob),
    Repair(RepairOutcome),
}

/// What an agent says of itself.
#[derive(Clone, Debug, PartialEq, Eq)]
pub struct AgentInfo {
    pub product: String,
    pub package: String,
    pub version: String,
    pub protocol_major: u16,
}

/// The job that a redeploy request led to.
#[derive(Clone, Debug, PartialEq, Eq)]
pub struct RedeployOutcome {
    pub job: JobId,
    pub unit: String,
    pub version: String,
    pub started: bool,
}

/// How far a redeploy job has come.
#[derive(Clone, Copy, Debug, PartialEq, Eq, Structural)]
pub enum JobPhase {
    Queued,
    Preparing,
    Toolchain,
    Resolving,
    Building,
    Validating,
    Staging,
    CommittingSystem,
    RestartingAgent,
    ReinstallingUser,
    Complete,
    Failed,
}

impl JobPhase {
    /// Whether a phase is one of the two that a job ends in.
    pub open spec fn terminal(self) -> bool {
        self is Complete || self is Failed
    }

    /// Whether a job in this phase has ended.
    pub fn is_terminal(&self) -> (r: bool)
        ensures
            r == self.terminal(),
    {
        match self {
            JobPhase::Complete | JobPhase::Failed => true,
            _ => false,
        }
    }
}

/// The public state of a redeploy job.
#[derive(Clone, Debug, PartialEq, Eq)]
pub struct RedeployJob {
    pub job: JobId,
    pub product: String,
    pub version: String,
    pub unit: String,
    pub phase: JobPhase,
    pub detail: String,
    pub system_committed: bool,
    pub rollback_succeeded: Option<bool>,
    pub required_user_reinstalled: Option<bool>,
}

/// What a repair did.
#[derive(Clone, Debug, PartialEq, Eq)]
pub struct RepairOutcome {
    pub changed: bool,
    pub detail: String,
}

/// The stable code of an error that the agent reports.
#[derive(Clone, Copy, Debug, PartialEq, Eq, Structural)]
pub enum ErrorCode {
    BadRequest,
    Unauthorized,
    UnsupportedProtocol,
    NotFound,
    Conflict,
    Unavailable,
    Internal,
}

/// An error that the agent reports.
#[derive(Clone, Debug, PartialEq, Eq)]
pub struct ProtocolError {
    pub code: ErrorCode,
    pub message: String,
}

impl ProtocolError {
    /// An error with a code and a public message.
    pub fn new(code: ErrorCode, message: String) -> (r: ProtocolError)
        ensures
            r == (ProtocolError { code, message }),
    {
        ProtocolError { code, message }
    }
}

/// Why a management request failed at this end.
#[derive(Debug, PartialEq, Eq)]
pub enum ManagementError {
    FrameTooLarge,
    EarlyEof,
    Encode(String),
    Decode(String),
    MismatchedRequestId,
    UnsupportedProtocol(u16),
    InvalidJobId,
    Remote { code: ErrorCode, message: String },
    Io(String),
}

impl ErrorCode {
    /// The name of the code.
    pub open spec fn name(self) -> Seq<char> {
        match self {
            ErrorCode::BadRequest => "BadRequest"@,
            ErrorCode::Unauthorized => "Unauthorized"@,
            ErrorCode::UnsupportedProtocol => "UnsupportedProtocol"@,
            ErrorCode::NotFound => "NotFound"@,
            ErrorCode::Conflict => "Conflict"@,
            ErrorCode::Unavailable => "Unavailable"@,
            ErrorCode::Internal => "Internal"@,
        }
    }

    fn debug_name(&self) -> (r: &'static str)
        ensures
            r@ == self.name(),
    {
        match self {
            ErrorCode::BadRequest => "BadRequest",
            ErrorCode::Unauthorized => "Unauthorized",
            ErrorCode::UnsupportedProtocol => "UnsupportedProtocol",
            ErrorCode::NotFound => "NotFound",
            ErrorCode::Conflict => "Conflict",
            ErrorCode::Unavailable => "Unavailable",
            ErrorCode::Internal => "Internal",
        }
    }
}

impl ManagementError {
    /// The words for the error.
    pub open spec fn words(self) -> Seq<char> {
        match self {
            ManagementError::FrameTooLarge => "management frame exceeds the 65536-byte limit"@,
            ManagementError::EarlyEof => "management peer closed the connection before sending a complete frame"@,
            ManagementError::Encode(error) => "failed to encode management protocol CBOR: "@ + error@,
            ManagementError::Decode(error) => "failed to decode management protocol CBOR: "@ + error@,
            ManagementError::MismatchedRequestId => "management response request ID did not match the request"@,
            ManagementError::UnsupportedProtocol(major) => "management protocol v"@ + text::decimal(major as nat) + " is not supported"@,
            ManagementError::InvalidJobId => "invalid redeploy job ID"@,
            ManagementError::Remote { code, message } => "management request failed ("@ + code.name() + "): "@ + message@,
            ManagementError::Io(error) => "management I/O failed: "@ + error@,
        }
    }

    /// The words for the error.
    pub fn message(&self) -> (out: String)
        ensures
            out@ == self.words(),
    {
        match self {
            ManagementError::FrameTooLarge => "management frame exceeds the 65536-byte limit".to_owned(),
            ManagementError::EarlyEof => "management peer closed the connection before sending a complete frame".to_owned(),
            ManagementError::Encode(error) => "failed to encode management protocol CBOR: ".to_owned().concat(error.as_str()),
            ManagementError::Decode(error) => "failed to decode management protocol CBOR: ".to_owned().concat(error.as_str()),
            ManagementError::MismatchedRequestId => "management response request ID did not match the request".to_owned(),
            ManagementError::UnsupportedProtocol(major) => {
                let major = text::decimal_u64(*major as u64);
                "management protocol v".to_owned().concat(major.as_str()).concat(" is not supported")
            },
            ManagementError::InvalidJobId => "invalid redeploy job ID".to_owned(),
            ManagementError::Remote { code, message } => "management request failed (".to_owned().concat(code.debug_name()).concat("): ").concat(message.as_str()),
            ManagementError::Io(error) => "management I/O failed: ".to_owned().concat(error.as_str()),
        }
    }
}

/// A request with its identifier and the protocol versions that the client
/// speaks.
#[derive(Debug, PartialEq, Eq)]
pub struct RequestEnvelope {
    pub request_id: RequestId,
    pub minimum_protocol_major: u16,
    pub maximum_protocol_major: u16,
    pub request: ManagementRequest,
}

/// A response with the identifier of its request and the protocol version that
/// was used.
#[derive(Debug, PartialEq, Eq)]
pub struct ResponseEnvelope {
    pub request_id: RequestId,
    pub protocol_major: u16,
    pub body: ResponseBody,
}

/// The body of a response.
#[derive(Debug, PartialEq, Eq)]
pub enum ResponseBody {
    Answer(ManagementResponse),
    Error(ProtocolError),
}

// ---------------------------------------------------------------------------
// Payloads and frames
// ---------------------------------------------------------------------------

/// The payload for a frame, from what serialising a value gave.
pub fn encode(serialized: Result<Vec<u8>, String>) -> (r: Result<Vec<u8>, ManagementError>)
    ensures
        match serialized {
            Err(text) => r == Err::<Vec<u8>, ManagementError>(ManagementError::Encode(text)),
            Ok(bytes) => if bytes@.len() > MAX_FRAME_BYTES {
                r == Err::<Vec<u8>, ManagementError>(ManagementError::FrameTooLarge)
            } else {
                r == Ok::<Vec<u8>, ManagementError>(bytes)
            },
        },
{
    match serialized {
        Err(text) => Err(ManagementError::Encode(text)),
        Ok(bytes) => if bytes.len() > MAX_FRAME_BYTES {
            Err(ManagementError::FrameTooLarge)
        } else {
            Ok(bytes)
        },
    }
}

/// Admits a payload to deserialisation: one that is over the limit is refused
/// before anything is read from it.
pub fn decode(bytes: &Vec<u8>) -> (r: Result<&Vec<u8>, ManagementError>)
    ensures
        r is Ok <==> bytes@.len() <= MAX_FRAME_BYTES,
        r matches Ok(payload) ==> payload@ == bytes@,
        r matches Err(e) ==> e is FrameTooLarge,
{
    if bytes.len() > MAX_FRAME_BYTES {
        return Err(ManagementError::FrameTooLarge);
    }
    Ok(bytes)
}

/// The number that four bytes stand for, the first the most significant.
pub open spec fn big_endian(h: Seq<u8>) -> int {
    h[0] as int * 0x100_0000 + h[1] as int * 0x1_0000 + h[2] as int * 0x100 + h[3] as int
}

/// The header of a frame with a payload of `length` bytes.
pub fn frame_header(length: usize) -> (r: Result<[u8; 4], ManagementError>)
    ensures
        r is Ok <==> length <= 0xFFFF_FFFF,
        r matches Ok(header) ==> big_endian(header@) == length,
        r matches Err(e) ==> e is FrameTooLarge,
{
    if length > 0xFFFF_FFFF {
        return Err(ManagementError::FrameTooLarge);
    }
    let a: u8 = (length / 0x100_0000) as u8;
    let b: u8 = (length / 0x1_0000 % 0x100) as u8;
    let c: u8 = (length / 0x100 % 0x100) as u8;
    let d: u8 = (length % 0x100) as u8;
    Ok([a, b, c, d])
}

/// The length of the payload that a header announces.
pub fn frame_length(header: &[u8; 4]) -> (r: Result<usize, ManagementError>)
    ensures
        r is Ok <==> big_endian(header@) <= MAX_FRAME_BYTES,
        r matches Ok(length) ==> length == big_endian(header@),
        r matches Err(e) ==> e is FrameTooLarge,
{
    let length: u64 = header[0] as u64 * 0x100_0000 + header[1] as u64 * 0x1_0000 + header[2] as u64
        * 0x100 + header[3] as u64;
    if length > MAX_FRAME_BYTES as u64 {
        return Err(ManagementError::FrameTooLarge);
    }
    Ok(length as usize)
}

/// The bytes that send a payload.
pub fn write_frame(payload: &Vec<u8>) -> (r: Result<Vec<u8>, ManagementError>)
    ensures
        r is Ok <==> payload@.len() <= 0xFFFF_FFFF,
        r matches Ok(bytes) ==> bytes@.len() == 4 + payload@.len() && big_endian(bytes@.take(4))
            == payload@.len() && bytes@.skip(4) == payload@,
        r matches Err(e) ==> e is FrameTooLarge,
{
    let header = frame_header(payload.len())?;
    let mut bytes: Vec<u8> = Vec::new();
    bytes.push(header[0]);
    bytes.push(header[1]);
    bytes.push(header[2]);
    bytes.push(header[3]);
    let ghost start = bytes@;
    let mut i: usize = 0;
    while i < payload.len()
        invariant
            i <= payload@.len(),
            start.len() == 4,
            bytes@ == start + payload@.take(i as int),
        decreases payload@.len() - i,
    {
        bytes.push(payload[i]);
        i = i + 1;
        assert(start + payload@.take(i as int) =~= (start + payload@.take(i - 1)).push(
            payload@[i - 1],
        ));
    }
    assert(payload@.take(i as int) =~= payload@);
    assert(bytes@.take(4) =~= start);
    assert(bytes@.skip(4) =~= payload@);
    Ok(bytes)
}

/// What reading one frame from a stream of bytes gives. The length is judged
/// before the payload is read.
pub open spec fn frame_in(bytes: Seq<u8>) -> Result<Seq<u8>, FrameFault> {
    if bytes.len() < 4 {
        Err(FrameFault::EarlyEof)
    } else if big_endian(bytes) > MAX_FRAME_BYTES {
        Err(FrameFault::FrameTooLarge)
    } else if bytes.len() < 4 + big_endian(bytes) {
        Err(FrameFault::EarlyEof)
    } else {
        Ok(bytes.subrange(4, 4 + big_endian(bytes)))
    }
}

/// Why no frame can be read.
pub ghost enum FrameFault {
    EarlyEof,
    FrameTooLarge,
}

/// Reads one frame from the bytes that a peer sent.
pub fn read_frame(bytes: &Vec<u8>) -> (r: Result<Vec<u8>, ManagementError>)
    ensures
        r matches Ok(payload) ==> frame_in(bytes@) == Ok::<Seq<u8>, FrameFault>(payload@),
        r matches Err(e) ==> match frame_in(bytes@) {
            Ok(_) => false,
            Err(FrameFault::EarlyEof) => e is EarlyEof,
            Err(FrameFault::FrameTooLarge) => e is FrameTooLarge,
        },
{
    if bytes.len() < 4 {
        return Err(ManagementError::EarlyEof);
    }
    let header: [u8; 4] = [bytes[0], bytes[1], bytes[2], bytes[3]];
    let length: usize = frame_length(&header)?;
    if bytes.len() - 4 < length {
        return Err(ManagementError::EarlyEof);
    }
    let mut payload: Vec<u8> = Vec::new();
    let mut i: usize = 0;
    while i < length
        invariant
            i <= length,
            4 + length <= bytes@.len(),
            payload@ == bytes@.subrange(4, 4 + i),
        decreases length - i,
    {
        payload.push(bytes[4 + i]);
        i = i + 1;
        assert(bytes@.subrange(4, 4 + i) =~= bytes@.subrange(4, 4 + i - 1).push(bytes@[4 + i - 1]));
    }
    Ok(payload)
}

/// A payload within the limit that was sent as a frame is read back unchanged,
/// whatever follows the frame; one over the limit is refused.
pub proof fn law_frame_round_trip(sent: Seq<u8>, payload: Seq<u8>, rest: Seq<u8>)
    requires
        sent.len() == 4 + payload.len(),
        big_endian(sent.take(4)) == payload.len(),
        sent.skip(4) == payload,
    ensures
        payload.len() <= MAX_FRAME_BYTES ==> frame_in(sent + rest) == Ok::<Seq<u8>, FrameFault>(
            payload,
        ),
        payload.len() > MAX_FRAME_BYTES ==> frame_in(sent + rest) == Err::<Seq<u8>, FrameFault>(
            FrameFault::FrameTooLarge,
        ),
{
    let all = sent + rest;
    assert(all[0] == sent.take(4)[0] && all[1] == sent.take(4)[1] && all[2] == sent.take(4)[2]
        && all[3] == sent.take(4)[3]);
    assert(big_endian(all) == big_endian(sent.take(4)));
    assert(all.subrange(4, 4 + payload.len() as int) =~= sent.skip(4));
}

} // verus!
