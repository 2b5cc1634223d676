//! Status client for Minecraft servers: the status document, the address a
//! server is reached at, the packets of the status exchange, and the
//! exchange itself as a sequence of single steps.

pub mod exchange;
pub mod protocol;

use crate::error::{ProtocolError, ProtocolErrorView};
use crate::utils::text::{
    concat3, last_index_of, lemma_last_index_of, parse_u16, parse_u16_text, rfind_byte,
    split_around,
};
use protocol::{
    decode_string, decode_varint, encode_string, lemma_decode_varint_outcomes, encode_varint, frame, frame_packet, read_string,
    write_string, write_varint, VarIntProgress, VarIntReader,
};
use vstd::prelude::*;
use vstd::slice::slice_subrange;
use vstd::string::*;
use vstd::utf8::{decode_utf8, encode_utf8, encode_utf8_decode_utf8};

verus! {

/// Server status information returned by a Minecraft server.
#[derive(Debug, Clone, PartialEq, Eq)]
pub struct ServerStatus {
    pub version: VersionInfo,
    pub players: PlayersInfo,
    pub description: Description,
}

/// Version information for the Minecraft server.
#[derive(Debug, Clone, PartialEq, Eq)]
pub struct VersionInfo {
    pub name: String,
    pub protocol: u16,
}

/// Player count and list information.
#[derive(Debug, Clone, PartialEq, Eq)]
pub struct PlayersInfo {
    pub max: u16,
    pub online: u16,
    /// Some of the players that are online; empty where the server names none.
    pub sample: Vec<PlayerSample>,
}

/// Individual player information in the server list.
#[derive(Debug, Clone, PartialEq, Eq)]
pub struct PlayerSample {
    pub name: String,
    pub id: String,
}

/// Server description (MOTD), in either of the two shapes that servers send.
#[derive(Debug, Clone, PartialEq, Eq)]
pub enum Description {
    /// The description as a bare string.
    String(String),
    /// The description as an object with a `text` field.
    Object { text: String },
}

pub struct VersionInfoView {
    pub name: Seq<char>,
    pub protocol: u16,
}

pub struct PlayerSampleView {
    pub name: Seq<char>,
    pub id: Seq<char>,
}

pub struct PlayersInfoView {
    pub max: u16,
    pub online: u16,
    pub sample: Seq<PlayerSampleView>,
}

pub enum DescriptionView {
    String(Seq<char>),
    Object { text: Seq<char> },
}

pub struct ServerStatusView {
    pub version: VersionInfoView,
    pub players: PlayersInfoView,
    pub description: DescriptionView,
}

impl View for VersionInfo {
    type V = VersionInfoView;

    open spec fn view(&self) -> VersionInfoView {
        VersionInfoView { name: self.name@, protocol: self.protocol }
    }
}

impl View for PlayerSample {
    type V = PlayerSampleView;

    open spec fn view(&self) -> PlayerSampleView {
        PlayerSampleView { name: self.name@, id: self.id@ }
    }
}

impl View for PlayersInfo {
    type V = PlayersInfoView;

    open spec fn view(&self) -> PlayersInfoView {
        PlayersInfoView {
            max: self.max,
            online: self.online,
            sample: Seq::new(self.sample@.len(), |i: int| self.sample@[i]@),
        }
    }
}

impl DescriptionView {
    /// The description as plain text, whichever shape it came in.
    pub open spec fn text(self) -> Seq<char> {
        match self {
            DescriptionView::String(s) => s,
            DescriptionView::Object { text } => text,
        }
    }
}

impl View for Description {
    type V = DescriptionView;

    open spec fn view(&self) -> DescriptionView {
        match self {
            Description::String(s) => DescriptionView::String(s@),
            Description::Object { text } => DescriptionView::Object { text: text@ },
        }
    }
}

impl View for ServerStatus {
    type V = ServerStatusView;

    open spec fn view(&self) -> ServerStatusView {
        ServerStatusView {
            version: self.version@,
            players: self.players@,
            description: self.description@,
        }
    }
}

impl Description {
    /// Get the text content of the description.
    pub fn text(&self) -> (r: &str)
        ensures
            r@ == self@.text(),
    {
        match self {
            Description::String(s) => s.as_str(),
            Description::Object { text } => text.as_str(),
        }
    }
}

/// The port that a server is reached at where the address names none.
pub const DEFAULT_PORT: u16 = 25565;

/// The host and the port that an address of the form `host:port` names,
/// by the bytes of its text. The last colon divides the two; without a
/// colon the whole address is the host and the port is 25565. There is no
/// result where what follows the last colon is not a port number.
pub open spec fn address_parts(address: Seq<u8>) -> Option<(Seq<u8>, u16)> {
    let colon = last_index_of(address, 0x3A);
    if colon < 0 {
        Some((address, DEFAULT_PORT))
    } else {
        match parse_u16(address.subrange(colon + 1, address.len() as int)) {
            Some(port) => Some((address.subrange(0, colon), port)),
            None => None,
        }
    }
}

/// An address without a colon names a host at the default port 25565.
pub proof fn lemma_address_without_port(address: Seq<u8>)
    requires
        forall|i: int| 0 <= i < address.len() ==> address[i] != 0x3A,
    ensures
        address_parts(address) == Some((address, 25565u16)),
{
    lemma_last_index_of(address, 0x3A);
}

/// Takes an address apart into host and port.
pub fn split_address(address: &str) -> (r: Result<(String, u16), ProtocolError>)
    ensures
        match r {
            Ok((host, port)) => address_parts(address.spec_bytes()) == Some(
                (encode_utf8(host@), port),
            ),
            Err(e) => address_parts(address.spec_bytes()) is None && e@
                == ProtocolErrorView::AddressResolutionFailed(
                "Invalid port in address '"@ + address@ + "'"@,
            ),
        },
{
    let bytes = address.as_bytes();
    proof {
        lemma_last_index_of(bytes@, 0x3A);
    }
    match rfind_byte(bytes, 0x3A) {
        None => Ok((String::from_str(address), DEFAULT_PORT)),
        Some(colon) => {
            let (host, port_text) = split_around(address, colon);
            match parse_u16_text(port_text.as_bytes()) {
                Some(port) => Ok((String::from_str(host), port)),
                None => Err(
                    ProtocolError::AddressResolutionFailed(
                        concat3("Invalid port in address '", address, "'"),
                    ),
                ),
            }
        },
    }
}

/// The two bytes of a port number, most significant first.
pub open spec fn port_bytes(port: u16) -> Seq<u8> {
    seq![(port / 256) as u8, (port % 256) as u8]
}

/// Payload of the handshake packet: packet id 0, protocol version -1 (any),
/// the server's host and port, and next state 1 (status).
pub open spec fn handshake_payload(host: Seq<char>, port: u16) -> Seq<u8> {
    encode_varint(0) + encode_varint(-1i32) + encode_string(host) + port_bytes(port) + encode_varint(
        1,
    )
}

/// Payload of the status request packet: packet id 0 and nothing else.
pub open spec fn status_request_payload() -> Seq<u8> {
    encode_varint(0)
}

/// Builds the payload of the handshake packet.
pub fn build_handshake(host: &str, port: u16) -> (payload: Vec<u8>)
    ensures
        payload@ == handshake_payload(host@, port),
{
    let mut payload: Vec<u8> = Vec::new();
    let _ = write_varint(&mut payload, 0);
    let _ = write_varint(&mut payload, -1);
    let _ = write_string(&mut payload, host);
    let high: u8 = (port >> 8) as u8;
    let low: u8 = (port & 0xFF) as u8;
    proof {
        assert((port >> 8) as u8 == (port / 256) as u8) by (bit_vector);
        assert((port & 0xFF) as u8 == (port % 256) as u8) by (bit_vector);
    }
    payload.push(high);
    payload.push(low);
    let _ = write_varint(&mut payload, 1);
    assert(payload@ =~= handshake_payload(host@, port));
    payload
}

/// Builds the payload of the status request packet.
pub fn build_status_request() -> (payload: Vec<u8>)
    ensures
        payload@ == status_request_payload(),
{
    let mut payload: Vec<u8> = Vec::new();
    let _ = write_varint(&mut payload, 0);
    assert(payload@ =~= status_request_payload());
    payload
}

/// The status document that a response payload carries: one byte of packet
/// id, which may be anything, then the document as a protocol string.
pub open spec fn response_document(payload: Seq<u8>) -> Result<Seq<char>, ProtocolErrorView> {
    if payload.len() == 0 {
        Err(ProtocolErrorView::UnexpectedEndOfData)
    } else {
        decode_string(payload.drop_first())
    }
}

/// Takes the status document out of a response payload.
pub fn read_status_response(payload: &[u8]) -> (r: Result<String, ProtocolError>)
    ensures
        match r {
            Ok(text) => response_document(payload@) == Ok::<Seq<char>, ProtocolErrorView>(text@),
            Err(e) => response_document(payload@) == Err::<Seq<char>, ProtocolErrorView>(e@),
        },
{
    if payload.len() == 0 {
        return Err(ProtocolError::UnexpectedEndOfData);
    }
    let body = slice_subrange(payload, 1, payload.len());
    assert(body@ =~= payload@.drop_first());
    read_string(body)
}

/// Bound, in seconds, on opening the connection and on each read and write
/// that follows.
pub const TIMEOUT_SECS: u64 = 10;

/// Where one status exchange stands. An exchange starts out disconnected
/// and only moves forward; `Parsed` and `Error` are final.
pub enum PingState {
    /// The address is being resolved.
    Disconnected,
    /// The endpoint is known and the connection is being opened.
    Resolved { host: String, port: u16 },
    /// The connection is open and its timeouts are being set.
    Connected { host: String, port: u16 },
    /// The handshake is being sent.
    HandshakeSent,
    /// The status request is being sent.
    RequestSent,
    /// The length of the response is being read, byte by byte.
    ReadingLength(VarIntReader),
    /// The payload of the response is being read.
    ReadingBody { len: usize },
    /// The status document is being parsed.
    ResponseRead,
    /// The exchange has ended with a status.
    Parsed(ServerStatus),
    /// The exchange has ended with an error.
    Error(ProtocolError),
}

/// What came of the action that the last step asked for.
#[derive(Debug, Clone, PartialEq, Eq)]
pub enum PingEvent {
    /// The action was carried out and has nothing to hand back.
    Done,
    /// The address resolved to this endpoint, the first of those found.
    Endpoint { host: String, port: u16 },
    /// The address resolved to no endpoint at all.
    NoEndpoint,
    /// One byte was read.
    Byte(u8),
    /// The bytes asked for were read.
    Bytes(Vec<u8>),
    /// The status document was parsed.
    Status(ServerStatus),
    /// The action failed, with the text of the failure.
    Failed(String),
}

/// What is to be done next on behalf of the exchange.
#[derive(Debug, Clone, PartialEq, Eq)]
pub enum PingAction {
    /// Resolve the host and port to an endpoint.
    Resolve { host: String, port: u16 },
    /// Open a TCP connection to the endpoint within the bound.
    Connect { timeout_secs: u64 },
    /// Bound reads and writes on the connection.
    SetTimeouts { secs: u64 },
    /// Write all these bytes.
    Send(Vec<u8>),
    /// Read exactly one byte.
    ReadByte,
    /// Read exactly this many bytes.
    ReadExact(usize),
    /// Parse this status document.
    ParseStatus(String),
    /// Release the connection; the state holds the outcome.
    Finish,
}

pub enum PingStateView {
    Disconnected,
    Resolved { host: Seq<char>, port: u16 },
    Connected { host: Seq<char>, port: u16 },
    HandshakeSent,
    RequestSent,
    ReadingLength { seen: Seq<u8> },
    ReadingBody { len: nat },
    ResponseRead,
    Parsed(ServerStatusView),
    Error(ProtocolErrorView),
}

pub enum PingEventView {
    Done,
    Endpoint { host: Seq<char>, port: u16 },
    NoEndpoint,
    Byte(u8),
    Bytes(Seq<u8>),
    Status(ServerStatusView),
    Failed(Seq<char>),
}

pub enum PingActionView {
    Resolve { host: Seq<char>, port: u16 },
    Connect { timeout_secs: u64 },
    SetTimeouts { secs: u64 },
    Send(Seq<u8>),
    ReadByte,
    ReadExact(nat),
    ParseStatus(Seq<char>),
    Finish,
}

impl View for PingState {
    type V = PingStateView;

    open spec fn view(&self) -> PingStateView {
        match self {
            PingState::Disconnected => PingStateView::Disconnected,
            PingState::Resolved { host, port } => PingStateView::Resolved {
                host: host@,
                port: *port,
            },
            PingState::Connected { host, port } => PingStateView::Connected {
                host: host@,
                port: *port,
            },
            PingState::HandshakeSent => PingStateView::HandshakeSent,
            PingState::RequestSent => PingStateView::RequestSent,
            PingState::ReadingLength(reader) => PingStateView::ReadingLength {
                seen: reader.seen(),
            },
            PingState::ReadingBody { len } => PingStateView::ReadingBody { len: *len as nat },
            PingState::ResponseRead => PingStateView::ResponseRead,
            PingState::Parsed(status) => PingStateView::Parsed(status@),
            PingState::Error(e) => PingStateView::Error(e@),
        }
    }
}

impl View for PingEvent {
    type V = PingEventView;

    open spec fn view(&self) -> PingEventView {
        match self {
            PingEvent::Done => PingEventView::Done,
            PingEvent::Endpoint { host, port } => PingEventView::Endpoint {
                host: host@,
                port: *port,
            },
            PingEvent::NoEndpoint => PingEventView::NoEndpoint,
            PingEvent::Byte(b) => PingEventView::Byte(*b),
            PingEvent::Bytes(data) => PingEventView::Bytes(data@),
            PingEvent::Status(status) => PingEventView::Status(status@),
            PingEvent::Failed(text) => PingEventView::Failed(text@),
        }
    }
}

impl View for PingAction {
    type V = PingActionView;

    open spec fn view(&self) -> PingActionView {
        match self {
            PingAction::Resolve { host, port } => PingActionView::Resolve {
                host: host@,
                port: *port,
            },
            PingAction::Connect { timeout_secs } => PingActionView::Connect {
                timeout_secs: *timeout_secs,
            },
            PingAction::SetTimeouts { secs } => PingActionView::SetTimeouts { secs: *secs },
            PingAction::Send(data) => PingActionView::Send(data@),
            PingAction::ReadByte => PingActionView::ReadByte,
            PingAction::ReadExact(len) => PingActionView::ReadExact(*len as nat),
            PingAction::ParseStatus(text) => PingActionView::ParseStatus(text@),
            PingAction::Finish => PingActionView::Finish,
        }
    }
}

/// The end of an exchange in failure.
pub open spec fn failed(e: ProtocolErrorView) -> (PingStateView, PingActionView) {
    (PingStateView::Error(e), PingActionView::Finish)
}

/// How an exchange with `address` begins: by resolving host and port, or,
/// where the address has no such parts, by failing at once.
pub open spec fn ping_start(address: Seq<char>) -> (PingStateView, PingActionView) {
    match address_parts(encode_utf8(address)) {
        Some((host, port)) => (
            PingStateView::Disconnected,
            PingActionView::Resolve { host: decode_utf8(host), port },
        ),
        None => failed(
            ProtocolErrorView::AddressResolutionFailed(
                "Invalid port in address '"@ + address + "'"@,
            ),
        ),
    }
}

/// What a failed action means in a given state: before the connection is
/// open it is a failure to resolve or to connect, while the document is
/// parsed it is a malformed payload, in between it is an I/O error.
pub open spec fn failure_in(state: PingStateView, text: Seq<char>) -> ProtocolErrorView {
    match state {
        PingStateView::Disconnected => ProtocolErrorView::AddressResolutionFailed(
            "Failed to resolve address: "@ + text,
        ),
        PingStateView::Resolved { .. } => ProtocolErrorView::ConnectionFailed(
            "Connection failed: "@ + text,
        ),
        PingStateView::ResponseRead => ProtocolErrorView::MalformedStatusPayload(
            "Failed to parse server response: "@ + text,
        ),
        _ => ProtocolErrorView::IoError(text),
    }
}

/// The step that one event makes of one state: the state that follows and
/// the action to take next.
pub open spec fn ping_step(state: PingStateView, event: PingEventView) -> (
    PingStateView,
    PingActionView,
) {
    match (state, event) {
        (PingStateView::Parsed(_), _) => (state, PingActionView::Finish),
        (PingStateView::Error(_), _) => (state, PingActionView::Finish),
        (_, PingEventView::Failed(text)) => failed(failure_in(state, text)),
        (PingStateView::Disconnected, PingEventView::Endpoint { host, port }) => (
            PingStateView::Resolved { host, port },
            PingActionView::Connect { timeout_secs: TIMEOUT_SECS },
        ),
        (PingStateView::Disconnected, PingEventView::NoEndpoint) => failed(
            ProtocolErrorView::AddressResolutionFailed("Could not resolve address"@),
        ),
        (PingStateView::Resolved { host, port }, PingEventView::Done) => (
            PingStateView::Connected { host, port },
            PingActionView::SetTimeouts { secs: TIMEOUT_SECS },
        ),
        (PingStateView::Connected { host, port }, PingEventView::Done) => (
            PingStateView::HandshakeSent,
            PingActionView::Send(frame(handshake_payload(host, port))),
        ),
        (PingStateView::HandshakeSent, PingEventView::Done) => (
            PingStateView::RequestSent,
            PingActionView::Send(frame(status_request_payload())),
        ),
        (PingStateView::RequestSent, PingEventView::Done) => (
            PingStateView::ReadingLength { seen: Seq::empty() },
            PingActionView::ReadByte,
        ),
        (PingStateView::ReadingLength { seen }, PingEventView::Byte(byte)) => {
            match decode_varint(seen.push(byte)) {
                Err(ProtocolErrorView::UnexpectedEndOfData) => (
                    PingStateView::ReadingLength { seen: seen.push(byte) },
                    PingActionView::ReadByte,
                ),
                Err(e) => failed(e),
                Ok((len, _)) => if len < 0 {
                    failed(ProtocolErrorView::IoError("Invalid packet length"@))
                } else {
                    (
                        PingStateView::ReadingBody { len: len as nat },
                        PingActionView::ReadExact(len as nat),
                    )
                },
            }
        },
        (PingStateView::ReadingBody { len }, PingEventView::Bytes(data)) => if data.len() != len {
            failed(ProtocolErrorView::IoError("Incomplete packet"@))
        } else {
            match response_document(data) {
                Ok(text) => (PingStateView::ResponseRead, PingActionView::ParseStatus(text)),
                Err(e) => failed(e),
            }
        },
        (PingStateView::ResponseRead, PingEventView::Status(status)) => (
            PingStateView::Parsed(status),
            PingActionView::Finish,
        ),
        _ => failed(ProtocolErrorView::IoError("Unexpected event"@)),
    }
}

fn fail(e: ProtocolError) -> (r: (PingState, PingAction))
    ensures
        (r.0@, r.1@) == failed(e@),
{
    (PingState::Error(e), PingAction::Finish)
}

fn unexpected() -> (r: (PingState, PingAction))
    ensures
        (r.0@, r.1@) == failed(ProtocolErrorView::IoError("Unexpected event"@)),
{
    fail(ProtocolError::IoError(String::from_str("Unexpected event")))
}

impl PingState {
    /// Begins an exchange with the server at `address`.
    pub fn start(address: &str) -> (r: (PingState, PingAction))
        ensures
            (r.0@, r.1@) == ping_start(address@),
    {
        match split_address(address) {
            Ok((host, port)) => {
                proof {
                    encode_utf8_decode_utf8(host@);
                }
                (PingState::Disconnected, PingAction::Resolve { host, port })
            },
            Err(e) => fail(e),
        }
    }

    /// Takes the exchange one step further with the outcome of the last
    /// action.
    pub fn step(self, event: PingEvent) -> (r: (PingState, PingAction))
        ensures
            (r.0@, r.1@) == ping_step(self@, event@),
    {
        match (self, event) {
            (PingState::Parsed(status), _) => (PingState::Parsed(status), PingAction::Finish),
            (PingState::Error(e), _) => (PingState::Error(e), PingAction::Finish),
            (PingState::Disconnected, PingEvent::Failed(text)) => fail(
                ProtocolError::AddressResolutionFailed(
                    String::from_str("Failed to resolve address: ").concat(text.as_str()),
                ),
            ),
            (PingState::Resolved { .. }, PingEvent::Failed(text)) => fail(
                ProtocolError::ConnectionFailed(
                    String::from_str("Connection failed: ").concat(text.as_str()),
                ),
            ),
            (PingState::ResponseRead, PingEvent::Failed(text)) => fail(
                ProtocolError::MalformedStatusPayload(
                    String::from_str("Failed to parse server response: ").concat(text.as_str()),
                ),
            ),
            (_, PingEvent::Failed(text)) => fail(ProtocolError::IoError(text)),
            (PingState::Disconnected, PingEvent::Endpoint { host, port }) => (
                PingState::Resolved { host, port },
                PingAction::Connect { timeout_secs: TIMEOUT_SECS },
            ),
            (PingState::Disconnected, PingEvent::NoEndpoint) => fail(
                ProtocolError::AddressResolutionFailed(
                    String::from_str("Could not resolve address"),
                ),
            ),
            (PingState::Resolved { host, port }, PingEvent::Done) => (
                PingState::Connected { host, port },
                PingAction::SetTimeouts { secs: TIMEOUT_SECS },
            ),
            (PingState::Connected { host, port }, PingEvent::Done) => {
                let payload = build_handshake(host.as_str(), port);
                (PingState::HandshakeSent, PingAction::Send(frame_packet(payload.as_slice())))
            },
            (PingState::HandshakeSent, PingEvent::Done) => {
                let payload = build_status_request();
                (PingState::RequestSent, PingAction::Send(frame_packet(payload.as_slice())))
            },
            (PingState::RequestSent, PingEvent::Done) => (
                PingState::ReadingLength(VarIntReader::new()),
                PingAction::ReadByte,
            ),
            (PingState::ReadingLength(reader), PingEvent::Byte(byte)) => {
                match reader.push(byte) {
                    Ok(VarIntProgress::More(next)) => (
                        PingState::ReadingLength(next),
                        PingAction::ReadByte,
                    ),
                    Ok(VarIntProgress::Done(len)) => {
                        if len < 0 {
                            fail(
                                ProtocolError::IoError(String::from_str("Invalid packet length")),
                            )
                        } else {
                            (
                                PingState::ReadingBody { len: len as usize },
                                PingAction::ReadExact(len as usize),
                            )
                        }
                    },
                    Err(e) => fail(e),
                }
            },
            (PingState::ReadingBody { len }, PingEvent::Bytes(data)) => {
                if data.len() != len {
                    fail(ProtocolError::IoError(String::from_str("Incomplete packet")))
                } else {
                    match read_status_response(data.as_slice()) {
                        Ok(text) => (PingState::ResponseRead, PingAction::ParseStatus(text)),
                        Err(e) => fail(e),
                    }
                }
            },
            (PingState::ResponseRead, PingEvent::Status(status)) => (
                PingState::Parsed(status),
                PingAction::Finish,
            ),
            _ => unexpected(),
        }
    }

    /// The outcome of the exchange, once it has ended.
    pub fn outcome(self) -> (r: Option<Result<ServerStatus, ProtocolError>>)
        ensures
            match r {
                Some(Ok(status)) => self@ == PingStateView::Parsed(status@),
                Some(Err(e)) => self@ == PingStateView::Error(e@),
                None => !(self is Parsed || self is Error),
            },
    {
        match self {
            PingState::Parsed(status) => Some(Ok(status)),
            PingState::Error(e) => Some(Err(e)),
            _ => None,
        }
    }
}

/// How far an exchange has come. Reading the length of the response
/// counts one for each byte taken, of which there are at most four before
/// the last.
pub open spec fn rank(state: PingStateView) -> nat {
    match state {
        PingStateView::Disconnected => 0,
        PingStateView::Resolved { .. } => 1,
        PingStateView::Connected { .. } => 2,
        PingStateView::HandshakeSent => 3,
        PingStateView::RequestSent => 4,
        PingStateView::ReadingLength { seen } => if seen.len() < 4 {
            5 + seen.len()
        } else {
            9
        },
        PingStateView::ReadingBody { .. } => 10,
        PingStateView::ResponseRead => 11,
        PingStateView::Parsed(_) => 12,
        PingStateView::Error(_) => 12,
    }
}

/// Whether a state is one of the two that end an exchange.
pub open spec fn is_final(state: PingStateView) -> bool {
    state is Parsed || state is Error
}

/// An exchange only moves forward: every step from a state that is not
/// final leads to a state of higher rank, so that no state is visited
/// twice and the exchange ends after at most twelve steps, whatever the
/// events are. A failed action ends it at once, and a final state stays as
/// it is and asks for nothing more.
pub proof fn lemma_step_moves_forward(state: PingStateView, event: PingEventView)
    ensures
        rank(ping_step(state, event).0) <= 12,
        !is_final(state) ==> rank(ping_step(state, event).0) > rank(state),
        is_final(state) ==> ping_step(state, event) == (state, PingActionView::Finish),
        !is_final(state) && event is Failed ==> ping_step(state, event).0 is Error,
        is_final(ping_step(state, event).0) <==> ping_step(state, event).1 is Finish,
{
    if let PingStateView::ReadingLength { seen } = state {
        if let PingEventView::Byte(byte) = event {
            lemma_decode_varint_outcomes(seen.push(byte));
        }
    }
}

} // verus!
