//! The decisions of the connection layer.
//!
//! One connection serves one device. Whoever owns the socket performs the
//! transfers; this module decides what is transferred: it numbers and builds
//! the requests, says how many bytes to read next, and turns what came back
//! into a message or an error. An exchange is one request written and one
//! reply read, and the owner of the socket lets no other exchange in between.

use crate::block_cipher::append_bytes;
use crate::config::{byte_len, Config, LOCAL_KEY_LEN};
use crate::json::{decode, json_decoding, json_encoding, JsonValue};
use crate::text::{decimal_text, push_decimal};
use crate::tuya_protocol::{
    build_control_json, build_dp_query_json, build_frame, build_heartbeat_json,
    control_document, dp_query_document, parse_frame, parse_spec, payload_section_len,
    request_frame, understands_replies, MessageView, ProtocolError, TuyaMessage, CMD_CONTROL,
    CMD_DP_QUERY, CMD_HEART_BEAT, FOOTER_SIZE, HEADER_SIZE, PREFIX,
};
use crate::wire::{be_u32, read_be_u32};
use vstd::pervasive::unreached;
use vstd::prelude::*;
use vstd::std_specs::convert::FromSpecImpl;
use vstd::string::StringExecFns;
use vstd::utf8::encode_utf8;

verus! {

/// The error type of the standard library's I/O, carried through untouched.
#[verifier::external_type_specification]
#[verifier::external_body]
pub struct ExIoError(std::io::Error);

/// The port on which devices listen.
pub const DEVICE_PORT: u16 = 6668;

/// Seconds after which an attempt to connect is given up.
pub const CONNECT_TIMEOUT_SECS: u64 = 5;

/// Seconds after which an exchange is given up.
pub const RESPONSE_TIMEOUT_SECS: u64 = 5;

/// The sequence number of the first request on a connection.
pub const FIRST_SEQNO: u32 = 1;

/// Why an exchange with the device gave no message.
#[derive(Debug)]
pub enum ConnectionError {
    /// The transport failed: refused, reset, or closed in mid-frame.
    Tcp(std::io::Error),
    /// The device sent something that is no valid frame.
    Protocol(ProtocolError),
    /// The device did not answer in time.
    Timeout,
}

impl From<std::io::Error> for ConnectionError {
    fn from(e: std::io::Error) -> (r: Self) {
        ConnectionError::Tcp(e)
    }
}

impl FromSpecImpl<std::io::Error> for ConnectionError {
    open spec fn obeys_from_spec() -> bool {
        true
    }

    open spec fn from_spec(e: std::io::Error) -> Self {
        ConnectionError::Tcp(e)
    }
}

impl From<ProtocolError> for ConnectionError {
    fn from(e: ProtocolError) -> (r: Self) {
        ConnectionError::Protocol(e)
    }
}

impl FromSpecImpl<ProtocolError> for ConnectionError {
    open spec fn obeys_from_spec() -> bool {
        true
    }

    open spec fn from_spec(e: ProtocolError) -> Self {
        ConnectionError::Protocol(e)
    }
}

/// Asks an I/O error for its text with `to_string`.
///
/// Trusted, and nothing is claimed: the text comes from the operating system.
#[verifier::external_body]
fn io_error_text(e: &std::io::Error) -> String {
    e.to_string()
}

impl ConnectionError {
    /// The error in words, given the words of the transport for its own.
    pub open spec fn message(self, transport_text: Seq<char>) -> Seq<char> {
        match self {
            ConnectionError::Tcp(_) => "TCP error: "@ + transport_text,
            ConnectionError::Protocol(e) => "Protocol error: "@ + e.message(),
            ConnectionError::Timeout => "Connection timed out"@,
        }
    }

    /// Writes the error out in words. For a transport error the text ends
    /// with whatever the transport has to say.
    pub fn to_string(&self) -> (text: String)
        ensures
            exists|transport_text: Seq<char>| text@ == self.message(transport_text),
    {
        let mut text = String::new();
        match self {
            ConnectionError::Tcp(e) => {
                let detail = io_error_text(e);
                text.append("TCP error: ");
                text.append(detail.as_str());
                assert(text@ =~= self.message(detail@));
            },
            ConnectionError::Protocol(e) => {
                let detail = e.to_string();
                text.append("Protocol error: ");
                text.append(detail.as_str());
                assert(text@ =~= self.message(Seq::empty()));
            },
            ConnectionError::Timeout => {
                text.append("Connection timed out");
                assert(text@ =~= self.message(Seq::empty()));
            },
        }
        text
    }
}

/// What a connection remembers between exchanges: whom it talks to, the key,
/// and the number of the next request. The counter is out of reach of the
/// callers, so that no number is handed out twice.
pub struct TuyaConnection {
    device_id: String,
    local_key: [u8; 16],
    seqno: u32,
}

/// What a [`TuyaConnection`] holds, as mathematics.
pub struct ConnectionView {
    pub device_id: Seq<char>,
    pub local_key: Seq<u8>,
    /// The sequence number that the next request will carry.
    pub upcoming_seqno: u32,
}

impl View for TuyaConnection {
    type V = ConnectionView;

    closed spec fn view(&self) -> ConnectionView {
        ConnectionView {
            device_id: self.device_id@,
            local_key: self.local_key@,
            upcoming_seqno: self.seqno,
        }
    }
}

impl TuyaConnection {
    /// The state of a connection that has just been opened.
    pub fn new(device_id: String, local_key: [u8; 16]) -> (conn: Self)
        ensures
            conn@ == (ConnectionView {
                device_id: device_id@,
                local_key: local_key@,
                upcoming_seqno: FIRST_SEQNO,
            }),
    {
        TuyaConnection { device_id, local_key, seqno: FIRST_SEQNO }
    }

    /// The identity of the device.
    pub fn device_id(&self) -> (id: &String)
        ensures
            id@ == self@.device_id,
    {
        &self.device_id
    }

    /// The key shared with the device.
    pub fn local_key(&self) -> (key: &[u8; 16])
        ensures
            key@ == self@.local_key,
    {
        &self.local_key
    }
}

/// The number after `seqno`. Numbers grow by one and start over at zero only
/// after the last 32-bit number.
pub open spec fn seqno_after(seqno: u32) -> u32 {
    if seqno == u32::MAX {
        0
    } else {
        (seqno + 1) as u32
    }
}

/// Takes the next sequence number: returns the upcoming one and moves the
/// connection on to the one after.
pub fn next_seqno(conn: &mut TuyaConnection) -> (seqno: u32)
    ensures
        seqno == old(conn)@.upcoming_seqno,
        final(conn)@ == (ConnectionView { upcoming_seqno: seqno_after(seqno), ..old(conn)@ }),
{
    let seqno = conn.seqno;
    conn.seqno = if seqno == u32::MAX {
        0
    } else {
        seqno + 1
    };
    seqno
}

/// The key that a configuration holds, as bytes. The key must be 16 bytes
/// long, which `check_config` sees to.
pub fn local_key_from_config(config: &Config) -> (key: [u8; 16])
    requires
        byte_len(config.local_key@) == LOCAL_KEY_LEN,
    ensures
        key@ == encode_utf8(config.local_key@),
{
    let bytes = config.local_key.as_str().as_bytes();
    let key: [u8; 16] = [
        bytes[0],
        bytes[1],
        bytes[2],
        bytes[3],
        bytes[4],
        bytes[5],
        bytes[6],
        bytes[7],
        bytes[8],
        bytes[9],
        bytes[10],
        bytes[11],
        bytes[12],
        bytes[13],
        bytes[14],
        bytes[15],
    ];
    assert(key@ =~= encode_utf8(config.local_key@));
    key
}

// ---------------------------------------------------------------------------
// Connecting
// ---------------------------------------------------------------------------

/// The address to connect to: the device's address, a colon, and the port.
pub fn device_address(config: &Config) -> (address: String)
    ensures
        address@ == config.device_ip@ + ":"@ + decimal_text(DEVICE_PORT as nat),
{
    let mut address = config.device_ip.clone();
    address.append(":");
    push_decimal(&mut address, DEVICE_PORT as u64);
    address
}

/// How an attempt to connect ended.
pub enum ConnectOutcome {
    /// The socket is open.
    Connected,
    /// The device refused, or the network failed.
    Failed(std::io::Error),
    /// Nothing happened within [`CONNECT_TIMEOUT_SECS`].
    TimedOut,
}

/// Starts a connection once the socket is open, or says why there is none.
/// A new connection numbers its requests from [`FIRST_SEQNO`].
pub fn connection_for(config: &Config, outcome: ConnectOutcome) -> (r: Result<
    TuyaConnection,
    ConnectionError,
>)
    requires
        outcome is Connected ==> byte_len(config.local_key@) == LOCAL_KEY_LEN,
    ensures
        match outcome {
            ConnectOutcome::Connected => {
                &&& r matches Ok(conn)
                &&& conn@ == (ConnectionView {
                    device_id: config.device_id@,
                    local_key: encode_utf8(config.local_key@),
                    upcoming_seqno: FIRST_SEQNO,
                })
            },
            ConnectOutcome::Failed(cause) => {
                &&& r matches Err(ConnectionError::Tcp(e))
                &&& e == cause
            },
            ConnectOutcome::TimedOut => r matches Err(ConnectionError::Timeout),
        },
{
    match outcome {
        ConnectOutcome::Connected => Ok(
            TuyaConnection::new(config.device_id.clone(), local_key_from_config(config)),
        ),
        ConnectOutcome::Failed(cause) => Err(ConnectionError::Tcp(cause)),
        ConnectOutcome::TimedOut => Err(ConnectionError::Timeout),
    }
}

// ---------------------------------------------------------------------------
// One exchange
// ---------------------------------------------------------------------------

/// How far an exchange has come.
pub enum Exchange {
    /// The request has been handed out and is being written.
    Sending,
    /// The request is out; the 16 bytes of the reply's header are awaited.
    AwaitingHeader,
    /// The header is in; the bytes that it declares are awaited.
    AwaitingBody { header: Vec<u8> },
    /// The exchange is over.
    Finished,
}

/// What the owner of the socket is to do next.
pub enum Step {
    /// Write these bytes and flush.
    Send(Vec<u8>),
    /// Read exactly this many bytes.
    Receive(usize),
    /// Hand this to the caller: the exchange is over.
    Done(Result<TuyaMessage, ConnectionError>),
}

/// What the owner of the socket reports back.
pub enum Transfer {
    /// The bytes were written and flushed.
    Sent,
    /// The bytes that were asked for, all of them.
    Received(Vec<u8>),
    /// The transport failed.
    Failed(std::io::Error),
    /// [`RESPONSE_TIMEOUT_SECS`] have passed since the exchange began.
    TimedOut,
}

/// What the header of a reply says about the rest: the number of bytes that
/// follow it, or that it is no header at all.
pub open spec fn header_declares(header: Seq<u8>) -> Result<u32, ProtocolError>
    recommends
        header.len() == HEADER_SIZE,
{
    let prefix = be_u32(header.subrange(0, 4));
    if prefix != PREFIX {
        Err(ProtocolError::InvalidPrefix(prefix))
    } else {
        Ok(be_u32(header.subrange(12, 16)))
    }
}

impl Exchange {
    /// A header is only kept if it is a header.
    pub open spec fn wf(&self) -> bool {
        match self {
            Exchange::AwaitingBody { header } => header@.len() == HEADER_SIZE && header_declares(
                header@,
            ) is Ok,
            _ => true,
        }
    }

    /// Whether `event` can follow the last step of an exchange in this state.
    /// Failures and timeouts can strike at any time; bytes arrive only when
    /// they were asked for, and as many as were asked for.
    pub open spec fn expects(&self, event: &Transfer) -> bool {
        match (self, event) {
            (Exchange::Finished, _) => false,
            (_, Transfer::Failed(_)) => true,
            (_, Transfer::TimedOut) => true,
            (Exchange::Sending, Transfer::Sent) => true,
            (Exchange::AwaitingHeader, Transfer::Received(bytes)) => bytes@.len() == HEADER_SIZE,
            (Exchange::AwaitingBody { header }, Transfer::Received(bytes)) => bytes@.len()
                == header_declares(header@)->Ok_0,
            _ => false,
        }
    }

    /// Tests whether an exchange in this state is in order and `event` can
    /// follow its last step: what [`advance_exchange`] asks of its caller.
    pub fn accepts(&self, event: &Transfer) -> (ok: bool)
        ensures
            ok == (self.wf() && self.expects(event)),
    {
        match self {
            Exchange::Finished => false,
            Exchange::Sending => match event {
                Transfer::Received(_) => false,
                _ => true,
            },
            Exchange::AwaitingHeader => match event {
                Transfer::Sent => false,
                Transfer::Received(bytes) => bytes.len() == HEADER_SIZE,
                _ => true,
            },
            Exchange::AwaitingBody { header } => {
                if header.len() != HEADER_SIZE {
                    return false;
                }
                match inspect_header(header.as_slice()) {
                    Err(_) => false,
                    Ok(length) => match event {
                        Transfer::Sent => false,
                        Transfer::Received(bytes) => bytes.len() == length as usize,
                        _ => true,
                    },
                }
            },
        }
    }
}

/// Whether `result` is what parsing `frame` under `key` gives, with parse
/// errors handed on as protocol errors.
pub open spec fn is_parse_of(
    result: Result<TuyaMessage, ConnectionError>,
    frame: Seq<u8>,
    key: Seq<u8>,
) -> bool {
    match result {
        Ok(msg) => parse_spec(frame, key) == Ok::<MessageView, ProtocolError>(msg@),
        Err(ConnectionError::Protocol(e)) => parse_spec(frame, key) == Err::<
            MessageView,
            ProtocolError,
        >(e),
        Err(_) => false,
    }
}

/// Begins an exchange: takes the next sequence number and builds the request.
/// The first step is to send it.
pub fn start_exchange(conn: &mut TuyaConnection, cmd: u32, json_payload: &[u8]) -> (started: (
    Exchange,
    Step,
))
    requires
        payload_section_len(cmd, json_payload@.len()) + FOOTER_SIZE <= u32::MAX,
    ensures
        final(conn)@ == (ConnectionView {
            upcoming_seqno: seqno_after(old(conn)@.upcoming_seqno),
            ..old(conn)@
        }),
        started.0 is Sending,
        ({
            &&& started.1 matches Step::Send(bytes)
            &&& bytes@ == request_frame(
                old(conn)@.upcoming_seqno,
                cmd,
                json_payload@,
                old(conn)@.local_key,
            )
        }),
{
    let seqno = next_seqno(conn);
    let frame = build_frame(seqno, cmd, json_payload, &conn.local_key);
    (Exchange::Sending, Step::Send(frame.bytes))
}

/// Reads the header of a reply: how many bytes follow, unless it does not
/// start with the prefix.
pub fn inspect_header(header: &[u8]) -> (r: Result<u32, ProtocolError>)
    requires
        header@.len() == HEADER_SIZE,
    ensures
        r == header_declares(header@),
{
    let prefix = read_be_u32(header, 0);
    if prefix != PREFIX {
        return Err(ProtocolError::InvalidPrefix(prefix));
    }
    Ok(read_be_u32(header, 12))
}

/// Moves an exchange on by one transfer.
///
/// - Once the request is sent, the 16 bytes of a header are read.
/// - A header that does not start with the prefix ends the exchange with a
///   protocol error, and nothing more is read. Any other header is kept, and
///   the bytes that it declares are read.
/// - Header and body together are parsed, and the outcome ends the exchange.
/// - A failed transfer ends the exchange with a transport error, a timeout
///   with a timeout. Nothing is retried.
pub fn advance_exchange(state: Exchange, event: Transfer, local_key: &[u8; 16]) -> (next: (
    Exchange,
    Step,
))
    requires
        state.wf(),
        state.expects(&event),
    ensures
        next.0.wf(),
        match (state, event) {
            (_, Transfer::Failed(cause)) => {
                &&& next.0 is Finished
                &&& next.1 matches Step::Done(Err(ConnectionError::Tcp(e)))
                &&& e == cause
            },
            (_, Transfer::TimedOut) => {
                &&& next.0 is Finished
                &&& next.1 matches Step::Done(Err(ConnectionError::Timeout))
            },
            (Exchange::Sending, _) => {
                &&& next.0 is AwaitingHeader
                &&& next.1 matches Step::Receive(count)
                &&& count == HEADER_SIZE
            },
            (Exchange::AwaitingHeader, Transfer::Received(bytes)) => match header_declares(
                bytes@,
            ) {
                Ok(length) => {
                    &&& next.0 matches Exchange::AwaitingBody { header }
                    &&& header@ == bytes@
                    &&& next.1 matches Step::Receive(count)
                    &&& count == length
                },
                Err(e) => {
                    &&& next.0 is Finished
                    &&& next.1 matches Step::Done(Err(ConnectionError::Protocol(found)))
                    &&& found == e
                },
            },
            (Exchange::AwaitingBody { header }, Transfer::Received(bytes)) => {
                &&& next.0 is Finished
                &&& next.1 matches Step::Done(result)
                &&& is_parse_of(result, header@ + bytes@, local_key@)
                &&& understands_replies(result, header@ + bytes@, local_key@)
            },
            _ => false,
        },
{
    match event {
        Transfer::Failed(cause) => (Exchange::Finished, Step::Done(Err(ConnectionError::Tcp(cause)))),
        Transfer::TimedOut => (Exchange::Finished, Step::Done(Err(ConnectionError::Timeout))),
        Transfer::Sent => (Exchange::AwaitingHeader, Step::Receive(HEADER_SIZE)),
        Transfer::Received(bytes) => match state {
            Exchange::AwaitingHeader => match inspect_header(bytes.as_slice()) {
                Ok(length) => (Exchange::AwaitingBody { header: bytes }, Step::Receive(
                    length as usize,
                )),
                Err(e) => (Exchange::Finished, Step::Done(Err(ConnectionError::Protocol(e)))),
            },
            Exchange::AwaitingBody { header } => {
                let mut frame = header;
                append_bytes(&mut frame, bytes.as_slice());
                let result = match parse_frame(frame.as_slice(), local_key) {
                    Ok(msg) => Ok(msg),
                    Err(e) => Err(ConnectionError::Protocol(e)),
                };
                (Exchange::Finished, Step::Done(result))
            },
            // Bytes arrive only when they were asked for.
            _ => unreached(),
        },
    }
}

// ---------------------------------------------------------------------------
// Queries and commands
// ---------------------------------------------------------------------------

/// The exchange that asks the device for all its data points at the time
/// `unix_secs`: the command and the payload.
pub fn query_dps_request(conn: &TuyaConnection, unix_secs: u64) -> (request: (u32, Vec<u8>))
    ensures
        request.0 == CMD_DP_QUERY,
        request.1@ == json_encoding(
            dp_query_document(conn@.device_id, decimal_text(unix_secs as nat)),
        ),
{
    (CMD_DP_QUERY, build_dp_query_json(conn.device_id.as_str(), unix_secs))
}

/// The exchange that sets the data points `dps` on the device at the time
/// `unix_secs`: the command and the payload.
pub fn set_dps_request(conn: &TuyaConnection, dps: JsonValue, unix_secs: u64) -> (request: (
    u32,
    Vec<u8>,
))
    ensures
        request.0 == CMD_CONTROL,
        request.1@ == json_encoding(
            control_document(conn@.device_id, decimal_text(unix_secs as nat), dps@),
        ),
{
    (CMD_CONTROL, build_control_json(conn.device_id.as_str(), dps, unix_secs))
}

/// What the device answered to a query or a command: the document in the
/// payload, `Null` where the payload is no JSON. Errors pass through.
pub fn read_response(outcome: Result<TuyaMessage, ConnectionError>) -> (r: Result<
    JsonValue,
    ConnectionError,
>)
    ensures
        match outcome {
            Ok(msg) => {
                &&& r matches Ok(document)
                &&& document@ == json_decoding(msg.payload@)
            },
            Err(e) => {
                &&& r matches Err(passed)
                &&& passed == e
            },
        },
{
    match outcome {
        Ok(msg) => Ok(decode(msg.payload.as_slice())),
        Err(e) => Err(e),
    }
}

// ---------------------------------------------------------------------------
// The liveness loop
// ---------------------------------------------------------------------------

/// What the liveness loop does next.
pub enum HeartbeatStep {
    /// Wait for the next tick of a clock that ticks every `interval_secs`
    /// seconds, at once when it is started.
    AwaitTick { interval_secs: u64 },
    /// Run one exchange with this command and payload.
    Ping { cmd: u32, payload: Vec<u8> },
}

/// What happened since the last step of the liveness loop.
pub enum HeartbeatEvent {
    /// The clock has ticked.
    Tick,
    /// The ping has been answered, or has failed.
    PingDone(Result<TuyaMessage, ConnectionError>),
}

/// What the liveness loop has to say about a ping.
pub enum HeartbeatReport {
    /// Worth a trace.
    Alive,
    /// Worth a warning; holds the text.
    Failed(String),
}

/// The first step of the liveness loop: wait for the first tick.
pub fn heartbeat_start(interval_secs: u64) -> (step: HeartbeatStep)
    ensures
        step == (HeartbeatStep::AwaitTick { interval_secs }),
{
    HeartbeatStep::AwaitTick { interval_secs }
}

/// The next step of the liveness loop.
///
/// On a tick, a liveness ping with an empty payload is sent. When the ping is
/// done the loop waits for the next tick at the same interval, whether the
/// ping was answered or failed, and whatever the error: no outcome of a ping
/// ends the loop.
pub fn heartbeat_next(interval_secs: u64, event: &HeartbeatEvent) -> (step: HeartbeatStep)
    ensures
        match event {
            HeartbeatEvent::Tick => {
                &&& step matches HeartbeatStep::Ping { cmd, payload }
                &&& cmd == CMD_HEART_BEAT
                &&& payload@ == Seq::<u8>::empty()
            },
            HeartbeatEvent::PingDone(_) => step == (HeartbeatStep::AwaitTick { interval_secs }),
        },
{
    match event {
        HeartbeatEvent::Tick => HeartbeatStep::Ping {
            cmd: CMD_HEART_BEAT,
            payload: build_heartbeat_json(),
        },
        HeartbeatEvent::PingDone(_) => HeartbeatStep::AwaitTick { interval_secs },
    }
}

/// What to log about a ping: a trace if it was answered, else a warning that
/// names the error.
pub fn heartbeat_report(outcome: &Result<TuyaMessage, ConnectionError>) -> (report:
    HeartbeatReport)
    ensures
        match outcome {
            Ok(_) => report is Alive,
            Err(e) => {
                &&& report matches HeartbeatReport::Failed(text)
                &&& exists|transport_text: Seq<char>|
                    text@ == "Heartbeat failed: "@ + e.message(transport_text)
            },
        },
{
    match outcome {
        Ok(_) => HeartbeatReport::Alive,
        Err(e) => {
            let detail = e.to_string();
            let mut text = String::new();
            text.append("Heartbeat failed: ");
            text.append(detail.as_str());
            assert(text@ =~= "Heartbeat failed: "@ + detail@);
            HeartbeatReport::Failed(text)
        },
    }
}

} // verus!
