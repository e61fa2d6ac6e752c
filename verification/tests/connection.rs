//! The decisions of the connection layer, driven by hand.

use hearth::config::Config;
use hearth::tuya_connection::{
    advance_exchange, connection_for, device_address, heartbeat_next, heartbeat_report,
    heartbeat_start, inspect_header, local_key_from_config, next_seqno, query_dps_request,
    read_response, set_dps_request, start_exchange, ConnectOutcome, ConnectionError, Exchange,
    HeartbeatEvent, HeartbeatReport, HeartbeatStep, Step, Transfer, TuyaConnection,
    CONNECT_TIMEOUT_SECS, DEVICE_PORT, FIRST_SEQNO, RESPONSE_TIMEOUT_SECS,
};
use hearth::dps::build_power_dps;
use hearth::json::JsonValue;
use hearth::tuya_protocol::{
    build_frame, encrypt_payload, ProtocolError, TuyaMessage, CMD_CONTROL, CMD_DP_QUERY,
    CMD_HEART_BEAT, CMD_STATUS, FOOTER_SIZE, PREFIX, SUFFIX, VERSION_HEADER,
};

const KEY: [u8; 16] = *b"0123456789abcdef";

fn config() -> Config {
    Config {
        device_ip: "192.168.1.50".to_string(),
        device_id: "bf1234567890abcdef".to_string(),
        local_key: "0123456789abcdef".to_string(),
    }
}

fn connection() -> TuyaConnection {
    TuyaConnection::new("bf1234567890abcdef".to_string(), KEY)
}

fn reply(seqno: u32, cmd: u32, retcode: u32, payload: &[u8]) -> Vec<u8> {
    let mut body = retcode.to_be_bytes().to_vec();
    body.extend_from_slice(&VERSION_HEADER);
    body.extend_from_slice(&encrypt_payload(payload, &KEY));
    let mut frame = Vec::new();
    frame.extend_from_slice(&PREFIX.to_be_bytes());
    frame.extend_from_slice(&seqno.to_be_bytes());
    frame.extend_from_slice(&cmd.to_be_bytes());
    frame.extend_from_slice(&((body.len() + FOOTER_SIZE) as u32).to_be_bytes());
    frame.extend_from_slice(&body);
    let crc = crc32fast::hash(&frame);
    frame.extend_from_slice(&crc.to_be_bytes());
    frame.extend_from_slice(&SUFFIX.to_be_bytes());
    frame
}

fn io_error(text: &str) -> std::io::Error {
    std::io::Error::new(std::io::ErrorKind::ConnectionReset, text.to_string())
}

fn sent_bytes(step: Step) -> Vec<u8> {
    match step {
        Step::Send(bytes) => bytes,
        _ => panic!("expected a request to send"),
    }
}

fn wanted(step: Step) -> usize {
    match step {
        Step::Receive(count) => count,
        _ => panic!("expected a read"),
    }
}

fn outcome(step: Step) -> Result<TuyaMessage, ConnectionError> {
    match step {
        Step::Done(result) => result,
        _ => panic!("expected the end of the exchange"),
    }
}

#[test]
fn constants_of_the_connection() {
    assert_eq!(DEVICE_PORT, 6668);
    assert_eq!(CONNECT_TIMEOUT_SECS, 5);
    assert_eq!(RESPONSE_TIMEOUT_SECS, 5);
    assert_eq!(FIRST_SEQNO, 1);
}

#[test]
fn address_is_the_device_and_the_fixed_port() {
    assert_eq!(device_address(&config()), "192.168.1.50:6668");
    let mut other = config();
    other.device_ip = "dehumidifier.local".to_string();
    assert_eq!(device_address(&other), "dehumidifier.local:6668");
}

#[test]
fn key_is_the_text_of_the_configuration() {
    assert_eq!(local_key_from_config(&config()), KEY);
    let mut other = config();
    other.local_key = "A}b{c~d!e#f$g%h&".to_string();
    assert_eq!(&local_key_from_config(&other), b"A}b{c~d!e#f$g%h&");
}

#[test]
fn a_new_connection_numbers_from_one() {
    let mut conn = connection();
    assert_eq!(conn.device_id(), "bf1234567890abcdef");
    assert_eq!(conn.local_key(), &KEY);
    assert_eq!(next_seqno(&mut conn), 1);
    assert_eq!(next_seqno(&mut conn), 2);
    assert_eq!(next_seqno(&mut conn), 3);
    assert_eq!(conn.device_id(), "bf1234567890abcdef");
    assert_eq!(conn.local_key(), &KEY);
}

#[test]
fn sequence_numbers_are_not_reused() {
    let mut conn = connection();
    let mut last = 0u32;
    for _ in 0..10000 {
        let seqno = next_seqno(&mut conn);
        assert_eq!(seqno, last + 1);
        last = seqno;
    }
}

#[test]
fn connecting_gives_a_fresh_connection() {
    let mut conn = match connection_for(&config(), ConnectOutcome::Connected) {
        Ok(conn) => conn,
        Err(_) => panic!("expected a connection"),
    };
    assert_eq!(conn.device_id(), "bf1234567890abcdef");
    assert_eq!(conn.local_key(), &KEY);
    assert_eq!(next_seqno(&mut conn), FIRST_SEQNO);
}

#[test]
fn failed_connect_is_a_transport_error() {
    match connection_for(&config(), ConnectOutcome::Failed(io_error("refused"))) {
        Err(ConnectionError::Tcp(e)) => {
            assert_eq!(e.kind(), std::io::ErrorKind::ConnectionReset);
            assert_eq!(e.to_string(), "refused");
        }
        _ => panic!("expected a transport error"),
    }
}

#[test]
fn connect_timeout_is_a_timeout() {
    assert!(matches!(
        connection_for(&config(), ConnectOutcome::TimedOut),
        Err(ConnectionError::Timeout)
    ));
    // The key is not looked at when there is no connection.
    let mut broken = config();
    broken.local_key = "short".to_string();
    assert!(matches!(
        connection_for(&broken, ConnectOutcome::TimedOut),
        Err(ConnectionError::Timeout)
    ));
    assert!(matches!(
        connection_for(&broken, ConnectOutcome::Failed(io_error("x"))),
        Err(ConnectionError::Tcp(_))
    ));
}

#[test]
fn an_exchange_sends_the_numbered_request_first() {
    let mut conn = connection();
    let payload = b"{\"dps\":{\"1\":true}}";
    let (state, step) = start_exchange(&mut conn, CMD_CONTROL, payload);
    assert!(matches!(state, Exchange::Sending));
    assert_eq!(sent_bytes(step), build_frame(1, CMD_CONTROL, payload, &KEY).bytes);

    let (state, step) = start_exchange(&mut conn, CMD_DP_QUERY, b"{}");
    assert!(matches!(state, Exchange::Sending));
    assert_eq!(sent_bytes(step), build_frame(2, CMD_DP_QUERY, b"{}", &KEY).bytes);
    assert_eq!(next_seqno(&mut conn), 3);
}

#[test]
fn a_whole_exchange() {
    let mut conn = connection();
    let (state, step) = start_exchange(&mut conn, CMD_DP_QUERY, b"{}");
    let request = sent_bytes(step);
    assert_eq!(&request[4..8], &1u32.to_be_bytes());

    let (state, step) = advance_exchange(state, Transfer::Sent, &KEY);
    assert!(matches!(state, Exchange::AwaitingHeader));
    assert_eq!(wanted(step), 16);

    let answer = reply(1, CMD_DP_QUERY, 0, b"{\"dps\":{\"1\":true,\"2\":50}}");
    let (state, step) =
        advance_exchange(state, Transfer::Received(answer[..16].to_vec()), &KEY);
    match &state {
        Exchange::AwaitingBody { header } => assert_eq!(&header[..], &answer[..16]),
        _ => panic!("expected to wait for the body"),
    }
    assert_eq!(wanted(step), answer.len() - 16);

    let (state, step) =
        advance_exchange(state, Transfer::Received(answer[16..].to_vec()), &KEY);
    assert!(matches!(state, Exchange::Finished));
    let msg = outcome(step).unwrap();
    assert_eq!((msg.seqno, msg.cmd, msg.retcode), (1, CMD_DP_QUERY, 0));
    assert_eq!(&msg.payload[..], b"{\"dps\":{\"1\":true,\"2\":50}}");
}

#[test]
fn header_says_how_much_to_read() {
    for declared in [0u32, 8, 12, 55, 1000, 0x0001_0000] {
        let mut header = [0u8; 16];
        header[..4].copy_from_slice(&PREFIX.to_be_bytes());
        header[12..].copy_from_slice(&declared.to_be_bytes());
        assert_eq!(inspect_header(&header), Ok(declared));
        let (state, step) =
            advance_exchange(Exchange::AwaitingHeader, Transfer::Received(header.to_vec()), &KEY);
        assert!(matches!(state, Exchange::AwaitingBody { .. }));
        assert_eq!(wanted(step), declared as usize);
    }
}

#[test]
fn a_header_without_the_prefix_ends_the_exchange() {
    let mut header = reply(1, CMD_STATUS, 0, b"{}")[..16].to_vec();
    header[3] = 0xAB;
    assert_eq!(inspect_header(&header), Err(ProtocolError::InvalidPrefix(0x0000_55AB)));
    let (state, step) =
        advance_exchange(Exchange::AwaitingHeader, Transfer::Received(header), &KEY);
    assert!(matches!(state, Exchange::Finished));
    match outcome(step) {
        Err(ConnectionError::Protocol(e)) => {
            assert_eq!(e, ProtocolError::InvalidPrefix(0x0000_55AB))
        }
        _ => panic!("expected a protocol error"),
    }
}

#[test]
fn a_damaged_body_ends_the_exchange_with_a_protocol_error() {
    let mut answer = reply(1, CMD_STATUS, 0, b"{\"dps\":{\"1\":true}}");
    answer[30] ^= 0x40;
    let crc_at = answer.len() - 8;
    let stored = u32::from_be_bytes(answer[crc_at..crc_at + 4].try_into().unwrap());
    let actual = crc32fast::hash(&answer[..crc_at]);
    let state = Exchange::AwaitingBody { header: answer[..16].to_vec() };
    let (state, step) =
        advance_exchange(state, Transfer::Received(answer[16..].to_vec()), &KEY);
    assert!(matches!(state, Exchange::Finished));
    match outcome(step) {
        Err(ConnectionError::Protocol(e)) => {
            assert_eq!(e, ProtocolError::CrcMismatch { expected: stored, actual })
        }
        _ => panic!("expected a protocol error"),
    }
}

#[test]
fn a_body_of_no_bytes_is_too_short() {
    let mut header = [0u8; 16];
    header[..4].copy_from_slice(&PREFIX.to_be_bytes());
    let state = Exchange::AwaitingBody { header: header.to_vec() };
    let (_, step) = advance_exchange(state, Transfer::Received(Vec::new()), &KEY);
    assert!(matches!(
        outcome(step),
        Err(ConnectionError::Protocol(ProtocolError::PayloadTooShort))
    ));
}

#[test]
fn a_failed_transfer_ends_the_exchange_at_any_point() {
    let header = reply(1, CMD_STATUS, 0, b"{}")[..16].to_vec();
    let states = [
        Exchange::Sending,
        Exchange::AwaitingHeader,
        Exchange::AwaitingBody { header },
    ];
    for state in states {
        let (state, step) = advance_exchange(state, Transfer::Failed(io_error("reset")), &KEY);
        assert!(matches!(state, Exchange::Finished));
        match outcome(step) {
            Err(ConnectionError::Tcp(e)) => assert_eq!(e.to_string(), "reset"),
            _ => panic!("expected a transport error"),
        }
    }
}

#[test]
fn a_timeout_ends_the_exchange_at_any_point() {
    let header = reply(1, CMD_STATUS, 0, b"{}")[..16].to_vec();
    let states = [
        Exchange::Sending,
        Exchange::AwaitingHeader,
        Exchange::AwaitingBody { header },
    ];
    for state in states {
        let (state, step) = advance_exchange(state, Transfer::TimedOut, &KEY);
        assert!(matches!(state, Exchange::Finished));
        assert!(matches!(outcome(step), Err(ConnectionError::Timeout)));
    }
}

#[test]
fn transfers_are_only_accepted_where_they_belong() {
    let header = reply(1, CMD_STATUS, 0, b"{}")[..16].to_vec();
    let declared = u32::from_be_bytes(header[12..16].try_into().unwrap()) as usize;
    let awaiting_body = Exchange::AwaitingBody { header: header.clone() };

    assert!(Exchange::Sending.accepts(&Transfer::Sent));
    assert!(Exchange::Sending.accepts(&Transfer::TimedOut));
    assert!(Exchange::Sending.accepts(&Transfer::Failed(io_error("x"))));
    assert!(!Exchange::Sending.accepts(&Transfer::Received(vec![0; 16])));

    assert!(Exchange::AwaitingHeader.accepts(&Transfer::Received(vec![0; 16])));
    assert!(!Exchange::AwaitingHeader.accepts(&Transfer::Received(vec![0; 15])));
    assert!(!Exchange::AwaitingHeader.accepts(&Transfer::Received(vec![0; 17])));
    assert!(!Exchange::AwaitingHeader.accepts(&Transfer::Sent));
    assert!(Exchange::AwaitingHeader.accepts(&Transfer::TimedOut));

    assert!(awaiting_body.accepts(&Transfer::Received(vec![0; declared])));
    assert!(!awaiting_body.accepts(&Transfer::Received(vec![0; declared - 1])));
    assert!(!awaiting_body.accepts(&Transfer::Received(vec![0; declared + 1])));
    assert!(!awaiting_body.accepts(&Transfer::Sent));
    assert!(awaiting_body.accepts(&Transfer::Failed(io_error("x"))));

    // A kept header must be a header.
    let mut no_header = header.clone();
    no_header[0] = 1;
    assert!(!Exchange::AwaitingBody { header: no_header }.accepts(&Transfer::TimedOut));
    assert!(!Exchange::AwaitingBody { header: vec![0; 3] }.accepts(&Transfer::TimedOut));

    assert!(!Exchange::Finished.accepts(&Transfer::Sent));
    assert!(!Exchange::Finished.accepts(&Transfer::TimedOut));
    assert!(!Exchange::Finished.accepts(&Transfer::Received(Vec::new())));
}

#[test]
fn heartbeat_pings_on_every_tick() {
    assert!(matches!(heartbeat_start(10), HeartbeatStep::AwaitTick { interval_secs: 10 }));
    match heartbeat_next(10, &HeartbeatEvent::Tick) {
        HeartbeatStep::Ping { cmd, payload } => {
            assert_eq!(cmd, CMD_HEART_BEAT);
            assert!(payload.is_empty());
        }
        _ => panic!("expected a ping"),
    }
}

#[test]
fn heartbeat_goes_on_after_every_outcome() {
    let answered = TuyaMessage { seqno: 1, cmd: CMD_HEART_BEAT, retcode: 0, payload: Vec::new() };
    let outcomes: Vec<Result<TuyaMessage, ConnectionError>> = vec![
        Ok(answered),
        Err(ConnectionError::Timeout),
        Err(ConnectionError::Tcp(io_error("broken pipe"))),
        Err(ConnectionError::Protocol(ProtocolError::InvalidPrefix(0))),
        Err(ConnectionError::Protocol(ProtocolError::InvalidSuffix(1))),
        Err(ConnectionError::Protocol(ProtocolError::CrcMismatch { expected: 1, actual: 2 })),
        Err(ConnectionError::Protocol(ProtocolError::PayloadTooShort)),
        Err(ConnectionError::Protocol(ProtocolError::DecryptionFailed)),
    ];
    for interval in [1u64, 10, 3600] {
        for done in outcomes.iter() {
            let copy = match done {
                Ok(msg) => Ok(TuyaMessage {
                    seqno: msg.seqno,
                    cmd: msg.cmd,
                    retcode: msg.retcode,
                    payload: msg.payload.clone(),
                }),
                Err(ConnectionError::Timeout) => Err(ConnectionError::Timeout),
                Err(ConnectionError::Tcp(e)) => Err(ConnectionError::Tcp(io_error(&e.to_string()))),
                Err(ConnectionError::Protocol(e)) => Err(ConnectionError::Protocol(*e)),
            };
            match heartbeat_next(interval, &HeartbeatEvent::PingDone(copy)) {
                HeartbeatStep::AwaitTick { interval_secs } => assert_eq!(interval_secs, interval),
                _ => panic!("expected to wait for the next tick"),
            }
        }
    }
}

#[test]
fn heartbeat_loop_survives_a_run_of_failures() {
    // Drive the loop through ticks whose pings all fail.
    let mut step = heartbeat_start(10);
    let mut pings = 0;
    for round in 0..50 {
        step = match step {
            HeartbeatStep::AwaitTick { interval_secs } => {
                assert_eq!(interval_secs, 10);
                heartbeat_next(10, &HeartbeatEvent::Tick)
            }
            HeartbeatStep::Ping { cmd, payload } => {
                assert_eq!(cmd, CMD_HEART_BEAT);
                assert!(payload.is_empty());
                pings += 1;
                let failure = if round % 4 == 1 {
                    ConnectionError::Timeout
                } else {
                    ConnectionError::Tcp(io_error("reset"))
                };
                heartbeat_next(10, &HeartbeatEvent::PingDone(Err(failure)))
            }
        };
    }
    assert_eq!(pings, 25);
}

#[test]
fn heartbeat_reports_failures_in_words() {
    let answered = TuyaMessage { seqno: 1, cmd: CMD_HEART_BEAT, retcode: 0, payload: Vec::new() };
    assert!(matches!(heartbeat_report(&Ok(answered)), HeartbeatReport::Alive));
    match heartbeat_report(&Err(ConnectionError::Timeout)) {
        HeartbeatReport::Failed(text) => {
            assert_eq!(text, "Heartbeat failed: Connection timed out")
        }
        _ => panic!("expected a warning"),
    }
    match heartbeat_report(&Err(ConnectionError::Protocol(ProtocolError::InvalidSuffix(0xAB)))) {
        HeartbeatReport::Failed(text) => {
            assert_eq!(text, "Heartbeat failed: Protocol error: Invalid suffix: 0x000000ab")
        }
        _ => panic!("expected a warning"),
    }
    match heartbeat_report(&Err(ConnectionError::Tcp(io_error("reset by peer")))) {
        HeartbeatReport::Failed(text) => {
            assert_eq!(text, "Heartbeat failed: TCP error: reset by peer")
        }
        _ => panic!("expected a warning"),
    }
}

#[test]
fn connection_errors_in_words() {
    assert_eq!(ConnectionError::Timeout.to_string(), "Connection timed out");
    assert_eq!(
        ConnectionError::Protocol(ProtocolError::PayloadTooShort).to_string(),
        "Protocol error: Payload too short"
    );
    assert_eq!(
        ConnectionError::Protocol(ProtocolError::DecryptionFailed).to_string(),
        "Protocol error: AES decryption failed"
    );
    assert_eq!(
        ConnectionError::Tcp(io_error("connection refused")).to_string(),
        "TCP error: connection refused"
    );
}

#[test]
fn errors_convert_into_connection_errors() {
    let e: ConnectionError = ProtocolError::PayloadTooShort.into();
    assert!(matches!(e, ConnectionError::Protocol(ProtocolError::PayloadTooShort)));
    let e: ConnectionError = io_error("x").into();
    assert!(matches!(e, ConnectionError::Tcp(_)));
    let e = ConnectionError::from(ProtocolError::InvalidPrefix(7));
    assert!(matches!(e, ConnectionError::Protocol(ProtocolError::InvalidPrefix(7))));
}

#[test]
fn query_asks_for_all_data_points() {
    let conn = connection();
    let (cmd, payload) = query_dps_request(&conn, 1_700_000_000);
    assert_eq!(cmd, CMD_DP_QUERY);
    let document: serde_json::Value = serde_json::from_slice(&payload).unwrap();
    let object = document.as_object().unwrap();
    assert_eq!(object.len(), 4);
    assert_eq!(document["gwId"], "bf1234567890abcdef");
    assert_eq!(document["devId"], "bf1234567890abcdef");
    assert_eq!(document["uid"], "bf1234567890abcdef");
    assert_eq!(document["t"], "1700000000");
}

#[test]
fn command_sets_the_given_data_points() {
    let conn = connection();
    let (cmd, payload) = set_dps_request(&conn, build_power_dps(true), 1_700_000_001);
    assert_eq!(cmd, CMD_CONTROL);
    let document: serde_json::Value = serde_json::from_slice(&payload).unwrap();
    assert_eq!(document.as_object().unwrap().len(), 4);
    assert_eq!(document["devId"], "bf1234567890abcdef");
    assert_eq!(document["uid"], "bf1234567890abcdef");
    assert_eq!(document["t"], "1700000001");
    assert_eq!(document["dps"].as_object().unwrap().len(), 1);
    assert_eq!(document["dps"]["1"], true);
}

#[test]
fn response_is_the_document_in_the_payload() {
    let msg = TuyaMessage {
        seqno: 1,
        cmd: CMD_DP_QUERY,
        retcode: 0,
        payload: b"{\"dps\":{\"1\":true,\"2\":45}}".to_vec(),
    };
    let document = read_response(Ok(msg)).ok().unwrap();
    let dps = document.get("dps").unwrap();
    assert_eq!(dps.get("1").unwrap().as_bool(), Some(true));
    assert_eq!(dps.get("2").unwrap().as_u64(), Some(45));
}

#[test]
fn response_that_is_no_json_is_null() {
    for payload in [&b""[..], b"not json", b"{\"dps\":", b"\xFF\xFE"] {
        let msg =
            TuyaMessage { seqno: 1, cmd: CMD_DP_QUERY, retcode: 0, payload: payload.to_vec() };
        assert!(matches!(read_response(Ok(msg)), Ok(JsonValue::Null)));
    }
}

#[test]
fn errors_of_the_exchange_pass_through_the_response() {
    assert!(matches!(
        read_response(Err(ConnectionError::Timeout)),
        Err(ConnectionError::Timeout)
    ));
    assert!(matches!(
        read_response(Err(ConnectionError::Protocol(ProtocolError::DecryptionFailed))),
        Err(ConnectionError::Protocol(ProtocolError::DecryptionFailed))
    ));
    match read_response(Err(ConnectionError::Tcp(io_error("gone")))) {
        Err(ConnectionError::Tcp(e)) => assert_eq!(e.to_string(), "gone"),
        _ => panic!("expected a transport error"),
    }
}
