//! The frame codec: building request frames, and validating and decrypting
//! the frames that the device sends back.
//!
//! Every frame has the same outline, all integers big-endian:
//!
//! ```text
//! offset 0      prefix 0x000055AA
//! offset 4      sequence number
//! offset 8      command code
//! offset 12     declared length = body length + 8
//! offset 16     body
//! offset 16+L   CRC-32 of bytes [0, 16+L)
//! offset 20+L   suffix 0x0000AA55
//! ```
//!
//! The body of a request is the encrypted payload, for most commands behind a
//! version tag in the clear. The body of a reply starts with a result code.

use crate::block_cipher::{
    append_bytes, decrypt_blocks, ecb_decrypt, ecb_encrypt, encrypt_blocks, lemma_pad_of_unpad,
    lemma_unpad_of_pad, pad_len, pad_message, pkcs7_pad, pkcs7_padded, pkcs7_unpad,
};
use crate::checksum::{checksum, crc32};
use crate::frame_laws::{
    follows_tag_table, has_request_structure, lemma_request_frame_structure,
    lemma_version_tag_table,
};
use crate::json::{encode, json_encoding, members_view, JsonValue, JsonView};
use crate::text::{decimal_text, hex_text, push_decimal, push_hex};
use crate::wire::{be_u32, lemma_be_u32_of_bytes, push_be_u32, read_be_u32, u32_be_bytes};
use vstd::prelude::*;
use vstd::slice::slice_subrange;
use vstd::string::StringExecFns;

verus! {

/// First four bytes of every frame.
pub const PREFIX: u32 = 0x000055AA;

/// Last four bytes of every frame.
pub const SUFFIX: u32 = 0x0000AA55;

/// Bytes before the body: prefix, sequence number, command, declared length.
pub const HEADER_SIZE: usize = 16;

/// Bytes of the checksum field.
pub const CRC_SIZE: usize = 4;

/// Bytes of the suffix field.
pub const SUFFIX_SIZE: usize = 4;

/// Bytes after the body: checksum and suffix.
pub const FOOTER_SIZE: usize = 8;

/// Bytes of the result code that opens the body of a reply.
pub const RETCODE_SIZE: usize = 4;

/// Command: set data points.
pub const CMD_CONTROL: u32 = 0x07;

/// Command: status report, sent by the device.
pub const CMD_STATUS: u32 = 0x08;

/// Command: liveness ping.
pub const CMD_HEART_BEAT: u32 = 0x09;

/// Command: query all data points.
pub const CMD_DP_QUERY: u32 = 0x0A;

/// Command: ask the device to refresh a set of data points.
pub const CMD_UPDATEDPS: u32 = 0x12;

/// The version tag that stands in the clear before the ciphertext: the text
/// `3.3` and twelve zero bytes.
pub const VERSION_HEADER: [u8; 15] = [0x33, 0x2E, 0x33, 0, 0, 0, 0, 0, 0, 0, 0, 0, 0, 0, 0];

/// The commands whose requests carry no version tag. This is a table of the
/// device's firmware, not a rule that could be computed.
pub const NO_HEADER_CMDS: [u32; 3] = [CMD_DP_QUERY, CMD_UPDATEDPS, CMD_HEART_BEAT];

/// A frame ready to be written to the device.
pub struct TuyaFrame {
    pub bytes: Vec<u8>,
}

/// A validated and decrypted frame from the device.
#[derive(Debug)]
pub struct TuyaMessage {
    pub seqno: u32,
    pub cmd: u32,
    pub retcode: u32,
    pub payload: Vec<u8>,
}

/// What a [`TuyaMessage`] holds, as mathematics.
pub struct MessageView {
    pub seqno: u32,
    pub cmd: u32,
    pub retcode: u32,
    pub payload: Seq<u8>,
}

impl View for TuyaMessage {
    type V = MessageView;

    open spec fn view(&self) -> MessageView {
        MessageView {
            seqno: self.seqno,
            cmd: self.cmd,
            retcode: self.retcode,
            payload: self.payload@,
        }
    }
}

/// Why a buffer is not a valid frame.
#[derive(Debug, Clone, Copy, PartialEq, Eq, Structural)]
pub enum ProtocolError {
    /// The buffer does not start with [`PREFIX`]; holds what it starts with.
    InvalidPrefix(u32),
    /// The frame does not end with [`SUFFIX`]; holds what it ends with.
    InvalidSuffix(u32),
    /// The stored checksum (`expected`) is not the checksum of the bytes
    /// before it (`actual`).
    CrcMismatch { expected: u32, actual: u32 },
    /// The buffer is shorter than a frame, than its header declares, or than
    /// a reply has to be.
    PayloadTooShort,
    /// The ciphertext is not a whole number of blocks or does not decrypt to
    /// a padded message.
    DecryptionFailed,
}

impl ProtocolError {
    /// The error in words.
    pub open spec fn message(self) -> Seq<char> {
        match self {
            ProtocolError::InvalidPrefix(found) => "Invalid prefix: "@ + hex_text(found),
            ProtocolError::InvalidSuffix(found) => "Invalid suffix: "@ + hex_text(found),
            ProtocolError::CrcMismatch { expected, actual } => "CRC mismatch: expected "@
                + hex_text(expected) + ", got "@ + hex_text(actual),
            ProtocolError::PayloadTooShort => "Payload too short"@,
            ProtocolError::DecryptionFailed => "AES decryption failed"@,
        }
    }

    /// Writes the error out in words, numbers as `0x` and eight hexadecimal
    /// digits.
    pub fn to_string(&self) -> (text: String)
        ensures
            text@ == self.message(),
    {
        let mut text = String::new();
        match self {
            ProtocolError::InvalidPrefix(found) => {
                text.append("Invalid prefix: ");
                push_hex(&mut text, *found);
            },
            ProtocolError::InvalidSuffix(found) => {
                text.append("Invalid suffix: ");
                push_hex(&mut text, *found);
            },
            ProtocolError::CrcMismatch { expected, actual } => {
                text.append("CRC mismatch: expected ");
                push_hex(&mut text, *expected);
                text.append(", got ");
                push_hex(&mut text, *actual);
            },
            ProtocolError::PayloadTooShort => {
                text.append("Payload too short");
            },
            ProtocolError::DecryptionFailed => {
                text.append("AES decryption failed");
            },
        }
        assert(text@ =~= self.message());
        text
    }
}

// ---------------------------------------------------------------------------
// Payload encryption
// ---------------------------------------------------------------------------

/// The ciphertext of `plaintext`: padded to whole blocks, then encrypted
/// block by block with no initialisation vector.
pub open spec fn encrypt_spec(key: Seq<u8>, plaintext: Seq<u8>) -> Seq<u8> {
    ecb_encrypt(key, pkcs7_pad(plaintext))
}

/// The plaintext of `ciphertext`, if it is a positive whole number of blocks
/// that decrypt to a padded message.
pub open spec fn decrypt_spec(key: Seq<u8>, ciphertext: Seq<u8>) -> Option<Seq<u8>> {
    if ciphertext.len() == 0 || ciphertext.len() % 16 != 0 {
        None
    } else if !pkcs7_padded(ecb_decrypt(key, ciphertext)) {
        None
    } else {
        Some(pkcs7_unpad(ecb_decrypt(key, ciphertext)))
    }
}

/// Encrypts a payload for the device. Succeeds on every input.
pub fn encrypt_payload(plaintext: &[u8], local_key: &[u8; 16]) -> (ciphertext: Vec<u8>)
    ensures
        ciphertext@ == encrypt_spec(local_key@, plaintext@),
        ciphertext@.len() == plaintext@.len() + pad_len(plaintext@.len()),
{
    let padded = pad_message(plaintext);
    proof {
        lemma_unpad_of_pad(plaintext@);
    }
    encrypt_blocks(local_key, padded.as_slice())
}

/// Decrypts a payload from the device.
///
/// Fails exactly when the ciphertext is empty, is not a whole number of
/// blocks, or decrypts to something that does not end in valid padding.
/// The result is `p` exactly when the ciphertext is the encryption of `p`
/// under the same key: whatever [`encrypt_payload`] produced decrypts to what
/// was encrypted, and nothing else decrypts at all.
pub fn decrypt_payload(ciphertext: &[u8], local_key: &[u8; 16]) -> (r: Result<
    Vec<u8>,
    ProtocolError,
>)
    ensures
        match r {
            Ok(plaintext) => decrypt_spec(local_key@, ciphertext@) == Some(plaintext@),
            Err(e) => e == ProtocolError::DecryptionFailed && decrypt_spec(
                local_key@,
                ciphertext@,
            ) is None,
        },
        forall|plaintext: Seq<u8>|
            ciphertext@ == #[trigger] encrypt_spec(local_key@, plaintext) ==> r is Ok
                && r->Ok_0@ == plaintext,
        r matches Ok(plaintext) ==> ciphertext@ == encrypt_spec(local_key@, plaintext@),
{
    let len = ciphertext.len();
    if len == 0 || len % 16 != 0 {
        proof {
            assert forall|plaintext: Seq<u8>|
                ciphertext@ == #[trigger] encrypt_spec(local_key@, plaintext) implies false by {
                lemma_unpad_of_pad(plaintext);
            }
        }
        return Err(ProtocolError::DecryptionFailed);
    }
    let mut plain = decrypt_blocks(local_key, ciphertext);
    proof {
        assert forall|plaintext: Seq<u8>|
            ciphertext@ == #[trigger] encrypt_spec(local_key@, plaintext) implies plain@
            == pkcs7_pad(plaintext) by {
            lemma_unpad_of_pad(plaintext);
            assert(ecb_encrypt(local_key@, pkcs7_pad(plaintext)) == ciphertext@);
        }
    }
    let fill = plain[len - 1];
    if fill == 0 || fill > 16 {
        proof {
            assert forall|plaintext: Seq<u8>|
                ciphertext@ == #[trigger] encrypt_spec(local_key@, plaintext) implies false by {
                lemma_unpad_of_pad(plaintext);
            }
        }
        return Err(ProtocolError::DecryptionFailed);
    }
    let start: usize = len - fill as usize;
    let mut at: usize = start;
    while at < len - 1
        invariant
            start <= at <= len - 1,
            len == plain@.len() == ciphertext@.len(),
            len % 16 == 0,
            1 <= fill <= 16,
            start == len - fill,
            fill == plain@.last(),
            plain@ == ecb_decrypt(local_key@, ciphertext@),
            ecb_encrypt(local_key@, plain@) == ciphertext@,
            forall|plaintext: Seq<u8>|
                ciphertext@ == #[trigger] encrypt_spec(local_key@, plaintext) ==> plain@
                    == pkcs7_pad(plaintext),
            forall|i: int| start <= i < at ==> plain@[i] == fill,
        decreases len - at,
    {
        if plain[at] != fill {
            proof {
                assert forall|plaintext: Seq<u8>|
                    ciphertext@ == #[trigger] encrypt_spec(local_key@, plaintext) implies false by {
                    lemma_unpad_of_pad(plaintext);
                }
            }
            return Err(ProtocolError::DecryptionFailed);
        }
        at += 1;
    }
    let ghost padded = plain@;
    plain.truncate(start);
    proof {
        assert(pkcs7_padded(padded));
        assert(plain@ =~= pkcs7_unpad(padded));
        lemma_pad_of_unpad(padded);
        assert forall|plaintext: Seq<u8>|
            ciphertext@ == #[trigger] encrypt_spec(local_key@, plaintext) implies plain@
            == plaintext by {
            lemma_unpad_of_pad(plaintext);
        }
    }
    Ok(plain)
}

// ---------------------------------------------------------------------------
// Building frames
// ---------------------------------------------------------------------------

/// Whether requests with command `cmd` leave out the version tag.
pub open spec fn omits_version_tag(cmd: u32) -> bool {
    NO_HEADER_CMDS@.contains(cmd)
}

/// The frame with sequence number `seqno`, command `cmd` and body `body`:
/// header, body, checksum of both, suffix.
#[verifier::opaque]
pub open spec fn frame_of(seqno: u32, cmd: u32, body: Seq<u8>) -> Seq<u8> {
    let unsealed = u32_be_bytes(PREFIX) + u32_be_bytes(seqno) + u32_be_bytes(cmd) + u32_be_bytes(
        (body.len() + FOOTER_SIZE) as u32,
    ) + body;
    unsealed + u32_be_bytes(crc32(unsealed)) + u32_be_bytes(SUFFIX)
}

/// The body of a request: the ciphertext of the payload, behind the version
/// tag unless the command is one of [`NO_HEADER_CMDS`].
pub open spec fn payload_section(cmd: u32, payload: Seq<u8>, key: Seq<u8>) -> Seq<u8> {
    if omits_version_tag(cmd) {
        encrypt_spec(key, payload)
    } else {
        VERSION_HEADER@ + encrypt_spec(key, payload)
    }
}

/// Length of the body of a request with a payload of `payload_len` bytes.
pub open spec fn payload_section_len(cmd: u32, payload_len: nat) -> nat {
    if omits_version_tag(cmd) {
        payload_len + pad_len(payload_len)
    } else {
        15 + payload_len + pad_len(payload_len)
    }
}

/// The request frame for a command and its plaintext payload.
pub open spec fn request_frame(seqno: u32, cmd: u32, payload: Seq<u8>, key: Seq<u8>) -> Seq<u8> {
    frame_of(seqno, cmd, payload_section(cmd, payload, key))
}

/// Tests whether a payload of `payload_len` bytes for command `cmd` fits a
/// frame: whether its body and the footer fit the four-byte length field.
pub fn payload_fits(cmd: u32, payload_len: usize) -> (fits: bool)
    ensures
        fits == (payload_section_len(cmd, payload_len as nat) + FOOTER_SIZE <= u32::MAX),
{
    let tag: u64 = if skips_version_header(cmd) {
        0
    } else {
        15
    };
    let fill: u64 = 16 - (payload_len % 16) as u64;
    payload_len as u64 <= u32::MAX as u64 && payload_len as u64 + fill + tag + 8 <= u32::MAX as u64
}

/// Looks `cmd` up in the table of commands that go without a version tag.
pub fn skips_version_header(cmd: u32) -> (skips: bool)
    ensures
        skips == omits_version_tag(cmd),
{
    let mut at: usize = 0;
    while at < NO_HEADER_CMDS.len()
        invariant
            at <= NO_HEADER_CMDS@.len(),
            forall|i: int| 0 <= i < at ==> NO_HEADER_CMDS@[i] != cmd,
        decreases NO_HEADER_CMDS@.len() - at,
    {
        if NO_HEADER_CMDS[at] == cmd {
            return true;
        }
        at += 1;
    }
    false
}

/// Builds the frame that carries `json_payload` to the device.
///
/// The payload is encrypted under `local_key`. All commands but those of
/// [`NO_HEADER_CMDS`] get the version tag in the clear before the ciphertext.
///
/// The length field of every frame holds the number of bytes that follow the
/// header, so the body and the footer together must fit its four bytes;
/// [`payload_fits`] tests that. The result is given byte for byte, and its
/// outline and the place of the tag are spelled out as well.
pub fn build_frame(seqno: u32, cmd: u32, json_payload: &[u8], local_key: &[u8; 16]) -> (frame:
    TuyaFrame)
    requires
        payload_section_len(cmd, json_payload@.len()) + FOOTER_SIZE <= u32::MAX,
    ensures
        frame.bytes@ == request_frame(seqno, cmd, json_payload@, local_key@),
        has_request_structure(frame.bytes@, seqno, cmd, json_payload@, local_key@),
        follows_tag_table(frame.bytes@, cmd, json_payload@, local_key@),
{
    proof {
        lemma_request_frame_structure(seqno, cmd, json_payload@, local_key@);
        lemma_version_tag_table(seqno, cmd, json_payload@, local_key@);
    }
    let encrypted = encrypt_payload(json_payload, local_key);
    let payload = if skips_version_header(cmd) {
        encrypted
    } else {
        let mut tagged: Vec<u8> = Vec::new();
        append_bytes(&mut tagged, VERSION_HEADER.as_slice());
        append_bytes(&mut tagged, encrypted.as_slice());
        tagged
    };
    assert(payload@ == payload_section(cmd, json_payload@, local_key@));
    let length: u32 = (payload.len() + FOOTER_SIZE) as u32;

    let mut frame: Vec<u8> = Vec::new();
    push_be_u32(&mut frame, PREFIX);
    push_be_u32(&mut frame, seqno);
    push_be_u32(&mut frame, cmd);
    push_be_u32(&mut frame, length);
    append_bytes(&mut frame, payload.as_slice());

    let crc = checksum(frame.as_slice());
    push_be_u32(&mut frame, crc);
    push_be_u32(&mut frame, SUFFIX);
    proof {
        reveal(frame_of);
    }
    TuyaFrame { bytes: frame }
}

// ---------------------------------------------------------------------------
// Payloads
// ---------------------------------------------------------------------------

/// A point in time as the device wants it: seconds since 1970, in decimal.
pub fn timestamp_str(unix_secs: u64) -> (text: String)
    ensures
        text@ == decimal_text(unix_secs as nat),
{
    let mut text = String::new();
    push_decimal(&mut text, unix_secs);
    assert(text@ =~= decimal_text(unix_secs as nat));
    text
}

/// The document that asks a device for all its data points.
pub open spec fn dp_query_document(device_id: Seq<char>, timestamp: Seq<char>) -> JsonView {
    JsonView::Object(
        seq![
            ("gwId"@, JsonView::Text(device_id)),
            ("devId"@, JsonView::Text(device_id)),
            ("uid"@, JsonView::Text(device_id)),
            ("t"@, JsonView::Text(timestamp)),
        ],
    )
}

/// The document that sets the data points `dps` on a device.
pub open spec fn control_document(device_id: Seq<char>, timestamp: Seq<char>, dps: JsonView)
    -> JsonView {
    JsonView::Object(
        seq![
            ("devId"@, JsonView::Text(device_id)),
            ("uid"@, JsonView::Text(device_id)),
            ("t"@, JsonView::Text(timestamp)),
            ("dps"@, dps),
        ],
    )
}

/// Builds the document that asks a device for all its data points, stamped
/// with the time `unix_secs`.
pub fn dp_query_request(device_id: &str, unix_secs: u64) -> (document: JsonValue)
    ensures
        document@ == dp_query_document(device_id@, decimal_text(unix_secs as nat)),
{
    let timestamp = timestamp_str(unix_secs);
    let mut members: Vec<(String, JsonValue)> = Vec::new();
    members.push(("gwId".to_owned(), JsonValue::text(device_id)));
    members.push(("devId".to_owned(), JsonValue::text(device_id)));
    members.push(("uid".to_owned(), JsonValue::text(device_id)));
    members.push(("t".to_owned(), JsonValue::text(timestamp.as_str())));
    assert(members_view(members@) =~= dp_query_document(
        device_id@,
        decimal_text(unix_secs as nat),
    )->Object_0);
    JsonValue::object(members)
}

/// Builds the document that sets the data points `dps` on a device, stamped
/// with the time `unix_secs`.
pub fn control_request(device_id: &str, dps: JsonValue, unix_secs: u64) -> (document: JsonValue)
    ensures
        document@ == control_document(device_id@, decimal_text(unix_secs as nat), dps@),
{
    let timestamp = timestamp_str(unix_secs);
    let mut members: Vec<(String, JsonValue)> = Vec::new();
    members.push(("devId".to_owned(), JsonValue::text(device_id)));
    members.push(("uid".to_owned(), JsonValue::text(device_id)));
    members.push(("t".to_owned(), JsonValue::text(timestamp.as_str())));
    members.push(("dps".to_owned(), dps));
    assert(members_view(members@) =~= control_document(
        device_id@,
        decimal_text(unix_secs as nat),
        dps@,
    )->Object_0);
    JsonValue::object(members)
}

/// The payload of a data-point query: the JSON text of [`dp_query_request`].
pub fn build_dp_query_json(device_id: &str, unix_secs: u64) -> (payload: Vec<u8>)
    ensures
        payload@ == json_encoding(dp_query_document(device_id@, decimal_text(unix_secs as nat))),
{
    encode(&dp_query_request(device_id, unix_secs))
}

/// The payload of a control command: the JSON text of [`control_request`].
pub fn build_control_json(device_id: &str, dps: JsonValue, unix_secs: u64) -> (payload: Vec<u8>)
    ensures
        payload@ == json_encoding(
            control_document(device_id@, decimal_text(unix_secs as nat), dps@),
        ),
{
    encode(&control_request(device_id, dps, unix_secs))
}

/// The payload of a liveness ping: nothing.
pub fn build_heartbeat_json() -> (payload: Vec<u8>)
    ensures
        payload@ == Seq::<u8>::empty(),
{
    Vec::new()
}

// ---------------------------------------------------------------------------
// Parsing frames
// ---------------------------------------------------------------------------

/// The fields of a frame that has passed validation.
pub struct FrameFields {
    pub seqno: u32,
    pub cmd: u32,
    pub retcode: u32,
    /// The body after the result code: ciphertext, perhaps behind a version
    /// tag, or nothing at all.
    pub raw_payload: Seq<u8>,
}

/// Offset of the checksum field in a frame whose header declares `length`.
pub open spec fn crc_offset(length: u32) -> int {
    HEADER_SIZE + length - FOOTER_SIZE
}

/// The checks that a buffer has to pass, in the order in which they are
/// made, and the fields of a buffer that passes them all.
pub open spec fn validate_spec(data: Seq<u8>) -> Result<FrameFields, ProtocolError> {
    let prefix = be_u32(data.subrange(0, 4));
    let length = be_u32(data.subrange(12, 16));
    let crc_at = crc_offset(length);
    let suffix = be_u32(data.subrange(crc_at + 4, crc_at + 8));
    let expected = be_u32(data.subrange(crc_at, crc_at + 4));
    let actual = crc32(data.subrange(0, crc_at));
    if data.len() < HEADER_SIZE + FOOTER_SIZE {
        Err(ProtocolError::PayloadTooShort)
    } else if prefix != PREFIX {
        Err(ProtocolError::InvalidPrefix(prefix))
    } else if data.len() < HEADER_SIZE + length {
        Err(ProtocolError::PayloadTooShort)
    } else if suffix != SUFFIX {
        Err(ProtocolError::InvalidSuffix(suffix))
    } else if expected != actual {
        Err(ProtocolError::CrcMismatch { expected, actual })
    } else if crc_at < HEADER_SIZE + RETCODE_SIZE {
        Err(ProtocolError::PayloadTooShort)
    } else {
        Ok(
            FrameFields {
                seqno: be_u32(data.subrange(4, 8)),
                cmd: be_u32(data.subrange(8, 12)),
                retcode: be_u32(data.subrange(16, 20)),
                raw_payload: data.subrange(20, crc_at),
            },
        )
    }
}

/// Whether `raw` opens with a version tag: it is long enough to hold one and
/// starts with the text `3.3`.
pub open spec fn has_version_tag(raw: Seq<u8>) -> bool {
    raw.len() >= 15 && raw[0] == 0x33 && raw[1] == 0x2E && raw[2] == 0x33
}

/// The ciphertext in the body of a reply: what follows the version tag if
/// there is one. The tag is recognised by its content, whatever the command.
pub open spec fn reply_ciphertext(raw: Seq<u8>) -> Seq<u8> {
    if has_version_tag(raw) {
        raw.subrange(15, raw.len() as int)
    } else {
        raw
    }
}

/// What parsing `data` under `key` gives.
pub open spec fn parse_spec(data: Seq<u8>, key: Seq<u8>) -> Result<MessageView, ProtocolError> {
    match validate_spec(data) {
        Err(e) => Err(e),
        Ok(fields) => {
            let ciphertext = reply_ciphertext(fields.raw_payload);
            if fields.raw_payload.len() == 0 {
                Ok(
                    MessageView {
                        seqno: fields.seqno,
                        cmd: fields.cmd,
                        retcode: fields.retcode,
                        payload: Seq::empty(),
                    },
                )
            } else {
                match decrypt_spec(key, ciphertext) {
                    Some(payload) => Ok(
                        MessageView {
                            seqno: fields.seqno,
                            cmd: fields.cmd,
                            retcode: fields.retcode,
                            payload,
                        },
                    ),
                    None => Err(ProtocolError::DecryptionFailed),
                }
            }
        },
    }
}

/// The frame that a device sends in reply: the body is the result code, the
/// version tag if the device chose to send one, and the encrypted payload.
pub open spec fn reply_frame(
    seqno: u32,
    cmd: u32,
    retcode: u32,
    tagged: bool,
    payload: Seq<u8>,
    key: Seq<u8>,
) -> Seq<u8> {
    let tag = if tagged {
        VERSION_HEADER@
    } else {
        Seq::empty()
    };
    frame_of(seqno, cmd, u32_be_bytes(retcode) + tag + encrypt_spec(key, payload))
}

/// Whether `result` does justice to `data` in case it is a reply: the frame
/// of a reply with payload `p`, encrypted under `key`, must give a message
/// with the sequence number, command and result code of the reply and with
/// payload `p`. A reply without a version tag is only covered if its
/// ciphertext does not happen to look like one.
pub open spec fn understands_replies<E>(
    result: Result<TuyaMessage, E>,
    data: Seq<u8>,
    key: Seq<u8>,
) -> bool {
    forall|seqno: u32, cmd: u32, retcode: u32, tagged: bool, payload: Seq<u8>|
        data == #[trigger] reply_frame(seqno, cmd, retcode, tagged, payload, key) && data.len()
            <= u32::MAX && (tagged || !has_version_tag(encrypt_spec(key, payload))) ==> result is Ok
            && result->Ok_0@ == (MessageView { seqno, cmd, retcode, payload })
}

/// Parses and decrypts a frame from the device.
///
/// The checks are made in this order, and the first that fails decides the
/// error: the buffer holds at least 24 bytes; it starts with the prefix; it
/// holds the bytes that its header declares; the suffix stands where the
/// declared length puts it; the checksum matches; the body has room for the
/// result code. A body that holds nothing after the result code gives an
/// empty payload without any decryption. Whatever else follows the result
/// code is decrypted, after the version tag if it opens with one; a tag with
/// nothing behind it is no ciphertext and fails decryption.
///
/// The last clause says that replies are understood: see
/// [`understands_replies`].
pub fn parse_frame(data: &[u8], local_key: &[u8; 16]) -> (r: Result<TuyaMessage, ProtocolError>)
    ensures
        match r {
            Ok(msg) => parse_spec(data@, local_key@) == Ok::<MessageView, ProtocolError>(msg@),
            Err(e) => parse_spec(data@, local_key@) == Err::<MessageView, ProtocolError>(e),
        },
        understands_replies(r, data@, local_key@),
{
    let r = match validate_frame(data) {
        Err(e) => Err(e),
        Ok((seqno, cmd, retcode, crc_at)) => match open_body(data, crc_at, local_key) {
            Ok(payload) => Ok(TuyaMessage { seqno, cmd, retcode, payload }),
            Err(e) => Err(e),
        },
    };
    proof {
        assert forall|seqno: u32, cmd: u32, retcode: u32, tagged: bool, payload: Seq<u8>|
            data@ == #[trigger] reply_frame(seqno, cmd, retcode, tagged, payload, local_key@)
                && data@.len() <= u32::MAX && (tagged || !has_version_tag(
                encrypt_spec(local_key@, payload),
            )) implies r is Ok && r->Ok_0@ == (MessageView { seqno, cmd, retcode, payload }) by {
            lemma_reply_frame_fields(seqno, cmd, retcode, tagged, payload, local_key@);
        }
    }
    r
}

/// Decrypts what the body of a validated frame holds after the result code,
/// `data[20..crc_at]`.
fn open_body(data: &[u8], crc_at: usize, local_key: &[u8; 16]) -> (r: Result<
    Vec<u8>,
    ProtocolError,
>)
    requires
        HEADER_SIZE + RETCODE_SIZE <= crc_at <= data@.len(),
    ensures
        ({
            let raw = data@.subrange(20, crc_at as int);
            let ciphertext = reply_ciphertext(raw);
            &&& match r {
                Ok(payload) => if raw.len() == 0 {
                    payload@ == Seq::<u8>::empty()
                } else {
                    decrypt_spec(local_key@, ciphertext) == Some(payload@)
                },
                Err(e) => e == ProtocolError::DecryptionFailed && raw.len() != 0 && decrypt_spec(
                    local_key@,
                    ciphertext,
                ) is None,
            }
            &&& forall|plaintext: Seq<u8>|
                ciphertext == #[trigger] encrypt_spec(local_key@, plaintext) ==> r is Ok
                    && r->Ok_0@ == plaintext
        }),
{
    let raw_len: usize = crc_at - (HEADER_SIZE + RETCODE_SIZE);
    if raw_len == 0 {
        proof {
            assert(reply_ciphertext(data@.subrange(20, crc_at as int)).len() == 0);
            assert forall|plaintext: Seq<u8>| #[trigger]
                encrypt_spec(local_key@, plaintext).len() != 0 by {
                lemma_unpad_of_pad(plaintext);
            }
        }
        return Ok(Vec::new());
    }
    let tagged = raw_len >= VERSION_HEADER.len() && data[20] == 0x33 && data[21] == 0x2E
        && data[22] == 0x33;
    let from: usize = if tagged {
        HEADER_SIZE + RETCODE_SIZE + VERSION_HEADER.len()
    } else {
        HEADER_SIZE + RETCODE_SIZE
    };
    proof {
        let raw = data@.subrange(20, crc_at as int);
        assert(tagged == has_version_tag(raw));
        assert(data@.subrange(from as int, crc_at as int) =~= reply_ciphertext(raw));
    }
    decrypt_payload(slice_subrange(data, from, crc_at), local_key)
}

/// Runs the checks of [`validate_spec`] and returns the sequence number, the
/// command, the result code and the offset of the checksum field.
fn validate_frame(data: &[u8]) -> (r: Result<(u32, u32, u32, usize), ProtocolError>)
    ensures
        match r {
            Ok((seqno, cmd, retcode, crc_at)) => {
                &&& HEADER_SIZE + RETCODE_SIZE <= crc_at <= data@.len() - FOOTER_SIZE
                &&& validate_spec(data@) == Ok::<FrameFields, ProtocolError>(
                    FrameFields {
                        seqno,
                        cmd,
                        retcode,
                        raw_payload: data@.subrange(20, crc_at as int),
                    },
                )
            },
            Err(e) => validate_spec(data@) == Err::<FrameFields, ProtocolError>(e),
        },
{
    if data.len() < HEADER_SIZE + FOOTER_SIZE {
        return Err(ProtocolError::PayloadTooShort);
    }
    let prefix = read_be_u32(data, 0);
    if prefix != PREFIX {
        return Err(ProtocolError::InvalidPrefix(prefix));
    }
    let seqno = read_be_u32(data, 4);
    let cmd = read_be_u32(data, 8);
    let length = read_be_u32(data, 12);
    if (data.len() as u64) < HEADER_SIZE as u64 + length as u64 {
        return Err(ProtocolError::PayloadTooShort);
    }
    let total_size: usize = HEADER_SIZE + length as usize;

    let suffix_offset: usize = total_size - SUFFIX_SIZE;
    let suffix = read_be_u32(data, suffix_offset);
    if suffix != SUFFIX {
        return Err(ProtocolError::InvalidSuffix(suffix));
    }
    let crc_at: usize = suffix_offset - CRC_SIZE;
    let expected = read_be_u32(data, crc_at);
    let actual = checksum(slice_subrange(data, 0, crc_at));
    if expected != actual {
        return Err(ProtocolError::CrcMismatch { expected, actual });
    }
    if crc_at < HEADER_SIZE + RETCODE_SIZE {
        return Err(ProtocolError::PayloadTooShort);
    }
    let retcode = read_be_u32(data, HEADER_SIZE);
    Ok((seqno, cmd, retcode, crc_at))
}

/// The frame of a reply passes validation, and what validation finds in it
/// is what went into it.
pub proof fn lemma_reply_frame_fields(
    seqno: u32,
    cmd: u32,
    retcode: u32,
    tagged: bool,
    payload: Seq<u8>,
    key: Seq<u8>,
)
    requires
        reply_frame(seqno, cmd, retcode, tagged, payload, key).len() <= u32::MAX,
    ensures
        validate_spec(reply_frame(seqno, cmd, retcode, tagged, payload, key)) matches Ok(fields)
            && fields.seqno == seqno && fields.cmd == cmd && fields.retcode == retcode && (tagged
            || !has_version_tag(encrypt_spec(key, payload)) ==> reply_ciphertext(fields.raw_payload)
            == encrypt_spec(key, payload)),
{
    let tag = if tagged {
        VERSION_HEADER@
    } else {
        Seq::empty()
    };
    let sealed = encrypt_spec(key, payload);
    let body = u32_be_bytes(retcode) + tag + sealed;
    let data = frame_of(seqno, cmd, body);
    lemma_be_u32_of_bytes(retcode);
    assert(data.len() == HEADER_SIZE + body.len() + FOOTER_SIZE) by {
        reveal(frame_of);
        lemma_be_u32_of_bytes(PREFIX);
        lemma_be_u32_of_bytes(seqno);
        lemma_be_u32_of_bytes(cmd);
        lemma_be_u32_of_bytes((body.len() + FOOTER_SIZE) as u32);
        lemma_be_u32_of_bytes(SUFFIX);
        let unsealed = u32_be_bytes(PREFIX) + u32_be_bytes(seqno) + u32_be_bytes(cmd)
            + u32_be_bytes((body.len() + FOOTER_SIZE) as u32) + body;
        lemma_be_u32_of_bytes(crc32(unsealed));
    }
    lemma_frame_layout(seqno, cmd, body);
    let crc_at = HEADER_SIZE + body.len();
    assert(crc_offset(be_u32(data.subrange(12, 16))) == crc_at);
    assert(data.subrange(16, 20) =~= data.subrange(16, crc_at).subrange(0, 4));
    assert(body.subrange(0, 4) =~= u32_be_bytes(retcode));
    assert(data.subrange(20, crc_at) =~= data.subrange(16, crc_at).subrange(4, body.len() as int));
    assert(body.subrange(4, body.len() as int) =~= tag + sealed);
    let fields = validate_spec(data)->Ok_0;
    assert(fields.raw_payload == tag + sealed);
    if tagged {
        assert(has_version_tag(tag + sealed));
        assert((tag + sealed).subrange(15, (tag + sealed).len() as int) =~= sealed);
    } else {
        assert(tag + sealed =~= sealed);
    }
}

/// Where the parts of a frame lie, whatever its body. The length field holds
/// the length of body and footer wherever four bytes can hold it, and the
/// frame then passes every check that does not look into the body.
pub proof fn lemma_frame_layout(seqno: u32, cmd: u32, body: Seq<u8>)
    ensures
        ({
            let data = frame_of(seqno, cmd, body);
            let crc_at = HEADER_SIZE + body.len();
            &&& data.len() == HEADER_SIZE + body.len() + FOOTER_SIZE
            &&& be_u32(data.subrange(0, 4)) == PREFIX
            &&& be_u32(data.subrange(4, 8)) == seqno
            &&& be_u32(data.subrange(8, 12)) == cmd
            &&& body.len() + FOOTER_SIZE <= u32::MAX ==> be_u32(data.subrange(12, 16))
                == body.len() + FOOTER_SIZE
            &&& data.subrange(16, crc_at) == body
            &&& be_u32(data.subrange(crc_at, crc_at + 4)) == crc32(data.subrange(0, crc_at))
            &&& be_u32(data.subrange(crc_at + 4, crc_at + 8)) == SUFFIX
        }),
{
    reveal(frame_of);
    let length = (body.len() + FOOTER_SIZE) as u32;
    let unsealed = u32_be_bytes(PREFIX) + u32_be_bytes(seqno) + u32_be_bytes(cmd) + u32_be_bytes(
        length,
    ) + body;
    let data = frame_of(seqno, cmd, body);
    let crc_at = HEADER_SIZE + body.len();
    lemma_be_u32_of_bytes(PREFIX);
    lemma_be_u32_of_bytes(seqno);
    lemma_be_u32_of_bytes(cmd);
    lemma_be_u32_of_bytes(length);
    lemma_be_u32_of_bytes(crc32(unsealed));
    lemma_be_u32_of_bytes(SUFFIX);
    assert(data.subrange(0, 4) =~= u32_be_bytes(PREFIX));
    assert(data.subrange(4, 8) =~= u32_be_bytes(seqno));
    assert(data.subrange(8, 12) =~= u32_be_bytes(cmd));
    assert(data.subrange(12, 16) =~= u32_be_bytes(length));
    assert(data.subrange(16, crc_at) =~= body);
    assert(data.subrange(0, crc_at) =~= unsealed);
    assert(data.subrange(crc_at, crc_at + 4) =~= u32_be_bytes(crc32(unsealed)));
    assert(data.subrange(crc_at + 4, crc_at + 8) =~= u32_be_bytes(SUFFIX));
}

} // verus!
