//! What holds of every frame: the layout of what [`build_frame`] makes, and
//! what [`parse_frame`] does with damaged buffers.
//!
//! [`build_frame`]: crate::tuya_protocol::build_frame
//! [`parse_frame`]: crate::tuya_protocol::parse_frame

use crate::block_cipher::{lemma_unpad_of_pad, pad_len};
use crate::checksum::{crc32, lemma_crc32_detects_single_byte_change};
use crate::tuya_protocol::{
    crc_offset, encrypt_spec, frame_of, has_version_tag, lemma_frame_layout,
    omits_version_tag, parse_spec, payload_section, payload_section_len, reply_ciphertext,
    request_frame, validate_spec, MessageView, ProtocolError, CMD_CONTROL, CMD_DP_QUERY,
    CMD_HEART_BEAT, CMD_UPDATEDPS, FOOTER_SIZE, HEADER_SIZE, NO_HEADER_CMDS, PREFIX, SUFFIX,
    VERSION_HEADER,
};
use crate::wire::{be_u32, lemma_be_u32_of_bytes, u32_be_bytes};
use vstd::prelude::*;

verus! {

/// The body of a request is as long as [`payload_section_len`] says.
pub proof fn lemma_payload_section_len(cmd: u32, payload: Seq<u8>, key: Seq<u8>)
    ensures
        payload_section(cmd, payload, key).len() == payload_section_len(cmd, payload.len()),
        encrypt_spec(key, payload).len() == payload.len() + pad_len(payload.len()),
        encrypt_spec(key, payload).len() % 16 == 0,
        encrypt_spec(key, payload).len() >= 16,
{
    lemma_unpad_of_pad(payload);
}

/// The outline of the request frame for a command and its payload: at least
/// 40 bytes; the prefix first; the sequence number at bytes 4 to 7 and the
/// command at bytes 8 to 11, both big-endian; the body; the checksum of all
/// that goes before it; the suffix last. The length field counts every byte
/// after the header (the body, the checksum and the suffix) wherever four
/// bytes can hold that number, which is what `build_frame` asks for.
pub open spec fn has_request_structure(
    frame: Seq<u8>,
    seqno: u32,
    cmd: u32,
    payload: Seq<u8>,
    key: Seq<u8>,
) -> bool {
    let len = frame.len() as int;
    &&& len == HEADER_SIZE + payload_section_len(cmd, payload.len()) + FOOTER_SIZE
    &&& len >= 40
    &&& frame.subrange(0, 4) == u32_be_bytes(PREFIX)
    &&& frame.subrange(0, 4) == seq![0x00u8, 0x00u8, 0x55u8, 0xAAu8]
    &&& be_u32(frame.subrange(4, 8)) == seqno
    &&& frame.subrange(4, 8) == u32_be_bytes(seqno)
    &&& be_u32(frame.subrange(8, 12)) == cmd
    &&& frame.subrange(8, 12) == u32_be_bytes(cmd)
    &&& payload_section_len(cmd, payload.len()) + FOOTER_SIZE <= u32::MAX ==> {
        &&& be_u32(frame.subrange(12, 16)) == len - HEADER_SIZE
        &&& be_u32(frame.subrange(12, 16)) == payload_section_len(cmd, payload.len())
            + FOOTER_SIZE
    }
    &&& frame.subrange(16, len - 8) == payload_section(cmd, payload, key)
    &&& be_u32(frame.subrange(len - 8, len - 4)) == crc32(frame.subrange(0, len - 8))
    &&& frame.subrange(len - 4, len) == u32_be_bytes(SUFFIX)
    &&& frame.subrange(len - 4, len) == seq![0x00u8, 0x00u8, 0xAAu8, 0x55u8]
}

/// Every request frame has the outline of [`has_request_structure`],
/// whatever its sequence number, command, payload and key.
pub proof fn lemma_request_frame_structure(seqno: u32, cmd: u32, payload: Seq<u8>, key: Seq<u8>)
    ensures
        has_request_structure(request_frame(seqno, cmd, payload, key), seqno, cmd, payload, key),
{
    assert(u32_be_bytes(PREFIX) =~= seq![0x00u8, 0x00u8, 0x55u8, 0xAAu8]) by {
        reveal(u32_be_bytes);
    }
    assert(u32_be_bytes(SUFFIX) =~= seq![0x00u8, 0x00u8, 0xAAu8, 0x55u8]) by {
        reveal(u32_be_bytes);
    }
    let body = payload_section(cmd, payload, key);
    lemma_payload_section_len(cmd, payload, key);
    lemma_frame_layout(seqno, cmd, body);
    lemma_be_u32_of_bytes(PREFIX);
    lemma_be_u32_of_bytes(SUFFIX);
    let frame = request_frame(seqno, cmd, payload, key);
    let len = frame.len() as int;
    assert(frame.subrange(0, 4) =~= u32_be_bytes(PREFIX)) by {
        reveal(frame_of);
    }
    assert(frame.subrange(4, 8) =~= u32_be_bytes(seqno)) by {
        reveal(frame_of);
        lemma_be_u32_of_bytes(seqno);
    }
    assert(frame.subrange(8, 12) =~= u32_be_bytes(cmd)) by {
        reveal(frame_of);
        lemma_be_u32_of_bytes(seqno);
        lemma_be_u32_of_bytes(cmd);
    }
    assert(frame.subrange(len - 4, len) =~= u32_be_bytes(SUFFIX)) by {
        reveal(frame_of);
        lemma_be_u32_of_bytes(seqno);
        lemma_be_u32_of_bytes(cmd);
        lemma_be_u32_of_bytes((body.len() + FOOTER_SIZE) as u32);
        let unsealed = u32_be_bytes(PREFIX) + u32_be_bytes(seqno) + u32_be_bytes(cmd)
            + u32_be_bytes((body.len() + FOOTER_SIZE) as u32) + body;
        lemma_be_u32_of_bytes(crc32(unsealed));
    }
}

/// Where the version tag stands in the request frame for a command and its
/// payload. For a command outside [`NO_HEADER_CMDS`], such as the control
/// command, the tag (the text `3.3` and twelve zero bytes) stands in the
/// clear right after the header, and the ciphertext from there to the
/// checksum. For a liveness ping, a data-point query or a data-point refresh
/// the ciphertext alone stands between header and checksum, and no tag.
pub open spec fn follows_tag_table(frame: Seq<u8>, cmd: u32, payload: Seq<u8>, key: Seq<u8>)
    -> bool {
    let len = frame.len() as int;
    let sealed = encrypt_spec(key, payload);
    if omits_version_tag(cmd) {
        &&& frame.subrange(16, len - 8) == sealed
        &&& len == 24 + (payload.len() / 16 + 1) * 16
    } else {
        &&& frame.subrange(16, 31) == VERSION_HEADER@
        &&& frame.subrange(16, 19) == seq![0x33u8, 0x2Eu8, 0x33u8]
        &&& frame.subrange(19, 31) == Seq::new(12, |i: int| 0u8)
        &&& frame[16] == 0x33 && frame[17] == 0x2E && frame[18] == 0x33
        &&& frame.subrange(31, len - 8) == sealed
        &&& len == 39 + (payload.len() / 16 + 1) * 16
    }
}

/// The table of tags: the commands that go without a tag are the liveness
/// ping, the data-point query and the data-point refresh, and no other; the
/// control command gets one. Every request frame follows the table, whatever
/// its sequence number, payload and key.
pub proof fn lemma_version_tag_table(seqno: u32, cmd: u32, payload: Seq<u8>, key: Seq<u8>)
    ensures
        !omits_version_tag(CMD_CONTROL),
        omits_version_tag(CMD_HEART_BEAT),
        omits_version_tag(CMD_DP_QUERY),
        omits_version_tag(CMD_UPDATEDPS),
        omits_version_tag(cmd) <==> cmd == CMD_HEART_BEAT || cmd == CMD_DP_QUERY || cmd
            == CMD_UPDATEDPS,
        follows_tag_table(request_frame(seqno, cmd, payload, key), cmd, payload, key),
{
    assert(NO_HEADER_CMDS@[0] == CMD_DP_QUERY);
    assert(NO_HEADER_CMDS@[1] == CMD_UPDATEDPS);
    assert(NO_HEADER_CMDS@[2] == CMD_HEART_BEAT);
    let frame = request_frame(seqno, cmd, payload, key);
    let sealed = encrypt_spec(key, payload);
    let body = payload_section(cmd, payload, key);
    lemma_payload_section_len(cmd, payload, key);
    lemma_frame_layout(seqno, cmd, body);
    let crc_at = HEADER_SIZE + body.len();
    assert(frame.subrange(16, crc_at) == body);
    assert(sealed.len() == (payload.len() / 16 + 1) * 16);
    assert forall|other: u32| omits_version_tag(other) implies other == CMD_HEART_BEAT || other
        == CMD_DP_QUERY || other == CMD_UPDATEDPS by {
        let at = choose|i: int| 0 <= i < NO_HEADER_CMDS@.len() && NO_HEADER_CMDS@[i] == other;
        assert(0 <= at < 3);
    }
    if omits_version_tag(cmd) {
    } else {
        assert(frame.subrange(16, 31) =~= frame.subrange(16, crc_at).subrange(0, 15));
        assert(body.subrange(0, 15) =~= VERSION_HEADER@);
        assert(frame.subrange(16, 19) =~= frame.subrange(16, 31).subrange(0, 3));
        assert(VERSION_HEADER@.subrange(0, 3) =~= seq![0x33u8, 0x2Eu8, 0x33u8]);
        assert(frame.subrange(19, 31) =~= frame.subrange(16, 31).subrange(3, 15));
        assert(VERSION_HEADER@.subrange(3, 15) =~= Seq::new(12, |i: int| 0u8));
        assert(frame.subrange(31, 31 + sealed.len() as int) =~= frame.subrange(16, crc_at).subrange(
            15,
            body.len() as int,
        ));
        assert(body.subrange(15, body.len() as int) =~= sealed);
        assert(frame[16] == frame.subrange(16, 31)[0]);
        assert(frame[17] == frame.subrange(16, 31)[1]);
        assert(frame[18] == frame.subrange(16, 31)[2]);
    }
}

/// Whether `data` passes every check up to and including the checksum: it is
/// long enough, starts with the prefix, holds what its header declares, ends
/// with the suffix, and its stored checksum is that of the bytes before it.
pub open spec fn is_sealed(data: Seq<u8>) -> bool {
    let length = be_u32(data.subrange(12, 16));
    let crc_at = crc_offset(length);
    &&& data.len() >= HEADER_SIZE + FOOTER_SIZE
    &&& be_u32(data.subrange(0, 4)) == PREFIX
    &&& data.len() >= HEADER_SIZE + length
    &&& be_u32(data.subrange(crc_at + 4, crc_at + 8)) == SUFFIX
    &&& be_u32(data.subrange(crc_at, crc_at + 4)) == crc32(data.subrange(0, crc_at))
}

/// Every frame that is built here is sealed.
pub proof fn lemma_frames_are_sealed(seqno: u32, cmd: u32, body: Seq<u8>)
    requires
        body.len() + FOOTER_SIZE <= u32::MAX,
    ensures
        is_sealed(frame_of(seqno, cmd, body)),
{
    lemma_frame_layout(seqno, cmd, body);
}

/// Corruption of the body is detected: if one byte between the header and the
/// checksum of a sealed buffer is replaced by another value, parsing fails
/// with a checksum mismatch, whatever the key. The error holds the checksum
/// that is stored in the buffer and the checksum of the damaged bytes.
pub proof fn lemma_corrupted_body_is_rejected(data: Seq<u8>, key: Seq<u8>, at: int, byte: u8)
    requires
        is_sealed(data),
        HEADER_SIZE <= at < crc_offset(be_u32(data.subrange(12, 16))),
        byte != data[at],
    ensures
        ({
            let crc_at = crc_offset(be_u32(data.subrange(12, 16)));
            let damaged = data.update(at, byte);
            &&& crc32(damaged.subrange(0, crc_at)) != crc32(data.subrange(0, crc_at))
            &&& parse_spec(damaged, key) == Err::<MessageView, ProtocolError>(
                ProtocolError::CrcMismatch {
                    expected: crc32(data.subrange(0, crc_at)),
                    actual: crc32(damaged.subrange(0, crc_at)),
                },
            )
        }),
{
    let crc_at = crc_offset(be_u32(data.subrange(12, 16)));
    let damaged = data.update(at, byte);
    assert(damaged.subrange(0, 4) =~= data.subrange(0, 4));
    assert(damaged.subrange(12, 16) =~= data.subrange(12, 16));
    assert(damaged.subrange(crc_at, crc_at + 4) =~= data.subrange(crc_at, crc_at + 4));
    assert(damaged.subrange(crc_at + 4, crc_at + 8) =~= data.subrange(crc_at + 4, crc_at + 8));
    lemma_crc32_detects_single_byte_change(
        data.subrange(0, crc_at),
        damaged.subrange(0, crc_at),
        at,
    );
}

/// A buffer cut below 24 bytes is too short to be a frame.
pub proof fn lemma_truncated_is_too_short(data: Seq<u8>, key: Seq<u8>, keep: int)
    requires
        0 <= keep <= data.len(),
        keep < HEADER_SIZE + FOOTER_SIZE,
    ensures
        parse_spec(data.subrange(0, keep), key) == Err::<MessageView, ProtocolError>(
            ProtocolError::PayloadTooShort,
        ),
{
}

/// A buffer of at least 24 bytes whose first four bytes are replaced by the
/// encoding of anything but the prefix is rejected for its prefix, and the
/// error holds what was found there.
pub proof fn lemma_wrong_prefix_is_rejected(data: Seq<u8>, key: Seq<u8>, found: u32)
    requires
        data.len() >= HEADER_SIZE + FOOTER_SIZE,
        found != PREFIX,
    ensures
        parse_spec(u32_be_bytes(found) + data.subrange(4, data.len() as int), key) == Err::<
            MessageView,
            ProtocolError,
        >(ProtocolError::InvalidPrefix(found)),
{
    lemma_be_u32_of_bytes(found);
    let replaced = u32_be_bytes(found) + data.subrange(4, data.len() as int);
    assert(replaced.subrange(0, 4) =~= u32_be_bytes(found));
}

/// A reply that holds nothing but its result code parses to a message with
/// an empty payload; nothing is decrypted.
pub proof fn lemma_reply_without_body(seqno: u32, cmd: u32, retcode: u32, key: Seq<u8>)
    ensures
        parse_spec(frame_of(seqno, cmd, u32_be_bytes(retcode)), key) == Ok::<
            MessageView,
            ProtocolError,
        >(MessageView { seqno, cmd, retcode, payload: Seq::empty() }),
{
    let body = u32_be_bytes(retcode);
    let frame = frame_of(seqno, cmd, body);
    lemma_be_u32_of_bytes(retcode);
    lemma_frame_layout(seqno, cmd, body);
    let crc_at = HEADER_SIZE + body.len();
    assert(crc_offset(be_u32(frame.subrange(12, 16))) == crc_at);
    assert(frame.subrange(16, 20) =~= frame.subrange(16, crc_at));
    assert(validate_spec(frame)->Ok_0.raw_payload.len() == 0);
}

/// A reply that holds a version tag and nothing behind it fails decryption:
/// its body is not empty, so it is decrypted, and what follows the tag is no
/// ciphertext.
pub proof fn lemma_bare_tag_fails_decryption(seqno: u32, cmd: u32, retcode: u32, key: Seq<u8>)
    ensures
        frame_of(seqno, cmd, u32_be_bytes(retcode) + VERSION_HEADER@).len() == 43,
        parse_spec(frame_of(seqno, cmd, u32_be_bytes(retcode) + VERSION_HEADER@), key) == Err::<
            MessageView,
            ProtocolError,
        >(ProtocolError::DecryptionFailed),
{
    let body = u32_be_bytes(retcode) + VERSION_HEADER@;
    let frame = frame_of(seqno, cmd, body);
    lemma_be_u32_of_bytes(retcode);
    lemma_frame_layout(seqno, cmd, body);
    let crc_at = HEADER_SIZE + body.len();
    assert(crc_offset(be_u32(frame.subrange(12, 16))) == crc_at);
    let raw = validate_spec(frame)->Ok_0.raw_payload;
    assert(raw =~= frame.subrange(16, crc_at).subrange(4, 19));
    assert(body.subrange(4, 19) =~= VERSION_HEADER@);
    assert(has_version_tag(raw));
    assert(reply_ciphertext(raw).len() == 0);
}

/// A request is not a reply: the body of a request has no result code, so the
/// parser takes the first four bytes of the body for one and is left with a
/// ciphertext that is not a whole number of blocks. Parsing a request frame
/// therefore always fails, with a decryption error.
pub proof fn lemma_request_frame_is_no_reply(seqno: u32, cmd: u32, payload: Seq<u8>, key: Seq<u8>)
    requires
        payload_section_len(cmd, payload.len()) + FOOTER_SIZE <= u32::MAX,
    ensures
        parse_spec(request_frame(seqno, cmd, payload, key), key) == Err::<
            MessageView,
            ProtocolError,
        >(ProtocolError::DecryptionFailed),
{
    let body = payload_section(cmd, payload, key);
    let frame = request_frame(seqno, cmd, payload, key);
    lemma_payload_section_len(cmd, payload, key);
    lemma_frame_layout(seqno, cmd, body);
    let crc_at = HEADER_SIZE + body.len();
    assert(crc_offset(be_u32(frame.subrange(12, 16))) == crc_at);
    let fields = validate_spec(frame)->Ok_0;
    let raw = fields.raw_payload;
    assert(raw.len() == body.len() - 4);
    let ciphertext = reply_ciphertext(raw);
    if !omits_version_tag(cmd) {
        // The text of the tag went into the result code; zeros are left.
        assert(raw[0] == frame.subrange(16, crc_at)[4]);
        assert(body[4] == VERSION_HEADER@[4]);
        assert(!has_version_tag(raw));
    }
    assert(ciphertext.len() % 16 != 0);
}

} // verus!
