//! The bytes of the client preface and of SETTINGS frames.

use vstd::prelude::*;
use crate::frame::HttpFrame;

verus! {

/// The length of a frame header on the wire.
pub const FRAME_HEADER_LEN: usize = 9;

/// The frame type of SETTINGS.
pub const SETTINGS_TYPE: u8 = 4;

/// The largest payload that the 24-bit length field can announce.
pub const MAX_PAYLOAD_LEN: usize = 16777215;

/// The fixed byte string with which a client opens a connection:
/// `PRI * HTTP/2.0\r\n\r\nSM\r\n\r\n`.
pub open spec fn preface() -> Seq<u8> {
    seq![
        0x50u8, 0x52u8, 0x49u8, 0x20u8, 0x2au8, 0x20u8, 0x48u8, 0x54u8,
        0x54u8, 0x50u8, 0x2fu8, 0x32u8, 0x2eu8, 0x30u8, 0x0du8, 0x0au8,
        0x0du8, 0x0au8, 0x53u8, 0x4du8, 0x0du8, 0x0au8, 0x0du8, 0x0au8,
    ]
}

/// Byte `k` of the six bytes of one setting: the identifier in two bytes,
/// then the value in four, most significant byte first.
pub open spec fn entry_byte(entry: (u16, u32), k: int) -> u8 {
    if k == 0 {
        (entry.0 / 256) as u8
    } else if k == 1 {
        (entry.0 % 256) as u8
    } else if k == 2 {
        (entry.1 / 16777216) as u8
    } else if k == 3 {
        ((entry.1 / 65536) % 256) as u8
    } else if k == 4 {
        ((entry.1 / 256) % 256) as u8
    } else {
        (entry.1 % 256) as u8
    }
}

/// The payload of a SETTINGS frame: six bytes for each setting, in order.
pub open spec fn settings_payload(entries: Seq<(u16, u32)>) -> Seq<u8> {
    Seq::new(6 * entries.len(), |i: int| entry_byte(entries[i / 6], i % 6))
}

/// The header of a SETTINGS frame with a payload of `len` bytes: the length
/// in three bytes, the type, the flags (bit 0 is the ack flag), and stream
/// identifier 0 in four bytes.
pub open spec fn settings_header(len: nat, ack: bool) -> Seq<u8> {
    seq![
        (len / 65536) as u8,
        ((len / 256) % 256) as u8,
        (len % 256) as u8,
        SETTINGS_TYPE,
        if ack { 1u8 } else { 0u8 },
        0u8, 0u8, 0u8, 0u8,
    ]
}

/// A whole SETTINGS frame on the wire.
pub open spec fn settings_frame_bytes(ack: bool, entries: Seq<(u16, u32)>) -> Seq<u8> {
    settings_header(6 * entries.len(), ack) + settings_payload(entries)
}

/// The setting that starts at byte `at` of `bytes`.
pub open spec fn entry_at(bytes: Seq<u8>, at: int) -> (u16, u32) {
    (
        (bytes[at] * 256 + bytes[at + 1]) as u16,
        (bytes[at + 2] * 16777216 + bytes[at + 3] * 65536 + bytes[at + 4] * 256 + bytes[at + 5]) as u32,
    )
}

/// The bytes are exactly one SETTINGS frame: a header that announces the
/// rest as payload, type SETTINGS, no flag but ack, stream 0, and a payload
/// of whole settings.
pub open spec fn is_settings_frame(bytes: Seq<u8>) -> bool {
    &&& bytes.len() >= FRAME_HEADER_LEN
    &&& bytes[0] * 65536 + bytes[1] * 256 + bytes[2] == bytes.len() - FRAME_HEADER_LEN
    &&& bytes[3] == SETTINGS_TYPE
    &&& bytes[4] <= 1
    &&& bytes[5] == 0 && bytes[6] == 0 && bytes[7] == 0 && bytes[8] == 0
    &&& (bytes.len() - FRAME_HEADER_LEN) % 6 == 0
}

/// The ack flag and the settings that a SETTINGS frame on the wire holds.
pub open spec fn parsed_settings(bytes: Seq<u8>) -> (bool, Seq<(u16, u32)>) {
    (
        bytes[4] == 1,
        Seq::new(
            ((bytes.len() - FRAME_HEADER_LEN) / 6) as nat,
            |i: int| entry_at(bytes, FRAME_HEADER_LEN + 6 * i),
        ),
    )
}

/// Appends the client preface to `out`.
pub fn write_preface_bytes(out: &mut Vec<u8>)
    ensures
        final(out)@ == old(out)@ + preface(),
{
    let bytes: [u8; 24] = [
        0x50, 0x52, 0x49, 0x20, 0x2a, 0x20, 0x48, 0x54, 0x54, 0x50, 0x2f, 0x32, 0x2e, 0x30, 0x0d, 0x0a,
        0x0d, 0x0a, 0x53, 0x4d, 0x0d, 0x0a, 0x0d, 0x0a,
    ];
    let mut i: usize = 0;
    while i < 24
        invariant
            i <= 24,
            bytes@ == preface(),
            out@ == old(out)@ + preface().take(i as int),
        decreases 24 - i,
    {
        out.push(bytes[i]);
        i = i + 1;
        proof {
            assert(out@ =~= old(out)@ + preface().take(i as int));
        }
    }
    proof {
        assert(preface().take(24) =~= preface());
    }
}

/// Appends a SETTINGS frame with the given ack flag and settings to `out`.
pub fn write_settings_frame(ack: bool, entries: &Vec<(u16, u32)>, out: &mut Vec<u8>)
    requires
        6 * entries@.len() <= MAX_PAYLOAD_LEN,
    ensures
        final(out)@ == old(out)@ + settings_frame_bytes(ack, entries@),
{
    let len: usize = 6 * entries.len();
    out.push((len / 65536) as u8);
    out.push(((len / 256) % 256) as u8);
    out.push((len % 256) as u8);
    out.push(SETTINGS_TYPE);
    out.push(if ack { 1 } else { 0 });
    out.push(0);
    out.push(0);
    out.push(0);
    out.push(0);
    proof {
        assert(out@ =~= old(out)@ + settings_header(6 * entries@.len(), ack));
    }
    let ghost start = out@;
    let mut i: usize = 0;
    while i < entries.len()
        invariant
            i <= entries.len(),
            out@ == start + settings_payload(entries@.take(i as int)),
        decreases entries.len() - i,
    {
        let id: u16 = entries[i].0;
        let value: u32 = entries[i].1;
        out.push((id / 256) as u8);
        out.push((id % 256) as u8);
        out.push((value / 16777216) as u8);
        out.push(((value / 65536) % 256) as u8);
        out.push(((value / 256) % 256) as u8);
        out.push((value % 256) as u8);
        i = i + 1;
        proof {
            let before = settings_payload(entries@.take(i - 1));
            let after = settings_payload(entries@.take(i as int));
            assert forall|j: int| 0 <= j < after.len() implies after[j] == (if j < before.len() {
                before[j]
            } else {
                entry_byte(entries@[i - 1], j - before.len())
            }) by {
                if j < before.len() {
                    assert(entries@.take(i as int)[j / 6] == entries@.take(i - 1)[j / 6]);
                }
            }
            assert(out@ =~= start + after);
        }
    }
    proof {
        assert(entries@.take(i as int) =~= entries@);
        assert(out@ =~= old(out)@ + settings_frame_bytes(ack, entries@));
    }
}

/// Reads `bytes` as one SETTINGS frame. Anything that is not exactly one
/// well-formed SETTINGS frame gives `None`.
pub fn parse_settings_frame(bytes: &[u8]) -> (res: Option<HttpFrame>)
    ensures
        res is Some <==> is_settings_frame(bytes@),
        res is Some ==> res.unwrap()@ == (crate::frame::FrameView::Settings {
            ack: parsed_settings(bytes@).0,
            entries: parsed_settings(bytes@).1,
        }),
{
    if bytes.len() < FRAME_HEADER_LEN {
        return None;
    }
    let payload_len: usize = bytes.len() - FRAME_HEADER_LEN;
    let announced: u32 = (bytes[0] as u32) * 65536 + (bytes[1] as u32) * 256 + (bytes[2] as u32);
    if announced as usize != payload_len || bytes[3] != SETTINGS_TYPE || bytes[4] > 1 {
        return None;
    }
    if bytes[5] != 0 || bytes[6] != 0 || bytes[7] != 0 || bytes[8] != 0 || payload_len % 6 != 0 {
        return None;
    }
    let count: usize = payload_len / 6;
    let mut entries: Vec<(u16, u32)> = Vec::new();
    let mut i: usize = 0;
    while i < count
        invariant
            i <= count,
            6 * count == payload_len,
            payload_len + FRAME_HEADER_LEN == bytes@.len(),
            entries@ == parsed_settings(bytes@).1.take(i as int),
        decreases count - i,
    {
        let at: usize = FRAME_HEADER_LEN + 6 * i;
        let id: u16 = (bytes[at] as u16) * 256 + (bytes[at + 1] as u16);
        let value: u32 = (bytes[at + 2] as u32) * 16777216 + (bytes[at + 3] as u32) * 65536 + (bytes[at
            + 4] as u32) * 256 + (bytes[at + 5] as u32);
        entries.push((id, value));
        i = i + 1;
        proof {
            assert(entries@ =~= parsed_settings(bytes@).1.take(i as int));
        }
    }
    proof {
        assert(parsed_settings(bytes@).1.take(i as int) =~= parsed_settings(bytes@).1);
    }
    Some(HttpFrame::Settings { ack: bytes[4] == 1, entries })
}

/// Six bytes written for a setting read back as that setting.
pub proof fn lemma_entry_round_trip(entry: (u16, u32), bytes: Seq<u8>, at: int)
    requires
        0 <= at,
        at + 6 <= bytes.len(),
        bytes[at] == entry_byte(entry, 0),
        bytes[at + 1] == entry_byte(entry, 1),
        bytes[at + 2] == entry_byte(entry, 2),
        bytes[at + 3] == entry_byte(entry, 3),
        bytes[at + 4] == entry_byte(entry, 4),
        bytes[at + 5] == entry_byte(entry, 5),
    ensures
        entry_at(bytes, at) == entry,
{
    let id = entry.0 as int;
    let value = entry.1 as int;
    assert((id / 256) * 256 + id % 256 == id);
    assert((value / 16777216) * 16777216 + ((value / 65536) % 256) * 65536 + ((value / 256) % 256) * 256
        + value % 256 == value);
}

/// The three length bytes of a header read back as the length.
pub proof fn lemma_length_round_trip(len: int)
    requires
        0 <= len <= MAX_PAYLOAD_LEN,
    ensures
        0 <= len / 65536 < 256,
        (len / 65536) * 65536 + ((len / 256) % 256) * 256 + len % 256 == len,
{
}

/// Writing a SETTINGS frame and reading it back gives the same ack flag and
/// the same settings.
pub proof fn lemma_settings_round_trip(ack: bool, entries: Seq<(u16, u32)>)
    requires
        6 * entries.len() <= MAX_PAYLOAD_LEN,
    ensures
        is_settings_frame(settings_frame_bytes(ack, entries)),
        parsed_settings(settings_frame_bytes(ack, entries)) == (ack, entries),
{
    let bytes = settings_frame_bytes(ack, entries);
    let header = settings_header(6 * entries.len(), ack);
    let payload = settings_payload(entries);
    let len = 6 * entries.len() as int;
    lemma_length_round_trip(len);
    assert(header.len() == 9);
    assert(bytes.len() == FRAME_HEADER_LEN + len);
    assert forall|j: int| 0 <= j < 9 implies bytes[j] == header[j] by {}
    assert forall|j: int| 0 <= j < len implies bytes[9 + j] == #[trigger] payload[j] by {}
    assert(bytes[0] == header[0] && bytes[1] == header[1] && bytes[2] == header[2]);
    assert(bytes[3] == header[3] && bytes[4] == header[4] && bytes[5] == header[5]);
    assert(bytes[6] == header[6] && bytes[7] == header[7] && bytes[8] == header[8]);
    assert(is_settings_frame(bytes));
    let parsed = parsed_settings(bytes).1;
    assert(parsed.len() == entries.len());
    assert forall|i: int| 0 <= i < entries.len() implies parsed[i] == entries[i] by {
        let at = FRAME_HEADER_LEN + 6 * i;
        let e = entries[i];
        assert(bytes[at] == payload[6 * i] && payload[6 * i] == entry_byte(e, 0));
        assert(bytes[at + 1] == payload[6 * i + 1] && payload[6 * i + 1] == entry_byte(e, 1));
        assert(bytes[at + 2] == payload[6 * i + 2] && payload[6 * i + 2] == entry_byte(e, 2));
        assert(bytes[at + 3] == payload[6 * i + 3] && payload[6 * i + 3] == entry_byte(e, 3));
        assert(bytes[at + 4] == payload[6 * i + 4] && payload[6 * i + 4] == entry_byte(e, 4));
        assert(bytes[at + 5] == payload[6 * i + 5] && payload[6 * i + 5] == entry_byte(e, 5));
        lemma_entry_round_trip(e, bytes, at);
    }
    assert(parsed =~= entries);
}

} // verus!
