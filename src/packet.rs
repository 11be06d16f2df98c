//! The inbound media packet: its wire encoding (protocol-buffer rules) and
//! the record decoding reads from it.
use vstd::prelude::*;

use vstd::bytes::{spec_u64_from_le_bytes, u64_from_le_bytes};
use vstd::slice::slice_to_vec;

use crate::frame::{FrameKind, PeerDecodeError, VideoPacket};

verus! {

/// Tag of the frame payload: field 3, length-delimited.
pub const DATA_TAG: u64 = 26;

/// Tag of the sender's identity: field 2, a string.
pub const EMAIL_TAG: u64 = 18;

/// Tag of the frame type name: field 4, a string.
pub const FRAME_TYPE_TAG: u64 = 34;

/// Tag of the presentation time: field 5, 64-bit.
pub const TIMESTAMP_TAG: u64 = 41;

/// Tag of the frame duration: field 6, 64-bit.
pub const DURATION_TAG: u64 = 49;

/// Tag of the video metadata message: field 8, length-delimited.
pub const VIDEO_METADATA_TAG: u64 = 66;

/// Tag of the sequence number inside the video metadata: field 1, varint.
pub const SEQUENCE_TAG: u64 = 8;

/// The largest field number the encoding allows.
pub const MAX_FIELD_NUMBER: u64 = 0x1fff_ffff;

/// The longest varint, in bytes.
pub const MAX_VARINT_LEN: u8 = 10;

/// The fields of a media packet that decoding reads, as plain values.
pub struct PacketFields {
    pub data: Seq<u8>,
    pub frame_type: Seq<u8>,
    pub timestamp_bits: u64,
    pub duration_bits: u64,
    pub sequence: u64,
}

/// The record of a packet that holds none of these fields.
pub open spec fn empty_fields() -> PacketFields {
    PacketFields {
        data: Seq::empty(),
        frame_type: Seq::empty(),
        timestamp_bits: 0,
        duration_bits: 0,
        sequence: 0,
    }
}

/// A base-128 varint of at most `left` bytes at `pos`, not reaching `end`:
/// its value and the position after it. Low groups come first; a byte below
/// 128 ends it; a value past 64 bits is refused.
pub open spec fn varint_from(d: Seq<u8>, pos: usize, end: usize, left: nat) -> Option<(u64, usize)>
    decreases left,
{
    if left == 0 || pos >= end || end > d.len() {
        None
    } else if d[pos as int] < 128 {
        Some((d[pos as int] as u64, (pos + 1) as usize))
    } else {
        match varint_from(d, (pos + 1) as usize, end, (left - 1) as nat) {
            Some((v, p)) => {
                let w = (d[pos as int] % 128) as int + 128 * v;
                if w <= u64::MAX {
                    Some((w as u64, p))
                } else {
                    None
                }
            },
            None => None,
        }
    }
}

pub open spec fn varint(d: Seq<u8>, pos: usize, end: usize) -> Option<(u64, usize)> {
    varint_from(d, pos, end, MAX_VARINT_LEN as nat)
}

/// The value of one field.
pub enum WireValue {
    Varint(u64),
    Fixed64(u64),
    /// The field's bytes lie between the two positions.
    Bytes(usize, usize),
    Fixed32,
    /// A group; its content is skipped.
    Group,
}

/// The value of a field of wire type `wt` and number `field` at `pos`, and
/// the position after it.
pub open spec fn field_value(d: Seq<u8>, pos: usize, end: usize, wt: u64, field: u64) -> Option<
    (WireValue, usize),
>
    decreases end - pos, 2int,
{
    if end > d.len() || pos > end {
        None
    } else if wt == 3 {
        match skip_group(d, pos, end, field) {
            Some(q) => Some((WireValue::Group, q)),
            None => None,
        }
    } else if wt == 0 {
        match varint(d, pos, end) {
            Some((v, p)) => Some((WireValue::Varint(v), p)),
            None => None,
        }
    } else if wt == 1 {
        if pos + 8 <= end {
            Some(
                (
                    WireValue::Fixed64(spec_u64_from_le_bytes(d.subrange(pos as int, pos + 8))),
                    (pos + 8) as usize,
                ),
            )
        } else {
            None
        }
    } else if wt == 2 {
        match varint(d, pos, end) {
            Some((n, p)) => if p + n <= end {
                Some((WireValue::Bytes(p, (p + n) as usize), (p + n) as usize))
            } else {
                None
            },
            None => None,
        }
    } else if wt == 5 {
        if pos + 4 <= end {
            Some((WireValue::Fixed32, (pos + 4) as usize))
        } else {
            None
        }
    } else {
        None
    }
}

/// One field at `pos`: its tag, its value and the position after it. Field
/// numbers run from 1 to `MAX_FIELD_NUMBER`.
pub open spec fn field_at(d: Seq<u8>, pos: usize, end: usize) -> Option<(u64, WireValue, usize)>
    decreases end - pos, 0int,
{
    match varint(d, pos, end) {
        Some((tag, p)) => if tag / 8 == 0 || tag / 8 > MAX_FIELD_NUMBER || !(pos < p <= end) {
            None
        } else {
            match field_value(d, p, end, tag % 8, tag / 8) {
                Some((v, q)) => if pos < q <= end {
                    Some((tag, v, q))
                } else {
                    None
                },
                None => None,
            }
        },
        None => None,
    }
}

/// The position after the end-group tag that closes the group of number
/// `field` whose content starts at `pos`; the fields inside, nested groups
/// included, are skipped.
pub open spec fn skip_group(d: Seq<u8>, pos: usize, end: usize, field: u64) -> Option<usize>
    decreases end - pos, 1int,
{
    if pos >= end || end > d.len() {
        None
    } else {
        match varint(d, pos, end) {
            Some((tag, p)) => if tag % 8 == 4 {
                if tag / 8 == field && pos < p <= end {
                    Some(p)
                } else {
                    None
                }
            } else {
                match field_at(d, pos, end) {
                    Some((_, _, q)) => if pos < q <= end {
                        skip_group(d, q, end, field)
                    } else {
                        None
                    },
                    None => None,
                }
            },
            None => None,
        }
    }
}

/// A UTF-8 continuation byte.
pub open spec fn is_cont(b: u8) -> bool {
    0x80 <= b <= 0xbf
}

/// The length of the well-formed UTF-8 sequence that starts at `i` and ends
/// before `e` (the table of well-formed byte sequences of the Unicode
/// standard); zero where there is none.
pub open spec fn utf8_width(d: Seq<u8>, i: int, e: int) -> int {
    let b = d[i];
    if b < 0x80 {
        1
    } else if 0xc2 <= b <= 0xdf {
        if i + 1 < e && is_cont(d[i + 1]) {
            2
        } else {
            0
        }
    } else if b == 0xe0 {
        if i + 2 < e && 0xa0 <= d[i + 1] <= 0xbf && is_cont(d[i + 2]) {
            3
        } else {
            0
        }
    } else if (0xe1 <= b <= 0xec) || b == 0xee || b == 0xef {
        if i + 2 < e && is_cont(d[i + 1]) && is_cont(d[i + 2]) {
            3
        } else {
            0
        }
    } else if b == 0xed {
        if i + 2 < e && 0x80 <= d[i + 1] <= 0x9f && is_cont(d[i + 2]) {
            3
        } else {
            0
        }
    } else if b == 0xf0 {
        if i + 3 < e && 0x90 <= d[i + 1] <= 0xbf && is_cont(d[i + 2]) && is_cont(d[i + 3]) {
            4
        } else {
            0
        }
    } else if 0xf1 <= b <= 0xf3 {
        if i + 3 < e && is_cont(d[i + 1]) && is_cont(d[i + 2]) && is_cont(d[i + 3]) {
            4
        } else {
            0
        }
    } else if b == 0xf4 {
        if i + 3 < e && 0x80 <= d[i + 1] <= 0x8f && is_cont(d[i + 2]) && is_cont(d[i + 3]) {
            4
        } else {
            0
        }
    } else {
        0
    }
}

/// The bytes from `i` up to `e` are well-formed UTF-8.
pub open spec fn utf8_from(d: Seq<u8>, i: int, e: int) -> bool
    decreases e - i,
{
    if i >= e {
        true
    } else {
        let w = utf8_width(d, i, e);
        w > 0 && utf8_from(d, i + w, e)
    }
}

/// The sequence number that the video metadata message between `pos` and
/// `end` sets, starting from `seq`; the last occurrence wins, other fields
/// are skipped.
pub open spec fn parse_metadata(d: Seq<u8>, pos: usize, end: usize, seq: u64) -> Option<u64>
    decreases end - pos,
{
    if pos >= end {
        Some(seq)
    } else {
        match field_at(d, pos, end) {
            Some((tag, v, q)) => {
                let seq2 = match v {
                    WireValue::Varint(x) => if tag == SEQUENCE_TAG {
                        x
                    } else {
                        seq
                    },
                    _ => seq,
                };
                parse_metadata(d, q, end, seq2)
            },
            None => None,
        }
    }
}

/// The media packet between `pos` and `end`, read into `acc`: a field of a
/// known tag sets its value (the last occurrence wins, metadata messages
/// merge), a string field must hold UTF-8, any other field is skipped.
pub open spec fn parse_fields(d: Seq<u8>, pos: usize, end: usize, acc: PacketFields) -> Option<
    PacketFields,
>
    decreases end - pos,
{
    if pos >= end {
        Some(acc)
    } else {
        match field_at(d, pos, end) {
            Some((tag, v, q)) => {
                let next = match v {
                    WireValue::Bytes(s, e) => if tag == DATA_TAG {
                        Some(PacketFields { data: d.subrange(s as int, e as int), ..acc })
                    } else if tag == FRAME_TYPE_TAG {
                        if utf8_from(d, s as int, e as int) {
                            Some(PacketFields { frame_type: d.subrange(s as int, e as int), ..acc })
                        } else {
                            None
                        }
                    } else if tag == EMAIL_TAG {
                        if utf8_from(d, s as int, e as int) {
                            Some(acc)
                        } else {
                            None
                        }
                    } else if tag == VIDEO_METADATA_TAG {
                        match parse_metadata(d, s, e, acc.sequence) {
                            Some(n) => Some(PacketFields { sequence: n, ..acc }),
                            None => None,
                        }
                    } else {
                        Some(acc)
                    },
                    WireValue::Fixed64(x) => if tag == TIMESTAMP_TAG {
                        Some(PacketFields { timestamp_bits: x, ..acc })
                    } else if tag == DURATION_TAG {
                        Some(PacketFields { duration_bits: x, ..acc })
                    } else {
                        Some(acc)
                    },
                    _ => Some(acc),
                };
                match next {
                    Some(a) => parse_fields(d, q, end, a),
                    None => None,
                }
            },
            None => None,
        }
    }
}

/// The media packet that `d` encodes, if it is well formed.
pub open spec fn parse_spec(d: Seq<u8>) -> Option<PacketFields> {
    parse_fields(d, 0, d.len() as usize, empty_fields())
}

/// The bytes of the frame type name of a key frame.
pub open spec fn key_name() -> Seq<u8> {
    seq![107u8, 101u8, 121u8]
}

/// An inbound media packet as decoding reads it.
pub struct MediaPacket {
    pub data: Vec<u8>,
    /// The frame type name, as sent: `key` for key frames.
    pub frame_type: Vec<u8>,
    /// Bit pattern of the presentation time, an IEEE-754 double.
    pub timestamp_bits: u64,
    /// Bit pattern of the frame duration, an IEEE-754 double.
    pub duration_bits: u64,
    pub sequence: u64,
}

impl View for MediaPacket {
    type V = PacketFields;

    open spec fn view(&self) -> PacketFields {
        PacketFields {
            data: self.data@,
            frame_type: self.frame_type@,
            timestamp_bits: self.timestamp_bits,
            duration_bits: self.duration_bits,
            sequence: self.sequence,
        }
    }
}

fn read_varint_from(d: &[u8], pos: usize, end: usize, left: u8) -> (r: Option<(u64, usize)>)
    ensures
        r == varint_from(d@, pos, end, left as nat),
    decreases left,
{
    if left == 0 || pos >= end || end > d.len() {
        None
    } else if d[pos] < 128 {
        Some((d[pos] as u64, pos + 1))
    } else {
        match read_varint_from(d, pos + 1, end, left - 1) {
            Some((v, p)) => {
                let low = (d[pos] % 128) as u64;
                if v <= (u64::MAX - low) / 128 {
                    Some((low + 128 * v, p))
                } else {
                    None
                }
            },
            None => None,
        }
    }
}

fn read_varint(d: &[u8], pos: usize, end: usize) -> (r: Option<(u64, usize)>)
    ensures
        r == varint(d@, pos, end),
{
    read_varint_from(d, pos, end, MAX_VARINT_LEN)
}

fn read_field_value(d: &[u8], pos: usize, end: usize, wt: u64, field: u64) -> (r: Option<
    (WireValue, usize),
>)
    ensures
        r == field_value(d@, pos, end, wt, field),
    decreases end - pos, 2int,
{
    if end > d.len() || pos > end {
        None
    } else if wt == 3 {
        match read_skip_group(d, pos, end, field) {
            Some(q) => Some((WireValue::Group, q)),
            None => None,
        }
    } else if wt == 0 {
        match read_varint(d, pos, end) {
            Some((v, p)) => Some((WireValue::Varint(v), p)),
            None => None,
        }
    } else if wt == 1 {
        if pos <= end && end - pos >= 8 {
            let x = u64_from_le_bytes(&d[pos..pos + 8]);
            Some((WireValue::Fixed64(x), pos + 8))
        } else {
            None
        }
    } else if wt == 2 {
        match read_varint(d, pos, end) {
            Some((n, p)) => if p <= end && n <= (end - p) as u64 {
                let e = p + n as usize;
                Some((WireValue::Bytes(p, e), e))
            } else {
                None
            },
            None => None,
        }
    } else if wt == 5 {
        if pos <= end && end - pos >= 4 {
            Some((WireValue::Fixed32, pos + 4))
        } else {
            None
        }
    } else {
        None
    }
}

fn read_skip_group(d: &[u8], pos: usize, end: usize, field: u64) -> (r: Option<usize>)
    ensures
        r == skip_group(d@, pos, end, field),
    decreases end - pos, 1int,
{
    if pos >= end || end > d.len() {
        None
    } else {
        match read_varint(d, pos, end) {
            Some((tag, p)) => if tag % 8 == 4 {
                if tag / 8 == field && pos < p && p <= end {
                    Some(p)
                } else {
                    None
                }
            } else {
                match read_field(d, pos, end) {
                    Some((_, _, q)) => if pos < q && q <= end {
                        read_skip_group(d, q, end, field)
                    } else {
                        None
                    },
                    None => None,
                }
            },
            None => None,
        }
    }
}

fn read_field(d: &[u8], pos: usize, end: usize) -> (r: Option<(u64, WireValue, usize)>)
    ensures
        r == field_at(d@, pos, end),
    decreases end - pos, 0int,
{
    match read_varint(d, pos, end) {
        Some((tag, p)) => if tag / 8 == 0 || tag / 8 > MAX_FIELD_NUMBER || !(pos < p && p <= end) {
            None
        } else {
            match read_field_value(d, p, end, tag % 8, tag / 8) {
                Some((v, q)) => if pos < q && q <= end {
                    Some((tag, v, q))
                } else {
                    None
                },
                None => None,
            }
        },
        None => None,
    }
}

fn utf8_width_at(d: &[u8], i: usize, e: usize) -> (r: usize)
    requires
        i < e <= d@.len(),
    ensures
        r == utf8_width(d@, i as int, e as int),
{
    let b = d[i];
    let in2 = i + 1 < e;
    let in3 = in2 && i + 2 < e;
    let in4 = in3 && i + 3 < e;
    if b < 0x80 {
        1
    } else if 0xc2 <= b && b <= 0xdf {
        if in2 && 0x80 <= d[i + 1] && d[i + 1] <= 0xbf {
            2
        } else {
            0
        }
    } else if b == 0xe0 {
        if in3 && 0xa0 <= d[i + 1] && d[i + 1] <= 0xbf && 0x80 <= d[i + 2] && d[i + 2] <= 0xbf {
            3
        } else {
            0
        }
    } else if (0xe1 <= b && b <= 0xec) || b == 0xee || b == 0xef {
        if in3 && 0x80 <= d[i + 1] && d[i + 1] <= 0xbf && 0x80 <= d[i + 2] && d[i + 2] <= 0xbf {
            3
        } else {
            0
        }
    } else if b == 0xed {
        if in3 && 0x80 <= d[i + 1] && d[i + 1] <= 0x9f && 0x80 <= d[i + 2] && d[i + 2] <= 0xbf {
            3
        } else {
            0
        }
    } else if b == 0xf0 {
        if in4 && 0x90 <= d[i + 1] && d[i + 1] <= 0xbf && 0x80 <= d[i + 2] && d[i + 2] <= 0xbf
            && 0x80 <= d[i + 3] && d[i + 3] <= 0xbf {
            4
        } else {
            0
        }
    } else if 0xf1 <= b && b <= 0xf3 {
        if in4 && 0x80 <= d[i + 1] && d[i + 1] <= 0xbf && 0x80 <= d[i + 2] && d[i + 2] <= 0xbf
            && 0x80 <= d[i + 3] && d[i + 3] <= 0xbf {
            4
        } else {
            0
        }
    } else if b == 0xf4 {
        if in4 && 0x80 <= d[i + 1] && d[i + 1] <= 0x8f && 0x80 <= d[i + 2] && d[i + 2] <= 0xbf
            && 0x80 <= d[i + 3] && d[i + 3] <= 0xbf {
            4
        } else {
            0
        }
    } else {
        0
    }
}

fn is_utf8(d: &[u8], start: usize, e: usize) -> (r: bool)
    requires
        start <= e <= d@.len(),
    ensures
        r == utf8_from(d@, start as int, e as int),
{
    let mut i = start;
    while i < e
        invariant
            start <= i <= e <= d@.len(),
            utf8_from(d@, i as int, e as int) == utf8_from(d@, start as int, e as int),
        decreases e - i,
    {
        let w = utf8_width_at(d, i, e);
        if w == 0 {
            return false;
        }
        i = i + w;
    }
    true
}

fn read_metadata(d: &[u8], start: usize, end: usize, seq: u64) -> (r: Option<u64>)
    ensures
        r == parse_metadata(d@, start, end, seq),
{
    let mut pos = start;
    let mut cur = seq;
    while pos < end
        invariant
            parse_metadata(d@, pos, end, cur) == parse_metadata(d@, start, end, seq),
        decreases end - pos,
    {
        match read_field(d, pos, end) {
            Some((tag, v, q)) => {
                match v {
                    WireValue::Varint(x) => if tag == SEQUENCE_TAG {
                        cur = x;
                    },
                    _ => {},
                }
                pos = q;
            },
            None => {
                return None;
            },
        }
    }
    Some(cur)
}

/// Reads a media packet from its wire encoding.
pub fn parse_media_packet(d: &[u8]) -> (r: Result<MediaPacket, PeerDecodeError>)
    ensures
        match parse_spec(d@) {
            Some(p) => r.is_ok() && r.unwrap()@ == p,
            None => r == Err::<MediaPacket, PeerDecodeError>(PeerDecodeError::PacketParseError),
        },
{
    let end = d.len();
    let mut acc = MediaPacket {
        data: Vec::new(),
        frame_type: Vec::new(),
        timestamp_bits: 0,
        duration_bits: 0,
        sequence: 0,
    };
    let mut pos: usize = 0;
    proof {
        assert(acc@ == empty_fields());
    }
    while pos < end
        invariant
            end == d@.len(),
            parse_fields(d@, pos, end, acc@) == parse_spec(d@),
        decreases end - pos,
    {
        match read_field(d, pos, end) {
            Some((tag, v, q)) => {
                match v {
                    WireValue::Bytes(s, e) => {
                        if tag == DATA_TAG {
                            acc.data = slice_to_vec(&d[s..e]);
                        } else if tag == FRAME_TYPE_TAG {
                            if !is_utf8(d, s, e) {
                                return Err(PeerDecodeError::PacketParseError);
                            }
                            acc.frame_type = slice_to_vec(&d[s..e]);
                        } else if tag == EMAIL_TAG {
                            if !is_utf8(d, s, e) {
                                return Err(PeerDecodeError::PacketParseError);
                            }
                        } else if tag == VIDEO_METADATA_TAG {
                            match read_metadata(d, s, e, acc.sequence) {
                                Some(n) => {
                                    acc.sequence = n;
                                },
                                None => {
                                    return Err(PeerDecodeError::PacketParseError);
                                },
                            }
                        }
                    },
                    WireValue::Fixed64(x) => {
                        if tag == TIMESTAMP_TAG {
                            acc.timestamp_bits = x;
                        } else if tag == DURATION_TAG {
                            acc.duration_bits = x;
                        }
                    },
                    _ => {},
                }
                pos = q;
            },
            None => {
                return Err(PeerDecodeError::PacketParseError);
            },
        }
    }
    Ok(acc)
}

impl VideoPacket {
    /// The frame that a media packet carries: a key frame where the type
    /// name is `key`, a delta frame otherwise.
    pub fn from(packet: MediaPacket) -> (r: VideoPacket)
        ensures
            r.data@ == packet.data@,
            r.chunk_type == (if packet.frame_type@ == key_name() {
                FrameKind::Key
            } else {
                FrameKind::Delta
            }),
            r.timestamp_bits == packet.timestamp_bits,
            r.duration_bits == packet.duration_bits,
            r.sequence_number == packet.sequence,
    {
        let t = &packet.frame_type;
        let is_key = t.len() == 3 && t[0] == 107u8 && t[1] == 101u8 && t[2] == 121u8;
        proof {
            if is_key {
                assert(packet.frame_type@ =~= key_name());
            }
        }
        VideoPacket {
            data: packet.data,
            chunk_type: if is_key {
                FrameKind::Key
            } else {
                FrameKind::Delta
            },
            timestamp_bits: packet.timestamp_bits,
            duration_bits: packet.duration_bits,
            sequence_number: packet.sequence,
        }
    }
}

} // verus!
