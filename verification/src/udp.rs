use crate::pdu::{AssetSubPduType, ASSET_PACKET_MAX_SIZE};
use vstd::prelude::*;

verus! {

/// Bytes that a PDU packet spends on its header before the robot name.
pub const PACKET_HEADER_SIZE: usize = 12;

/// The four little-endian bytes of `v`.
pub open spec fn le_bytes(v: i32) -> Seq<u8> {
    let u = v as u32;
    seq![(u & 0xff) as u8, ((u >> 8) & 0xff) as u8, ((u >> 16) & 0xff) as u8, ((u >> 24) & 0xff) as u8]
}

/// The value whose little-endian bytes are `b0`, `b1`, `b2`, `b3`.
pub open spec fn i32_from_le(b0: u8, b1: u8, b2: u8, b3: u8) -> i32 {
    ((b0 as u32) | ((b1 as u32) << 8) | ((b2 as u32) << 16) | ((b3 as u32) << 24)) as i32
}

/// The value that the four bytes of `buf` from `off` on encode.
pub open spec fn field_at(buf: Seq<u8>, off: int) -> i32 {
    i32_from_le(buf[off], buf[off + 1], buf[off + 2], buf[off + 3])
}

/// The header and robot name of a PDU packet: the channel id, the data
/// size and the name's length, each as four little-endian bytes, then the
/// name's bytes.
pub open spec fn packet_head(channel_id: i32, size: i32, name: Seq<u8>) -> Seq<u8> {
    le_bytes(channel_id) + le_bytes(size) + le_bytes(name.len() as i32) + name
}

/// Each byte read as the character of the same number.
pub open spec fn bytes_as_chars(bytes: Seq<u8>) -> Seq<char> {
    bytes.map_values(|b: u8| b as char)
}

/// A PDU packet as a receiver reads it.
pub struct ReceivedPdu {
    pub channel_id: i32,
    pub pdu_size: i32,
    /// The robot name, each of its bytes read as a character.
    pub robo_name: String,
    /// The PDU data: the `pdu_size` bytes that follow the name (none for a
    /// negative size).
    pub data: Vec<u8>,
}

/// What a receiver reads from `buf`: the channel id, the data size, the
/// robot name and the data (none for a negative size, which is handed on
/// as it is); `None` where `buf` is shorter than its header, the name's
/// length is negative, or the name or the data runs past the end of `buf`.
pub open spec fn spec_decode(buf: Seq<u8>) -> Option<(i32, i32, Seq<char>, Seq<u8>)> {
    if buf.len() < PACKET_HEADER_SIZE {
        None
    } else {
        let name_len = field_at(buf, 8) as int;
        let size = field_at(buf, 4) as int;
        if name_len < 0 || PACKET_HEADER_SIZE + name_len > buf.len() || (size >= 0
            && PACKET_HEADER_SIZE + name_len + size > buf.len()) {
            None
        } else {
            Some(
                (
                    field_at(buf, 0),
                    field_at(buf, 4),
                    bytes_as_chars(buf.subrange(12, 12 + name_len)),
                    if size < 0 {
                        Seq::empty()
                    } else {
                        buf.subrange(12 + name_len, 12 + name_len + size)
                    },
                ),
            )
        }
    }
}

/// The little-endian bytes of `v`.
pub fn i32_to_le_bytes(v: i32) -> (b: [u8; 4])
    ensures
        b@ == le_bytes(v),
{
    let u: u32 = v as u32;
    let b: [u8; 4] = [
        (u & 0xff) as u8,
        ((u >> 8) & 0xff) as u8,
        ((u >> 16) & 0xff) as u8,
        ((u >> 24) & 0xff) as u8,
    ];
    assert(b@ =~= le_bytes(v));
    b
}

/// The value that the four bytes of `buf` from `off` on encode.
pub fn read_i32_le(buf: &[u8], off: usize) -> (v: i32)
    requires
        off + 4 <= buf@.len(),
    ensures
        v == field_at(buf@, off as int),
{
    let u: u32 = (buf[off] as u32) | ((buf[off + 1] as u32) << 8) | ((buf[off + 2] as u32) << 16)
        | ((buf[off + 3] as u32) << 24);
    u as i32
}

/// Reads a PDU packet that a sender framed.
pub fn decode_pdu_packet(buf: &[u8]) -> (r: Option<ReceivedPdu>)
    ensures
        match r {
            Some(p) => spec_decode(buf@) == Some((p.channel_id, p.pdu_size, p.robo_name@, p.data@)),
            None => spec_decode(buf@) is None,
        },
{
    if buf.len() < PACKET_HEADER_SIZE {
        return None;
    }
    let channel_id = read_i32_le(buf, 0);
    let pdu_size = read_i32_le(buf, 4);
    let name_len = read_i32_le(buf, 8);
    if name_len < 0 {
        return None;
    }
    let name_len: usize = name_len as usize;
    if name_len > buf.len() - PACKET_HEADER_SIZE {
        return None;
    }
    let size: usize = if pdu_size < 0 {
        0
    } else {
        pdu_size as usize
    };
    if size > buf.len() - PACKET_HEADER_SIZE - name_len {
        return None;
    }
    let mut robo_name = String::new();
    let mut i: usize = 0;
    while i < name_len
        invariant
            i <= name_len,
            name_len + 12 <= buf.len(),
            robo_name@ == bytes_as_chars(buf@.subrange(12, 12 + i)),
        decreases name_len - i,
    {
        crate::text::push_char(&mut robo_name, buf[i + 12] as char);
        assert(buf@.subrange(12, 12 + i + 1) =~= buf@.subrange(12, 12 + i).push(buf@[12 + i]));
        assert(bytes_as_chars(buf@.subrange(12, 12 + i + 1)) =~= bytes_as_chars(buf@.subrange(12, 12 + i)).push(buf@[12 + i] as char));
        i = i + 1;
    }
    let off = PACKET_HEADER_SIZE + name_len;
    let mut data: Vec<u8> = Vec::new();
    let mut j: usize = 0;
    while j < size
        invariant
            j <= size,
            off + size <= buf.len(),
            data@ == buf@.subrange(off as int, off + j),
        decreases size - j,
    {
        data.push(buf[off + j]);
        assert(buf@.subrange(off as int, off + j + 1) =~= buf@.subrange(off as int, off + j).push(buf@[off + j]));
        j = j + 1;
    }
    assert(pdu_size < 0 ==> data@ =~= Seq::<u8>::empty());
    Some(ReceivedPdu { channel_id: channel_id, pdu_size: pdu_size, robo_name: robo_name, data: data })
}

/// The bytes of a robot name as UTF-8.
pub open spec fn name_bytes(robo_name: Seq<char>) -> Seq<u8> {
    vstd::utf8::encode_utf8(robo_name)
}

/// A packet of the channel's robot name, `channel_id` and the first `size`
/// bytes of `data` fits in the channel's packet buffer.
pub open spec fn packet_fits(pdu: AssetSubPduType, size: int) -> bool {
    PACKET_HEADER_SIZE + name_bytes(pdu.robo_name@).len() + size <= ASSET_PACKET_MAX_SIZE
}

/// `new` is `old` with its packet buffer starting with the packet of
/// `channel_id` and the first `size` bytes of `data`; the rest of the buffer
/// keeps what it held.
pub open spec fn holds_packet(
    new: AssetSubPduType,
    old: AssetSubPduType,
    channel_id: i32,
    data: Seq<u8>,
    size: int,
) -> bool {
    let head = packet_head(channel_id, size as i32, name_bytes(old.robo_name@));
    &&& new.buffer@ == head + data.take(size) + old.buffer@.skip(head.len() + size)
    &&& same_but_buffer(new, old)
}

/// `a` and `b` differ at most in their packet buffers.
pub open spec fn same_but_buffer(a: AssetSubPduType, b: AssetSubPduType) -> bool {
    &&& a.asset_name == b.asset_name
    &&& a.robo_name == b.robo_name
    &&& a.pdu_size == b.pdu_size
    &&& a.method_type == b.method_type
    &&& a.options == b.options
    &&& a.channel_id == b.channel_id
}

/// Frames `channel_id`, the channel's robot name and the first `size`
/// bytes of `data` into the channel's packet buffer, the whole of which is
/// then sent; does nothing and says so where the packet does not fit.
pub fn encode_subscriber_packet(
    pdu: &mut AssetSubPduType,
    channel_id: i32,
    data: &[u8],
    size: usize,
) -> (written: bool)
    requires
        size <= data@.len(),
    ensures
        written == packet_fits(*old(pdu), size as int),
        written ==> holds_packet(*final(pdu), *old(pdu), channel_id, data@, size as int),
        !written ==> *final(pdu) == *old(pdu),
{
    let name = pdu.robo_name.as_str().as_bytes();
    let name_len = name.len();
    if name_len > ASSET_PACKET_MAX_SIZE - PACKET_HEADER_SIZE || size > ASSET_PACKET_MAX_SIZE
        - PACKET_HEADER_SIZE - name_len {
        return false;
    }
    let ghost head = packet_head(channel_id, size as i32, name@);
    let ghost old_buffer = pdu.buffer@;
    let buf_ch = i32_to_le_bytes(channel_id);
    let buf_sz = i32_to_le_bytes(size as i32);
    let buf_nl = i32_to_le_bytes(name_len as i32);
    let mut i: usize = 0;
    while i < 4
        invariant
            i <= 4,
            pdu.buffer@.len() == ASSET_PACKET_MAX_SIZE,
            same_but_buffer(*pdu, *old(pdu)),
            forall|j: int| 0 <= j < i ==> pdu.buffer@[j] == buf_ch@[j] && pdu.buffer@[j + 4]
                == buf_sz@[j] && pdu.buffer@[j + 8] == buf_nl@[j],
            forall|j: int| 12 <= j < ASSET_PACKET_MAX_SIZE ==> pdu.buffer@[j] == old_buffer[j],
        decreases 4 - i,
    {
        pdu.buffer[i] = buf_ch[i];
        pdu.buffer[i + 4] = buf_sz[i];
        pdu.buffer[i + 8] = buf_nl[i];
        i = i + 1;
    }
    let mut i: usize = 0;
    while i < name_len
        invariant
            i <= name_len,
            name_len == name@.len(),
            name_len + size + 12 <= ASSET_PACKET_MAX_SIZE,
            pdu.buffer@.len() == ASSET_PACKET_MAX_SIZE,
            same_but_buffer(*pdu, *old(pdu)),
            forall|j: int| 0 <= j < 4 ==> pdu.buffer@[j] == buf_ch@[j] && pdu.buffer@[j + 4]
                == buf_sz@[j] && pdu.buffer@[j + 8] == buf_nl@[j],
            forall|j: int| 0 <= j < i ==> pdu.buffer@[12 + j] == name@[j],
            forall|j: int| 12 + i <= j < ASSET_PACKET_MAX_SIZE ==> pdu.buffer@[j] == old_buffer[j],
        decreases name_len - i,
    {
        pdu.buffer[i + 12] = name[i];
        i = i + 1;
    }
    let off = 12 + name_len;
    let mut i: usize = 0;
    while i < size
        invariant
            i <= size,
            size <= data@.len(),
            off == 12 + name@.len(),
            off + size <= ASSET_PACKET_MAX_SIZE,
            pdu.buffer@.len() == ASSET_PACKET_MAX_SIZE,
            same_but_buffer(*pdu, *old(pdu)),
            forall|j: int| 0 <= j < 4 ==> pdu.buffer@[j] == buf_ch@[j] && pdu.buffer@[j + 4]
                == buf_sz@[j] && pdu.buffer@[j + 8] == buf_nl@[j],
            forall|j: int| 0 <= j < name@.len() ==> pdu.buffer@[12 + j] == name@[j],
            forall|j: int| 0 <= j < i ==> pdu.buffer@[off + j] == data@[j],
            forall|j: int| off + i <= j < ASSET_PACKET_MAX_SIZE ==> pdu.buffer@[j] == old_buffer[j],
        decreases size - i,
    {
        pdu.buffer[i + off] = data[i];
        i = i + 1;
    }
    assert(pdu.buffer@ =~= head + data@.take(size as int) + old_buffer.skip(head.len() + size));
    true
}

/// Reading back the four little-endian bytes of `v` gives `v`.
pub proof fn lemma_le_bytes_roundtrip(v: i32)
    ensures
        i32_from_le(le_bytes(v)[0], le_bytes(v)[1], le_bytes(v)[2], le_bytes(v)[3]) == v,
{
    let u = v as u32;
    assert((((u & 0xff) as u8 as u32) | ((((u >> 8) & 0xff) as u8 as u32) << 8) | ((((u >> 16)
        & 0xff) as u8 as u32) << 16) | ((((u >> 24) & 0xff) as u8 as u32) << 24)) == u)
        by (bit_vector);
    assert((v as u32) as i32 == v) by (bit_vector);
}

/// A receiver reads back what a sender framed: the channel id, the data
/// size, the robot name's bytes and exactly the data; whatever follows the
/// packet does not matter.
pub proof fn lemma_packet_roundtrip(
    channel_id: i32,
    size: int,
    name: Seq<u8>,
    data: Seq<u8>,
    rest: Seq<u8>,
)
    requires
        0 <= size <= i32::MAX,
        size <= data.len(),
        name.len() <= i32::MAX,
    ensures
        spec_decode(packet_head(channel_id, size as i32, name) + data.take(size) + rest) == Some(
            (channel_id, size as i32, bytes_as_chars(name), data.take(size)),
        ),
{
    let buf = packet_head(channel_id, size as i32, name) + data.take(size) + rest;
    lemma_le_bytes_roundtrip(channel_id);
    lemma_le_bytes_roundtrip(size as i32);
    lemma_le_bytes_roundtrip(name.len() as i32);
    assert(field_at(buf, 0) == channel_id);
    assert(field_at(buf, 4) == size as i32);
    assert(field_at(buf, 8) == name.len() as i32);
    assert(buf.subrange(12, 12 + name.len() as int) =~= name);
    assert(buf.subrange(12 + name.len() as int, 12 + name.len() as int + size) =~= data.take(size));
}

/// What `encode_subscriber_packet` leaves in a channel's buffer reads back
/// as the channel id, the data size, the channel's robot name (its bytes
/// read as characters: for an ASCII name, the name itself) and exactly the
/// data.
pub proof fn lemma_encoded_packet_decodes(
    new: AssetSubPduType,
    old: AssetSubPduType,
    channel_id: i32,
    data: Seq<u8>,
    size: int,
)
    requires
        0 <= size <= data.len(),
        packet_fits(old, size),
        holds_packet(new, old, channel_id, data, size),
    ensures
        spec_decode(new.buffer@) == Some(
            (channel_id, size as i32, bytes_as_chars(name_bytes(old.robo_name@)), data.take(size)),
        ),
        vstd::utf8::is_ascii_chars(old.robo_name@) ==> spec_decode(new.buffer@) == Some(
            (channel_id, size as i32, old.robo_name@, data.take(size)),
        ),
{
    let name = name_bytes(old.robo_name@);
    let head = packet_head(channel_id, size as i32, name);
    let rest = old.buffer@.skip(head.len() + size);
    lemma_packet_roundtrip(channel_id, size, name, data, rest);
    if vstd::utf8::is_ascii_chars(old.robo_name@) {
        vstd::utf8::is_ascii_chars_encode_utf8(old.robo_name@);
        assert(bytes_as_chars(name) =~= old.robo_name@);
    }
}

} // verus!
