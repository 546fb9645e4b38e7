//! The Confluent wire format: a magic byte `0x00`, the registry's schema id
//! as four big-endian bytes, then the Avro encoding of the value.
use vstd::prelude::*;

verus! {

/// The byte that opens every message in the wire format.
pub const MAGIC_BYTE: u8 = 0u8;

/// The length of the header that precedes the Avro encoding.
pub const HEADER_LEN: usize = 5usize;

/// The four big-endian bytes of `id`.
pub open spec fn be_bytes(id: u32) -> Seq<u8> {
    seq![(id / 0x100_0000) as u8, ((id / 0x1_0000) % 0x100) as u8, ((id / 0x100) % 0x100) as u8, (id % 0x100) as u8]
}

/// The number that four big-endian bytes stand for.
pub open spec fn be_u32(b0: u8, b1: u8, b2: u8, b3: u8) -> u32 {
    (b0 * 0x100_0000 + b1 * 0x1_0000 + b2 * 0x100 + b3) as u32
}

/// The message that carries the Avro encoding `payload` of a value written
/// with the schema of id `id`.
pub open spec fn wire_message(id: u32, payload: Seq<u8>) -> Seq<u8> {
    seq![MAGIC_BYTE] + be_bytes(id) + payload
}

/// The schema id and the Avro encoding that message `b` carries, if `b` is in
/// the wire format: at least five bytes, the first of them the magic byte.
pub open spec fn wire_parts(b: Seq<u8>) -> Option<(u32, Seq<u8>)> {
    if b.len() < HEADER_LEN || b[0] != MAGIC_BYTE {
        None
    } else {
        Some((be_u32(b[1], b[2], b[3], b[4]), b.subrange(HEADER_LEN as int, b.len() as int)))
    }
}

/// Why bytes are not a message in the wire format.
#[derive(Debug, PartialEq, Eq, Structural)]
pub enum WireError {
    /// The bytes are fewer than five, or the first is not the magic byte.
    MissingMagicByteOrTooShort,
}

impl WireError {
    /// The text of this error.
    pub fn message(&self) -> (m: String)
        ensures
            m@ == "Invalid Confluent wire format: missing magic byte or too short"@,
    {
        String::from_str("Invalid Confluent wire format: missing magic byte or too short")
    }
}

/// Frames the Avro encoding `datum` of a value written with the schema of id
/// `schema_id` as a message in the wire format.
pub fn frame_message(schema_id: u32, datum: &[u8]) -> (w: Vec<u8>)
    ensures
        w@ == wire_message(schema_id, datum@),
{
    let mut wire: Vec<u8> = Vec::new();
    wire.push(MAGIC_BYTE);
    wire.push((schema_id / 0x100_0000) as u8);
    wire.push(((schema_id / 0x1_0000) % 0x100) as u8);
    wire.push(((schema_id / 0x100) % 0x100) as u8);
    wire.push((schema_id % 0x100) as u8);
    let mut i: usize = 0;
    while i < datum.len()
        invariant
            i <= datum@.len(),
            wire@ == seq![MAGIC_BYTE] + be_bytes(schema_id) + datum@.subrange(0, i as int),
        decreases datum.len() - i,
    {
        wire.push(datum[i]);
        i += 1;
        assert(datum@.subrange(0, i as int) =~= datum@.subrange(0, i - 1).push(datum@[i - 1]));
    }
    assert(datum@.subrange(0, datum@.len() as int) =~= datum@);
    wire
}

/// Splits a message in the wire format into the schema id that its header
/// names and the Avro encoding that follows.
pub fn split_message(bytes: &[u8]) -> (r: Result<(u32, &[u8]), WireError>)
    ensures
        match r {
            Ok((id, payload)) => wire_parts(bytes@) == Some((id, payload@)),
            Err(_) => wire_parts(bytes@) is None,
        },
{
    if bytes.len() < HEADER_LEN || bytes[0] != MAGIC_BYTE {
        return Err(WireError::MissingMagicByteOrTooShort);
    }
    let id: u32 = (bytes[1] as u32) * 0x100_0000 + (bytes[2] as u32) * 0x1_0000 + (bytes[3] as u32) * 0x100
        + (bytes[4] as u32);
    let (_, payload) = bytes.split_at(HEADER_LEN);
    Ok((id, payload))
}

/// A message framed from a schema id and an Avro encoding splits into that
/// schema id and that encoding.
pub proof fn law_split_undoes_frame(id: u32, payload: Seq<u8>)
    ensures
        wire_parts(wire_message(id, payload)) == Some((id, payload)),
{
    let w = wire_message(id, payload);
    assert(w.subrange(HEADER_LEN as int, w.len() as int) =~= payload);
    assert(be_u32(w[1], w[2], w[3], w[4]) == id) by (nonlinear_arith)
        requires
            w[1] == (id / 0x100_0000) as u8,
            w[2] == ((id / 0x1_0000) % 0x100) as u8,
            w[3] == ((id / 0x100) % 0x100) as u8,
            w[4] == (id % 0x100) as u8,
    ;
}

/// A message in the wire format is the framing of the schema id and the Avro
/// encoding that it splits into.
pub proof fn law_frame_undoes_split(b: Seq<u8>)
    requires
        wire_parts(b) is Some,
    ensures
        wire_message(wire_parts(b)->Some_0.0, wire_parts(b)->Some_0.1) == b,
{
    let (id, payload) = wire_parts(b)->Some_0;
    assert(be_bytes(id) =~= seq![b[1], b[2], b[3], b[4]]) by (nonlinear_arith)
        requires
            id == be_u32(b[1], b[2], b[3], b[4]),
    ;
    assert(wire_message(id, payload) =~= b);
}

} // verus!
