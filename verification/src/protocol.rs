//! Binary client/server chunk protocol.
//!
//! Each message is serialized to a self-describing compact binary form in
//! the MessagePack style: every value is tagged, integers are fixed-width
//! big-endian two's complement, and tagged-variant discriminants are part of
//! the wire contract. Encoding then decoding any message yields an equal
//! value; malformed bytes are rejected, never repaired.

use vstd::prelude::*;
use vstd::arithmetic::div_mod::{lemma_div_denominator, lemma_fundamental_div_mod};

use crate::chunk::{BlockData, ChunkDeltaData, DeltaView};
use crate::pos::{ChunkPos, LocalBlockPos};
use crate::CHUNK_WIDTH;

verus! {

/// Request sent by the client to the server.
#[derive(Clone, Copy, Debug, PartialEq, Eq, Structural)]
pub enum ServerMessage {
    /// Request the authoritative state of the chunk at this position.
    LoadChunk(ChunkPos),
    /// Change one block of a chunk.
    BlockUpdate(ChunkPos, LocalBlockPos, BlockData),
}

/// Reason of a domain error returned by the server.
#[derive(Clone, Copy, Debug, PartialEq, Eq, Structural, Hash)]
pub enum ErrorMessage {
    NoLoadedWorld,
    WorldDoesNotExist,
}

/// Answer sent by the server to the client.
#[derive(Clone, Debug, PartialEq)]
pub enum ServerResponse {
    /// General acknowledgement.
    Ack,
    /// Typed, recoverable error.
    Error(ErrorMessage),
    /// Answer to `LoadChunk`: the chunk's difference from its generated
    /// state.
    LoadChunkOK(ChunkDeltaData),
}

/// Mathematical model of a response.
pub enum ServerResponseView {
    Ack,
    Error(ErrorMessage),
    LoadChunkOK(DeltaView),
}

impl View for ServerResponse {
    type V = ServerResponseView;

    open spec fn view(&self) -> ServerResponseView {
        match self {
            ServerResponse::Ack => ServerResponseView::Ack,
            ServerResponse::Error(e) => ServerResponseView::Error(*e),
            ServerResponse::LoadChunkOK(d) => ServerResponseView::LoadChunkOK(d@),
        }
    }
}

/// Failure to decode a message: fatal to the connection.
#[derive(Clone, Copy, Debug, PartialEq, Eq, Structural, Hash)]
pub enum DecodeError {
    Malformed,
}

impl ServerMessage {
    /// Every position carried by the message lies inside its chunk.
    pub open spec fn wf(self) -> bool {
        match self {
            ServerMessage::LoadChunk(_) => true,
            ServerMessage::BlockUpdate(_, local, _) => local.wf(),
        }
    }
}

impl ServerResponse {
    /// Every position carried by the response lies inside its chunk, and a
    /// delta is short enough for its length to ride in four bytes.
    pub open spec fn wf(self) -> bool {
        match self {
            ServerResponse::Ack => true,
            ServerResponse::Error(_) => true,
            ServerResponse::LoadChunkOK(delta) => delta.wf() && delta.blocks@.len() < 0x100000000,
        }
    }
}

// ---------------------------------------------------------------------------
// Wire format, as specification functions over byte sequences.
// ---------------------------------------------------------------------------

/// The unsigned 32-bit value standing for `v` in two's complement.
pub open spec fn i32_to_u32(v: i32) -> int {
    if v >= 0 {
        v as int
    } else {
        v + 0x100000000
    }
}

/// The signed value of an unsigned 32-bit two's complement pattern.
pub open spec fn u32_to_i32(u: int) -> i32 {
    if u < 0x80000000 {
        u as i32
    } else {
        (u - 0x100000000) as i32
    }
}

/// The four big-endian bytes of an unsigned 32-bit value.
pub open spec fn be_bytes_u32(u: int) -> Seq<u8> {
    seq![
        (u / 0x1000000) as u8,
        ((u / 0x10000) % 0x100) as u8,
        ((u / 0x100) % 0x100) as u8,
        (u % 0x100) as u8,
    ]
}

/// The unsigned 32-bit value read from four big-endian bytes.
pub open spec fn u32_from_be(b3: u8, b2: u8, b1: u8, b0: u8) -> int {
    b3 * 0x1000000 + b2 * 0x10000 + b1 * 0x100 + b0
}

/// A signed 32-bit integer: tag byte, then four big-endian bytes.
pub open spec fn spec_enc_i32(v: i32) -> Seq<u8> {
    seq![0xd2u8] + be_bytes_u32(i32_to_u32(v))
}

/// An unsigned byte: tag byte, then the value.
pub open spec fn spec_enc_u8(v: u8) -> Seq<u8> {
    seq![0xccu8, v]
}

/// A chunk position: a two-element array of its coordinates.
pub open spec fn spec_enc_chunk_pos(p: ChunkPos) -> Seq<u8> {
    seq![0x92u8] + spec_enc_i32(p.x) + spec_enc_i32(p.z)
}

/// A local block position: a three-element array of its coordinates.
pub open spec fn spec_enc_local(l: LocalBlockPos) -> Seq<u8> {
    seq![0x93u8] + spec_enc_u8(l.x) + spec_enc_u8(l.y) + spec_enc_u8(l.z)
}

/// A block: a one-element array of its type id.
pub open spec fn spec_enc_block(b: BlockData) -> Seq<u8> {
    seq![0x91u8] + spec_enc_u8(b.type_id)
}

/// One delta entry: a two-element array of position and block.
pub open spec fn spec_enc_entry(e: (LocalBlockPos, BlockData)) -> Seq<u8> {
    seq![0x92u8] + spec_enc_local(e.0) + spec_enc_block(e.1)
}

/// The delta's entries, one after the other.
pub open spec fn spec_enc_entries(es: Seq<(LocalBlockPos, BlockData)>) -> Seq<u8>
    decreases es.len(),
{
    if es.len() == 0 {
        Seq::empty()
    } else {
        spec_enc_entry(es[0]) + spec_enc_entries(es.drop_first())
    }
}

/// A chunk delta: a two-element array of the position and the entry list;
/// the list rides behind a four-byte big-endian count.
pub open spec fn spec_enc_delta(d: DeltaView) -> Seq<u8> {
    seq![0x92u8] + spec_enc_chunk_pos(d.pos) + seq![0xddu8] + be_bytes_u32(d.blocks.len() as int)
        + spec_enc_entries(d.blocks)
}

/// A request: a tagged array whose first element is the variant number.
pub open spec fn spec_enc_msg(m: ServerMessage) -> Seq<u8> {
    match m {
        ServerMessage::LoadChunk(p) => seq![0x92u8, 0x00u8] + spec_enc_chunk_pos(p),
        ServerMessage::BlockUpdate(p, l, b) => seq![0x94u8, 0x01u8] + spec_enc_chunk_pos(p)
            + spec_enc_local(l) + spec_enc_block(b),
    }
}

/// Wire byte of an error reason.
pub open spec fn spec_err_byte(e: ErrorMessage) -> u8 {
    match e {
        ErrorMessage::NoLoadedWorld => 0x00,
        ErrorMessage::WorldDoesNotExist => 0x01,
    }
}

/// A response: a tagged array whose first element is the variant number.
pub open spec fn spec_enc_resp(r: ServerResponseView) -> Seq<u8> {
    match r {
        ServerResponseView::Ack => seq![0x91u8, 0x00u8],
        ServerResponseView::Error(e) => seq![0x92u8, 0x01u8, spec_err_byte(e)],
        ServerResponseView::LoadChunkOK(d) => seq![0x92u8, 0x02u8] + spec_enc_delta(d),
    }
}

// ---------------------------------------------------------------------------
// Decoding, as specification functions: each reads one value at an offset
// and yields the value and the offset behind it, or nothing on malformed
// bytes.
// ---------------------------------------------------------------------------

pub open spec fn spec_dec_u8(s: Seq<u8>, i: int) -> Option<(u8, int)> {
    if i + 2 <= s.len() && s[i] == 0xcc {
        Some((s[i + 1], i + 2))
    } else {
        None
    }
}

pub open spec fn spec_dec_i32(s: Seq<u8>, i: int) -> Option<(i32, int)> {
    if i + 5 <= s.len() && s[i] == 0xd2 {
        Some((u32_to_i32(u32_from_be(s[i + 1], s[i + 2], s[i + 3], s[i + 4])), i + 5))
    } else {
        None
    }
}

pub open spec fn spec_dec_chunk_pos(s: Seq<u8>, i: int) -> Option<(ChunkPos, int)> {
    if i < s.len() && s[i] == 0x92 {
        match spec_dec_i32(s, i + 1) {
            Some((x, j)) => match spec_dec_i32(s, j) {
                Some((z, k)) => Some((ChunkPos { x, z }, k)),
                None => None,
            },
            None => None,
        }
    } else {
        None
    }
}

pub open spec fn spec_dec_local(s: Seq<u8>, i: int) -> Option<(LocalBlockPos, int)> {
    if i < s.len() && s[i] == 0x93 {
        match spec_dec_u8(s, i + 1) {
            Some((x, j1)) => match spec_dec_u8(s, j1) {
                Some((y, j2)) => match spec_dec_u8(s, j2) {
                    Some((z, j3)) => if x < CHUNK_WIDTH && z < CHUNK_WIDTH {
                        Some((LocalBlockPos { x, y, z }, j3))
                    } else {
                        None
                    },
                    None => None,
                },
                None => None,
            },
            None => None,
        }
    } else {
        None
    }
}

pub open spec fn spec_dec_block(s: Seq<u8>, i: int) -> Option<(BlockData, int)> {
    if i < s.len() && s[i] == 0x91 {
        match spec_dec_u8(s, i + 1) {
            Some((t, j)) => Some((BlockData { type_id: t }, j)),
            None => None,
        }
    } else {
        None
    }
}

pub open spec fn spec_dec_entry(s: Seq<u8>, i: int) -> Option<((LocalBlockPos, BlockData), int)> {
    if i < s.len() && s[i] == 0x92 {
        match spec_dec_local(s, i + 1) {
            Some((l, j)) => match spec_dec_block(s, j) {
                Some((b, k)) => Some(((l, b), k)),
                None => None,
            },
            None => None,
        }
    } else {
        None
    }
}

pub open spec fn spec_dec_entries(s: Seq<u8>, i: int, n: int) -> Option<
    (Seq<(LocalBlockPos, BlockData)>, int),
>
    decreases n,
{
    if n <= 0 {
        Some((Seq::empty(), i))
    } else {
        match spec_dec_entry(s, i) {
            Some((e, j)) => match spec_dec_entries(s, j, n - 1) {
                Some((es, k)) => Some((seq![e] + es, k)),
                None => None,
            },
            None => None,
        }
    }
}

pub open spec fn spec_dec_delta(s: Seq<u8>, i: int) -> Option<(DeltaView, int)> {
    if i < s.len() && s[i] == 0x92 {
        match spec_dec_chunk_pos(s, i + 1) {
            Some((p, j)) => if j + 5 <= s.len() && s[j] == 0xdd {
                match spec_dec_entries(s, j + 5, u32_from_be(s[j + 1], s[j + 2], s[j + 3], s[j + 4])) {
                    Some((es, k)) => Some((DeltaView { pos: p, blocks: es }, k)),
                    None => None,
                }
            } else {
                None
            },
            None => None,
        }
    } else {
        None
    }
}

pub open spec fn spec_dec_msg(s: Seq<u8>) -> Option<(ServerMessage, int)> {
    if 2 <= s.len() && s[0] == 0x92 && s[1] == 0x00 {
        match spec_dec_chunk_pos(s, 2) {
            Some((p, j)) => Some((ServerMessage::LoadChunk(p), j)),
            None => None,
        }
    } else if 2 <= s.len() && s[0] == 0x94 && s[1] == 0x01 {
        match spec_dec_chunk_pos(s, 2) {
            Some((p, j)) => match spec_dec_local(s, j) {
                Some((l, j2)) => match spec_dec_block(s, j2) {
                    Some((b, j3)) => Some((ServerMessage::BlockUpdate(p, l, b), j3)),
                    None => None,
                },
                None => None,
            },
            None => None,
        }
    } else {
        None
    }
}

/// Decoding of a whole frame: one message, consuming every byte.
pub open spec fn spec_dec_msg_full(s: Seq<u8>) -> Option<ServerMessage> {
    match spec_dec_msg(s) {
        Some((m, k)) => if k == s.len() {
            Some(m)
        } else {
            None
        },
        None => None,
    }
}

pub open spec fn spec_dec_resp(s: Seq<u8>) -> Option<(ServerResponseView, int)> {
    if 2 <= s.len() && s[0] == 0x91 && s[1] == 0x00 {
        Some((ServerResponseView::Ack, 2))
    } else if 3 <= s.len() && s[0] == 0x92 && s[1] == 0x01 {
        if s[2] == 0x00 {
            Some((ServerResponseView::Error(ErrorMessage::NoLoadedWorld), 3))
        } else if s[2] == 0x01 {
            Some((ServerResponseView::Error(ErrorMessage::WorldDoesNotExist), 3))
        } else {
            None
        }
    } else if 2 <= s.len() && s[0] == 0x92 && s[1] == 0x02 {
        match spec_dec_delta(s, 2) {
            Some((d, k)) => Some((ServerResponseView::LoadChunkOK(d), k)),
            None => None,
        }
    } else {
        None
    }
}

/// Decoding of a whole frame: one response, consuming every byte.
pub open spec fn spec_dec_resp_full(s: Seq<u8>) -> Option<ServerResponseView> {
    match spec_dec_resp(s) {
        Some((r, k)) => if k == s.len() {
            Some(r)
        } else {
            None
        },
        None => None,
    }
}

// ---------------------------------------------------------------------------
// Round-trip: decoding an encoded value yields it back, at any offset.
// ---------------------------------------------------------------------------

/// The big-endian byte decomposition of an unsigned 32-bit value is exact.
proof fn lemma_be_bytes(u: int)
    requires
        0 <= u < 0x100000000,
    ensures
        0 <= u / 0x1000000 < 0x100,
        u32_from_be(
            be_bytes_u32(u)[0],
            be_bytes_u32(u)[1],
            be_bytes_u32(u)[2],
            be_bytes_u32(u)[3],
        ) == u,
{
    lemma_fundamental_div_mod(u, 0x100);
    lemma_fundamental_div_mod(u / 0x100, 0x100);
    lemma_fundamental_div_mod(u / 0x10000, 0x100);
    lemma_fundamental_div_mod(u, 0x1000000);
    lemma_div_denominator(u, 0x100, 0x100);
    lemma_div_denominator(u, 0x10000, 0x100);
}

proof fn lemma_i32_u32_round(v: i32)
    ensures
        0 <= i32_to_u32(v) < 0x100000000,
        u32_to_i32(i32_to_u32(v)) == v,
{
}

proof fn lemma_rt_u8(pre: Seq<u8>, v: u8, suf: Seq<u8>)
    ensures
        spec_dec_u8(pre + spec_enc_u8(v) + suf, pre.len() as int) == Some(
            (v, pre.len() + 2 as int),
        ),
{
    let s = pre + spec_enc_u8(v) + suf;
    let i = pre.len() as int;
    assert(s[i] == 0xcc);
    assert(s[i + 1] == v);
}

proof fn lemma_rt_i32(pre: Seq<u8>, v: i32, suf: Seq<u8>)
    ensures
        spec_dec_i32(pre + spec_enc_i32(v) + suf, pre.len() as int) == Some(
            (v, pre.len() + 5 as int),
        ),
{
    let s = pre + spec_enc_i32(v) + suf;
    let i = pre.len() as int;
    let u = i32_to_u32(v);
    lemma_i32_u32_round(v);
    lemma_be_bytes(u);
    let bytes = be_bytes_u32(u);
    assert(s[i] == 0xd2);
    assert(s[i + 1] == bytes[0]);
    assert(s[i + 2] == bytes[1]);
    assert(s[i + 3] == bytes[2]);
    assert(s[i + 4] == bytes[3]);
    assert(u32_from_be(s[i + 1], s[i + 2], s[i + 3], s[i + 4]) == u);
}

proof fn lemma_rt_chunk_pos(pre: Seq<u8>, p: ChunkPos, suf: Seq<u8>)
    ensures
        spec_dec_chunk_pos(pre + spec_enc_chunk_pos(p) + suf, pre.len() as int) == Some(
            (p, pre.len() + spec_enc_chunk_pos(p).len() as int),
        ),
{
    let s = pre + spec_enc_chunk_pos(p) + suf;
    let i = pre.len() as int;
    assert(s[i] == 0x92);
    assert(s =~= (pre + seq![0x92u8]) + spec_enc_i32(p.x) + (spec_enc_i32(p.z) + suf));
    lemma_rt_i32(pre + seq![0x92u8], p.x, spec_enc_i32(p.z) + suf);
    assert(s =~= (pre + seq![0x92u8] + spec_enc_i32(p.x)) + spec_enc_i32(p.z) + suf);
    lemma_rt_i32(pre + seq![0x92u8] + spec_enc_i32(p.x), p.z, suf);
}

proof fn lemma_rt_local(pre: Seq<u8>, l: LocalBlockPos, suf: Seq<u8>)
    requires
        l.wf(),
    ensures
        spec_dec_local(pre + spec_enc_local(l) + suf, pre.len() as int) == Some(
            (l, pre.len() + spec_enc_local(l).len() as int),
        ),
{
    let s = pre + spec_enc_local(l) + suf;
    let i = pre.len() as int;
    assert(s[i] == 0x93);
    assert(s =~= (pre + seq![0x93u8]) + spec_enc_u8(l.x) + (spec_enc_u8(l.y) + spec_enc_u8(l.z)
        + suf));
    lemma_rt_u8(pre + seq![0x93u8], l.x, spec_enc_u8(l.y) + spec_enc_u8(l.z) + suf);
    assert(s =~= (pre + seq![0x93u8] + spec_enc_u8(l.x)) + spec_enc_u8(l.y) + (spec_enc_u8(l.z)
        + suf));
    lemma_rt_u8(pre + seq![0x93u8] + spec_enc_u8(l.x), l.y, spec_enc_u8(l.z) + suf);
    assert(s =~= (pre + seq![0x93u8] + spec_enc_u8(l.x) + spec_enc_u8(l.y)) + spec_enc_u8(l.z)
        + suf);
    lemma_rt_u8(pre + seq![0x93u8] + spec_enc_u8(l.x) + spec_enc_u8(l.y), l.z, suf);
}

proof fn lemma_rt_block(pre: Seq<u8>, b: BlockData, suf: Seq<u8>)
    ensures
        spec_dec_block(pre + spec_enc_block(b) + suf, pre.len() as int) == Some(
            (b, pre.len() + spec_enc_block(b).len() as int),
        ),
{
    let s = pre + spec_enc_block(b) + suf;
    let i = pre.len() as int;
    assert(s[i] == 0x91);
    assert(s =~= (pre + seq![0x91u8]) + spec_enc_u8(b.type_id) + suf);
    lemma_rt_u8(pre + seq![0x91u8], b.type_id, suf);
}

proof fn lemma_rt_entry(pre: Seq<u8>, e: (LocalBlockPos, BlockData), suf: Seq<u8>)
    requires
        e.0.wf(),
    ensures
        spec_dec_entry(pre + spec_enc_entry(e) + suf, pre.len() as int) == Some(
            (e, pre.len() + spec_enc_entry(e).len() as int),
        ),
{
    let s = pre + spec_enc_entry(e) + suf;
    let i = pre.len() as int;
    assert(s[i] == 0x92);
    assert(s =~= (pre + seq![0x92u8]) + spec_enc_local(e.0) + (spec_enc_block(e.1) + suf));
    lemma_rt_local(pre + seq![0x92u8], e.0, spec_enc_block(e.1) + suf);
    assert(s =~= (pre + seq![0x92u8] + spec_enc_local(e.0)) + spec_enc_block(e.1) + suf);
    lemma_rt_block(pre + seq![0x92u8] + spec_enc_local(e.0), e.1, suf);
}

proof fn lemma_rt_entries(pre: Seq<u8>, es: Seq<(LocalBlockPos, BlockData)>, suf: Seq<u8>)
    requires
        forall|k: int| 0 <= k < es.len() ==> (#[trigger] es[k]).0.wf(),
    ensures
        spec_dec_entries(pre + spec_enc_entries(es) + suf, pre.len() as int, es.len() as int)
            == Some((es, pre.len() + spec_enc_entries(es).len() as int)),
    decreases es.len(),
{
    let s = pre + spec_enc_entries(es) + suf;
    let i = pre.len() as int;
    if es.len() == 0 {
        assert(es =~= Seq::<(LocalBlockPos, BlockData)>::empty());
        assert(spec_enc_entries(es).len() == 0);
    } else {
        let e = es[0];
        let rest = es.drop_first();
        assert(spec_enc_entries(es) == spec_enc_entry(e) + spec_enc_entries(rest));
        assert(s =~= pre + spec_enc_entry(e) + (spec_enc_entries(rest) + suf));
        lemma_rt_entry(pre, e, spec_enc_entries(rest) + suf);
        assert(s =~= (pre + spec_enc_entry(e)) + spec_enc_entries(rest) + suf);
        assert(forall|k: int| 0 <= k < rest.len() ==> (#[trigger] rest[k]).0.wf());
        lemma_rt_entries(pre + spec_enc_entry(e), rest, suf);
        assert(seq![e] + rest =~= es);
    }
}

proof fn lemma_rt_delta(pre: Seq<u8>, d: DeltaView, suf: Seq<u8>)
    requires
        forall|k: int| 0 <= k < d.blocks.len() ==> (#[trigger] d.blocks[k]).0.wf(),
        d.blocks.len() < 0x100000000,
    ensures
        spec_dec_delta(pre + spec_enc_delta(d) + suf, pre.len() as int) == Some(
            (d, pre.len() + spec_enc_delta(d).len() as int),
        ),
{
    let s = pre + spec_enc_delta(d) + suf;
    let i = pre.len() as int;
    let n = d.blocks.len() as int;
    assert(s[i] == 0x92);
    assert(s =~= (pre + seq![0x92u8]) + spec_enc_chunk_pos(d.pos) + (seq![0xddu8] + be_bytes_u32(n)
        + spec_enc_entries(d.blocks) + suf));
    lemma_rt_chunk_pos(
        pre + seq![0x92u8],
        d.pos,
        seq![0xddu8] + be_bytes_u32(n) + spec_enc_entries(d.blocks) + suf,
    );
    let j = i + 1 + spec_enc_chunk_pos(d.pos).len() as int;
    lemma_be_bytes(n);
    let bytes = be_bytes_u32(n);
    assert(s[j] == 0xdd);
    assert(s[j + 1] == bytes[0]);
    assert(s[j + 2] == bytes[1]);
    assert(s[j + 3] == bytes[2]);
    assert(s[j + 4] == bytes[3]);
    assert(u32_from_be(s[j + 1], s[j + 2], s[j + 3], s[j + 4]) == n);
    assert(s =~= (pre + seq![0x92u8] + spec_enc_chunk_pos(d.pos) + seq![0xddu8] + be_bytes_u32(n))
        + spec_enc_entries(d.blocks) + suf);
    lemma_rt_entries(
        pre + seq![0x92u8] + spec_enc_chunk_pos(d.pos) + seq![0xddu8] + be_bytes_u32(n),
        d.blocks,
        suf,
    );
    assert(spec_dec_entries(s, j + 5, n) == Some(
        (d.blocks, j + 5 + spec_enc_entries(d.blocks).len()),
    ));
}

// ---------------------------------------------------------------------------
// Executable encoding.
// ---------------------------------------------------------------------------

proof fn lemma_enc_entries_push(es: Seq<(LocalBlockPos, BlockData)>, e: (LocalBlockPos, BlockData))
    ensures
        spec_enc_entries(es.push(e)) == spec_enc_entries(es) + spec_enc_entry(e),
    decreases es.len(),
{
    if es.len() == 0 {
        assert(es.push(e)[0] == e);
        assert(es.push(e).drop_first() =~= Seq::<(LocalBlockPos, BlockData)>::empty());
        assert(spec_enc_entries(es.push(e).drop_first()) =~= Seq::<u8>::empty());
        assert(spec_enc_entries(es.push(e)) == spec_enc_entry(es.push(e)[0]) + spec_enc_entries(
            es.push(e).drop_first(),
        ));
        assert(spec_enc_entries(es.push(e)) =~= spec_enc_entry(e));
        assert(spec_enc_entries(es) + spec_enc_entry(e) =~= spec_enc_entry(e));
    } else {
        assert(es.push(e)[0] == es[0]);
        assert(es.push(e).drop_first() =~= es.drop_first().push(e));
        lemma_enc_entries_push(es.drop_first(), e);
        assert(spec_enc_entries(es.push(e)) == spec_enc_entry(es[0]) + spec_enc_entries(
            es.drop_first().push(e),
        ));
        assert(spec_enc_entry(es[0]) + (spec_enc_entries(es.drop_first()) + spec_enc_entry(e))
            =~= (spec_enc_entry(es[0]) + spec_enc_entries(es.drop_first())) + spec_enc_entry(e));
    }
}

/// Appends the four big-endian bytes of `u`.
fn push_be_u32(out: &mut Vec<u8>, u: u32)
    ensures
        final(out)@ == old(out)@ + be_bytes_u32(u as int),
{
    proof {
        lemma_be_bytes(u as int);
    }
    out.push((u / 0x1000000) as u8);
    out.push(((u / 0x10000) % 0x100) as u8);
    out.push(((u / 0x100) % 0x100) as u8);
    out.push((u % 0x100) as u8);
    proof {
        assert(out@ =~= old(out)@ + be_bytes_u32(u as int));
    }
}

fn push_i32(out: &mut Vec<u8>, v: i32)
    ensures
        final(out)@ == old(out)@ + spec_enc_i32(v),
{
    let u: u32 = if v >= 0 {
        v as u32
    } else {
        ((v as i64) + 0x100000000i64) as u32
    };
    proof {
        assert(u as int == i32_to_u32(v));
    }
    out.push(0xd2);
    push_be_u32(out, u);
    proof {
        assert(out@ =~= old(out)@ + spec_enc_i32(v));
    }
}

fn push_u8v(out: &mut Vec<u8>, v: u8)
    ensures
        final(out)@ == old(out)@ + spec_enc_u8(v),
{
    out.push(0xcc);
    out.push(v);
    proof {
        assert(out@ =~= old(out)@ + spec_enc_u8(v));
    }
}

fn push_chunk_pos(out: &mut Vec<u8>, p: ChunkPos)
    ensures
        final(out)@ == old(out)@ + spec_enc_chunk_pos(p),
{
    out.push(0x92);
    push_i32(out, p.x);
    push_i32(out, p.z);
    proof {
        assert(out@ =~= old(out)@ + spec_enc_chunk_pos(p));
    }
}

fn push_local(out: &mut Vec<u8>, l: LocalBlockPos)
    ensures
        final(out)@ == old(out)@ + spec_enc_local(l),
{
    out.push(0x93);
    push_u8v(out, l.x);
    push_u8v(out, l.y);
    push_u8v(out, l.z);
    proof {
        assert(out@ =~= old(out)@ + spec_enc_local(l));
    }
}

fn push_block(out: &mut Vec<u8>, b: BlockData)
    ensures
        final(out)@ == old(out)@ + spec_enc_block(b),
{
    out.push(0x91);
    push_u8v(out, b.type_id);
    proof {
        assert(out@ =~= old(out)@ + spec_enc_block(b));
    }
}

fn push_entry(out: &mut Vec<u8>, e: (LocalBlockPos, BlockData))
    ensures
        final(out)@ == old(out)@ + spec_enc_entry(e),
{
    out.push(0x92);
    push_local(out, e.0);
    push_block(out, e.1);
    proof {
        assert(out@ =~= old(out)@ + spec_enc_entry(e));
    }
}

impl ServerMessage {
    /// Serializes the request to its wire bytes.
    pub fn encode(&self) -> (out: Vec<u8>)
        ensures
            out@ == spec_enc_msg(*self),
    {
        let mut out: Vec<u8> = Vec::new();
        match self {
            ServerMessage::LoadChunk(p) => {
                out.push(0x92);
                out.push(0x00);
                push_chunk_pos(&mut out, *p);
            },
            ServerMessage::BlockUpdate(p, l, b) => {
                out.push(0x94);
                out.push(0x01);
                push_chunk_pos(&mut out, *p);
                push_local(&mut out, *l);
                push_block(&mut out, *b);
            },
        }
        proof {
            assert(out@ =~= spec_enc_msg(*self));
        }
        out
    }
}

impl ServerResponse {
    /// Serializes the response to its wire bytes.
    pub fn encode(&self) -> (out: Vec<u8>)
        requires
            self.wf(),
        ensures
            out@ == spec_enc_resp(self@),
    {
        let mut out: Vec<u8> = Vec::new();
        match self {
            ServerResponse::Ack => {
                out.push(0x91);
                out.push(0x00);
            },
            ServerResponse::Error(e) => {
                out.push(0x92);
                out.push(0x01);
                match e {
                    ErrorMessage::NoLoadedWorld => out.push(0x00),
                    ErrorMessage::WorldDoesNotExist => out.push(0x01),
                }
            },
            ServerResponse::LoadChunkOK(d) => {
                out.push(0x92);
                out.push(0x02);
                out.push(0x92);
                push_chunk_pos(&mut out, d.pos);
                out.push(0xdd);
                let n = d.blocks.len();
                push_be_u32(&mut out, n as u32);
                let ghost prefix = out@;
                for i in 0..n
                    invariant
                        n == d.blocks@.len(),
                        out@ == prefix + spec_enc_entries(d.blocks@.take(i as int)),
                {
                    push_entry(&mut out, d.blocks[i]);
                    proof {
                        lemma_enc_entries_push(d.blocks@.take(i as int), d.blocks@[i as int]);
                        assert(d.blocks@.take(i as int).push(d.blocks@[i as int]) =~= d.blocks@.take(
                            i + 1,
                        ));
                        assert(out@ =~= prefix + spec_enc_entries(d.blocks@.take(i + 1)));
                    }
                }
                proof {
                    assert(d.blocks@.take(n as int) =~= d.blocks@);
                }
            },
        }
        proof {
            assert(out@ =~= spec_enc_resp(self@));
        }
        out
    }
}

// ---------------------------------------------------------------------------
// Executable decoding.
// ---------------------------------------------------------------------------

fn dec_u8(buf: &Vec<u8>, i: usize) -> (r: Option<(u8, usize)>)
    ensures
        match r {
            Some(p) => spec_dec_u8(buf@, i as int) == Some((p.0, p.1 as int)) && p.1 <= buf@.len(),
            None => spec_dec_u8(buf@, i as int) is None,
        },
{
    if i < buf.len() && buf.len() - i >= 2 && buf[i] == 0xcc {
        Some((buf[i + 1], i + 2))
    } else {
        None
    }
}

fn dec_i32(buf: &Vec<u8>, i: usize) -> (r: Option<(i32, usize)>)
    ensures
        match r {
            Some(p) => spec_dec_i32(buf@, i as int) == Some((p.0, p.1 as int)) && p.1
                <= buf@.len(),
            None => spec_dec_i32(buf@, i as int) is None,
        },
{
    if i < buf.len() && buf.len() - i >= 5 && buf[i] == 0xd2 {
        let b3 = buf[i + 1];
        let b2 = buf[i + 2];
        let b1 = buf[i + 3];
        let b0 = buf[i + 4];
        let u: u32 = (b3 as u32) * 0x1000000 + (b2 as u32) * 0x10000 + (b1 as u32) * 0x100 + (
        b0 as u32);
        let v: i32 = if u < 0x80000000 {
            u as i32
        } else {
            ((u as i64) - 0x100000000i64) as i32
        };
        proof {
            assert(u as int == u32_from_be(b3, b2, b1, b0));
            assert(v == u32_to_i32(u as int));
        }
        Some((v, i + 5))
    } else {
        None
    }
}

fn dec_chunk_pos(buf: &Vec<u8>, i: usize) -> (r: Option<(ChunkPos, usize)>)
    ensures
        match r {
            Some(p) => spec_dec_chunk_pos(buf@, i as int) == Some((p.0, p.1 as int)) && p.1
                <= buf@.len(),
            None => spec_dec_chunk_pos(buf@, i as int) is None,
        },
{
    if i < buf.len() && buf[i] == 0x92 {
        match dec_i32(buf, i + 1) {
            Some((x, j)) => match dec_i32(buf, j) {
                Some((z, k)) => Some((ChunkPos { x, z }, k)),
                None => None,
            },
            None => None,
        }
    } else {
        None
    }
}

fn dec_local(buf: &Vec<u8>, i: usize) -> (r: Option<(LocalBlockPos, usize)>)
    ensures
        match r {
            Some(p) => spec_dec_local(buf@, i as int) == Some((p.0, p.1 as int)) && p.1
                <= buf@.len() && p.0.wf(),
            None => spec_dec_local(buf@, i as int) is None,
        },
{
    if i < buf.len() && buf[i] == 0x93 {
        match dec_u8(buf, i + 1) {
            Some((x, j1)) => match dec_u8(buf, j1) {
                Some((y, j2)) => match dec_u8(buf, j2) {
                    Some((z, j3)) => if (x as usize) < CHUNK_WIDTH && (z as usize) < CHUNK_WIDTH {
                        Some((LocalBlockPos { x, y, z }, j3))
                    } else {
                        None
                    },
                    None => None,
                },
                None => None,
            },
            None => None,
        }
    } else {
        None
    }
}

fn dec_block(buf: &Vec<u8>, i: usize) -> (r: Option<(BlockData, usize)>)
    ensures
        match r {
            Some(p) => spec_dec_block(buf@, i as int) == Some((p.0, p.1 as int)) && p.1
                <= buf@.len(),
            None => spec_dec_block(buf@, i as int) is None,
        },
{
    if i < buf.len() && buf[i] == 0x91 {
        match dec_u8(buf, i + 1) {
            Some((t, j)) => Some((BlockData { type_id: t }, j)),
            None => None,
        }
    } else {
        None
    }
}

fn dec_entry(buf: &Vec<u8>, i: usize) -> (r: Option<((LocalBlockPos, BlockData), usize)>)
    ensures
        match r {
            Some(p) => spec_dec_entry(buf@, i as int) == Some((p.0, p.1 as int)) && p.1
                <= buf@.len() && p.0.0.wf(),
            None => spec_dec_entry(buf@, i as int) is None,
        },
{
    if i < buf.len() && buf[i] == 0x92 {
        match dec_local(buf, i + 1) {
            Some((l, j)) => match dec_block(buf, j) {
                Some((b, k)) => Some(((l, b), k)),
                None => None,
            },
            None => None,
        }
    } else {
        None
    }
}

fn dec_entries(buf: &Vec<u8>, start: usize, n: u32) -> (r: Option<
    (Vec<(LocalBlockPos, BlockData)>, usize),
>)
    ensures
        match r {
            Some(p) => {
                &&& spec_dec_entries(buf@, start as int, n as int) == Some((p.0@, p.1 as int))
                &&& p.0@.len() == n
                &&& forall|k: int| 0 <= k < p.0@.len() ==> (#[trigger] p.0@[k]).0.wf()
            },
            None => spec_dec_entries(buf@, start as int, n as int) is None,
        },
{
    let mut out: Vec<(LocalBlockPos, BlockData)> = Vec::new();
    let mut at: usize = start;
    proof {
        if let Some((es, k)) = spec_dec_entries(buf@, start as int, n as int) {
            assert(Seq::<(LocalBlockPos, BlockData)>::empty() + es =~= es);
        }
    }
    for c in 0..n
        invariant
            out@.len() == c,
            forall|k: int| 0 <= k < out@.len() ==> (#[trigger] out@[k]).0.wf(),
            match spec_dec_entries(buf@, at as int, (n - c) as int) {
                Some((es, k)) => spec_dec_entries(buf@, start as int, n as int) == Some(
                    (out@ + es, k),
                ),
                None => spec_dec_entries(buf@, start as int, n as int) is None,
            },
    {
        match dec_entry(buf, at) {
            Some((e, j)) => {
                proof {
                    if let Some((es2, k2)) = spec_dec_entries(buf@, j as int, (n - c - 1) as int) {
                        assert(out@ + (seq![e] + es2) =~= out@.push(e) + es2);
                    }
                }
                out.push(e);
                at = j;
            },
            None => {
                return None;
            },
        }
    }
    proof {
        assert(out@ + Seq::<(LocalBlockPos, BlockData)>::empty() =~= out@);
    }
    Some((out, at))
}

fn dec_delta(buf: &Vec<u8>, i: usize) -> (r: Option<(ChunkDeltaData, usize)>)
    ensures
        match r {
            Some(p) => {
                &&& spec_dec_delta(buf@, i as int) == Some((p.0@, p.1 as int))
                &&& p.0.wf()
                &&& p.0.blocks@.len() < 0x100000000
            },
            None => spec_dec_delta(buf@, i as int) is None,
        },
{
    if i < buf.len() && buf[i] == 0x92 {
        match dec_chunk_pos(buf, i + 1) {
            Some((p, j)) => {
                if j < buf.len() && buf.len() - j >= 5 && buf[j] == 0xdd {
                    let b3 = buf[j + 1];
                    let b2 = buf[j + 2];
                    let b1 = buf[j + 3];
                    let b0 = buf[j + 4];
                    let n: u32 = (b3 as u32) * 0x1000000 + (b2 as u32) * 0x10000 + (b1 as u32)
                        * 0x100 + (b0 as u32);
                    proof {
                        assert(n as int == u32_from_be(b3, b2, b1, b0));
                    }
                    match dec_entries(buf, j + 5, n) {
                        Some((es, k)) => Some((ChunkDeltaData { pos: p, blocks: es }, k)),
                        None => None,
                    }
                } else {
                    None
                }
            },
            None => None,
        }
    } else {
        None
    }
}

impl ServerMessage {
    /// Decodes one request frame; every byte must be consumed. Malformed
    /// bytes are rejected.
    pub fn decode(data: &Vec<u8>) -> (r: Result<ServerMessage, DecodeError>)
        ensures
            match r {
                Ok(m) => spec_dec_msg_full(data@) == Some(m) && m.wf(),
                Err(_) => spec_dec_msg_full(data@) is None,
            },
    {
        if data.len() >= 2 && data[0] == 0x92 && data[1] == 0x00 {
            match dec_chunk_pos(data, 2) {
                Some((p, j)) => if j == data.len() {
                    Ok(ServerMessage::LoadChunk(p))
                } else {
                    Err(DecodeError::Malformed)
                },
                None => Err(DecodeError::Malformed),
            }
        } else if data.len() >= 2 && data[0] == 0x94 && data[1] == 0x01 {
            match dec_chunk_pos(data, 2) {
                Some((p, j)) => match dec_local(data, j) {
                    Some((l, j2)) => match dec_block(data, j2) {
                        Some((b, j3)) => if j3 == data.len() {
                            Ok(ServerMessage::BlockUpdate(p, l, b))
                        } else {
                            Err(DecodeError::Malformed)
                        },
                        None => Err(DecodeError::Malformed),
                    },
                    None => Err(DecodeError::Malformed),
                },
                None => Err(DecodeError::Malformed),
            }
        } else {
            Err(DecodeError::Malformed)
        }
    }
}

impl ServerResponse {
    /// Decodes one response frame; every byte must be consumed. Malformed
    /// bytes are rejected.
    pub fn decode(data: &Vec<u8>) -> (r: Result<ServerResponse, DecodeError>)
        ensures
            match r {
                Ok(resp) => spec_dec_resp_full(data@) == Some(resp@) && resp.wf(),
                Err(_) => spec_dec_resp_full(data@) is None,
            },
    {
        if data.len() >= 2 && data[0] == 0x91 && data[1] == 0x00 {
            if data.len() == 2 {
                Ok(ServerResponse::Ack)
            } else {
                Err(DecodeError::Malformed)
            }
        } else if data.len() >= 3 && data[0] == 0x92 && data[1] == 0x01 {
            if data[2] == 0x00 {
                if data.len() == 3 {
                    Ok(ServerResponse::Error(ErrorMessage::NoLoadedWorld))
                } else {
                    Err(DecodeError::Malformed)
                }
            } else if data[2] == 0x01 {
                if data.len() == 3 {
                    Ok(ServerResponse::Error(ErrorMessage::WorldDoesNotExist))
                } else {
                    Err(DecodeError::Malformed)
                }
            } else {
                Err(DecodeError::Malformed)
            }
        } else if data.len() >= 2 && data[0] == 0x92 && data[1] == 0x02 {
            match dec_delta(data, 2) {
                Some((d, k)) => if k == data.len() {
                    Ok(ServerResponse::LoadChunkOK(d))
                } else {
                    Err(DecodeError::Malformed)
                },
                None => Err(DecodeError::Malformed),
            }
        } else {
            Err(DecodeError::Malformed)
        }
    }
}

/// Protocol round-trip for requests: encoding then decoding any
/// well-formed request yields an equal value.
pub proof fn lemma_message_round_trip(m: ServerMessage)
    requires
        m.wf(),
    ensures
        spec_dec_msg_full(spec_enc_msg(m)) == Some(m),
{
    let s = spec_enc_msg(m);
    match m {
        ServerMessage::LoadChunk(p) => {
            assert(s =~= seq![0x92u8, 0x00u8] + spec_enc_chunk_pos(p) + Seq::<u8>::empty());
            lemma_rt_chunk_pos(seq![0x92u8, 0x00u8], p, Seq::empty());
            assert(s[0] == 0x92 && s[1] == 0x00);
        },
        ServerMessage::BlockUpdate(p, l, b) => {
            assert(s[0] == 0x94 && s[1] == 0x01);
            assert(s =~= (seq![0x94u8, 0x01u8]) + spec_enc_chunk_pos(p) + (spec_enc_local(l)
                + spec_enc_block(b)));
            lemma_rt_chunk_pos(seq![0x94u8, 0x01u8], p, spec_enc_local(l) + spec_enc_block(b));
            assert(s =~= (seq![0x94u8, 0x01u8] + spec_enc_chunk_pos(p)) + spec_enc_local(l)
                + spec_enc_block(b));
            lemma_rt_local(seq![0x94u8, 0x01u8] + spec_enc_chunk_pos(p), l, spec_enc_block(b));
            assert(s =~= (seq![0x94u8, 0x01u8] + spec_enc_chunk_pos(p) + spec_enc_local(l))
                + spec_enc_block(b) + Seq::<u8>::empty());
            lemma_rt_block(
                seq![0x94u8, 0x01u8] + spec_enc_chunk_pos(p) + spec_enc_local(l),
                b,
                Seq::empty(),
            );
        },
    }
}

/// Protocol round-trip for responses: encoding then decoding any
/// well-formed response yields an equal value.
pub proof fn lemma_response_round_trip(r: ServerResponse)
    requires
        r.wf(),
    ensures
        spec_dec_resp_full(spec_enc_resp(r@)) == Some(r@),
{
    let s = spec_enc_resp(r@);
    match r {
        ServerResponse::Ack => {
            assert(s[0] == 0x91 && s[1] == 0x00);
        },
        ServerResponse::Error(e) => {
            assert(s[0] == 0x92 && s[1] == 0x01 && s[2] == spec_err_byte(e));
        },
        ServerResponse::LoadChunkOK(d) => {
            assert(s[0] == 0x92 && s[1] == 0x02);
            assert(s =~= seq![0x92u8, 0x02u8] + spec_enc_delta(d@) + Seq::<u8>::empty());
            lemma_rt_delta(seq![0x92u8, 0x02u8], d@, Seq::empty());
        },
    }
}

} // verus!
