//! The wire format of event blocks in node payloads.
//!
//! A block is the event type byte, the 8-byte state id, the version vector
//! (a little-endian `u16` byte length, then 16 bytes per entry: the 8-byte
//! node id and the count as a little-endian `u64`), and the mutation (a
//! little-endian `u16` byte length, then its bytes). A payload is a run of
//! blocks; reading stops at the first block whose framing does not hold, or
//! that the caller refuses: what the type byte and the mutation bytes mean is
//! decided elsewhere.
use vstd::prelude::*;

use crate::bytes::{le16, le64, read_le16, read_le64};

verus! {

/// The smallest block: type, state id and two empty length-prefixed parts.
pub const MIN_EVENT_BLOCK: usize = 13;

/// One version vector entry: the node id bytes and its count.
pub type VersionEntry = ([u8; 8], u64);

/// An event block with its parts as plain bytes.
#[derive(Debug, Clone, PartialEq, Eq)]
pub struct EventBlock {
    /// The event type byte
    pub event_type: u8,
    /// The target state id
    pub state_id: [u8; 8],
    /// The version vector entries, in wire order
    pub version: Vec<VersionEntry>,
    /// The encoded mutation
    pub delta: Vec<u8>,
}

/// What an event block holds.
pub struct EventBlockView {
    pub event_type: u8,
    pub state_id: Seq<u8>,
    pub version: Seq<(Seq<u8>, u64)>,
    pub delta: Seq<u8>,
}

/// The views of version entries.
pub open spec fn entry_views(v: Seq<VersionEntry>) -> Seq<(Seq<u8>, u64)> {
    v.map_values(|e: VersionEntry| (e.0@, e.1))
}

impl View for EventBlock {
    type V = EventBlockView;

    open spec fn view(&self) -> EventBlockView {
        EventBlockView {
            event_type: self.event_type,
            state_id: self.state_id@,
            version: entry_views(self.version@),
            delta: self.delta@,
        }
    }
}

/// The two little-endian bytes of `x`.
pub open spec fn le16_bytes(x: int) -> Seq<u8> {
    seq![(x % 256) as u8, (x / 256) as u8]
}

/// The eight little-endian bytes of `x`.
pub open spec fn le64_bytes(x: u64) -> Seq<u8> {
    seq![
        (x & 0xff) as u8,
        ((x >> 8) & 0xff) as u8,
        ((x >> 16) & 0xff) as u8,
        ((x >> 24) & 0xff) as u8,
        ((x >> 32) & 0xff) as u8,
        ((x >> 40) & 0xff) as u8,
        ((x >> 48) & 0xff) as u8,
        ((x >> 56) & 0xff) as u8,
    ]
}

/// The bytes of version entries: 16 per entry.
pub open spec fn version_bytes(e: Seq<(Seq<u8>, u64)>) -> Seq<u8>
    decreases e.len(),
{
    if e.len() == 0 {
        Seq::empty()
    } else {
        version_bytes(e.drop_last()) + e.last().0 + le64_bytes(e.last().1)
    }
}

/// The entries that version vector bytes hold, when their length is a
/// multiple of 16.
pub open spec fn spec_decode_version(buf: Seq<u8>) -> Option<Seq<(Seq<u8>, u64)>> {
    if buf.len() % 16 != 0 {
        None
    } else {
        Some(
            Seq::new(
                (buf.len() / 16) as nat,
                |i: int| (buf.subrange(16 * i, 16 * i + 8), le64(buf, 16 * i + 8) as u64),
            ),
        )
    }
}

/// The bytes of a block. Each length prefix holds the part's length
/// reduced to 16 bits.
pub open spec fn block_bytes(b: EventBlockView) -> Seq<u8> {
    let v = version_bytes(b.version);
    seq![b.event_type] + b.state_id + le16_bytes(v.len() as int % 65536) + v + le16_bytes(
        b.delta.len() as int % 65536,
    ) + b.delta
}

/// The block at the start of `data` and the bytes it takes, when its framing holds.
pub open spec fn spec_block(data: Seq<u8>) -> Option<(EventBlockView, int)> {
    if data.len() < MIN_EVENT_BLOCK {
        None
    } else {
        let vlen = le16(data, 9);
        if 13 + vlen > data.len() {
            None
        } else {
            match spec_decode_version(data.subrange(11, 11 + vlen)) {
                None => None,
                Some(version) => {
                    let dlen = le16(data, 11 + vlen);
                    if 13 + vlen + dlen > data.len() {
                        None
                    } else {
                        Some(
                            (
                                EventBlockView {
                                    event_type: data[0],
                                    state_id: data.subrange(1, 9),
                                    version,
                                    delta: data.subrange(13 + vlen, 13 + vlen + dlen),
                                },
                                13 + vlen + dlen,
                            ),
                        )
                    }
                },
            }
        }
    }
}

/// The blocks at the start of `data`, up to the first whose framing fails.
pub open spec fn spec_blocks(data: Seq<u8>) -> Seq<EventBlockView>
    decreases data.len(),
{
    match spec_block(data) {
        Some((b, used)) => if 0 < used <= data.len() {
            seq![b] + spec_blocks(data.subrange(used, data.len() as int))
        } else {
            Seq::empty()
        },
        None => Seq::empty(),
    }
}

fn push_le16(v: &mut Vec<u8>, x: u16)
    ensures
        final(v)@ == old(v)@ + le16_bytes(x as int),
{
    v.push((x % 256) as u8);
    v.push((x / 256) as u8);
}

fn push_le64(v: &mut Vec<u8>, x: u64)
    ensures
        final(v)@ == old(v)@ + le64_bytes(x),
{
    v.push((x & 0xff) as u8);
    v.push(((x >> 8) & 0xff) as u8);
    v.push(((x >> 16) & 0xff) as u8);
    v.push(((x >> 24) & 0xff) as u8);
    v.push(((x >> 32) & 0xff) as u8);
    v.push(((x >> 40) & 0xff) as u8);
    v.push(((x >> 48) & 0xff) as u8);
    v.push(((x >> 56) & 0xff) as u8);
}

fn push_bytes(v: &mut Vec<u8>, b: &[u8])
    ensures
        final(v)@ == old(v)@ + b@,
{
    let ghost start = v@;
    let mut i: usize = 0;
    while i < b.len()
        invariant
            0 <= i <= b@.len(),
            v@ == start + b@.subrange(0, i as int),
        decreases b@.len() - i,
    {
        v.push(b[i]);
        i = i + 1;
        assert(v@ =~= start + b@.subrange(0, i as int));
    }
    assert(b@.subrange(0, b@.len() as int) =~= b@);
}

proof fn lemma_version_bytes_len(e: Seq<(Seq<u8>, u64)>)
    requires
        forall|i: int| 0 <= i < e.len() ==> (#[trigger] e[i]).0.len() == 8,
    ensures
        version_bytes(e).len() == 16 * e.len(),
    decreases e.len(),
{
    if e.len() > 0 {
        lemma_version_bytes_len(e.drop_last());
    }
}

/// Encodes version entries, 16 bytes each, in the order given.
pub fn encode_version_vector(entries: &Vec<VersionEntry>) -> (r: Vec<u8>)
    ensures
        r@ == version_bytes(entry_views(entries@)),
{
    let mut r: Vec<u8> = Vec::new();
    let mut i: usize = 0;
    while i < entries.len()
        invariant
            0 <= i <= entries@.len(),
            r@ == version_bytes(entry_views(entries@.subrange(0, i as int))),
        decreases entries@.len() - i,
    {
        let ghost before = entries@.subrange(0, i as int);
        let ghost after = entries@.subrange(0, i + 1);
        assert(entry_views(after).drop_last() =~= entry_views(before));
        push_bytes(&mut r, &entries[i].0);
        push_le64(&mut r, entries[i].1);
        i = i + 1;
    }
    assert(entries@.subrange(0, entries@.len() as int) =~= entries@);
    r
}

fn read_id(data: &[u8], at: usize) -> (r: [u8; 8])
    requires
        at + 8 <= data@.len(),
    ensures
        r@ == data@.subrange(at as int, at + 8),
{
    let total = data.len();
    let mut r = [0u8; 8];
    let mut k: usize = 0;
    while k < 8
        invariant
            0 <= k <= 8,
            total == data@.len(),
            at + 8 <= data@.len(),
            r@.len() == 8,
            forall|j: int| 0 <= j < k ==> r@[j] == data@[at + j],
        decreases 8 - k,
    {
        r.set(k, data[at + k]);
        k = k + 1;
    }
    assert(r@ =~= data@.subrange(at as int, at + 8));
    r
}

/// Decodes version vector bytes: `None` unless their length is a multiple
/// of 16, else one entry per 16 bytes.
pub fn decode_version_vector(buf: &[u8]) -> (r: Option<Vec<VersionEntry>>)
    ensures
        match r {
            Some(v) => spec_decode_version(buf@) == Some(entry_views(v@)),
            None => spec_decode_version(buf@) is None,
        },
{
    if buf.len() % 16 != 0 {
        return None;
    }
    let total = buf.len();
    let n = total / 16;
    let mut v: Vec<VersionEntry> = Vec::new();
    let mut i: usize = 0;
    while i < n
        invariant
            total == buf@.len(),
            n == buf@.len() / 16,
            buf@.len() % 16 == 0,
            0 <= i <= n,
            v@.len() == i,
            forall|j: int|
                0 <= j < i ==> #[trigger] entry_views(v@)[j] == (
                    buf@.subrange(16 * j, 16 * j + 8),
                    le64(buf@, 16 * j + 8) as u64,
                ),
        decreases n - i,
    {
        assert(16 * i + 16 <= buf@.len()) by (nonlinear_arith)
            requires
                i < n,
                n == buf@.len() / 16,
                buf@.len() % 16 == 0,
        ;
        let id = read_id(buf, 16 * i);
        let count = read_le64(buf, 16 * i + 8);
        let ghost before = v@;
        v.push((id, count));
        assert(entry_views(v@) =~= entry_views(before).push((id@, count)));
        i = i + 1;
    }
    assert(entry_views(v@) =~= Seq::new(
        (buf@.len() / 16) as nat,
        |j: int| (buf@.subrange(16 * j, 16 * j + 8), le64(buf@, 16 * j + 8) as u64),
    ));
    Some(v)
}

/// Encodes a block. A part longer than 65535 bytes has its length prefix
/// reduced to 16 bits, as the format has no room for more.
pub fn encode_event_block(block: &EventBlock) -> (r: Vec<u8>)
    ensures
        r@ == block_bytes(block@),
{
    let mut r: Vec<u8> = Vec::new();
    r.push(block.event_type);
    push_bytes(&mut r, &block.state_id);
    let version = encode_version_vector(&block.version);
    let vn = version.len();
    #[verifier::truncate]
    let vlen = vn as u16;
    assert(vlen == vn % 65536) by (bit_vector)
        requires
            vlen == vn as u16,
    ;
    push_le16(&mut r, vlen);
    push_bytes(&mut r, version.as_slice());
    let dn = block.delta.len();
    #[verifier::truncate]
    let dlen = dn as u16;
    assert(dlen == dn % 65536) by (bit_vector)
        requires
            dlen == dn as u16,
    ;
    push_le16(&mut r, dlen);
    push_bytes(&mut r, block.delta.as_slice());
    assert(r@ =~= block_bytes(block@));
    r
}

/// Reads the block at the start of `data` and the number of bytes it
/// takes, or `None` when its framing fails: fewer than 13 bytes, a part that
/// runs past the data, or version bytes that are not a multiple of 16.
pub fn parse_block(data: &[u8]) -> (r: Option<(EventBlock, usize)>)
    ensures
        match r {
            Some((b, used)) => spec_block(data@) == Some((b@, used as int)),
            None => spec_block(data@) is None,
        },
{
    let total = data.len();
    if total < MIN_EVENT_BLOCK {
        return None;
    }
    let vlen = read_le16(data, 9) as usize;
    if 13 + vlen > total {
        return None;
    }
    let vbytes = vstd::slice::slice_subrange(data, 11, 11 + vlen);
    let version = match decode_version_vector(vbytes) {
        Some(v) => v,
        None => return None,
    };
    let dlen = read_le16(data, 11 + vlen) as usize;
    if 13 + vlen + dlen > total {
        return None;
    }
    let state_id = read_id(data, 1);
    let dbytes = vstd::slice::slice_subrange(data, 13 + vlen, 13 + vlen + dlen);
    let mut delta: Vec<u8> = Vec::new();
    push_bytes(&mut delta, dbytes);
    let b = EventBlock { event_type: data[0], state_id, version, delta };
    Some((b, 13 + vlen + dlen))
}

/// Splits a payload into blocks, from the start, up to the first block whose
/// framing fails or that `accept` refuses (such as one whose type byte or
/// mutation has no meaning to the caller): the blocks returned are those
/// before it, each accepted.
pub fn split_event_blocks<F: Fn(&EventBlock) -> bool>(payload: &[u8], accept: F) -> (r: Vec<
    EventBlock,
>)
    requires
        forall|b: &EventBlock| #[trigger] accept.requires((b,)),
    ensures
        r@.len() <= spec_blocks(payload@).len(),
        forall|i: int| 0 <= i < r@.len() ==> #[trigger] r@[i]@ == spec_blocks(payload@)[i],
        forall|i: int| 0 <= i < r@.len() ==> accept.ensures((&#[trigger] r@[i],), true),
        r@.len() < spec_blocks(payload@).len() ==> exists|b: EventBlock|
            b@ == spec_blocks(payload@)[r@.len() as int] && #[trigger] accept.ensures((&b,), false),
{
    let total = payload.len();
    let mut r: Vec<EventBlock> = Vec::new();
    let mut offset: usize = 0;
    let ghost mut done: Seq<EventBlockView> = Seq::empty();
    assert(payload@.subrange(0, total as int) =~= payload@);
    loop
        invariant
            total == payload@.len(),
            0 <= offset <= total,
            forall|b: &EventBlock| #[trigger] accept.requires((b,)),
            r@.map_values(|b: EventBlock| b@) == done,
            forall|i: int| 0 <= i < r@.len() ==> accept.ensures((&#[trigger] r@[i],), true),
            done + spec_blocks(payload@.subrange(offset as int, total as int)) == spec_blocks(payload@),
        decreases total - offset,
    {
        let rest = vstd::slice::slice_subrange(payload, offset, total);
        match parse_block(rest) {
            Some((b, used)) => {
                proof {
                    assert(used >= 13);
                }
                let ghost bv = b@;
                let ghost tail = payload@.subrange(offset + used, total as int);
                assert(rest@.subrange(used as int, rest@.len() as int) =~= tail);
                assert(spec_blocks(rest@) == seq![bv] + spec_blocks(tail));
                proof {
                    assert(done + (seq![bv] + spec_blocks(tail)) == spec_blocks(payload@));
                    assert((done + (seq![bv] + spec_blocks(tail)))[done.len() as int] == bv);
                    assert(r@.map_values(|b: EventBlock| b@).len() == r@.len());
                }
                if !accept(&b) {
                    proof {
                        lemma_views_prefix(r@, done, spec_blocks(payload@), spec_blocks(rest@));
                    }
                    return r;
                }
                let ghost before = r@;
                r.push(b);
                proof {
                    assert(r@.map_values(|b: EventBlock| b@) =~= before.map_values(|b: EventBlock| b@).push(bv));
                    assert(done.push(bv) + spec_blocks(tail) =~= done + (seq![bv] + spec_blocks(tail)));
                    done = done.push(bv);
                    assert forall|i: int| 0 <= i < r@.len() implies accept.ensures((&#[trigger] r@[i],), true) by {
                        if i < before.len() {
                            assert(r@[i] == before[i]);
                        }
                    }
                }
                offset = offset + used;
            },
            None => {
                assert(spec_blocks(rest@) =~= Seq::<EventBlockView>::empty());
                assert(done + Seq::<EventBlockView>::empty() =~= done);
                proof {
                    lemma_views_prefix(r@, done, spec_blocks(payload@), spec_blocks(rest@));
                }
                return r;
            },
        }
    }
}

/// The blocks gathered so far are the first blocks of the payload.
proof fn lemma_views_prefix(
    r: Seq<EventBlock>,
    done: Seq<EventBlockView>,
    all: Seq<EventBlockView>,
    rest: Seq<EventBlockView>,
)
    requires
        r.map_values(|b: EventBlock| b@) == done,
        done + rest == all,
    ensures
        r.len() <= all.len(),
        forall|i: int| 0 <= i < r.len() ==> #[trigger] r[i]@ == all[i],
{
    assert forall|i: int| 0 <= i < r.len() implies #[trigger] r[i]@ == all[i] by {
        assert(r.map_values(|b: EventBlock| b@)[i] == r[i]@);
        assert((done + rest)[i] == done[i]);
    }
}

} // verus!
