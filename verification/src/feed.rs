//! Feed streams: the items of a feed state, decoded from its appended bytes.
//!
//! An encoded item is the message id (8 bytes, little-endian), the author's
//! node id (8 bytes), the timestamp in microseconds (8 bytes, little-endian,
//! signed), a deleted flag (1 byte), the content length (2 bytes,
//! little-endian) and the content. A stream keeps one item per message id;
//! a new id is placed by timestamp, a known id is updated in place.
use vstd::prelude::*;

use crate::bytes::{le16, le64, read_le16, read_le64};

verus! {

/// Size of an encoded item without its content.
pub const FEED_ITEM_HEADER: usize = 27;

/// A feed item.
#[derive(Debug, Clone)]
pub struct FeedItem {
    /// Message id
    pub id: u64,
    /// Node id of the author, as encoded
    pub author: [u8; 8],
    /// Content bytes
    pub content: Vec<u8>,
    /// Timestamp in microseconds of state time
    pub timestamp_us: i64,
    /// Whether the message was deleted
    pub deleted: bool,
}

/// What a feed item holds.
pub struct FeedView {
    pub id: u64,
    pub author: Seq<u8>,
    pub content: Seq<u8>,
    pub timestamp_us: i64,
    pub deleted: bool,
}

impl View for FeedItem {
    type V = FeedView;

    open spec fn view(&self) -> FeedView {
        FeedView {
            id: self.id,
            author: self.author@,
            content: self.content@,
            timestamp_us: self.timestamp_us,
            deleted: self.deleted,
        }
    }
}

/// The item encoded at the start of `buf` and the number of bytes it takes,
/// if the bytes hold a whole item.
pub open spec fn spec_decode(buf: Seq<u8>) -> Option<(FeedView, int)> {
    if buf.len() < FEED_ITEM_HEADER {
        None
    } else {
        let content_len = le16(buf, 25);
        if buf.len() < FEED_ITEM_HEADER + content_len {
            None
        } else {
            Some(
                (
                    FeedView {
                        id: le64(buf, 0) as u64,
                        author: buf.subrange(8, 16),
                        content: buf.subrange(
                            FEED_ITEM_HEADER as int,
                            FEED_ITEM_HEADER + content_len,
                        ),
                        timestamp_us: le64(buf, 16) as i64,
                        deleted: buf[24] != 0,
                    },
                    FEED_ITEM_HEADER + content_len,
                ),
            )
        }
    }
}

/// The items encoded one after another at the start of `data`, up to the
/// first point where no whole item follows.
pub open spec fn decode_all(data: Seq<u8>) -> Seq<FeedView>
    decreases data.len(),
{
    match spec_decode(data) {
        Some((item, used)) => if 0 < used <= data.len() {
            seq![item] + decode_all(data.subrange(used, data.len() as int))
        } else {
            Seq::empty()
        },
        None => Seq::empty(),
    }
}

/// The items by message id.
pub open spec fn by_id(items: Seq<FeedView>) -> Map<u64, FeedView>
    decreases items.len(),
{
    if items.len() == 0 {
        Map::empty()
    } else {
        by_id(items.drop_last()).insert(items.last().id, items.last())
    }
}

/// No two items share a message id.
pub open spec fn ids_distinct(items: Seq<FeedView>) -> bool {
    forall|i: int, j: int|
        0 <= i < items.len() && 0 <= j < items.len() && i != j ==> #[trigger] items[i].id
            != #[trigger] items[j].id
}

/// Items in non-decreasing timestamp order.
pub open spec fn ts_sorted(items: Seq<FeedView>) -> bool {
    forall|i: int, j: int|
        0 <= i < j < items.len() ==> #[trigger] items[i].timestamp_us <= #[trigger] items[j].timestamp_us
}

/// `r` is the stream `s` after applying `v`: where an item of `s` has the
/// same message id, the first such item is replaced by `v` in place;
/// otherwise `v` is inserted, at a place that keeps the timestamps in order
/// where `s` had them in order.
pub open spec fn applied(s: Seq<FeedView>, v: FeedView, r: Seq<FeedView>) -> bool {
    if exists|i: int| 0 <= i < s.len() && #[trigger] s[i].id == v.id {
        exists|f: int|
            0 <= f < s.len() && #[trigger] s[f].id == v.id && (forall|j: int|
                0 <= j < f ==> #[trigger] s[j].id != v.id) && r == s.update(f, v)
    } else {
        exists|p: int|
            0 <= p <= s.len() && #[trigger] s.insert(p, v) == r && (ts_sorted(s) ==> {
                &&& forall|j: int| 0 <= j < p ==> #[trigger] s[j].timestamp_us <= v.timestamp_us
                &&& forall|j: int| p <= j < s.len() ==> #[trigger] s[j].timestamp_us >= v.timestamp_us
            })
    }
}

/// `states` are the streams met while applying `items` in order to an empty
/// stream: the empty stream, then the stream after each item.
pub open spec fn feed_steps(items: Seq<FeedView>, states: Seq<Seq<FeedView>>) -> bool {
    &&& states.len() == items.len() + 1
    &&& states[0].len() == 0
    &&& forall|k: int| 0 <= k < items.len() ==> applied(states[k], items[k], #[trigger] states[k + 1])
}

/// `r` is a stream that applying `items` in order to an empty stream gives.
pub open spec fn feed_of(items: Seq<FeedView>, r: Seq<FeedView>) -> bool {
    exists|states: Seq<Seq<FeedView>>| #[trigger] feed_steps(items, states) && states.last() == r
}

/// The views of the items.
pub open spec fn item_views(items: Seq<FeedItem>) -> Seq<FeedView> {
    items.map_values(|it: FeedItem| it@)
}

/// Decodes one item from the start of `buf`.
pub fn decode_item(buf: &[u8]) -> (r: Option<(FeedItem, usize)>)
    ensures
        match r {
            Some((item, used)) => spec_decode(buf@) == Some((item@, used as int)),
            None => spec_decode(buf@) is None,
        },
{
    if buf.len() < FEED_ITEM_HEADER {
        return None;
    }
    let id = read_le64(buf, 0);
    let mut author = [0u8; 8];
    let mut i: usize = 0;
    while i < 8
        invariant
            0 <= i <= 8,
            buf@.len() >= FEED_ITEM_HEADER,
            author@.len() == 8,
            forall|j: int| 0 <= j < i ==> author@[j] == buf@[8 + j],
        decreases 8 - i,
    {
        author.set(i, buf[8 + i]);
        i = i + 1;
    }
    assert(author@ =~= buf@.subrange(8, 16));
    let timestamp_us = read_le64(buf, 16) as i64;
    let deleted = buf[24] != 0;
    let content_len = read_le16(buf, 25) as usize;
    if buf.len() - FEED_ITEM_HEADER < content_len {
        return None;
    }
    let end = FEED_ITEM_HEADER + content_len;
    let content = vstd::slice::slice_to_vec(&buf[FEED_ITEM_HEADER..end]);
    Some((FeedItem { id, author, content, timestamp_us, deleted }, end))
}

/// Where a value goes among timestamps: for timestamps in non-decreasing
/// order, a position with none greater before it and none smaller after it.
///
/// Calls `<[i64]>::binary_search` and takes the index of the `Ok` or the
/// `Err`. Its documentation promises, for a sorted slice, the index of a
/// matching element or the index where the value could be inserted keeping
/// the order; for a slice that is not sorted it calls the result unspecified,
/// and nothing is claimed then.
#[verifier::external_body]
fn sorted_position(timestamps: &[i64], t: i64) -> (p: usize)
    ensures
        (forall|a: int, b: int|
            0 <= a < b < timestamps@.len() ==> timestamps@[a] <= timestamps@[b]) ==> {
            &&& p <= timestamps@.len()
            &&& forall|j: int| 0 <= j < p ==> timestamps@[j] <= t
            &&& forall|j: int| p <= j < timestamps@.len() ==> timestamps@[j] >= t
        },
{
    match timestamps.binary_search(&t) {
        Ok(p) => p,
        Err(p) => p,
    }
}

/// A stream of feed items.
#[derive(Debug, Clone)]
pub struct FeedStream {
    /// The items, one per message id
    pub items: Vec<FeedItem>,
}

impl FeedStream {
    /// An empty stream.
    pub fn new() -> (s: Self)
        ensures
            s.items@.len() == 0,
    {
        FeedStream { items: Vec::new() }
    }

    /// Applies an item: the first item with the same message id has its
    /// author, content, timestamp and deleted flag replaced in place; an item
    /// with a new id is inserted by timestamp. While message ids are distinct
    /// they stay distinct, and the stream's items by id take the new item.
    pub fn apply_item(&mut self, item: FeedItem)
        ensures
            (exists|i: int|
                0 <= i < old(self).items@.len() && #[trigger] old(self).items@[i].id == item.id)
                ==> exists|f: int|
                0 <= f < old(self).items@.len() && old(self).items@[f].id == item.id && (forall|j: int|
                    0 <= j < f ==> #[trigger] old(self).items@[j].id != item.id)
                    && final(self).items@ == old(self).items@.update(f, item),
            !(exists|i: int|
                0 <= i < old(self).items@.len() && #[trigger] old(self).items@[i].id == item.id)
                ==> exists|p: int|
                0 <= p <= old(self).items@.len() && final(self).items@ == old(self).items@.insert(p, item)
                    && (ts_sorted(item_views(old(self).items@)) ==> {
                    &&& (forall|j: int|
                        0 <= j < p ==> #[trigger] old(self).items@[j].timestamp_us <= item.timestamp_us)
                    &&& (forall|j: int|
                        p <= j < old(self).items@.len() ==> #[trigger] old(self).items@[j].timestamp_us
                            >= item.timestamp_us)
                    &&& ts_sorted(item_views(final(self).items@))
                }),
            applied(item_views(old(self).items@), item@, item_views(final(self).items@)),
            ids_distinct(item_views(old(self).items@)) ==> {
                &&& ids_distinct(item_views(final(self).items@))
                &&& by_id(item_views(final(self).items@)) == by_id(
                    item_views(old(self).items@),
                ).insert(item@.id, item@)
            },
    {
        let ghost old_v = item_views(self.items@);
        proof {
            if ids_distinct(old_v) {
                lemma_by_id_distinct(old_v);
            }
        }
        let mut i: usize = 0;
        while i < self.items.len()
            invariant
                0 <= i <= self.items@.len(),
                old_v == item_views(self.items@),
                old_v == item_views(old(self).items@),
                self.items@ == old(self).items@,
                forall|j: int| 0 <= j < i ==> #[trigger] self.items@[j].id != item.id,
            decreases self.items@.len() - i,
        {
            if self.items[i].id == item.id {
                let ghost iv = item@;
                self.items.set(i, item);
                proof {
                    let nv = item_views(self.items@);
                    assert(nv =~= old_v.update(i as int, iv));
                    if ids_distinct(old_v) {
                        lemma_by_id_update(old_v, i as int, iv);
                    }
                    assert(old(self).items@[i as int].id == item.id);
                    assert(old_v[i as int].id == iv.id);
                    assert forall|j: int| 0 <= j < i implies #[trigger] old_v[j].id != iv.id by {
                        assert(old_v[j].id == self.items@[j].id) by {
                            assert(old_v[j] == old(self).items@[j]@);
                        }
                    }
                    assert(applied(old_v, iv, nv));
                }
                return;
            }
            i = i + 1;
        }
        let mut timestamps: Vec<i64> = Vec::new();
        let mut k: usize = 0;
        while k < self.items.len()
            invariant
                0 <= k <= self.items@.len(),
                old_v == item_views(self.items@),
                timestamps@.len() == k,
                forall|j: int| 0 <= j < k ==> timestamps@[j] == old_v[j].timestamp_us,
            decreases self.items@.len() - k,
        {
            timestamps.push(self.items[k].timestamp_us);
            k = k + 1;
        }
        let mut pos = sorted_position(timestamps.as_slice(), item.timestamp_us);
        if pos > self.items.len() {
            pos = self.items.len();
        }
        let ghost iv = item@;
        let ghost gi = item;
        self.items.insert(pos, item);
        proof {
            assert(self.items@ == old(self).items@.insert(pos as int, gi));
            let nv = item_views(self.items@);
            assert(nv =~= old_v.insert(pos as int, iv));
            assert(!(exists|j: int| 0 <= j < old_v.len() && #[trigger] old_v[j].id == iv.id));
            assert(old_v.insert(pos as int, iv) == nv);
            if ids_distinct(old_v) {
                lemma_by_id_insert(old_v, pos as int, iv);
            }
            if ts_sorted(old_v) {
                assert forall|a: int, b: int| 0 <= a < b < timestamps@.len() implies timestamps@[a]
                    <= timestamps@[b] by {
                    assert(timestamps@[a] == old_v[a].timestamp_us);
                    assert(timestamps@[b] == old_v[b].timestamp_us);
                }
                assert forall|j: int| 0 <= j < pos implies #[trigger] old(self).items@[j].timestamp_us
                    <= gi.timestamp_us by {
                    assert(timestamps@[j] == old_v[j].timestamp_us);
                }
                assert forall|j: int| pos <= j < old(self).items@.len() implies #[trigger] old(
                    self,
                ).items@[j].timestamp_us >= gi.timestamp_us by {
                    assert(timestamps@[j] == old_v[j].timestamp_us);
                }
                assert forall|a: int, b: int| 0 <= a < b < nv.len() implies #[trigger] nv[a].timestamp_us
                    <= #[trigger] nv[b].timestamp_us by {
                    if b < pos {
                    } else if b == pos {
                        assert(timestamps@[a] <= iv.timestamp_us);
                    } else if a < pos {
                        assert(nv[b] == old_v[b - 1]);
                    } else if a == pos {
                        assert(nv[b] == old_v[b - 1]);
                        assert(timestamps@[b - 1] >= iv.timestamp_us);
                    } else {
                        assert(nv[a] == old_v[a - 1]);
                        assert(nv[b] == old_v[b - 1]);
                    }
                }
            }
            if ts_sorted(old_v) {
                assert forall|j: int| 0 <= j < pos implies #[trigger] old_v[j].timestamp_us <= iv.timestamp_us by {
                    assert(old_v[j] == old(self).items@[j]@);
                }
                assert forall|j: int| pos <= j < old_v.len() implies #[trigger] old_v[j].timestamp_us >= iv.timestamp_us by {
                    assert(old_v[j] == old(self).items@[j]@);
                }
            }
            assert(applied(old_v, iv, nv));
        }
    }

    /// Decodes a stream from the bytes of a feed state: items are decoded one
    /// after another and applied in order, until no whole item follows.
    pub fn from_bytes(data: &[u8]) -> (s: Self)
        ensures
            ids_distinct(item_views(s.items@)),
            by_id(item_views(s.items@)) == by_id(decode_all(data@)),
            ids_distinct(decode_all(data@)) ==> ts_sorted(item_views(s.items@)),
            feed_of(decode_all(data@), item_views(s.items@)),
    {
        let mut stream = FeedStream::new();
        let mut offset: usize = 0;
        let ghost mut done: Seq<FeedView> = Seq::empty();
        let ghost mut states: Seq<Seq<FeedView>> = seq![Seq::<FeedView>::empty()];
        assert(item_views(stream.items@) =~= Seq::<FeedView>::empty());
        assert(data@.subrange(0, data@.len() as int) =~= data@);
        while offset < data.len()
            invariant
                0 <= offset <= data@.len(),
                ids_distinct(item_views(stream.items@)),
                by_id(item_views(stream.items@)) == by_id(done),
                decode_all(data@) == done + decode_all(data@.subrange(offset as int, data@.len() as int)),
                ids_distinct(decode_all(data@)) ==> ts_sorted(item_views(stream.items@)),
                ids_distinct(decode_all(data@)) ==> item_views(stream.items@).len() == done.len(),
                feed_steps(done, states),
                states.last() == item_views(stream.items@),
                forall|j: int| 0 <= j < done.len() ==> #[trigger] by_id(done).contains_key(done[j].id),
            decreases data@.len() - offset,
        {
            let rest = &data[offset..data.len()];
            match decode_item(rest) {
                Some((item, used)) => {
                    let ghost iv = item@;
                    proof {
                        let tail = data@.subrange(offset + used, data@.len() as int);
                        assert(rest@.subrange(used as int, rest@.len() as int) =~= tail);
                        assert(decode_all(rest@) == seq![iv] + decode_all(tail));
                        assert(decode_all(data@) =~= (done.push(iv)) + decode_all(tail));
                        if ids_distinct(decode_all(data@)) {
                            assert forall|j: int| 0 <= j < stream.items@.len() implies stream.items@[j].id != iv.id by {
                                let v = item_views(stream.items@)[j];
                                lemma_by_id_distinct(item_views(stream.items@));
                                assert(by_id(done).contains_key(v.id));
                                lemma_by_id_has(done, v.id);
                                let d = choose|d: int| 0 <= d < done.len() && #[trigger] done[d].id == v.id;
                                assert(decode_all(data@)[d] == done[d]);
                                assert(decode_all(data@)[done.len() as int] == iv);
                            }
                        }
                    }
                    let ghost before_v = item_views(stream.items@);
                    stream.apply_item(item);
                    proof {
                        let nv = item_views(stream.items@);
                        let old_states = states;
                        states = states.push(nv);
                        assert forall|k: int| 0 <= k < done.len() + 1 implies applied(
                            states[k],
                            done.push(iv)[k],
                            #[trigger] states[k + 1],
                        ) by {
                            if k < done.len() {
                                assert(states[k] == old_states[k]);
                                assert(states[k + 1] == old_states[k + 1]);
                                assert(done.push(iv)[k] == done[k]);
                            } else {
                                assert(states[k] == before_v);
                                assert(done.push(iv)[k] == iv);
                            }
                        }
                        lemma_by_id_push(done, iv);
                        let old_done = done;
                        done = done.push(iv);
                        assert forall|j: int| 0 <= j < done.len() implies #[trigger] by_id(done).contains_key(done[j].id) by {
                            if j < done.len() - 1 {
                                assert(done[j] == old_done[j]);
                                assert(by_id(old_done).contains_key(old_done[j].id));
                            }
                        }
                    }
                    offset = offset + used;
                },
                None => {
                    proof {
                        assert(decode_all(data@.subrange(offset as int, data@.len() as int)) =~= Seq::<FeedView>::empty());
                        assert(decode_all(data@) =~= done);
                        assert(feed_steps(decode_all(data@), states));
                    }
                    return stream;
                },
            }
        }
        proof {
            assert(data@.subrange(offset as int, data@.len() as int) =~= Seq::<u8>::empty());
            assert(decode_all(data@) =~= done);
            assert(feed_steps(decode_all(data@), states));
        }
        stream
    }
}

/// With distinct ids, the map holds each item under its id.
pub proof fn lemma_by_id_distinct(items: Seq<FeedView>)
    requires
        ids_distinct(items),
    ensures
        forall|i: int| 0 <= i < items.len() ==> #[trigger] by_id(items).contains_key(items[i].id)
            && by_id(items)[items[i].id] == items[i],
        forall|k: u64| #[trigger] by_id(items).contains_key(k) ==> exists|i: int|
            0 <= i < items.len() && items[i].id == k,
    decreases items.len(),
{
    if items.len() > 0 {
        let p = items.drop_last();
        assert(ids_distinct(p)) by {
            assert forall|a: int, b: int|
                0 <= a < p.len() && 0 <= b < p.len() && a != b implies #[trigger] p[a].id
                != #[trigger] p[b].id by {
                assert(p[a] == items[a] && p[b] == items[b]);
            }
        }
        lemma_by_id_distinct(p);
        assert forall|i: int| 0 <= i < items.len() implies #[trigger] by_id(items).contains_key(
            items[i].id,
        ) && by_id(items)[items[i].id] == items[i] by {
            if i < items.len() - 1 {
                assert(p[i] == items[i]);
                assert(by_id(p).contains_key(p[i].id));
                assert(items[i].id != items[items.len() - 1].id);
            }
        }
        assert forall|k: u64| #[trigger] by_id(items).contains_key(k) implies exists|i: int|
            0 <= i < items.len() && items[i].id == k by {
            if k != items.last().id {
                assert(by_id(p).contains_key(k));
                let i = choose|i: int| 0 <= i < p.len() && p[i].id == k;
                assert(items[i] == p[i]);
            } else {
                assert(items[items.len() - 1].id == k);
            }
        }
    }
}

/// Every key of the map is the id of some item.
pub proof fn lemma_by_id_has(items: Seq<FeedView>, k: u64)
    requires
        by_id(items).contains_key(k),
    ensures
        exists|d: int| 0 <= d < items.len() && #[trigger] items[d].id == k,
    decreases items.len(),
{
    let p = items.drop_last();
    if k == items.last().id {
        assert(items[items.len() - 1].id == k);
    } else {
        lemma_by_id_has(p, k);
        let d = choose|d: int| 0 <= d < p.len() && #[trigger] p[d].id == k;
        assert(items[d] == p[d]);
    }
}

/// Appending an item inserts it under its id.
pub proof fn lemma_by_id_push(items: Seq<FeedView>, v: FeedView)
    ensures
        by_id(items.push(v)) == by_id(items).insert(v.id, v),
{
    assert(items.push(v).drop_last() =~= items);
}

/// Replacing the item with the same id replaces it in the map.
pub proof fn lemma_by_id_update(items: Seq<FeedView>, i: int, v: FeedView)
    requires
        ids_distinct(items),
        0 <= i < items.len(),
        items[i].id == v.id,
    ensures
        ids_distinct(items.update(i, v)),
        by_id(items.update(i, v)) == by_id(items).insert(v.id, v),
{
    let u = items.update(i, v);
    assert forall|a: int, b: int|
        0 <= a < u.len() && 0 <= b < u.len() && a != b implies #[trigger] u[a].id != #[trigger] u[b].id by {
        assert(u[a].id == items[a].id && u[b].id == items[b].id);
    }
    lemma_by_id_distinct(items);
    lemma_by_id_distinct(u);
    assert forall|k: u64| #[trigger] by_id(u).contains_key(k) <==> by_id(items).insert(v.id, v).contains_key(k) by {
        if by_id(u).contains_key(k) {
            let j = choose|j: int| 0 <= j < u.len() && u[j].id == k;
            assert(by_id(items).contains_key(items[j].id));
        }
        if by_id(items).contains_key(k) {
            let j = choose|j: int| 0 <= j < items.len() && items[j].id == k;
            assert(by_id(u).contains_key(u[j].id));
        }
        if k == v.id {
            assert(by_id(u).contains_key(u[i].id));
        }
    }
    assert forall|k: u64| #[trigger] by_id(u).contains_key(k) implies by_id(u)[k] == by_id(items).insert(v.id, v)[k] by {
        let j = choose|j: int| 0 <= j < u.len() && u[j].id == k;
        if j == i {
        } else {
            assert(u[j] == items[j]);
            assert(by_id(items)[items[j].id] == items[j]);
        }
    }
    assert(by_id(u) =~= by_id(items).insert(v.id, v));
}

/// Inserting an item with a new id anywhere inserts it into the map.
pub proof fn lemma_by_id_insert(items: Seq<FeedView>, p: int, v: FeedView)
    requires
        ids_distinct(items),
        0 <= p <= items.len(),
        !(exists|j: int| 0 <= j < items.len() && #[trigger] items[j].id == v.id),
    ensures
        ids_distinct(items.insert(p, v)),
        by_id(items.insert(p, v)) == by_id(items).insert(v.id, v),
{
    let u = items.insert(p, v);
    assert forall|a: int, b: int|
        0 <= a < u.len() && 0 <= b < u.len() && a != b implies #[trigger] u[a].id != #[trigger] u[b].id by {
        if a != p && b != p {
            let a0 = if a < p { a } else { a - 1 };
            let b0 = if b < p { b } else { b - 1 };
            assert(u[a] == items[a0] && u[b] == items[b0]);
        } else if a == p {
            let b0 = if b < p { b } else { b - 1 };
            assert(u[b] == items[b0]);
        } else {
            let a0 = if a < p { a } else { a - 1 };
            assert(u[a] == items[a0]);
        }
    }
    lemma_by_id_distinct(items);
    lemma_by_id_distinct(u);
    assert forall|k: u64| #[trigger] by_id(u).contains_key(k) <==> by_id(items).insert(v.id, v).contains_key(k) by {
        if by_id(u).contains_key(k) {
            let j = choose|j: int| 0 <= j < u.len() && u[j].id == k;
            if j < p {
                assert(u[j] == items[j]);
                assert(by_id(items).contains_key(items[j].id));
            } else if j > p {
                assert(u[j] == items[j - 1]);
                assert(by_id(items).contains_key(items[j - 1].id));
            }
        }
        if by_id(items).contains_key(k) {
            let j = choose|j: int| 0 <= j < items.len() && items[j].id == k;
            let j2 = if j < p { j } else { j + 1 };
            assert(u[j2] == items[j]);
            assert(by_id(u).contains_key(u[j2].id));
        }
        if k == v.id {
            assert(by_id(u).contains_key(u[p].id));
        }
    }
    assert forall|k: u64| #[trigger] by_id(u).contains_key(k) implies by_id(u)[k] == by_id(items).insert(v.id, v)[k] by {
        let j = choose|j: int| 0 <= j < u.len() && u[j].id == k;
        if j < p {
            assert(u[j] == items[j]);
            assert(by_id(items)[items[j].id] == items[j]);
        } else if j > p {
            assert(u[j] == items[j - 1]);
            assert(by_id(items)[items[j - 1].id] == items[j - 1]);
        }
    }
    assert(by_id(u) =~= by_id(items).insert(v.id, v));
}

} // verus!
