//! Properties of the exposition text, the STUN client, the simulated link and
//! feed streams that hold of every input.
use vstd::prelude::*;

use crate::bytes::{be16, be32};
use crate::feed::{applied, feed_of, feed_steps, ids_distinct, ts_sorted, FeedView};
use crate::chaos::{due_count, packet_views, queue_after_travel, ChaosPacket, SendDraw};
use crate::metrics::{Counter, Gauge, HistogramCounts};
use crate::prometheus::{
    counter_text, counters_text, gauge_text, gauges_text, histogram_text, histograms_text,
};
use crate::stun::{
    be16_bytes, be32_bytes, spec_parse_binding_response, spec_parse_xor_mapped_address,
    spec_scan_attributes, spec_step, AttemptOutcome, StunAddress, StunError, StunStep,
    STUN_ATTR_MAPPED_ADDRESS, STUN_ATTR_XOR_MAPPED_ADDRESS,
};

verus! {

/// The counters' text of two runs of counters, one after the other, is the
/// text of the first run followed by the text of the second: no counter's
/// lines replace or drop another's.
pub proof fn law_counters_text_concat(a: Seq<Counter>, b: Seq<Counter>)
    ensures
        counters_text(a + b) == counters_text(a) + counters_text(b),
    decreases b.len(),
{
    if b.len() == 0 {
        assert(a + b =~= a);
        assert(counters_text(a) + counters_text(b) =~= counters_text(a));
    } else {
        law_counters_text_concat(a, b.drop_last());
        assert((a + b).drop_last() =~= a + b.drop_last());
        assert((a + b).last() == b.last());
    }
}

/// Every counter is exported: the counters' text is that of the counters
/// before it, then its own lines (HELP, TYPE, and its name, labels and
/// value), then that of the counters after it.
pub proof fn law_every_counter_exported(cs: Seq<Counter>, i: int)
    requires
        0 <= i < cs.len(),
    ensures
        counters_text(cs) == counters_text(cs.take(i)) + counter_text(
            cs[i].spec_name(),
            cs[i].spec_label_entries(),
            cs[i].spec_value(),
        ) + counters_text(cs.skip(i + 1)),
{
    let one = seq![cs[i]];
    assert(cs =~= cs.take(i) + one + cs.skip(i + 1));
    law_counters_text_concat(cs.take(i) + one, cs.skip(i + 1));
    law_counters_text_concat(cs.take(i), one);
    assert(one.drop_last() =~= Seq::<Counter>::empty());
    assert(counters_text(one.drop_last()) == Seq::<char>::empty());
    assert(one.last() == cs[i]);
    let own = counter_text(cs[i].spec_name(), cs[i].spec_label_entries(), cs[i].spec_value());
    assert(counters_text(one) == counters_text(one.drop_last()) + own);
    assert(Seq::<char>::empty() + own =~= own);
    assert(counters_text(one) =~= counter_text(
        cs[i].spec_name(),
        cs[i].spec_label_entries(),
        cs[i].spec_value(),
    ));
}

/// The gauges' text of two runs of gauges is the text of the first run
/// followed by that of the second.
pub proof fn law_gauges_text_concat(a: Seq<Gauge>, b: Seq<Gauge>)
    ensures
        gauges_text(a + b) == gauges_text(a) + gauges_text(b),
    decreases b.len(),
{
    if b.len() == 0 {
        assert(a + b =~= a);
        assert(gauges_text(a) + gauges_text(b) =~= gauges_text(a));
    } else {
        law_gauges_text_concat(a, b.drop_last());
        assert((a + b).drop_last() =~= a + b.drop_last());
        assert((a + b).last() == b.last());
    }
}

/// Every gauge is exported: the gauges' text is that of the gauges before
/// it, then its own lines, then that of the gauges after it.
pub proof fn law_every_gauge_exported(gs: Seq<Gauge>, i: int)
    requires
        0 <= i < gs.len(),
    ensures
        gauges_text(gs) == gauges_text(gs.take(i)) + gauge_text(
            gs[i].spec_name(),
            gs[i].spec_label_entries(),
            gs[i].spec_value(),
        ) + gauges_text(gs.skip(i + 1)),
{
    let one = seq![gs[i]];
    assert(gs =~= gs.take(i) + one + gs.skip(i + 1));
    law_gauges_text_concat(gs.take(i) + one, gs.skip(i + 1));
    law_gauges_text_concat(gs.take(i), one);
    assert(one.drop_last() =~= Seq::<Gauge>::empty());
    assert(gauges_text(one.drop_last()) == Seq::<char>::empty());
    assert(one.last() == gs[i]);
    let own = gauge_text(gs[i].spec_name(), gs[i].spec_label_entries(), gs[i].spec_value());
    assert(gauges_text(one) == gauges_text(one.drop_last()) + own);
    assert(Seq::<char>::empty() + own =~= own);
    assert(gauges_text(one) =~= gauge_text(
        gs[i].spec_name(),
        gs[i].spec_label_entries(),
        gs[i].spec_value(),
    ));
}

/// Every histogram is exported: the histograms' text begins with that of
/// the histograms before it followed by its own lines, with its own sum text.
pub proof fn law_every_histogram_exported(hs: Seq<HistogramCounts>, sums: Seq<Seq<char>>, i: int)
    requires
        0 <= i < hs.len(),
    ensures
        (histograms_text(hs.take(i), sums) + histogram_text(
            hs[i].spec_name(),
            hs[i].spec_label_entries(),
            hs[i].spec_bounds(),
            hs[i].spec_counts(),
            hs[i].spec_count(),
            sums[i],
        )).is_prefix_of(histograms_text(hs, sums)),
    decreases hs.len(),
{
    let t = histograms_text(hs.take(i), sums) + histogram_text(
        hs[i].spec_name(),
        hs[i].spec_label_entries(),
        hs[i].spec_bounds(),
        hs[i].spec_counts(),
        hs[i].spec_count(),
        sums[i],
    );
    if i + 1 == hs.len() {
        assert(hs.drop_last() =~= hs.take(i));
        assert(t =~= histograms_text(hs, sums));
    } else {
        let d = hs.drop_last();
        law_every_histogram_exported(d, sums, i);
        assert(d.take(i) =~= hs.take(i));
        assert(d[i] == hs[i]);
        let whole = histograms_text(hs, sums);
        let part = histograms_text(d, sums);
        assert(whole == part + histogram_text(
            hs.last().spec_name(),
            hs.last().spec_label_entries(),
            hs.last().spec_bounds(),
            hs.last().spec_counts(),
            hs.last().spec_count(),
            sums[hs.len() - 1],
        ));
        assert forall|k: int| 0 <= k < t.len() implies t[k] == whole[k] by {
            assert(t[k] == part[k]);
        }
    }
}

/// Before the last attempt the client never gives up: a usable answer from
/// the server it asked ends discovery with that address, and any other
/// outcome (a failed receive, a timeout, an answer from elsewhere or without
/// an address) asks for another attempt.
pub proof fn law_retry_before_last_attempt(retries: u32, attempt: u32, outcome: AttemptOutcome)
    requires
        attempt + 1 < retries,
    ensures
        !(spec_step(retries, attempt, outcome) is Fail),
        outcome matches AttemptOutcome::Received { from_server: true, mapped: Some(a) }
            ==> spec_step(retries, attempt, outcome) == StunStep::Found(a),
        !(outcome matches AttemptOutcome::Received { from_server: true, mapped: Some(_) })
            ==> spec_step(retries, attempt, outcome) == StunStep::Retry,
{
}

/// On the last attempt the client ends: a usable answer gives its address,
/// a failed receive fails with the receive error, a timeout with the timeout
/// error, and any other answer with retries exhausted.
pub proof fn law_last_attempt_ends(retries: u32, outcome: AttemptOutcome)
    requires
        retries > 0,
    ensures
        outcome matches AttemptOutcome::Received { from_server: true, mapped: Some(a) }
            ==> spec_step(retries, (retries - 1) as u32, outcome) == StunStep::Found(a),
        outcome is ReceiveFailed ==> spec_step(retries, (retries - 1) as u32, outcome)
            == StunStep::Fail(StunError::ReceiveFailed),
        outcome is TimedOut ==> spec_step(retries, (retries - 1) as u32, outcome) == StunStep::Fail(
            StunError::Timeout,
        ),
        (outcome is Received && !(outcome matches AttemptOutcome::Received {
            from_server: true,
            mapped: Some(_),
        })) ==> spec_step(retries, (retries - 1) as u32, outcome) == StunStep::Fail(
            StunError::RetriesExhausted,
        ),
{
}

/// A travelling packet is put in flight due `latency_ns` after it was sent;
/// a duplicate of it, when drawn, goes to the back and is due `extra` after
/// the original's delivery, so never before it. The packets already in flight
/// keep their order around them.
pub proof fn law_duplicate_follows_original(
    q: Seq<ChaosPacket>,
    data: Seq<u8>,
    now: u64,
    seq: u64,
    latency_ns: u64,
    reorder: Option<u32>,
    extra: Option<u64>,
)
    requires
        now + latency_ns + (if extra is Some { extra->0 as int } else { 0 }) <= u64::MAX,
    ensures
        ({
            let r = queue_after_travel(
                q,
                data,
                now,
                seq,
                SendDraw::Travel { latency_ns, reorder, duplicate_extra_ns: extra },
            );
            let n: int = q.len() as int + 1;
            exists|i: int|
                0 <= i < n && r[i] == (data, (now + latency_ns) as u64, now, seq)
                    && r.take(n).remove(i) == packet_views(q)
                    && r.len() == n + (if extra is Some { 1int } else { 0int })
                    && (extra matches Some(e) ==> {
                    &&& r.last().0 == data
                    &&& r.last().2 == now
                    &&& r.last().3 == seq
                    &&& r.last().1 == r[i].1 + e
                    &&& r.last().1 >= r[i].1
                })
        }),
{
    let v = packet_views(q);
    let len = q.len() as int;
    let p = (data, (now + latency_ns) as u64, now, seq);
    let at: int = match reorder {
        Some(pos) if len > 0 => if pos <= len { len - pos } else { 0 },
        _ => len,
    };
    let placed = match reorder {
        Some(pos) if len > 0 => v.insert(if pos <= len { len - pos } else { 0 }, p),
        _ => v.push(p),
    };
    assert(placed =~= v.insert(at, p));
    assert(placed[at] == p);
    assert(placed.remove(at) =~= v);
    let r = queue_after_travel(
        q,
        data,
        now,
        seq,
        SendDraw::Travel { latency_ns, reorder, duplicate_extra_ns: extra },
    );
    let n: int = q.len() as int + 1;
    match extra {
        Some(e) => {
            assert(r == placed.push((data, (now + latency_ns + e) as u64, now, seq)));
            assert(r.take(n) =~= placed);
            assert(r[at] == p);
        },
        None => {
            assert(r == placed);
            assert(r.take(n) =~= placed);
        },
    }
}

/// An attribute that carries no address is skipped by exactly its length
/// rounded up to the next multiple of four: scanning from it gives what
/// scanning from the next attribute gives, however long its value.
pub proof fn law_unknown_attribute_skipped(data: Seq<u8>, offset: int, end: int, padded: int)
    requires
        0 <= offset,
        offset + 4 <= end,
        offset + 4 <= data.len(),
        be16(data, offset) != STUN_ATTR_XOR_MAPPED_ADDRESS as int,
        be16(data, offset) != STUN_ATTR_MAPPED_ADDRESS as int,
        offset + 4 + be16(data, offset + 2) <= data.len(),
        padded % 4 == 0,
        be16(data, offset + 2) <= padded < be16(data, offset + 2) + 4,
        offset + 4 + padded + 4 <= end,
    ensures
        spec_scan_attributes(data, offset, end) == spec_scan_attributes(
            data,
            offset + 4 + padded,
            end,
        ),
{
    let len = be16(data, offset + 2);
    assert(0 <= data[offset + 2] && 0 <= data[offset + 3]);
    assert(len >= 0);
    assert((len + 3) / 4 * 4 == padded) by (nonlinear_arith)
        requires
            padded % 4 == 0,
            len <= padded < len + 4,
            len >= 0,
    ;
}

/// An item whose message id is already in the stream replaces the first
/// item with that id, at its place; every other item stays where it was.
pub proof fn law_resent_item_replaced_in_place(s: Seq<FeedView>, v: FeedView, r: Seq<FeedView>)
    requires
        applied(s, v, r),
        exists|i: int| 0 <= i < s.len() && #[trigger] s[i].id == v.id,
    ensures
        r.len() == s.len(),
        exists|i: int|
            0 <= i < s.len() && s[i].id == v.id && r[i] == v && forall|j: int|
                0 <= j < s.len() && j != i ==> #[trigger] r[j] == s[j],
{
    let f = choose|f: int|
        0 <= f < s.len() && #[trigger] s[f].id == v.id && (forall|j: int|
            0 <= j < f ==> #[trigger] s[j].id != v.id) && r == s.update(f, v);
    assert(r[f] == v);
}

/// An item with a new message id is added: the stream gains exactly that
/// item, and the items it had keep their order around it.
pub proof fn law_new_item_added(s: Seq<FeedView>, v: FeedView, r: Seq<FeedView>)
    requires
        applied(s, v, r),
        !exists|i: int| 0 <= i < s.len() && #[trigger] s[i].id == v.id,
    ensures
        r.len() == s.len() + 1,
        exists|p: int| 0 <= p <= s.len() && r[p] == v && r.remove(p) == s,
{
    let p = choose|p: int|
        0 <= p <= s.len() && #[trigger] s.insert(p, v) == r && (ts_sorted(s) ==> {
            &&& forall|j: int| 0 <= j < p ==> #[trigger] s[j].timestamp_us <= v.timestamp_us
            &&& forall|j: int| p <= j < s.len() ==> #[trigger] s[j].timestamp_us >= v.timestamp_us
        });
    assert(r.remove(p) =~= s);
}

/// Every item sent again for a message id carries the timestamp it was
/// first sent with.
pub open spec fn resends_keep_time(items: Seq<FeedView>) -> bool {
    forall|a: int, b: int|
        0 <= a < b < items.len() && #[trigger] items[a].id == #[trigger] items[b].id
            ==> items[a].timestamp_us == items[b].timestamp_us
}

/// A feed built by applying items in order holds one item per message id,
/// each one of the items applied; and where items sent again keep their
/// timestamps, the feed is in timestamp order.
pub proof fn law_feed_in_time_order(items: Seq<FeedView>, r: Seq<FeedView>)
    requires
        feed_of(items, r),
    ensures
        ids_distinct(r),
        forall|j: int| 0 <= j < r.len() ==> exists|d: int| 0 <= d < items.len() && items[d] == #[trigger] r[j],
        resends_keep_time(items) ==> ts_sorted(r),
{
    let states = choose|states: Seq<Seq<FeedView>>| #[trigger] feed_steps(items, states) && states.last() == r;
    lemma_feed_steps(items, states, items.len() as int);
    assert(states[items.len() as int] == r);
}

proof fn lemma_feed_steps(items: Seq<FeedView>, states: Seq<Seq<FeedView>>, k: int)
    requires
        feed_steps(items, states),
        0 <= k <= items.len(),
    ensures
        ids_distinct(states[k]),
        forall|j: int| 0 <= j < states[k].len() ==> exists|d: int| 0 <= d < k && items[d] == #[trigger] states[k][j],
        resends_keep_time(items) ==> ts_sorted(states[k]),
    decreases k,
{
    if k > 0 {
        lemma_feed_steps(items, states, k - 1);
        let s = states[k - 1];
        let v = items[k - 1];
        let kk = k - 1;
        assert(applied(states[kk], items[kk], states[kk + 1]));
        assert(kk + 1 == k);
        let r = states[k];
        assert(applied(s, v, r));
        if exists|i: int| 0 <= i < s.len() && #[trigger] s[i].id == v.id {
            let f = choose|f: int|
                0 <= f < s.len() && #[trigger] s[f].id == v.id && (forall|j: int|
                    0 <= j < f ==> #[trigger] s[j].id != v.id) && r == s.update(f, v);
            assert forall|a: int, b: int| 0 <= a < r.len() && 0 <= b < r.len() && a != b implies #[trigger] r[a].id
                != #[trigger] r[b].id by {
                assert(r[a].id == s[a].id && r[b].id == s[b].id);
            }
            assert forall|j: int| 0 <= j < r.len() implies exists|d: int| 0 <= d < k && items[d] == #[trigger] r[j] by {
                if j == f {
                    assert(items[k - 1] == r[j]);
                } else {
                    assert(r[j] == s[j]);
                    let d = choose|d: int| 0 <= d < k - 1 && items[d] == #[trigger] s[j];
                    assert(items[d] == r[j]);
                }
            }
            if resends_keep_time(items) {
                let d = choose|d: int| 0 <= d < k - 1 && items[d] == #[trigger] s[f];
                assert(items[d].id == items[k - 1].id);
                assert(items[d].timestamp_us == items[k - 1].timestamp_us);
                assert forall|a: int, b: int| 0 <= a < b < r.len() implies #[trigger] r[a].timestamp_us
                    <= #[trigger] r[b].timestamp_us by {
                    assert(r[a].timestamp_us == s[a].timestamp_us);
                    assert(r[b].timestamp_us == s[b].timestamp_us);
                }
            }
        } else {
            let p = choose|p: int|
                0 <= p <= s.len() && #[trigger] s.insert(p, v) == r && (ts_sorted(s) ==> {
                    &&& forall|j: int| 0 <= j < p ==> #[trigger] s[j].timestamp_us <= v.timestamp_us
                    &&& forall|j: int| p <= j < s.len() ==> #[trigger] s[j].timestamp_us >= v.timestamp_us
                });
            assert forall|a: int, b: int| 0 <= a < r.len() && 0 <= b < r.len() && a != b implies #[trigger] r[a].id
                != #[trigger] r[b].id by {
                if a != p && b != p {
                    let a0 = if a < p { a } else { a - 1 };
                    let b0 = if b < p { b } else { b - 1 };
                    assert(r[a] == s[a0] && r[b] == s[b0]);
                } else if a == p {
                    let b0 = if b < p { b } else { b - 1 };
                    assert(r[b] == s[b0]);
                } else {
                    let a0 = if a < p { a } else { a - 1 };
                    assert(r[a] == s[a0]);
                }
            }
            assert forall|j: int| 0 <= j < r.len() implies exists|d: int| 0 <= d < k && items[d] == #[trigger] r[j] by {
                if j == p {
                    assert(items[k - 1] == r[j]);
                } else {
                    let j0 = if j < p { j } else { j - 1 };
                    assert(r[j] == s[j0]);
                    let d = choose|d: int| 0 <= d < k - 1 && items[d] == #[trigger] s[j0];
                    assert(items[d] == r[j]);
                }
            }
            if resends_keep_time(items) {
                assert forall|a: int, b: int| 0 <= a < b < r.len() implies #[trigger] r[a].timestamp_us
                    <= #[trigger] r[b].timestamp_us by {
                    if b < p {
                        assert(r[a] == s[a] && r[b] == s[b]);
                    } else if b == p {
                        assert(r[a] == s[a]);
                    } else if a < p {
                        assert(r[a] == s[a] && r[b] == s[b - 1]);
                    } else if a == p {
                        assert(r[b] == s[b - 1]);
                    } else {
                        assert(r[a] == s[a - 1] && r[b] == s[b - 1]);
                    }
                }
            }
        }
    }
}

/// The value of an XOR-MAPPED-ADDRESS attribute for an IPv4 address: a
/// reserved byte, family 1, then the port and the address, each masked with
/// the magic cookie and written big-endian.
pub open spec fn xor_mapped_value(ip: u32, port: u16) -> Seq<u8> {
    seq![0u8, 1u8] + be16_bytes((port ^ 0x2112u16) as int) + be32_bytes((ip ^ 0x2112A442u32) as int)
}

proof fn lemma_be16_bytes(y: int)
    requires
        0 <= y < 65536,
    ensures
        be16(be16_bytes(y), 0) == y,
{
    let b = be16_bytes(y);
    assert(0 <= y / 256 < 256) by (nonlinear_arith)
        requires
            0 <= y < 65536,
    ;
    assert(0 <= y % 256 < 256) by (nonlinear_arith)
        requires
            0 <= y,
    ;
    assert(b[0] == y / 256 && b[1] == y % 256);
    assert(y / 256 * 256 + y % 256 == y) by (nonlinear_arith);
}

proof fn lemma_be32_bytes(y: int)
    requires
        0 <= y < 0x1_0000_0000,
    ensures
        be32(be32_bytes(y), 0) == y,
{
    let b = be32_bytes(y);
    let a0 = y / 16777216;
    let a1 = (y / 65536) % 256;
    let a2 = (y / 256) % 256;
    let a3 = y % 256;
    assert(0 <= a0 < 256) by (nonlinear_arith)
        requires
            0 <= y < 0x1_0000_0000,
            a0 == y / 16777216,
    ;
    assert(0 <= a1 < 256 && 0 <= a2 < 256 && 0 <= a3 < 256) by (nonlinear_arith)
        requires
            0 <= y,
            a1 == (y / 65536) % 256,
            a2 == (y / 256) % 256,
            a3 == y % 256,
    ;
    assert(b[0] == a0 && b[1] == a1 && b[2] == a2 && b[3] == a3);
    vstd::arithmetic::div_mod::lemma_fundamental_div_mod(y, 256);
    vstd::arithmetic::div_mod::lemma_fundamental_div_mod(y / 256, 256);
    vstd::arithmetic::div_mod::lemma_fundamental_div_mod(y / 65536, 256);
    vstd::arithmetic::div_mod::lemma_div_denominator(y, 256, 256);
    vstd::arithmetic::div_mod::lemma_div_denominator(y, 65536, 256);
    assert(a0 * 16777216 + a1 * 65536 + a2 * 256 + a3 == y) by (nonlinear_arith)
        requires
            y == 256 * (y / 256) + y % 256,
            y / 256 == 256 * ((y / 256) / 256) + (y / 256) % 256,
            y / 65536 == 256 * ((y / 65536) / 256) + (y / 65536) % 256,
            (y / 256) / 256 == y / 65536,
            (y / 65536) / 256 == y / 16777216,
            a0 == y / 16777216,
            a1 == (y / 65536) % 256,
            a2 == (y / 256) % 256,
            a3 == y % 256,
    ;
}

/// An XOR-MAPPED-ADDRESS value written for an IPv4 address and port reads
/// back as that address and port.
pub proof fn law_xor_mapped_roundtrip(ip: u32, port: u16)
    ensures
        spec_parse_xor_mapped_address(xor_mapped_value(ip, port)) == Some(StunAddress { ip, port }),
{
    let mp = port ^ 0x2112u16;
    let mi = ip ^ 0x2112A442u32;
    let d = xor_mapped_value(ip, port);
    let b16 = be16_bytes(mp as int);
    let b32 = be32_bytes(mi as int);
    lemma_be16_bytes(mp as int);
    lemma_be32_bytes(mi as int);
    assert(d.len() == 8);
    assert(d[1] == 1u8);
    assert(d[2] == b16[0] && d[3] == b16[1]);
    assert(d[4] == b32[0] && d[5] == b32[1] && d[6] == b32[2] && d[7] == b32[3]);
    assert(be16(d, 2) == be16(b16, 0));
    assert(be32(d, 4) == be32(b32, 0));
    assert((mp ^ 0x2112u16) == port) by (bit_vector)
        requires
            mp == port ^ 0x2112u16,
    ;
    assert((mi ^ 0x2112A442u32) == ip) by (bit_vector)
        requires
            mi == ip ^ 0x2112A442u32,
    ;
}

/// A response answers one transaction only: no bytes give an address for
/// two different transaction IDs.
pub proof fn law_response_answers_one_transaction(data: Seq<u8>, t1: Seq<u8>, t2: Seq<u8>)
    requires
        spec_parse_binding_response(data, t1) is Some,
        spec_parse_binding_response(data, t2) is Some,
    ensures
        t1 == t2,
{
}

/// A tick delivers the packets at the front of the queue that are due by
/// the new time and stops at the first that is not: every packet counted as
/// due has its delivery time at or before `now`, and the next one, if any,
/// after it.
pub proof fn law_tick_delivers_due_front(q: Seq<ChaosPacket>, now: u64)
    ensures
        due_count(q, now) <= q.len(),
        forall|i: int| 0 <= i < due_count(q, now) ==> #[trigger] q[i].delivery_time_ns <= now,
        due_count(q, now) < q.len() ==> q[due_count(q, now) as int].delivery_time_ns > now,
    decreases q.len(),
{
    if q.len() > 0 && q[0].delivery_time_ns <= now {
        let t = q.drop_first();
        law_tick_delivers_due_front(t, now);
        assert forall|i: int| 0 <= i < due_count(q, now) implies #[trigger] q[i].delivery_time_ns <= now by {
            if i > 0 {
                assert(q[i] == t[i - 1]);
            }
        }
        if due_count(q, now) < q.len() {
            assert(q[due_count(q, now) as int] == t[due_count(t, now) as int]);
        }
    }
}

} // verus!
