//! Properties of the library that span several calls or hold of every input.
use vstd::prelude::*;

use crate::bytes::{le16, le64};
use crate::chaos::ChaosLink;
use crate::event_block::{
    block_bytes, le64_bytes, spec_block, spec_blocks, spec_decode_version, version_bytes,
    EventBlockView,
};
use crate::health::{is_fresh, lemma_worst_of, severity_of, worst_of, HealthCache, HealthView};
use crate::metrics::{
    first_reaching, lemma_prefix_sum_mono, lemma_prefix_sum_update, prefix_sum, spec_percentile_bucket, wrap_i64, wrap_u64,
};
use crate::keyed::lemma_keyed_map_index;
use crate::network_plan::{relay_frame, send_plan_spec};
use crate::registry::{
    counter_entries, gauge_entries, histogram_entries, CounterId, GaugeId, HistogramId,
    MetricsRegistry,
};
use crate::observability::{directive_of, LogLevel};
use crate::prometheus::{escape_char, escape_text};
use crate::stun::{spec_requires_turn, spec_step, spec_stun_traversable, AttemptOutcome, NatType};
use crate::tallies::{count_outcome, EventOutcome};

verus! {

/// The overall health is Unhealthy exactly when some check is Unhealthy,
/// Degraded exactly when none is Unhealthy and some is Degraded, and Healthy
/// exactly when every check is Healthy (in particular when there are none).
pub proof fn law_overall_precedence(s: Seq<HealthView>)
    ensures
        (worst_of(s) is Unhealthy) <==> exists|i: int| 0 <= i < s.len() && #[trigger] s[i] is Unhealthy,
        (worst_of(s) is Degraded) <==> ((forall|i: int| 0 <= i < s.len() ==> !(#[trigger] s[i] is Unhealthy))
            && exists|i: int| 0 <= i < s.len() && #[trigger] s[i] is Degraded),
        (worst_of(s) is Healthy) <==> forall|i: int| 0 <= i < s.len() ==> #[trigger] s[i] is Healthy,
{
    lemma_worst_of(s);
    if s.len() > 0 {
        let w = choose|i: int| 0 <= i < s.len() && #[trigger] s[i] == worst_of(s);
        assert(s[w] == worst_of(s));
    }
    assert forall|i: int| 0 <= i < s.len() && worst_of(s) is Healthy implies #[trigger] s[i] is Healthy by {
        assert(severity_of(s[i]) <= severity_of(worst_of(s)));
    }
    assert forall|i: int| 0 <= i < s.len() && worst_of(s) is Degraded implies !(#[trigger] s[i] is Unhealthy) by {
        assert(severity_of(s[i]) <= severity_of(worst_of(s)));
    }
}

/// A cache with a zero time-to-live never serves a cached status.
pub proof fn law_zero_ttl_never_fresh(stamp: u64, now: u64)
    ensures
        !is_fresh(stamp, now, 0),
{
}

/// A status still served at some time was served at every earlier time.
pub proof fn law_freshness_monotone(stamp: u64, earlier: u64, later: u64, ttl: u64)
    requires
        earlier <= later,
        is_fresh(stamp, later, ttl),
    ensures
        is_fresh(stamp, earlier, ttl),
{
}

/// A status is served at the moment it was stored exactly when the
/// time-to-live is not zero, and stops being served once `ttl` has elapsed.
pub proof fn law_fresh_until_ttl(stamp: u64, now: u64, ttl: u64)
    requires
        stamp <= now,
    ensures
        is_fresh(stamp, stamp, ttl) <==> ttl > 0,
        is_fresh(stamp, now, ttl) <==> now - stamp < ttl,
{
}

/// Read after write: once a status is stored at `stored_at`, a lookup at a
/// later time `now` gives it back exactly while less than the time-to-live
/// has passed since the store, and nothing from then on.
pub proof fn law_cache_read_after_write(
    c: HealthCache,
    overall: HealthView,
    checks: Seq<(Seq<char>, HealthView)>,
    stored_at: u64,
    now: u64,
)
    requires
        c.spec_cached() == Some((overall, checks, stored_at)),
        stored_at <= now,
    ensures
        c.spec_cached() matches Some(x) && x.2 == stored_at,
        is_fresh(stored_at, now, c.spec_ttl()) <==> now - stored_at < c.spec_ttl(),
{
}

/// Adding `n` to a gauge and then subtracting `n` gives back its value
/// (in particular, an increment followed by a decrement).
pub proof fn law_gauge_add_sub_inverse(v: i64, n: i64)
    ensures
        wrap_i64(wrap_i64(v + n) - n) == v,
{
    let m: int = 0x1_0000_0000_0000_0000;
    let h: int = 0x8000_0000_0000_0000;
    let a = v + n + h;
    let w = wrap_i64(v + n);
    assert(w == a % m - h) by {
        assert(0 <= a % m < m) by (nonlinear_arith)
            requires m > 0,
        ;
    }
    assert(((w - n + h) % m) == (v + h)) by (nonlinear_arith)
        requires
            w == a % m - h,
            a == v + n + h,
            m == 0x1_0000_0000_0000_0000,
            h == 0x8000_0000_0000_0000,
            -h <= v < h,
    {
        assert(a == (a / m) * m + a % m);
        assert(w - n + h == (v + h) - (a / m) * m);
        vstd::arithmetic::div_mod::lemma_mod_multiples_vanish(-(a / m), v + h, m);
        vstd::arithmetic::div_mod::lemma_small_mod((v + h) as nat, m as nat);
    }
}

/// Incrementing a counter by `a` and then by `b` is incrementing it by `a + b`,
/// with the same wrap-around.
pub proof fn law_counter_increments_add(v: u64, a: u64, b: u64)
    ensures
        wrap_u64(wrap_u64(v + a) + b) == wrap_u64(v + a + b),
{
    let m: int = 0x1_0000_0000_0000_0000;
    vstd::arithmetic::div_mod::lemma_add_mod_noop(v + a, b as int, m);
    vstd::arithmetic::div_mod::lemma_small_mod(b as nat, m as nat);
    vstd::arithmetic::div_mod::lemma_mod_bound(v + a, m);
    vstd::arithmetic::div_mod::lemma_mod_bound(v + a + b, m);
    vstd::arithmetic::div_mod::lemma_mod_bound(wrap_u64(v + a) + b, m);
}

/// Recording an observation keeps a histogram's total count equal to the
/// sum of its bucket counts, while neither has wrapped around.
pub proof fn law_record_keeps_total(counts: Seq<u64>, count: u64, bucket: int)
    requires
        0 <= bucket < counts.len(),
        prefix_sum(counts, counts.len() as int) == count,
        count < u64::MAX,
    ensures
        counts[bucket] < u64::MAX,
        prefix_sum(
            counts.update(bucket, wrap_u64(counts[bucket] + 1)),
            counts.len() as int,
        ) == wrap_u64(count + 1),
{
    lemma_prefix_sum_mono(counts, 0, bucket);
    lemma_prefix_sum_mono(counts, bucket + 1, counts.len() as int);
    assert(prefix_sum(counts, bucket + 1) == prefix_sum(counts, bucket) + counts[bucket]);
    assert(counts[bucket] + 1 < 0x1_0000_0000_0000_0000);
    vstd::arithmetic::div_mod::lemma_small_mod((counts[bucket] + 1) as nat, 0x1_0000_0000_0000_0000);
    vstd::arithmetic::div_mod::lemma_small_mod((count + 1) as nat, 0x1_0000_0000_0000_0000);
    lemma_prefix_sum_update(counts, bucket, wrap_u64(counts[bucket] + 1), counts.len() as int);
}

proof fn lemma_first_reaching_mono(s: Seq<u64>, t1: int, t2: int, i: int)
    requires
        t1 <= t2,
        0 <= i,
    ensures
        first_reaching(s, t1, i) <= first_reaching(s, t2, i),
    decreases s.len() - i,
{
    if i < s.len() {
        if prefix_sum(s, i + 1) >= t2 {
        } else if prefix_sum(s, i + 1) >= t1 {
            lemma_first_reaching_ge(s, t2, i + 1);
        } else {
            lemma_first_reaching_mono(s, t1, t2, i + 1);
        }
    }
}

proof fn lemma_first_reaching_ge(s: Seq<u64>, t: int, i: int)
    requires
        0 <= i,
    ensures
        first_reaching(s, t, i) >= i || first_reaching(s, t, i) == s.len(),
    decreases s.len() - i,
{
    if i < s.len() && prefix_sum(s, i + 1) < t {
        lemma_first_reaching_ge(s, t, i + 1);
    }
}

/// A higher percentile never answers with a lower bucket.
pub proof fn law_percentile_bucket_monotone(counts: Seq<u64>, t1: int, t2: int)
    requires
        t1 <= t2,
    ensures
        spec_percentile_bucket(counts, t1) <= spec_percentile_bucket(counts, t2),
{
    lemma_first_reaching_mono(counts, t1, t2, 0);
}

proof fn lemma_escape_len_and_index(s: Seq<char>)
    ensures
        forall|i: int| 0 <= i < escape_text(s).len() ==> #[trigger] escape_text(s)[i] != '\n',
    decreases s.len(),
{
    if s.len() > 0 {
        lemma_escape_len_and_index(s.drop_last());
        let p = escape_text(s.drop_last());
        let e = escape_char(s.last());
        assert(escape_text(s) == p + e);
        assert forall|i: int| 0 <= i < escape_text(s).len() implies #[trigger] escape_text(s)[i] != '\n' by {
            if i < p.len() {
                assert(escape_text(s)[i] == p[i]);
            } else {
                assert(escape_text(s)[i] == e[i - p.len()]);
            }
        }
    }
}

/// An escaped label value holds no raw newline, so it stays on its line of
/// the exposition text.
pub proof fn law_escaped_value_has_no_newline(s: Seq<char>)
    ensures
        !escape_text(s).contains('\n'),
{
    lemma_escape_len_and_index(s);
}

/// No NAT type is both traversable with STUN alone and in need of a TURN relay.
pub proof fn law_nat_traversal_exclusive(t: NatType)
    ensures
        !(spec_stun_traversable(t) && spec_requires_turn(t)),
{
}

/// The client never asks for another attempt after its last one, so it makes
/// at most `retries` attempts.
pub proof fn law_no_retry_after_last_attempt(retries: u32, outcome: AttemptOutcome)
    requires
        retries > 0,
    ensures
        !(spec_step(retries, (retries - 1) as u32, outcome) is Retry),
{
}

/// In the network test no node sends to itself, and every sender and
/// receiver is one of the `n` nodes.
pub proof fn law_plan_no_self_send(n: nat, m: nat, k: int)
    requires
        0 <= k < send_plan_spec(n, m).len(),
    ensures
        send_plan_spec(n, m)[k].0 != send_plan_spec(n, m)[k].2,
        send_plan_spec(n, m)[k].0 < n,
        send_plan_spec(n, m)[k].2 < n,
        send_plan_spec(n, m)[k].1 < m,
{
    let per: int = m * (n - 1);
    assert(n >= 2 && m >= 1) by (nonlinear_arith)
        requires
            0 <= k < n * m * (if n == 0 { 0 } else { (n - 1) as nat }),
    ;
    let s = k / per;
    let r0 = k % per;
    assert(0 <= s < n && 0 <= r0 < per) by (nonlinear_arith)
        requires
            per == m * (n - 1),
            n >= 2,
            m >= 1,
            0 <= k < n * m * ((n - 1) as nat),
            s == k / per,
            r0 == k % per,
    ;
    let msg = r0 / (n - 1);
    let j = r0 % (n - 1);
    assert(0 <= msg < m && 0 <= j < n - 1) by (nonlinear_arith)
        requires
            per == m * (n - 1),
            n >= 2,
            0 <= r0 < per,
            msg == r0 / (n - 1),
            j == r0 % (n - 1),
    ;
}

/// A relay frame starts with its destination as two little-endian bytes,
/// which is what the relay reads back, and carries the payload unchanged
/// after them.
pub proof fn law_relay_frame_roundtrip(dest: u16, payload: Seq<u8>)
    ensures
        relay_frame(dest, payload).len() == payload.len() + 2,
        relay_frame(dest, payload)[0] as int + 256 * relay_frame(dest, payload)[1] as int == dest,
        relay_frame(dest, payload).skip(2) == payload,
{
    assert(relay_frame(dest, payload).skip(2) =~= payload);
}

/// Each event of a batch is counted under exactly one outcome.
pub proof fn law_tally_covers_batch(s: Seq<EventOutcome>)
    ensures
        count_outcome(s, EventOutcome::Applied) + count_outcome(s, EventOutcome::Merged)
            + count_outcome(s, EventOutcome::LateCorrected) + count_outcome(s, EventOutcome::Buffered)
            + count_outcome(s, EventOutcome::Duplicate) + count_outcome(s, EventOutcome::Rejected)
            == s.len(),
    decreases s.len(),
{
    if s.len() > 0 {
        law_tally_covers_batch(s.drop_last());
    }
}

/// Distinct log levels have distinct filter directives.
pub proof fn law_directives_distinct(a: LogLevel, b: LogLevel)
    requires
        a != b,
    ensures
        directive_of(a) != directive_of(b),
{
    reveal_strlit("trace");
    reveal_strlit("debug");
    reveal_strlit("info");
    reveal_strlit("warn");
    reveal_strlit("error");
    assert("trace"@[0] == 't');
    assert("debug"@[0] == 'd');
    assert("info"@[0] == 'i');
    assert("warn"@[0] == 'w');
    assert("error"@[0] == 'e');
}

proof fn lemma_le64_bytes(x: u64)
    ensures
        le64(le64_bytes(x), 0) == x,
{
    let b = le64_bytes(x);
    assert(x == (x & 0xff) + ((x >> 8) & 0xff) * 0x100 + ((x >> 16) & 0xff) * 0x10000 + ((x >> 24)
        & 0xff) * 0x1000000 + ((x >> 32) & 0xff) * 0x100000000 + ((x >> 40) & 0xff) * 0x10000000000
        + ((x >> 48) & 0xff) * 0x1000000000000 + ((x >> 56) & 0xff) * 0x100000000000000)
        by (bit_vector);
    assert(((x & 0xff) as u8) as int == x & 0xff) by (bit_vector);
    assert((((x >> 8) & 0xff) as u8) as int == (x >> 8) & 0xff) by (bit_vector);
    assert((((x >> 16) & 0xff) as u8) as int == (x >> 16) & 0xff) by (bit_vector);
    assert((((x >> 24) & 0xff) as u8) as int == (x >> 24) & 0xff) by (bit_vector);
    assert((((x >> 32) & 0xff) as u8) as int == (x >> 32) & 0xff) by (bit_vector);
    assert((((x >> 40) & 0xff) as u8) as int == (x >> 40) & 0xff) by (bit_vector);
    assert((((x >> 48) & 0xff) as u8) as int == (x >> 48) & 0xff) by (bit_vector);
    assert((((x >> 56) & 0xff) as u8) as int == (x >> 56) & 0xff) by (bit_vector);
}

proof fn lemma_version_bytes_index(e: Seq<(Seq<u8>, u64)>, i: int)
    requires
        forall|k: int| 0 <= k < e.len() ==> (#[trigger] e[k]).0.len() == 8,
        0 <= i < e.len(),
    ensures
        version_bytes(e).len() == 16 * e.len(),
        version_bytes(e).subrange(16 * i, 16 * i + 8) == e[i].0,
        le64(version_bytes(e), 16 * i + 8) == e[i].1,
    decreases e.len(),
{
    let p = e.drop_last();
    lemma_version_bytes_len(p);
    let vb = version_bytes(e);
    let pb = version_bytes(p);
    assert(vb == pb + e.last().0 + le64_bytes(e.last().1));
    if i < e.len() - 1 {
        lemma_version_bytes_index(p, i);
        assert(vb.subrange(16 * i, 16 * i + 8) =~= pb.subrange(16 * i, 16 * i + 8));
        assert forall|k: int| 16 * i + 8 <= k < 16 * i + 16 implies vb[k] == pb[k] by {}
    } else {
        assert(vb.subrange(16 * i, 16 * i + 8) =~= e.last().0);
        lemma_le64_bytes(e.last().1);
        let lb = le64_bytes(e.last().1);
        assert forall|k: int| 0 <= k < 8 implies vb[16 * i + 8 + k] == lb[k] by {}
    }
}

proof fn lemma_version_bytes_len(e: Seq<(Seq<u8>, u64)>)
    requires
        forall|k: int| 0 <= k < e.len() ==> (#[trigger] e[k]).0.len() == 8,
    ensures
        version_bytes(e).len() == 16 * e.len(),
    decreases e.len(),
{
    if e.len() > 0 {
        lemma_version_bytes_len(e.drop_last());
    }
}

/// Encoded version vector entries (with 8-byte node ids) decode to the same
/// entries.
pub proof fn law_version_roundtrip(e: Seq<(Seq<u8>, u64)>)
    requires
        forall|k: int| 0 <= k < e.len() ==> (#[trigger] e[k]).0.len() == 8,
    ensures
        spec_decode_version(version_bytes(e)) == Some(e),
{
    lemma_version_bytes_len(e);
    let vb = version_bytes(e);
    assert(vb.len() % 16 == 0 && vb.len() / 16 == e.len()) by (nonlinear_arith)
        requires
            vb.len() == 16 * e.len(),
    ;
    let d = Seq::new(
        (vb.len() / 16) as nat,
        |i: int| (vb.subrange(16 * i, 16 * i + 8), le64(vb, 16 * i + 8) as u64),
    );
    assert forall|i: int| 0 <= i < e.len() implies #[trigger] d[i] == e[i] by {
        lemma_version_bytes_index(e, i);
    }
    assert(d =~= e);
}

/// A block whose parts fit their 16-bit length prefixes reads back as
/// itself, whatever follows it, and the blocks of a payload read back one by
/// one: reading an encoded block followed by more bytes gives the block and
/// then the blocks of those bytes.
pub proof fn law_block_roundtrip(b: EventBlockView, rest: Seq<u8>)
    requires
        b.state_id.len() == 8,
        forall|k: int| 0 <= k < b.version.len() ==> (#[trigger] b.version[k]).0.len() == 8,
        16 * b.version.len() < 65536,
        b.delta.len() < 65536,
    ensures
        spec_block(block_bytes(b) + rest) == Some((b, block_bytes(b).len() as int)),
        spec_blocks(block_bytes(b) + rest) == seq![b] + spec_blocks(rest),
{
    lemma_version_bytes_len(b.version);
    law_version_roundtrip(b.version);
    let v = version_bytes(b.version);
    let vlen = v.len() as int;
    let dlen = b.delta.len() as int;
    let data = block_bytes(b) + rest;
    assert(vlen % 65536 == vlen);
    assert(dlen % 65536 == dlen);
    assert(block_bytes(b).len() == 13 + vlen + dlen);
    assert(data[9] == (vlen % 256) as u8 && data[10] == (vlen / 256) as u8);
    assert(le16(data, 9) == vlen);
    assert(data.subrange(11, 11 + vlen) =~= v);
    assert(data[11 + vlen] == (dlen % 256) as u8 && data[12 + vlen] == (dlen / 256) as u8);
    assert(le16(data, 11 + vlen) == dlen);
    assert(data.subrange(1, 9) =~= b.state_id);
    assert(data.subrange(13 + vlen, 13 + vlen + dlen) =~= b.delta);
    assert(data.subrange(13 + vlen + dlen, data.len() as int) =~= rest);
}

/// Handles share one value: two handles of counters registered under one
/// name refer to the same counter, read the same value and labels, and that
/// is what the registry keeps under the name.
pub proof fn law_counter_handles_share_value(r: MetricsRegistry, a: CounterId, b: CounterId)
    requires
        r.well_formed(),
        r.valid_counter(a),
        r.valid_counter(b),
        r.counter_entry(a).0 == r.counter_entry(b).0,
    ensures
        a.index() == b.index(),
        r.counter_entry(a) == r.counter_entry(b),
        r.counter_map()[r.counter_entry(a).0] == r.counter_entry(a).1,
{
    let e = counter_entries(r.spec_counters());
    assert(e[a.index()].0 == e[b.index()].0);
    lemma_keyed_map_index(e, a.index());
}

/// Handles share one value: two handles of gauges registered under one
/// name refer to the same gauge, read the same value and labels, and that is
/// what the registry keeps under the name.
pub proof fn law_gauge_handles_share_value(r: MetricsRegistry, a: GaugeId, b: GaugeId)
    requires
        r.well_formed(),
        r.valid_gauge(a),
        r.valid_gauge(b),
        r.gauge_entry(a).0 == r.gauge_entry(b).0,
    ensures
        a.index() == b.index(),
        r.gauge_entry(a) == r.gauge_entry(b),
        r.gauge_map()[r.gauge_entry(a).0] == r.gauge_entry(a).1,
{
    let e = gauge_entries(r.spec_gauges());
    assert(e[a.index()].0 == e[b.index()].0);
    lemma_keyed_map_index(e, a.index());
}

/// Handles share one value: two handles of histograms registered under one
/// name refer to the same histogram, read the same counts, and that is what
/// the registry keeps under the name.
pub proof fn law_histogram_handles_share_value(r: MetricsRegistry, a: HistogramId, b: HistogramId)
    requires
        r.well_formed(),
        r.valid_histogram(a),
        r.valid_histogram(b),
        r.histogram_entry(a).0 == r.histogram_entry(b).0,
    ensures
        a.index() == b.index(),
        r.histogram_entry(a) == r.histogram_entry(b),
        r.histogram_map()[r.histogram_entry(a).0] == r.histogram_entry(a).1,
{
    let e = histogram_entries(r.spec_histograms());
    assert(e[a.index()].0 == e[b.index()].0);
    lemma_keyed_map_index(e, a.index());
}

/// Packet accounting of a link: no more packets are lost than are sent, and
/// what is delivered, together with what is still in flight, is what was sent
/// and not lost, plus the duplicates; so no more is delivered than that.
pub proof fn law_chaos_accounting(l: ChaosLink)
    requires
        l.balanced(),
        l.loss_within_sends(),
    ensures
        l.spec_stats().packets_lost <= l.spec_stats().packets_sent,
        l.spec_stats().packets_delivered + l.packets().len() == l.spec_stats().packets_sent
            - l.spec_stats().packets_lost + l.spec_stats().packets_duplicated,
        l.spec_stats().packets_delivered <= l.spec_stats().packets_sent - l.spec_stats().packets_lost
            + l.spec_stats().packets_duplicated,
{
}

} // verus!
