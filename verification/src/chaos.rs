//! The packet queue of a simulated hostile link.
//!
//! A link keeps the packets in flight in delivery order, except where a
//! packet was reordered on purpose, and delivers from the front every packet
//! whose delivery time has come. The random draws that decide loss, jitter,
//! reordering and duplication are made by the caller; the link applies them
//! and keeps the statistics.
use vstd::prelude::*;
use std::collections::VecDeque;

verus! {

/// Packet in the chaos network. Times are in nanoseconds since the link's start.
#[derive(Debug)]
pub struct ChaosPacket {
    /// Packet data
    pub data: Vec<u8>,
    /// Scheduled delivery time
    pub delivery_time_ns: u64,
    /// Original send time
    pub send_time_ns: u64,
    /// Sequence number (for tracking)
    pub seq: u64,
}

/// Chaos network statistics.
#[derive(Debug, Clone, Copy, PartialEq, Eq)]
pub struct ChaosStats {
    pub packets_sent: u64,
    pub packets_delivered: u64,
    pub packets_lost: u64,
    pub packets_reordered: u64,
    pub packets_duplicated: u64,
    pub total_latency_ms: u64,
    pub max_latency_ms: u64,
}

impl Default for ChaosStats {
    fn default() -> (s: Self)
        ensures
            s == zero_stats(),
    {
        ChaosStats {
            packets_sent: 0,
            packets_delivered: 0,
            packets_lost: 0,
            packets_reordered: 0,
            packets_duplicated: 0,
            total_latency_ms: 0,
            max_latency_ms: 0,
        }
    }
}

/// Statistics with every counter at zero.
pub open spec fn zero_stats() -> ChaosStats {
    ChaosStats {
        packets_sent: 0,
        packets_delivered: 0,
        packets_lost: 0,
        packets_reordered: 0,
        packets_duplicated: 0,
        total_latency_ms: 0,
        max_latency_ms: 0,
    }
}

/// Whole milliseconds between a packet's send and delivery times.
pub open spec fn latency_ms(p: ChaosPacket) -> int {
    (p.delivery_time_ns - p.send_time_ns) / 1_000_000
}

/// How many packets at the front of `q` are due at time `now`.
pub open spec fn due_count(q: Seq<ChaosPacket>, now: u64) -> nat
    decreases q.len(),
{
    if q.len() == 0 || q[0].delivery_time_ns > now {
        0
    } else {
        1 + due_count(q.drop_first(), now)
    }
}

/// Sum of the latencies of the packets of `q`.
pub open spec fn latency_sum(q: Seq<ChaosPacket>) -> int
    decreases q.len(),
{
    if q.len() == 0 {
        0
    } else {
        latency_sum(q.drop_last()) + latency_ms(q.last())
    }
}

/// The largest of `m` and the latencies of the packets of `q`.
pub open spec fn latency_max(m: int, q: Seq<ChaosPacket>) -> int
    decreases q.len(),
{
    if q.len() == 0 {
        m
    } else {
        let prev = latency_max(m, q.drop_last());
        let l = latency_ms(q.last());
        if prev >= l {
            prev
        } else {
            l
        }
    }
}

/// The data of each packet of `q`.
pub open spec fn packet_data(q: Seq<ChaosPacket>) -> Seq<Vec<u8>> {
    q.map_values(|p: ChaosPacket| p.data)
}

/// What is kept of a packet in flight: its data, delivery time, send time
/// and sequence number.
pub open spec fn packet_view(p: ChaosPacket) -> (Seq<u8>, u64, u64, u64) {
    (p.data@, p.delivery_time_ns, p.send_time_ns, p.seq)
}

/// What is kept of each packet of `q`.
pub open spec fn packet_views(q: Seq<ChaosPacket>) -> Seq<(Seq<u8>, u64, u64, u64)> {
    q.map_values(|p: ChaosPacket| packet_view(p))
}

/// How the random draws of one send came out, for a send that a loss burst
/// does not already take.
#[derive(Debug, Clone, Copy, PartialEq, Eq)]
pub enum SendDraw {
    /// A loss burst starts: this packet is lost, and so are as many after it
    /// as the burst's length.
    BurstStart(u32),
    /// This packet alone is lost.
    Lost,
    /// The packet travels for `latency_ns`; with `reorder` set to `Some(pos)`
    /// it goes `pos` places before the back of the queue, and with
    /// `duplicate_extra_ns` set to `Some(extra)` a duplicate follows `extra`
    /// after its delivery.
    Travel { latency_ns: u64, reorder: Option<u32>, duplicate_extra_ns: Option<u64> },
}

/// Whether a send is lost: to a burst that lasts, or by its draw.
pub open spec fn send_lost(burst: u32, draw: SendDraw) -> bool {
    burst > 0 || !(draw is Travel)
}

/// The queue after a packet with `data`, sent at `now` with sequence number
/// `seq`, travels as `draw` (a `Travel` draw) says.
pub open spec fn queue_after_travel(
    q: Seq<ChaosPacket>,
    data: Seq<u8>,
    now: u64,
    seq: u64,
    draw: SendDraw,
) -> Seq<(Seq<u8>, u64, u64, u64)> {
    match draw {
        SendDraw::Travel { latency_ns, reorder, duplicate_extra_ns } => {
            let n = q.len();
            let p = (data, (now + latency_ns) as u64, now, seq);
            let placed = match reorder {
                Some(pos) if n > 0 => packet_views(q).insert(if pos <= n { n - pos } else { 0 }, p),
                _ => packet_views(q).push(p),
            };
            match duplicate_extra_ns {
                Some(extra) => placed.push((data, (now + latency_ns + extra) as u64, now, seq)),
                None => placed,
            }
        },
        _ => packet_views(q),
    }
}

proof fn lemma_latency_sum_mono(q: Seq<ChaosPacket>, a: int, b: int)
    requires
        0 <= a <= b <= q.len(),
        forall|i: int| 0 <= i < q.len() ==> q[i].send_time_ns <= #[trigger] q[i].delivery_time_ns,
    ensures
        latency_sum(q.take(a)) <= latency_sum(q.take(b)),
    decreases b - a,
{
    if a < b {
        lemma_latency_sum_mono(q, a, b - 1);
        assert(q.take(b).drop_last() =~= q.take(b - 1));
        assert(q.take(b).last() == q[b - 1]);
    }
}

proof fn lemma_due_count_le(q: Seq<ChaosPacket>, now: u64)
    ensures
        due_count(q, now) <= q.len(),
    decreases q.len(),
{
    if q.len() > 0 && q[0].delivery_time_ns <= now {
        lemma_due_count_le(q.drop_first(), now);
    }
}

/// The packet queue and counters of a simulated link.
#[derive(Debug)]
pub struct ChaosLink {
    in_flight: VecDeque<ChaosPacket>,
    current_time_ns: u64,
    burst_remaining: u32,
    next_seq: u64,
    stats: ChaosStats,
}

impl ChaosLink {
    /// The packets in flight, front first.
    pub closed spec fn packets(&self) -> Seq<ChaosPacket> {
        self.in_flight@
    }

    /// The link's clock, in nanoseconds since its start.
    pub closed spec fn now(&self) -> u64 {
        self.current_time_ns
    }

    /// How many more packets the current loss burst drops.
    pub closed spec fn burst(&self) -> u32 {
        self.burst_remaining
    }

    /// The sequence number the next packet gets.
    pub closed spec fn seq_counter(&self) -> u64 {
        self.next_seq
    }

    /// The link's statistics.
    pub closed spec fn spec_stats(&self) -> ChaosStats {
        self.stats
    }

    /// No packet in flight is delivered before it was sent.
    pub open spec fn well_formed(&self) -> bool {
        forall|i: int|
            0 <= i < self.packets().len() ==> (#[trigger] self.packets()[i]).send_time_ns
                <= self.packets()[i].delivery_time_ns
    }

    /// A link with nothing in flight, its clock at zero and zero statistics.
    pub fn new() -> (l: Self)
        ensures
            l.well_formed(),
            l.packets() == Seq::<ChaosPacket>::empty(),
            l.now() == 0,
            l.burst() == 0,
            l.seq_counter() == 0,
            l.spec_stats() == zero_stats(),
            l.balanced(),
            l.loss_within_sends(),
    {
        ChaosLink {
            in_flight: VecDeque::new(),
            current_time_ns: 0,
            burst_remaining: 0,
            next_seq: 0,
            stats: ChaosStats::default(),
        }
    }

    /// Every packet sent (duplicates counting as sent again) has been
    /// delivered, lost, or is still in flight.
    pub open spec fn balanced(&self) -> bool {
        self.spec_stats().packets_sent + self.spec_stats().packets_duplicated
            == self.spec_stats().packets_lost + self.spec_stats().packets_delivered
            + self.packets().len()
    }

    /// No more packets were lost than were sent.
    pub open spec fn loss_within_sends(&self) -> bool {
        self.spec_stats().packets_lost <= self.spec_stats().packets_sent
    }

    /// Starts sending a packet and gives it the next sequence number. While
    /// a loss burst lasts, the packet is lost to it (the second result is
    /// `true`): it counts as sent and lost, and the burst shortens by one.
    /// Otherwise the send is completed by [`Self::lose`] or [`Self::enqueue`].
    pub fn begin_send(&mut self) -> (r: (u64, bool))
        requires
            old(self).seq_counter() < u64::MAX,
            old(self).burst() > 0 ==> old(self).spec_stats().packets_sent < u64::MAX
                && old(self).spec_stats().packets_lost < u64::MAX,
        ensures
            r.0 == old(self).seq_counter(),
            r.1 == (old(self).burst() > 0),
            final(self).seq_counter() == old(self).seq_counter() + 1,
            final(self).burst() == if r.1 {
                (old(self).burst() - 1) as u32
            } else {
                0u32
            },
            final(self).spec_stats() == if r.1 {
                ChaosStats {
                    packets_sent: (old(self).spec_stats().packets_sent + 1) as u64,
                    packets_lost: (old(self).spec_stats().packets_lost + 1) as u64,
                    ..old(self).spec_stats()
                }
            } else {
                old(self).spec_stats()
            },
            final(self).packets() == old(self).packets(),
            final(self).now() == old(self).now(),
            old(self).balanced() ==> final(self).balanced(),
            old(self).loss_within_sends() ==> final(self).loss_within_sends(),
    {
        let seq = self.next_seq;
        self.next_seq = self.next_seq + 1;
        if self.burst_remaining > 0 {
            self.burst_remaining = self.burst_remaining - 1;
            self.stats.packets_sent = self.stats.packets_sent + 1;
            self.stats.packets_lost = self.stats.packets_lost + 1;
            (seq, true)
        } else {
            (seq, false)
        }
    }

    /// Counts the packet being sent as sent and lost, and drops the next
    /// `burst` packets too (zero for a single loss).
    pub fn lose(&mut self, burst: u32)
        requires
            old(self).spec_stats().packets_sent < u64::MAX,
            old(self).spec_stats().packets_lost < u64::MAX,
        ensures
            final(self).burst() == burst,
            final(self).spec_stats() == (ChaosStats {
                packets_sent: (old(self).spec_stats().packets_sent + 1) as u64,
                packets_lost: (old(self).spec_stats().packets_lost + 1) as u64,
                ..old(self).spec_stats()
            }),
            final(self).packets() == old(self).packets(),
            final(self).now() == old(self).now(),
            final(self).seq_counter() == old(self).seq_counter(),
            old(self).balanced() ==> final(self).balanced(),
            old(self).loss_within_sends() ==> final(self).loss_within_sends(),
    {
        self.stats.packets_sent = self.stats.packets_sent + 1;
        self.stats.packets_lost = self.stats.packets_lost + 1;
        self.burst_remaining = burst;
    }

    /// Where a reorder draw came out for reordering (`rolled`), and packets
    /// are in flight, the largest distance from the back at which the packet
    /// may be inserted: `depth`, or fewer where fewer packets are in flight.
    pub fn reorder_bound(&self, rolled: bool, depth: u32) -> (r: Option<u32>)
        ensures
            r == if rolled && self.packets().len() > 0 {
                Some(
                    if (depth as int) <= (self.packets().len() as u32) {
                        depth
                    } else {
                        self.packets().len() as u32
                    },
                )
            } else {
                None::<u32>
            },
    {
        if rolled && self.in_flight.len() > 0 {
            #[verifier::truncate]
            let n = self.in_flight.len() as u32;
            if depth <= n {
                Some(depth)
            } else {
                Some(n)
            }
        } else {
            None
        }
    }

    /// Counts the packet being sent as sent and puts it in flight, due
    /// `latency_ns` from now, and returns its delivery time. With `reorder` set to `Some(pos)` and packets in
    /// flight, the packet goes `pos` places before the back (or to the
    /// front) and counts as reordered; otherwise it goes to the back.
    pub fn enqueue(&mut self, data: Vec<u8>, latency_ns: u64, seq: u64, reorder: Option<u32>) -> (delivery: u64)
        requires
            old(self).well_formed(),
            old(self).now() + latency_ns <= u64::MAX,
            old(self).spec_stats().packets_sent < u64::MAX,
            reorder is Some && old(self).packets().len() > 0 ==> old(self).spec_stats().packets_reordered < u64::MAX,
        ensures
            final(self).well_formed(),
            delivery == old(self).now() + latency_ns,
            ({
                let p = ChaosPacket {
                    data,
                    delivery_time_ns: delivery,
                    send_time_ns: old(self).now(),
                    seq,
                };
                let n = old(self).packets().len();
                match reorder {
                    Some(pos) if n > 0 => {
                        &&& final(self).packets() == old(self).packets().insert(
                            if pos <= n { n - pos } else { 0 },
                            p,
                        )
                        &&& final(self).spec_stats() == (ChaosStats {
                            packets_sent: (old(self).spec_stats().packets_sent + 1) as u64,
                            packets_reordered: (old(self).spec_stats().packets_reordered + 1) as u64,
                            ..old(self).spec_stats()
                        })
                    },
                    _ => {
                        &&& final(self).packets() == old(self).packets().push(p)
                        &&& final(self).spec_stats() == (ChaosStats {
                            packets_sent: (old(self).spec_stats().packets_sent + 1) as u64,
                            ..old(self).spec_stats()
                        })
                    },
                }
            }),
            final(self).now() == old(self).now(),
            final(self).burst() == old(self).burst(),
            final(self).seq_counter() == old(self).seq_counter(),
            old(self).balanced() ==> final(self).balanced(),
            old(self).loss_within_sends() ==> final(self).loss_within_sends(),
    {
        self.stats.packets_sent = self.stats.packets_sent + 1;
        let delivery = self.current_time_ns + latency_ns;
        let p = ChaosPacket { data, delivery_time_ns: delivery, send_time_ns: self.current_time_ns, seq };
        let n = self.in_flight.len();
        let ghost before = self.in_flight@;
        match reorder {
            Some(pos) if n > 0 => {
                let pos = pos as usize;
                let at = if pos <= n { n - pos } else { 0 };
                self.in_flight.insert(at, p);
                self.stats.packets_reordered = self.stats.packets_reordered + 1;
                proof {
                    assert forall|i: int| 0 <= i < self.in_flight@.len() implies (
                    #[trigger] self.in_flight@[i]).send_time_ns
                        <= self.in_flight@[i].delivery_time_ns by {
                        if i < at {
                            assert(self.in_flight@[i] == before[i]);
                        } else if i > at {
                            assert(self.in_flight@[i] == before[i - 1]);
                        }
                    }
                }
            },
            _ => {
                self.in_flight.push_back(p);
                proof {
                    assert forall|i: int| 0 <= i < self.in_flight@.len() implies (
                    #[trigger] self.in_flight@[i]).send_time_ns
                        <= self.in_flight@[i].delivery_time_ns by {
                        if i < before.len() {
                            assert(self.in_flight@[i] == before[i]);
                        }
                    }
                }
            },
        }
        delivery
    }

    /// Puts a duplicate of a packet in flight, sent now and due `extra_ns`
    /// after the original's delivery time, at the back; counts it as duplicated.
    pub fn enqueue_duplicate(&mut self, data: Vec<u8>, delivery_ns: u64, extra_ns: u64, seq: u64)
        requires
            old(self).well_formed(),
            old(self).now() <= delivery_ns,
            delivery_ns + extra_ns <= u64::MAX,
            old(self).spec_stats().packets_duplicated < u64::MAX,
        ensures
            final(self).well_formed(),
            final(self).packets() == old(self).packets().push(
                ChaosPacket {
                    data,
                    delivery_time_ns: (delivery_ns + extra_ns) as u64,
                    send_time_ns: old(self).now(),
                    seq,
                },
            ),
            final(self).spec_stats() == (ChaosStats {
                packets_duplicated: (old(self).spec_stats().packets_duplicated + 1) as u64,
                ..old(self).spec_stats()
            }),
            final(self).now() == old(self).now(),
            final(self).burst() == old(self).burst(),
            final(self).seq_counter() == old(self).seq_counter(),
            old(self).balanced() ==> final(self).balanced(),
            old(self).loss_within_sends() ==> final(self).loss_within_sends(),
    {
        let ghost before = self.in_flight@;
        let p = ChaosPacket {
            data,
            delivery_time_ns: delivery_ns + extra_ns,
            send_time_ns: self.current_time_ns,
            seq,
        };
        let ghost gp = p;
        self.in_flight.push_back(p);
        self.stats.packets_duplicated = self.stats.packets_duplicated + 1;
        proof {
            assert forall|i: int| 0 <= i < self.in_flight@.len() implies (
            #[trigger] self.in_flight@[i]).send_time_ns <= self.in_flight@[i].delivery_time_ns by {
                if i < before.len() {
                    assert(self.in_flight@[i] == before[i]);
                    assert(old(self).packets()[i] == before[i]);
                } else {
                    assert(i == before.len());
                    assert(self.in_flight@[i] == gp);
                    assert(gp.send_time_ns <= gp.delivery_time_ns);
                }
            }
        }
    }

    /// How many more packets the current loss burst drops.
    pub fn burst_remaining(&self) -> (r: u32)
        ensures
            r == self.burst(),
    {
        self.burst_remaining
    }

    /// Sends one packet: it gets the next sequence number and counts as sent.
    /// While a loss burst lasts it is lost to the burst, whatever `draw` says;
    /// otherwise it is lost, starts a burst, or travels, as `draw` says. A lost
    /// packet is counted as lost and never put in flight. Returns whether the
    /// packet was put in flight.
    pub fn send(&mut self, data: Vec<u8>, draw: SendDraw) -> (queued: bool)
        requires
            old(self).well_formed(),
            old(self).seq_counter() < u64::MAX,
            old(self).spec_stats().packets_sent < u64::MAX,
            old(self).spec_stats().packets_lost < u64::MAX,
            old(self).burst() == 0 ==> match draw {
                SendDraw::Travel { latency_ns, reorder, duplicate_extra_ns } => {
                    &&& old(self).now() + latency_ns <= u64::MAX
                    &&& reorder is Some && old(self).packets().len() > 0
                        ==> old(self).spec_stats().packets_reordered < u64::MAX
                    &&& duplicate_extra_ns matches Some(extra) ==> old(self).now() + latency_ns + extra
                        <= u64::MAX && old(self).spec_stats().packets_duplicated < u64::MAX
                },
                _ => true,
            },
        ensures
            final(self).well_formed(),
            queued == !send_lost(old(self).burst(), draw),
            final(self).now() == old(self).now(),
            final(self).seq_counter() == old(self).seq_counter() + 1,
            final(self).burst() == if old(self).burst() > 0 {
                (old(self).burst() - 1) as u32
            } else {
                match draw {
                    SendDraw::BurstStart(b) => b,
                    _ => 0u32,
                }
            },
            final(self).spec_stats().packets_sent == old(self).spec_stats().packets_sent + 1,
            final(self).spec_stats().packets_lost == old(self).spec_stats().packets_lost + if queued {
                0int
            } else {
                1int
            },
            final(self).spec_stats().packets_delivered == old(self).spec_stats().packets_delivered,
            final(self).spec_stats().total_latency_ms == old(self).spec_stats().total_latency_ms,
            final(self).spec_stats().max_latency_ms == old(self).spec_stats().max_latency_ms,
            final(self).spec_stats().packets_reordered == old(self).spec_stats().packets_reordered
                + if queued && draw->Travel_reorder is Some && old(self).packets().len() > 0 {
                1int
            } else {
                0int
            },
            final(self).spec_stats().packets_duplicated == old(self).spec_stats().packets_duplicated
                + if queued && draw->Travel_duplicate_extra_ns is Some {
                1int
            } else {
                0int
            },
            !queued ==> final(self).packets() == old(self).packets(),
            queued ==> packet_views(final(self).packets()) == queue_after_travel(
                old(self).packets(),
                data@,
                old(self).now(),
                old(self).seq_counter(),
                draw,
            ),
            old(self).balanced() ==> final(self).balanced(),
            old(self).loss_within_sends() ==> final(self).loss_within_sends(),
    {
        let ghost d = data@;
        let ghost q0 = self.in_flight@;
        let (seq, burst_lost) = self.begin_send();
        if burst_lost {
            return false;
        }
        match draw {
            SendDraw::BurstStart(b) => {
                self.lose(b);
                false
            },
            SendDraw::Lost => {
                self.lose(0);
                false
            },
            SendDraw::Travel { latency_ns, reorder, duplicate_extra_ns } => {
                let copy = data.clone();
                assert(copy@ =~= d);
                let delivery = self.enqueue(data, latency_ns, seq, reorder);
                let ghost q1 = self.in_flight@;
                let ghost n = q0.len();
                let ghost p = (d, (old(self).now() + latency_ns) as u64, old(self).now(), seq);
                proof {
                    match reorder {
                        Some(pos) => {
                            if n > 0 {
                                assert(packet_views(q1) =~= packet_views(q0).insert(
                                    if pos <= n { n - pos } else { 0 },
                                    p,
                                ));
                            } else {
                                assert(packet_views(q1) =~= packet_views(q0).push(p));
                            }
                        },
                        None => {
                            assert(packet_views(q1) =~= packet_views(q0).push(p));
                        },
                    }
                }
                match duplicate_extra_ns {
                    Some(extra) => {
                        self.enqueue_duplicate(copy, delivery, extra, seq);
                        assert(packet_views(self.in_flight@) =~= packet_views(q1).push(
                            (d, (old(self).now() + latency_ns + extra) as u64, old(self).now(), seq),
                        ));
                    },
                    None => {},
                }
                true
            },
        }
    }

    /// Whether [`Self::tick`] by `dt_ns` stays within the range of the clock
    /// and of the delivery statistics.
    pub open spec fn tick_fits(&self, dt_ns: u64) -> bool {
        let now = self.now() + dt_ns;
        let k = due_count(self.packets(), now as u64);
        &&& now <= u64::MAX
        &&& self.spec_stats().packets_delivered + k <= u64::MAX
        &&& self.spec_stats().total_latency_ms + latency_sum(self.packets().take(k as int))
            <= u64::MAX
    }

    /// Whether [`Self::tick`] by `dt_ns` stays within range (see [`Self::tick_fits`]).
    pub fn can_tick(&self, dt_ns: u64) -> (r: bool)
        requires
            self.well_formed(),
        ensures
            r == self.tick_fits(dt_ns),
    {
        if self.current_time_ns > u64::MAX - dt_ns {
            return false;
        }
        let now = self.current_time_ns + dt_ns;
        let ghost q = self.in_flight@;
        let ghost k = due_count(q, now) as int;
        proof {
            lemma_due_count_le(q, now);
        }
        let n = self.in_flight.len();
        let mut j: usize = 0;
        let mut sum: u64 = self.stats.total_latency_ms;
        assert(q.skip(0) =~= q);
        assert(q.take(0) =~= Seq::<ChaosPacket>::empty());
        assert forall|i: int| 0 <= i < q.len() implies q[i].send_time_ns <= #[trigger] q[i].delivery_time_ns by {
            assert(self.packets()[i] == q[i]);
        }
        while j < n && self.in_flight[j].delivery_time_ns <= now
            invariant
                n == q.len(),
                q == self.in_flight@,
                self.well_formed(),
                now == self.current_time_ns + dt_ns,
                k == due_count(q, now),
                0 <= j <= k <= q.len(),
                due_count(q.skip(j as int), now) == k - j,
                sum == self.stats.total_latency_ms + latency_sum(q.take(j as int)),
                forall|i: int| 0 <= i < q.len() ==> q[i].send_time_ns <= #[trigger] q[i].delivery_time_ns,
            decreases n - j,
        {
            let ghost rest = q.skip(j as int);
            proof {
                assert(rest[0] == q[j as int]);
                assert(due_count(rest, now) == 1 + due_count(rest.drop_first(), now));
                assert(rest.drop_first() =~= q.skip(j + 1));
                assert(q.take(j + 1).drop_last() =~= q.take(j as int));
                assert(q.take(j + 1).last() == q[j as int]);
                assert(q[j as int].send_time_ns <= q[j as int].delivery_time_ns);
            }
            let p = &self.in_flight[j];
            let latency: u64 = (p.delivery_time_ns - p.send_time_ns) / 1_000_000;
            if sum > u64::MAX - latency {
                proof {
                    assert(latency == latency_ms(q[j as int]));
                    assert(latency_sum(q.take(j + 1)) == latency_sum(q.take(j as int)) + latency);
                    lemma_latency_sum_mono(q, j + 1, k);
                    assert(self.stats.total_latency_ms + latency_sum(q.take(k)) > u64::MAX);
                    assert(k == due_count(self.packets(), (self.now() + dt_ns) as u64));
                }
                return false;
            }
            sum = sum + latency;
            j = j + 1;
        }
        proof {
            if j < n {
                assert(q.skip(j as int)[0] == q[j as int]);
            } else {
                assert(q.skip(j as int).len() == 0);
            }
        }
        self.stats.packets_delivered <= u64::MAX - j as u64
    }

    /// Advances the clock by `dt_ns` and delivers, front first, every packet
    /// at the front that is due by the new time; delivery stops at the first
    /// packet that is not due. Each delivered packet adds its latency in
    /// whole milliseconds to the statistics.
    #[verifier::spinoff_prover]
    #[verifier::rlimit(40)]
    pub fn tick(&mut self, dt_ns: u64) -> (delivered: Vec<Vec<u8>>)
        requires
            old(self).well_formed(),
            old(self).tick_fits(dt_ns),
        ensures
            final(self).well_formed(),
            final(self).now() == old(self).now() + dt_ns,
            ({
                let k = due_count(old(self).packets(), final(self).now()) as int;
                let sent = old(self).packets().take(k);
                &&& delivered@ == packet_data(sent)
                &&& final(self).packets() == old(self).packets().skip(k)
                &&& final(self).spec_stats() == (ChaosStats {
                    packets_delivered: (old(self).spec_stats().packets_delivered + k) as u64,
                    total_latency_ms: (old(self).spec_stats().total_latency_ms + latency_sum(sent)) as u64,
                    max_latency_ms: latency_max(old(self).spec_stats().max_latency_ms as int, sent) as u64,
                    ..old(self).spec_stats()
                })
            }),
            delivered@.len() == final(self).spec_stats().packets_delivered
                - old(self).spec_stats().packets_delivered,
            final(self).burst() == old(self).burst(),
            final(self).seq_counter() == old(self).seq_counter(),
            old(self).balanced() ==> final(self).balanced(),
            old(self).loss_within_sends() ==> final(self).loss_within_sends(),
    {
        self.current_time_ns = self.current_time_ns + dt_ns;
        let now = self.current_time_ns;
        let ghost q = self.in_flight@;
        let ghost k = due_count(q, now) as int;
        let ghost s0 = self.stats;
        proof {
            lemma_due_count_le(q, now);
        }
        let n0 = self.in_flight.len();
        let mut delivered: Vec<Vec<u8>> = Vec::new();
        let mut j: usize = 0;
        assert(q.skip(0) =~= q);
        assert(q.take(0) =~= Seq::<ChaosPacket>::empty());
        assert(latency_sum(q.take(0)) == 0);
        while self.in_flight.len() > 0 && self.in_flight[0].delivery_time_ns <= now
            invariant
                now == self.current_time_ns,
                0 <= j <= k <= q.len() == n0,
                0 <= latency_sum(q.take(j as int)),
                self.in_flight@ == q.skip(j as int),
                due_count(q.skip(j as int), now) == k - j,
                delivered@ == packet_data(q.take(j as int)),
                forall|i: int| 0 <= i < q.len() ==> q[i].send_time_ns <= #[trigger] q[i].delivery_time_ns,
                s0.packets_delivered + k <= u64::MAX,
                s0.total_latency_ms + latency_sum(q.take(k)) <= u64::MAX,
                self.stats == (ChaosStats {
                    packets_delivered: (s0.packets_delivered + j) as u64,
                    total_latency_ms: (s0.total_latency_ms + latency_sum(q.take(j as int))) as u64,
                    max_latency_ms: latency_max(s0.max_latency_ms as int, q.take(j as int)) as u64,
                    ..s0
                }),
                0 <= latency_max(s0.max_latency_ms as int, q.take(j as int)) <= u64::MAX,
                self.burst_remaining == old(self).burst_remaining,
                self.next_seq == old(self).next_seq,
            decreases self.in_flight@.len(),
        {
            let ghost rest = self.in_flight@;
            proof {
                assert(rest[0] == q[j as int]);
                assert(rest.len() > 0 && rest[0].delivery_time_ns <= now);
                assert(due_count(rest, now) == 1 + due_count(rest.drop_first(), now));
                assert(j < k);
                assert(rest.drop_first() =~= q.skip(j + 1));
                assert(q.take(j + 1).drop_last() =~= q.take(j as int));
                assert(q.take(j + 1).last() == q[j as int]);
                lemma_latency_sum_mono(q, j + 1, k);
            }
            let p = self.in_flight.pop_front().unwrap();
            let latency: u64 = (p.delivery_time_ns - p.send_time_ns) / 1_000_000;
            assert(latency == latency_ms(q[j as int]));
            assert(latency_sum(q.take(j + 1)) == latency_sum(q.take(j as int)) + latency);
            self.stats.packets_delivered = self.stats.packets_delivered + 1;
            self.stats.total_latency_ms = self.stats.total_latency_ms + latency;
            if latency > self.stats.max_latency_ms {
                self.stats.max_latency_ms = latency;
            }
            delivered.push(p.data);
            j = j + 1;
            proof {
                assert(self.in_flight@ =~= q.skip(j as int));
                assert(delivered@ =~= packet_data(q.take(j as int)));
            }
        }
        proof {
            if self.in_flight@.len() == 0 {
                assert(q.skip(j as int).len() == 0);
            }
        }
        delivered
    }

    /// The link's statistics.
    pub fn stats(&self) -> (r: &ChaosStats)
        ensures
            *r == self.spec_stats(),
    {
        &self.stats
    }

    /// Sets every statistic back to zero.
    pub fn reset_stats(&mut self)
        ensures
            final(self).spec_stats() == zero_stats(),
            final(self).loss_within_sends(),
            final(self).packets() == old(self).packets(),
            final(self).now() == old(self).now(),
            final(self).burst() == old(self).burst(),
            final(self).seq_counter() == old(self).seq_counter(),
    {
        self.stats = ChaosStats::default();
    }

    /// The link's clock, in nanoseconds since its start.
    pub fn current_time_ns(&self) -> (r: u64)
        ensures
            r == self.now(),
    {
        self.current_time_ns
    }

    /// Number of packets in flight.
    pub fn in_flight_len(&self) -> (r: usize)
        ensures
            r == self.packets().len(),
    {
        self.in_flight.len()
    }
}

} // verus!
