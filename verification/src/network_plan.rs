//! The plain logic of the UDP network test: which messages are sent in what
//! order, their text, the frame a NAT relay routes by, the check of the
//! test's counts and the violations a run reports.
use vstd::prelude::*;

use crate::text::{decimal, push_decimal, push_text, text_views};

verus! {

/// The text of message `msg_num` of node `sender`: `msg_<sender>_<msg_num>`.
pub open spec fn message_text(sender: nat, msg_num: nat) -> Seq<char> {
    "msg_"@ + decimal(sender) + "_"@ + decimal(msg_num)
}

/// The text of message `msg_num` sent by node `sender`.
pub fn message_payload(sender: usize, msg_num: usize) -> (r: String)
    ensures
        r@ == message_text(sender as nat, msg_num as nat),
{
    let mut r = String::new();
    push_text(&mut r, "msg_");
    push_decimal(&mut r, sender as u64);
    push_text(&mut r, "_");
    push_decimal(&mut r, msg_num as u64);
    r
}

/// A relay frame: the destination index as two little-endian bytes, then the payload.
pub open spec fn relay_frame(dest: u16, payload: Seq<u8>) -> Seq<u8> {
    seq![(dest % 256) as u8, (dest / 256) as u8] + payload
}

/// Frames `payload` for the relay, addressed to node `dest`.
pub fn build_relay_frame(dest: u16, payload: &[u8]) -> (r: Vec<u8>)
    ensures
        r@ == relay_frame(dest, payload@),
{
    let mut r: Vec<u8> = Vec::new();
    r.push((dest % 256) as u8);
    r.push((dest / 256) as u8);
    let mut i: usize = 0;
    while i < payload.len()
        invariant
            0 <= i <= payload@.len(),
            r@ == seq![(dest % 256) as u8, (dest / 256) as u8] + payload@.subrange(0, i as int),
        decreases payload@.len() - i,
    {
        r.push(payload[i]);
        i = i + 1;
        assert(r@ =~= seq![(dest % 256) as u8, (dest / 256) as u8] + payload@.subrange(0, i as int));
    }
    assert(payload@.subrange(0, payload@.len() as int) =~= payload@);
    r
}

/// Reads a relay frame: the destination index and where the payload starts,
/// or `None` when the frame is shorter than its two-byte header.
pub fn parse_nat_payload(buf: &[u8]) -> (r: Option<(usize, usize)>)
    ensures
        buf@.len() < 2 ==> r is None,
        buf@.len() >= 2 ==> r == Some(((buf@[0] as int + 256 * buf@[1] as int) as usize, 2usize)),
{
    if buf.len() < 2 {
        return None;
    }
    let dest: usize = buf[0] as usize + 256 * (buf[1] as usize);
    Some((dest, 2))
}

/// One send of the network test: (sender, message number, receiver).
pub type PlannedSend = (usize, usize, usize);

/// The sends of a test with `n` nodes and `m` messages per node, in order:
/// by sender, then message number, then receiver, each node sending each
/// message to every node but itself.
pub open spec fn send_plan_spec(n: nat, m: nat) -> Seq<(nat, nat, nat)> {
    Seq::new(
        n * m * (if n == 0 { 0 } else { (n - 1) as nat }),
        |k: int| {
            let per_sender = m * (n - 1);
            let s = k / per_sender;
            let r0 = k % per_sender;
            let msg = r0 / (n - 1);
            let j = r0 % (n - 1);
            let recv = if j < s { j } else { j + 1 };
            (s as nat, msg as nat, recv as nat)
        },
    )
}

/// The sends of a test, as [`send_plan_spec`] orders them.
pub fn send_plan(node_count: usize, messages_per_node: usize) -> (r: Vec<PlannedSend>)
    requires
        node_count * messages_per_node * node_count <= usize::MAX,
    ensures
        r@.len() == send_plan_spec(node_count as nat, messages_per_node as nat).len(),
        forall|k: int|
            0 <= k < r@.len() ==> {
                let e = send_plan_spec(node_count as nat, messages_per_node as nat)[k];
                &&& (#[trigger] r@[k]).0 == e.0
                &&& r@[k].1 == e.1
                &&& r@[k].2 == e.2
            },
{
    let mut r: Vec<PlannedSend> = Vec::new();
    let ghost n = node_count as nat;
    let ghost m = messages_per_node as nat;
    let ghost per = m * (if n == 0 { 0 } else { (n - 1) as nat });
    if node_count < 2 || messages_per_node == 0 {
        proof {
            if n == 0 {
                assert(n * m * 0 == 0) by (nonlinear_arith);
            } else if n == 1 {
                assert(n * m * 0 == 0) by (nonlinear_arith);
            } else {
                assert(n * 0 * ((n - 1) as nat) == 0) by (nonlinear_arith);
            }
        }
        return r;
    }
    let mut s: usize = 0;
    while s < node_count
        invariant
            2 <= node_count,
            1 <= messages_per_node,
            n == node_count,
            m == messages_per_node,
            per == m * ((n - 1) as nat),
            node_count * messages_per_node * node_count <= usize::MAX,
            0 <= s <= node_count,
            r@.len() == s * per,
            forall|k: int|
                0 <= k < r@.len() ==> {
                    let e = send_plan_spec(n, m)[k];
                    &&& (#[trigger] r@[k]).0 == e.0
                    &&& r@[k].1 == e.1
                    &&& r@[k].2 == e.2
                },
        decreases node_count - s,
    {
        let mut msg: usize = 0;
        while msg < messages_per_node
            invariant
                2 <= node_count,
                1 <= messages_per_node,
                n == node_count,
                m == messages_per_node,
                per == m * ((n - 1) as nat),
                node_count * messages_per_node * node_count <= usize::MAX,
                0 <= s < node_count,
                0 <= msg <= messages_per_node,
                r@.len() == s * per + msg * ((n - 1) as nat),
                forall|k: int|
                    0 <= k < r@.len() ==> {
                        let e = send_plan_spec(n, m)[k];
                        &&& (#[trigger] r@[k]).0 == e.0
                        &&& r@[k].1 == e.1
                        &&& r@[k].2 == e.2
                    },
            decreases messages_per_node - msg,
        {
            let mut recv: usize = 0;
            while recv < node_count
                invariant
                    2 <= node_count,
                    1 <= messages_per_node,
                    n == node_count,
                    m == messages_per_node,
                    per == m * ((n - 1) as nat),
                    node_count * messages_per_node * node_count <= usize::MAX,
                    0 <= s < node_count,
                    0 <= msg < messages_per_node,
                    0 <= recv <= node_count,
                    r@.len() == s * per + msg * ((n - 1) as nat) + (if recv <= s {
                        recv as int
                    } else {
                        recv - 1
                    }),
                    forall|k: int|
                        0 <= k < r@.len() ==> {
                            let e = send_plan_spec(n, m)[k];
                            &&& (#[trigger] r@[k]).0 == e.0
                            &&& r@[k].1 == e.1
                            &&& r@[k].2 == e.2
                        },
                decreases node_count - recv,
            {
                if recv != s {
                    let ghost k = r@.len() as int;
                    let ghost j: int = if recv < s { recv as int } else { recv - 1 };
                    proof {
                        lemma_plan_entry(n, m, s as int, msg as int, j);
                        assert(k == s * per + msg * ((n - 1) as nat) + j);
                    }
                    r.push((s, msg, recv));
                }
                recv = recv + 1;
            }
            msg = msg + 1;
            proof {
                assert(r@.len() == s * per + (msg - 1) * ((n - 1) as nat) + (n - 1));
                assert((msg - 1) * ((n - 1) as nat) + (n - 1) == msg * ((n - 1) as nat))
                    by (nonlinear_arith)
                    requires
                        n >= 2,
                ;
            }
        }
        s = s + 1;
        proof {
            assert(r@.len() == (s - 1) * per + m * ((n - 1) as nat));
            assert((s - 1) * per + per == s * per) by (nonlinear_arith);
        }
    }
    proof {
        assert(n * per == n * m * ((n - 1) as nat)) by (nonlinear_arith)
            requires
                per == m * ((n - 1) as nat),
        ;
    }
    r
}

proof fn lemma_plan_entry(n: nat, m: nat, s: int, msg: int, j: int)
    requires
        2 <= n,
        1 <= m,
        0 <= s < n,
        0 <= msg < m,
        0 <= j < n - 1,
    ensures
        ({
            let per: int = m * (n - 1);
            let k = s * per + msg * (n - 1) + j;
            &&& 0 <= k < send_plan_spec(n, m).len()
            &&& send_plan_spec(n, m)[k] == (
                s as nat,
                msg as nat,
                (if j < s { j } else { j + 1 }) as nat,
            )
        }),
{
    let per: int = m * (n - 1);
    let k = s * per + msg * (n - 1) + j;
    let r0 = msg * (n - 1) + j;
    assert(0 <= r0 < per) by (nonlinear_arith)
        requires
            per == m * (n - 1),
            0 <= msg < m,
            0 <= j < n - 1,
            r0 == msg * (n - 1) + j,
    ;
    assert(k / per == s && k % per == r0) by (nonlinear_arith)
        requires
            k == s * per + r0,
            0 <= r0 < per,
            0 <= s,
    ;
    assert(r0 / (n - 1) == msg && r0 % (n - 1) == j) by (nonlinear_arith)
        requires
            r0 == msg * (n - 1) + j,
            0 <= j < n - 1,
            0 <= msg,
    ;
    assert(0 <= k < n * m * ((n - 1) as nat)) by (nonlinear_arith)
        requires
            k == s * per + r0,
            0 <= r0 < per,
            0 <= s < n,
            per == m * (n - 1),
    ;
}

/// Why a network test configuration is refused.
#[derive(Debug, Clone, Copy, PartialEq, Eq)]
pub enum TestConfigError {
    /// `node_count` is zero.
    NoNodes,
    /// `messages_per_node` is zero.
    NoMessages,
    /// `recv_timeout_ms` is zero.
    NoTimeout,
}

impl TestConfigError {
    /// The message the error is reported with.
    pub fn message(&self) -> (r: &'static str)
        ensures
            r@ == match *self {
                TestConfigError::NoNodes => "node_count must be greater than 0"@,
                TestConfigError::NoMessages => "messages_per_node must be greater than 0"@,
                TestConfigError::NoTimeout => "recv_timeout_ms must be greater than 0"@,
            },
    {
        match self {
            TestConfigError::NoNodes => "node_count must be greater than 0",
            TestConfigError::NoMessages => "messages_per_node must be greater than 0",
            TestConfigError::NoTimeout => "recv_timeout_ms must be greater than 0",
        }
    }
}

/// Checks the counts of a network test configuration, in this order: at
/// least one node, at least one message per node, a non-zero receive timeout.
pub fn check_test_counts(node_count: usize, messages_per_node: usize, recv_timeout_ms: u64) -> (r:
    Result<(), TestConfigError>)
    ensures
        r == if node_count == 0 {
            Err(TestConfigError::NoNodes)
        } else if messages_per_node == 0 {
            Err(TestConfigError::NoMessages)
        } else if recv_timeout_ms == 0 {
            Err(TestConfigError::NoTimeout)
        } else {
            Ok(())
        },
{
    if node_count == 0 {
        Err(TestConfigError::NoNodes)
    } else if messages_per_node == 0 {
        Err(TestConfigError::NoMessages)
    } else if recv_timeout_ms == 0 {
        Err(TestConfigError::NoTimeout)
    } else {
        Ok(())
    }
}

/// The violations a network test run reports, in this order: fewer than two
/// nodes, a NAT relay that could not start (with its error), nodes that are
/// not all alive, and sends that failed (with their number).
pub open spec fn violations_spec(
    node_count: nat,
    relay_error: Option<Seq<char>>,
    all_alive: bool,
    send_failures: nat,
) -> Seq<Seq<char>> {
    (if node_count < 2 {
        seq!["INV-0 violated: Insufficient nodes"@]
    } else {
        Seq::empty()
    }) + (match relay_error {
        Some(e) => seq!["NAT relay failed: "@ + e],
        None => Seq::empty(),
    }) + (if !all_alive {
        seq!["INV-2 violated: Not all nodes are alive"@]
    } else {
        Seq::empty()
    }) + (if send_failures > 0 {
        seq!["Send failures: "@ + decimal(send_failures)]
    } else {
        Seq::empty()
    })
}

/// The violations of a network test run with `node_count` nodes, the error
/// of a NAT relay that could not start, whether every node is alive at the
/// end, and the number of failed sends. The run keeps its invariants exactly
/// when there are none.
pub fn test_violations(
    node_count: usize,
    relay_error: Option<String>,
    all_alive: bool,
    send_failures: usize,
) -> (r: Vec<String>)
    ensures
        text_views(r@) == violations_spec(
            node_count as nat,
            match relay_error {
                Some(e) => Some(e@),
                None => None,
            },
            all_alive,
            send_failures as nat,
        ),
{
    let mut r: Vec<String> = Vec::new();
    let ghost e: Option<Seq<char>> = match &relay_error {
        Some(e) => Some(e@),
        None => None,
    };
    if node_count < 2 {
        r.push("INV-0 violated: Insufficient nodes".to_owned());
    }
    let ghost first = text_views(r@);
    assert(first =~= (if node_count < 2 {
        seq!["INV-0 violated: Insufficient nodes"@]
    } else {
        Seq::<Seq<char>>::empty()
    }));
    match &relay_error {
        Some(err) => {
            let mut m = String::new();
            push_text(&mut m, "NAT relay failed: ");
            push_text(&mut m, err.as_str());
            let ghost before = r@;
            r.push(m);
            assert(text_views(r@) =~= text_views(before).push(m@));
        },
        None => {},
    }
    let ghost second = text_views(r@);
    assert(second =~= first + (match e {
        Some(x) => seq!["NAT relay failed: "@ + x],
        None => Seq::<Seq<char>>::empty(),
    }));
    if !all_alive {
        let ghost before = r@;
        let m = "INV-2 violated: Not all nodes are alive".to_owned();
        r.push(m);
        assert(text_views(r@) =~= text_views(before).push(m@));
    }
    let ghost third = text_views(r@);
    assert(third =~= second + (if !all_alive {
        seq!["INV-2 violated: Not all nodes are alive"@]
    } else {
        Seq::<Seq<char>>::empty()
    }));
    if send_failures > 0 {
        let mut m = String::new();
        push_text(&mut m, "Send failures: ");
        push_decimal(&mut m, send_failures as u64);
        let ghost before = r@;
        r.push(m);
        assert(text_views(r@) =~= text_views(before).push(m@));
    }
    assert(text_views(r@) =~= third + (if send_failures > 0 {
        seq!["Send failures: "@ + decimal(send_failures as nat)]
    } else {
        Seq::<Seq<char>>::empty()
    }));
    r
}

} // verus!
