//! Retry orchestration over whole exchanges, and device discovery.
use vstd::prelude::*;
use crate::addr::{ipv4_to_u32, ipv4_value, SockAddr};
use crate::ctrl_msg::CtrlMsg;
use crate::engine::{CmdReplySummary, SummaryModel};
use crate::model::Msg;

verus! {

/// The lock states a status reply reports once the device is ready.
pub const LOCKED_A: u32 = 0x3f;
pub const LOCKED_B: u32 = 0x2f;

/// Which answered targets still count as outstanding.
#[derive(Clone, Copy, Debug, PartialEq, Eq, Structural)]
pub enum Predicate {
    /// Any answer settles a target.
    AnyReply,
    /// A target is settled once its status reply reports a locked state;
    /// a status reply in another state asks for another round.
    Locked,
}

/// Bounds of a retry loop: how many rounds, and the pause before each retry.
#[derive(Clone, Copy, Debug, PartialEq, Eq, Structural)]
pub struct RetryPolicy {
    /// Rounds after which the loop gives up; `None` retries without end.
    pub max_attempts: Option<u32>,
    /// Pause before the first retry, in milliseconds.
    pub interval_ms: u64,
    /// Factor by which each pause exceeds the previous one (1 keeps it fixed).
    pub backoff: u64,
    /// Upper bound of any pause, in milliseconds.
    pub max_interval_ms: u64,
}

/// What to do after a round.
#[derive(Debug)]
pub enum RetryDecision {
    /// No target is outstanding.
    Done,
    /// Targets are outstanding, but the rounds are spent.
    GiveUp { outstanding: Vec<SockAddr> },
    /// Pause for `delay_ms`, then run another round against `targets`.
    Retry { targets: Vec<SockAddr>, delay_ms: u64 },
}

pub open spec fn min_u64(a: int, b: int) -> int {
    if a <= b {
        a
    } else {
        b
    }
}

impl RetryPolicy {
    /// The pause before retry number `attempt` (the first retry is 0).
    pub open spec fn delay(self, attempt: nat) -> int
        decreases attempt,
    {
        if attempt == 0 {
            min_u64(self.interval_ms as int, self.max_interval_ms as int)
        } else {
            min_u64(self.delay((attempt - 1) as nat) * self.backoff, self.max_interval_ms as int)
        }
    }

    pub fn delay_ms(&self, attempt: u32) -> (r: u64)
        ensures
            r == self.delay(attempt as nat),
    {
        let mut d: u64 = if self.interval_ms <= self.max_interval_ms {
            self.interval_ms
        } else {
            self.max_interval_ms
        };
        let mut k: u32 = 0;
        while k < attempt
            invariant
                k <= attempt,
                d == self.delay(k as nat),
                d <= self.max_interval_ms,
            decreases attempt - k,
        {
            let next: u64 = match d.checked_mul(self.backoff) {
                Some(p) => if p <= self.max_interval_ms {
                    p
                } else {
                    self.max_interval_ms
                },
                None => self.max_interval_ms,
            };
            proof {
                if d * self.backoff > u64::MAX {
                    assert(d * self.backoff > self.max_interval_ms);
                }
            }
            d = next;
            k = k + 1;
        }
        d
    }
}

/// Whether a reply reports a locked state.
pub open spec fn locked_reply(m: Msg) -> bool {
    m matches Msg::QueryReply { locked, .. } && (locked == LOCKED_A || locked == LOCKED_B)
}

/// Whether an answered target still asks for another round.
pub open spec fn unsettled(pred: Predicate, m: Msg) -> bool {
    pred == Predicate::Locked && m is QueryReply && !locked_reply(m)
}

/// The first address of each unanswered target that resolved to any.
pub open spec fn first_addrs(nr: Seq<(Seq<SockAddr>, u32)>) -> Seq<SockAddr>
    decreases nr.len(),
{
    if nr.len() == 0 {
        Seq::empty()
    } else {
        let prev = first_addrs(nr.drop_last());
        if nr.last().0.len() > 0 {
            prev.push(nr.last().0[0])
        } else {
            prev
        }
    }
}

/// The senders of the replies that leave their target unsettled.
pub open spec fn unsettled_senders(rs: Seq<(SockAddr, Msg)>, pred: Predicate) -> Seq<SockAddr>
    decreases rs.len(),
{
    if rs.len() == 0 {
        Seq::empty()
    } else {
        let prev = unsettled_senders(rs.drop_last(), pred);
        if unsettled(pred, rs.last().1) {
            prev.push(rs.last().0)
        } else {
            prev
        }
    }
}

/// The targets of the next round: those that did not answer, then those
/// whose reply fails the predicate.
pub open spec fn outstanding(s: SummaryModel, pred: Predicate) -> Seq<SockAddr> {
    first_addrs(s.no_reply) + unsettled_senders(s.normal_reply, pred)
}

/// Whether a reply reports a locked state.
pub fn is_locked(m: &CtrlMsg) -> (r: bool)
    ensures
        r == locked_reply(m@),
{
    match m {
        CtrlMsg::QueryReply { locked, .. } => *locked == LOCKED_A || *locked == LOCKED_B,
        _ => false,
    }
}

/// The targets that the next round is for.
pub fn outstanding_targets(summary: &CmdReplySummary, pred: Predicate) -> (r: Vec<SockAddr>)
    ensures
        r@ == outstanding(summary@, pred),
{
    let mut r: Vec<SockAddr> = Vec::new();
    let mut i: usize = 0;
    while i < summary.no_reply.len()
        invariant
            i <= summary.no_reply@.len(),
            r@ == first_addrs(summary@.no_reply.subrange(0, i as int)),
        decreases summary.no_reply@.len() - i,
    {
        let addrs = &summary.no_reply[i].0;
        if addrs.len() > 0 {
            r.push(addrs[0]);
        }
        i = i + 1;
        assert(summary@.no_reply.subrange(0, i as int).drop_last() =~= summary@.no_reply.subrange(
            0,
            i - 1,
        ));
    }
    assert(summary@.no_reply.subrange(0, i as int) =~= summary@.no_reply);
    let ghost firsts = r@;
    let mut j: usize = 0;
    while j < summary.normal_reply.len()
        invariant
            j <= summary.normal_reply@.len(),
            firsts == first_addrs(summary@.no_reply),
            r@ == firsts + unsettled_senders(summary@.normal_reply.subrange(0, j as int), pred),
        decreases summary.normal_reply@.len() - j,
    {
        let m = &summary.normal_reply[j].1;
        let keep = match pred {
            Predicate::Locked => match m {
                CtrlMsg::QueryReply { .. } => !is_locked(m),
                _ => false,
            },
            Predicate::AnyReply => false,
        };
        if keep {
            r.push(summary.normal_reply[j].0);
        }
        j = j + 1;
        assert(summary@.normal_reply.subrange(0, j as int).drop_last()
            =~= summary@.normal_reply.subrange(0, j - 1));
        assert(r@ =~= firsts + unsettled_senders(
            summary@.normal_reply.subrange(0, j as int),
            pred,
        ));
    }
    assert(summary@.normal_reply.subrange(0, j as int) =~= summary@.normal_reply);
    r
}

/// The decision after round number `attempts` (the first round is 1): done
/// when nothing is outstanding, give up when the rounds are spent, and
/// otherwise retry the outstanding targets after the policy's pause.
pub fn next_round(policy: &RetryPolicy, attempts: u32, summary: &CmdReplySummary, pred: Predicate) -> (r:
    RetryDecision)
    ensures
        outstanding(summary@, pred).len() == 0 ==> r is Done,
        outstanding(summary@, pred).len() > 0 && (policy.max_attempts matches Some(m) && attempts
            >= m) ==> (r matches RetryDecision::GiveUp { outstanding: o } && o@ == outstanding(
            summary@,
            pred,
        )),
        outstanding(summary@, pred).len() > 0 && !(policy.max_attempts matches Some(m) && attempts
            >= m) ==> (r matches RetryDecision::Retry { targets, delay_ms } && targets@
            == outstanding(summary@, pred) && delay_ms == policy.delay(
            (if attempts == 0 {
                0
            } else {
                attempts - 1
            }) as nat,
        )),
{
    let out = outstanding_targets(summary, pred);
    if out.len() == 0 {
        return RetryDecision::Done;
    }
    match policy.max_attempts {
        Some(m) => {
            if attempts >= m {
                return RetryDecision::GiveUp { outstanding: out };
            }
        },
        None => {},
    }
    let k = if attempts == 0 {
        0
    } else {
        attempts - 1
    };
    RetryDecision::Retry { targets: out, delay_ms: policy.delay_ms(k) }
}

/// IPv4 senders of the replies, as numbers, in arrival order.
pub open spec fn v4_senders(rs: Seq<(SockAddr, Msg)>) -> Seq<u32>
    decreases rs.len(),
{
    if rs.len() == 0 {
        Seq::empty()
    } else {
        let rest = v4_senders(rs.skip(1));
        match rs[0].0 {
            SockAddr::V4 { ip, .. } => seq![ipv4_value(ip@)] + rest,
            SockAddr::V6 { .. } => rest,
        }
    }
}

/// The devices that answered a discovery query: the IPv4 address of each
/// normal reply, first octet most significant, at most `max_n` of them.
pub fn found_devices(summary: &CmdReplySummary, max_n: usize) -> (r: Vec<u32>)
    ensures
        r@ == v4_senders(summary@.normal_reply).take(
            min_u64(max_n as int, v4_senders(summary@.normal_reply).len() as int),
        ),
{
    let ghost all = summary@.normal_reply;
    let mut r: Vec<u32> = Vec::new();
    let mut i: usize = 0;
    assert(all.skip(0) =~= all);
    assert(r@ + v4_senders(all) =~= v4_senders(all));
    while i < summary.normal_reply.len()
        invariant
            i <= all.len(),
            all == summary@.normal_reply,
            r@ + v4_senders(all.skip(i as int)) == v4_senders(all),
            r@.len() <= max_n,
        decreases all.len() - i,
    {
        if r.len() >= max_n {
            assert(v4_senders(all).take(max_n as int) =~= r@);
            return r;
        }
        let a = summary.normal_reply[i].0;
        assert(all.skip(i as int).skip(1) =~= all.skip(i + 1));
        assert(all.skip(i as int)[0] == all[i as int]);
        match a {
            SockAddr::V4 { ip, .. } => {
                let v = ipv4_to_u32(ip);
                let ghost before = r@;
                r.push(v);
                assert(r@ + v4_senders(all.skip(i + 1)) =~= before + (seq![v] + v4_senders(
                    all.skip(i + 1),
                )));
            },
            SockAddr::V6 { .. } => {},
        }
        i = i + 1;
    }
    assert(all.skip(i as int) =~= Seq::<(SockAddr, Msg)>::empty());
    assert(r@ + Seq::<u32>::empty() =~= r@);
    assert(v4_senders(all).take(v4_senders(all).len() as int) =~= r@);
    r
}

} // verus!
