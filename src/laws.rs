//! Properties of whole exchanges, proved over the session models.
use vstd::prelude::*;
use crate::addr::SockAddr;
use crate::engine::{slot, token, BcastModel, Phase, SessionModel, TOKEN_SPACE};
use crate::model::{parse, Msg};

verus! {

impl SessionModel {
    /// The session after each datagram of `ds` in turn.
    pub open spec fn after_datagrams(self, ds: Seq<(SockAddr, Seq<u8>)>) -> SessionModel
        decreases ds.len(),
    {
        if ds.len() == 0 {
            self
        } else {
            self.after_datagrams(ds.drop_last()).after_datagram(ds.last().0, ds.last().1)
        }
    }
}

impl BcastModel {
    /// The exchange after each datagram of `ds` in turn.
    pub open spec fn after_datagrams(self, ds: Seq<(SockAddr, Seq<u8>)>) -> BcastModel
        decreases ds.len(),
    {
        if ds.len() == 0 {
            self
        } else {
            self.after_datagrams(ds.drop_last()).after_datagram(ds.last().0, ds.last().1)
        }
    }
}

/// The targets of one exchange get pairwise distinct tokens, and each token
/// leads back to its target.
pub proof fn lemma_tokens_distinct(base: u32, i: int, j: int)
    requires
        0 <= i < TOKEN_SPACE,
        0 <= j < TOKEN_SPACE,
        i != j,
    ensures
        token(base, i) != token(base, j),
        slot(base, token(base, i)) == i,
{
}

/// A reply of the `InvalidMsg` variant is filed under `invalid_reply` and
/// never under `normal_reply`, whatever the session has seen before.
pub proof fn lemma_rejection_is_invalid(s: SessionModel, from: SockAddr, bytes: Seq<u8>)
    requires
        parse(bytes) matches Ok(m) && m is InvalidMsg,
    ensures
        s.after_datagram(from, bytes).summary.invalid_reply == s.summary.invalid_reply.push(
            (from, parse(bytes)->Ok_0),
        ),
        s.after_datagram(from, bytes).summary.normal_reply == s.summary.normal_reply,
{
}

/// The same holds of a broadcast exchange.
pub proof fn lemma_bcast_rejection_is_invalid(b: BcastModel, from: SockAddr, bytes: Seq<u8>)
    requires
        parse(bytes) matches Ok(m) && m is InvalidMsg,
    ensures
        b.after_datagram(from, bytes).summary.invalid_reply == b.summary.invalid_reply.push(
            (from, parse(bytes)->Ok_0),
        ),
        b.after_datagram(from, bytes).summary.normal_reply == b.summary.normal_reply,
{
}

/// With no responder lost, a broadcast exchange files exactly one reply per
/// datagram that decodes: `K` responders give `K` entries.
pub proof fn lemma_bcast_one_entry_each(b: BcastModel, ds: Seq<(SockAddr, Seq<u8>)>)
    requires
        forall|k: int| 0 <= k < ds.len() ==> (#[trigger] parse(ds[k].1)) is Ok,
    ensures
        b.after_datagrams(ds).summary.replies() == b.summary.replies() + ds.len(),
    decreases ds.len(),
{
    if ds.len() > 0 {
        let init = ds.drop_last();
        assert forall|k: int| 0 <= k < init.len() implies (#[trigger] parse(init[k].1)) is Ok by {
            assert(init[k] == ds[k]);
        }
        lemma_bcast_one_entry_each(b, init);
        assert(parse(ds[ds.len() - 1].1) is Ok);
    }
}

proof fn lemma_unanswered_empty(s: SessionModel, n: nat)
    requires
        forall|i: int| 0 <= i < n ==> !s.is_pending(i),
    ensures
        s.unanswered(n).len() == 0,
    decreases n,
{
    if n > 0 {
        lemma_unanswered_empty(s, (n - 1) as nat);
    }
}

proof fn lemma_unanswered_all(s: SessionModel, n: nat)
    requires
        n <= s.sent,
        forall|i: int| 0 <= i < n ==> s.is_pending(i),
    ensures
        s.unanswered(n) == Seq::new(n, |i: int| (s.targets[i], token(s.base, i))),
    decreases n,
{
    if n > 0 {
        lemma_unanswered_all(s, (n - 1) as nat);
        assert(s.is_pending(n - 1));
        assert(s.unanswered(n) =~= Seq::new(n, |i: int| (s.targets[i], token(s.base, i))));
    } else {
        assert(s.unanswered(n) =~= Seq::new(n, |i: int| (s.targets[i], token(s.base, i))));
    }
}

/// When every request is out and no target answers, every target is
/// reported under `no_reply`, in list order, with all of its addresses and
/// the token it was sent.
pub proof fn lemma_silence_reports_every_target(s: SessionModel)
    requires
        s.wf(),
        s.sent == s.targets.len(),
        forall|i: int| 0 <= i < s.targets.len() ==> !#[trigger] s.answered[i],
    ensures
        s.final_summary().no_reply == Seq::new(
            s.targets.len(),
            |i: int| (s.targets[i], token(s.base, i)),
        ),
{
    assert forall|i: int| 0 <= i < s.sent implies s.is_pending(i) by {
        assert(!s.answered[i]);
    }
    lemma_unanswered_all(s, s.sent);
}

/// Some entry of `idx` is `t`.
pub open spec fn names(idx: Seq<int>, t: int) -> bool {
    exists|k: int| 0 <= k < idx.len() && idx[k] == t
}

/// Folding replies that each carry the token of a distinct target marks
/// those targets, and only those, answered; each lands in `normal_reply`.
proof fn lemma_answers_prefix(s: SessionModel, ds: Seq<(SockAddr, Seq<u8>)>, idx: Seq<int>)
    requires
        s.wf(),
        s.sent == s.targets.len(),
        forall|i: int| 0 <= i < s.targets.len() ==> !#[trigger] s.answered[i],
        idx.len() == ds.len(),
        forall|k: int| 0 <= k < idx.len() ==> 0 <= #[trigger] idx[k] < s.targets.len(),
        forall|k: int, j: int| 0 <= k < j < idx.len() ==> idx[k] != idx[j],
        forall|k: int|
            0 <= k < ds.len() ==> (#[trigger] parse(ds[k].1) matches Ok(m) && !(m is InvalidMsg)
                && m.msg_id() == token(s.base, idx[k])),
    ensures
        ({
            let f = s.after_datagrams(ds);
            &&& f.base == s.base
            &&& f.sent == s.sent
            &&& f.targets == s.targets
            &&& f.answered.len() == s.answered.len()
            &&& forall|t: int|
                0 <= t < s.targets.len() ==> (#[trigger] f.answered[t] <==> exists|k: int|
                    0 <= k < idx.len() && idx[k] == t)
            &&& f.summary.normal_reply.len() == s.summary.normal_reply.len() + ds.len()
            &&& f.summary.invalid_reply == s.summary.invalid_reply
            &&& f.summary.unmatched == s.summary.unmatched
            &&& f.summary.undecodable == s.summary.undecodable
        }),
    decreases ds.len(),
{
    if ds.len() > 0 {
        let n = ds.len() - 1;
        let init = ds.drop_last();
        let iinit = idx.drop_last();
        assert forall|k: int|
            0 <= k < init.len() implies (#[trigger] parse(init[k].1) matches Ok(m) && !(
        m is InvalidMsg) && m.msg_id() == token(s.base, iinit[k])) by {
            assert(init[k] == ds[k]);
            assert(parse(ds[k].1) matches Ok(m) && !(m is InvalidMsg) && m.msg_id() == token(
                s.base,
                idx[k],
            ));
        }
        assert forall|k: int| 0 <= k < iinit.len() implies 0 <= #[trigger] iinit[k]
            < s.targets.len() by {
            assert(iinit[k] == idx[k]);
        }
        lemma_answers_prefix(s, init, iinit);
        let p = s.after_datagrams(init);
        let m = parse(ds[n].1)->Ok_0;
        assert(parse(ds[n].1) matches Ok(mm) && !(mm is InvalidMsg) && mm.msg_id() == token(
            s.base,
            idx[n],
        ));
        let t = idx[n];
        assert(0 <= t < s.targets.len());
        lemma_tokens_distinct(s.base, t, if t == 0 {
            1
        } else {
            0
        });
        assert(slot(s.base, m.msg_id()) == t);
        assert(!p.answered[t]) by {
            if p.answered[t] {
                let k = choose|k: int| 0 <= k < iinit.len() && iinit[k] == t;
                assert(idx[k] == t);
            }
        }
        let f = s.after_datagrams(ds);
        assert(f == p.after_datagram(ds[n].0, ds[n].1));
        assert forall|u: int| 0 <= u < s.targets.len() implies (#[trigger] f.answered[u]
            <==> exists|k: int| 0 <= k < idx.len() && idx[k] == u) by {
            if u == t {
                assert(idx[n] == u);
            } else {
                if f.answered[u] {
                    assert(p.answered[u]);
                    let k = choose|k: int| 0 <= k < iinit.len() && iinit[k] == u;
                    assert(idx[k] == u);
                }
                if exists|k: int| 0 <= k < idx.len() && idx[k] == u {
                    let k = choose|k: int| 0 <= k < idx.len() && idx[k] == u;
                    assert(k < n);
                    assert(iinit[k] == u);
                }
            }
        }
    }
}

/// When every target answers exactly once with a reply that is not a
/// rejection, each reply lands in `normal_reply` and no target is left
/// under `no_reply`, whatever the order of arrival.
pub proof fn lemma_all_answer_once(s: SessionModel, ds: Seq<(SockAddr, Seq<u8>)>, idx: Seq<int>)
    requires
        s.wf(),
        s.sent == s.targets.len(),
        forall|i: int| 0 <= i < s.targets.len() ==> !#[trigger] s.answered[i],
        idx.len() == ds.len(),
        ds.len() == s.targets.len(),
        forall|k: int| 0 <= k < idx.len() ==> 0 <= #[trigger] idx[k] < s.targets.len(),
        forall|k: int, j: int| 0 <= k < j < idx.len() ==> idx[k] != idx[j],
        forall|t: int| 0 <= t < s.targets.len() ==> #[trigger] names(idx, t),
        forall|k: int|
            0 <= k < ds.len() ==> (#[trigger] parse(ds[k].1) matches Ok(m) && !(m is InvalidMsg)
                && m.msg_id() == token(s.base, idx[k])),
    ensures
        s.after_datagrams(ds).summary.normal_reply.len() == s.summary.normal_reply.len()
            + s.targets.len(),
        s.after_datagrams(ds).summary.unmatched == s.summary.unmatched,
        s.after_datagrams(ds).final_summary().no_reply.len() == 0,
{
    lemma_answers_prefix(s, ds, idx);
    let f = s.after_datagrams(ds);
    assert forall|i: int| 0 <= i < f.sent implies !f.is_pending(i) by {
        assert(names(idx, i));
        assert(f.answered[i]);
    }
    lemma_unanswered_empty(f, f.sent);
}

impl SessionModel {
    /// The session after `k` rounds of: the request goes out, then a poll
    /// finds nothing.
    pub open spec fn silent_sends(self, k: nat) -> SessionModel
        decreases k,
    {
        if k == 0 {
            self
        } else {
            self.silent_sends((k - 1) as nat).after_sent().after_nothing()
        }
    }
}

proof fn lemma_silent_sends(s: SessionModel, k: nat)
    requires
        s.wf(),
        s.sent == 0,
        s.phase == Phase::Sending,
        forall|i: int| 0 <= i < s.targets.len() ==> !#[trigger] s.answered[i],
        k <= s.targets.len(),
    ensures
        s.silent_sends(k).sent == k,
        s.silent_sends(k).answered == s.answered,
        s.silent_sends(k).targets == s.targets,
        s.silent_sends(k).base == s.base,
        s.silent_sends(k).summary == s.summary,
        s.silent_sends(k).wf(),
        s.silent_sends(k).phase == if k < s.targets.len() {
            Phase::Sending
        } else {
            Phase::Blocking
        },
    decreases k,
{
    if k > 0 {
        lemma_silent_sends(s, (k - 1) as nat);
        let p = s.silent_sends((k - 1) as nat).after_sent();
        assert(!p.answered[0]);
        assert(!p.all_answered());
    }
}

/// An exchange in which no datagram ever arrives: each request goes out, each
/// poll finds nothing, and the wait after the last one times out. It ends
/// with every target under `no_reply`, in list order, with all of its
/// addresses and the token it was sent.
pub proof fn lemma_silent_exchange(cmd: Msg, targets: Seq<Seq<SockAddr>>, base: u32)
    requires
        cmd.wf(),
        0 < targets.len() <= TOKEN_SPACE,
    ensures
        ({
            let end = SessionModel::initial(cmd, targets, base).silent_sends(
                targets.len(),
            ).after_nothing();
            &&& end.phase == Phase::Done
            &&& end.final_summary().no_reply == Seq::new(
                targets.len(),
                |i: int| (targets[i], token(base, i)),
            )
            &&& end.final_summary().normal_reply.len() == 0
            &&& end.final_summary().invalid_reply.len() == 0
        }),
{
    let s = SessionModel::initial(cmd, targets, base);
    lemma_silent_sends(s, targets.len());
    let b = s.silent_sends(targets.len());
    let end = b.after_nothing();
    assert(end.answered == s.answered);
    lemma_silence_reports_every_target(end);
}

} // verus!
