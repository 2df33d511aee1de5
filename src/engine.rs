//! The request/reply correlation engine.
//!
//! A session decides; its caller does the input and output. The caller asks
//! `action` what to do next (send a datagram, poll the socket without
//! blocking, wait on it up to the timeout, or stop), performs it, and reports
//! the outcome with `on_sent`, `on_datagram` or `on_nothing`. `finish` then
//! hands over the reply summary.
use vstd::prelude::*;
use crate::addr::SockAddr;
use crate::ctrl_msg::CtrlMsg;
use crate::model::{encode_spec, lemma_encode_with_id, parse, CodecError, Msg};
use crate::wire::{le32, put_bytes, put_u32};

verus! {

/// Number of distinct correlation tokens.
pub const TOKEN_SPACE: u64 = 0x1_0000_0000;

/// The outcome of one exchange, partitioned.
#[derive(Debug)]
pub struct CmdReplySummary {
    /// Targets that did not answer: every address resolved for the target, and its token.
    pub no_reply: Vec<(Vec<SockAddr>, u32)>,
    /// Rejections: replies of the `InvalidMsg` variant, with their sender.
    pub invalid_reply: Vec<(SockAddr, CtrlMsg)>,
    /// Every other decoded reply, with its sender.
    pub normal_reply: Vec<(SockAddr, CtrlMsg)>,
    /// Datagrams that could not be decoded, with their sender and the reason.
    pub undecodable: Vec<(SockAddr, CodecError)>,
    /// Replies whose token matched no outstanding request, with their sender and token.
    pub unmatched: Vec<(SockAddr, u32)>,
}

/// Model of a reply summary.
pub struct SummaryModel {
    pub no_reply: Seq<(Seq<SockAddr>, u32)>,
    pub invalid_reply: Seq<(SockAddr, Msg)>,
    pub normal_reply: Seq<(SockAddr, Msg)>,
    pub undecodable: Seq<(SockAddr, CodecError)>,
    pub unmatched: Seq<(SockAddr, u32)>,
}

impl View for CmdReplySummary {
    type V = SummaryModel;

    open spec fn view(&self) -> SummaryModel {
        SummaryModel {
            no_reply: self.no_reply@.map_values(|p: (Vec<SockAddr>, u32)| (p.0@, p.1)),
            invalid_reply: self.invalid_reply@.map_values(|p: (SockAddr, CtrlMsg)| (p.0, p.1@)),
            normal_reply: self.normal_reply@.map_values(|p: (SockAddr, CtrlMsg)| (p.0, p.1@)),
            undecodable: self.undecodable@,
            unmatched: self.unmatched@,
        }
    }
}

impl SummaryModel {
    pub open spec fn empty() -> SummaryModel {
        SummaryModel {
            no_reply: Seq::empty(),
            invalid_reply: Seq::empty(),
            normal_reply: Seq::empty(),
            undecodable: Seq::empty(),
            unmatched: Seq::empty(),
        }
    }

    /// A decoded reply filed by its variant: a rejection under
    /// `invalid_reply`, anything else under `normal_reply`.
    pub open spec fn with_reply(self, from: SockAddr, m: Msg) -> SummaryModel {
        if m is InvalidMsg {
            SummaryModel { invalid_reply: self.invalid_reply.push((from, m)), ..self }
        } else {
            SummaryModel { normal_reply: self.normal_reply.push((from, m)), ..self }
        }
    }

    pub open spec fn with_undecodable(self, from: SockAddr, e: CodecError) -> SummaryModel {
        SummaryModel { undecodable: self.undecodable.push((from, e)), ..self }
    }

    pub open spec fn with_unmatched(self, from: SockAddr, t: u32) -> SummaryModel {
        SummaryModel { unmatched: self.unmatched.push((from, t)), ..self }
    }

    /// Number of decoded replies, rejections included.
    pub open spec fn replies(self) -> nat {
        self.normal_reply.len() + self.invalid_reply.len()
    }
}

impl CmdReplySummary {
    pub fn new() -> (r: CmdReplySummary)
        ensures
            r@ == SummaryModel::empty(),
    {
        let r = CmdReplySummary {
            no_reply: Vec::new(),
            invalid_reply: Vec::new(),
            normal_reply: Vec::new(),
            undecodable: Vec::new(),
            unmatched: Vec::new(),
        };
        assert(r@.no_reply =~= Seq::empty());
        assert(r@.invalid_reply =~= Seq::empty());
        assert(r@.normal_reply =~= Seq::empty());
        r
    }

    /// Files a decoded reply by its variant.
    pub fn record_reply(&mut self, from: SockAddr, m: CtrlMsg)
        ensures
            final(self)@ == old(self)@.with_reply(from, m@),
    {
        if m.is_invalid() {
            self.invalid_reply.push((from, m));
            assert(self@.invalid_reply =~= old(self)@.invalid_reply.push((from, m@)));
        } else {
            self.normal_reply.push((from, m));
            assert(self@.normal_reply =~= old(self)@.normal_reply.push((from, m@)));
        }
    }

    fn record_undecodable(&mut self, from: SockAddr, e: CodecError)
        ensures
            final(self)@ == old(self)@.with_undecodable(from, e),
    {
        self.undecodable.push((from, e));
    }

    fn record_unmatched(&mut self, from: SockAddr, t: u32)
        ensures
            final(self)@ == old(self)@.with_unmatched(from, t),
    {
        self.unmatched.push((from, t));
    }
}

impl Default for CmdReplySummary {
    fn default() -> (r: CmdReplySummary)
        ensures
            r@ == SummaryModel::empty(),
    {
        CmdReplySummary::new()
    }
}

/// Where an exchange stands.
#[derive(Clone, Copy, Debug, PartialEq, Eq, Structural)]
pub enum Phase {
    /// A request is due.
    Sending,
    /// Draining whatever has already arrived, without blocking.
    Draining,
    /// Every request is out; waiting, up to the timeout per receive.
    Blocking,
    /// Nothing left to do.
    Done,
}

/// What the caller is to do next.
#[derive(Debug)]
pub enum Action {
    /// Send `bytes` to target number `target`.
    Send { target: usize, bytes: Vec<u8> },
    /// Receive one datagram without blocking.
    Poll,
    /// Receive one datagram, blocking up to the read timeout.
    Wait,
    /// Stop and take the summary.
    Finish,
}

/// Why a session could not be set up.
#[derive(Clone, Copy, Debug, PartialEq, Eq, Structural)]
pub enum SessionError {
    /// The command's count fields disagree with its payloads.
    MalformedCommand,
    /// More targets than there are distinct tokens.
    TooManyTargets,
}

/// The token of target `i` in a session whose tokens start at `base`.
pub open spec fn token(base: u32, i: int) -> u32 {
    ((base + i) % (TOKEN_SPACE as int)) as u32
}

/// The target that token `t` belongs to, in a session whose tokens start at `base`.
pub open spec fn slot(base: u32, t: u32) -> int {
    if t >= base {
        t - base
    } else {
        t - base + TOKEN_SPACE
    }
}

/// Model of a unicast exchange.
pub struct SessionModel {
    /// The command, before a token is stamped into it.
    pub cmd: Msg,
    /// The token of the first target; target `i` gets `token(base, i)`.
    pub base: u32,
    /// For each target, every address it resolved to.
    pub targets: Seq<Seq<SockAddr>>,
    /// How many targets have been sent their request, in list order.
    pub sent: nat,
    /// Which targets have answered.
    pub answered: Seq<bool>,
    pub phase: Phase,
    pub summary: SummaryModel,
}

impl SessionModel {
    pub open spec fn initial(cmd: Msg, targets: Seq<Seq<SockAddr>>, base: u32) -> SessionModel {
        SessionModel {
            cmd,
            base,
            targets,
            sent: 0,
            answered: Seq::new(targets.len(), |i: int| false),
            phase: if targets.len() == 0 {
                Phase::Done
            } else {
                Phase::Sending
            },
            summary: SummaryModel::empty(),
        }
    }

    pub open spec fn wf(self) -> bool {
        &&& self.cmd.wf()
        &&& self.targets.len() <= TOKEN_SPACE
        &&& self.answered.len() == self.targets.len()
        &&& self.sent <= self.targets.len()
        &&& forall|i: int| self.sent <= i < self.targets.len() ==> !#[trigger] self.answered[i]
        &&& (self.phase == Phase::Sending ==> self.sent < self.targets.len())
    }

    /// Target `i` has been sent its request and has not answered.
    pub open spec fn is_pending(self, i: int) -> bool {
        0 <= i < self.sent && !self.answered[i]
    }

    pub open spec fn all_answered(self) -> bool {
        forall|i: int| 0 <= i < self.sent ==> #[trigger] self.answered[i]
    }

    /// The datagram for the next target: the command stamped with its token.
    pub open spec fn request(self) -> Seq<u8> {
        encode_spec(self.cmd.with_msg_id(token(self.base, self.sent as int)))
    }

    pub open spec fn after_sent(self) -> SessionModel {
        if self.phase == Phase::Sending {
            SessionModel { sent: self.sent + 1, phase: Phase::Draining, ..self }
        } else {
            self
        }
    }

    /// Nothing came: a drain ends (next send, or blocking while requests
    /// are unanswered), and a blocking wait that times out ends the exchange.
    pub open spec fn after_nothing(self) -> SessionModel {
        if self.phase == Phase::Draining {
            if self.sent < self.targets.len() {
                SessionModel { phase: Phase::Sending, ..self }
            } else if self.all_answered() {
                SessionModel { phase: Phase::Done, ..self }
            } else {
                SessionModel { phase: Phase::Blocking, ..self }
            }
        } else if self.phase == Phase::Blocking {
            SessionModel { phase: Phase::Done, ..self }
        } else {
            self
        }
    }

    /// A decoded reply is filed by its variant, then resolves the target its
    /// token belongs to, or is recorded as unmatched. A blocking wait ends
    /// once every target has answered.
    pub open spec fn after_reply(self, from: SockAddr, m: Msg) -> SessionModel {
        let i = slot(self.base, m.msg_id());
        let filed = SessionModel { summary: self.summary.with_reply(from, m), ..self };
        let resolved = if self.is_pending(i) {
            SessionModel { answered: self.answered.update(i, true), ..filed }
        } else {
            SessionModel { summary: filed.summary.with_unmatched(from, m.msg_id()), ..filed }
        };
        if resolved.phase == Phase::Blocking && resolved.all_answered() {
            SessionModel { phase: Phase::Done, ..resolved }
        } else {
            resolved
        }
    }

    /// A datagram that does not decode is recorded and changes nothing else.
    pub open spec fn after_datagram(self, from: SockAddr, bytes: Seq<u8>) -> SessionModel {
        match parse(bytes) {
            Ok(m) => self.after_reply(from, m),
            Err(e) => SessionModel { summary: self.summary.with_undecodable(from, e), ..self },
        }
    }

    /// The unanswered targets among the first `n`, in list order, each with
    /// all its addresses and its token.
    pub open spec fn unanswered(self, n: nat) -> Seq<(Seq<SockAddr>, u32)>
        decreases n,
    {
        if n == 0 {
            Seq::empty()
        } else {
            let prev = self.unanswered((n - 1) as nat);
            if self.is_pending(n - 1) {
                prev.push((self.targets[n - 1], token(self.base, n - 1)))
            } else {
                prev
            }
        }
    }

    pub open spec fn final_summary(self) -> SummaryModel {
        SummaryModel { no_reply: self.unanswered(self.sent), ..self.summary }
    }
}

/// Relies on `rand::random` to draw the first correlation token of a session:
/// some `u32`, and nothing is assumed of its value.
#[verifier::external_body]
fn random_token_base() -> u32 {
    rand::random::<u32>()
}

fn copy_addrs(v: &Vec<SockAddr>) -> (r: Vec<SockAddr>)
    ensures
        r@ == v@,
{
    let mut r: Vec<SockAddr> = Vec::new();
    let mut j: usize = 0;
    while j < v.len()
        invariant
            j <= v@.len(),
            r@ == v@.subrange(0, j as int),
        decreases v@.len() - j,
    {
        r.push(v[j]);
        j = j + 1;
        assert(r@ =~= v@.subrange(0, j as int));
    }
    assert(v@.subrange(0, j as int) =~= v@);
    r
}

/// `template` with bytes 4 to 8 replaced by the image of `t`.
fn stamp(template: &Vec<u8>, t: u32) -> (r: Vec<u8>)
    requires
        template@.len() >= 8,
    ensures
        r@ == template@.subrange(0, 4) + le32(t) + template@.skip(8),
{
    let mut r: Vec<u8> = Vec::new();
    let mut j: usize = 0;
    while j < 4
        invariant
            j <= 4,
            template@.len() >= 8,
            r@ == template@.subrange(0, j as int),
        decreases 4 - j,
    {
        r.push(template[j]);
        j = j + 1;
        assert(r@ =~= template@.subrange(0, j as int));
    }
    put_u32(&mut r, t);
    let mut k: usize = 8;
    while k < template.len()
        invariant
            8 <= k <= template@.len(),
            r@ == template@.subrange(0, 4) + le32(t) + template@.subrange(8, k as int),
        decreases template@.len() - k,
    {
        r.push(template[k]);
        k = k + 1;
        assert(r@ =~= template@.subrange(0, 4) + le32(t) + template@.subrange(8, k as int));
    }
    assert(template@.subrange(8, k as int) =~= template@.skip(8));
    r
}

/// A unicast exchange: one request per target, each with its own token,
/// and the replies matched back to the targets.
pub struct SendSession {
    cmd: Ghost<Msg>,
    template: Vec<u8>,
    targets: Vec<Vec<SockAddr>>,
    base: u32,
    sent: usize,
    answered: Vec<bool>,
    phase: Phase,
    summary: CmdReplySummary,
}

impl View for SendSession {
    type V = SessionModel;

    closed spec fn view(&self) -> SessionModel {
        SessionModel {
            cmd: self.cmd@,
            base: self.base,
            targets: self.targets@.map_values(|v: Vec<SockAddr>| v@),
            sent: self.sent as nat,
            answered: self.answered@,
            phase: self.phase,
            summary: self.summary@,
        }
    }
}

impl SendSession {
    /// The model is well formed and the template is the image of the command.
    pub closed spec fn wf(&self) -> bool {
        &&& self@.wf()
        &&& self.template@ == encode_spec(self.cmd@)
    }

    /// A session for `cmd` and `targets` whose tokens start at `base`.
    pub fn new(cmd: CtrlMsg, targets: Vec<Vec<SockAddr>>, base: u32) -> (r: Result<
        SendSession,
        SessionError,
    >)
        ensures
            !cmd@.wf() ==> (r matches Err(e) && e == SessionError::MalformedCommand),
            cmd@.wf() && targets@.len() > TOKEN_SPACE ==> (r matches Err(e) && e
                == SessionError::TooManyTargets),
            cmd@.wf() && targets@.len() <= TOKEN_SPACE ==> (r matches Ok(s) && s.wf() && s@
                == SessionModel::initial(
                cmd@,
                targets@.map_values(|v: Vec<SockAddr>| v@),
                base,
            )),
    {
        let template = match cmd.encode() {
            Ok(b) => b,
            Err(_) => {
                return Err(SessionError::MalformedCommand);
            },
        };
        let n = targets.len();
        if n as u64 > TOKEN_SPACE {
            return Err(SessionError::TooManyTargets);
        }
        let mut answered: Vec<bool> = Vec::new();
        let mut j: usize = 0;
        while j < n
            invariant
                j <= n,
                answered@ == Seq::new(j as nat, |i: int| false),
            decreases n - j,
        {
            answered.push(false);
            j = j + 1;
            assert(answered@ =~= Seq::new(j as nat, |i: int| false));
        }
        let phase = if n == 0 {
            Phase::Done
        } else {
            Phase::Sending
        };
        let s = SendSession {
            cmd: Ghost(cmd@),
            template,
            targets,
            base,
            sent: 0,
            answered,
            phase,
            summary: CmdReplySummary::new(),
        };
        Ok(s)
    }

    /// A session for `cmd` and `targets` whose tokens start at a random base.
    pub fn start(cmd: CtrlMsg, targets: Vec<Vec<SockAddr>>) -> (r: Result<
        SendSession,
        SessionError,
    >)
        ensures
            !cmd@.wf() ==> (r matches Err(e) && e == SessionError::MalformedCommand),
            cmd@.wf() && targets@.len() > TOKEN_SPACE ==> (r matches Err(e) && e
                == SessionError::TooManyTargets),
            cmd@.wf() && targets@.len() <= TOKEN_SPACE ==> (r matches Ok(s) && s.wf() && s@
                == SessionModel::initial(
                cmd@,
                targets@.map_values(|v: Vec<SockAddr>| v@),
                s@.base,
            )),
    {
        let base = random_token_base();
        SendSession::new(cmd, targets, base)
    }

    /// What to do next.
    pub fn action(&self) -> (r: Action)
        requires
            self.wf(),
        ensures
            self@.phase == Phase::Sending ==> (r matches Action::Send { target, bytes } && target
                == self@.sent && bytes@ == self@.request()),
            self@.phase == Phase::Draining ==> r is Poll,
            self@.phase == Phase::Blocking ==> r is Wait,
            self@.phase == Phase::Done ==> r is Finish,
    {
        match self.phase {
            Phase::Sending => {
                let t = self.base.wrapping_add(self.sent as u32);
                proof {
                    lemma_encode_with_id(self.cmd@, t);
                }
                let bytes = stamp(&self.template, t);
                Action::Send { target: self.sent, bytes }
            },
            Phase::Draining => Action::Poll,
            Phase::Blocking => Action::Wait,
            Phase::Done => Action::Finish,
        }
    }

    fn all_answered(&self) -> (r: bool)
        requires
            self.wf(),
        ensures
            r == self@.all_answered(),
    {
        let mut i: usize = 0;
        while i < self.sent
            invariant
                i <= self.sent,
                self.sent <= self.answered@.len(),
                forall|k: int| 0 <= k < i ==> #[trigger] self.answered@[k],
            decreases self.sent - i,
        {
            if !self.answered[i] {
                assert(!self@.answered[i as int]);
                return false;
            }
            i = i + 1;
        }
        true
    }

    /// The request handed out by the last `Send` action has gone out.
    pub fn on_sent(&mut self)
        requires
            old(self).wf(),
        ensures
            final(self).wf(),
            final(self)@ == old(self)@.after_sent(),
    {
        let n = self.targets.len();
        if self.phase == Phase::Sending {
            assert(self.sent < n);
            self.sent = self.sent + 1;
            self.phase = Phase::Draining;
        }
    }

    /// A receive returned nothing: no datagram was queued, or the wait timed out.
    pub fn on_nothing(&mut self)
        requires
            old(self).wf(),
        ensures
            final(self).wf(),
            final(self)@ == old(self)@.after_nothing(),
    {
        if self.phase == Phase::Draining {
            if self.sent < self.targets.len() {
                self.phase = Phase::Sending;
            } else if self.all_answered() {
                self.phase = Phase::Done;
            } else {
                self.phase = Phase::Blocking;
            }
        } else if self.phase == Phase::Blocking {
            self.phase = Phase::Done;
        }
    }

    /// A datagram arrived from `from`.
    pub fn on_datagram(&mut self, from: SockAddr, bytes: &[u8])
        requires
            old(self).wf(),
        ensures
            final(self).wf(),
            final(self)@ == old(self)@.after_datagram(from, bytes@),
    {
        match CtrlMsg::decode(bytes) {
            Err(e) => {
                self.summary.record_undecodable(from, e);
            },
            Ok(m) => {
                let t = m.get_msg_id();
                self.summary.record_reply(from, m);
                let i = t.wrapping_sub(self.base) as usize;
                if i < self.sent && !self.answered[i] {
                    self.answered.set(i, true);
                } else {
                    self.summary.record_unmatched(from, t);
                }
                if self.phase == Phase::Blocking && self.all_answered() {
                    self.phase = Phase::Done;
                }
            },
        }
    }

    /// The summary: replies as filed, and every target still unanswered.
    pub fn finish(self) -> (r: CmdReplySummary)
        requires
            self.wf(),
        ensures
            r@ == self@.final_summary(),
    {
        let ghost model = self@;
        let SendSession { targets, base, sent, answered, summary, .. } = self;
        let mut summary = summary;
        let mut no_reply: Vec<(Vec<SockAddr>, u32)> = Vec::new();
        let mut i: usize = 0;
        while i < sent
            invariant
                i <= sent,
                sent == model.sent,
                base == model.base,
                answered@ == model.answered,
                targets@.map_values(|v: Vec<SockAddr>| v@) == model.targets,
                model.wf(),
                no_reply@.map_values(|p: (Vec<SockAddr>, u32)| (p.0@, p.1)) == model.unanswered(
                    i as nat,
                ),
            decreases sent - i,
        {
            if !answered[i] {
                let t = base.wrapping_add(i as u32);
                let addrs = copy_addrs(&targets[i]);
                no_reply.push((addrs, t));
            }
            i = i + 1;
            assert(no_reply@.map_values(|p: (Vec<SockAddr>, u32)| (p.0@, p.1)) =~= model.unanswered(
                i as nat,
            ));
        }
        summary.no_reply = no_reply;
        assert(summary@ =~= model.final_summary());
        summary
    }
}

/// Model of a broadcast exchange: one request to a one-to-many address,
/// with the token set to zero, and every decoded reply accepted.
pub struct BcastModel {
    /// The command as sent, token included.
    pub cmd: Msg,
    pub phase: Phase,
    pub summary: SummaryModel,
}

impl BcastModel {
    pub open spec fn initial(cmd: Msg) -> BcastModel {
        BcastModel {
            cmd: cmd.with_msg_id(0),
            phase: Phase::Sending,
            summary: SummaryModel::empty(),
        }
    }

    pub open spec fn request(self) -> Seq<u8> {
        encode_spec(self.cmd)
    }

    pub open spec fn after_sent(self) -> BcastModel {
        if self.phase == Phase::Sending {
            BcastModel { phase: Phase::Draining, ..self }
        } else {
            self
        }
    }

    /// Nothing came: the drain gives way to blocking, and a blocking wait
    /// that times out ends the exchange.
    pub open spec fn after_nothing(self) -> BcastModel {
        if self.phase == Phase::Draining {
            BcastModel { phase: Phase::Blocking, ..self }
        } else if self.phase == Phase::Blocking {
            BcastModel { phase: Phase::Done, ..self }
        } else {
            self
        }
    }

    pub open spec fn after_datagram(self, from: SockAddr, bytes: Seq<u8>) -> BcastModel {
        match parse(bytes) {
            Ok(m) => BcastModel { summary: self.summary.with_reply(from, m), ..self },
            Err(e) => BcastModel { summary: self.summary.with_undecodable(from, e), ..self },
        }
    }
}

/// A broadcast or multicast exchange: the number of responders is not
/// known, so there is no token bookkeeping and no `no_reply`.
pub struct BcastSession {
    cmd: Ghost<Msg>,
    request: Vec<u8>,
    phase: Phase,
    summary: CmdReplySummary,
}

impl View for BcastSession {
    type V = BcastModel;

    closed spec fn view(&self) -> BcastModel {
        BcastModel { cmd: self.cmd@, phase: self.phase, summary: self.summary@ }
    }
}

impl BcastSession {
    /// The request is the image of the command.
    pub closed spec fn wf(&self) -> bool {
        &&& self.cmd@.wf()
        &&& self.request@ == encode_spec(self.cmd@)
    }

    pub fn new(cmd: CtrlMsg) -> (r: Result<BcastSession, SessionError>)
        ensures
            !cmd@.wf() ==> (r matches Err(e) && e == SessionError::MalformedCommand),
            cmd@.wf() ==> (r matches Ok(s) && s.wf() && s@ == BcastModel::initial(cmd@)),
    {
        let ghost given = cmd@;
        let mut cmd = cmd;
        cmd.set_msg_id(0);
        assert(cmd@.wf() == given.wf());
        match cmd.encode() {
            Ok(request) => Ok(
                BcastSession {
                    cmd: Ghost(cmd@),
                    request,
                    phase: Phase::Sending,
                    summary: CmdReplySummary::new(),
                },
            ),
            Err(_) => Err(SessionError::MalformedCommand),
        }
    }

    /// What to do next; the one `Send` goes to the group address, as target 0.
    pub fn action(&self) -> (r: Action)
        requires
            self.wf(),
        ensures
            self@.phase == Phase::Sending ==> (r matches Action::Send { target, bytes } && target
                == 0 && bytes@ == self@.request()),
            self@.phase == Phase::Draining ==> r is Poll,
            self@.phase == Phase::Blocking ==> r is Wait,
            self@.phase == Phase::Done ==> r is Finish,
    {
        match self.phase {
            Phase::Sending => {
                let mut bytes: Vec<u8> = Vec::new();
                put_bytes(&mut bytes, self.request.as_slice());
                assert(bytes@ =~= self.request@);
                Action::Send { target: 0, bytes }
            },
            Phase::Draining => Action::Poll,
            Phase::Blocking => Action::Wait,
            Phase::Done => Action::Finish,
        }
    }

    pub fn on_sent(&mut self)
        requires
            old(self).wf(),
        ensures
            final(self).wf(),
            final(self)@ == old(self)@.after_sent(),
    {
        if self.phase == Phase::Sending {
            self.phase = Phase::Draining;
        }
    }

    pub fn on_nothing(&mut self)
        requires
            old(self).wf(),
        ensures
            final(self).wf(),
            final(self)@ == old(self)@.after_nothing(),
    {
        if self.phase == Phase::Draining {
            self.phase = Phase::Blocking;
        } else if self.phase == Phase::Blocking {
            self.phase = Phase::Done;
        }
    }

    pub fn on_datagram(&mut self, from: SockAddr, bytes: &[u8])
        requires
            old(self).wf(),
        ensures
            final(self).wf(),
            final(self)@ == old(self)@.after_datagram(from, bytes@),
    {
        match CtrlMsg::decode(bytes) {
            Ok(m) => self.summary.record_reply(from, m),
            Err(e) => self.summary.record_undecodable(from, e),
        }
    }

    pub fn finish(self) -> (r: CmdReplySummary)
        ensures
            r@ == self@.summary,
    {
        self.summary
    }
}

} // verus!
