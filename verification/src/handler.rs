//! The handler capability and the ordered, chain-of-responsibility
//! registry.
//!
//! A handler claims a command by its text alone; only the first claiming
//! handler in registration order is ever stepped.  A step either settles
//! the command or names the collaborator call it still needs; the caller
//! performs that call and resumes the walk with the outcome.

use vstd::prelude::*;
use vstd::string::StringExecFns;
use crate::basic_market_info::BasicMakertInfo;
use crate::error::Error;
use crate::gamble::Gamble;
use crate::help::Help;
use crate::huangli::HuangLi;
use crate::upstream::UpstreamEvent;
use crate::upstream::UpstreamRequest;

verus! {

/// One move of a handler working on a claimed command.
#[derive(Debug, PartialEq, Eq)]
pub enum HandlerStep {
    /// The handler needs this collaborator call before it can go on.
    Fetch(UpstreamRequest),
    /// The handler is done: an answer, or a genuine failure.
    Done(Result<String, Error>),
}

/// A unit offering to answer one category of command.
pub trait Handler: Sized {
    /// Whether this handler claims the given command text.
    spec fn claims_spec(&self, msg: Seq<char>) -> bool;

    /// The one-line capability summary, for the aggregate help text.
    spec fn describe_spec(&self) -> Seq<char>;

    /// What a step may answer for a claimed command, given the
    /// collaborator outcomes gathered so far.
    spec fn step_ok(&self, msg: Seq<char>, events: Seq<UpstreamEvent>, r: HandlerStep) -> bool;

    /// Decides whether the command belongs to this handler; pure, and
    /// never an error.
    fn claims(&self, msg: &str) -> (r: bool)
        ensures
            r == self.claims_spec(msg@),
    ;

    /// The one-line capability summary; pure.
    fn describe(&self) -> (r: String)
        ensures
            r@ == self.describe_spec(),
    ;

    /// Works on a claimed command: settles it or names the collaborator
    /// call it needs next.
    fn step(&self, msg: &str, events: &Vec<UpstreamEvent>) -> (r: HandlerStep)
        requires
            self.claims_spec(msg@),
        ensures
            self.step_ok(msg@, events@, r),
    ;
}

/// A scripted handler: it claims exactly one command text and follows a
/// fixed script, so chain-walk behaviour can be exercised without any
/// real collaborator.
pub struct StubHandler {
    pub pattern: String,
    pub summary: String,
    pub script: StubScript,
}

/// What a scripted handler does with its command.
pub enum StubScript {
    /// Settle at once with this answer.
    Answer(String),
    /// Fail at once with an upstream failure.
    FailUpstream { status: u16, url: String, response: String },
    /// Fail at once, blaming the input.
    FailParam(String),
    /// Fetch the given URL and answer with the body that comes back.
    Relay { url: String },
}

impl Handler for StubHandler {
    open spec fn claims_spec(&self, msg: Seq<char>) -> bool {
        msg == self.pattern@
    }

    open spec fn describe_spec(&self) -> Seq<char> {
        self.summary@
    }

    open spec fn step_ok(&self, msg: Seq<char>, events: Seq<UpstreamEvent>, r: HandlerStep) -> bool {
        match self.script {
            StubScript::Answer(v) => r matches HandlerStep::Done(res) && res matches Ok(t)
                && t@ == v@,
            StubScript::FailUpstream { status, url, response } => r matches HandlerStep::Done(res)
                && res matches Err(e) && (e matches Error::HttpError {
                status: st,
                url: u,
                response: rs,
            } && st == status && u@ == url@ && rs@ == response@),
            StubScript::FailParam(d) => r matches HandlerStep::Done(res) && res matches Err(e)
                && (e matches Error::ParamError(m) && m@ == d@),
            StubScript::Relay { url } => {
                if events.len() == 0 {
                    r matches HandlerStep::Fetch(req) && (req matches UpstreamRequest::Get {
                        url: u,
                    } && u@ == url@)
                } else {
                    match events[0] {
                        UpstreamEvent::Body(b) => r matches HandlerStep::Done(res)
                            && res matches Ok(t) && t@ == b@,
                        UpstreamEvent::Failure { status, url: fu, detail: d } => r matches HandlerStep::Done(
                            res,
                        ) && res matches Err(e) && (e matches Error::HttpError {
                            status: st,
                            url: u,
                            response: rs,
                        } && st == status && u@ == fu@ && rs@ == d@),
                    }
                }
            },
        }
    }

    fn claims(&self, msg: &str) -> (r: bool) {
        crate::text::str_eq(msg, self.pattern.as_str())
    }

    fn describe(&self) -> (r: String) {
        self.summary.clone()
    }

    fn step(&self, msg: &str, events: &Vec<UpstreamEvent>) -> (r: HandlerStep) {
        match &self.script {
            StubScript::Answer(v) => HandlerStep::Done(Ok(v.clone())),
            StubScript::FailUpstream { status, url, response } => HandlerStep::Done(
                Err(
                    Error::HttpError {
                        status: *status,
                        url: url.clone(),
                        response: response.clone(),
                    },
                ),
            ),
            StubScript::FailParam(d) => HandlerStep::Done(Err(Error::ParamError(d.clone()))),
            StubScript::Relay { url } => {
                if events.len() == 0 {
                    HandlerStep::Fetch(UpstreamRequest::Get { url: url.clone() })
                } else {
                    match &events[0] {
                        UpstreamEvent::Body(b) => HandlerStep::Done(Ok(b.clone())),
                        UpstreamEvent::Failure { status, url: fu, detail } => HandlerStep::Done(
                            Err(
                                Error::HttpError {
                                    status: *status,
                                    url: fu.clone(),
                                    response: detail.clone(),
                                },
                            ),
                        ),
                    }
                }
            },
        }
    }
}

/// One registered handler.  The roster is closed: the four real handlers,
/// and the scripted one for exercising the chain.
pub enum HandlerRecord {
    Market(BasicMakertInfo),
    Gamble(Gamble),
    Almanac(HuangLi),
    HelpCmd(Help),
    Stub(StubHandler),
}

impl Handler for HandlerRecord {
    open spec fn claims_spec(&self, msg: Seq<char>) -> bool {
        match self {
            HandlerRecord::Market(h) => h.claims_spec(msg),
            HandlerRecord::Gamble(h) => h.claims_spec(msg),
            HandlerRecord::Almanac(h) => h.claims_spec(msg),
            HandlerRecord::HelpCmd(h) => h.claims_spec(msg),
            HandlerRecord::Stub(h) => h.claims_spec(msg),
        }
    }

    open spec fn describe_spec(&self) -> Seq<char> {
        match self {
            HandlerRecord::Market(h) => h.describe_spec(),
            HandlerRecord::Gamble(h) => h.describe_spec(),
            HandlerRecord::Almanac(h) => h.describe_spec(),
            HandlerRecord::HelpCmd(h) => h.describe_spec(),
            HandlerRecord::Stub(h) => h.describe_spec(),
        }
    }

    open spec fn step_ok(&self, msg: Seq<char>, events: Seq<UpstreamEvent>, r: HandlerStep) -> bool {
        match self {
            HandlerRecord::Market(h) => h.step_ok(msg, events, r),
            HandlerRecord::Gamble(h) => h.step_ok(msg, events, r),
            HandlerRecord::Almanac(h) => h.step_ok(msg, events, r),
            HandlerRecord::HelpCmd(h) => h.step_ok(msg, events, r),
            HandlerRecord::Stub(h) => h.step_ok(msg, events, r),
        }
    }

    fn claims(&self, msg: &str) -> (r: bool) {
        match self {
            HandlerRecord::Market(h) => h.claims(msg),
            HandlerRecord::Gamble(h) => h.claims(msg),
            HandlerRecord::Almanac(h) => h.claims(msg),
            HandlerRecord::HelpCmd(h) => h.claims(msg),
            HandlerRecord::Stub(h) => h.claims(msg),
        }
    }

    fn describe(&self) -> (r: String) {
        match self {
            HandlerRecord::Market(h) => h.describe(),
            HandlerRecord::Gamble(h) => h.describe(),
            HandlerRecord::Almanac(h) => h.describe(),
            HandlerRecord::HelpCmd(h) => h.describe(),
            HandlerRecord::Stub(h) => h.describe(),
        }
    }

    fn step(&self, msg: &str, events: &Vec<UpstreamEvent>) -> (r: HandlerStep) {
        match self {
            HandlerRecord::Market(h) => h.step(msg, events),
            HandlerRecord::Gamble(h) => h.step(msg, events),
            HandlerRecord::Almanac(h) => h.step(msg, events),
            HandlerRecord::HelpCmd(h) => h.step(msg, events),
            HandlerRecord::Stub(h) => h.step(msg, events),
        }
    }
}

/// What one dispatch produced: an answer, no handler claiming the
/// command, or a genuine failure with its diagnostic.
#[derive(Debug, PartialEq, Eq)]
pub enum DispatchOutcome {
    Answered(String),
    Ignored,
    Failed(String),
}

/// A chain walk waiting on one collaborator call: which handler was
/// picked, for which command, and what came back so far.
#[derive(Debug, PartialEq, Eq)]
pub struct ChainSession {
    pub index: usize,
    pub msg: String,
    pub events: Vec<UpstreamEvent>,
}

/// Where the chain walk stands: settled, or waiting on the named call.
#[derive(Debug, PartialEq, Eq)]
pub enum ChainStep {
    Settled(DispatchOutcome),
    Pending(UpstreamRequest, ChainSession),
}

/// The position of the first handler that claims the command, in
/// registration order.
pub open spec fn first_claim(hs: Seq<HandlerRecord>, msg: Seq<char>) -> Option<int>
    decreases hs.len(),
{
    if hs.len() == 0 {
        None
    } else if hs[0].claims_spec(msg) {
        Some(0)
    } else {
        match first_claim(hs.skip(1), msg) {
            None => None,
            Some(i) => Some(i + 1),
        }
    }
}

/// How a finished handler step reads as a dispatch outcome: an answer
/// stands, a failure keeps only its diagnostic line.
pub open spec fn settle_of(res: Result<String, Error>, out: DispatchOutcome) -> bool {
    match res {
        Ok(v) => out matches DispatchOutcome::Answered(t) && t@ == v@,
        Err(e) => out matches DispatchOutcome::Failed(d) && d@ == e.render_spec(),
    }
}

/// What the walk may answer when handler `i` owns the command and the
/// given collaborator outcomes are in.
pub open spec fn chain_step_ok(
    hs: Seq<HandlerRecord>,
    i: int,
    msg: Seq<char>,
    events: Seq<UpstreamEvent>,
    r: ChainStep,
) -> bool {
    match r {
        ChainStep::Settled(out) => exists|res: Result<String, Error>|
            #[trigger] hs[i].step_ok(msg, events, HandlerStep::Done(res)) && settle_of(res, out),
        ChainStep::Pending(req, sess) => hs[i].step_ok(msg, events, HandlerStep::Fetch(req))
            && sess.index == i && sess.msg@ == msg && sess.events@ == events,
    }
}

/// The one-line summaries of all registered handlers, each on its own
/// line, in registration order.
pub open spec fn describe_lines(hs: Seq<HandlerRecord>) -> Seq<char>
    decreases hs.len(),
{
    if hs.len() == 0 {
        Seq::empty()
    } else {
        describe_lines(hs.take(hs.len() - 1)) + hs.last().describe_spec() + seq!['\n']
    }
}

/// The ordered, append-only handler registry.
pub struct HandlerMgr {
    handlers: Vec<HandlerRecord>,
}

impl View for HandlerMgr {
    type V = Seq<HandlerRecord>;

    closed spec fn view(&self) -> Seq<HandlerRecord> {
        self.handlers@
    }
}

impl HandlerMgr {
    pub fn new() -> (r: Self)
        ensures
            r@ == Seq::<HandlerRecord>::empty(),
    {
        HandlerMgr { handlers: Vec::new() }
    }

    /// Appends a handler at the end of the chain; registration order is
    /// priority order and nothing is ever removed.
    pub fn register_handler(&mut self, h: HandlerRecord)
        ensures
            final (self)@ == old(self)@.push(h),
    {
        self.handlers.push(h);
    }

    pub fn count(&self) -> (r: usize)
        ensures
            r == self@.len(),
    {
        self.handlers.len()
    }

    /// The joined one-line summaries, for the aggregate help text; no
    /// handler is stepped.
    pub fn joined_describes(&self) -> (r: String)
        ensures
            r@ == describe_lines(self@),
    {
        let mut r = String::new();
        let mut i: usize = 0;
        proof {
            assert(self@.take(0) =~= Seq::<HandlerRecord>::empty());
        }
        while i < self.handlers.len()
            invariant
                i <= self@.len(),
                r@ == describe_lines(self@.take(i as int)),
            decreases self@.len() - i,
        {
            let line = self.handlers[i].describe();
            r.append(line.as_str());
            crate::text::push_char(&mut r, '\n');
            proof {
                let t = self@.take(i as int + 1);
                assert(t.take(i as int) =~= self@.take(i as int));
                assert(t.last() == self@[i as int]);
                assert(r@ =~= describe_lines(self@.take(i as int)) + self@[i as int].describe_spec()
                    + seq!['\n']);
            }
            i = i + 1;
        }
        proof {
            assert(self@.take(self@.len() as int) =~= self@);
        }
        r
    }

    /// Walks the chain for a stripped command: the first handler that
    /// claims it settles it or names the collaborator call it needs; if
    /// none claims it, the command is ignored.
    pub fn match_handler(&self, msg: &str) -> (r: ChainStep)
        ensures
            match first_claim(self@, msg@) {
                None => r matches ChainStep::Settled(out) && out is Ignored,
                Some(i) => chain_step_ok(self@, i, msg@, Seq::empty(), r) && (r matches ChainStep::Settled(out)
                    ==> out !is Ignored),
            },
    {
        let n = self.handlers.len();
        let mut i: usize = 0;
        while i < n
            invariant
                i <= n,
                n == self@.len(),
                forall|j: int| 0 <= j < i ==> !self@[j].claims_spec(msg@),
            decreases n - i,
        {
            if self.handlers[i].claims(msg) {
                proof {
                    lemma_first_claim_at(self@, msg@, i as int);
                }
                let empty: Vec<UpstreamEvent> = Vec::new();
                let step = self.handlers[i].step(msg, &empty);
                match step {
                    HandlerStep::Done(res) => {
                        let ghost gres = res;
                        let out = match res {
                            Ok(v) => DispatchOutcome::Answered(v),
                            Err(e) => DispatchOutcome::Failed(e.render()),
                        };
                        proof {
                            assert(self@[i as int].step_ok(
                                msg@,
                                Seq::<UpstreamEvent>::empty(),
                                HandlerStep::Done(gres),
                            ));
                            assert(settle_of(gres, out));
                        }
                        return ChainStep::Settled(out);
                    },
                    HandlerStep::Fetch(req) => {
                        let sess = ChainSession {
                            index: i,
                            msg: msg.to_owned(),
                            events: Vec::new(),
                        };
                        return ChainStep::Pending(req, sess);
                    },
                }
            }
            i = i + 1;
        }
        proof {
            lemma_first_claim_none(self@, msg@);
        }
        ChainStep::Settled(DispatchOutcome::Ignored)
    }

    /// Resumes a waiting walk with what the collaborator call produced.
    /// A session that does not belong to this registry settles as a
    /// failure instead of touching any handler.
    pub fn resume_match(&self, sess: ChainSession, ev: UpstreamEvent) -> (r: ChainStep)
        ensures
            (sess.index < self@.len() && self@[sess.index as int].claims_spec(sess.msg@))
                ==> chain_step_ok(self@, sess.index as int, sess.msg@, sess.events@.push(ev), r),
            !(sess.index < self@.len() && self@[sess.index as int].claims_spec(sess.msg@)) ==> (
            r matches ChainStep::Settled(out) && out is Failed),
    {
        let ChainSession { index, msg, mut events } = sess;
        if index >= self.handlers.len() {
            return ChainStep::Settled(
                DispatchOutcome::Failed(String::from_str("stale dispatch session")),
            );
        }
        if !self.handlers[index].claims(msg.as_str()) {
            return ChainStep::Settled(
                DispatchOutcome::Failed(String::from_str("stale dispatch session")),
            );
        }
        events.push(ev);
        let step = self.handlers[index].step(msg.as_str(), &events);
        match step {
            HandlerStep::Done(res) => {
                let ghost gres = res;
                let out = match res {
                    Ok(v) => DispatchOutcome::Answered(v),
                    Err(e) => DispatchOutcome::Failed(e.render()),
                };
                proof {
                    assert(settle_of(gres, out));
                }
                ChainStep::Settled(out)
            },
            HandlerStep::Fetch(req) => ChainStep::Pending(
                req,
                ChainSession { index, msg, events },
            ),
        }
    }
}

// ------------------------------------------------------------------
// Laws of the chain walk.
// ------------------------------------------------------------------
/// The walk is deterministic: a handler that claims the command, with
/// every earlier handler declining, is the one the walk picks.
pub proof fn lemma_first_claim_at(hs: Seq<HandlerRecord>, msg: Seq<char>, i: int)
    requires
        0 <= i < hs.len(),
        hs[i].claims_spec(msg),
        forall|j: int| 0 <= j < i ==> !hs[j].claims_spec(msg),
    ensures
        first_claim(hs, msg) == Some(i),
    decreases i,
{
    if i == 0 {
    } else {
        assert(!hs[0].claims_spec(msg));
        assert(hs.skip(1)[i - 1] == hs[i]);
        assert forall|j: int| 0 <= j < i - 1 implies !hs.skip(1)[j].claims_spec(msg) by {
            assert(hs.skip(1)[j] == hs[j + 1]);
        }
        lemma_first_claim_at(hs.skip(1), msg, i - 1);
    }
}

/// The walk is exhausted exactly when no handler claims the command.
pub proof fn lemma_first_claim_none(hs: Seq<HandlerRecord>, msg: Seq<char>)
    requires
        forall|j: int| 0 <= j < hs.len() ==> !hs[j].claims_spec(msg),
    ensures
        first_claim(hs, msg) is None,
    decreases hs.len(),
{
    if hs.len() > 0 {
        assert forall|j: int| 0 <= j < hs.skip(1).len() implies !hs.skip(1)[j].claims_spec(
            msg,
        ) by {
            assert(hs.skip(1)[j] == hs[j + 1]);
        }
        lemma_first_claim_none(hs.skip(1), msg);
    }
}

/// What the walk picks is a claiming handler, and every handler before
/// it declined.
pub proof fn lemma_first_claim_found(hs: Seq<HandlerRecord>, msg: Seq<char>)
    ensures
        first_claim(hs, msg) matches Some(i) ==> 0 <= i < hs.len() && hs[i].claims_spec(msg)
            && forall|j: int| 0 <= j < i ==> !hs[j].claims_spec(msg),
    decreases hs.len(),
{
    if hs.len() > 0 && !hs[0].claims_spec(msg) {
        lemma_first_claim_found(hs.skip(1), msg);
        match first_claim(hs.skip(1), msg) {
            Some(k) => {
                assert(hs.skip(1)[k] == hs[k + 1]);
                assert forall|j: int| 0 <= j < k + 1 implies !hs[j].claims_spec(msg) by {
                    if j > 0 {
                        assert(hs.skip(1)[j - 1] == hs[j]);
                    }
                }
            },
            None => {},
        }
    }
}

/// Handlers after the one that claims a command play no part in it: any
/// extension of the chain beyond that handler walks the same.
pub proof fn lemma_chain_ignores_tail(
    hs: Seq<HandlerRecord>,
    msg: Seq<char>,
    i: int,
    tail: Seq<HandlerRecord>,
)
    requires
        first_claim(hs, msg) == Some(i),
    ensures
        first_claim(hs.take(i + 1) + tail, msg) == Some(i),
{
    lemma_first_claim_found(hs, msg);
    let ext = hs.take(i + 1) + tail;
    assert(ext[i] == hs[i]);
    assert forall|j: int| 0 <= j < i implies !ext[j].claims_spec(msg) by {
        assert(ext[j] == hs[j]);
    }
    lemma_first_claim_at(ext, msg, i);
}

/// Registration order alone decides the walk: registries holding the
/// same handlers in the same order pick the same handler and admit the
/// same steps, for every command.
pub proof fn lemma_registration_determines_walk(
    a: Seq<HandlerRecord>,
    b: Seq<HandlerRecord>,
    msg: Seq<char>,
)
    requires
        a =~= b,
    ensures
        first_claim(a, msg) == first_claim(b, msg),
        forall|i: int, events: Seq<UpstreamEvent>, r: ChainStep|
            chain_step_ok(a, i, msg, events, r) == #[trigger] chain_step_ok(b, i, msg, events, r),
{
}

/// The needle stands in the hay at the given position, in full.
pub open spec fn appears_at(hay: Seq<char>, needle: Seq<char>, off: int) -> bool {
    0 <= off && off + needle.len() <= hay.len() && hay.subrange(off, off + needle.len()) == needle
}

/// Every handler's one-line summary stands in the joined summaries, in
/// full, at some position.
pub proof fn lemma_describe_lines_contain(hs: Seq<HandlerRecord>, i: int)
    requires
        0 <= i < hs.len(),
    ensures
        exists|off: int| appears_at(describe_lines(hs), hs[i].describe_spec(), off),
    decreases hs.len(),
{
    let d = hs[i].describe_spec();
    let pre = describe_lines(hs.take(hs.len() - 1));
    assert(describe_lines(hs) == pre + hs.last().describe_spec() + seq!['\n']);
    if i == hs.len() - 1 {
        let off = pre.len() as int;
        assert(hs.last() == hs[i]);
        assert(describe_lines(hs).subrange(off, off + d.len()) =~= d);
        assert(appears_at(describe_lines(hs), d, off));
    } else {
        let front = hs.take(hs.len() - 1);
        assert(front[i] == hs[i]);
        lemma_describe_lines_contain(front, i);
        let off = choose|off: int| appears_at(describe_lines(front), front[i].describe_spec(), off);
        assert(describe_lines(hs).subrange(off, off + d.len()) =~= describe_lines(front).subrange(
            off,
            off + d.len(),
        ));
        assert(appears_at(describe_lines(hs), d, off));
    }
}

} // verus!
