//! The RPC-facing ingress service: the message filter, the command
//! router, and the reduction of every dispatch into exactly one reply.
//!
//! A reply is produced at once where no collaborator is needed; where one
//! is, the service hands back the call to perform and a session, and the
//! caller resumes with the outcome.  Internal failures never leave the
//! boundary: the caller sees one fixed opaque line.

use vstd::prelude::*;
use vstd::string::StrSliceExecFns;
use vstd::string::StringExecFns;
use crate::config::Config;
use crate::error::Error;
use crate::gpt::choice0_of;
use crate::gpt::completion_reads_ok;
use crate::gpt::completion_value_of;
use crate::gpt::gpt_body_with_user_spec;
use crate::gpt::GPTProxy;
use crate::handler::appears_at;
use crate::handler::describe_lines;
use crate::handler::first_claim;
use crate::handler::lemma_describe_lines_contain;
use crate::handler::ChainSession;
use crate::handler::ChainStep;
use crate::handler::DispatchOutcome;
use crate::handler::Handler;
use crate::handler::HandlerMgr;
use crate::handler::HandlerRecord;
use crate::handler::HandlerStep;
use crate::help::Help;
use crate::huangli::HuangLi;
use crate::gamble::Gamble;
use crate::basic_market_info::BasicMakertInfo;
use crate::text::ltrim_spec;
use crate::text::str_eq;
use crate::text::trim_spec;
use crate::text::trim_str;
use crate::upstream::UpstreamEvent;
use crate::upstream::UpstreamRequest;

verus! {

/// One inbound chat event, as the RPC boundary hands it over.
pub struct InboundEvent {
    pub room_id: String,
    pub is_room_message: bool,
    pub is_mentioned: bool,
    pub content: String,
}

/// The response code of one reply.
#[derive(Debug, PartialEq, Eq)]
pub enum RespCode {
    Okay,
    Ignore,
}

/// One reply over the RPC boundary.
#[derive(Debug, PartialEq, Eq)]
pub struct MessageResp {
    pub code: RespCode,
    pub response: String,
}

/// What the router decides about a trimmed message.
#[derive(Debug, PartialEq, Eq)]
pub enum RouteDecision {
    /// No trigger prefix: the conversational fallback path applies.
    NotACommand,
    /// The reserved help token.
    HelpRequested,
    /// A command, with the trigger prefix stripped.
    Dispatch(String),
}

/// The fixed opaque line the RPC caller sees on any internal failure.
pub open spec fn oops_spec() -> Seq<char> {
    "哦豁"@
}

/// Decides whether the trimmed content is the help token, a command, or
/// plain conversation, stripping exactly one leading trigger character
/// from a command.
pub fn route(content: &str) -> (r: RouteDecision)
    ensures
        content@ == "/help"@ ==> r is HelpRequested,
        content@ != "/help"@ && (content@.len() == 0 || content@[0] != '/') ==> r is NotACommand,
        content@ != "/help"@ && content@.len() > 0 && content@[0] == '/' ==> (
        r matches RouteDecision::Dispatch(cmd) && cmd@ == content@.skip(1)),
{
    if str_eq(content, "/help") {
        return RouteDecision::HelpRequested;
    }
    let n = content.unicode_len();
    if n == 0 {
        return RouteDecision::NotACommand;
    }
    if content.get_char(0) == '/' {
        let rest = content.substring_char(1, n).to_owned();
        proof {
            assert(content@.subrange(1, n as int) =~= content@.skip(1));
        }
        RouteDecision::Dispatch(rest)
    } else {
        RouteDecision::NotACommand
    }
}

/// The room identifier stands in the allow-list.
pub open spec fn room_known(rooms: Seq<String>, room_id: Seq<char>) -> bool {
    exists|i: int| 0 <= i < rooms.len() && (#[trigger] rooms[i])@ == room_id
}

/// The event is addressed to us: a room message, from an allowed room,
/// with an explicit mention.  All three are mandatory.
pub open spec fn is_addressed_spec(ev: &InboundEvent, rooms: Seq<String>) -> bool {
    ev.is_room_message && room_known(rooms, ev.room_id@) && ev.is_mentioned
}

/// The message filter: cheap, with no side effects.
pub fn is_addressed(ev: &InboundEvent, rooms: &Vec<String>) -> (r: bool)
    ensures
        r == is_addressed_spec(ev, rooms@),
{
    if !ev.is_room_message {
        return false;
    }
    if !ev.is_mentioned {
        return false;
    }
    let n = rooms.len();
    let mut i: usize = 0;
    while i < n
        invariant
            i <= n,
            n == rooms@.len(),
            ev.is_room_message,
            ev.is_mentioned,
            forall|j: int| 0 <= j < i ==> (#[trigger] rooms@[j])@ != ev.room_id@,
        decreases n - i,
    {
        if str_eq(rooms[i].as_str(), ev.room_id.as_str()) {
            proof {
                assert((rooms@[i as int])@ == ev.room_id@);
                assert(room_known(rooms@, ev.room_id@));
            }
            return true;
        }
        i = i + 1;
    }
    false
}

/// The filter over the configured rooms: production and staging.
pub open spec fn addressed_spec(cfg: &Config, ev: &InboundEvent) -> bool {
    ev.is_room_message && (ev.room_id@ == cfg.room_id_dev@ || ev.room_id@ == cfg.room_id@)
        && ev.is_mentioned
}

/// The aggregate help text: the fixed header, every handler's one-line
/// summary in registration order, and the fixed closing line.
pub open spec fn help_text_spec(hs: Seq<HandlerRecord>) -> Seq<char> {
    "可用指令列表：\n"@ + describe_lines(hs) + "其他问题直接@你爹"@
}

/// A dispatch waiting on one collaborator call: inside the handler
/// chain, or on the conversational fallback path.
#[derive(Debug, PartialEq, Eq)]
pub enum DispatchSession {
    Chain(ChainSession),
    Fallback,
}

/// One move of the ingress service: a reply, or the collaborator call to
/// perform before resuming with its outcome.
#[derive(Debug, PartialEq, Eq)]
pub enum IngressStep {
    Reply(MessageResp),
    Fetch(UpstreamRequest, DispatchSession),
}

/// The completion request of the fallback conversational path, fixed by
/// the configuration and the trimmed content alone.
pub open spec fn fallback_request_ok(cfg: &Config, content: Seq<char>, req: UpstreamRequest) -> bool {
    req matches UpstreamRequest::PostJson { url, token, body } && url@ == cfg.gpt_api@
        + "/chat/completions"@ && token@ == cfg.gpt_token@ && body@ == gpt_body_with_user_spec(
        cfg.model@,
        cfg.tieba_pre_set@ + content,
        cfg.user_id@,
    )
}

/// How a settled handler step leaves the boundary: an answer stands, a
/// failure is masked by the opaque line.
pub open spec fn reply_text_of(res: Result<String, Error>, text: Seq<char>) -> bool {
    match res {
        Ok(v) => text == v@,
        Err(_) => text == oops_spec(),
    }
}

/// What the service may produce while handler `i` owns the command.
pub open spec fn chain_reply_ok(
    hs: Seq<HandlerRecord>,
    i: int,
    cmd: Seq<char>,
    events: Seq<UpstreamEvent>,
    r: IngressStep,
) -> bool {
    match r {
        IngressStep::Reply(m) => m.code is Okay && exists|res: Result<String, Error>|
            #[trigger] hs[i].step_ok(cmd, events, HandlerStep::Done(res)) && reply_text_of(
                res,
                m.response@,
            ),
        IngressStep::Fetch(req, sess) => hs[i].step_ok(cmd, events, HandlerStep::Fetch(req)) && (
        sess matches DispatchSession::Chain(cs) && cs.index == i && cs.msg@ == cmd && cs.events@
            == events),
    }
}

/// Everything the first move of one dispatch may be, for every shape of
/// inbound event.
pub open spec fn ingress_start_ok(
    hs: Seq<HandlerRecord>,
    cfg: &Config,
    ev: &InboundEvent,
    r: IngressStep,
) -> bool {
    let t = trim_spec(ev.content@);
    if !addressed_spec(cfg, ev) {
        r matches IngressStep::Reply(m) && m.code is Ignore && m.response@ == Seq::<char>::empty()
    } else if t == "/help"@ {
        r matches IngressStep::Reply(m) && m.code is Okay && m.response@ == help_text_spec(hs)
    } else if t.len() > 0 && t[0] == '/' {
        match first_claim(hs, t.skip(1)) {
            None => r matches IngressStep::Reply(m) && m.code is Okay && m.response@
                == oops_spec(),
            Some(i) => chain_reply_ok(hs, i, t.skip(1), Seq::empty(), r),
        }
    } else {
        r matches IngressStep::Fetch(req, sess) && sess is Fallback && fallback_request_ok(
            cfg,
            t,
            req,
        )
    }
}

/// How a fallback completion answer leaves the boundary: the first
/// completion text of the returned body, with leading white space
/// removed; an answer without one is masked by the opaque line.
pub open spec fn fallback_reply_ok(cfg: &Config, ev: UpstreamEvent, r: IngressStep) -> bool {
    r matches IngressStep::Reply(m) && m.code is Okay && (match ev {
        UpstreamEvent::Failure { .. } => m.response@ == oops_spec(),
        UpstreamEvent::Body(b) => match completion_value_of(b@) {
            Option::Some(c) => m.response@ == ltrim_spec(c),
            Option::None => m.response@ == oops_spec(),
        },
    })
}

/// Everything a resumed dispatch may produce for the outcome of the
/// collaborator call it was waiting on.
pub open spec fn ingress_resume_ok(
    hs: Seq<HandlerRecord>,
    cfg: &Config,
    sess: DispatchSession,
    ev: UpstreamEvent,
    r: IngressStep,
) -> bool {
    match sess {
        DispatchSession::Fallback => fallback_reply_ok(cfg, ev, r),
        DispatchSession::Chain(cs) => {
            if cs.index < hs.len() && hs[cs.index as int].claims_spec(cs.msg@) {
                chain_reply_ok(hs, cs.index as int, cs.msg@, cs.events@.push(ev), r)
            } else {
                r matches IngressStep::Reply(m) && m.code is Okay && m.response@ == oops_spec()
            }
        },
    }
}

/// The boundary orchestrator: the registry and the settings it dispatches
/// with.
pub struct ProxyService {
    pub handlers: HandlerMgr,
    pub config: Config,
}

impl ProxyService {
    pub fn new(config: Config) -> (r: Self)
        ensures
            r.handlers@ == Seq::<HandlerRecord>::empty(),
            r.config == config,
    {
        ProxyService { handlers: HandlerMgr::new(), config }
    }

    /// Registers the four real handlers, in the fixed startup order.
    pub fn register_handlers(&mut self)
        ensures
            final (self).config == old(self).config,
            final (self).handlers@ == old(self).handlers@ + seq![
                HandlerRecord::Market(
                    (BasicMakertInfo {
                        nowapi_appkey: old(self).config.nowapi_appkey,
                        nowapi_token: old(self).config.nowapi_token,
                    }),
                ),
                HandlerRecord::Gamble((Gamble { gpt_token: old(self).config.gpt_token })),
                HandlerRecord::Almanac((HuangLi { api_key: old(self).config.huangli_apikey })),
                HandlerRecord::HelpCmd((Help {  })),
            ],
    {
        self.handlers.register_handler(
            HandlerRecord::Market(
                BasicMakertInfo::new(
                    self.config.nowapi_appkey.clone(),
                    self.config.nowapi_token.clone(),
                ),
            ),
        );
        self.handlers.register_handler(
            HandlerRecord::Gamble(Gamble::new(self.config.gpt_token.clone())),
        );
        self.handlers.register_handler(
            HandlerRecord::Almanac(HuangLi::new(self.config.huangli_apikey.clone())),
        );
        self.handlers.register_handler(HandlerRecord::HelpCmd(Help::new()));
        proof {
            assert(self.handlers@ =~= old(self).handlers@ + seq![
                HandlerRecord::Market(
                    (BasicMakertInfo {
                        nowapi_appkey: old(self).config.nowapi_appkey,
                        nowapi_token: old(self).config.nowapi_token,
                    }),
                ),
                HandlerRecord::Gamble((Gamble { gpt_token: old(self).config.gpt_token })),
                HandlerRecord::Almanac((HuangLi { api_key: old(self).config.huangli_apikey })),
                HandlerRecord::HelpCmd((Help {  })),
            ]);
        }
    }

    /// Synthesises the aggregate help text; no handler is stepped.
    pub fn handle_help(&self) -> (r: String)
        ensures
            r@ == help_text_spec(self.handlers@),
    {
        let mut r = String::from_str("可用指令列表：\n");
        let lines = self.handlers.joined_describes();
        r.append(lines.as_str());
        r.append("其他问题直接@你爹");
        r
    }

    fn oops_reply(&self) -> (r: IngressStep)
        ensures
            r matches IngressStep::Reply(m) && m.code is Okay && m.response@ == oops_spec(),
    {
        IngressStep::Reply(
            MessageResp { code: RespCode::Okay, response: String::from_str("哦豁") },
        )
    }

    /// Handles one inbound event: filters it, routes it, and either
    /// replies at once or names the collaborator call to perform.
    pub fn on_message(&self, ev: &InboundEvent) -> (r: IngressStep)
        ensures
            ingress_start_ok(self.handlers@, &self.config, ev, r),
    {
        let mut rooms: Vec<String> = Vec::new();
        rooms.push(self.config.room_id_dev.clone());
        rooms.push(self.config.room_id.clone());
        let addressed = is_addressed(ev, &rooms);
        proof {
            assert(rooms@.len() == 2);
            assert(rooms@[0]@ == self.config.room_id_dev@);
            assert(rooms@[1]@ == self.config.room_id@);
            if ev.room_id@ == self.config.room_id_dev@ {
                assert(room_known(rooms@, ev.room_id@));
            }
            if ev.room_id@ == self.config.room_id@ {
                assert(room_known(rooms@, ev.room_id@));
            }
            assert(addressed == addressed_spec(&self.config, ev));
        }
        if !addressed {
            return IngressStep::Reply(
                MessageResp { code: RespCode::Ignore, response: String::new() },
            );
        }
        let trimmed = trim_str(self.content_of(ev));
        match route(trimmed) {
            RouteDecision::HelpRequested => IngressStep::Reply(
                MessageResp { code: RespCode::Okay, response: self.handle_help() },
            ),
            RouteDecision::Dispatch(cmd) => {
                match self.handlers.match_handler(cmd.as_str()) {
                    ChainStep::Settled(out) => match out {
                        DispatchOutcome::Answered(t) => IngressStep::Reply(
                            MessageResp { code: RespCode::Okay, response: t },
                        ),
                        DispatchOutcome::Ignored => self.oops_reply(),
                        DispatchOutcome::Failed(_detail) => self.oops_reply(),
                    },
                    ChainStep::Pending(req, cs) => IngressStep::Fetch(
                        req,
                        DispatchSession::Chain(cs),
                    ),
                }
            },
            RouteDecision::NotACommand => {
                let proxy = GPTProxy::new(
                    self.config.model.clone(),
                    self.config.user_id.clone(),
                    self.config.gpt_api.clone(),
                    self.config.gpt_token.clone(),
                    self.config.tieba_pre_set.clone(),
                );
                let req = proxy.query_request(trimmed);
                IngressStep::Fetch(req, DispatchSession::Fallback)
            },
        }
    }

    fn content_of<'a>(&self, ev: &'a InboundEvent) -> (r: &'a str)
        ensures
            r@ == ev.content@,
    {
        ev.content.as_str()
    }

    /// Resumes one dispatch with what its collaborator call produced.
    pub fn resume(&self, sess: DispatchSession, ev: UpstreamEvent) -> (r: IngressStep)
        ensures
            ingress_resume_ok(self.handlers@, &self.config, sess, ev, r),
    {
        match sess {
            DispatchSession::Fallback => {
                match ev {
                    UpstreamEvent::Failure { status: _, url: _, detail: _ } => self.oops_reply(),
                    UpstreamEvent::Body(b) => {
                        let proxy = GPTProxy::new(
                            self.config.model.clone(),
                            self.config.user_id.clone(),
                            self.config.gpt_api.clone(),
                            self.config.gpt_token.clone(),
                            self.config.tieba_pre_set.clone(),
                        );
                        match proxy.query_conclude(b.as_str()) {
                            Ok(v) => {
                                proof {
                                    assert(completion_reads_ok(b@));
                                    assert(completion_value_of(b@) == Some(choice0_of(b@)));
                                    assert(v@ == ltrim_spec(choice0_of(b@)));
                                }
                                IngressStep::Reply(MessageResp { code: RespCode::Okay, response: v })
                            },
                            Err(_e) => {
                                proof {
                                    assert(completion_value_of(b@) is None);
                                }
                                self.oops_reply()
                            },
                        }
                    },
                }
            },
            DispatchSession::Chain(cs) => {
                match self.handlers.resume_match(cs, ev) {
                    ChainStep::Settled(out) => match out {
                        DispatchOutcome::Answered(t) => IngressStep::Reply(
                            MessageResp { code: RespCode::Okay, response: t },
                        ),
                        DispatchOutcome::Ignored => self.oops_reply(),
                        DispatchOutcome::Failed(_detail) => self.oops_reply(),
                    },
                    ChainStep::Pending(req, cs2) => IngressStep::Fetch(
                        req,
                        DispatchSession::Chain(cs2),
                    ),
                }
            },
        }
    }
}

// ------------------------------------------------------------------
// Laws of the ingress service.
// ------------------------------------------------------------------
/// An addressed message without the trigger prefix takes the fallback
/// conversational path: its first move is fixed by the settings alone,
/// whatever handlers are registered, and the registry is never consulted.
pub proof fn lemma_fallback_ignores_registry(
    hs1: Seq<HandlerRecord>,
    hs2: Seq<HandlerRecord>,
    cfg: &Config,
    ev: &InboundEvent,
    r: IngressStep,
)
    requires
        addressed_spec(cfg, ev),
        trim_spec(ev.content@) != "/help"@,
        trim_spec(ev.content@).len() == 0 || trim_spec(ev.content@)[0] != '/',
        ingress_start_ok(hs1, cfg, ev, r),
    ensures
        ingress_start_ok(hs2, cfg, ev, r),
{
}

/// The help token's reply lists every registered handler's one-line
/// summary, in full; no handler is stepped for it.
pub proof fn lemma_help_lists_every_handler(hs: Seq<HandlerRecord>, i: int)
    requires
        0 <= i < hs.len(),
    ensures
        exists|off: int| appears_at(help_text_spec(hs), hs[i].describe_spec(), off),
{
    lemma_describe_lines_contain(hs, i);
    let d = hs[i].describe_spec();
    let off0 = choose|off: int| appears_at(describe_lines(hs), d, off);
    let header = "可用指令列表：\n"@;
    let off = header.len() + off0;
    assert(help_text_spec(hs).subrange(off, off + d.len()) =~= describe_lines(hs).subrange(
        off0,
        off0 + d.len(),
    ));
    assert(appears_at(help_text_spec(hs), d, off));
}

} // verus!
