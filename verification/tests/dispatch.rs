//! The chain walk: first match wins, hard failures stop the walk, an
//! exhausted walk is ignored, and registration order decides everything.

use wechat_bot_core::handler::ChainStep;
use wechat_bot_core::handler::DispatchOutcome;
use wechat_bot_core::handler::HandlerMgr;
use wechat_bot_core::handler::HandlerRecord;
use wechat_bot_core::handler::StubHandler;
use wechat_bot_core::handler::StubScript;
use wechat_bot_core::upstream::UpstreamEvent;
use wechat_bot_core::upstream::UpstreamRequest;

fn stub(pattern: &str, summary: &str, script: StubScript) -> HandlerRecord {
    HandlerRecord::Stub(StubHandler {
        pattern: pattern.to_string(),
        summary: summary.to_string(),
        script,
    })
}

fn settled(step: ChainStep) -> DispatchOutcome {
    match step {
        ChainStep::Settled(out) => out,
        ChainStep::Pending(_, _) => panic!("walk should have settled"),
    }
}

#[test]
fn first_match_wins_and_later_handlers_are_skipped() {
    let mut mgr = HandlerMgr::new();
    mgr.register_handler(stub("other", "/other", StubScript::Answer("a".to_string())));
    mgr.register_handler(stub("cmd", "/cmd", StubScript::Answer("x".to_string())));
    mgr.register_handler(stub("cmd", "/cmd", StubScript::Answer("never".to_string())));
    let out = settled(mgr.match_handler("cmd"));
    assert_eq!(out, DispatchOutcome::Answered("x".to_string()));
}

#[test]
fn hard_failure_stops_the_walk() {
    let mut mgr = HandlerMgr::new();
    mgr.register_handler(stub(
        "cmd",
        "/cmd",
        StubScript::FailUpstream {
            status: 500,
            url: "http://upstream".to_string(),
            response: "boom".to_string(),
        },
    ));
    mgr.register_handler(stub("cmd", "/cmd", StubScript::Answer("never".to_string())));
    let out = settled(mgr.match_handler("cmd"));
    assert_eq!(out, DispatchOutcome::Failed("HTTP error 500: http://upstream".to_string()));
}

#[test]
fn exhausted_walk_is_ignored() {
    let mut mgr = HandlerMgr::new();
    mgr.register_handler(stub("a", "/a", StubScript::Answer("a".to_string())));
    mgr.register_handler(stub("b", "/b", StubScript::Answer("b".to_string())));
    let out = settled(mgr.match_handler("cmd"));
    assert_eq!(out, DispatchOutcome::Ignored);
}

#[test]
fn empty_registry_ignores_everything() {
    let mgr = HandlerMgr::new();
    assert_eq!(mgr.count(), 0);
    let out = settled(mgr.match_handler("anything"));
    assert_eq!(out, DispatchOutcome::Ignored);
}

#[test]
fn param_failure_keeps_its_diagnostic() {
    let mut mgr = HandlerMgr::new();
    mgr.register_handler(stub("cmd", "/cmd", StubScript::FailParam("bad input".to_string())));
    let out = settled(mgr.match_handler("cmd"));
    assert_eq!(out, DispatchOutcome::Failed("Invalid parameters: bad input".to_string()));
}

#[test]
fn pending_walk_resumes_with_the_body() {
    let mut mgr = HandlerMgr::new();
    mgr.register_handler(stub("r", "/r", StubScript::Relay { url: "http://x".to_string() }));
    let sess = match mgr.match_handler("r") {
        ChainStep::Pending(req, sess) => {
            assert_eq!(req, UpstreamRequest::Get { url: "http://x".to_string() });
            sess
        },
        ChainStep::Settled(_) => panic!("relay must fetch first"),
    };
    let out = settled(mgr.resume_match(sess, UpstreamEvent::Body("pong".to_string())));
    assert_eq!(out, DispatchOutcome::Answered("pong".to_string()));
}

#[test]
fn pending_walk_resumes_with_a_failure() {
    let mut mgr = HandlerMgr::new();
    mgr.register_handler(stub("r", "/r", StubScript::Relay { url: "http://x".to_string() }));
    let sess = match mgr.match_handler("r") {
        ChainStep::Pending(_, sess) => sess,
        ChainStep::Settled(_) => panic!("relay must fetch first"),
    };
    let out = settled(mgr.resume_match(
        sess,
        UpstreamEvent::Failure {
            status: 502,
            url: "http://x".to_string(),
            detail: "down".to_string(),
        },
    ));
    assert_eq!(out, DispatchOutcome::Failed("HTTP error 502: http://x".to_string()));
}

fn sample_registry() -> HandlerMgr {
    let mut mgr = HandlerMgr::new();
    mgr.register_handler(stub("a", "/a", StubScript::Answer("alpha".to_string())));
    mgr.register_handler(stub("b", "/b", StubScript::FailParam("beta".to_string())));
    mgr.register_handler(stub("a", "/a", StubScript::Answer("shadowed".to_string())));
    mgr
}

#[test]
fn same_registration_order_gives_same_outcomes() {
    let first = sample_registry();
    let second = sample_registry();
    for cmd in ["a", "b", "c", ""] {
        let one = settled(first.match_handler(cmd));
        let two = settled(second.match_handler(cmd));
        assert_eq!(one, two);
    }
}

#[test]
fn joined_describes_lists_in_order() {
    let mgr = sample_registry();
    assert_eq!(mgr.joined_describes(), "/a\n/b\n/a\n".to_string());
}
