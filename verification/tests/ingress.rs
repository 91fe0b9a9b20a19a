//! The ingress service: the filter, the router, the help token, the
//! fallback conversational path, and the masking of internal failures.

use wechat_bot_core::config::Config;
use wechat_bot_core::handler::HandlerRecord;
use wechat_bot_core::handler::StubHandler;
use wechat_bot_core::handler::StubScript;
use wechat_bot_core::server::route;
use wechat_bot_core::server::DispatchSession;
use wechat_bot_core::server::InboundEvent;
use wechat_bot_core::server::IngressStep;
use wechat_bot_core::server::ProxyService;
use wechat_bot_core::server::RespCode;
use wechat_bot_core::server::RouteDecision;
use wechat_bot_core::upstream::UpstreamEvent;
use wechat_bot_core::upstream::UpstreamRequest;

fn test_config() -> Config {
    Config {
        room_id: "room-prod".to_string(),
        room_id_dev: "room-dev".to_string(),
        gpt_api: "https://gpt.example".to_string(),
        gpt_token: "tok".to_string(),
        model: "m1".to_string(),
        user_id: "u1".to_string(),
        tieba_pre_set: "PRE ".to_string(),
        nowapi_token: "nt".to_string(),
        nowapi_appkey: "na".to_string(),
        huangli_apikey: "hk".to_string(),
        tanshu_apikey: "tk".to_string(),
    }
}

fn event(room: &str, is_room: bool, mentioned: bool, content: &str) -> InboundEvent {
    InboundEvent {
        room_id: room.to_string(),
        is_room_message: is_room,
        is_mentioned: mentioned,
        content: content.to_string(),
    }
}

fn stub(pattern: &str, summary: &str, script: StubScript) -> HandlerRecord {
    HandlerRecord::Stub(StubHandler {
        pattern: pattern.to_string(),
        summary: summary.to_string(),
        script,
    })
}

fn reply(step: IngressStep) -> (RespCode, String) {
    match step {
        IngressStep::Reply(m) => (m.code, m.response),
        IngressStep::Fetch(_, _) => panic!("expected a reply"),
    }
}

#[test]
fn unaddressed_events_are_ignored_with_empty_response() {
    let svc = ProxyService::new(test_config());
    let cases = [
        event("room-prod", false, true, "/help"),
        event("room-prod", true, false, "/help"),
        event("elsewhere", true, true, "/help"),
    ];
    for ev in cases {
        let (code, response) = reply(svc.on_message(&ev));
        assert_eq!(code, RespCode::Ignore);
        assert_eq!(response, "".to_string());
    }
}

#[test]
fn router_strips_exactly_one_trigger_character() {
    match route("/foo bar") {
        RouteDecision::Dispatch(cmd) => assert_eq!(cmd, "foo bar".to_string()),
        other => panic!("expected a command, got {:?}", other),
    }
    match route("//double") {
        RouteDecision::Dispatch(cmd) => assert_eq!(cmd, "/double".to_string()),
        other => panic!("expected a command, got {:?}", other),
    }
    assert_eq!(route("no prefix"), RouteDecision::NotACommand);
    assert_eq!(route(""), RouteDecision::NotACommand);
    assert_eq!(route("/help"), RouteDecision::HelpRequested);
}

#[test]
fn dispatched_command_reaches_the_claiming_handler() {
    let mut svc = ProxyService::new(test_config());
    svc.handlers.register_handler(stub("foo bar", "/foo", StubScript::Answer("hit".to_string())));
    let (code, response) = reply(svc.on_message(&event("room-dev", true, true, "  /foo bar  ")));
    assert_eq!(code, RespCode::Okay);
    assert_eq!(response, "hit".to_string());
}

#[test]
fn handler_failure_is_masked_by_the_opaque_line() {
    let mut svc = ProxyService::new(test_config());
    svc.handlers.register_handler(stub(
        "boom",
        "/boom",
        StubScript::FailUpstream {
            status: 500,
            url: "http://up".to_string(),
            response: "x".to_string(),
        },
    ));
    let (code, response) = reply(svc.on_message(&event("room-prod", true, true, "/boom")));
    assert_eq!(code, RespCode::Okay);
    assert_eq!(response, "哦豁".to_string());
}

#[test]
fn unknown_command_is_masked_by_the_same_opaque_line() {
    let svc = ProxyService::new(test_config());
    let (code, response) = reply(svc.on_message(&event("room-prod", true, true, "/unknown")));
    assert_eq!(code, RespCode::Okay);
    assert_eq!(response, "哦豁".to_string());
}

#[test]
fn help_token_lists_every_summary_without_stepping_any_handler() {
    let mut svc = ProxyService::new(test_config());
    svc.handlers.register_handler(stub("a", "/a - alpha", StubScript::Answer("wrong".to_string())));
    svc.handlers.register_handler(stub(
        "b",
        "/b - beta",
        StubScript::Relay { url: "http://never-fetched".to_string() },
    ));
    let (code, response) = reply(svc.on_message(&event("room-prod", true, true, " /help ")));
    assert_eq!(code, RespCode::Okay);
    assert_eq!(response, "可用指令列表：\n/a - alpha\n/b - beta\n其他问题直接@你爹".to_string());
}

#[test]
fn plain_text_takes_the_fallback_path_and_never_the_registry() {
    let mut svc = ProxyService::new(test_config());
    svc.handlers.register_handler(stub(
        "hello there",
        "/h",
        StubScript::Answer("wrong path".to_string()),
    ));
    let step = svc.on_message(&event("room-prod", true, true, " hello there "));
    match step {
        IngressStep::Fetch(UpstreamRequest::PostJson { url, token, body }, sess) => {
            assert_eq!(sess, DispatchSession::Fallback);
            assert_eq!(url, "https://gpt.example/chat/completions".to_string());
            assert_eq!(token, "tok".to_string());
            assert_eq!(
                body,
                "{\"model\":\"m1\",\"messages\":[{\"role\":\"user\",\"content\":\"PRE hello there\"}],\"userid\":\"u1\"}".to_string(),
            );
        },
        other => panic!("expected the fallback fetch, got {:?}", other),
    }
}

#[test]
fn fallback_completion_is_returned_trimmed() {
    let svc = ProxyService::new(test_config());
    let body = "{\"choices\":[{\"message\":{\"content\":\"  hi there\"}}]}";
    let (code, response) = reply(svc.resume(
        DispatchSession::Fallback,
        UpstreamEvent::Body(body.to_string()),
    ));
    assert_eq!(code, RespCode::Okay);
    assert_eq!(response, "hi there".to_string());
}

#[test]
fn fallback_failure_is_masked() {
    let svc = ProxyService::new(test_config());
    let (code, response) = reply(svc.resume(
        DispatchSession::Fallback,
        UpstreamEvent::Failure {
            status: 500,
            url: "https://gpt.example/chat/completions".to_string(),
            detail: "down".to_string(),
        },
    ));
    assert_eq!(code, RespCode::Okay);
    assert_eq!(response, "哦豁".to_string());
}

#[test]
fn empty_completion_list_is_masked_not_echoed() {
    let svc = ProxyService::new(test_config());
    let (code, response) = reply(svc.resume(
        DispatchSession::Fallback,
        UpstreamEvent::Body("{\"choices\":[]}".to_string()),
    ));
    assert_eq!(code, RespCode::Okay);
    assert_eq!(response, "哦豁".to_string());
}

#[test]
fn registered_roster_answers_help_with_the_four_summaries() {
    let mut svc = ProxyService::new(test_config());
    svc.register_handlers();
    let text = svc.handle_help();
    assert!(text.contains("/help - 显示此帮助信息"));
    assert!(text.contains("/牛回 或 /牛死 - 炒股biss"));
    assert!(text.contains("/算命 - 迷信biss"));
    assert!(text.contains("/戒赌 - 赌狗biss"));
    assert!(text.starts_with("可用指令列表：\n"));
    assert!(text.ends_with("其他问题直接@你爹"));
}

#[test]
fn chain_session_resumes_through_the_service() {
    let mut svc = ProxyService::new(test_config());
    svc.handlers.register_handler(stub(
        "relay",
        "/relay",
        StubScript::Relay { url: "http://x".to_string() },
    ));
    let sess = match svc.on_message(&event("room-prod", true, true, "/relay")) {
        IngressStep::Fetch(UpstreamRequest::Get { url }, DispatchSession::Chain(cs)) => {
            assert_eq!(url, "http://x".to_string());
            cs
        },
        other => panic!("expected a chain fetch, got {:?}", other),
    };
    let (code, response) = reply(svc.resume(
        DispatchSession::Chain(sess),
        UpstreamEvent::Body("pong".to_string()),
    ));
    assert_eq!(code, RespCode::Okay);
    assert_eq!(response, "pong".to_string());
}

#[test]
fn almanac_command_runs_end_to_end_through_the_service() {
    let mut svc = ProxyService::new(test_config());
    svc.register_handlers();
    let sess = match svc.on_message(&event("room-prod", true, true, "/算命")) {
        IngressStep::Fetch(UpstreamRequest::Get { url }, DispatchSession::Chain(cs)) => {
            assert!(url.starts_with("http://v.juhe.cn/laohuangli/d?date="));
            assert!(url.ends_with("&key=hk"));
            cs
        },
        other => panic!("expected the almanac fetch, got {:?}", other),
    };
    let body = "{\"result\":{\"yi\":\"纳财\",\"ji\":\"动土\"}}";
    let (code, response) = reply(svc.resume(
        DispatchSession::Chain(sess),
        UpstreamEvent::Body(body.to_string()),
    ));
    assert_eq!(code, RespCode::Okay);
    assert_eq!(response, "宜：纳财\n忌: 动土".to_string());
}

#[test]
fn market_command_runs_end_to_end_through_the_service() {
    let mut svc = ProxyService::new(test_config());
    svc.register_handlers();
    let bodies = [
        "{\"result\":{\"lists\":{\"1114\":{\"yesy_price\":\"100.00\",\"last_price\":\"110.00\"}}}}".to_string(),
        "{\"result\":{\"lists\":{\"1015\":{\"yesy_price\":\"200.00\",\"last_price\":\"190.00\"}}}}".to_string(),
        "{\"data\":[[\"t\",\"50000\"]]}".to_string(),
        "{\"data\":[[\"t\",\"48000\"]]}".to_string(),
        "{\"data\":[[\"t\",\"3000\"]]}".to_string(),
        "{\"data\":[[\"t\",\"3100\"]]}".to_string(),
        "{\"data\":[[\"t\",\"150.5\"]]}".to_string(),
        "{\"data\":[[\"t\",\"150.0\"]]}".to_string(),
    ];
    let mut step = svc.on_message(&event("room-prod", true, true, "/牛回"));
    let mut supplied: usize = 0;
    let resp = loop {
        match step {
            IngressStep::Reply(m) => break m,
            IngressStep::Fetch(_, sess) => {
                assert!(supplied < bodies.len(), "more requests than answers");
                let body = bodies[supplied].clone();
                supplied += 1;
                step = svc.resume(sess, UpstreamEvent::Body(body));
            },
        }
    };
    assert_eq!(supplied, 8);
    assert_eq!(resp.code, RespCode::Okay);
    let expected_lines = "纳指 110.00 10.00%\n恒指 190.00 -5.00%\nBTC 50000.00 4.16%\nETH 3000.00 -3.22%\nSOL 150.50 0.33%\n";
    assert!(resp.response.starts_with(expected_lines), "got: {}", resp.response);
}
