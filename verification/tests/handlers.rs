//! The four real handlers, stepped on canned collaborator answers.

use wechat_bot_core::basic_market_info::candle_conclude;
use wechat_bot_core::basic_market_info::index_conclude;
use wechat_bot_core::basic_market_info::get_basic_info;
use wechat_bot_core::basic_market_info::BasicMakertInfo;
use wechat_bot_core::error::Error;
use wechat_bot_core::gamble::Gamble;
use wechat_bot_core::handler::Handler;
use wechat_bot_core::handler::HandlerStep;
use wechat_bot_core::help::Help;
use wechat_bot_core::huangli::almanac_conclude;
use wechat_bot_core::huangli::format_almanac;
use wechat_bot_core::huangli::HuangLi;
use wechat_bot_core::upstream::UpstreamEvent;
use wechat_bot_core::upstream::UpstreamRequest;

const HELP_TEXT: &str = "可用指令列表：\n/help - 显示此帮助信息\n/牛回 或 /牛死 - 炒股biss\n/算命 - 迷信biss\n/戒赌 - 赌狗biss\n\n其他问题直接@你爹";

#[test]
fn test_help() {
    let help = Help::new();
    match help.step("help", &Vec::new()) {
        HandlerStep::Done(Ok(v)) => println!("{}", v),
        other => panic!("{:?}", other),
    }
}

#[test]
fn help_claims_only_its_token_and_answers_the_command_list() {
    let help = Help::new();
    assert!(help.claims("help"));
    assert!(!help.claims("Help"));
    assert!(!help.claims(""));
    match help.step("help", &Vec::new()) {
        HandlerStep::Done(Ok(v)) => assert_eq!(v, HELP_TEXT.to_string()),
        other => panic!("{:?}", other),
    }
}

#[test]
fn almanac_first_step_asks_for_today_with_the_key() {
    let h = HuangLi::new("KEY9".to_string());
    assert!(h.claims("算命"));
    assert!(!h.claims("算命 明天"));
    match h.step("算命", &Vec::new()) {
        HandlerStep::Fetch(UpstreamRequest::Get { url }) => {
            assert!(url.starts_with("http://v.juhe.cn/laohuangli/d?date="));
            assert!(url.ends_with("&key=KEY9"));
        },
        other => panic!("{:?}", other),
    }
}

#[test]
fn almanac_answer_is_formatted_from_both_fields() {
    let body = "{\"result\":{\"yi\":\"搬家\",\"ji\":\"出行\"}}";
    assert_eq!(almanac_conclude(body), Ok("宜：搬家\n忌: 出行".to_string()));
    assert_eq!(format_almanac("a", "b"), "宜：a\n忌: b".to_string());
}

#[test]
fn almanac_names_the_missing_piece() {
    assert_eq!(
        almanac_conclude("{\"unrelated\":1}"),
        Err(Error::ResultError("no result".to_string())),
    );
    assert_eq!(
        almanac_conclude("{\"result\":{\"ji\":\"x\"}}"),
        Err(Error::ResultError("invalid result for yi".to_string())),
    );
    assert_eq!(
        almanac_conclude("{\"result\":{\"yi\":7,\"ji\":\"x\"}}"),
        Err(Error::ResultError("parse failed for yi".to_string())),
    );
    assert_eq!(
        almanac_conclude("{\"result\":{\"yi\":\"x\"}}"),
        Err(Error::ResultError("invalid result for ji".to_string())),
    );
    assert!(matches!(almanac_conclude("not json"), Err(Error::JsonError(_))));
}

#[test]
fn almanac_transport_failure_becomes_an_http_error() {
    let h = HuangLi::new("k".to_string());
    let events = vec![UpstreamEvent::Failure {
        status: 502,
        url: "http://v.juhe.cn/laohuangli/d".to_string(),
        detail: "gateway".to_string(),
    }];
    match h.step("算命", &events) {
        HandlerStep::Done(Err(Error::HttpError { status, url, response })) => {
            assert_eq!(status, 502);
            assert_eq!(url, "http://v.juhe.cn/laohuangli/d".to_string());
            assert_eq!(response, "gateway".to_string());
        },
        other => panic!("{:?}", other),
    }
}

#[test]
fn odds_first_step_fetches_the_fixed_page() {
    let g = Gamble::new("tok".to_string());
    assert!(g.claims("戒赌"));
    assert!(!g.claims("戒"));
    match g.step("戒赌", &Vec::new()) {
        HandlerStep::Fetch(UpstreamRequest::Get { url }) => {
            assert_eq!(url, "https://www.aceodds.com/zh-cn/足球/英格兰超级联赛.html".to_string());
        },
        other => panic!("{:?}", other),
    }
}

#[test]
fn odds_page_is_reduced_to_its_table_before_the_summary_request() {
    let g = Gamble::new("tok".to_string());
    let html = "<html><body><p>noise</p><div class=\"table\">Arsenal vs Spurs</div></body></html>";
    let events = vec![UpstreamEvent::Body(html.to_string())];
    match g.step("戒赌", &events) {
        HandlerStep::Fetch(UpstreamRequest::PostJson { url, token, body }) => {
            assert_eq!(url, "https://api.302.ai/v1/chat/completions".to_string());
            assert_eq!(token, "tok".to_string());
            assert!(body.contains("Arsenal vs Spurs"));
            assert!(!body.contains("noise"));
            assert!(!body.contains("<div"));
        },
        other => panic!("{:?}", other),
    }
}

#[test]
fn odds_summary_answer_is_passed_through() {
    let g = Gamble::new("tok".to_string());
    let events = vec![
        UpstreamEvent::Body("<div class=\"table\">x</div>".to_string()),
        UpstreamEvent::Body("{\"choices\":[{\"message\":{\"content\":\"周六：阿森纳\"}}]}".to_string()),
    ];
    match g.step("戒赌", &events) {
        HandlerStep::Done(Ok(v)) => assert_eq!(v, "周六：阿森纳".to_string()),
        other => panic!("{:?}", other),
    }
}

#[test]
fn market_claims_both_commands() {
    let m = BasicMakertInfo::new("ak".to_string(), "tk".to_string());
    assert!(m.claims("牛回"));
    assert!(m.claims("牛死"));
    assert!(!m.claims("牛"));
}

#[test]
fn market_first_request_names_the_nasdaq_index() {
    let m = BasicMakertInfo::new("ak".to_string(), "tk".to_string());
    match m.step("牛回", &Vec::new()) {
        HandlerStep::Fetch(UpstreamRequest::Get { url }) => {
            assert_eq!(
                url,
                "https://sapi.k780.com/?app=finance.globalindex&inxids=1114&appkey=ak&sign=tk&format=json".to_string(),
            );
        },
        other => panic!("{:?}", other),
    }
}

#[test]
fn market_walks_through_all_eight_requests() {
    let m = BasicMakertInfo::new("ak".to_string(), "tk".to_string());
    let mut events: Vec<UpstreamEvent> = Vec::new();
    events.push(UpstreamEvent::Body("{}".to_string()));
    match m.step("牛死", &events) {
        HandlerStep::Fetch(UpstreamRequest::Get { url }) => {
            assert!(url.contains("inxids=1015"));
        },
        other => panic!("{:?}", other),
    }
    let expected_pairs = ["BTC-USDT", "BTC-USDT", "ETH-USDT", "ETH-USDT", "SOL-USDT", "SOL-USDT"];
    for pair in expected_pairs {
        events.push(UpstreamEvent::Body("{}".to_string()));
        match m.step("牛死", &events) {
            HandlerStep::Fetch(UpstreamRequest::Get { url }) => {
                assert!(url.starts_with(
                    "https://www.okx.com/api/v5/market/history-candles?instId=",
                ));
                assert!(url.contains(pair));
                assert!(url.contains("&after="));
            },
            other => panic!("{:?}", other),
        }
    }
}

fn index_body(prev: &str, cur: &str, inxid: &str) -> String {
    let mut s = String::from("{\"result\":{\"lists\":{\"");
    s.push_str(inxid);
    s.push_str("\":{\"yesy_price\":\"");
    s.push_str(prev);
    s.push_str("\",\"last_price\":\"");
    s.push_str(cur);
    s.push_str("\"}}}}");
    s
}

fn candle_body(price: &str) -> String {
    let mut s = String::from("{\"data\":[[\"1700000000000\",\"");
    s.push_str(price);
    s.push_str("\"]]}");
    s
}

#[test]
fn index_answer_yields_current_and_previous() {
    assert_eq!(index_conclude(&index_body("100.00", "101.5", "1114"), 1114), Ok((10150, 10000)));
    assert_eq!(
        index_conclude("{}", 1114),
        Err(Error::ResultError("failed to get result for index".to_string())),
    );
    assert_eq!(
        index_conclude(&index_body("100.00", "101.5", "1015"), 1114),
        Err(Error::ResultError("failed to get result for index".to_string())),
    );
}

#[test]
fn candle_answer_yields_the_newest_price() {
    assert_eq!(candle_conclude(&candle_body("64123.4")), Ok(6412340));
    assert_eq!(
        candle_conclude("{\"data\":[]}"),
        Err(Error::ResultError("no data".to_string())),
    );
    assert_eq!(
        candle_conclude("{\"nodata\":1}"),
        Err(Error::ResultError("failed to get data".to_string())),
    );
    assert!(matches!(
        candle_conclude("{\"data\":[[\"ts\",12]]}"),
        Err(Error::JsonError(_)),
    ));
}

#[test]
fn market_report_lists_values_changes_and_a_mood_line() {
    let mut events: Vec<UpstreamEvent> = Vec::new();
    events.push(UpstreamEvent::Body(index_body("100.00", "110.00", "1114")));
    events.push(UpstreamEvent::Body(index_body("200.00", "190.00", "1015")));
    for (now, ago) in [("50000", "48000"), ("3000", "3100"), ("150.5", "150.0")] {
        events.push(UpstreamEvent::Body(candle_body(now)));
        events.push(UpstreamEvent::Body(candle_body(ago)));
    }
    let text = get_basic_info(&events).expect("report");
    let expected_lines = "纳指 110.00 10.00%\n恒指 190.00 -5.00%\nBTC 50000.00 4.16%\nETH 3000.00 -3.22%\nSOL 150.50 0.33%\n";
    assert!(text.starts_with(expected_lines), "got: {}", text);
    let moods = [
        "买了。我买回了我卖掉的一切。我拥有的每一枚硬币都回来了。我完全重返了市场，激进的购买、巨大的泵，一切都那么享受。市场起飞了，我入场了。",
        "出10wu",
        "狂暴大牛牛",
        "洗脚去了",
    ];
    let tail = &text[expected_lines.len()..];
    assert!(moods.contains(&tail), "unexpected mood line: {}", tail);
}

#[test]
fn market_failure_event_fails_the_dispatch() {
    let m = BasicMakertInfo::new("ak".to_string(), "tk".to_string());
    let events = vec![UpstreamEvent::Failure {
        status: 429,
        url: "https://sapi.k780.com/".to_string(),
        detail: "too many".to_string(),
    }];
    match m.step("牛回", &events) {
        HandlerStep::Done(Err(Error::HttpError { status, .. })) => assert_eq!(status, 429),
        other => panic!("{:?}", other),
    }
}
