//! Text helpers, price parsing, rendering, escaping, and the error lines.

use wechat_bot_core::basic_market_info::dec2_string;
use wechat_bot_core::basic_market_info::diff_string;
use wechat_bot_core::basic_market_info::parse_price;
use wechat_bot_core::error::Error;
use wechat_bot_core::gpt::gpt_body;
use wechat_bot_core::gpt::gpt_body_with_user;
use wechat_bot_core::gpt::json_escape;
use wechat_bot_core::gpt::queryGPT;
use wechat_bot_core::gpt::read_completion;
use wechat_bot_core::gpt::GPTProxy;
use wechat_bot_core::text::i64_to_string;
use wechat_bot_core::text::ltrim_str;
use wechat_bot_core::text::str_eq;
use wechat_bot_core::text::trim_str;
use wechat_bot_core::text::u64_to_string;
use wechat_bot_core::upstream::UpstreamRequest;

#[test]
fn trimming_removes_unicode_white_space_on_both_sides() {
    assert_eq!(trim_str("  a b\t\n"), "a b");
    assert_eq!(trim_str(""), "");
    assert_eq!(trim_str(" \t\n "), "");
    assert_eq!(trim_str("\u{3000}你好\u{2028}"), "你好");
    assert_eq!(trim_str("inner  space"), "inner  space");
    assert_eq!(ltrim_str("  lead and trail  "), "lead and trail  ");
}

#[test]
fn string_comparison_is_by_characters() {
    assert!(str_eq("", ""));
    assert!(str_eq("牛回", "牛回"));
    assert!(!str_eq("牛回", "牛死"));
    assert!(!str_eq("a", "ab"));
}

#[test]
fn integers_render_in_decimal() {
    assert_eq!(u64_to_string(0), "0");
    assert_eq!(u64_to_string(1234567890), "1234567890");
    assert_eq!(i64_to_string(-5), "-5");
    assert_eq!(i64_to_string(1700000000000), "1700000000000");
    assert_eq!(i64_to_string(i64::MIN), "-9223372036854775808");
}

#[test]
fn prices_parse_to_hundredths_with_truncation() {
    assert_eq!(parse_price("123.45"), Ok(12345));
    assert_eq!(parse_price("123.456"), Ok(12345));
    assert_eq!(parse_price("0.5"), Ok(50));
    assert_eq!(parse_price("7"), Ok(700));
    assert_eq!(parse_price("7."), Ok(700));
    assert_eq!(parse_price("0.00"), Ok(0));
}

#[test]
fn malformed_prices_are_parse_errors() {
    assert!(matches!(parse_price(""), Err(Error::JsonError(_))));
    assert!(matches!(parse_price(".5"), Err(Error::JsonError(_))));
    assert!(matches!(parse_price("1.2.3"), Err(Error::JsonError(_))));
    assert!(matches!(parse_price("12a"), Err(Error::JsonError(_))));
    assert!(matches!(parse_price("-3"), Err(Error::JsonError(_))));
    assert!(matches!(parse_price("99999999999999999"), Err(Error::JsonError(_))));
}

#[test]
fn values_and_changes_render_with_two_decimals() {
    assert_eq!(dec2_string(12345), "123.45");
    assert_eq!(dec2_string(7), "0.07");
    assert_eq!(diff_string(11000, 10000), "10.00");
    assert_eq!(diff_string(9000, 10000), "-10.00");
    assert_eq!(diff_string(10000, 10000), "0.00");
    assert_eq!(diff_string(100, 0), "inf");
    assert_eq!(diff_string(0, 0), "NaN");
}

#[test]
fn json_escaping_covers_quotes_escapes_and_controls() {
    assert_eq!(json_escape("plain"), "plain");
    assert_eq!(json_escape("a\"b\\c\nd"), "a\\\"b\\\\c\\nd");
    assert_eq!(json_escape("\r\t"), "\\r\\t");
    assert_eq!(json_escape("\u{1}"), "\\u0001");
    assert_eq!(json_escape("\u{1f}"), "\\u001f");
}

#[test]
fn completion_bodies_are_exact() {
    assert_eq!(
        gpt_body("m", "hi"),
        "{\"model\":\"m\",\"messages\":[{\"role\":\"user\",\"content\":\"hi\"}]}",
    );
    assert_eq!(
        gpt_body_with_user("m", "say \"hi\"", "u"),
        "{\"model\":\"m\",\"messages\":[{\"role\":\"user\",\"content\":\"say \\\"hi\\\"\"}],\"userid\":\"u\"}",
    );
}

#[test]
fn odds_completion_request_posts_to_the_fixed_endpoint() {
    match queryGPT("m".to_string(), "tok".to_string(), "text".to_string()) {
        UpstreamRequest::PostJson { url, token, body } => {
            assert_eq!(url, "https://api.302.ai/v1/chat/completions");
            assert_eq!(token, "tok");
            assert_eq!(
                body,
                "{\"model\":\"m\",\"messages\":[{\"role\":\"user\",\"content\":\"text\"}]}",
            );
        },
        other => panic!("{:?}", other),
    }
}

#[test]
fn proxy_appends_the_chat_path_and_the_prelude() {
    let p = GPTProxy::new(
        "m".to_string(),
        "u".to_string(),
        "https://api.example".to_string(),
        "tok".to_string(),
        "前缀：".to_string(),
    );
    assert_eq!(p.test(), "test");
    match p.query_request("问题") {
        UpstreamRequest::PostJson { url, token, body } => {
            assert_eq!(url, "https://api.example/chat/completions");
            assert_eq!(token, "tok");
            assert!(body.contains("前缀：问题"));
        },
        other => panic!("{:?}", other),
    }
}

#[test]
fn completion_reading_needs_text_in_every_message() {
    let good = "{\"choices\":[{\"message\":{\"content\":\"one\"}},{\"message\":{\"content\":\"two\"}}]}";
    assert_eq!(read_completion(good, "http://u"), Ok("one".to_string()));
    assert!(matches!(read_completion("nonsense", "http://u"), Err(Error::JsonError(_))));
    assert!(matches!(
        read_completion("{\"choices\":\"not an array\"}", "http://u"),
        Err(Error::JsonError(_)),
    ));
    assert!(matches!(
        read_completion("{\"choices\":[{\"message\":{}}]}", "http://u"),
        Err(Error::JsonError(_)),
    ));
    assert_eq!(
        read_completion("{\"choices\":[]}", "http://u"),
        Err(Error::HttpError {
            status: 303,
            url: "http://u".to_string(),
            response: "content empty".to_string(),
        }),
    );
}

#[test]
fn error_lines_render_their_kind_and_detail() {
    assert_eq!(
        Error::ParamError("x".to_string()).render(),
        "Invalid parameters: x",
    );
    assert_eq!(
        Error::HttpError {
            status: 500,
            url: "http://u".to_string(),
            response: "ignored".to_string(),
        }
        .render(),
        "HTTP error 500: http://u",
    );
    assert_eq!(Error::JsonError("bad".to_string()).render(), "JSON parse error: bad");
    assert_eq!(Error::ResultError("gone".to_string()).render(), "get error: gone");
    assert_eq!(Error::NotMatchError.render(), "not match");
}
