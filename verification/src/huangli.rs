//! The almanac handler: answers the fortune command by asking the almanac
//! collaborator for today's auspicious and inauspicious activities.

use vstd::prelude::*;
use vstd::string::StringExecFns;
use crate::error::Error;
use crate::handler::Handler;
use crate::handler::HandlerStep;
use crate::jsonio::json_has;
use crate::jsonio::json_has_path;
use crate::jsonio::json_read_str;
use crate::jsonio::json_str_of;
use crate::jsonio::json_wf;
use crate::jsonio::parse_json_check;
use crate::text::str_eq;
use crate::upstream::UpstreamEvent;
use crate::upstream::UpstreamRequest;

verus! {

pub struct HuangLi {
    pub api_key: String,
}

/// The almanac lookup URL for a date and an API key.
pub open spec fn almanac_url_spec(date: Seq<char>, key: Seq<char>) -> Seq<char> {
    "http://v.juhe.cn/laohuangli/d?date="@ + date + "&key="@ + key
}

/// The reply text for the two almanac fields.
pub open spec fn almanac_text_spec(yi: Seq<char>, ji: Seq<char>) -> Seq<char> {
    "宜："@ + yi + "\n忌: "@ + ji
}

/// Exactly how an almanac answer body is reduced: the reply built from
/// the two fields when both reads succeed, else the error naming the
/// first missing piece.
pub open spec fn almanac_conclude_ok(body: Seq<char>, r: Result<String, Error>) -> bool {
    if !json_wf(body) {
        r matches Err(e) && (e matches Error::JsonError(m) && m@
            == "failed to parse to json value"@)
    } else if !json_has(body, "/result"@) {
        r matches Err(e) && (e matches Error::ResultError(m) && m@ == "no result"@)
    } else if !json_has(body, "/result/yi"@) {
        r matches Err(e) && (e matches Error::ResultError(m) && m@ == "invalid result for yi"@)
    } else if json_str_of(body, "/result/yi"@) is None {
        r matches Err(e) && (e matches Error::ResultError(m) && m@ == "parse failed for yi"@)
    } else if !json_has(body, "/result/ji"@) {
        r matches Err(e) && (e matches Error::ResultError(m) && m@ == "invalid result for ji"@)
    } else if json_str_of(body, "/result/ji"@) is None {
        r matches Err(e) && (e matches Error::ResultError(m) && m@ == "parse failed for ji"@)
    } else {
        r matches Ok(v) && v@ == almanac_text_spec(
            json_str_of(body, "/result/yi"@)->Some_0,
            json_str_of(body, "/result/ji"@)->Some_0,
        )
    }
}

/// Relies on `chrono::Local::now` and `chrono::format`: today's local
/// date, rendered as year-month-day.  The value depends on the clock and
/// the machine's time zone, so only the documented shape is assumed: a
/// year zero-padded to at least four digits, a dash, two month digits, a
/// dash, two day digits.
#[verifier::external_body]
fn today_string() -> (r: String)
    ensures
        r@.len() >= 10,
{
    chrono::Local::now().format("%Y-%m-%d").to_string()
}

/// Formats the two almanac fields into the reply text.
pub fn format_almanac(yi: &str, ji: &str) -> (r: String)
    ensures
        r@ == almanac_text_spec(yi@, ji@),
{
    let mut r = String::from_str("宜：");
    r.append(yi);
    r.append("\n忌: ");
    r.append(ji);
    r
}

/// Reduces an almanac answer body: the reply built from the two fields,
/// or the error naming the first missing piece, exactly as
/// `almanac_conclude_ok` says.
pub fn almanac_conclude(body: &str) -> (r: Result<String, Error>)
    ensures
        almanac_conclude_ok(body@, r),
{
    if let Err(_) = parse_json_check(body) {
        return Err(Error::JsonError(String::from_str("failed to parse to json value")));
    }
    if !json_has_path(body, "/result") {
        return Err(Error::ResultError(String::from_str("no result")));
    }
    if !json_has_path(body, "/result/yi") {
        return Err(Error::ResultError(String::from_str("invalid result for yi")));
    }
    let yi = match json_read_str(body, "/result/yi") {
        Some(t) => t,
        None => {
            return Err(Error::ResultError(String::from_str("parse failed for yi")));
        },
    };
    if !json_has_path(body, "/result/ji") {
        return Err(Error::ResultError(String::from_str("invalid result for ji")));
    }
    let ji = match json_read_str(body, "/result/ji") {
        Some(t) => t,
        None => {
            return Err(Error::ResultError(String::from_str("parse failed for ji")));
        },
    };
    Ok(format_almanac(yi.as_str(), ji.as_str()))
}

impl HuangLi {
    pub fn new(api_key: String) -> (r: Self)
        ensures
            r.api_key == api_key,
    {
        HuangLi { api_key }
    }
}

impl Handler for HuangLi {
    open spec fn claims_spec(&self, msg: Seq<char>) -> bool {
        msg == "算命"@
    }

    open spec fn describe_spec(&self) -> Seq<char> {
        "/算命 - 迷信biss"@
    }

    open spec fn step_ok(&self, msg: Seq<char>, events: Seq<UpstreamEvent>, r: HandlerStep) -> bool {
        if events.len() == 0 {
            r matches HandlerStep::Fetch(req) && (req matches UpstreamRequest::Get { url }
                && exists|date: Seq<char>| url@ == almanac_url_spec(date, self.api_key@))
        } else {
            match events[0] {
                UpstreamEvent::Body(b) => r matches HandlerStep::Done(res)
                    && almanac_conclude_ok(b@, res),
                UpstreamEvent::Failure { status, url: fu, detail: d } => r matches HandlerStep::Done(
                    res,
                ) && res matches Err(e) && (e matches Error::HttpError {
                    status: st,
                    url: u,
                    response: rs,
                } && st == status && u@ == fu@ && rs@ == d@),
            }
        }
    }

    fn claims(&self, msg: &str) -> (r: bool) {
        str_eq(msg, "算命")
    }

    fn describe(&self) -> (r: String) {
        String::from_str("/算命 - 迷信biss")
    }

    fn step(&self, msg: &str, events: &Vec<UpstreamEvent>) -> (r: HandlerStep) {
        if events.len() == 0 {
            let date = today_string();
            let mut url = String::from_str("http://v.juhe.cn/laohuangli/d?date=");
            url.append(date.as_str());
            url.append("&key=");
            url.append(self.api_key.as_str());
            proof {
                assert(url@ == almanac_url_spec(date@, self.api_key@));
            }
            HandlerStep::Fetch(UpstreamRequest::Get { url })
        } else {
            match &events[0] {
                UpstreamEvent::Body(b) => HandlerStep::Done(almanac_conclude(b.as_str())),
                UpstreamEvent::Failure { status, url, detail } => HandlerStep::Done(
                    Err(
                        Error::HttpError {
                            status: *status,
                            url: url.clone(),
                            response: detail.clone(),
                        },
                    ),
                ),
            }
        }
    }
}

} // verus!
