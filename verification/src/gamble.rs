//! The odds handler: scrapes the fixture table from a fixed odds page and
//! has the conversational collaborator summarise it.

use vstd::prelude::*;
use vstd::string::StringExecFns;
use crate::error::Error;
use crate::gpt::gpt_body_spec;
use crate::gpt::queryGPT;
use crate::gpt::read_completion;
use crate::gpt::completion_read_ok;
use crate::handler::Handler;
use crate::handler::HandlerStep;
use crate::text::str_eq;
use crate::upstream::UpstreamEvent;
use crate::upstream::UpstreamRequest;

verus! {

/// One fixture as the odds page lists it.
pub struct Game {
    pub name: String,
    pub start_date: String,
}

pub struct Gamble {
    pub gpt_token: String,
}

/// The text of the first `.table` element of an HTML page, as the HTML
/// selector library extracts it.
pub uninterp spec fn table_text_of(html: Seq<char>) -> Seq<char>;

/// Relies on `nipper::Document`: parses the HTML and hands back the text
/// of the first element matching the `.table` selector.  The result is a
/// function of the page text alone.
#[verifier::external_body]
fn select_table_text(html: &str) -> (r: String)
    ensures
        r@ == table_text_of(html@),
{
    let document = nipper::Document::from(html);
    document.select(".table").first().text().to_string()
}

/// The odds page this handler reads.
pub open spec fn odds_url_spec() -> Seq<char> {
    "https://www.aceodds.com/zh-cn/足球/英格兰超级联赛.html"@
}

/// The scraper instruction put in front of the extracted table text.
pub open spec fn odds_prompt_spec() -> Seq<char> {
    "你是一个爬虫助手，把下面文字格式化， 只返回一周内的比赛，直接返回结果，不要添加任何前置回复："@
}

/// The summary request sent to the conversational collaborator for a
/// scraped page.
pub open spec fn odds_query_spec(html: Seq<char>, token: Seq<char>, r: UpstreamRequest) -> bool {
    r matches UpstreamRequest::PostJson { url, token: t, body } && url@
        == "https://api.302.ai/v1/chat/completions"@ && t@ == token && body@ == gpt_body_spec(
        "gpt-4o-mini"@,
        odds_prompt_spec() + seq!['\n'] + table_text_of(html),
    )
}

impl Gamble {
    pub fn new(gpt_token: String) -> (r: Self)
        ensures
            r.gpt_token == gpt_token,
    {
        Gamble { gpt_token }
    }
}

impl Handler for Gamble {
    open spec fn claims_spec(&self, msg: Seq<char>) -> bool {
        msg == "戒赌"@
    }

    open spec fn describe_spec(&self) -> Seq<char> {
        "/戒赌 - 赌狗biss"@
    }

    open spec fn step_ok(&self, msg: Seq<char>, events: Seq<UpstreamEvent>, r: HandlerStep) -> bool {
        if events.len() == 0 {
            r matches HandlerStep::Fetch(req) && (req matches UpstreamRequest::Get { url } && url@
                == odds_url_spec())
        } else {
            match events.last() {
                UpstreamEvent::Failure { status, url: fu, detail: d } => r matches HandlerStep::Done(
                    res,
                ) && res matches Err(e) && (e matches Error::HttpError {
                    status: st,
                    url: u,
                    response: rs,
                } && st == status && u@ == fu@ && rs@ == d@),
                UpstreamEvent::Body(b) => {
                    if events.len() == 1 {
                        r matches HandlerStep::Fetch(req) && odds_query_spec(
                            b@,
                            self.gpt_token@,
                            req,
                        )
                    } else {
                        r matches HandlerStep::Done(res) && completion_read_ok(
                            "https://api.302.ai/v1/chat/completions"@,
                            b@,
                            res,
                            false,
                        )
                    }
                },
            }
        }
    }

    fn claims(&self, msg: &str) -> (r: bool) {
        str_eq(msg, "戒赌")
    }

    fn describe(&self) -> (r: String) {
        String::from_str("/戒赌 - 赌狗biss")
    }

    fn step(&self, msg: &str, events: &Vec<UpstreamEvent>) -> (r: HandlerStep) {
        if events.len() == 0 {
            return HandlerStep::Fetch(
                UpstreamRequest::Get {
                    url: String::from_str("https://www.aceodds.com/zh-cn/足球/英格兰超级联赛.html"),
                },
            );
        }
        let last = &events[events.len() - 1];
        match last {
            UpstreamEvent::Failure { status, url, detail } => HandlerStep::Done(
                Err(
                    Error::HttpError {
                        status: *status,
                        url: url.clone(),
                        response: detail.clone(),
                    },
                ),
            ),
            UpstreamEvent::Body(text) => {
                if events.len() == 1 {
                    let table = select_table_text(text.as_str());
                    let mut content = String::from_str(
                        "你是一个爬虫助手，把下面文字格式化， 只返回一周内的比赛，直接返回结果，不要添加任何前置回复：",
                    );
                    crate::text::push_char(&mut content, '\n');
                    content.append(table.as_str());
                    proof {
                        assert(content@ =~= odds_prompt_spec() + seq!['\n'] + table_text_of(
                            text@,
                        ));
                    }
                    HandlerStep::Fetch(
                        queryGPT(
                            String::from_str("gpt-4o-mini"),
                            self.gpt_token.clone(),
                            content,
                        ),
                    )
                } else {
                    HandlerStep::Done(
                        read_completion(text.as_str(), "https://api.302.ai/v1/chat/completions"),
                    )
                }
            },
        }
    }
}

} // verus!
