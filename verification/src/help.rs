//! The help handler: answers the `help` command with the fixed command
//! list, without any collaborator.

use vstd::prelude::*;
use vstd::string::StringExecFns;
use crate::handler::Handler;
use crate::handler::HandlerStep;
use crate::text::str_eq;
use crate::upstream::UpstreamEvent;

verus! {

pub struct Help {}

impl Help {
    pub fn new() -> (r: Self) {
        Help {  }
    }

    /// The full help text this handler answers with.
    pub open spec fn text_spec() -> Seq<char> {
        "可用指令列表：\n/help - 显示此帮助信息\n/牛回 或 /牛死 - 炒股biss\n/算命 - 迷信biss\n/戒赌 - 赌狗biss\n\n其他问题直接@你爹"@
    }
}

impl Handler for Help {
    open spec fn claims_spec(&self, msg: Seq<char>) -> bool {
        msg == "help"@
    }

    open spec fn describe_spec(&self) -> Seq<char> {
        "/help - 显示此帮助信息"@
    }

    open spec fn step_ok(&self, msg: Seq<char>, events: Seq<UpstreamEvent>, r: HandlerStep) -> bool {
        r matches HandlerStep::Done(res) && res matches Ok(t) && t@ == Help::text_spec()
    }

    fn claims(&self, msg: &str) -> (r: bool) {
        str_eq(msg, "help")
    }

    fn describe(&self) -> (r: String) {
        String::from_str("/help - 显示此帮助信息")
    }

    fn step(&self, msg: &str, events: &Vec<UpstreamEvent>) -> (r: HandlerStep) {
        HandlerStep::Done(
            Ok(
                String::from_str(
                    "可用指令列表：\n/help - 显示此帮助信息\n/牛回 或 /牛死 - 炒股biss\n/算命 - 迷信biss\n/戒赌 - 赌狗biss\n\n其他问题直接@你爹",
                ),
            ),
        )
    }
}

} // verus!
