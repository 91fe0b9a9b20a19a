//! The immutable process settings: room allow-list, collaborator
//! endpoints and credentials, and the conversational prelude.
//!
//! The surrounding program loads them once at start and hands them to
//! every component that needs them; nothing here is global or mutable.

use vstd::prelude::*;

verus! {

pub struct Config {
    pub room_id: String,
    pub room_id_dev: String,
    pub gpt_api: String,
    pub gpt_token: String,
    pub model: String,
    pub user_id: String,
    pub tieba_pre_set: String,
    pub nowapi_token: String,
    pub nowapi_appkey: String,
    pub huangli_apikey: String,
    pub tanshu_apikey: String,
}

} // verus!
