//! The conversational completion collaborator.
//!
//! The request body for a chat completion is built here, character by
//! character, with JSON string escaping proved exact.  Reading an answer
//! is stated over the named JSON reads of its body: the reply is exactly
//! the first completion's text, an empty completion list is the
//! distinguished failure, and a malformed answer is a parse error.

use vstd::prelude::*;
use vstd::string::StrSliceExecFns;
use vstd::string::StringExecFns;
use crate::error::Error;
use crate::jsonio::json_array_len;
use crate::jsonio::json_array_len_of;
use crate::jsonio::json_read_str;
use crate::jsonio::json_str_of;
use crate::jsonio::json_wf;
use crate::jsonio::parse_json_check;
use crate::text::dec_spec;
use crate::text::u64_to_string;
use crate::text::hex_char;
use crate::text::hex_digit;
use crate::text::ltrim_spec;
use crate::text::ltrim_str;
use crate::text::push_char;
use crate::upstream::UpstreamRequest;

verus! {

/// How one character appears inside a JSON string literal.
pub open spec fn esc_char(c: char) -> Seq<char> {
    if c == '"' {
        seq!['\\', '"']
    } else if c == '\\' {
        seq!['\\', '\\']
    } else if c == '\n' {
        seq!['\\', 'n']
    } else if c == '\r' {
        seq!['\\', 'r']
    } else if c == '\t' {
        seq!['\\', 't']
    } else if (c as u32) < 0x20 {
        seq!['\\', 'u', '0', '0', hex_digit(c as u32 as int / 16), hex_digit(c as u32 as int % 16)]
    } else {
        seq![c]
    }
}

/// How a text appears inside a JSON string literal.
pub open spec fn esc_str(s: Seq<char>) -> Seq<char>
    decreases s.len(),
{
    if s.len() == 0 {
        Seq::empty()
    } else {
        esc_char(s[0]) + esc_str(s.skip(1))
    }
}

proof fn lemma_esc_str_push(s: Seq<char>, c: char)
    ensures
        esc_str(s.push(c)) == esc_str(s) + esc_char(c),
    decreases s.len(),
{
    if s.len() == 0 {
        let t = s.push(c);
        assert(t.len() == 1);
        assert(t[0] == c);
        assert(t.skip(1) =~= Seq::<char>::empty());
        assert(esc_str(t.skip(1)) == Seq::<char>::empty());
        assert(esc_str(t) == esc_char(c) + esc_str(t.skip(1)));
        assert(esc_char(c) + Seq::<char>::empty() =~= esc_char(c));
        assert(esc_str(s) == Seq::<char>::empty());
        assert(esc_str(s) + esc_char(c) =~= esc_char(c));
    } else {
        assert(s.push(c).skip(1) =~= s.skip(1).push(c));
        lemma_esc_str_push(s.skip(1), c);
        assert(esc_str(s.push(c)) == esc_char(s[0]) + (esc_str(s.skip(1)) + esc_char(c)));
        assert(esc_char(s[0]) + (esc_str(s.skip(1)) + esc_char(c)) =~= (esc_char(s[0]) + esc_str(
            s.skip(1),
        )) + esc_char(c));
    }
}

/// Escapes a text for inclusion in a JSON string literal.
pub fn json_escape(s: &str) -> (r: String)
    ensures
        r@ == esc_str(s@),
{
    let n = s.unicode_len();
    let mut r = String::new();
    let mut i: usize = 0;
    proof {
        assert(s@.take(0) =~= Seq::<char>::empty());
    }
    while i < n
        invariant
            i <= n,
            n == s@.len(),
            r@ == esc_str(s@.take(i as int)),
        decreases n - i,
    {
        let c = s.get_char(i);
        let u = c as u32;
        if c == '"' {
            r.append("\\\"");
            proof {
                reveal_strlit("\\\"");
                assert("\\\""@ =~= esc_char(c));
            }
        } else if c == '\\' {
            r.append("\\\\");
            proof {
                reveal_strlit("\\\\");
                assert("\\\\"@ =~= esc_char(c));
            }
        } else if c == '\n' {
            r.append("\\n");
            proof {
                reveal_strlit("\\n");
                assert("\\n"@ =~= esc_char(c));
            }
        } else if c == '\r' {
            r.append("\\r");
            proof {
                reveal_strlit("\\r");
                assert("\\r"@ =~= esc_char(c));
            }
        } else if c == '\t' {
            r.append("\\t");
            proof {
                reveal_strlit("\\t");
                assert("\\t"@ =~= esc_char(c));
            }
        } else if u < 0x20 {
            push_char(&mut r, '\\');
            push_char(&mut r, 'u');
            push_char(&mut r, '0');
            push_char(&mut r, '0');
            push_char(&mut r, hex_char(u / 16));
            push_char(&mut r, hex_char(u % 16));
            proof {
                assert(r@ =~= esc_str(s@.take(i as int)) + esc_char(c));
            }
        } else {
            push_char(&mut r, c);
            proof {
                assert(r@ =~= esc_str(s@.take(i as int)) + esc_char(c));
            }
        }
        proof {
            lemma_esc_str_push(s@.take(i as int), c);
            assert(s@.take(i as int).push(c) =~= s@.take(i as int + 1));
        }
        i = i + 1;
    }
    proof {
        assert(s@.take(n as int) =~= s@);
    }
    r
}

/// The JSON body of a chat completion request: a model name and one user
/// message.
pub open spec fn gpt_body_spec(model: Seq<char>, content: Seq<char>) -> Seq<char> {
    "{\"model\":\""@ + esc_str(model) + "\",\"messages\":[{\"role\":\"user\",\"content\":\""@
        + esc_str(content) + "\"}]}"@
}

/// The JSON body of a chat completion request carrying a user identifier.
pub open spec fn gpt_body_with_user_spec(
    model: Seq<char>,
    content: Seq<char>,
    user_id: Seq<char>,
) -> Seq<char> {
    "{\"model\":\""@ + esc_str(model) + "\",\"messages\":[{\"role\":\"user\",\"content\":\""@
        + esc_str(content) + "\"}],\"userid\":\""@ + esc_str(user_id) + "\"}"@
}

/// Builds the completion request body for a model and one user message.
pub fn gpt_body(model: &str, content: &str) -> (r: String)
    ensures
        r@ == gpt_body_spec(model@, content@),
{
    let mut r = String::from_str("{\"model\":\"");
    let em = json_escape(model);
    r.append(em.as_str());
    r.append("\",\"messages\":[{\"role\":\"user\",\"content\":\"");
    let ec = json_escape(content);
    r.append(ec.as_str());
    r.append("\"}]}");
    r
}

/// Builds the completion request body carrying a user identifier.
pub fn gpt_body_with_user(model: &str, content: &str, user_id: &str) -> (r: String)
    ensures
        r@ == gpt_body_with_user_spec(model@, content@, user_id@),
{
    let mut r = String::from_str("{\"model\":\"");
    let em = json_escape(model);
    r.append(em.as_str());
    r.append("\",\"messages\":[{\"role\":\"user\",\"content\":\"");
    let ec = json_escape(content);
    r.append(ec.as_str());
    r.append("\"}],\"userid\":\"");
    let eu = json_escape(user_id);
    r.append(eu.as_str());
    r.append("\"}");
    r
}

/// The JSON pointer path of one completion message's text.
pub open spec fn choice_path(i: int) -> Seq<char> {
    "/choices/"@ + dec_spec(i) + "/message/content"@
}

/// Every completion message of the answer carries text, and there is at
/// least one.
pub open spec fn completion_reads_ok(body: Seq<char>) -> bool {
    &&& json_wf(body)
    &&& (json_array_len_of(body, "/choices"@) matches Some(n) && n > 0 && (forall|i: int|
        0 <= i < n ==> json_str_of(body, choice_path(i)) is Some))
}

/// The first completion text of the answer; meaningful exactly when
/// `completion_reads_ok` holds.
pub open spec fn choice0_of(body: Seq<char>) -> Seq<char> {
    json_str_of(body, choice_path(0))->Some_0
}

/// The first completion text of an answer, where the answer carries one.
pub open spec fn completion_value_of(body: Seq<char>) -> Option<Seq<char>> {
    if completion_reads_ok(body) {
        Some(choice0_of(body))
    } else {
        None
    }
}

/// Exactly how a completion answer body is reduced: the first message's
/// text when every message carries text (with leading white space removed
/// where `trimmed` says so); a parse or shape failure is a parse error;
/// an empty completion list is the distinguished failure against the
/// given URL.
pub open spec fn completion_read_ok(
    url: Seq<char>,
    body: Seq<char>,
    r: Result<String, Error>,
    trimmed: bool,
) -> bool {
    if !json_wf(body) {
        r matches Err(e) && e is JsonError
    } else {
        match json_array_len_of(body, "/choices"@) {
            Option::None => r matches Err(e) && e is JsonError,
            Option::Some(n) => {
                if n <= 0 {
                    r matches Err(e) && (e matches Error::HttpError { status, url: u, response }
                        && status == 303 && u@ == url && response@ == "content empty"@)
                } else if !(forall|i: int| 0 <= i < n ==> json_str_of(body, choice_path(i)) is Some) {
                    r matches Err(e) && e is JsonError
                } else {
                    r matches Ok(v) && v@ == (if trimmed {
                        ltrim_spec(choice0_of(body))
                    } else {
                        choice0_of(body)
                    })
                }
            },
        }
    }
}

/// Reads the first completion text out of a chat completion answer.
///
/// Every message of the answer must carry text; an empty completion list
/// is a failure, never an empty reply.
pub fn read_completion(body: &str, url: &str) -> (r: Result<String, Error>)
    ensures
        completion_read_ok(url@, body@, r, false),
{
    if let Err(detail) = parse_json_check(body) {
        return Err(Error::JsonError(detail));
    }
    let n = match json_array_len(body, "/choices") {
        Some(n) => n,
        None => {
            return Err(Error::JsonError(String::from_str("no completion choices")));
        },
    };
    if n == 0 {
        return Err(
            Error::HttpError {
                status: 303,
                url: String::from_str(url),
                response: String::from_str("content empty"),
            },
        );
    }
    let mut first: Option<String> = None;
    let mut i: usize = 0;
    while i < n
        invariant
            i <= n,
            n > 0,
            json_array_len_of(body@, "/choices"@) == Some(n as int),
            forall|j: int| 0 <= j < i ==> json_str_of(body@, choice_path(j)) is Some,
            i > 0 ==> (first matches Some(t) && t@ == choice0_of(body@)),
        decreases n - i,
    {
        let mut path = String::from_str("/choices/");
        let digits = u64_to_string(i as u64);
        path.append(digits.as_str());
        path.append("/message/content");
        proof {
            assert(path@ == choice_path(i as int));
        }
        match json_read_str(body, path.as_str()) {
            Some(t) => {
                if i == 0 {
                    first = Some(t);
                }
            },
            None => {
                return Err(Error::JsonError(String::from_str("completion without content")));
            },
        }
        i = i + 1;
    }
    match first {
        Some(t) => Ok(t),
        None => Err(Error::JsonError(String::from_str("no completion choices"))),
    }
}

/// A proxy for the conversational completion collaborator: the model, the
/// caller identity, the endpoint and the fixed prelude put in front of
/// every message.
pub struct GPTProxy {
    pub model: String,
    pub user_id: String,
    pub url: String,
    pub token: String,
    pub pre_set: String,
}

impl GPTProxy {
    /// The completion endpoint is the configured base with the chat path
    /// appended.
    pub fn new(model: String, user_id: String, url: String, token: String, pre_set: String) -> (r:
        Self)
        ensures
            r.model@ == model@,
            r.user_id@ == user_id@,
            r.url@ == url@ + "/chat/completions"@,
            r.token@ == token@,
            r.pre_set@ == pre_set@,
    {
        let mut full_url = url;
        full_url.append("/chat/completions");
        GPTProxy { model, user_id, url: full_url, token, pre_set }
    }

    pub fn test(&self) -> (r: String)
        ensures
            r@ == "test"@,
    {
        String::from_str("test")
    }

    /// The completion request for one message: the configured prelude is
    /// put in front of the content.
    pub fn query_request(&self, content: &str) -> (r: UpstreamRequest)
        ensures
            (r matches UpstreamRequest::PostJson { url, token, body } && url@ == self.url@
                && token@ == self.token@ && body@ == gpt_body_with_user_spec(
                self.model@,
                self.pre_set@ + content@,
                self.user_id@,
            )),
    {
        let mut full_content = self.pre_set.clone();
        full_content.append(content);
        let body = gpt_body_with_user(
            self.model.as_str(),
            full_content.as_str(),
            self.user_id.as_str(),
        );
        UpstreamRequest::PostJson { url: self.url.clone(), token: self.token.clone(), body }
    }

    /// Reduces a completion answer: the first completion, with leading
    /// white space removed, exactly as `completion_read_ok` says.
    pub fn query_conclude(&self, body: &str) -> (r: Result<String, Error>)
        ensures
            completion_read_ok(self.url@, body@, r, true),
    {
        match read_completion(body, self.url.as_str()) {
            Ok(t) => Ok(ltrim_str(t.as_str()).to_owned()),
            Err(e) => Err(e),
        }
    }
}

/// The completion request of the odds handler: a fixed public endpoint,
/// no user identifier in the body.
pub fn queryGPT(model: String, token: String, content: String) -> (r: UpstreamRequest)
    ensures
        (r matches UpstreamRequest::PostJson { url, token: t, body } && url@
            == "https://api.302.ai/v1/chat/completions"@ && t@ == token@ && body@ == gpt_body_spec(
            model@,
            content@,
        )),
{
    let body = gpt_body(model.as_str(), content.as_str());
    UpstreamRequest::PostJson {
        url: String::from_str("https://api.302.ai/v1/chat/completions"),
        token,
        body,
    }
}

} // verus!
