//! The `wechat` step: obtains an access token for the configured
//! corporation and posts its `text` to everyone through the corporate
//! messaging API. The two requests are I/O and live outside the library;
//! assembling the request URLs, the message fields and the output map is
//! here.

use vstd::prelude::*;
use vstd::string::StringExecFns;
use crate::catalog::{spec_outputs, spec_params, StepKind};
use crate::dict::{spec_get_or_empty, Dict};
use crate::strutil::{parse_i64, spec_parse_i64};

verus! {

/// The token reply of the messaging API, as plain values.
pub struct WeChatAccessToken {
    pub error_code: u64,
    pub error_message: String,
    pub access_token: String,
    pub expires_in: u64,
}

pub struct WeChat {}

/// The fixed fields of the message this step posts.
pub struct WeChatMessage {
    pub to_user: String,
    pub agent_id: i64,
    pub message_type: String,
    pub content: String,
    pub enable_duplicate_check: bool,
    pub duplicate_check_interval: u64,
}

/// What a `wechat` step asks the outside world to do: fetch a token from
/// `token_url`, then post `message`.
pub struct WeChatPlan {
    pub token_url: String,
    pub message: WeChatMessage,
}

impl WeChat {
    pub fn parameters(&self) -> (r: Vec<&'static str>)
        ensures
            r.deep_view() == spec_params(StepKind::WeChat),
    {
        let mut v: Vec<&'static str> = Vec::new();
        v.push("corp_id");
        v.push("secret");
        v.push("agent_id");
        v.push("text");
        proof {
            assert(v.deep_view() =~= spec_params(StepKind::WeChat));
        }
        v
    }

    pub fn outputs(&self) -> (r: Vec<&'static str>)
        ensures
            r.deep_view() == spec_outputs(StepKind::WeChat),
    {
        let mut v: Vec<&'static str> = Vec::new();
        v.push("error_code");
        proof {
            assert(v.deep_view() =~= spec_outputs(StepKind::WeChat));
        }
        v
    }

    /// The URL that trades the corporation's id and secret for a token.
    pub fn token_url(&self, corp_id: &str, secret: &str) -> (r: String)
        ensures
            r@ == "https://qyapi.weixin.qq.com/cgi-bin/gettoken?corpid="@ + corp_id@
                + "&corpsecret="@ + secret@,
    {
        let mut u = String::from_str("https://qyapi.weixin.qq.com/cgi-bin/gettoken?corpid=");
        u.append(corp_id);
        u.append("&corpsecret=");
        u.append(secret);
        u
    }

    /// The URL that posts a message under the fetched access token.
    pub fn send_url(&self, access_token: &str) -> (r: String)
        ensures
            r@ == "https://qyapi.weixin.qq.com/cgi-bin/message/send?access_token="@
                + access_token@,
    {
        let mut u = String::from_str(
            "https://qyapi.weixin.qq.com/cgi-bin/message/send?access_token=",
        );
        u.append(access_token);
        u
    }

    /// Reads the message to post off the resolved parameters. Fails when
    /// `agent_id` is not a well-formed `i64`, and only then.
    pub fn plan(&self, params: &Dict) -> (r: Result<WeChatPlan, String>)
        ensures
            match r {
                Ok(p) => {
                    &&& spec_parse_i64(spec_get_or_empty(params@, "agent_id"@)) == Some(
                        p.message.agent_id as int,
                    )
                    &&& p.token_url@ == "https://qyapi.weixin.qq.com/cgi-bin/gettoken?corpid="@
                        + spec_get_or_empty(params@, "corp_id"@) + "&corpsecret="@
                        + spec_get_or_empty(params@, "secret"@)
                    &&& p.message.content@ == spec_get_or_empty(params@, "text"@)
                    &&& p.message.to_user@ == "@all"@
                    &&& p.message.message_type@ == "text"@
                    &&& p.message.enable_duplicate_check == false
                    &&& p.message.duplicate_check_interval == 0
                },
                Err(m) => {
                    &&& spec_parse_i64(spec_get_or_empty(params@, "agent_id"@)) is None
                    &&& m@ == spec_get_or_empty(params@, "agent_id"@)
                },
            },
    {
        let corp_id = params.parameter("corp_id");
        let secret = params.parameter("secret");
        let agent_raw = params.parameter("agent_id");
        let text = params.parameter("text");
        let agent_id = match parse_i64(agent_raw.as_str()) {
            Some(v) => v,
            None => {
                return Err(agent_raw);
            },
        };
        let token_url = self.token_url(corp_id.as_str(), secret.as_str());
        Ok(
            WeChatPlan {
                token_url,
                message: WeChatMessage {
                    to_user: String::from_str("@all"),
                    agent_id,
                    message_type: String::from_str("text"),
                    content: text,
                    enable_duplicate_check: false,
                    duplicate_check_interval: 0,
                },
            },
        )
    }

    /// Folds the send reply's error code (already rendered as text) into
    /// this step's declared output map.
    pub fn response_outputs(&self, error_code: &str) -> (r: Dict)
        ensures
            r@ =~= Seq::<(Seq<char>, Seq<char>)>::empty().push(("error_code"@, error_code@)),
    {
        let mut d = Dict::new();
        d.insert(String::from_str("error_code"), String::from_str(error_code));
        d
    }
}

} // verus!
