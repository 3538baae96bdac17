//! The `gist` step: reads or updates one file of a gist-style paste
//! through its HTTP API. The requests and the JSON body handling are I/O
//! and live outside the library; choosing the action, assembling the URL
//! and headers, and folding the reply into the output map are here.

use vstd::prelude::*;
use vstd::string::StringExecFns;
use crate::catalog::{spec_outputs, spec_params, StepKind};
use crate::dict::{spec_get_or_empty, Dict};
use crate::strutil::{eq_ignore_ascii_case, lower_seq};

verus! {

pub struct Gist {}

/// The two supported actions, read case-insensitively from the `action`
/// parameter.
#[derive(Clone, Copy, PartialEq, Eq, Structural, Debug)]
pub enum GistAction {
    Get,
    Update,
}

/// Which action an `action` parameter selects.
pub open spec fn spec_action(s: Seq<char>) -> Option<GistAction> {
    if lower_seq(s) == lower_seq("get"@) {
        Some(GistAction::Get)
    } else if lower_seq(s) == lower_seq("update"@) {
        Some(GistAction::Update)
    } else {
        None
    }
}

/// What a `gist` step asks the outside world to do.
pub struct GistPlan {
    pub action: GistAction,
    pub url: String,
    pub authorization: String,
    pub file_name: String,
    pub text: String,
}

impl Gist {
    pub fn parameters(&self) -> (r: Vec<&'static str>)
        ensures
            r.deep_view() == spec_params(StepKind::Gist),
    {
        let mut v: Vec<&'static str> = Vec::new();
        v.push("action");
        v.push("gist_id");
        v.push("access_token");
        v.push("file_name");
        v.push("text");
        proof {
            assert(v.deep_view() =~= spec_params(StepKind::Gist));
        }
        v
    }

    pub fn outputs(&self) -> (r: Vec<&'static str>)
        ensures
            r.deep_view() == spec_outputs(StepKind::Gist),
    {
        let mut v: Vec<&'static str> = Vec::new();
        v.push("status_code");
        v.push("text");
        proof {
            assert(v.deep_view() =~= spec_outputs(StepKind::Gist));
        }
        v
    }

    /// The API URL of one gist.
    pub fn gist_url(&self, gist_id: &str) -> (r: String)
        ensures
            r@ == "https://api.github.com/gists/"@ + gist_id@,
    {
        let mut u = String::from_str("https://api.github.com/gists/");
        u.append(gist_id);
        u
    }

    /// Parses the `action` parameter, ignoring ASCII case.
    pub fn parse_action(&self, s: &str) -> (r: Option<GistAction>)
        ensures
            r == spec_action(s@),
    {
        if eq_ignore_ascii_case(s, "get") {
            Some(GistAction::Get)
        } else if eq_ignore_ascii_case(s, "update") {
            Some(GistAction::Update)
        } else {
            None
        }
    }

    /// Reads the request to perform off the resolved parameters. Fails
    /// when the `action` parameter names no supported action, and only
    /// then.
    pub fn plan(&self, params: &Dict) -> (r: Result<GistPlan, String>)
        ensures
            match r {
                Ok(p) => {
                    &&& spec_action(spec_get_or_empty(params@, "action"@)) == Some(p.action)
                    &&& p.url@ == "https://api.github.com/gists/"@ + spec_get_or_empty(
                        params@,
                        "gist_id"@,
                    )
                    &&& p.authorization@ == "token "@ + spec_get_or_empty(
                        params@,
                        "access_token"@,
                    )
                    &&& p.file_name@ == spec_get_or_empty(params@, "file_name"@)
                    &&& p.text@ == spec_get_or_empty(params@, "text"@)
                },
                Err(m) => {
                    &&& spec_action(spec_get_or_empty(params@, "action"@)) is None
                    &&& m@ == spec_get_or_empty(params@, "action"@)
                },
            },
    {
        let action_raw = params.parameter("action");
        let action = match self.parse_action(action_raw.as_str()) {
            Some(a) => a,
            None => {
                return Err(action_raw);
            },
        };
        let gist_id = params.parameter("gist_id");
        let access_token = params.parameter("access_token");
        let file_name = params.parameter("file_name");
        let text = params.parameter("text");
        let mut authorization = String::from_str("token ");
        authorization.append(access_token.as_str());
        Ok(
            GistPlan {
                action,
                url: self.gist_url(gist_id.as_str()),
                authorization,
                file_name,
                text,
            },
        )
    }

    /// Folds the reply's status (already rendered as text) and the
    /// updated file's content into this step's declared output map.
    pub fn response_outputs(&self, status_code: &str, content: String) -> (r: Dict)
        ensures
            r@ =~= Seq::<(Seq<char>, Seq<char>)>::empty().push(("status_code"@, status_code@))
                .push(("text"@, content@)),
    {
        let mut d = Dict::new();
        d.insert(String::from_str("status_code"), String::from_str(status_code));
        d.insert(String::from_str("text"), content);
        d
    }
}

} // verus!
