//! The `http` step: performs a request against its `url` with its
//! `method`. The request itself is I/O and lives outside the library; the
//! step's parameter extraction and output assembly are here.

use vstd::prelude::*;
use crate::catalog::{spec_outputs, spec_params, StepKind};
use crate::dict::{spec_get_or_empty, Dict};

verus! {

pub struct Http {}

/// What an `http` step asks the outside world to do.
pub struct HttpPlan {
    pub url: String,
    pub method: String,
}

impl Http {
    pub fn parameters(&self) -> (r: Vec<&'static str>)
        ensures
            r.deep_view() == spec_params(StepKind::Http),
    {
        let mut v: Vec<&'static str> = Vec::new();
        v.push("url");
        v.push("method");
        proof {
            assert(v.deep_view() =~= spec_params(StepKind::Http));
        }
        v
    }

    pub fn outputs(&self) -> (r: Vec<&'static str>)
        ensures
            r.deep_view() == spec_outputs(StepKind::Http),
    {
        let mut v: Vec<&'static str> = Vec::new();
        v.push("status_code");
        v.push("text");
        proof {
            assert(v.deep_view() =~= spec_outputs(StepKind::Http));
        }
        v
    }

    /// Reads the request to perform off the resolved parameters.
    pub fn plan(&self, params: &Dict) -> (r: HttpPlan)
        ensures
            r.url@ == spec_get_or_empty(params@, "url"@),
            r.method@ == spec_get_or_empty(params@, "method"@),
    {
        HttpPlan { url: params.parameter("url"), method: params.parameter("method") }
    }

    /// Folds the response into this step's declared output map:
    /// `status_code` and `text`.
    pub fn response_outputs(&self, status_code: &str, text: String) -> (r: Dict)
        ensures
            r@ =~= Seq::<(Seq<char>, Seq<char>)>::empty().push(("status_code"@, status_code@))
                .push(("text"@, text@)),
    {
        let mut d = Dict::new();
        d.insert(String::from_str("status_code"), String::from_str(status_code));
        d.insert(String::from_str("text"), text);
        d
    }
}

} // verus!
