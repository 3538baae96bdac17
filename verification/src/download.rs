//! The `download` step: fetches its `url` and writes the body to its
//! `destination`. Both the fetch and the write are I/O and live outside
//! the library; the parameter extraction is here.

use vstd::prelude::*;
use crate::catalog::{spec_outputs, spec_params, StepKind};
use crate::dict::{spec_get_or_empty, Dict};

verus! {

pub struct Download {}

/// What a `download` step asks the outside world to do.
pub struct DownloadPlan {
    pub url: String,
    pub destination: String,
}

impl Download {
    pub fn parameters(&self) -> (r: Vec<&'static str>)
        ensures
            r.deep_view() == spec_params(StepKind::Download),
    {
        let mut v: Vec<&'static str> = Vec::new();
        v.push("url");
        v.push("destination");
        proof {
            assert(v.deep_view() =~= spec_params(StepKind::Download));
        }
        v
    }

    pub fn outputs(&self) -> (r: Vec<&'static str>)
        ensures
            r.deep_view() == spec_outputs(StepKind::Download),
    {
        let v: Vec<&'static str> = Vec::new();
        proof {
            assert(v.deep_view() =~= spec_outputs(StepKind::Download));
        }
        v
    }

    /// Reads the transfer to perform off the resolved parameters.
    pub fn plan(&self, params: &Dict) -> (r: DownloadPlan)
        ensures
            r.url@ == spec_get_or_empty(params@, "url"@),
            r.destination@ == spec_get_or_empty(params@, "destination"@),
    {
        DownloadPlan {
            url: params.parameter("url"),
            destination: params.parameter("destination"),
        }
    }
}

} // verus!
