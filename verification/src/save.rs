//! The `save` step: writes its `text` parameter to its `destination`.
//! The write is I/O and lives outside the library; the parameter
//! extraction is here.

use vstd::prelude::*;
use crate::catalog::{spec_outputs, spec_params, StepKind};
use crate::dict::{spec_get_or_empty, Dict};

verus! {

pub struct Save {}

/// What a `save` step asks the outside world to do.
pub struct SavePlan {
    pub text: String,
    pub destination: String,
}

impl Save {
    pub fn parameters(&self) -> (r: Vec<&'static str>)
        ensures
            r.deep_view() == spec_params(StepKind::Save),
    {
        let mut v: Vec<&'static str> = Vec::new();
        v.push("text");
        v.push("destination");
        proof {
            assert(v.deep_view() =~= spec_params(StepKind::Save));
        }
        v
    }

    pub fn outputs(&self) -> (r: Vec<&'static str>)
        ensures
            r.deep_view() == spec_outputs(StepKind::Save),
    {
        let v: Vec<&'static str> = Vec::new();
        proof {
            assert(v.deep_view() =~= spec_outputs(StepKind::Save));
        }
        v
    }

    /// Reads the write to perform off the resolved parameters.
    pub fn plan(&self, params: &Dict) -> (r: SavePlan)
        ensures
            r.text@ == spec_get_or_empty(params@, "text"@),
            r.destination@ == spec_get_or_empty(params@, "destination"@),
    {
        SavePlan {
            text: params.parameter("text"),
            destination: params.parameter("destination"),
        }
    }
}

} // verus!
