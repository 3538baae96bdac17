//! The `echo` step: prints its resolved `text` parameter and keeps the
//! chain alive with a single empty output map.

use vstd::prelude::*;
use crate::catalog::{spec_outputs, spec_params, StepKind};
use crate::dict::{spec_get_or_empty, Dict};

verus! {

pub struct Echo {}

impl Echo {
    pub fn parameters(&self) -> (r: Vec<&'static str>)
        ensures
            r.deep_view() == spec_params(StepKind::Echo),
    {
        let mut v: Vec<&'static str> = Vec::new();
        v.push("text");
        proof {
            assert(v.deep_view() =~= spec_params(StepKind::Echo));
        }
        v
    }

    pub fn outputs(&self) -> (r: Vec<&'static str>)
        ensures
            r.deep_view() == spec_outputs(StepKind::Echo),
    {
        let v: Vec<&'static str> = Vec::new();
        proof {
            assert(v.deep_view() =~= spec_outputs(StepKind::Echo));
        }
        v
    }

    /// The line this step prints: its `text` parameter, empty when the
    /// parameter was not configured.
    pub fn render(&self, params: &Dict) -> (r: String)
        ensures
            r@ == spec_get_or_empty(params@, "text"@),
    {
        params.parameter("text")
    }
}

} // verus!
