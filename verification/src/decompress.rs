//! The `decompress` step: unpacks the gzipped tar archive at its `path`
//! into its `destination`. The unpacking is I/O and lives outside the
//! library; the parameter extraction is here.

use vstd::prelude::*;
use crate::catalog::{spec_outputs, spec_params, StepKind};
use crate::dict::{spec_get_or_empty, Dict};

verus! {

pub struct Decompress {}

/// What a `decompress` step asks the outside world to do.
pub struct DecompressPlan {
    pub path: String,
    pub destination: String,
}

impl Decompress {
    pub fn parameters(&self) -> (r: Vec<&'static str>)
        ensures
            r.deep_view() == spec_params(StepKind::Decompress),
    {
        let mut v: Vec<&'static str> = Vec::new();
        v.push("path");
        v.push("destination");
        proof {
            assert(v.deep_view() =~= spec_params(StepKind::Decompress));
        }
        v
    }

    pub fn outputs(&self) -> (r: Vec<&'static str>)
        ensures
            r.deep_view() == spec_outputs(StepKind::Decompress),
    {
        let v: Vec<&'static str> = Vec::new();
        proof {
            assert(v.deep_view() =~= spec_outputs(StepKind::Decompress));
        }
        v
    }

    /// Reads the unpack to perform off the resolved parameters.
    pub fn plan(&self, params: &Dict) -> (r: DecompressPlan)
        ensures
            r.path@ == spec_get_or_empty(params@, "path"@),
            r.destination@ == spec_get_or_empty(params@, "destination"@),
    {
        DecompressPlan {
            path: params.parameter("path"),
            destination: params.parameter("destination"),
        }
    }
}

} // verus!
