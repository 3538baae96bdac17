//! The `read` step: reads the file at its `path` and hands the contents
//! on under the `text` output. The file access is I/O and lives outside
//! the library; parameter extraction and output assembly are here.

use vstd::prelude::*;
use crate::catalog::{spec_outputs, spec_params, StepKind};
use crate::dict::{spec_get_or_empty, Dict};

verus! {

pub struct Read {}

impl Read {
    pub fn parameters(&self) -> (r: Vec<&'static str>)
        ensures
            r.deep_view() == spec_params(StepKind::Read),
    {
        let mut v: Vec<&'static str> = Vec::new();
        v.push("path");
        proof {
            assert(v.deep_view() =~= spec_params(StepKind::Read));
        }
        v
    }

    pub fn outputs(&self) -> (r: Vec<&'static str>)
        ensures
            r.deep_view() == spec_outputs(StepKind::Read),
    {
        let mut v: Vec<&'static str> = Vec::new();
        v.push("text");
        proof {
            assert(v.deep_view() =~= spec_outputs(StepKind::Read));
        }
        v
    }

    /// The path to read, off the resolved parameters.
    pub fn plan(&self, params: &Dict) -> (r: String)
        ensures
            r@ == spec_get_or_empty(params@, "path"@),
    {
        params.parameter("path")
    }

    /// Folds the file contents into this step's declared output map.
    pub fn response_outputs(&self, text: String) -> (r: Dict)
        ensures
            r@ =~= Seq::<(Seq<char>, Seq<char>)>::empty().push(("text"@, text@)),
    {
        let mut d = Dict::new();
        d.insert(String::from_str("text"), text);
        d
    }
}

} // verus!
