//! The `command` step: spawns its `program`, optionally leaving it running
//! as a daemon and optionally inheriting the process's standard streams.
//! The spawn itself is I/O and lives outside the library; deciding what to
//! spawn and how is here.

use vstd::prelude::*;
use crate::catalog::{spec_outputs, spec_params, StepKind};
use crate::dict::{spec_get_or_empty, Dict};
use crate::strutil::{parse_bool, spec_parse_bool};

verus! {

pub struct Command {}

/// What a `command` step asks the outside world to do.
pub struct CommandPlan {
    pub program: String,
    pub daemon: bool,
    pub inherit_io: bool,
}

impl Command {
    pub fn parameters(&self) -> (r: Vec<&'static str>)
        ensures
            r.deep_view() == spec_params(StepKind::Command),
    {
        let mut v: Vec<&'static str> = Vec::new();
        v.push("program");
        v.push("daemon");
        v.push("inherit_io");
        proof {
            assert(v.deep_view() =~= spec_params(StepKind::Command));
        }
        v
    }

    pub fn outputs(&self) -> (r: Vec<&'static str>)
        ensures
            r.deep_view() == spec_outputs(StepKind::Command),
    {
        let v: Vec<&'static str> = Vec::new();
        proof {
            assert(v.deep_view() =~= spec_outputs(StepKind::Command));
        }
        v
    }

    /// Reads the spawn to perform off the resolved parameters. The two
    /// flags default to `false` whenever their parameter is not the
    /// literal `true` or `false`.
    pub fn plan(&self, params: &Dict) -> (r: CommandPlan)
        ensures
            r.program@ == spec_get_or_empty(params@, "program"@),
            r.daemon == (spec_parse_bool(spec_get_or_empty(params@, "daemon"@)) == Some(true)),
            r.inherit_io == (spec_parse_bool(spec_get_or_empty(params@, "inherit_io"@)) == Some(
                true,
            )),
    {
        let program = params.parameter("program");
        let daemon_raw = params.parameter("daemon");
        let inherit_raw = params.parameter("inherit_io");
        let daemon = match parse_bool(daemon_raw.as_str()) {
            Some(b) => b,
            None => false,
        };
        let inherit_io = match parse_bool(inherit_raw.as_str()) {
            Some(b) => b,
            None => false,
        };
        CommandPlan { program, daemon, inherit_io }
    }
}

} // verus!
