//! The step catalog: the closed set of supported step kinds, looked up by
//! case-insensitive name, each publishing the parameter names it accepts
//! and the output names it produces.

use vstd::prelude::*;
use crate::strutil::{eq_ignore_ascii_case, lower_seq};
use crate::atom::Atom;
use crate::command::Command;
use crate::decompress::Decompress;
use crate::download::Download;
use crate::echo::Echo;
use crate::gist::Gist;
use crate::http::Http;
use crate::read::Read;
use crate::rss::Rss;
use crate::save::Save;
use crate::wechat::WeChat;

verus! {

/// The closed set of step kinds the catalog knows.
#[derive(Clone, Copy, PartialEq, Eq, Structural, Debug)]
pub enum StepKind {
    Http,
    Echo,
    WeChat,
    Gist,
    Command,
    Download,
    Decompress,
    Atom,
    Rss,
    Read,
    Save,
}

/// Catalog lookup at the specification level: the name is matched against
/// the registered kind names without regard to ASCII case.
pub open spec fn spec_lookup(name: Seq<char>) -> Option<StepKind> {
    let l = lower_seq(name);
    if l == lower_seq("http"@) {
        Some(StepKind::Http)
    } else if l == lower_seq("echo"@) {
        Some(StepKind::Echo)
    } else if l == lower_seq("wechat"@) {
        Some(StepKind::WeChat)
    } else if l == lower_seq("gist"@) {
        Some(StepKind::Gist)
    } else if l == lower_seq("command"@) {
        Some(StepKind::Command)
    } else if l == lower_seq("download"@) {
        Some(StepKind::Download)
    } else if l == lower_seq("decompress"@) {
        Some(StepKind::Decompress)
    } else if l == lower_seq("atom"@) {
        Some(StepKind::Atom)
    } else if l == lower_seq("rss"@) {
        Some(StepKind::Rss)
    } else if l == lower_seq("read"@) {
        Some(StepKind::Read)
    } else if l == lower_seq("save"@) {
        Some(StepKind::Save)
    } else {
        None
    }
}

/// Looks a configured kind name up in the catalog, ignoring ASCII case.
pub fn lookup(name: &str) -> (r: Option<StepKind>)
    ensures
        r == spec_lookup(name@),
{
    if eq_ignore_ascii_case(name, "http") {
        Some(StepKind::Http)
    } else if eq_ignore_ascii_case(name, "echo") {
        Some(StepKind::Echo)
    } else if eq_ignore_ascii_case(name, "wechat") {
        Some(StepKind::WeChat)
    } else if eq_ignore_ascii_case(name, "gist") {
        Some(StepKind::Gist)
    } else if eq_ignore_ascii_case(name, "command") {
        Some(StepKind::Command)
    } else if eq_ignore_ascii_case(name, "download") {
        Some(StepKind::Download)
    } else if eq_ignore_ascii_case(name, "decompress") {
        Some(StepKind::Decompress)
    } else if eq_ignore_ascii_case(name, "atom") {
        Some(StepKind::Atom)
    } else if eq_ignore_ascii_case(name, "rss") {
        Some(StepKind::Rss)
    } else if eq_ignore_ascii_case(name, "read") {
        Some(StepKind::Read)
    } else if eq_ignore_ascii_case(name, "save") {
        Some(StepKind::Save)
    } else {
        None
    }
}

/// Catalog lookup is case-insensitive: two names that agree up to ASCII
/// case resolve to the same entry.
pub proof fn lemma_lookup_case_insensitive(a: Seq<char>, b: Seq<char>)
    requires
        lower_seq(a) == lower_seq(b),
    ensures
        spec_lookup(a) == spec_lookup(b),
{
}

/// The parameter names a kind declares, in the order they are resolved.
pub open spec fn spec_params(k: StepKind) -> Seq<Seq<char>> {
    match k {
        StepKind::Http => seq!["url"@, "method"@],
        StepKind::Echo => seq!["text"@],
        StepKind::WeChat => seq!["corp_id"@, "secret"@, "agent_id"@, "text"@],
        StepKind::Gist => seq!["action"@, "gist_id"@, "access_token"@, "file_name"@, "text"@],
        StepKind::Command => seq!["program"@, "daemon"@, "inherit_io"@],
        StepKind::Download => seq!["url"@, "destination"@],
        StepKind::Decompress => seq!["path"@, "destination"@],
        StepKind::Atom => seq!["text"@, "schedule_in_secs"@],
        StepKind::Rss => seq!["text"@, "schedule_in_secs"@],
        StepKind::Read => seq!["path"@],
        StepKind::Save => seq!["text"@, "destination"@],
    }
}

/// The output names a kind declares.
pub open spec fn spec_outputs(k: StepKind) -> Seq<Seq<char>> {
    match k {
        StepKind::Http => seq!["status_code"@, "text"@],
        StepKind::Echo => Seq::empty(),
        StepKind::WeChat => seq!["error_code"@],
        StepKind::Gist => seq!["status_code"@, "text"@],
        StepKind::Command => Seq::empty(),
        StepKind::Download => Seq::empty(),
        StepKind::Decompress => Seq::empty(),
        StepKind::Atom => seq!["title"@, "link"@],
        StepKind::Rss => seq!["title"@, "link"@],
        StepKind::Read => seq!["text"@],
        StepKind::Save => Seq::empty(),
    }
}

impl StepKind {
    /// The parameter names this kind declares; dispatches to the step
    /// implementation that owns them.
    pub fn parameters(&self) -> (r: Vec<&'static str>)
        ensures
            r.deep_view() == spec_params(*self),
    {
        match self {
            StepKind::Http => Http {}.parameters(),
            StepKind::Echo => Echo {}.parameters(),
            StepKind::WeChat => WeChat {}.parameters(),
            StepKind::Gist => Gist {}.parameters(),
            StepKind::Command => Command {}.parameters(),
            StepKind::Download => Download {}.parameters(),
            StepKind::Decompress => Decompress {}.parameters(),
            StepKind::Atom => Atom {}.parameters(),
            StepKind::Rss => Rss {}.parameters(),
            StepKind::Read => Read {}.parameters(),
            StepKind::Save => Save {}.parameters(),
        }
    }

    /// The output names this kind declares.
    pub fn outputs(&self) -> (r: Vec<&'static str>)
        ensures
            r.deep_view() == spec_outputs(*self),
    {
        match self {
            StepKind::Http => Http {}.outputs(),
            StepKind::Echo => Echo {}.outputs(),
            StepKind::WeChat => WeChat {}.outputs(),
            StepKind::Gist => Gist {}.outputs(),
            StepKind::Command => Command {}.outputs(),
            StepKind::Download => Download {}.outputs(),
            StepKind::Decompress => Decompress {}.outputs(),
            StepKind::Atom => Atom {}.outputs(),
            StepKind::Rss => Rss {}.outputs(),
            StepKind::Read => Read {}.outputs(),
            StepKind::Save => Save {}.outputs(),
        }
    }
}

} // verus!
