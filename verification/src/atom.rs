//! The `atom` feed step: parses its `text` parameter as an Atom document
//! and fans the rest of the pipeline out once per entry not older than
//! the cutoff derived from `schedule_in_secs`.

use vstd::prelude::*;
use vstd::string::StringExecFns;
use crate::catalog::{spec_outputs, spec_params, StepKind};
use crate::dict::{spec_get_or_empty, Dict};
use crate::feed::{entry_output, fan_prefix, FeedEntry, FeedEntryV};
use crate::strutil::{parse_i64, spec_parse_i64};

verus! {

pub struct Atom {}

/// A feed step's failure: the document did not parse as a feed.
#[derive(Debug)]
pub struct FeedError {
    pub message: String,
}

/// One entry of a parsed Atom document, as plain values: title, the
/// `href` of every link in document order, and the update instant in
/// milliseconds.
pub struct AtomEntryRaw {
    pub title: String,
    pub links: Vec<String>,
    pub updated_millis: i64,
}

impl DeepView for AtomEntryRaw {
    type V = (Seq<char>, Seq<Seq<char>>, int);

    open spec fn deep_view(&self) -> Self::V {
        (self.title@, self.links.deep_view(), self.updated_millis as int)
    }
}

/// What parsing a text as an Atom document yields: `None` when the text
/// is no well-formed feed, otherwise every entry's title, link targets
/// and update instant, in document order. The result depends on the text
/// alone.
pub uninterp spec fn atom_feed_entries(s: Seq<char>) -> Option<
    Seq<(Seq<char>, Seq<Seq<char>>, int)>,
>;

/// Relies on atom_syndication::Feed::read_from to parse the document and
/// on its entry accessors; the entries are handed out as plain values in
/// document order. Parsing is a function of the text alone.
#[verifier::external_body]
fn parse_feed(text: &str) -> (r: Result<Vec<AtomEntryRaw>, FeedError>)
    ensures
        match r {
            Ok(v) => atom_feed_entries(text@) == Some(v.deep_view()),
            Err(_) => atom_feed_entries(text@) is None,
        },
{
    match atom_syndication::Feed::read_from(std::io::BufReader::new(text.as_bytes())) {
        Ok(feed) => Ok(
            feed.entries().iter().map(
                |e| AtomEntryRaw {
                    title: e.title().as_str().to_string(),
                    links: e.links().iter().map(|l| l.href().to_string()).collect(),
                    updated_millis: e.updated().timestamp_millis(),
                },
            ).collect(),
        ),
        Err(e) => Err(FeedError { message: e.to_string() }),
    }
}

/// Joins pieces with a single comma between each two.
pub open spec fn spec_join_comma(s: Seq<Seq<char>>) -> Seq<char>
    decreases s.len(),
{
    if s.len() == 0 {
        Seq::empty()
    } else if s.len() == 1 {
        s[0]
    } else {
        spec_join_comma(s.drop_last()) + seq![','] + s.last()
    }
}

pub fn join_comma(pieces: &Vec<String>) -> (r: String)
    ensures
        r@ == spec_join_comma(pieces.deep_view()),
{
    let ghost pv = pieces.deep_view();
    let n = pieces.len();
    proof {
        assert(pv.len() == n);
    }
    let mut out = String::new();
    let mut i: usize = 0;
    proof {
        assert(pv.take(0) =~= Seq::<Seq<char>>::empty());
    }
    while i < n
        invariant
            i <= n,
            n == pieces.len(),
            pv == pieces.deep_view(),
            pv.len() == n,
            out@ == spec_join_comma(pv.take(i as int)),
        decreases n - i,
    {
        if i > 0 {
            out.append(",");
        }
        out.append(pieces[i].as_str());
        proof {
            reveal_strlit(",");
            assert(","@ =~= seq![',']);
            assert(pv.take(i + 1).drop_last() =~= pv.take(i as int));
            assert(pv.take(i + 1).last() == pv[i as int]);
            assert(pv[i as int] == pieces@[i as int]@);
            if i == 0 {
                assert(spec_join_comma(pv.take(1)) == pv[0]);
            }
        }
        i = i + 1;
    }
    proof {
        assert(pv.take(n as int) =~= pv);
    }
    out
}

/// The fan-out entries a parsed Atom document stands for.
pub open spec fn atom_entries(raws: Seq<(Seq<char>, Seq<Seq<char>>, int)>) -> Seq<FeedEntryV> {
    raws.map(
        |_i: int, r: (Seq<char>, Seq<Seq<char>>, int)|
            FeedEntryV { title: r.0, link: spec_join_comma(r.1), published: Some(r.2) },
    )
}

/// Clamping into the `i64` range, as saturating arithmetic leaves values.
pub open spec fn clamp_i64(x: int) -> int {
    if x < i64::MIN {
        i64::MIN as int
    } else if x > i64::MAX {
        i64::MAX as int
    } else {
        x
    }
}

/// The cutoff a feed step works under: `schedule_in_secs` seconds before
/// `now`, or none when the parameter is no well-formed number.
pub open spec fn spec_cutoff(secs: Seq<char>, now_millis: int) -> Option<int> {
    match spec_parse_i64(secs) {
        Some(v) => Some(clamp_i64(now_millis - v * 1000)),
        None => None,
    }
}

/// Computes the cutoff instant from the raw parameter and the sampled
/// clock, saturating at the ends of the `i64` range.
pub fn cutoff_millis(secs: &str, now_millis: i64) -> (r: Option<i64>)
    ensures
        crate::feed::opt_int(r) == spec_cutoff(secs@, now_millis as int),
{
    match parse_i64(secs) {
        Some(v) => {
            let wide: i128 = (now_millis as i128) - (v as i128) * 1000;
            let c: i64 = if wide < -9223372036854775808i128 {
                i64::MIN
            } else if wide > 9223372036854775807i128 {
                i64::MAX
            } else {
                wide as i64
            };
            Some(c)
        },
        None => None,
    }
}

impl Atom {
    pub fn parameters(&self) -> (r: Vec<&'static str>)
        ensures
            r.deep_view() == spec_params(StepKind::Atom),
    {
        let mut v: Vec<&'static str> = Vec::new();
        v.push("text");
        v.push("schedule_in_secs");
        proof {
            assert(v.deep_view() =~= spec_params(StepKind::Atom));
        }
        v
    }

    pub fn outputs(&self) -> (r: Vec<&'static str>)
        ensures
            r.deep_view() == spec_outputs(StepKind::Atom),
    {
        let mut v: Vec<&'static str> = Vec::new();
        v.push("title");
        v.push("link");
        proof {
            assert(v.deep_view() =~= spec_outputs(StepKind::Atom));
        }
        v
    }

    /// Parses the `text` parameter as an Atom document and produces one
    /// output map per entry not older than the cutoff derived from
    /// `schedule_in_secs` and the given clock reading, in document order,
    /// stopping at the first older entry.
    pub fn collect_with_now(&self, params: &Dict, now_millis: i64) -> (r: Result<
        Vec<Dict>,
        FeedError,
    >)
        ensures
            atom_collect_post(params@, now_millis as int, r),
    {
        let text = params.parameter("text");
        let secs = params.parameter("schedule_in_secs");
        let cutoff = cutoff_millis(secs.as_str(), now_millis);
        let raws = match parse_feed(text.as_str()) {
            Ok(raws) => raws,
            Err(e) => {
                return Err(e);
            },
        };
        let ghost rv = raws.deep_view();
        let n = raws.len();
        proof {
            assert(rv.len() == n);
        }
        let mut entries: Vec<FeedEntry> = Vec::new();
        let mut i: usize = 0;
        while i < n
            invariant
                i <= n,
                n == raws.len(),
                rv == raws.deep_view(),
                rv.len() == n,
                entries.deep_view() == atom_entries(rv).take(i as int),
                entries@.len() == i,
            decreases n - i,
        {
            let link = join_comma(&raws[i].links);
            let e = FeedEntry {
                title: raws[i].title.clone(),
                link,
                published: Some(raws[i].updated_millis),
            };
            let ghost e0 = e;
            let ghost old_entries = entries;
            entries.push(e);
            proof {
                crate::dict::lemma_push_deep_view(old_entries, entries, e0);
                assert(rv[i as int] == raws@[i as int].deep_view());
                assert(e0@ == atom_entries(rv)[i as int]);
                assert(entries.deep_view() =~= atom_entries(rv).take(i + 1));
            }
            i = i + 1;
        }
        proof {
            assert(atom_entries(rv).take(n as int) =~= atom_entries(rv));
        }
        Ok(crate::feed::fan_out(&entries, cutoff))
    }

    /// [`Self::collect_with_now`] against the real clock: what holds of
    /// the result holds for the instant that was sampled.
    pub fn collect(&self, params: &Dict) -> (r: Result<Vec<Dict>, FeedError>)
        ensures
            exists|now: int| atom_collect_post(params@, now, r),
    {
        let now = now_millis();
        let r = self.collect_with_now(params, now);
        proof {
            assert(atom_collect_post(params@, now as int, r));
        }
        r
    }
}

/// What collecting an Atom feed against the clock reading `now` returns:
/// a parse failure exactly when the text is no well-formed feed, and
/// otherwise the `title`/`link` output maps of the entries up to the
/// first one older than the cutoff.
pub open spec fn atom_collect_post(
    params: Seq<(Seq<char>, Seq<char>)>,
    now: int,
    r: Result<Vec<Dict>, FeedError>,
) -> bool {
    let text = spec_get_or_empty(params, "text"@);
    let cutoff = spec_cutoff(spec_get_or_empty(params, "schedule_in_secs"@), now);
    match r {
        Ok(outs) => atom_feed_entries(text) matches Some(raws) && {
            let pre = fan_prefix(atom_entries(raws), cutoff);
            &&& outs.deep_view().len() == pre.len()
            &&& forall|i: int|
                0 <= i < pre.len() ==> outs.deep_view()[i] == entry_output(#[trigger] pre[i])
        },
        Err(_) => atom_feed_entries(text) is None,
    }
}

/// Relies on chrono::Local::now for the current instant in milliseconds;
/// nothing is assumed of the value.
#[verifier::external_body]
pub(crate) fn now_millis() -> i64 {
    chrono::Local::now().timestamp_millis()
}

} // verus!
