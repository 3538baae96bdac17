//! The `rss` feed step: parses its `text` parameter as an RSS channel
//! and fans the rest of the pipeline out once per item not older than
//! the cutoff derived from `schedule_in_secs`. An item without a
//! parseable publication date never stops the walk.

use vstd::prelude::*;
use crate::atom::{cutoff_millis, spec_cutoff, FeedError};
use crate::catalog::{spec_outputs, spec_params, StepKind};
use crate::dict::{spec_get_or_empty, Dict};
use crate::feed::{entry_output, fan_prefix, FeedEntry, FeedEntryV};

verus! {

pub struct Rss {}

/// One item of a parsed RSS channel, as plain values: title, link and
/// publication date text, each only where the document carried it.
pub struct RssItemRaw {
    pub title: Option<String>,
    pub link: Option<String>,
    pub pub_date: Option<String>,
}

impl DeepView for RssItemRaw {
    type V = (Option<Seq<char>>, Option<Seq<char>>, Option<Seq<char>>);

    open spec fn deep_view(&self) -> Self::V {
        (
            match self.title {
                Some(ref t) => Some(t@),
                None => None,
            },
            match self.link {
                Some(ref l) => Some(l@),
                None => None,
            },
            match self.pub_date {
                Some(ref d) => Some(d@),
                None => None,
            },
        )
    }
}

/// What parsing a text as an RSS channel yields: `None` when the text is
/// no well-formed channel, otherwise every item's title, link and raw
/// publication date, in document order. The result depends on the text
/// alone.
pub uninterp spec fn rss_channel_items(s: Seq<char>) -> Option<
    Seq<(Option<Seq<char>>, Option<Seq<char>>, Option<Seq<char>>)>,
>;

/// Relies on rss::Channel::read_from to parse the document and on its
/// item accessors; the items are handed out as plain values in document
/// order. Parsing is a function of the text alone.
#[verifier::external_body]
fn parse_channel(text: &str) -> (r: Result<Vec<RssItemRaw>, FeedError>)
    ensures
        match r {
            Ok(v) => rss_channel_items(text@) == Some(v.deep_view()),
            Err(_) => rss_channel_items(text@) is None,
        },
{
    match rss::Channel::read_from(std::io::BufReader::new(text.as_bytes())) {
        Ok(channel) => Ok(
            channel.items().iter().map(
                |item| RssItemRaw {
                    title: item.title().map(str::to_string),
                    link: item.link().map(str::to_string),
                    pub_date: item.pub_date().map(str::to_string),
                },
            ).collect(),
        ),
        Err(e) => Err(FeedError { message: e.to_string() }),
    }
}

/// What reading a date text as RFC 2822 yields, in milliseconds; `None`
/// when the text is no well-formed date. The result depends on the text
/// alone.
pub uninterp spec fn rfc2822_millis(s: Seq<char>) -> Option<int>;

/// Relies on chrono::DateTime::parse_from_rfc2822, reduced to the
/// instant in milliseconds. Parsing is a function of the text alone.
#[verifier::external_body]
fn parse_rfc2822(s: &str) -> (r: Option<i64>)
    ensures
        match r {
            Some(v) => rfc2822_millis(s@) == Some(v as int),
            None => rfc2822_millis(s@) is None,
        },
{
    match chrono::DateTime::parse_from_rfc2822(s) {
        Ok(dt) => Some(dt.timestamp_millis()),
        Err(_) => None,
    }
}

/// The fan-out entries a parsed RSS channel stands for: missing titles
/// and links become empty strings; an item is dated only when its date
/// text is present and well-formed.
pub open spec fn rss_entries(
    raws: Seq<(Option<Seq<char>>, Option<Seq<char>>, Option<Seq<char>>)>,
) -> Seq<FeedEntryV> {
    raws.map(
        |_i: int, r: (Option<Seq<char>>, Option<Seq<char>>, Option<Seq<char>>)|
            FeedEntryV {
                title: match r.0 {
                    Some(t) => t,
                    None => Seq::empty(),
                },
                link: match r.1 {
                    Some(l) => l,
                    None => Seq::empty(),
                },
                published: match r.2 {
                    Some(d) => rfc2822_millis(d),
                    None => None,
                },
            },
    )
}

/// What collecting an RSS channel against the clock reading `now`
/// returns: a parse failure exactly when the text is no well-formed
/// channel, and otherwise the `title`/`link` output maps of the items up
/// to the first one older than the cutoff.
pub open spec fn rss_collect_post(
    params: Seq<(Seq<char>, Seq<char>)>,
    now: int,
    r: Result<Vec<Dict>, FeedError>,
) -> bool {
    let text = spec_get_or_empty(params, "text"@);
    let cutoff = spec_cutoff(spec_get_or_empty(params, "schedule_in_secs"@), now);
    match r {
        Ok(outs) => rss_channel_items(text) matches Some(raws) && {
            let pre = fan_prefix(rss_entries(raws), cutoff);
            &&& outs.deep_view().len() == pre.len()
            &&& forall|i: int|
                0 <= i < pre.len() ==> outs.deep_view()[i] == entry_output(#[trigger] pre[i])
        },
        Err(_) => rss_channel_items(text) is None,
    }
}

impl Rss {
    pub fn parameters(&self) -> (r: Vec<&'static str>)
        ensures
            r.deep_view() == spec_params(StepKind::Rss),
    {
        let mut v: Vec<&'static str> = Vec::new();
        v.push("text");
        v.push("schedule_in_secs");
        proof {
            assert(v.deep_view() =~= spec_params(StepKind::Rss));
        }
        v
    }

    pub fn outputs(&self) -> (r: Vec<&'static str>)
        ensures
            r.deep_view() == spec_outputs(StepKind::Rss),
    {
        let mut v: Vec<&'static str> = Vec::new();
        v.push("title");
        v.push("link");
        proof {
            assert(v.deep_view() =~= spec_outputs(StepKind::Rss));
        }
        v
    }

    /// Parses the `text` parameter as an RSS channel and produces one
    /// output map per item not older than the cutoff derived from
    /// `schedule_in_secs` and the given clock reading, in document order,
    /// stopping at the first older dated item.
    pub fn collect_with_now(&self, params: &Dict, now_millis: i64) -> (r: Result<
        Vec<Dict>,
        FeedError,
    >)
        ensures
            rss_collect_post(params@, now_millis as int, r),
    {
        let text = params.parameter("text");
        let secs = params.parameter("schedule_in_secs");
        let cutoff = cutoff_millis(secs.as_str(), now_millis);
        let raws = match parse_channel(text.as_str()) {
            Ok(raws) => raws,
            Err(e) => {
                return Err(e);
            },
        };
        let ghost rv = raws.deep_view();
        let n = raws.len();
        proof {
            assert(rv.len() == n);
        }
        let mut entries: Vec<FeedEntry> = Vec::new();
        let mut i: usize = 0;
        while i < n
            invariant
                i <= n,
                n == raws.len(),
                rv == raws.deep_view(),
                rv.len() == n,
                entries.deep_view() == rss_entries(rv).take(i as int),
                entries@.len() == i,
            decreases n - i,
        {
            let title = match &raws[i].title {
                Some(t) => t.clone(),
                None => String::new(),
            };
            let link = match &raws[i].link {
                Some(l) => l.clone(),
                None => String::new(),
            };
            let published = match &raws[i].pub_date {
                Some(d) => parse_rfc2822(d.as_str()),
                None => None,
            };
            let e = FeedEntry { title, link, published };
            let ghost e0 = e;
            let ghost old_entries = entries;
            entries.push(e);
            proof {
                crate::dict::lemma_push_deep_view(old_entries, entries, e0);
                assert(rv[i as int] == raws@[i as int].deep_view());
                assert(e0@ == rss_entries(rv)[i as int]);
                assert(entries.deep_view() =~= rss_entries(rv).take(i + 1));
            }
            i = i + 1;
        }
        proof {
            assert(rss_entries(rv).take(n as int) =~= rss_entries(rv));
        }
        Ok(crate::feed::fan_out(&entries, cutoff))
    }

    /// [`Self::collect_with_now`] against the real clock: what holds of
    /// the result holds for the instant that was sampled.
    pub fn collect(&self, params: &Dict) -> (r: Result<Vec<Dict>, FeedError>)
        ensures
            exists|now: int| rss_collect_post(params@, now, r),
    {
        let now = crate::atom::now_millis();
        let r = self.collect_with_now(params, now);
        proof {
            assert(rss_collect_post(params@, now as int, r));
        }
        r
    }
}

} // verus!
