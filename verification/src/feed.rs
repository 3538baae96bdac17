//! Fan-out for feed steps.
//!
//! A feed step walks its entries in document order (newest first by
//! convention) and produces one output map per entry whose timestamp is
//! not older than the cutoff; it stops at the first older entry instead
//! of skipping it. Without a cutoff the whole feed qualifies.

use vstd::prelude::*;
use crate::dict::Dict;

verus! {

/// One feed entry as the fan-out logic sees it: title, link, and the
/// publication instant in milliseconds where the feed supplied one.
pub struct FeedEntry {
    pub title: String,
    pub link: String,
    pub published: Option<i64>,
}

/// Specification view of a [`FeedEntry`].
pub ghost struct FeedEntryV {
    pub title: Seq<char>,
    pub link: Seq<char>,
    pub published: Option<int>,
}

impl View for FeedEntry {
    type V = FeedEntryV;

    open spec fn view(&self) -> FeedEntryV {
        FeedEntryV {
            title: self.title@,
            link: self.link@,
            published: match self.published {
                Some(p) => Some(p as int),
                None => None,
            },
        }
    }
}

impl DeepView for FeedEntry {
    type V = FeedEntryV;

    open spec fn deep_view(&self) -> FeedEntryV {
        self.view()
    }
}

/// The cutoff as a mathematical value.
pub open spec fn opt_int(c: Option<i64>) -> Option<int> {
    match c {
        Some(v) => Some(v as int),
        None => None,
    }
}

/// Whether iteration stops at an entry: only when there is a cutoff, the
/// entry is dated, and it is older than the cutoff.
pub open spec fn stops(cutoff: Option<int>, published: Option<int>) -> bool {
    cutoff is Some && published is Some && published->0 < cutoff->0
}

/// The entries a feed step fans out over: the longest prefix in which no
/// entry stops the iteration.
pub open spec fn fan_prefix(entries: Seq<FeedEntryV>, cutoff: Option<int>) -> Seq<FeedEntryV>
    decreases entries.len(),
{
    if entries.len() == 0 {
        Seq::empty()
    } else if stops(cutoff, entries[0].published) {
        Seq::empty()
    } else {
        seq![entries[0]] + fan_prefix(entries.drop_first(), cutoff)
    }
}

/// The output map one qualifying entry produces: its `title` and `link`.
pub open spec fn entry_output(e: FeedEntryV) -> Seq<(Seq<char>, Seq<char>)> {
    seq![("title"@, e.title), ("link"@, e.link)]
}

/// What the fan-out prefix is: a prefix of the entries, none of which
/// stops the iteration, cut exactly at the first entry that does.
pub proof fn lemma_fan_prefix_characterization(entries: Seq<FeedEntryV>, cutoff: Option<int>)
    ensures
        fan_prefix(entries, cutoff).len() <= entries.len(),
        forall|i: int|
            0 <= i < fan_prefix(entries, cutoff).len() ==> fan_prefix(entries, cutoff)[i]
                == entries[i],
        forall|i: int|
            0 <= i < fan_prefix(entries, cutoff).len() ==> !stops(
                cutoff,
                #[trigger] entries[i].published,
            ),
        fan_prefix(entries, cutoff).len() < entries.len() ==> stops(
            cutoff,
            entries[fan_prefix(entries, cutoff).len() as int].published,
        ),
    decreases entries.len(),
{
    if entries.len() == 0 {
    } else if stops(cutoff, entries[0].published) {
    } else {
        lemma_fan_prefix_characterization(entries.drop_first(), cutoff);
        let fp = fan_prefix(entries, cutoff);
        let rest = fan_prefix(entries.drop_first(), cutoff);
        assert forall|i: int| 0 <= i < fp.len() implies fan_prefix(entries, cutoff)[i]
            == entries[i] by {
            if i > 0 {
                assert(fp[i] == rest[i - 1]);
                assert(rest[i - 1] == entries.drop_first()[i - 1]);
                assert(entries.drop_first()[i - 1] == entries[i]);
            }
        }
        assert forall|i: int| 0 <= i < fp.len() implies !stops(
            cutoff,
            #[trigger] entries[i].published,
        ) by {
            if i > 0 {
                assert(entries.drop_first()[i - 1] == entries[i]);
                assert(!stops(cutoff, entries.drop_first()[i - 1].published));
            }
        }
        if fp.len() < entries.len() {
            assert(rest.len() < entries.drop_first().len());
            assert(stops(cutoff, entries.drop_first()[rest.len() as int].published));
            assert(entries.drop_first()[rest.len() as int] == entries[fp.len() as int]);
        }
    }
}

/// Splitting off an unstopped prefix: when nothing in the first `i`
/// entries stops the iteration, the fan-out prefix is those entries
/// followed by the fan-out prefix of the rest.
pub proof fn lemma_fan_prefix_split(entries: Seq<FeedEntryV>, cutoff: Option<int>, i: int)
    requires
        0 <= i <= entries.len(),
        forall|j: int| 0 <= j < i ==> !stops(cutoff, #[trigger] entries[j].published),
    ensures
        fan_prefix(entries, cutoff) == entries.take(i) + fan_prefix(entries.skip(i), cutoff),
    decreases i,
{
    if i == 0 {
        assert(entries.skip(0) =~= entries);
        assert(entries.take(0) + fan_prefix(entries, cutoff) =~= fan_prefix(entries, cutoff));
    } else {
        assert(!stops(cutoff, entries[0].published));
        assert(entries.len() > 0);
        lemma_fan_prefix_split(entries.drop_first(), cutoff, i - 1);
        assert(forall|j: int|
            0 <= j < entries.len() - 1 ==> #[trigger] entries.drop_first()[j] == entries[j + 1]);
        assert(entries.drop_first().skip(i - 1) =~= entries.skip(i));
        assert(seq![entries[0]] + (entries.drop_first().take(i - 1) + fan_prefix(
            entries.skip(i),
            cutoff,
        )) =~= entries.take(i) + fan_prefix(entries.skip(i), cutoff));
    }
}

/// Walks the entries in order and produces one `title`/`link` output map
/// per entry, stopping — not skipping — at the first entry older than the
/// cutoff; an undated entry never stops the walk.
pub fn fan_out(entries: &Vec<FeedEntry>, cutoff: Option<i64>) -> (r: Vec<Dict>)
    ensures
        r.deep_view().len() == fan_prefix(entries.deep_view(), opt_int(cutoff)).len(),
        forall|i: int|
            0 <= i < r.deep_view().len() ==> r.deep_view()[i] == entry_output(
                #[trigger] fan_prefix(entries.deep_view(), opt_int(cutoff))[i],
            ),
{
    let ghost ev = entries.deep_view();
    let ghost c = opt_int(cutoff);
    let n = entries.len();
    proof {
        assert(ev.len() == n);
    }
    let mut r: Vec<Dict> = Vec::new();
    let mut i: usize = 0;
    while i < n
        invariant
            i <= n,
            n == entries.len(),
            ev == entries.deep_view(),
            ev.len() == n,
            c == opt_int(cutoff),
            forall|j: int| 0 <= j < i ==> !stops(c, #[trigger] ev[j].published),
            r.deep_view().len() == i,
            forall|j: int|
                0 <= j < i ==> r.deep_view()[j] == entry_output(#[trigger] ev[j]),
        decreases n - i,
    {
        let e = &entries[i];
        let halt = match (cutoff, &e.published) {
            (Some(cut), Some(p)) => *p < cut,
            _ => false,
        };
        proof {
            assert(ev[i as int] == entries@[i as int]@);
            assert(halt == stops(c, ev[i as int].published));
        }
        if halt {
            proof {
                lemma_fan_prefix_split(ev, c, i as int);
                assert(fan_prefix(ev.skip(i as int), c) =~= Seq::<FeedEntryV>::empty());
                assert(fan_prefix(ev, c) =~= ev.take(i as int));
            }
            return r;
        }
        let mut d = Dict::new();
        d.insert(String::from_str("title"), e.title.clone());
        d.insert(String::from_str("link"), e.link.clone());
        let ghost d0 = d;
        let ghost old_r = r;
        r.push(d);
        proof {
            crate::dict::lemma_push_deep_view(old_r, r, d0);
            assert(d0@ =~= entry_output(ev[i as int]));
        }
        i = i + 1;
    }
    proof {
        lemma_fan_prefix_split(ev, c, n as int);
        assert(fan_prefix(ev.skip(n as int), c) =~= Seq::<FeedEntryV>::empty());
        assert(fan_prefix(ev, c) =~= ev.take(n as int));
    }
    r
}

} // verus!
