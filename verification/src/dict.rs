//! A small string-to-string map used for environment snapshots, configured
//! parameter templates, resolved parameters and step output maps.
//!
//! Entries are kept as a sequence of pairs; a later entry for the same key
//! shadows an earlier one, so `insert` is a plain append.

use vstd::prelude::*;
use crate::strutil::str_eq;

verus! {

/// Pushing onto a vector pushes the element's view onto the deep view.
pub proof fn lemma_push_deep_view<T: DeepView>(v1: Vec<T>, v2: Vec<T>, x: T)
    requires
        v2@ == v1@.push(x),
    ensures
        v2.deep_view() =~= v1.deep_view().push(x.deep_view()),
{
    assert forall|j: int| 0 <= j < v2@.len() implies #[trigger] v2.deep_view()[j]
        == v1.deep_view().push(x.deep_view())[j] by {
        if j < v1@.len() {
            assert(v2@[j] == v1@[j]);
        } else {
            assert(v2@[j] == x);
        }
    }
}

/// Popping a vector's last element drops the last element of its deep
/// view.
pub proof fn lemma_drop_last_deep_view<T: DeepView>(v1: Vec<T>, v2: Vec<T>)
    requires
        v1@.len() > 0,
        v2@ == v1@.drop_last(),
    ensures
        v2.deep_view() =~= v1.deep_view().drop_last(),
{
    assert forall|j: int| 0 <= j < v2@.len() implies #[trigger] v2.deep_view()[j]
        == v1.deep_view().drop_last()[j] by {
        assert(v2@[j] == v1@[j]);
    }
}

/// Looks `k` up in a sequence of key/value pairs; the last matching entry
/// wins.
pub open spec fn spec_get(m: Seq<(Seq<char>, Seq<char>)>, k: Seq<char>) -> Option<Seq<char>>
    decreases m.len(),
{
    if m.len() == 0 {
        None
    } else if m.last().0 == k {
        Some(m.last().1)
    } else {
        spec_get(m.drop_last(), k)
    }
}

/// `spec_get` with a missing key replaced by the empty string: the default
/// that steps see for parameters that were never configured.
pub open spec fn spec_get_or_empty(m: Seq<(Seq<char>, Seq<char>)>, k: Seq<char>) -> Seq<char> {
    match spec_get(m, k) {
        Some(v) => v,
        None => Seq::empty(),
    }
}

/// An ordered map from `String` to `String`.
pub struct Dict {
    entries: Vec<(String, String)>,
}

impl View for Dict {
    type V = Seq<(Seq<char>, Seq<char>)>;

    closed spec fn view(&self) -> Self::V {
        self.entries.deep_view()
    }
}

impl DeepView for Dict {
    type V = Seq<(Seq<char>, Seq<char>)>;

    open spec fn deep_view(&self) -> Self::V {
        self.view()
    }
}

impl Dict {
    pub fn new() -> (r: Dict)
        ensures
            r@ =~= Seq::<(Seq<char>, Seq<char>)>::empty(),
    {
        let d = Dict { entries: Vec::new() };
        proof {
            assert(d@.len() == 0);
        }
        d
    }

    pub fn len(&self) -> (r: usize)
        ensures
            r == self@.len(),
    {
        self.entries.len()
    }

    /// Appends an entry; it shadows any earlier entry with the same key.
    pub fn insert(&mut self, key: String, value: String)
        ensures
            final(self)@ =~= old(self)@.push((key@, value@)),
    {
        self.entries.push((key, value));
    }

    /// The value stored under `key`, if any.
    pub fn get(&self, key: &str) -> (r: Option<&String>)
        ensures
            match r {
                Some(v) => spec_get(self@, key@) == Some(v@),
                None => spec_get(self@, key@) is None,
            },
    {
        let n = self.entries.len();
        proof {
            assert(self@.len() == n);
            assert(self@.take(n as int) =~= self@);
        }
        let mut i: usize = n;
        while i > 0
            invariant
                i <= n,
                n == self.entries.len(),
                self@.len() == n,
                spec_get(self@, key@) == spec_get(self@.take(i as int), key@),
            decreases i,
        {
            i = i - 1;
            proof {
                assert(self@.take(i + 1).drop_last() =~= self@.take(i as int));
                assert(self@.take(i + 1).last() == self@[i as int]);
                assert(self@[i as int] == (self.entries@[i as int].0@, self.entries@[
                    i as int
                ].1@));
            }
            if str_eq(self.entries[i].0.as_str(), key) {
                return Some(&self.entries[i].1);
            }
        }
        proof {
            assert(self@.take(0) =~= Seq::<(Seq<char>, Seq<char>)>::empty());
        }
        None
    }

    /// The value stored under `key`, or the empty string when the key is
    /// absent: the default for parameters that were never configured.
    pub fn parameter(&self, key: &str) -> (r: String)
        ensures
            r@ == spec_get_or_empty(self@, key@),
    {
        match self.get(key) {
            Some(v) => v.clone(),
            None => String::new(),
        }
    }

    /// An independent copy; the engine hands each fan-out branch its own.
    pub fn duplicate(&self) -> (r: Dict)
        ensures
            r@ =~= self@,
    {
        let n = self.entries.len();
        let mut out: Vec<(String, String)> = Vec::new();
        let mut i: usize = 0;
        proof {
            assert(self@.len() == n);
        }
        while i < n
            invariant
                i <= n,
                n == self.entries.len(),
                self@.len() == n,
                out@.len() == i as int,
                out.deep_view() == self@.take(i as int),
            decreases n - i,
        {
            let ghost pre = out.deep_view();
            let k = self.entries[i].0.clone();
            let v = self.entries[i].1.clone();
            out.push((k, v));
            proof {
                assert(self@[i as int] == (self.entries@[i as int].0@, self.entries@[
                    i as int
                ].1@));
                assert forall|j: int| 0 <= j <= i implies #[trigger] out.deep_view()[j] == self@.take(
                    i + 1,
                )[j] by {
                    if j < i {
                        assert(out.deep_view()[j] == pre[j]);
                        assert(pre[j] == self@.take(i as int)[j]);
                    } else {
                        assert(out.deep_view()[j] == (k@, v@));
                    }
                }
                assert(out.deep_view() =~= self@.take(i + 1));
            }
            i = i + 1;
        }
        proof {
            assert(self@.take(n as int) =~= self@);
        }
        Dict { entries: out }
    }
}

} // verus!
