//! The template language.
//!
//! A template is a non-empty sequence of segments. A segment is either a
//! literal run of characters not containing `{`, or an expression
//! `{ <namespace> . <field> }` whose namespace token must be `env` or
//! `input`; whitespace is allowed just inside the braces and around the
//! `.` separator. Resolution concatenates literals verbatim and replaces
//! each expression by a lookup: `env` fields in the environment snapshot,
//! any other accepted namespace in the step-input map. A missing key is a
//! hard error, never an empty substitution.

use vstd::prelude::*;
use vstd::string::StrSliceExecFns;
use crate::dict::{spec_get, Dict};
use crate::engine::Context;
use crate::strutil::str_eq;

verus! {

/// Whitespace accepted inside braces and around the separator.
pub open spec fn is_ws(c: char) -> bool {
    c == ' ' || c == '\t' || c == '\r' || c == '\n'
}

/// Characters a field may consist of: anything but tab, space and `}`.
pub open spec fn is_field_char(c: char) -> bool {
    c != '\t' && c != ' ' && c != '}'
}

/// Characters a namespace token may consist of.
pub open spec fn is_token_char(c: char) -> bool {
    !is_ws(c) && c != '.' && c != '}'
}

/// Characters a literal segment may consist of: anything but `{`.
pub open spec fn is_literal_char(c: char) -> bool {
    c != '{'
}

/// The first position at or after `i` whose character fails `p` (or the end
/// of `s`): the end of the maximal run of `p`-characters starting at `i`.
pub open spec fn scan(s: Seq<char>, i: int, p: spec_fn(char) -> bool) -> int
    decreases s.len() - i,
    when 0 <= i
{
    if i >= s.len() {
        s.len() as int
    } else if p(s[i]) {
        scan(s, i + 1, p)
    } else {
        i
    }
}

pub proof fn lemma_scan(s: Seq<char>, i: int, p: spec_fn(char) -> bool)
    requires
        0 <= i <= s.len(),
    ensures
        i <= scan(s, i, p) <= s.len(),
        forall|j: int| i <= j < scan(s, i, p) ==> p(s[j]),
        scan(s, i, p) < s.len() ==> !p(s[scan(s, i, p)]),
    decreases s.len() - i,
{
    if i < s.len() && p(s[i]) {
        lemma_scan(s, i + 1, p);
    }
}

/// A parsed template segment, at the specification level.
pub ghost enum SegV {
    Literal(Seq<char>),
    Expression(Seq<char>, Seq<char>),
}

/// Parses one `{ namespace . field }` expression starting at position `i`
/// (which must hold a `{`), returning the segment and the position just
/// after the closing `}`.
pub open spec fn spec_parse_expr(s: Seq<char>, i: int) -> Option<(SegV, int)> {
    if !(0 <= i < s.len() && s[i] == '{') {
        None
    } else {
        let j1 = scan(s, i + 1, |c: char| is_ws(c));
        let j2 = scan(s, j1, |c: char| is_token_char(c));
        let ns = s.subrange(j1, j2);
        if ns != "env"@ && ns != "input"@ {
            None
        } else {
            let j3 = scan(s, j2, |c: char| is_ws(c));
            if !(j3 < s.len() && s[j3] == '.') {
                None
            } else {
                let j4 = scan(s, j3 + 1, |c: char| is_ws(c));
                let j5 = scan(s, j4, |c: char| is_field_char(c));
                if j5 == j4 {
                    None
                } else {
                    let f = s.subrange(j4, j5);
                    let j6 = scan(s, j5, |c: char| is_ws(c));
                    if !(j6 < s.len() && s[j6] == '}') {
                        None
                    } else {
                        Some((SegV::Expression(ns, f), j6 + 1))
                    }
                }
            }
        }
    }
}

/// A successfully parsed expression ends strictly past where it began.
pub proof fn lemma_parse_expr_advances(s: Seq<char>, i: int)
    requires
        0 <= i,
    ensures
        spec_parse_expr(s, i) matches Some(r) ==> i < r.1 <= s.len(),
{
    if 0 <= i < s.len() && s[i] == '{' {
        let j1 = scan(s, i + 1, |c: char| is_ws(c));
        lemma_scan(s, i + 1, |c: char| is_ws(c));
        let j2 = scan(s, j1, |c: char| is_token_char(c));
        lemma_scan(s, j1, |c: char| is_token_char(c));
        let j3 = scan(s, j2, |c: char| is_ws(c));
        lemma_scan(s, j2, |c: char| is_ws(c));
        if j3 < s.len() {
            let j4 = scan(s, j3 + 1, |c: char| is_ws(c));
            lemma_scan(s, j3 + 1, |c: char| is_ws(c));
            let j5 = scan(s, j4, |c: char| is_field_char(c));
            lemma_scan(s, j4, |c: char| is_field_char(c));
            let j6 = scan(s, j5, |c: char| is_ws(c));
            lemma_scan(s, j5, |c: char| is_ws(c));
        }
    }
}

/// Parses the suffix of `s` starting at `i` into segments; `None` when the
/// suffix is not a sequence of literals and well-formed expressions.
pub open spec fn spec_parse_from(s: Seq<char>, i: int) -> Option<Seq<SegV>>
    decreases s.len() - i,
    when 0 <= i
    via spec_parse_from_decreases
{
    if i >= s.len() {
        Some(Seq::empty())
    } else if s[i] != '{' {
        let j = scan(s, i, |c: char| is_literal_char(c));
        match spec_parse_from(s, j) {
            None => None,
            Some(rest) => Some(seq![SegV::Literal(s.subrange(i, j))] + rest),
        }
    } else {
        match spec_parse_expr(s, i) {
            None => None,
            Some((seg, j)) => match spec_parse_from(s, j) {
                None => None,
                Some(rest) => Some(seq![seg] + rest),
            },
        }
    }
}

#[via_fn]
proof fn spec_parse_from_decreases(s: Seq<char>, i: int) {
    if 0 <= i < s.len() {
        if s[i] != '{' {
            lemma_scan(s, i + 1, |c: char| is_literal_char(c));
            assert(scan(s, i, |c: char| is_literal_char(c)) == scan(
                s,
                i + 1,
                |c: char| is_literal_char(c),
            ));
        } else {
            lemma_parse_expr_advances(s, i);
        }
    }
}

/// Parses a whole template: a non-empty sequence of segments covering all
/// of `s`.
pub open spec fn spec_parse(s: Seq<char>) -> Option<Seq<SegV>> {
    if s.len() == 0 {
        None
    } else {
        spec_parse_from(s, 0)
    }
}

/// A template expression: a namespace token and the field to look up.
#[derive(Debug)]
pub struct Expression {
    pub namespace: String,
    pub field: String,
}

/// A parsed template segment.
#[derive(Debug)]
pub enum Text {
    Literal(String),
    Expression(Expression),
}

impl View for Text {
    type V = SegV;

    open spec fn view(&self) -> SegV {
        match self {
            Text::Literal(s) => SegV::Literal(s@),
            Text::Expression(e) => SegV::Expression(e.namespace@, e.field@),
        }
    }
}

impl DeepView for Text {
    type V = SegV;

    open spec fn deep_view(&self) -> SegV {
        self.view()
    }
}

impl PartialEq for Expression {
    fn eq(&self, other: &Expression) -> (r: bool) {
        self.namespace == other.namespace && self.field == other.field
    }
}

impl vstd::std_specs::cmp::PartialEqSpecImpl for Expression {
    open spec fn obeys_eq_spec() -> bool {
        true
    }

    open spec fn eq_spec(&self, other: &Expression) -> bool {
        self.namespace@ == other.namespace@ && self.field@ == other.field@
    }
}

impl PartialEq for Text {
    fn eq(&self, other: &Text) -> (r: bool) {
        match (self, other) {
            (Text::Literal(a), Text::Literal(b)) => {
                let r = *a == *b;
                proof {
                    assert(r == (a@ == b@));
                    assert((self@ == other@) == (a@ == b@));
                }
                r
            },
            (Text::Expression(a), Text::Expression(b)) => {
                let r = *a == *b;
                proof {
                    assert(r == (a.namespace@ == b.namespace@ && a.field@ == b.field@));
                    assert((self@ == other@) == (a.namespace@ == b.namespace@ && a.field@
                        == b.field@));
                }
                r
            },
            _ => {
                proof {
                    assert(self@ != other@);
                }
                false
            },
        }
    }
}

impl vstd::std_specs::cmp::PartialEqSpecImpl for Text {
    open spec fn obeys_eq_spec() -> bool {
        true
    }

    open spec fn eq_spec(&self, other: &Text) -> bool {
        self@ == other@
    }
}

fn scan_ws(s: &str, from: usize, n: usize) -> (r: usize)
    requires
        n == s@.len(),
        from <= n,
    ensures
        r == scan(s@, from as int, |c: char| is_ws(c)),
        from <= r <= n,
{
    proof {
        lemma_scan(s@, from as int, |c: char| is_ws(c));
    }
    let mut j = from;
    while j < n
        invariant
            from <= j <= n,
            n == s@.len(),
            scan(s@, from as int, |c: char| is_ws(c)) == scan(s@, j as int, |c: char| is_ws(c)),
        decreases n - j,
    {
        let c = s.get_char(j);
        if !(c == ' ' || c == '\t' || c == '\r' || c == '\n') {
            return j;
        }
        j = j + 1;
    }
    j
}

fn scan_token(s: &str, from: usize, n: usize) -> (r: usize)
    requires
        n == s@.len(),
        from <= n,
    ensures
        r == scan(s@, from as int, |c: char| is_token_char(c)),
        from <= r <= n,
{
    proof {
        lemma_scan(s@, from as int, |c: char| is_token_char(c));
    }
    let mut j = from;
    while j < n
        invariant
            from <= j <= n,
            n == s@.len(),
            scan(s@, from as int, |c: char| is_token_char(c)) == scan(
                s@,
                j as int,
                |c: char| is_token_char(c),
            ),
        decreases n - j,
    {
        let c = s.get_char(j);
        if c == ' ' || c == '\t' || c == '\r' || c == '\n' || c == '.' || c == '}' {
            return j;
        }
        j = j + 1;
    }
    j
}

fn scan_field(s: &str, from: usize, n: usize) -> (r: usize)
    requires
        n == s@.len(),
        from <= n,
    ensures
        r == scan(s@, from as int, |c: char| is_field_char(c)),
        from <= r <= n,
{
    proof {
        lemma_scan(s@, from as int, |c: char| is_field_char(c));
    }
    let mut j = from;
    while j < n
        invariant
            from <= j <= n,
            n == s@.len(),
            scan(s@, from as int, |c: char| is_field_char(c)) == scan(
                s@,
                j as int,
                |c: char| is_field_char(c),
            ),
        decreases n - j,
    {
        let c = s.get_char(j);
        if c == '\t' || c == ' ' || c == '}' {
            return j;
        }
        j = j + 1;
    }
    j
}

fn scan_literal(s: &str, from: usize, n: usize) -> (r: usize)
    requires
        n == s@.len(),
        from <= n,
    ensures
        r == scan(s@, from as int, |c: char| is_literal_char(c)),
        from <= r <= n,
{
    proof {
        lemma_scan(s@, from as int, |c: char| is_literal_char(c));
    }
    let mut j = from;
    while j < n
        invariant
            from <= j <= n,
            n == s@.len(),
            scan(s@, from as int, |c: char| is_literal_char(c)) == scan(
                s@,
                j as int,
                |c: char| is_literal_char(c),
            ),
        decreases n - j,
    {
        let c = s.get_char(j);
        if c == '{' {
            return j;
        }
        j = j + 1;
    }
    j
}

fn expr_at(s: &str, i: usize, n: usize) -> (r: Option<(Text, usize)>)
    requires
        n == s@.len(),
        i < n,
    ensures
        match spec_parse_expr(s@, i as int) {
            None => r is None,
            Some(sj) => r matches Some(p) && p.0@ == sj.0 && p.1 == sj.1,
        },
{
    if s.get_char(i) != '{' {
        return None;
    }
    let j1 = scan_ws(s, i + 1, n);
    let j2 = scan_token(s, j1, n);
    let ns = s.substring_char(j1, j2);
    if !(str_eq(ns, "env") || str_eq(ns, "input")) {
        return None;
    }
    let j3 = scan_ws(s, j2, n);
    if j3 == n {
        return None;
    }
    if s.get_char(j3) != '.' {
        return None;
    }
    let j4 = scan_ws(s, j3 + 1, n);
    let j5 = scan_field(s, j4, n);
    if j5 == j4 {
        return None;
    }
    let f = s.substring_char(j4, j5);
    let j6 = scan_ws(s, j5, n);
    if j6 == n {
        return None;
    }
    if s.get_char(j6) != '}' {
        return None;
    }
    let namespace = String::from_str(ns);
    let field = String::from_str(f);
    Some((Text::Expression(Expression { namespace, field }), j6 + 1))
}

/// Parses one enclosed expression at the start of `s`, returning the
/// segment and the number of characters consumed.
pub fn enclosed(s: &str) -> (r: Option<(Text, usize)>)
    ensures
        match spec_parse_expr(s@, 0) {
            None => r is None,
            Some(sj) => r matches Some(p) && p.0@ == sj.0 && p.1 == sj.1,
        },
{
    let n = s.unicode_len();
    if n == 0 {
        return None;
    }
    expr_at(s, 0, n)
}

/// Parses a whole template into segments; `None` when it is empty or not a
/// sequence of literals and well-formed expressions.
pub fn parse(s: &str) -> (r: Option<Vec<Text>>)
    ensures
        match r {
            Some(v) => spec_parse(s@) == Some(v.deep_view()),
            None => spec_parse(s@) is None,
        },
{
    let n = s.unicode_len();
    if n == 0 {
        return None;
    }
    let mut segs: Vec<Text> = Vec::new();
    let mut i: usize = 0;
    proof {
        match spec_parse_from(s@, 0) {
            Some(r0) => {
                assert(Seq::<SegV>::empty() + r0 =~= r0);
            },
            None => {},
        }
        assert(segs.deep_view() =~= Seq::<SegV>::empty());
    }
    while i < n
        invariant
            n == s@.len(),
            i <= n,
            n > 0,
            spec_parse_from(s@, 0) == match spec_parse_from(s@, i as int) {
                None => None::<Seq<SegV>>,
                Some(rest) => Some(segs.deep_view() + rest),
            },
        decreases n - i,
    {
        let ghost pre = segs.deep_view();
        if s.get_char(i) != '{' {
            let j = scan_literal(s, i, n);
            proof {
                lemma_scan(s@, i + 1, |c: char| is_literal_char(c));
                assert(scan(s@, i as int, |c: char| is_literal_char(c)) == scan(
                    s@,
                    i + 1,
                    |c: char| is_literal_char(c),
                ));
                assert(j > i);
            }
            let lit = s.substring_char(i, j);
            let t = Text::Literal(String::from_str(lit));
            let ghost t0 = t;
            let ghost old_segs = segs;
            segs.push(t);
            proof {
                crate::dict::lemma_push_deep_view(old_segs, segs, t0);
                match spec_parse_from(s@, j as int) {
                    Some(rest) => {
                        assert(pre + (seq![t0@] + rest) =~= pre.push(t0@) + rest);
                    },
                    None => {},
                }
            }
            i = j;
        } else {
            match expr_at(s, i, n) {
                None => {
                    return None;
                },
                Some((t, j)) => {
                    proof {
                        lemma_parse_expr_advances(s@, i as int);
                    }
                    let ghost t0 = t;
                    let ghost old_segs = segs;
                    segs.push(t);
                    proof {
                        crate::dict::lemma_push_deep_view(old_segs, segs, t0);
                        match spec_parse_from(s@, j as int) {
                            Some(rest) => {
                                assert(pre + (seq![t0@] + rest) =~= pre.push(t0@) + rest);
                            },
                            None => {},
                        }
                    }
                    i = j;
                },
            }
        }
    }
    proof {
        assert(spec_parse_from(s@, n as int) == Some(Seq::<SegV>::empty()));
        assert(segs.deep_view() + Seq::<SegV>::empty() =~= segs.deep_view());
    }
    Some(segs)
}

/// Resolves one segment: a literal stands for itself; an `env` expression
/// looks its field up in the environment, any other accepted namespace in
/// the step-input map. `Err` carries the missing field.
pub open spec fn seg_resolve(
    seg: SegV,
    inp: Seq<(Seq<char>, Seq<char>)>,
    env: Seq<(Seq<char>, Seq<char>)>,
) -> Result<Seq<char>, Seq<char>> {
    match seg {
        SegV::Literal(l) => Ok(l),
        SegV::Expression(ns, f) => {
            let src = if ns == "env"@ {
                env
            } else {
                inp
            };
            match spec_get(src, f) {
                Some(v) => Ok(v),
                None => Err(f),
            }
        },
    }
}

/// Resolves segments left to right and concatenates the results; `Err`
/// carries the first missing field.
pub open spec fn spec_resolve(
    segs: Seq<SegV>,
    inp: Seq<(Seq<char>, Seq<char>)>,
    env: Seq<(Seq<char>, Seq<char>)>,
) -> Result<Seq<char>, Seq<char>>
    decreases segs.len(),
{
    if segs.len() == 0 {
        Ok(Seq::empty())
    } else {
        match seg_resolve(segs[0], inp, env) {
            Err(f) => Err(f),
            Ok(v) => match spec_resolve(segs.drop_first(), inp, env) {
                Err(f) => Err(f),
                Ok(rest) => Ok(v + rest),
            },
        }
    }
}

/// Why a template could not be filled in.
pub ghost enum FulfillErr {
    /// The template itself does not parse.
    Parse(Seq<char>),
    /// The template parsed, but this field is in neither lookup source.
    Missing(Seq<char>),
}

/// Parses and resolves a template against a step-input map and an
/// environment snapshot.
pub open spec fn spec_fulfill(
    t: Seq<char>,
    inp: Seq<(Seq<char>, Seq<char>)>,
    env: Seq<(Seq<char>, Seq<char>)>,
) -> Result<Seq<char>, FulfillErr> {
    match spec_parse(t) {
        None => Err(FulfillErr::Parse(t)),
        Some(segs) => match spec_resolve(segs, inp, env) {
            Ok(v) => Ok(v),
            Err(f) => Err(FulfillErr::Missing(f)),
        },
    }
}

/// Why template resolution failed: the template that did not parse, or
/// the key that neither lookup source holds.
#[derive(Debug)]
pub enum ResolveError {
    UnableToParse(String),
    MissingKey(String),
}

impl ResolveError {
    /// A human-readable description of the failure.
    pub fn message(&self) -> (r: String)
        ensures
            match self {
                ResolveError::UnableToParse(t) => r@ == "Unable to parse expression "@ + t@
                    + "."@,
                ResolveError::MissingKey(k) => r@ == "Missing "@ + k@ + "."@,
            },
    {
        match self {
            ResolveError::UnableToParse(t) => {
                let mut m = String::from_str("Unable to parse expression ");
                m.append(t.as_str());
                m.append(".");
                m
            },
            ResolveError::MissingKey(k) => {
                let mut m = String::from_str("Missing ");
                m.append(k.as_str());
                m.append(".");
                m
            },
        }
    }
}

/// Fills a template in: parses it and substitutes every expression from
/// the step-input map (`input` namespace) or the environment snapshot
/// (`env` namespace). Fails on a malformed template or a missing key;
/// a missing key is never replaced by an empty string.
pub fn fulfill(raw: &str, input: &Dict, context: &Context) -> (r: Result<String, ResolveError>)
    ensures
        match r {
            Ok(out) => spec_fulfill(raw@, input@, context@.env) == Ok::<Seq<char>, FulfillErr>(
                out@,
            ),
            Err(ResolveError::UnableToParse(t)) => t@ == raw@ && spec_fulfill(
                raw@,
                input@,
                context@.env,
            ) == Err::<Seq<char>, FulfillErr>(FulfillErr::Parse(raw@)),
            Err(ResolveError::MissingKey(k)) => spec_fulfill(raw@, input@, context@.env)
                == Err::<Seq<char>, FulfillErr>(FulfillErr::Missing(k@)),
        },
{
    let segs = match parse(raw) {
        Some(segs) => segs,
        None => {
            return Err(ResolveError::UnableToParse(String::from_str(raw)));
        },
    };
    let ghost segsv = segs.deep_view();
    let ghost inp = input@;
    let ghost env = context@.env;
    let mut out = String::new();
    let n = segs.len();
    proof {
        assert(segsv.skip(0) =~= segsv);
        assert(segs@.len() == segsv.len());
    }
    let mut idx: usize = 0;
    while idx < n
        invariant
            n == segs@.len(),
            n == segsv.len(),
            idx <= n,
            segsv == segs.deep_view(),
            spec_parse(raw@) == Some(segsv),
            inp == input@,
            env == context@.env,
            spec_resolve(segsv, inp, env) == match spec_resolve(segsv.skip(idx as int), inp, env) {
                Err(f) => Err::<Seq<char>, Seq<char>>(f),
                Ok(rest) => Ok::<Seq<char>, Seq<char>>(out@ + rest),
            },
        decreases n - idx,
    {
        proof {
            assert(segsv.skip(idx as int)[0] == segsv[idx as int]);
            assert(segsv.skip(idx as int).drop_first() =~= segsv.skip(idx + 1));
            assert(segsv[idx as int] == segs@[idx as int]@);
        }
        match &segs[idx] {
            Text::Literal(l) => {
                let ghost pre_out = out@;
                out.append(l.as_str());
                proof {
                    assert(seg_resolve(segsv[idx as int], inp, env) == Ok::<Seq<char>, Seq<char>>(
                        l@,
                    ));
                    match spec_resolve(segsv.skip(idx + 1), inp, env) {
                        Ok(rest2) => {
                            assert(pre_out + (l@ + rest2) =~= out@ + rest2);
                        },
                        Err(_) => {},
                    }
                }
            },
            Text::Expression(e) => {
                let src: &Dict = if str_eq(e.namespace.as_str(), "env") {
                    context.env()
                } else {
                    input
                };
                match src.get(e.field.as_str()) {
                    Some(v) => {
                        let ghost pre_out = out@;
                        out.append(v.as_str());
                        proof {
                            assert(seg_resolve(segsv[idx as int], inp, env) == Ok::<
                                Seq<char>,
                                Seq<char>,
                            >(v@));
                            match spec_resolve(segsv.skip(idx + 1), inp, env) {
                                Ok(rest2) => {
                                    assert(pre_out + (v@ + rest2) =~= out@ + rest2);
                                },
                                Err(_) => {},
                            }
                        }
                    },
                    None => {
                        proof {
                            assert(seg_resolve(segsv[idx as int], inp, env) == Err::<
                                Seq<char>,
                                Seq<char>,
                            >(e.field@));
                            assert(spec_resolve(segsv.skip(idx as int), inp, env) == Err::<
                                Seq<char>,
                                Seq<char>,
                            >(e.field@));
                            assert(spec_resolve(segsv, inp, env) == Err::<Seq<char>, Seq<char>>(
                                e.field@,
                            ));
                            assert(spec_fulfill(raw@, inp, env) == Err::<Seq<char>, FulfillErr>(
                                FulfillErr::Missing(e.field@),
                            ));
                        }
                        return Err(ResolveError::MissingKey(e.field.clone()));
                    },
                }
            },
        }
        idx = idx + 1;
    }
    proof {
        assert(segsv.skip(n as int) =~= Seq::<SegV>::empty());
        assert(out@ + Seq::<char>::empty() =~= out@);
    }
    Ok(out)
}

/// A literal-only template (non-empty, no `{` anywhere) resolves to
/// itself, whatever the lookup sources hold.
pub proof fn lemma_literal_only_resolves_to_itself(
    s: Seq<char>,
    inp: Seq<(Seq<char>, Seq<char>)>,
    env: Seq<(Seq<char>, Seq<char>)>,
)
    requires
        s.len() > 0,
        forall|i: int| 0 <= i < s.len() ==> s[i] != '{',
    ensures
        spec_fulfill(s, inp, env) == Ok::<Seq<char>, FulfillErr>(s),
{
    let p = |c: char| is_literal_char(c);
    lemma_scan(s, 0, p);
    let j = scan(s, 0, p);
    assert(j == s.len()) by {
        if j < s.len() {
            assert(p(s[j]));
        }
    }
    assert(spec_parse_from(s, s.len() as int) == Some(Seq::<SegV>::empty()));
    assert(s.subrange(0, s.len() as int) =~= s);
    let segs = seq![SegV::Literal(s)];
    assert(seq![SegV::Literal(s)] + Seq::<SegV>::empty() =~= segs);
    assert(spec_parse(s) == Some(segs));
    assert(segs.drop_first() =~= Seq::<SegV>::empty());
    assert(spec_resolve(Seq::<SegV>::empty(), inp, env) == Ok::<Seq<char>, Seq<char>>(
        Seq::<char>::empty(),
    ));
    assert(spec_resolve(segs, inp, env) == Ok::<Seq<char>, Seq<char>>(s + Seq::<char>::empty()));
    assert(s + Seq::<char>::empty() =~= s);
}

/// Resolving concatenated segment lists is resolving each list on its own
/// and concatenating: literals pass through byte for byte and each
/// expression is substituted independently of its neighbours.
pub proof fn lemma_resolve_append(
    a: Seq<SegV>,
    b: Seq<SegV>,
    inp: Seq<(Seq<char>, Seq<char>)>,
    env: Seq<(Seq<char>, Seq<char>)>,
)
    ensures
        spec_resolve(a + b, inp, env) == match spec_resolve(a, inp, env) {
            Err(f) => Err::<Seq<char>, Seq<char>>(f),
            Ok(va) => match spec_resolve(b, inp, env) {
                Err(f) => Err::<Seq<char>, Seq<char>>(f),
                Ok(vb) => Ok::<Seq<char>, Seq<char>>(va + vb),
            },
        },
    decreases a.len(),
{
    if a.len() == 0 {
        assert(a + b =~= b);
        match spec_resolve(b, inp, env) {
            Ok(vb) => {
                assert(Seq::<char>::empty() + vb =~= vb);
            },
            Err(_) => {},
        }
    } else {
        lemma_resolve_append(a.drop_first(), b, inp, env);
        assert((a + b).drop_first() =~= a.drop_first() + b);
        assert((a + b)[0] == a[0]);
        match seg_resolve(a[0], inp, env) {
            Err(_) => {},
            Ok(v) => {
                match spec_resolve(a.drop_first(), inp, env) {
                    Err(_) => {},
                    Ok(ra) => match spec_resolve(b, inp, env) {
                        Err(_) => {},
                        Ok(vb) => {
                            assert(v + (ra + vb) =~= (v + ra) + vb);
                        },
                    },
                }
            },
        }
    }
}

/// Well-formedness of a parsed segment: a literal is non-empty and brace
/// free; an expression's namespace is one of the two known tokens and its
/// field is a non-empty run of field characters.
pub open spec fn seg_wf(seg: SegV) -> bool {
    match seg {
        SegV::Literal(l) => l.len() > 0 && forall|i: int| 0 <= i < l.len() ==> l[i] != '{',
        SegV::Expression(ns, f) => (ns == "env"@ || ns == "input"@) && f.len() > 0 && forall|
            i: int,
        | 0 <= i < f.len() ==> is_field_char(f[i]),
    }
}

proof fn lemma_parse_from_wf(s: Seq<char>, i: int)
    requires
        0 <= i,
    ensures
        spec_parse_from(s, i) matches Some(segs) ==> forall|j: int|
            0 <= j < segs.len() ==> seg_wf(#[trigger] segs[j]),
    decreases s.len() - i,
{
    if i >= s.len() {
    } else if s[i] != '{' {
        let p = |c: char| is_literal_char(c);
        let j = scan(s, i, p);
        lemma_scan(s, i, p);
        lemma_scan(s, i + 1, p);
        assert(scan(s, i, p) == scan(s, i + 1, p));
        lemma_parse_from_wf(s, j);
        assert(seg_wf(SegV::Literal(s.subrange(i, j))));
    } else {
        match spec_parse_expr(s, i) {
            None => {},
            Some((seg, j)) => {
                lemma_parse_expr_advances(s, i);
                lemma_parse_from_wf(s, j);
                let j1 = scan(s, i + 1, |c: char| is_ws(c));
                lemma_scan(s, i + 1, |c: char| is_ws(c));
                let j2 = scan(s, j1, |c: char| is_token_char(c));
                lemma_scan(s, j1, |c: char| is_token_char(c));
                let j3 = scan(s, j2, |c: char| is_ws(c));
                lemma_scan(s, j2, |c: char| is_ws(c));
                let j4 = scan(s, j3 + 1, |c: char| is_ws(c));
                lemma_scan(s, j3 + 1, |c: char| is_ws(c));
                let j5 = scan(s, j4, |c: char| is_field_char(c));
                lemma_scan(s, j4, |c: char| is_field_char(c));
                assert(seg_wf(seg));
            },
        }
    }
}

/// Whatever parses is well-formed; in particular no template with an
/// unknown namespace token ever parses.
pub proof fn lemma_parsed_segments_wf(s: Seq<char>)
    ensures
        spec_parse(s) matches Some(segs) ==> forall|j: int|
            0 <= j < segs.len() ==> seg_wf(#[trigger] segs[j]),
{
    if s.len() > 0 {
        lemma_parse_from_wf(s, 0);
    }
}

/// The template `{env.K}` resolves to the environment's value for `K`, and
/// fails naming `K` when the environment lacks it. `K` may be any
/// non-empty key without whitespace, `}` or tab.
pub proof fn lemma_env_key_template(
    k: Seq<char>,
    inp: Seq<(Seq<char>, Seq<char>)>,
    env: Seq<(Seq<char>, Seq<char>)>,
)
    requires
        k.len() > 0,
        forall|i: int| 0 <= i < k.len() ==> is_field_char(#[trigger] k[i]) && !is_ws(k[i]),
    ensures
        ({
            let t = seq!['{', 'e', 'n', 'v', '.'] + k + seq!['}'];
            spec_fulfill(t, inp, env) == match spec_get(env, k) {
                Some(v) => Ok::<Seq<char>, FulfillErr>(v),
                None => Err::<Seq<char>, FulfillErr>(FulfillErr::Missing(k)),
            }
        }),
{
    reveal_strlit("env");
    reveal_strlit("input");
    let t = seq!['{', 'e', 'n', 'v', '.'] + k + seq!['}'];
    let kend = 5 + k.len() as int;
    assert(t.len() == kend + 1);
    assert(t[0] == '{');
    let ws = |c: char| is_ws(c);
    let tok = |c: char| is_token_char(c);
    let fld = |c: char| is_field_char(c);
    assert(scan(t, 1, ws) == 1);
    assert(scan(t, 4, tok) == 4);
    assert(scan(t, 3, tok) == 4);
    assert(scan(t, 2, tok) == 4);
    assert(scan(t, 1, tok) == 4);
    assert(t.subrange(1, 4) =~= "env"@);
    assert(scan(t, 4, ws) == 4);
    assert(t[4] == '.');
    lemma_scan(t, 5, ws);
    assert(t[5] == k[0]);
    assert(scan(t, 5, ws) == 5);
    lemma_scan(t, 5, fld);
    let j5 = scan(t, 5, fld);
    assert(j5 == kend) by {
        if j5 < kend {
            assert(fld(t[j5]));
        }
        if j5 > kend {
            assert(!fld(t[kend]));
        }
    }
    assert(t.subrange(5, kend) =~= k);
    assert(scan(t, kend, ws) == kend);
    assert(t[kend] == '}');
    let seg = SegV::Expression("env"@, k);
    assert(spec_parse_expr(t, 0) == Some((seg, kend + 1)));
    assert(spec_parse_from(t, kend + 1) == Some(Seq::<SegV>::empty()));
    let segs = seq![seg];
    assert(seq![seg] + Seq::<SegV>::empty() =~= segs);
    assert(spec_parse(t) == Some(segs));
    assert(segs.drop_first() =~= Seq::<SegV>::empty());
    assert(spec_resolve(Seq::<SegV>::empty(), inp, env) == Ok::<Seq<char>, Seq<char>>(
        Seq::<char>::empty(),
    ));
    match spec_get(env, k) {
        Some(v) => {
            assert(spec_resolve(segs, inp, env) == Ok::<Seq<char>, Seq<char>>(
                v + Seq::<char>::empty(),
            ));
            assert(v + Seq::<char>::empty() =~= v);
        },
        None => {},
    }
}

/// The template `{input.K}` resolves to the step-input map's value for
/// `K`, and fails naming `K` when that map lacks it.
pub proof fn lemma_input_key_template(
    k: Seq<char>,
    inp: Seq<(Seq<char>, Seq<char>)>,
    env: Seq<(Seq<char>, Seq<char>)>,
)
    requires
        k.len() > 0,
        forall|i: int| 0 <= i < k.len() ==> is_field_char(#[trigger] k[i]) && !is_ws(k[i]),
    ensures
        ({
            let t = seq!['{', 'i', 'n', 'p', 'u', 't', '.'] + k + seq!['}'];
            spec_fulfill(t, inp, env) == match spec_get(inp, k) {
                Some(v) => Ok::<Seq<char>, FulfillErr>(v),
                None => Err::<Seq<char>, FulfillErr>(FulfillErr::Missing(k)),
            }
        }),
{
    reveal_strlit("env");
    reveal_strlit("input");
    let t = seq!['{', 'i', 'n', 'p', 'u', 't', '.'] + k + seq!['}'];
    let kend = 7 + k.len() as int;
    assert(t.len() == kend + 1);
    assert(t[0] == '{');
    let ws = |c: char| is_ws(c);
    let tok = |c: char| is_token_char(c);
    let fld = |c: char| is_field_char(c);
    assert(scan(t, 1, ws) == 1);
    assert(scan(t, 6, tok) == 6);
    assert(scan(t, 5, tok) == 6);
    assert(scan(t, 4, tok) == 6);
    assert(scan(t, 3, tok) == 6);
    assert(scan(t, 2, tok) == 6);
    assert(scan(t, 1, tok) == 6);
    assert(t.subrange(1, 6) =~= "input"@);
    assert(t.subrange(1, 6) != "env"@);
    assert(scan(t, 6, ws) == 6);
    assert(t[6] == '.');
    lemma_scan(t, 7, ws);
    assert(t[7] == k[0]);
    assert(scan(t, 7, ws) == 7);
    lemma_scan(t, 7, fld);
    let j5 = scan(t, 7, fld);
    assert(j5 == kend) by {
        if j5 < kend {
            assert(fld(t[j5]));
        }
        if j5 > kend {
            assert(!fld(t[kend]));
        }
    }
    assert(t.subrange(7, kend) =~= k);
    assert(scan(t, kend, ws) == kend);
    assert(t[kend] == '}');
    let seg = SegV::Expression("input"@, k);
    assert(spec_parse_expr(t, 0) == Some((seg, kend + 1)));
    assert(spec_parse_from(t, kend + 1) == Some(Seq::<SegV>::empty()));
    let segs = seq![seg];
    assert(seq![seg] + Seq::<SegV>::empty() =~= segs);
    assert(spec_parse(t) == Some(segs));
    assert(segs.drop_first() =~= Seq::<SegV>::empty());
    assert("input"@ != "env"@);
    assert(spec_resolve(Seq::<SegV>::empty(), inp, env) == Ok::<Seq<char>, Seq<char>>(
        Seq::<char>::empty(),
    ));
    match spec_get(inp, k) {
        Some(v) => {
            assert(spec_resolve(segs, inp, env) == Ok::<Seq<char>, Seq<char>>(
                v + Seq::<char>::empty(),
            ));
            assert(v + Seq::<char>::empty() =~= v);
        },
        None => {},
    }
}

} // verus!
