//! Character-level string helpers: equality, ASCII case folding, and
//! parsing of the integer and boolean parameter values that steps accept.

use vstd::prelude::*;
use vstd::string::StrSliceExecFns;

verus! {

/// Exact equality of two string slices, decided character by character.
pub fn str_eq(a: &str, b: &str) -> (r: bool)
    ensures
        r == (a@ == b@),
{
    let an = a.unicode_len();
    let bn = b.unicode_len();
    if an != bn {
        proof {
            assert(a@.len() != b@.len());
        }
        return false;
    }
    let mut i: usize = 0;
    while i < an
        invariant
            an == a@.len(),
            bn == b@.len(),
            an == bn,
            i <= an,
            forall|j: int| 0 <= j < i ==> a@[j] == b@[j],
        decreases an - i,
    {
        if a.get_char(i) != b.get_char(i) {
            return false;
        }
        i = i + 1;
    }
    proof {
        assert(a@ =~= b@);
    }
    true
}

/// ASCII lower-casing of a single character; non-ASCII characters and
/// characters outside `A..=Z` are left as they are.
pub open spec fn lower_char(c: char) -> char {
    if 'A' <= c && c <= 'Z' {
        ((c as u8) + 32) as char
    } else {
        c
    }
}

/// A character sequence, ASCII-lower-cased character by character.
pub open spec fn lower_seq(s: Seq<char>) -> Seq<char> {
    s.map(|_i: int, c: char| lower_char(c))
}

fn lower(c: char) -> (r: char)
    ensures
        r == lower_char(c),
{
    if 'A' <= c && c <= 'Z' {
        ((c as u8) + 32) as char
    } else {
        c
    }
}

/// Case-insensitive (ASCII) equality of two string slices.
pub fn eq_ignore_ascii_case(a: &str, b: &str) -> (r: bool)
    ensures
        r == (lower_seq(a@) == lower_seq(b@)),
{
    let an = a.unicode_len();
    let bn = b.unicode_len();
    if an != bn {
        proof {
            assert(lower_seq(a@).len() == a@.len());
            assert(lower_seq(b@).len() == b@.len());
        }
        return false;
    }
    let mut i: usize = 0;
    while i < an
        invariant
            an == a@.len(),
            bn == b@.len(),
            an == bn,
            i <= an,
            forall|j: int| 0 <= j < i ==> lower_char(a@[j]) == lower_char(b@[j]),
        decreases an - i,
    {
        if lower(a.get_char(i)) != lower(b.get_char(i)) {
            proof {
                assert(lower_seq(a@)[i as int] != lower_seq(b@)[i as int]);
            }
            return false;
        }
        i = i + 1;
    }
    proof {
        assert(lower_seq(a@) =~= lower_seq(b@));
    }
    true
}

/// How `bool` values are read from parameters: exactly `true` or `false`,
/// anything else is no boolean at all.
pub open spec fn spec_parse_bool(s: Seq<char>) -> Option<bool> {
    if s == "true"@ {
        Some(true)
    } else if s == "false"@ {
        Some(false)
    } else {
        None
    }
}

pub fn parse_bool(s: &str) -> (r: Option<bool>)
    ensures
        r == spec_parse_bool(s@),
{
    if str_eq(s, "true") {
        Some(true)
    } else if str_eq(s, "false") {
        Some(false)
    } else {
        None
    }
}

pub open spec fn is_digit(c: char) -> bool {
    '0' <= c && c <= '9'
}

pub open spec fn digit_val(c: char) -> int {
    c as int - '0' as int
}

/// The value of a digit run, most significant digit first.
pub open spec fn digits_val(s: Seq<char>) -> int
    decreases s.len(),
{
    if s.len() == 0 {
        0
    } else {
        digits_val(s.drop_last()) * 10 + digit_val(s.last())
    }
}

pub open spec fn all_digits(s: Seq<char>) -> bool {
    forall|i: int| 0 <= i < s.len() ==> is_digit(#[trigger] s[i])
}

/// How `i64` values are read from parameters: an optional sign, then one
/// or more decimal digits, rejecting anything else and any value outside
/// the `i64` range.
pub open spec fn spec_parse_i64(s: Seq<char>) -> Option<int> {
    let neg = s.len() > 0 && s[0] == '-';
    let ds = if s.len() > 0 && (s[0] == '-' || s[0] == '+') {
        s.drop_first()
    } else {
        s
    };
    if ds.len() == 0 || !all_digits(ds) {
        None
    } else {
        let v = if neg {
            -digits_val(ds)
        } else {
            digits_val(ds)
        };
        if i64::MIN <= v <= i64::MAX {
            Some(v)
        } else {
            None
        }
    }
}

pub open spec fn pow10(n: nat) -> int
    decreases n,
{
    if n == 0 {
        1
    } else {
        10 * pow10((n - 1) as nat)
    }
}

proof fn lemma_pow10_positive(n: nat)
    ensures
        pow10(n) >= 1,
    decreases n,
{
    if n > 0 {
        lemma_pow10_positive((n - 1) as nat);
    }
}

/// A digit run that starts with a non-zero digit is at least as large as
/// `pow10` of one less than its length.
proof fn lemma_digits_val_lower(s: Seq<char>)
    requires
        all_digits(s),
        s.len() > 0,
        s[0] != '0',
    ensures
        digits_val(s) >= pow10((s.len() - 1) as nat),
    decreases s.len(),
{
    assert(is_digit(s[0]));
    if s.len() == 1 {
        assert(digits_val(s) == digits_val(s.drop_last()) * 10 + digit_val(s.last()));
        assert(s.drop_last().len() == 0);
        assert(digit_val(s[0]) >= 1);
    } else {
        assert(all_digits(s.drop_last())) by {
            assert(forall|i: int|
                0 <= i < s.len() - 1 ==> #[trigger] s.drop_last()[i] == s[i]);
        }
        assert(s.drop_last()[0] == s[0]);
        lemma_digits_val_lower(s.drop_last());
        assert(is_digit(s.last()));
        assert(digit_val(s.last()) >= 0);
        assert(digits_val(s.drop_last()) * 10 >= pow10((s.len() - 2) as nat) * 10) by (nonlinear_arith)
            requires
                digits_val(s.drop_last()) >= pow10((s.len() - 2) as nat),
        ;
    }
}

/// Leading zeros do not change the value of a digit run.
proof fn lemma_digits_val_strip_zero(s: Seq<char>)
    requires
        s.len() > 0,
        s[0] == '0',
    ensures
        digits_val(s) == digits_val(s.drop_first()),
    decreases s.len(),
{
    if s.len() == 1 {
        assert(digits_val(s) == digits_val(s.drop_last()) * 10 + digit_val(s.last()));
    } else {
        assert(s.drop_last()[0] == s[0]);
        lemma_digits_val_strip_zero(s.drop_last());
        assert(s.drop_first().drop_last() =~= s.drop_last().drop_first());
        assert(s.drop_first().last() == s.last());
    }
}

/// Reads an `i64` from a string: optional sign, then decimal digits.
/// Returns `None` on anything else or on overflow.
pub fn parse_i64(s: &str) -> (r: Option<i64>)
    ensures
        match r {
            Some(v) => spec_parse_i64(s@) == Some(v as int),
            None => spec_parse_i64(s@) is None,
        },
{
    let n = s.unicode_len();
    let mut st: usize = 0;
    let mut neg = false;
    if n > 0 {
        let c0 = s.get_char(0);
        if c0 == '-' {
            neg = true;
            st = 1;
        } else if c0 == '+' {
            st = 1;
        }
    }
    let ghost ds = if s@.len() > 0 && (s@[0] == '-' || s@[0] == '+') {
        s@.drop_first()
    } else {
        s@
    };
    proof {
        assert(ds.len() == n - st);
        assert(forall|i: int| 0 <= i < ds.len() ==> ds[i] == s@[i + st]);
    }
    if st == n {
        return None;
    }
    // check every remaining character is a digit
    let mut i: usize = st;
    while i < n
        invariant
            st <= i <= n,
            n == s@.len(),
            st < n,
            ds == (if s@.len() > 0 && (s@[0] == '-' || s@[0] == '+') {
                s@.drop_first()
            } else {
                s@
            }),
            st == (if s@.len() > 0 && (s@[0] == '-' || s@[0] == '+') {
                1int
            } else {
                0int
            }),
            neg == (s@.len() > 0 && s@[0] == '-'),
            ds.len() == n - st,
            forall|j: int| 0 <= j < ds.len() ==> ds[j] == s@[j + st],
            forall|j: int| st <= j < i ==> is_digit(#[trigger] s@[j]),
        decreases n - i,
    {
        let c = s.get_char(i);
        if !('0' <= c && c <= '9') {
            proof {
                assert(!is_digit(ds[i - st]));
                assert(!all_digits(ds));
            }
            return None;
        }
        i = i + 1;
    }
    proof {
        assert(all_digits(ds)) by {
            assert(forall|j: int| 0 <= j < ds.len() ==> is_digit(#[trigger] ds[j]));
        }
    }
    // skip leading zeros
    let mut z: usize = st;
    while z < n && s.get_char(z) == '0'
        invariant
            st <= z <= n,
            n == s@.len(),
            st < n,
            ds == (if s@.len() > 0 && (s@[0] == '-' || s@[0] == '+') {
                s@.drop_first()
            } else {
                s@
            }),
            st == (if s@.len() > 0 && (s@[0] == '-' || s@[0] == '+') {
                1int
            } else {
                0int
            }),
            neg == (s@.len() > 0 && s@[0] == '-'),
            ds.len() == n - st,
            forall|j: int| 0 <= j < ds.len() ==> ds[j] == s@[j + st],
            all_digits(ds),
            forall|j: int| st <= j < z ==> s@[j] == '0',
        decreases n - z,
    {
        z = z + 1;
    }
    let ghost sig = s@.skip(z as int);
    proof {
        assert(forall|j: int| 0 <= j < sig.len() ==> sig[j] == s@[j + z]);
        assert(all_digits(sig));
        assert(ds =~= s@.skip(st as int));
        lemma_strip_zeros(s@, st as int, z as int);
        assert(digits_val(ds) == digits_val(sig));
    }
    if n - z > 19 {
        proof {
            lemma_digits_val_lower(sig);
            lemma_pow10_mono(19nat, (sig.len() - 1) as nat);
            assert(pow10(19nat) == 10000000000000000000) by {
                reveal_with_fuel(pow10, 21);
            }
            assert(digits_val(sig) >= 10000000000000000000);
        }
        return None;
    }
    let mut acc: i128 = 0;
    let mut k: usize = z;
    proof {
        assert(sig.take(0) =~= Seq::<char>::empty());
        assert(pow10(19nat) == 10000000000000000000) by {
            reveal_with_fuel(pow10, 21);
        }
    }
    while k < n
        invariant
            z <= k <= n,
            n == s@.len(),
            n - z <= 19,
            ds == (if s@.len() > 0 && (s@[0] == '-' || s@[0] == '+') {
                s@.drop_first()
            } else {
                s@
            }),
            neg == (s@.len() > 0 && s@[0] == '-'),
            ds.len() > 0,
            all_digits(ds),
            digits_val(ds) == digits_val(sig),
            sig == s@.skip(z as int),
            all_digits(sig),
            sig.len() == n - z,
            forall|j: int| 0 <= j < sig.len() ==> sig[j] == s@[j + z],
            acc == digits_val(sig.take(k - z)),
            0 <= acc < pow10((k - z) as nat),
            pow10(19nat) == 10000000000000000000,
        decreases n - k,
    {
        let c = s.get_char(k);
        proof {
            assert(sig[k - z] == s@[k as int]);
            assert(is_digit(sig[k - z]));
            assert(is_digit(s@[k as int]));
            lemma_pow10_mono((k - z + 1) as nat, 19nat);
            lemma_pow10_positive((k - z) as nat);
            assert(acc * 10 <= (pow10((k - z) as nat) - 1) * 10) by (nonlinear_arith)
                requires
                    acc <= pow10((k - z) as nat) - 1,
            ;
        }
        let d = (c as u8) - 48;
        acc = acc * 10 + (d as i128);
        proof {
            assert(sig.take(k - z + 1).drop_last() =~= sig.take(k - z));
            assert(sig.take(k - z + 1).last() == sig[k - z]);
            assert(digit_val(s@[k as int]) == d as int);
        }
        k = k + 1;
    }
    proof {
        assert(sig.take(n - z) =~= sig);
        assert(acc == digits_val(sig));
    }
    if neg {
        if acc > 9223372036854775808i128 {
            proof {
                assert(spec_parse_i64(s@) is None);
            }
            return None;
        }
        let v: i64 = (-acc) as i64;
        proof {
            assert(v as int == -digits_val(ds));
        }
        Some(v)
    } else {
        if acc > 9223372036854775807i128 {
            proof {
                assert(spec_parse_i64(s@) is None);
            }
            return None;
        }
        let v: i64 = acc as i64;
        Some(v)
    }
}

proof fn lemma_pow10_mono(a: nat, b: nat)
    requires
        a <= b,
    ensures
        pow10(a) <= pow10(b),
    decreases b,
{
    if a < b {
        lemma_pow10_mono(a, (b - 1) as nat);
        lemma_pow10_positive((b - 1) as nat);
    }
}

/// Dropping the leading zeros of a digit run keeps its value: the run
/// from `st` and the run from `z` agree when everything in between is a
/// zero digit.
proof fn lemma_strip_zeros(s: Seq<char>, st: int, z: int)
    requires
        0 <= st <= z <= s.len(),
        forall|j: int| st <= j < z ==> s[j] == '0',
    ensures
        digits_val(s.skip(st)) == digits_val(s.skip(z)),
    decreases z - st,
{
    if st < z {
        assert(s.skip(st)[0] == s[st]);
        lemma_digits_val_strip_zero(s.skip(st));
        assert(s.skip(st).drop_first() =~= s.skip(st + 1));
        lemma_strip_zeros(s, st + 1, z);
    }
}

} // verus!
