//! Character-level scanning: decimal numbers, the floating-point text
//! grammar used by the QUAL column, whitespace trimming, and prefix and
//! equality tests over `&str`.

use vstd::prelude::*;

verus! {

pub open spec fn is_digit(c: char) -> bool {
    48 <= c as u32 && c as u32 <= 57
}

pub open spec fn digit_val(c: char) -> int {
    c as u32 - 48
}

pub open spec fn all_digits(s: Seq<char>) -> bool {
    forall|i: int| 0 <= i < s.len() ==> is_digit(s[i])
}

/// The number a digit string denotes, most significant digit first.
pub open spec fn digits_value(s: Seq<char>) -> int
    decreases s.len(),
{
    if s.len() == 0 {
        0
    } else {
        digits_value(s.drop_last()) * 10 + digit_val(s.last())
    }
}

pub proof fn lemma_digits_value_nonneg(s: Seq<char>)
    requires
        all_digits(s),
    ensures
        digits_value(s) >= 0,
    decreases s.len(),
{
    if s.len() > 0 {
        lemma_digits_value_nonneg(s.drop_last());
    }
}

pub proof fn lemma_digits_value_step(s: Seq<char>, k: int)
    requires
        0 <= k < s.len(),
    ensures
        digits_value(s.take(k + 1)) == digits_value(s.take(k)) * 10 + digit_val(s[k]),
{
    assert(s.take(k + 1).drop_last() =~= s.take(k));
    assert(s.take(k + 1).last() == s[k]);
}

/// Once a digit prefix exceeds a bound, the full string does too.
pub proof fn lemma_digits_value_monotone(s: Seq<char>, k: int)
    requires
        all_digits(s),
        0 <= k <= s.len(),
    ensures
        digits_value(s.take(k)) <= digits_value(s),
    decreases s.len() - k,
{
    if k < s.len() {
        lemma_digits_value_step(s, k);
        lemma_digits_value_nonneg(s.take(k));
        assert(all_digits(s.take(k)));
        assert(digits_value(s.take(k)) <= digits_value(s.take(k + 1)));
        lemma_digits_value_monotone(s, k + 1);
    } else {
        assert(s.take(k) =~= s);
    }
}

/// The decimal form Rust's unsigned parse accepts: an optional leading
/// `'+'`, then one or more digits, denoting a value that fits.
pub open spec fn spec_parse_u32(s: Seq<char>) -> Option<u32> {
    let body = if s.len() > 0 && s[0] == '+' {
        s.skip(1)
    } else {
        s
    };
    if body.len() >= 1 && all_digits(body) && digits_value(body) <= u32::MAX {
        Some(digits_value(body) as u32)
    } else {
        None
    }
}

/// Decimal parse of an unsigned 32-bit number: an optional `'+'`, one or
/// more digits, rejected on any other character or on overflow.
#[verifier::loop_isolation(false)]
pub fn parse_u32(s: &str) -> (r: Option<u32>)
    ensures
        r == spec_parse_u32(s@),
{
    let n = s.unicode_len();
    let mut i: usize = 0;
    if n > 0 && s.get_char(0) == '+' {
        i = 1;
    }
    let ghost body = if s@.len() > 0 && s@[0] == '+' {
        s@.skip(1)
    } else {
        s@
    };
    proof {
        assert(body =~= s@.skip(i as int));
    }
    if i == n {
        return None;
    }
    let ghost blen = body.len();
    let mut acc: u32 = 0;
    let mut j = i;
    while j < n
        invariant
            i <= j <= n,
            n == s@.len(),
            i <= 1,
            body == s@.skip(i as int),
            blen == body.len(),
            forall|t: int| 0 <= t < j - i ==> is_digit(body[t]),
            acc == digits_value(body.take(j - i)),
        decreases n - j,
    {
        let c = s.get_char(j);
        let v = c as u32;
        proof {
            assert(body[j - i] == s@[j as int]);
        }
        if v < 48 || v > 57 {
            proof {
                assert(!is_digit(body[j - i]));
            }
            return None;
        }
        let d = v - 48;
        proof {
            lemma_digits_value_step(body, j - i);
        }
        if acc > (u32::MAX - d) / 10 {
            proof {
                assert(digits_value(body.take(j - i + 1)) == acc * 10 + d);
                assert(acc * 10 + d > u32::MAX) by (nonlinear_arith)
                    requires
                        acc > (u32::MAX - d) / 10,
                        d <= 9,
                        acc <= u32::MAX,
                ;
                if all_digits(body) {
                    lemma_digits_value_monotone(body, j - i + 1);
                }
            }
            return None;
        }
        proof {
            assert(acc * 10 + d <= u32::MAX) by (nonlinear_arith)
                requires
                    acc <= (u32::MAX - d) / 10,
                    d <= 9,
                    acc >= 0,
                    d >= 0,
            ;
        }
        acc = acc * 10 + d;
        j += 1;
    }
    proof {
        assert(body.take(blen as int) =~= body);
    }
    Some(acc)
}

/// Index of the first occurrence of `a` or `b` in `s`, if there is one.
pub open spec fn find_first2(s: Seq<char>, a: char, b: char) -> Option<int>
    decreases s.len(),
{
    if s.len() == 0 {
        None
    } else if s[0] == a || s[0] == b {
        Some(0int)
    } else {
        match find_first2(s.skip(1), a, b) {
            None => None,
            Some(i) => Some(i + 1),
        }
    }
}

pub proof fn lemma_find_first2_at(s: Seq<char>, a: char, b: char, i: int)
    requires
        0 <= i < s.len(),
        s[i] == a || s[i] == b,
        forall|j: int| 0 <= j < i ==> s[j] != a && s[j] != b,
    ensures
        find_first2(s, a, b) == Some(i),
    decreases i,
{
    if i > 0 {
        lemma_find_first2_at(s.skip(1), a, b, i - 1);
    }
}

pub proof fn lemma_find_first2_none(s: Seq<char>, a: char, b: char)
    requires
        forall|j: int| 0 <= j < s.len() ==> s[j] != a && s[j] != b,
    ensures
        find_first2(s, a, b) == None::<int>,
    decreases s.len(),
{
    if s.len() > 0 {
        lemma_find_first2_none(s.skip(1), a, b);
    }
}

pub open spec fn is_sign(c: char) -> bool {
    c == '+' || c == '-'
}

pub open spec fn strip_sign(s: Seq<char>) -> Seq<char> {
    if s.len() > 0 && is_sign(s[0]) {
        s.skip(1)
    } else {
        s
    }
}

/// ASCII upper-case letters folded to lower case; all else untouched.
pub open spec fn lower_char(c: char) -> char {
    if 65 <= c as u32 && c as u32 <= 90 {
        (c as u32 + 32) as char
    } else {
        c
    }
}

pub open spec fn seq_lower(s: Seq<char>) -> Seq<char> {
    s.map_values(|c: char| lower_char(c))
}

/// The three words the floating-point grammar accepts besides numbers,
/// in any letter case.
pub open spec fn is_special_float_word(s: Seq<char>) -> bool {
    seq_lower(s) == seq!['i', 'n', 'f'] || seq_lower(s) == seq![
        'i',
        'n',
        'f',
        'i',
        'n',
        'i',
        't',
        'y',
    ] || seq_lower(s) == seq!['n', 'a', 'n']
}

/// A mantissa: digits with at most one decimal point, and at least one
/// digit somewhere.
pub open spec fn is_mantissa(s: Seq<char>) -> bool {
    (exists|i: int| 0 <= i < s.len() && is_digit(s[i])) && (forall|i: int|
        0 <= i < s.len() ==> is_digit(s[i]) || s[i] == '.') && (forall|i: int, j: int|
        0 <= i < s.len() && 0 <= j < s.len() && s[i] == '.' && s[j] == '.' ==> i == j)
}

/// An exponent suffix: an optional sign, then one or more digits.
pub open spec fn is_exp_suffix(s: Seq<char>) -> bool {
    strip_sign(s).len() >= 1 && all_digits(strip_sign(s))
}

/// An unsigned number: a mantissa, optionally followed by `e`/`E` and an
/// exponent suffix. The first `e`/`E` separates the two parts.
pub open spec fn is_number_text(s: Seq<char>) -> bool {
    match find_first2(s, 'e', 'E') {
        None => is_mantissa(s),
        Some(i) => is_mantissa(s.take(i)) && is_exp_suffix(s.skip(i + 1)),
    }
}

/// The grammar of floating-point text: an optional sign, then `inf`,
/// `infinity` or `nan` in any letter case, or an unsigned number.
pub open spec fn is_float_text(s: Seq<char>) -> bool {
    is_special_float_word(strip_sign(s)) || is_number_text(strip_sign(s))
}

/// Whether the characters of `s` from `from` on, folded to lower case,
/// spell exactly the (already lower-case) word `w`.
#[verifier::loop_isolation(false)]
fn eq_lower_from(s: &str, from: usize, w: &str) -> (r: bool)
    requires
        from <= s@.len(),
    ensures
        r == (seq_lower(s@.skip(from as int)) == seq_lower(w@)),
{
    let n = s.unicode_len();
    let m = w.unicode_len();
    if n - from != m {
        proof {
            assert(seq_lower(s@.skip(from as int)).len() == n - from);
            assert(seq_lower(w@).len() == m);
        }
        return false;
    }
    let mut j: usize = 0;
    while j < m
        invariant
            j <= m,
            from <= n,
            n == s@.len(),
            m == w@.len(),
            n - from == m,
            forall|t: int| 0 <= t < j ==> lower_char(s@.skip(from as int)[t]) == lower_char(w@[t]),
        decreases m - j,
    {
        let a = s.get_char(from + j) as u32;
        let b = w.get_char(j) as u32;
        let la = if 65 <= a && a <= 90 {
            a + 32
        } else {
            a
        };
        let lb = if 65 <= b && b <= 90 {
            b + 32
        } else {
            b
        };
        proof {
            assert(s@.skip(from as int)[j as int] == s@[from + j]);
            assert(la == lower_char(s@[from + j]) as u32);
            assert(lb == lower_char(w@[j as int]) as u32);
        }
        if la != lb {
            proof {
                assert(seq_lower(s@.skip(from as int))[j as int] != seq_lower(w@)[j as int]);
            }
            return false;
        }
        j += 1;
    }
    proof {
        assert(seq_lower(s@.skip(from as int)) =~= seq_lower(w@));
    }
    true
}

/// Whether `s@[from..to]` is a mantissa.
#[verifier::loop_isolation(false)]
fn check_mantissa(s: &str, from: usize, to: usize) -> (r: bool)
    requires
        from <= to <= s@.len(),
    ensures
        r == is_mantissa(s@.subrange(from as int, to as int)),
{
    let ghost part = s@.subrange(from as int, to as int);
    let mut has_digit = false;
    let mut has_dot = false;
    let ghost mut dot_at: int = 0;
    let mut j = from;
    while j < to
        invariant
            from <= j <= to,
            to <= s@.len(),
            part == s@.subrange(from as int, to as int),
            forall|t: int| 0 <= t < j - from ==> is_digit(part[t]) || part[t] == '.',
            has_digit <==> (exists|t: int| 0 <= t < j - from && is_digit(part[t])),
            !has_dot ==> forall|t: int| 0 <= t < j - from ==> part[t] != '.',
            has_dot ==> 0 <= dot_at < j - from && part[dot_at] == '.' && (forall|t: int|
                0 <= t < j - from && part[t] == '.' ==> t == dot_at),
        decreases to - j,
    {
        let c = s.get_char(j);
        let v = c as u32;
        proof {
            assert(part[j - from] == s@[j as int]);
        }
        if 48 <= v && v <= 57 {
            proof {
                assert(is_digit(part[j - from]));
            }
            has_digit = true;
        } else if c == '.' {
            if has_dot {
                proof {
                    assert(part[j - from] == '.' && part[dot_at] == '.' && dot_at != j - from);
                    assert(!is_mantissa(part));
                }
                return false;
            }
            has_dot = true;
            proof {
                dot_at = j - from;
            }
        } else {
            proof {
                assert(!is_digit(part[j - from]) && part[j - from] != '.');
                assert(!is_mantissa(part));
            }
            return false;
        }
        j += 1;
    }
    proof {
        assert(part.len() == to - from);
    }
    has_digit
}

/// Whether `s@[from..]` is an exponent suffix.
#[verifier::loop_isolation(false)]
fn check_exp_suffix(s: &str, from: usize) -> (r: bool)
    requires
        from <= s@.len(),
    ensures
        r == is_exp_suffix(s@.skip(from as int)),
{
    let ghost part = s@.skip(from as int);
    let n = s.unicode_len();
    let mut j = from;
    if j < n {
        let c = s.get_char(j);
        if c == '+' || c == '-' {
            j = j + 1;
        }
    }
    let ghost body = strip_sign(part);
    proof {
        assert(body =~= s@.skip(j as int));
    }
    if j == n {
        proof {
            assert(body.len() == 0);
        }
        return false;
    }
    let mut k = j;
    while k < n
        invariant
            j <= k <= n,
            n == s@.len(),
            body == s@.skip(j as int),
            forall|t: int| 0 <= t < k - j ==> is_digit(body[t]),
        decreases n - k,
    {
        let v = s.get_char(k) as u32;
        proof {
            assert(body[k - j] == s@[k as int]);
        }
        if v < 48 || v > 57 {
            proof {
                assert(!is_digit(body[k - j]));
            }
            return false;
        }
        k += 1;
    }
    true
}

/// Whether `s` is floating-point text: an optional sign, then `inf`,
/// `infinity` or `nan` in any letter case, or digits with at most one
/// decimal point and an optional `e`/`E` exponent.
#[verifier::loop_isolation(false)]
pub fn float_text(s: &str) -> (r: bool)
    ensures
        r == is_float_text(s@),
{
    let n = s.unicode_len();
    let mut i: usize = 0;
    if n > 0 {
        let c = s.get_char(0);
        if c == '+' || c == '-' {
            i = 1;
        }
    }
    let ghost body = strip_sign(s@);
    proof {
        assert(body =~= s@.skip(i as int));
    }
    if eq_lower_from(s, i, "inf") || eq_lower_from(s, i, "infinity") || eq_lower_from(s, i, "nan") {
        proof {
            reveal_strlit("inf");
            reveal_strlit("infinity");
            reveal_strlit("nan");
            assert(seq_lower(("inf")@) =~= seq!['i', 'n', 'f']);
            assert(seq_lower(("infinity")@) =~= seq!['i', 'n', 'f', 'i', 'n', 'i', 't', 'y']);
            assert(seq_lower(("nan")@) =~= seq!['n', 'a', 'n']);
        }
        return true;
    }
    proof {
        reveal_strlit("inf");
        reveal_strlit("infinity");
        reveal_strlit("nan");
        assert(seq_lower(("inf")@) =~= seq!['i', 'n', 'f']);
        assert(seq_lower(("infinity")@) =~= seq!['i', 'n', 'f', 'i', 'n', 'i', 't', 'y']);
        assert(seq_lower(("nan")@) =~= seq!['n', 'a', 'n']);
        assert(!is_special_float_word(body));
    }
    let mut e = i;
    while e < n && s.get_char(e) != 'e' && s.get_char(e) != 'E'
        invariant
            i <= e <= n,
            n == s@.len(),
            forall|t: int| i <= t < e ==> s@[t] != 'e' && s@[t] != 'E',
        decreases n - e,
    {
        e += 1;
    }
    proof {
        assert forall|t: int| 0 <= t < e - i implies body[t] != 'e' && body[t] != 'E' by {
            assert(body[t] == s@[i + t]);
        }
        if e == n {
            lemma_find_first2_none(body, 'e', 'E');
        } else {
            assert(body[e - i] == s@[e as int]);
            lemma_find_first2_at(body, 'e', 'E', e - i);
        }
    }
    if e == n {
        let r = check_mantissa(s, i, n);
        proof {
            assert(s@.subrange(i as int, n as int) =~= body);
        }
        r
    } else {
        let m = check_mantissa(s, i, e);
        proof {
            assert(s@.subrange(i as int, e as int) =~= body.take(e - i as int));
        }
        if !m {
            return false;
        }
        let x = check_exp_suffix(s, e + 1);
        proof {
            assert(s@.skip(e + 1 as int) =~= body.skip(e - i as int + 1));
        }
        x
    }
}

pub open spec fn is_ws(c: char) -> bool {
    c == ' ' || c == '\t' || c == '\n' || c == '\r'
}

pub open spec fn spec_trim_start(s: Seq<char>) -> Seq<char>
    decreases s.len(),
{
    if s.len() > 0 && is_ws(s[0]) {
        spec_trim_start(s.skip(1))
    } else {
        s
    }
}

pub open spec fn spec_trim_end(s: Seq<char>) -> Seq<char>
    decreases s.len(),
{
    if s.len() > 0 && is_ws(s.last()) {
        spec_trim_end(s.drop_last())
    } else {
        s
    }
}

/// The input with leading and trailing whitespace (space, tab, carriage
/// return, line feed) removed.
pub open spec fn spec_trim(s: Seq<char>) -> Seq<char> {
    spec_trim_end(spec_trim_start(s))
}

proof fn lemma_trim_start_skip(s: Seq<char>, lo: int)
    requires
        0 <= lo <= s.len(),
        forall|j: int| 0 <= j < lo ==> is_ws(s[j]),
        lo == s.len() || !is_ws(s[lo]),
    ensures
        spec_trim_start(s) == s.skip(lo),
    decreases lo,
{
    if lo == 0 {
        assert(s.skip(0) =~= s);
    } else {
        lemma_trim_start_skip(s.skip(1), lo - 1);
        assert(s.skip(1).skip(lo - 1) =~= s.skip(lo));
    }
}

proof fn lemma_trim_end_take(s: Seq<char>, hi: int)
    requires
        0 <= hi <= s.len(),
        forall|j: int| hi <= j < s.len() ==> is_ws(s[j]),
        hi == 0 || !is_ws(s[hi - 1]),
    ensures
        spec_trim_end(s) == s.take(hi),
    decreases s.len() - hi,
{
    if hi == s.len() {
        assert(s.take(hi) =~= s);
    } else {
        lemma_trim_end_take(s.drop_last(), hi);
        assert(s.drop_last().take(hi) =~= s.take(hi));
    }
}

fn ws_at(s: &str, j: usize) -> (r: bool)
    requires
        j < s@.len(),
    ensures
        r == is_ws(s@[j as int]),
{
    let c = s.get_char(j);
    c == ' ' || c == '\t' || c == '\n' || c == '\r'
}

/// Remove leading and trailing whitespace (space, tab, carriage return,
/// line feed).
#[verifier::loop_isolation(false)]
pub fn trim(s: &str) -> (r: String)
    ensures
        r@ == spec_trim(s@),
{
    let n = s.unicode_len();
    let mut lo: usize = 0;
    while lo < n && ws_at(s, lo)
        invariant
            lo <= n,
            n == s@.len(),
            forall|j: int| 0 <= j < lo ==> is_ws(s@[j]),
        decreases n - lo,
    {
        lo += 1;
    }
    proof {
        lemma_trim_start_skip(s@, lo as int);
    }
    if lo == n {
        proof {
            assert(s@.skip(lo as int).len() == 0);
        }
        let r = s.substring_char(n, n).to_owned();
        proof {
            assert(r@ =~= spec_trim(s@));
        }
        return r;
    }
    let mut hi: usize = n;
    while hi > lo && ws_at(s, hi - 1)
        invariant
            lo <= hi <= n,
            n == s@.len(),
            forall|j: int| hi <= j < n ==> is_ws(s@[j]),
        decreases hi,
    {
        hi -= 1;
    }
    proof {
        let t = s@.skip(lo as int);
        assert forall|j: int| hi - lo <= j < t.len() implies is_ws(t[j]) by {
            assert(t[j] == s@[lo + j]);
        }
        if hi > lo {
            assert(t[hi - lo - 1] == s@[hi - 1]);
            assert(!is_ws(t[hi - lo - 1]));
        } else {
            assert(!is_ws(t[0]));
        }
        lemma_trim_end_take(t, hi - lo);
        assert(t.take(hi - lo) =~= s@.subrange(lo as int, hi as int));
    }
    s.substring_char(lo, hi).to_owned()
}

/// Whether `p` is a prefix of `s`.
pub open spec fn has_prefix(s: Seq<char>, p: Seq<char>) -> bool {
    p.len() <= s.len() && s.take(p.len() as int) == p
}

/// Whether `s` starts with `p`.
#[verifier::loop_isolation(false)]
pub fn starts_with_prefix(s: &str, p: &str) -> (r: bool)
    ensures
        r == has_prefix(s@, p@),
{
    let n = s.unicode_len();
    let m = p.unicode_len();
    if m > n {
        return false;
    }
    let mut j: usize = 0;
    while j < m
        invariant
            j <= m <= n,
            n == s@.len(),
            m == p@.len(),
            forall|t: int| 0 <= t < j ==> s@[t] == p@[t],
        decreases m - j,
    {
        if s.get_char(j) != p.get_char(j) {
            proof {
                assert(s@.take(m as int)[j as int] != p@[j as int]);
            }
            return false;
        }
        j += 1;
    }
    proof {
        assert(s@.take(m as int) =~= p@);
    }
    true
}

/// Whether two strings hold the same characters.
#[verifier::loop_isolation(false)]
pub fn str_eq(a: &str, b: &str) -> (r: bool)
    ensures
        r == (a@ == b@),
{
    let n = a.unicode_len();
    let m = b.unicode_len();
    if n != m {
        return false;
    }
    let mut j: usize = 0;
    while j < n
        invariant
            j <= n,
            n == a@.len(),
            n == b@.len(),
            forall|t: int| 0 <= t < j ==> a@[t] == b@[t],
        decreases n - j,
    {
        if a.get_char(j) != b.get_char(j) {
            return false;
        }
        j += 1;
    }
    proof {
        assert(a@ =~= b@);
    }
    true
}

} // verus!
