//! Reading numbers out of text, by the grammars that Rust's own `str::parse`
//! documents for `i64` and `f64`.
use vstd::prelude::*;

verus! {

pub open spec fn is_digit(c: char) -> bool {
    '0' <= c <= '9'
}

pub open spec fn digit_value(c: char) -> int {
    c as int - '0' as int
}

pub open spec fn all_digits(s: Seq<char>) -> bool {
    forall|i: int| 0 <= i < s.len() ==> is_digit(#[trigger] s[i])
}

/// The value of a string of decimal digits, most significant first.
pub open spec fn digits_value(s: Seq<char>) -> int
    decreases s.len(),
{
    if s.len() == 0 {
        0
    } else {
        digits_value(s.drop_last()) * 10 + digit_value(s.last())
    }
}

pub open spec fn is_sign(c: char) -> bool {
    c == '+' || c == '-'
}

/// The integer that `s` writes: an optional sign, then one or more digits.
pub open spec fn decimal_value(s: Seq<char>) -> Option<int> {
    let signed = s.len() > 0 && is_sign(s[0]);
    let d = if signed {
        s.drop_first()
    } else {
        s
    };
    if d.len() > 0 && all_digits(d) {
        if signed && s[0] == '-' {
            Some(-digits_value(d))
        } else {
            Some(digits_value(d))
        }
    } else {
        None
    }
}

/// What parsing `s` as an `i64` gives: the value it writes, when that fits.
pub open spec fn i64_value(s: Seq<char>) -> Option<i64> {
    match decimal_value(s) {
        Some(v) => if i64::MIN <= v <= i64::MAX {
            Some(v as i64)
        } else {
            None
        },
        None => None,
    }
}

proof fn lemma_digits_value_nonneg(s: Seq<char>)
    requires
        all_digits(s),
    ensures
        digits_value(s) >= 0,
    decreases s.len(),
{
    if s.len() > 0 {
        lemma_digits_value_nonneg(s.drop_last());
    }
}

/// A longer run of digits is worth at least as much as its prefix.
proof fn lemma_digits_value_prefix(s: Seq<char>, k: int)
    requires
        all_digits(s),
        0 <= k <= s.len(),
    ensures
        digits_value(s) >= digits_value(s.subrange(0, k)),
    decreases s.len(),
{
    if k < s.len() {
        lemma_digits_value_nonneg(s.drop_last());
        assert(s.drop_last().subrange(0, k) =~= s.subrange(0, k));
        lemma_digits_value_prefix(s.drop_last(), k);
    } else {
        assert(s.subrange(0, k) =~= s);
    }
}

/// Parses `s` as a decimal `i64`: an optional sign, then digits.
pub fn parse_i64(s: &str) -> (r: Option<i64>)
    ensures
        r == i64_value(s@),
{
    let n = s.unicode_len();
    let mut start: usize = 0;
    let mut neg = false;
    if n > 0 {
        let c = s.get_char(0);
        if c == '+' || c == '-' {
            start = 1;
            neg = c == '-';
        }
    }
    let ghost d = s@.subrange(start as int, n as int);
    proof {
        if start == 1 {
            assert(d =~= s@.drop_first());
        } else {
            assert(d =~= s@);
        }
    }
    if start == n {
        return None;
    }
    // The magnitude read so far; past this bound the value fits no i64.
    let mut m: u64 = 0;
    let mut i: usize = start;
    while i < n
        invariant
            n == s@.len(),
            start <= i <= n,
            start < n,
            start <= 1,
            (start == 1) == (s@.len() > 0 && is_sign(s@[0])),
            neg == (start == 1 && s@[0] == '-'),
            d == s@.subrange(start as int, n as int),
            d == (if start == 1 {
                s@.drop_first()
            } else {
                s@
            }),
            all_digits(s@.subrange(start as int, i as int)),
            m as int == digits_value(s@.subrange(start as int, i as int)),
            m <= 9223372036854775808u64,
        decreases n - i,
    {
        let c = s.get_char(i);
        let ghost pre = s@.subrange(start as int, i as int);
        let ghost next = s@.subrange(start as int, i + 1);
        assert(next.drop_last() =~= pre);
        if !('0' <= c && c <= '9') {
            assert(d[i - start] == c);
            assert(!is_digit(d[i - start]));
            return None;
        }
        let dv = (c as u32 - '0' as u32) as u64;
        if m > 922337203685477580u64 || (m == 922337203685477580u64 && dv > 8) {
            // Every digit string starting with `next` is worth more than 2^63.
            proof {
                assert(next.last() == c);
                assert(digits_value(next) == m * 10 + dv);
                if all_digits(d) {
                    assert(d.subrange(0, (i + 1 - start) as int) =~= next);
                    lemma_digits_value_prefix(d, (i + 1 - start) as int);
                    assert(digits_value(d) > 9223372036854775808);
                }
            }
            return None;
        }
        m = m * 10 + dv;
        i = i + 1;
        assert(all_digits(s@.subrange(start as int, i as int))) by {
            assert forall|j: int| 0 <= j < next.len() implies is_digit(#[trigger] next[j]) by {
                if j < pre.len() {
                    assert(next[j] == pre[j]);
                }
            }
        }
    }
    assert(s@.subrange(start as int, n as int) == d);
    if neg {
        let v: i128 = -(m as i128);
        Some(v as i64)
    } else if m <= 9223372036854775807u64 {
        Some(m as i64)
    } else {
        None
    }
}

/// `c` is the letter `w`, in either case (`w` in lower case).
pub open spec fn same_letter(c: char, w: char) -> bool {
    c == w || ('A' <= c <= 'Z' && c as u32 + 32 == w as u32)
}

/// `s` spells the lower-case word `w`, ignoring case.
pub open spec fn spells(s: Seq<char>, w: Seq<char>) -> bool {
    s.len() == w.len() && forall|i: int| 0 <= i < s.len() ==> same_letter(#[trigger] s[i], w[i])
}

/// The end of the run of digits in `s` that starts at `i`.
pub open spec fn digit_run_end(s: Seq<char>, i: int) -> int
    decreases s.len() - i,
{
    if 0 <= i < s.len() && is_digit(s[i]) {
        digit_run_end(s, i + 1)
    } else {
        i
    }
}

/// From `p` to its end, `s` is an exponent: `e` or `E`, an optional sign,
/// then one or more digits.
pub open spec fn is_exponent(s: Seq<char>, p: int) -> bool {
    &&& 0 <= p < s.len()
    &&& s[p] == 'e' || s[p] == 'E'
    &&& {
        let q = if p + 1 < s.len() && is_sign(s[p + 1]) {
            p + 2
        } else {
            p + 1
        };
        q < s.len() && digit_run_end(s, q) == s.len()
    }
}

/// From `i` to its end, `s` is a decimal number: digits with an optional
/// point, at least one digit in all, then an optional exponent.
pub open spec fn is_number_from(s: Seq<char>, i: int) -> bool {
    let a = digit_run_end(s, i);
    let has_point = a < s.len() && s[a] == '.';
    let p = if has_point {
        digit_run_end(s, a + 1)
    } else {
        a
    };
    let digits = if has_point {
        p - i - 1
    } else {
        p - i
    };
    digits > 0 && (p == s.len() || is_exponent(s, p))
}

/// `s` is a floating-point literal as `f64`'s `from_str` reads it: an
/// optional sign, then `inf`, `infinity` or `nan` in any case, or a number.
pub open spec fn is_float_literal(s: Seq<char>) -> bool {
    let i = if s.len() > 0 && is_sign(s[0]) {
        1int
    } else {
        0int
    };
    let body = s.subrange(i, s.len() as int);
    ||| spells(body, seq!['i', 'n', 'f'])
    ||| spells(body, seq!['i', 'n', 'f', 'i', 'n', 'i', 't', 'y'])
    ||| spells(body, seq!['n', 'a', 'n'])
    ||| is_number_from(s, i)
}

fn run_end(s: &str, n: usize, i: usize) -> (r: usize)
    requires
        n == s@.len(),
        i <= n,
    ensures
        r as int == digit_run_end(s@, i as int),
        i <= r <= n,
    decreases n - i,
{
    if i < n {
        let c = s.get_char(i);
        if '0' <= c && c <= '9' {
            return run_end(s, n, i + 1);
        }
    }
    i
}

/// Whether the characters of `s` from `start` on spell the word `w`,
/// ignoring case.
fn spells_from(s: &str, n: usize, start: usize, w: &str) -> (r: bool)
    requires
        n == s@.len(),
        start <= n,
    ensures
        r == spells(s@.subrange(start as int, n as int), w@),
{
    let ghost body = s@.subrange(start as int, n as int);
    let m = w.unicode_len();
    if n - start != m {
        return false;
    }
    let mut i: usize = 0;
    while i < m
        invariant
            n == s@.len(),
            start <= n,
            body == s@.subrange(start as int, n as int),
            m == w@.len() == n - start,
            i <= m,
            forall|j: int| 0 <= j < i ==> same_letter(#[trigger] body[j], w@[j]),
        decreases m - i,
    {
        let c = s.get_char(start + i);
        let l = w.get_char(i);
        assert(body[i as int] == c);
        if !(c == l || ('A' <= c && c <= 'Z' && c as u32 + 32 == l as u32)) {
            return false;
        }
        i = i + 1;
    }
    true
}

/// Whether `f64`'s `from_str` would accept `s`.
pub fn is_float_text(s: &str) -> (r: bool)
    ensures
        r == is_float_literal(s@),
{
    let n = s.unicode_len();
    let mut i: usize = 0;
    if n > 0 {
        let c = s.get_char(0);
        if c == '+' || c == '-' {
            i = 1;
        }
    }
    let inf = "inf";
    let infinity = "infinity";
    let nan = "nan";
    proof {
        reveal_strlit("inf");
        reveal_strlit("infinity");
        reveal_strlit("nan");
        assert(inf@ =~= seq!['i', 'n', 'f']);
        assert(infinity@ =~= seq!['i', 'n', 'f', 'i', 'n', 'i', 't', 'y']);
        assert(nan@ =~= seq!['n', 'a', 'n']);
    }
    if spells_from(s, n, i, inf) || spells_from(s, n, i, infinity) || spells_from(s, n, i, nan) {
        return true;
    }
    let a = run_end(s, n, i);
    let has_point = a < n && s.get_char(a) == '.';
    let p = if has_point {
        run_end(s, n, a + 1)
    } else {
        a
    };
    let digits = if has_point {
        p - i - 1
    } else {
        p - i
    };
    if digits == 0 {
        return false;
    }
    if p == n {
        return true;
    }
    let e = s.get_char(p);
    if e != 'e' && e != 'E' {
        return false;
    }
    let mut q = p + 1;
    if q < n {
        let c = s.get_char(q);
        if c == '+' || c == '-' {
            q = q + 1;
        }
    }
    q < n && run_end(s, n, q) == n
}

pub open spec fn digit_char(d: int) -> char {
    if d == 0 {
        '0'
    } else if d == 1 {
        '1'
    } else if d == 2 {
        '2'
    } else if d == 3 {
        '3'
    } else if d == 4 {
        '4'
    } else if d == 5 {
        '5'
    } else if d == 6 {
        '6'
    } else if d == 7 {
        '7'
    } else if d == 8 {
        '8'
    } else {
        '9'
    }
}

/// The decimal digits of `n`, most significant first, without leading zeros.
pub open spec fn nat_text(n: nat) -> Seq<char>
    decreases n,
{
    if n < 10 {
        seq![digit_char(n as int)]
    } else {
        nat_text(n / 10) + seq![digit_char((n % 10) as int)]
    }
}

/// The decimal text of `v`, with a leading `-` when it is negative.
pub open spec fn int_text(v: int) -> Seq<char> {
    if v < 0 {
        seq!['-'] + nat_text((-v) as nat)
    } else {
        nat_text(v as nat)
    }
}

fn digit_str(d: u64) -> (r: &'static str)
    requires
        d < 10,
    ensures
        r@ == seq![digit_char(d as int)],
{
    proof {
        reveal_strlit("0");
        reveal_strlit("1");
        reveal_strlit("2");
        reveal_strlit("3");
        reveal_strlit("4");
        reveal_strlit("5");
        reveal_strlit("6");
        reveal_strlit("7");
        reveal_strlit("8");
        reveal_strlit("9");
    }
    let r = if d == 0 {
        "0"
    } else if d == 1 {
        "1"
    } else if d == 2 {
        "2"
    } else if d == 3 {
        "3"
    } else if d == 4 {
        "4"
    } else if d == 5 {
        "5"
    } else if d == 6 {
        "6"
    } else if d == 7 {
        "7"
    } else if d == 8 {
        "8"
    } else {
        "9"
    };
    assert(r@ =~= seq![digit_char(d as int)]);
    r
}

fn push_nat(out: &mut String, n: u64)
    ensures
        final(out)@ == old(out)@ + nat_text(n as nat),
    decreases n,
{
    if n >= 10 {
        push_nat(out, n / 10);
    }
    out.append(digit_str(n % 10));
    proof {
        if n >= 10 {
            assert(final(out)@ =~= old(out)@ + nat_text(n as nat));
        } else {
            assert(final(out)@ =~= old(out)@ + nat_text(n as nat));
        }
    }
}

/// The decimal text of `v`, as `to_string` writes it.
pub fn int_to_text(v: i64) -> (r: String)
    ensures
        r@ == int_text(v as int),
{
    let mut out = String::new();
    if v < 0 {
        out.append("-");
        proof {
            reveal_strlit("-");
        }
        let m: i128 = -(v as i128);
        push_nat(&mut out, m as u64);
        assert(out@ =~= int_text(v as int));
    } else {
        push_nat(&mut out, v as u64);
        assert(out@ =~= int_text(v as int));
    }
    out
}

} // verus!
