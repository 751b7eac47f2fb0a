//! Integer and float literals: a verified reader for integer literals, a
//! verified decimal renderer for the values read, and a shape check for
//! float literals (which are carried as text, since the core never
//! computes with them).
use vstd::prelude::*;

use vstd::string::StrSliceExecFns;
use vstd::string::StringExecFns;

verus! {

/// The decimal digit character of `d`, for `0 <= d <= 9`.
pub open spec fn digit_char(d: int) -> char {
    if d == 0 {
        '0'
    } else if d == 1 {
        '1'
    } else if d == 2 {
        '2'
    } else if d == 3 {
        '3'
    } else if d == 4 {
        '4'
    } else if d == 5 {
        '5'
    } else if d == 6 {
        '6'
    } else if d == 7 {
        '7'
    } else if d == 8 {
        '8'
    } else {
        '9'
    }
}

/// The usual decimal rendering of a natural number, without leading
/// zeroes (except for `0` itself).
pub open spec fn nat_text(n: nat) -> Seq<char>
    decreases n,
{
    if n < 10 {
        seq![digit_char(n as int)]
    } else {
        nat_text(n / 10) + seq![digit_char((n % 10) as int)]
    }
}

/// The usual decimal rendering of an integer: a `-` sign for negative
/// values, then the digits of the magnitude.
pub open spec fn int_text(i: int) -> Seq<char> {
    if i < 0 {
        seq!['-'] + nat_text((-i) as nat)
    } else {
        nat_text(i as nat)
    }
}

fn digit_str(d: u64) -> (r: &'static str)
    requires
        d < 10,
    ensures
        r@.len() == 1,
        r@[0] == digit_char(d as int),
{
    proof {
        reveal_strlit("0");
        reveal_strlit("1");
        reveal_strlit("2");
        reveal_strlit("3");
        reveal_strlit("4");
        reveal_strlit("5");
        reveal_strlit("6");
        reveal_strlit("7");
        reveal_strlit("8");
        reveal_strlit("9");
    }
    match d {
        0 => "0",
        1 => "1",
        2 => "2",
        3 => "3",
        4 => "4",
        5 => "5",
        6 => "6",
        7 => "7",
        8 => "8",
        _ => "9",
    }
}

/// Renders `n` in decimal.
pub fn u64_to_string(n: u64) -> (s: String)
    ensures
        s@ == nat_text(n as nat),
    decreases n,
{
    if n < 10 {
        let r = digit_str(n);
        let s = r.to_owned();
        proof {
            assert(s@ =~= nat_text(n as nat));
        }
        s
    } else {
        let mut s = u64_to_string(n / 10);
        let tail = digit_str(n % 10);
        s.append(tail);
        proof {
            assert(s@ =~= nat_text(n as nat));
        }
        s
    }
}

/// Renders `v` in decimal, with a leading `-` when negative.
pub fn i64_to_string(v: i64) -> (s: String)
    ensures
        s@ == int_text(v as int),
{
    if v >= 0 {
        u64_to_string(v as u64)
    } else {
        let m: u64 = ((-(v + 1)) as u64) + 1;
        proof {
            assert(m as int == -(v as int));
            reveal_strlit("-");
        }
        let mut s = String::from_str("-");
        let tail = u64_to_string(m);
        s.append(tail.as_str());
        proof {
            assert(s@ =~= int_text(v as int));
        }
        s
    }
}

pub open spec fn is_digit(c: char) -> bool {
    '0' <= c && c <= '9'
}

pub open spec fn digit_val(c: char) -> int {
    c as int - '0' as int
}

/// The value of a digit string, most significant digit first.
pub open spec fn digits_val(s: Seq<char>) -> int
    decreases s.len(),
{
    if s.len() == 0 {
        0
    } else {
        digits_val(s.drop_last()) * 10 + digit_val(s.last())
    }
}

pub open spec fn all_digits(s: Seq<char>) -> bool {
    forall|i: int| 0 <= i < s.len() ==> is_digit(#[trigger] s[i])
}

/// Whether the literal begins with an explicit sign character.
pub open spec fn lit_has_sign(s: Seq<char>) -> bool {
    s.len() > 0 && (s[0] == '+' || s[0] == '-')
}

/// The literal with its sign character removed, if it has one.
pub open spec fn lit_body(s: Seq<char>) -> Seq<char> {
    if lit_has_sign(s) {
        s.drop_first()
    } else {
        s
    }
}

pub open spec fn lit_negative(s: Seq<char>) -> bool {
    s.len() > 0 && s[0] == '-'
}

/// The integer a literal denotes (meaningful when it is valid).
pub open spec fn i64_lit_value(s: Seq<char>) -> int {
    if lit_negative(s) {
        -digits_val(lit_body(s))
    } else {
        digits_val(lit_body(s))
    }
}

/// A valid `i64` literal: an optional sign, then at least one digit, and
/// a denoted value that fits in an `i64`.
pub open spec fn valid_i64_literal(s: Seq<char>) -> bool {
    &&& lit_body(s).len() > 0
    &&& all_digits(lit_body(s))
    &&& i64::MIN <= i64_lit_value(s) <= i64::MAX
}

proof fn lemma_digits_val_nonneg(s: Seq<char>)
    requires
        all_digits(s),
    ensures
        digits_val(s) >= 0,
    decreases s.len(),
{
    if s.len() > 0 {
        assert(all_digits(s.drop_last())) by {
            assert(forall|i: int|
                0 <= i < s.len() - 1 ==> #[trigger] s.drop_last()[i] == s[i]);
        }
        lemma_digits_val_nonneg(s.drop_last());
        assert(is_digit(s.last()));
    }
}

/// Appending digits never shrinks the value of a digit string.
proof fn lemma_digits_val_prefix_le(s: Seq<char>, j: int, k: int)
    requires
        all_digits(s),
        0 <= j <= k <= s.len(),
    ensures
        digits_val(s.subrange(0, j)) <= digits_val(s.subrange(0, k)),
    decreases k - j,
{
    if j < k {
        lemma_digits_val_prefix_le(s, j, k - 1);
        let p = s.subrange(0, k);
        assert(p.drop_last() =~= s.subrange(0, k - 1));
        assert(all_digits(s.subrange(0, k - 1))) by {
            assert(forall|i: int|
                0 <= i < k - 1 ==> #[trigger] s.subrange(0, k - 1)[i] == s[i]);
        }
        lemma_digits_val_nonneg(s.subrange(0, k - 1));
        assert(is_digit(p.last()));
        assert(digits_val(p) == digits_val(s.subrange(0, k - 1)) * 10 + digit_val(p.last()));
    }
}

/// Reads an `i64` from its decimal literal: `Some` exactly on valid
/// literals, and then the denoted value.
pub fn parse_i64_literal(lit: &str) -> (r: Option<i64>)
    ensures
        r is Some <==> valid_i64_literal(lit@),
        r matches Some(v) ==> v as int == i64_lit_value(lit@),
{
    let n = lit.unicode_len();
    if n == 0 {
        return None;
    }
    let c0 = lit.get_char(0);
    let neg: bool = c0 == '-';
    let start: usize = if c0 == '-' || c0 == '+' {
        1
    } else {
        0
    };
    proof {
        assert(neg == lit_negative(lit@));
        assert(lit_body(lit@) =~= lit@.subrange(start as int, n as int));
    }
    if start == n {
        // a bare sign, or nothing
        return None;
    }
    let mut acc: u64 = 0;
    let mut i: usize = start;
    while i < n
        invariant
            start <= i <= n,
            acc <= 0x8000_0000_0000_0000u64,
            all_digits(lit@.subrange(start as int, i as int)),
            acc as int == digits_val(lit@.subrange(start as int, i as int)),
        decreases n - i,
    {
        let c = lit.get_char(i);
        if !(c >= '0' && c <= '9') {
            proof {
                assert(lit_body(lit@)[i - start] == c);
                assert(!all_digits(lit_body(lit@)));
            }
            return None;
        }
        let d: u64 = (c as u32 - '0' as u32) as u64;
        let wide: u128 = acc as u128 * 10 + d as u128;
        proof {
            let p = lit@.subrange(start as int, i + 1 as int);
            assert(p.drop_last() =~= lit@.subrange(start as int, i as int));
            assert(p.last() == c);
            assert(digits_val(p) == acc as int * 10 + d as int);
        }
        if wide > 0x8000_0000_0000_0000u128 {
            // the magnitude no longer fits; later digits only grow it
            proof {
                let body = lit_body(lit@);
                let shifted = body.subrange(0, i + 1 - start as int);
                assert(shifted =~= lit@.subrange(start as int, i + 1 as int));
                if valid_i64_literal(lit@) {
                    lemma_digits_val_prefix_le(body, i + 1 - start as int, body.len() as int);
                    assert(body.subrange(0, body.len() as int) =~= body);
                    assert(digits_val(body) > 0x8000_0000_0000_0000);
                }
            }
            return None;
        }
        acc = wide as u64;
        i = i + 1;
        proof {
            assert(lit@.subrange(start as int, i as int).drop_last() =~= lit@.subrange(
                start as int,
                i - 1 as int,
            ));
            assert(all_digits(lit@.subrange(start as int, i as int))) by {
                let q = lit@.subrange(start as int, i as int);
                assert(forall|k: int| 0 <= k < q.len() - 1 ==> q[k] == #[trigger] q.drop_last()[k]);
                assert(is_digit(q.last()));
            }
        }
    }
    proof {
        assert(lit@.subrange(start as int, n as int) =~= lit_body(lit@));
    }
    if neg {
        if acc == 0x8000_0000_0000_0000u64 {
            Some(i64::MIN)
        } else {
            Some(-(acc as i64))
        }
    } else {
        if acc >= 0x8000_0000_0000_0000u64 {
            // 2^63 is one past the largest positive i64
            None
        } else {
            Some(acc as i64)
        }
    }
}

/// A valid `u8` literal: an optional `+`, then at least one digit, and a
/// denoted value of at most 255.
pub open spec fn valid_u8_literal(s: Seq<char>) -> bool {
    &&& lit_body(s).len() > 0
    &&& all_digits(lit_body(s))
    &&& !lit_negative(s)
    &&& u8_lit_value(s) <= 255
}

pub open spec fn u8_lit_value(s: Seq<char>) -> int {
    digits_val(lit_body(s))
}

/// Reads a `u8` from its decimal literal: `Some` exactly on valid
/// literals, and then the denoted value.
pub fn parse_u8_literal(lit: &str) -> (r: Option<u8>)
    ensures
        r is Some <==> valid_u8_literal(lit@),
        r matches Some(v) ==> v as int == u8_lit_value(lit@),
{
    let n = lit.unicode_len();
    if n > 0 && lit.get_char(0) == '-' {
        return None;
    }
    match parse_i64_literal(lit) {
        Option::Some(v) => {
            proof {
                lemma_digits_val_nonneg(lit_body(lit@));
            }
            if v >= 0 && v <= 255 {
                Some(v as u8)
            } else {
                None
            }
        },
        Option::None => {
            proof {
                if valid_u8_literal(lit@) {
                    lemma_digits_val_nonneg(lit_body(lit@));
                    assert(valid_i64_literal(lit@));
                }
            }
            None
        },
    }
}

/// How many `.` characters the sequence holds.
pub open spec fn count_dots(s: Seq<char>) -> int
    decreases s.len(),
{
    if s.len() == 0 {
        0
    } else {
        count_dots(s.drop_last()) + if s.last() == '.' {
            1int
        } else {
            0int
        }
    }
}

/// Digits with at most one `.` among them and at least one digit: the
/// significand shape of a float literal.
pub open spec fn is_mantissa(m: Seq<char>) -> bool {
    &&& m.len() > 0
    &&& forall|i: int| 0 <= i < m.len() ==> is_digit(#[trigger] m[i]) || m[i] == '.'
    &&& count_dots(m) <= 1
    &&& exists|i: int| 0 <= i < m.len() && is_digit(#[trigger] m[i])
}

pub open spec fn ci_eq(c: char, lo: char, up: char) -> bool {
    c == lo || c == up
}

/// The case-insensitive special float spellings.
pub open spec fn is_special_float(b: Seq<char>) -> bool {
    ||| (b.len() == 3 && ci_eq(b[0], 'i', 'I') && ci_eq(b[1], 'n', 'N') && ci_eq(b[2], 'f', 'F'))
    ||| (b.len() == 8 && ci_eq(b[0], 'i', 'I') && ci_eq(b[1], 'n', 'N') && ci_eq(b[2], 'f', 'F')
        && ci_eq(b[3], 'i', 'I') && ci_eq(b[4], 'n', 'N') && ci_eq(b[5], 'i', 'I') && ci_eq(
        b[6],
        't',
        'T',
    ) && ci_eq(b[7], 'y', 'Y'))
    ||| (b.len() == 3 && ci_eq(b[0], 'n', 'N') && ci_eq(b[1], 'a', 'A') && ci_eq(b[2], 'n', 'N'))
}

/// The first position at or after `i` holding an exponent marker.
pub open spec fn find_exp(b: Seq<char>, i: int) -> int
    decreases b.len() - i,
{
    if 0 <= i < b.len() {
        if b[i] == 'e' || b[i] == 'E' {
            i
        } else {
            find_exp(b, i + 1)
        }
    } else {
        i
    }
}

proof fn lemma_find_exp(b: Seq<char>, i: int)
    requires
        0 <= i <= b.len(),
    ensures
        i <= find_exp(b, i) <= b.len(),
        find_exp(b, i) < b.len() ==> (b[find_exp(b, i)] == 'e' || b[find_exp(b, i)] == 'E'),
        forall|j: int| i <= j < find_exp(b, i) ==> (#[trigger] b[j]) != 'e' && b[j] != 'E',
    decreases b.len() - i,
{
    if i < b.len() && b[i] != 'e' && b[i] != 'E' {
        lemma_find_exp(b, i + 1);
    }
}

/// An exponent: an optional sign, then at least one digit.
pub open spec fn is_exponent(t: Seq<char>) -> bool {
    lit_body(t).len() > 0 && all_digits(lit_body(t))
}

/// A valid float literal, read as std reads one: an optional sign, then
/// either a special spelling (`inf`, `infinity`, `nan`, in any case) or
/// a significand of digits with at most one dot, optionally followed by
/// an `e`/`E` exponent with its own optional sign.
pub open spec fn valid_float_literal(s: Seq<char>) -> bool {
    let b = lit_body(s);
    ||| is_special_float(b)
    ||| ({
        let k = find_exp(b, 0);
        is_mantissa(b.take(k)) && (k >= b.len() || is_exponent(b.skip(k + 1)))
    })
}

/// Checks a digits-and-one-dot significand over `lit[lo, hi)`.
fn check_mantissa_range(lit: &str, lo: usize, hi: usize) -> (r: bool)
    requires
        lo <= hi <= lit@.len(),
    ensures
        r == is_mantissa(lit@.subrange(lo as int, hi as int)),
{
    let ghost m = lit@.subrange(lo as int, hi as int);
    if lo == hi {
        return false;
    }
    let mut dots: u64 = 0;
    let mut seen_digit: bool = false;
    let mut i: usize = lo;
    while i < hi
        invariant
            lo <= i <= hi,
            hi <= lit@.len(),
            dots <= 1,
            dots as int == count_dots(lit@.subrange(lo as int, i as int)),
            seen_digit <==> exists|j: int| lo <= j < i && is_digit(#[trigger] lit@[j]),
            forall|j: int| lo <= j < i ==> is_digit(#[trigger] lit@[j]) || lit@[j] == '.',
        decreases hi - i,
    {
        let c = lit.get_char(i);
        if c >= '0' && c <= '9' {
            seen_digit = true;
        } else if c == '.' {
            if dots >= 1 {
                proof {
                    lemma_count_dots_prefix_le(m, i + 1 - lo as int, m.len() as int);
                    assert(m.subrange(0, i + 1 - lo as int) =~= lit@.subrange(
                        lo as int,
                        i + 1 as int,
                    ));
                    assert(lit@.subrange(lo as int, i + 1 as int).drop_last() =~= lit@.subrange(
                        lo as int,
                        i as int,
                    ));
                    assert(m.subrange(0, m.len() as int) =~= m);
                }
                return false;
            }
            dots = dots + 1;
        } else {
            proof {
                assert(m[i - lo] == c);
            }
            return false;
        }
        i = i + 1;
        proof {
            assert(lit@.subrange(lo as int, i as int).drop_last() =~= lit@.subrange(
                lo as int,
                i - 1 as int,
            ));
            assert(lit@.subrange(lo as int, i as int).last() == lit@[i - 1]);
        }
    }
    proof {
        assert(forall|k: int| 0 <= k < m.len() ==> #[trigger] m[k] == lit@[k + lo]);
        if seen_digit {
            let j = choose|j: int| lo <= j < hi && is_digit(#[trigger] lit@[j]);
            assert(is_digit(m[j - lo]));
            assert forall|k: int| 0 <= k < m.len() implies is_digit(#[trigger] m[k]) || m[k]
                == '.' by {
                assert(is_digit(lit@[k + lo]) || lit@[k + lo] == '.');
            }
            assert(is_mantissa(m));
        } else {
            if exists|k: int| 0 <= k < m.len() && is_digit(#[trigger] m[k]) {
                let k = choose|k: int| 0 <= k < m.len() && is_digit(#[trigger] m[k]);
                assert(is_digit(lit@[k + lo]));
            }
            assert(!is_mantissa(m));
        }
    }
    seen_digit
}

/// Checks an exponent over `lit[lo, hi)`.
fn check_exponent_range(lit: &str, lo: usize, hi: usize) -> (r: bool)
    requires
        lo <= hi <= lit@.len(),
    ensures
        r == is_exponent(lit@.subrange(lo as int, hi as int)),
{
    let ghost t = lit@.subrange(lo as int, hi as int);
    if lo == hi {
        return false;
    }
    let c0 = lit.get_char(lo);
    let estart: usize = if c0 == '-' || c0 == '+' {
        lo + 1
    } else {
        lo
    };
    proof {
        assert(lit_body(t) =~= lit@.subrange(estart as int, hi as int));
    }
    if estart == hi {
        return false;
    }
    let mut i: usize = estart;
    while i < hi
        invariant
            estart <= i <= hi,
            hi <= lit@.len(),
            forall|j: int| estart <= j < i ==> is_digit(#[trigger] lit@[j]),
        decreases hi - i,
    {
        let c = lit.get_char(i);
        if !(c >= '0' && c <= '9') {
            proof {
                assert(lit_body(t)[i - estart] == c);
            }
            return false;
        }
        i = i + 1;
    }
    proof {
        assert forall|k: int| 0 <= k < lit_body(t).len() implies is_digit(
            #[trigger] lit_body(t)[k],
        ) by {
            assert(lit_body(t)[k] == lit@[k + estart]);
        }
    }
    true
}

/// Checks the special float spellings over `lit[lo, hi)`.
fn check_special_float(lit: &str, lo: usize, hi: usize) -> (r: bool)
    requires
        lo <= hi <= lit@.len(),
    ensures
        r == is_special_float(lit@.subrange(lo as int, hi as int)),
{
    let ghost m = lit@.subrange(lo as int, hi as int);
    let len = hi - lo;
    if len == 3 {
        let a = lit.get_char(lo);
        let b = lit.get_char(lo + 1);
        let c = lit.get_char(lo + 2);
        proof {
            assert(m[0] == lit@[lo as int] && m[1] == lit@[lo + 1] && m[2] == lit@[lo + 2]);
        }
        ((a == 'i' || a == 'I') && (b == 'n' || b == 'N') && (c == 'f' || c == 'F')) || ((a == 'n'
            || a == 'N') && (b == 'a' || b == 'A') && (c == 'n' || c == 'N'))
    } else if len == 8 {
        let c0 = lit.get_char(lo);
        let c1 = lit.get_char(lo + 1);
        let c2 = lit.get_char(lo + 2);
        let c3 = lit.get_char(lo + 3);
        let c4 = lit.get_char(lo + 4);
        let c5 = lit.get_char(lo + 5);
        let c6 = lit.get_char(lo + 6);
        let c7 = lit.get_char(lo + 7);
        proof {
            assert(m[0] == lit@[lo as int] && m[1] == lit@[lo + 1] && m[2] == lit@[lo + 2] && m[3]
                == lit@[lo + 3] && m[4] == lit@[lo + 4] && m[5] == lit@[lo + 5] && m[6] == lit@[lo
                + 6] && m[7] == lit@[lo + 7]);
        }
        (c0 == 'i' || c0 == 'I') && (c1 == 'n' || c1 == 'N') && (c2 == 'f' || c2 == 'F') && (c3
            == 'i' || c3 == 'I') && (c4 == 'n' || c4 == 'N') && (c5 == 'i' || c5 == 'I') && (c6
            == 't' || c6 == 'T') && (c7 == 'y' || c7 == 'Y')
    } else {
        false
    }
}

/// Checks the shape of a float literal.
pub fn check_float_literal(lit: &str) -> (r: bool)
    ensures
        r == valid_float_literal(lit@),
{
    let n = lit.unicode_len();
    if n == 0 {
        proof {
            assert(lit_body(lit@) =~= lit@);
        }
        return false;
    }
    let c0 = lit.get_char(0);
    let start: usize = if c0 == '-' || c0 == '+' {
        1
    } else {
        0
    };
    proof {
        assert(lit_body(lit@) =~= lit@.subrange(start as int, n as int));
    }
    if check_special_float(lit, start, n) {
        return true;
    }
    let mut k: usize = start;
    while k < n && lit.get_char(k) != 'e' && lit.get_char(k) != 'E'
        invariant
            start <= k <= n,
            n == lit@.len(),
            forall|j: int| start <= j < k ==> (#[trigger] lit@[j]) != 'e' && lit@[j] != 'E',
        decreases n - k,
    {
        k = k + 1;
    }
    let ghost b = lit_body(lit@);
    proof {
        lemma_find_exp(b, 0);
        assert forall|j: int| 0 <= j < k - start implies (#[trigger] b[j]) != 'e' && b[j]
            != 'E' by {
            assert(b[j] == lit@[j + start]);
        }
        if k < n {
            assert(b[k - start] == lit@[k as int]);
        }
        assert(find_exp(b, 0) == k - start);
        assert(b.take(k - start) =~= lit@.subrange(start as int, k as int));
    }
    if !check_mantissa_range(lit, start, k) {
        return false;
    }
    if k == n {
        return true;
    }
    proof {
        assert(b.skip(k - start + 1) =~= lit@.subrange(k + 1 as int, n as int));
    }
    check_exponent_range(lit, k + 1, n)
}

/// Dots only accumulate as a digit string grows.
proof fn lemma_count_dots_prefix_le(s: Seq<char>, j: int, k: int)
    requires
        0 <= j <= k <= s.len(),
    ensures
        count_dots(s.subrange(0, j)) <= count_dots(s.subrange(0, k)),
    decreases k - j,
{
    if j < k {
        lemma_count_dots_prefix_le(s, j, k - 1);
        let p = s.subrange(0, k);
        assert(p.drop_last() =~= s.subrange(0, k - 1));
    }
}

} // verus!
