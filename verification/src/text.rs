//! Character-level scanning of wire values.
//!
//! Query and path parameters arrive as text; the checkers need to decide
//! whether such text spells an integer, a decimal number, a float literal or
//! a boolean, and what number it denotes. Everything here is defined over
//! the character sequence of the input.

use vstd::prelude::*;
use vstd::string::{StrSliceExecFns, StringExecFns};
use crate::num::{Dec, MAX_SCALE};

verus! {

/// An ASCII decimal digit.
pub open spec fn is_digit_char(c: char) -> bool {
    '0' <= c && c <= '9'
}

/// The numeric value of an ASCII digit.
pub open spec fn digit_val(c: char) -> int {
    c as int - '0' as int
}

/// ASCII whitespace, the characters stripped when testing whether a
/// required parameter value is effectively empty.
pub open spec fn is_space_char(c: char) -> bool {
    c == ' ' || c == '\t' || c == '\n' || c == '\r' || c == '\u{000B}' || c == '\u{000C}'
}

/// Every character of `s` is a digit.
pub open spec fn all_digits(s: Seq<char>) -> bool {
    forall|k: int| 0 <= k < s.len() ==> is_digit_char(#[trigger] s[k])
}

/// The number spelt by a digit sequence, most significant digit first.
pub open spec fn digits_val(s: Seq<char>) -> int
    decreases s.len(),
{
    if s.len() == 0 {
        0
    } else {
        digits_val(s.drop_last()) * 10 + digit_val(s.last())
    }
}

pub proof fn lemma_digits_val_nonneg(s: Seq<char>)
    requires
        all_digits(s),
    ensures
        digits_val(s) >= 0,
    decreases s.len(),
{
    if s.len() > 0 {
        assert(all_digits(s.drop_last()));
        lemma_digits_val_nonneg(s.drop_last());
    }
}

/// Dropping digits from the right can only lower the spelt number.
pub proof fn lemma_digits_val_prefix(s: Seq<char>, j: int)
    requires
        all_digits(s),
        0 <= j <= s.len(),
    ensures
        digits_val(s.subrange(0, j)) <= digits_val(s),
    decreases s.len(),
{
    if j == s.len() {
        assert(s.subrange(0, j) =~= s);
    } else {
        let d = s.drop_last();
        assert(all_digits(d));
        assert(s.subrange(0, j) =~= d.subrange(0, j));
        lemma_digits_val_prefix(d, j);
        lemma_digits_val_nonneg(d);
    }
}

/// A digit string of length `n` spells a number below `10^n`.
pub proof fn lemma_digits_val_ub(s: Seq<char>)
    requires
        all_digits(s),
    ensures
        digits_val(s) < crate::num::pow10(s.len() as nat),
    decreases s.len(),
{
    if s.len() > 0 {
        assert(all_digits(s.drop_last()));
        lemma_digits_val_ub(s.drop_last());
    }
}

/// First position in `s` holding `c1` or `c2`.
pub open spec fn first2(s: Seq<char>, c1: char, c2: char) -> Option<int>
    decreases s.len(),
{
    if s.len() == 0 {
        Option::None
    } else if s[0] == c1 || s[0] == c2 {
        Option::Some(0)
    } else {
        match first2(s.drop_first(), c1, c2) {
            Option::Some(i) => Option::Some(i + 1),
            Option::None => Option::None,
        }
    }
}

pub proof fn lemma_first2_props(s: Seq<char>, c1: char, c2: char)
    ensures
        match first2(s, c1, c2) {
            Option::Some(i) => 0 <= i < s.len() && (s[i] == c1 || s[i] == c2) && forall|j: int|
                0 <= j < i ==> #[trigger] s[j] != c1 && s[j] != c2,
            Option::None => forall|j: int| 0 <= j < s.len() ==> #[trigger] s[j] != c1 && s[j]
                != c2,
        },
    decreases s.len(),
{
    if s.len() > 0 && !(s[0] == c1 || s[0] == c2) {
        let d = s.drop_first();
        lemma_first2_props(d, c1, c2);
        match first2(d, c1, c2) {
            Option::Some(i) => {
                assert(s[i + 1] == d[i]);
                assert forall|j: int| 0 <= j < i + 1 implies #[trigger] s[j] != c1 && s[j]
                    != c2 by {
                    if j > 0 {
                        assert(s[j] == d[j - 1]);
                    }
                }
            },
            Option::None => {
                assert forall|j: int| 0 <= j < s.len() implies #[trigger] s[j] != c1 && s[j]
                    != c2 by {
                    if j > 0 {
                        assert(s[j] == d[j - 1]);
                    }
                }
            },
        }
    }
}

pub proof fn lemma_first2_found(s: Seq<char>, c1: char, c2: char, i: int)
    requires
        0 <= i < s.len(),
        s[i] == c1 || s[i] == c2,
        forall|j: int| 0 <= j < i ==> #[trigger] s[j] != c1 && s[j] != c2,
    ensures
        first2(s, c1, c2) == Option::<int>::Some(i),
    decreases s.len(),
{
    if i > 0 {
        lemma_first2_found(s.drop_first(), c1, c2, i - 1);
    }
}

pub proof fn lemma_first2_none(s: Seq<char>, c1: char, c2: char)
    requires
        forall|j: int| 0 <= j < s.len() ==> #[trigger] s[j] != c1 && s[j] != c2,
    ensures
        first2(s, c1, c2) == Option::<int>::None,
    decreases s.len(),
{
    if s.len() > 0 {
        lemma_first2_none(s.drop_first(), c1, c2);
    }
}

/// Finds the first occurrence of `c1` or `c2` in `s`.
pub fn find_first2(s: &str, c1: char, c2: char) -> (r: Option<usize>)
    ensures
        match r {
            Option::Some(i) => first2(s@, c1, c2) == Option::<int>::Some(i as int),
            Option::None => first2(s@, c1, c2) == Option::<int>::None,
        },
{
    let n = s.unicode_len();
    let mut i: usize = 0;
    while i < n
        invariant
            0 <= i <= n,
            n == s@.len(),
            forall|j: int| 0 <= j < i ==> #[trigger] s@[j] != c1 && s@[j] != c2,
        decreases n - i,
    {
        let c = s.get_char(i);
        if c == c1 || c == c2 {
            proof {
                lemma_first2_found(s@, c1, c2, i as int);
            }
            return Option::Some(i);
        }
        i = i + 1;
    }
    proof {
        lemma_first2_none(s@, c1, c2);
    }
    Option::None
}

/// Whether every character of `s` is ASCII whitespace; an empty string or a
/// string of spaces is blank.
pub open spec fn spec_blank(s: Seq<char>) -> bool {
    forall|k: int| 0 <= k < s.len() ==> is_space_char(#[trigger] s[k])
}

/// Whether `s` trims to nothing.
pub fn is_blank(s: &str) -> (r: bool)
    ensures
        r == spec_blank(s@),
{
    let n = s.unicode_len();
    let mut i: usize = 0;
    while i < n
        invariant
            0 <= i <= n,
            n == s@.len(),
            forall|k: int| 0 <= k < i ==> is_space_char(#[trigger] s@[k]),
        decreases n - i,
    {
        let c = s.get_char(i);
        if !(c == ' ' || c == '\t' || c == '\n' || c == '\r' || c == '\u{000B}' || c
            == '\u{000C}') {
            return false;
        }
        i = i + 1;
    }
    true
}

/// Length of the sign prefix (`+` or `-`) of a numeric literal.
pub open spec fn sign_len(s: Seq<char>) -> int {
    if s.len() > 0 && (s[0] == '-' || s[0] == '+') {
        1
    } else {
        0
    }
}

/// Whether a numeric literal is negative.
pub open spec fn is_negative(s: Seq<char>) -> bool {
    s.len() > 0 && s[0] == '-'
}

/// The literal with its sign stripped.
pub open spec fn num_body(s: Seq<char>) -> Seq<char> {
    s.subrange(sign_len(s), s.len() as int)
}

/// An integer literal as `i64::from_str` reads it: an optional sign
/// followed by one or more digits.
pub open spec fn is_int_literal(s: Seq<char>) -> bool {
    num_body(s).len() > 0 && all_digits(num_body(s))
}

/// The integer an integer literal denotes.
pub open spec fn int_literal_val(s: Seq<char>) -> int {
    if is_negative(s) {
        -digits_val(num_body(s))
    } else {
        digits_val(num_body(s))
    }
}

/// Parses a 64-bit integer: succeeds exactly on integer literals whose
/// value fits in `i64`, and then returns that value.
pub fn parse_i64(s: &str) -> (r: Option<i64>)
    ensures
        r is Some <==> is_int_literal(s@) && i64::MIN <= int_literal_val(s@) <= i64::MAX,
        r matches Some(n) ==> n == int_literal_val(s@),
{
    let n = s.unicode_len();
    if n == 0 {
        return Option::None;
    }
    let c0 = s.get_char(0);
    let neg = c0 == '-';
    let start: usize = if c0 == '-' || c0 == '+' {
        1
    } else {
        0
    };
    if start == n {
        return Option::None;
    }
    let ghost body = num_body(s@);
    proof {
        assert(body =~= s@.subrange(start as int, n as int));
    }
    let mut i: usize = start;
    let mut acc: i128 = 0;
    while i < n
        invariant
            start <= i <= n,
            n == s@.len(),
            start == sign_len(s@),
            body == num_body(s@),
            body =~= s@.subrange(start as int, n as int),
            all_digits(s@.subrange(start as int, i as int)),
            acc == digits_val(s@.subrange(start as int, i as int)),
            0 <= acc <= 9_223_372_036_854_775_808i128,
        decreases n - i,
    {
        let c = s.get_char(i);
        if !(c >= '0' && c <= '9') {
            proof {
                assert(!is_digit_char(body[i - start]));
            }
            return Option::None;
        }
        let d: i128 = (c as u32 as i128) - 48;
        proof {
            assert(s@.subrange(start as int, i + 1 as int).drop_last() =~= s@.subrange(
                start as int,
                i as int,
            ));
        }
        acc = acc * 10 + d;
        i = i + 1;
        if acc > 9_223_372_036_854_775_808i128 {
            proof {
                if all_digits(body) {
                    let part = s@.subrange(start as int, i as int);
                    assert(part =~= body.subrange(0, i - start));
                    lemma_digits_val_prefix(body, i - start);
                }
            }
            return Option::None;
        }
    }
    proof {
        assert(s@.subrange(start as int, n as int) =~= body);
    }
    if neg {
        if acc <= 9_223_372_036_854_775_808i128 {
            Option::Some((-acc) as i64)
        } else {
            Option::None
        }
    } else {
        if acc <= 9_223_372_036_854_775_807i128 {
            Option::Some(acc as i64)
        } else {
            Option::None
        }
    }
}

/// Number of trailing `'0'` characters of `s`.
pub open spec fn trailing_zeros(s: Seq<char>) -> int
    decreases s.len(),
{
    if s.len() == 0 {
        0
    } else if s.last() == '0' {
        1 + trailing_zeros(s.drop_last())
    } else {
        0
    }
}

proof fn lemma_tz_all_zero(s: Seq<char>)
    requires
        forall|k: int| 0 <= k < s.len() ==> #[trigger] s[k] == '0',
    ensures
        trailing_zeros(s) == s.len(),
    decreases s.len(),
{
    if s.len() > 0 {
        lemma_tz_all_zero(s.drop_last());
    }
}

proof fn lemma_tz_split(s: Seq<char>, j: int)
    requires
        0 <= j < s.len(),
        s[j] != '0',
        forall|k: int| j < k < s.len() ==> #[trigger] s[k] == '0',
    ensures
        trailing_zeros(s) == s.len() - j - 1,
    decreases s.len(),
{
    if j < s.len() - 1 {
        lemma_tz_split(s.drop_last(), j);
    }
}

/// Position of the decimal point of a (sign-stripped) literal body, or its
/// length when no point occurs.
pub open spec fn dec_dot(b: Seq<char>) -> int {
    match first2(b, '.', '.') {
        Option::Some(p) => p,
        Option::None => b.len() as int,
    }
}

/// One or more digits with at most one decimal point among them.
pub open spec fn digits_with_opt_dot(b: Seq<char>) -> bool {
    &&& b.len() > (if dec_dot(b) < b.len() {
        1int
    } else {
        0int
    })
    &&& forall|k: int| 0 <= k < b.len() && k != dec_dot(b) ==> is_digit_char(#[trigger] b[k])
}

/// A plain decimal literal: optional sign, digits, optional point.
pub open spec fn is_dec_literal(s: Seq<char>) -> bool {
    digits_with_opt_dot(num_body(s))
}

/// The fractional digits of a literal body, trailing zeros stripped.
pub open spec fn sig_frac(b: Seq<char>) -> Seq<char> {
    if dec_dot(b) < b.len() {
        let f = b.subrange(dec_dot(b) + 1, b.len() as int);
        f.subrange(0, f.len() - trailing_zeros(f))
    } else {
        Seq::empty()
    }
}

/// The mantissa digits of a literal body: integer digits followed by the
/// significant fractional digits.
pub open spec fn mant_digits(b: Seq<char>) -> Seq<char> {
    b.subrange(0, dec_dot(b)) + sig_frac(b)
}

/// The scale a literal denotes: the count of significant fractional digits.
pub open spec fn dec_lit_scale(s: Seq<char>) -> int {
    sig_frac(num_body(s)).len() as int
}

/// The unsigned mantissa a literal denotes.
pub open spec fn dec_lit_mag(s: Seq<char>) -> int {
    digits_val(mant_digits(num_body(s)))
}

/// Whether a decimal literal denotes a value the `Dec` type can hold.
pub open spec fn dec_lit_fits(s: Seq<char>) -> bool {
    &&& is_dec_literal(s)
    &&& dec_lit_scale(s) <= MAX_SCALE
    &&& (if is_negative(s) {
        dec_lit_mag(s) <= 9_223_372_036_854_775_808int
    } else {
        dec_lit_mag(s) <= 9_223_372_036_854_775_807int
    })
}

/// The decimal a fitting literal denotes.
pub open spec fn dec_lit_val(s: Seq<char>) -> Dec {
    Dec {
        mant: (if is_negative(s) {
            -dec_lit_mag(s)
        } else {
            dec_lit_mag(s)
        }) as i64,
        scale: dec_lit_scale(s) as u32,
    }
}

/// Parses a decimal literal into an exact `Dec`: succeeds exactly on
/// literals whose significant digits fit the representation.
#[verifier::loop_isolation(true)]
pub fn parse_dec(s: &str) -> (r: Option<Dec>)
    ensures
        r is Some <==> dec_lit_fits(s@),
        r matches Some(d) ==> d == dec_lit_val(s@) && d.wf(),
{
    let n = s.unicode_len();
    if n == 0 {
        return Option::None;
    }
    let c0 = s.get_char(0);
    let neg = c0 == '-';
    let start: usize = if c0 == '-' || c0 == '+' {
        1
    } else {
        0
    };
    let b = s.substring_char(start, n);
    let ghost bv = num_body(s@);
    proof {
        assert(bv =~= b@);
    }
    let blen = n - start;
    let dotp: usize = match find_first2(b, '.', '.') {
        Option::Some(p) => p,
        Option::None => blen,
    };
    proof {
        lemma_first2_props(b@, '.', '.');
        assert(dotp == dec_dot(b@));
    }
    // count of digits must be positive
    if blen == 0 || (dotp < blen && blen == 1) {
        return Option::None;
    }
    // find the end of the significant fraction
    let mut sig_end: usize = blen;
    if dotp < blen {
        while sig_end > dotp + 1 && b.get_char(sig_end - 1) == '0'
            invariant
                dotp + 1 <= sig_end <= blen,
                blen == b@.len(),
                dotp < blen,
                forall|k: int| sig_end <= k < blen ==> #[trigger] b@[k] == '0',
            decreases sig_end,
        {
            sig_end = sig_end - 1;
        }
        proof {
            let f = b@.subrange(dotp + 1, blen as int);
            if sig_end == dotp + 1 {
                assert(forall|k: int| 0 <= k < f.len() ==> #[trigger] f[k] == '0');
                lemma_tz_all_zero(f);
            } else {
                let j = sig_end - (dotp + 1) - 1;
                assert(f[j] == b@[sig_end - 1]);
                assert(f[j] != '0');
                assert(forall|k: int| j < k < f.len() ==> #[trigger] f[k] == '0');
                lemma_tz_split(f, j);
            }
            assert(sig_frac(b@) =~= b@.subrange(dotp + 1, sig_end as int));
        }
    } else {
        proof {
            assert(sig_frac(b@) =~= Seq::<char>::empty());
        }
    }
    let ghost md = mant_digits(b@);
    proof {
        if dotp < blen {
            assert(md =~= b@.subrange(0, dotp as int) + b@.subrange(dotp + 1, sig_end as int));
        } else {
            assert(md =~= b@.subrange(0, blen as int));
        }
    }
    // accumulate the mantissa digits
    let mut acc: i128 = 0;
    let mut i: usize = 0;
    while i < blen
        invariant
            0 <= i <= blen,
            blen == b@.len(),
            num_body(s@) == b@,
            neg == is_negative(s@),
            blen > (if dotp < blen {
                1int
            } else {
                0int
            }),
            dotp == dec_dot(b@),
            dotp <= blen,
            dotp < blen ==> dotp + 1 <= sig_end <= blen,
            dotp == blen ==> sig_end == blen,
            dotp < blen ==> sig_frac(b@) =~= b@.subrange(dotp + 1, sig_end as int),
            dotp == blen ==> sig_frac(b@) =~= Seq::<char>::empty(),
            forall|k: int| sig_end <= k < blen ==> #[trigger] b@[k] == '0',
            md == mant_digits(b@),
            dotp < blen ==> md =~= b@.subrange(0, dotp as int) + b@.subrange(
                dotp + 1,
                sig_end as int,
            ),
            dotp == blen ==> md =~= b@.subrange(0, blen as int),
            forall|k: int| 0 <= k < i && k != dotp ==> is_digit_char(#[trigger] b@[k]),
            acc == digits_val(
                md.subrange(
                    0,
                    if i <= dotp {
                        i as int
                    } else if i <= sig_end {
                        i - 1
                    } else {
                        sig_end - 1
                    },
                ),
            ),
            0 <= acc <= 9_223_372_036_854_775_808i128,
        decreases blen - i,
    {
        let ghost prev = if i <= dotp {
            i as int
        } else if i <= sig_end {
            i - 1
        } else {
            sig_end - 1
        };
        if i == dotp {
            proof {
                assert(md.subrange(0, prev) == md.subrange(0, prev));
            }
            i = i + 1;
            continue;
        }
        let c = b.get_char(i);
        if !(c >= '0' && c <= '9') {
            proof {
                assert(!is_digit_char(b@[i as int]));
            }
            return Option::None;
        }
        if i >= sig_end {
            // a stripped trailing zero: contributes nothing
            proof {
                assert(b@[i as int] == '0');
            }
            i = i + 1;
            continue;
        }
        let d: i128 = (c as u32 as i128) - 48;
        let ghost cur = if i + 1 <= dotp {
            i + 1
        } else {
            i as int
        };
        proof {
            assert(md.subrange(0, cur).drop_last() =~= md.subrange(0, prev));
            assert(md.subrange(0, cur).last() == b@[i as int]);
        }
        acc = acc * 10 + d;
        i = i + 1;
        if acc > 9_223_372_036_854_775_808i128 {
            proof {
                if digits_with_opt_dot(b@) {
                    let cur2 = if i <= dotp {
                        i as int
                    } else if i <= sig_end {
                        i - 1
                    } else {
                        sig_end - 1
                    };
                    assert(all_digits(md)) by {
                        assert forall|k: int| 0 <= k < md.len() implies is_digit_char(
                            #[trigger] md[k],
                        ) by {
                            if k < dotp {
                                assert(md[k] == b@[k]);
                            } else {
                                assert(md[k] == b@[k + 1]);
                            }
                        }
                    }
                    lemma_digits_val_prefix(md, cur2);
                }
            }
            return Option::None;
        }
    }
    proof {
        let fin = if blen <= dotp {
            blen as int
        } else if blen <= sig_end {
            blen - 1
        } else {
            sig_end - 1
        };
        assert(md.subrange(0, fin) =~= md);
    }
    let scale64: usize = if dotp < blen {
        sig_end - dotp - 1
    } else {
        0
    };
    if scale64 > 18 {
        return Option::None;
    }
    let scale: u32 = scale64 as u32;
    if neg {
        if acc <= 9_223_372_036_854_775_808i128 {
            Option::Some(Dec { mant: (-acc) as i64, scale })
        } else {
            Option::None
        }
    } else {
        if acc <= 9_223_372_036_854_775_807i128 {
            Option::Some(Dec { mant: acc as i64, scale })
        } else {
            Option::None
        }
    }
}

/// The character spelling one decimal digit.
pub open spec fn digit_char(d: int) -> char {
    if d == 0 {
        '0'
    } else if d == 1 {
        '1'
    } else if d == 2 {
        '2'
    } else if d == 3 {
        '3'
    } else if d == 4 {
        '4'
    } else if d == 5 {
        '5'
    } else if d == 6 {
        '6'
    } else if d == 7 {
        '7'
    } else if d == 8 {
        '8'
    } else {
        '9'
    }
}

/// The decimal spelling of an unsigned number, no sign, no leading zeros.
pub open spec fn spec_u64_str(n: nat) -> Seq<char>
    decreases n,
{
    if n < 10 {
        seq![digit_char(n as int)]
    } else {
        spec_u64_str(n / 10) + seq![digit_char((n % 10) as int)]
    }
}

/// The decimal spelling of a signed number.
pub open spec fn spec_i64_str(n: int) -> Seq<char> {
    if n < 0 {
        seq!['-'] + spec_u64_str((-n) as nat)
    } else {
        spec_u64_str(n as nat)
    }
}

/// The digit character for `d`.
fn digit_str(d: u64) -> (r: &'static str)
    requires
        d < 10,
    ensures
        r@ =~= seq![digit_char(d as int)],
{
    proof {
        reveal_strlit("0");
        reveal_strlit("1");
        reveal_strlit("2");
        reveal_strlit("3");
        reveal_strlit("4");
        reveal_strlit("5");
        reveal_strlit("6");
        reveal_strlit("7");
        reveal_strlit("8");
        reveal_strlit("9");
    }
    match d {
        0 => "0",
        1 => "1",
        2 => "2",
        3 => "3",
        4 => "4",
        5 => "5",
        6 => "6",
        7 => "7",
        8 => "8",
        _ => "9",
    }
}

/// Spells an unsigned number in decimal.
pub fn render_u64(n: u64) -> (r: String)
    ensures
        r@ == spec_u64_str(n as nat),
    decreases n,
{
    if n < 10 {
        String::from_str(digit_str(n))
    } else {
        let mut s = render_u64(n / 10);
        s.append(digit_str(n % 10));
        proof {
            assert(s@ =~= spec_u64_str(n as nat));
        }
        s
    }
}

/// Spells a signed number in decimal.
pub fn render_i64(n: i64) -> (r: String)
    ensures
        r@ == spec_i64_str(n as int),
{
    if n >= 0 {
        render_u64(n as u64)
    } else {
        let mag: u64 = (-(n as i128)) as u64;
        let mut s = String::from_str("-");
        s.append(render_u64(mag).as_str());
        proof {
            reveal_strlit("-");
            assert("-"@ =~= seq!['-']);
            assert(s@ =~= spec_i64_str(n as int));
        }
        s
    }
}

/// The decimal spelling of a [`Dec`]: the mantissa's digits with the
/// decimal point placed `scale` digits from the right, an integral value
/// spelt without a point.
pub open spec fn spec_dec_str(d: Dec) -> Seq<char> {
    let mag = (if d.mant < 0 {
        -(d.mant as int)
    } else {
        d.mant as int
    }) as nat;
    let ds = spec_u64_str(mag);
    let sign: Seq<char> = if d.mant < 0 {
        seq!['-']
    } else {
        Seq::empty()
    };
    if d.scale == 0 {
        sign + ds
    } else if ds.len() > d.scale {
        sign + ds.subrange(0, ds.len() - d.scale) + seq!['.'] + ds.subrange(
            ds.len() - d.scale,
            ds.len() as int,
        )
    } else {
        sign + seq!['0', '.'] + Seq::new((d.scale - ds.len()) as nat, |i: int| '0') + ds
    }
}

/// The spelling of a number holds at least one digit.
pub proof fn lemma_u64_str_len(n: nat)
    ensures
        spec_u64_str(n).len() >= 1,
    decreases n,
{
    if n >= 10 {
        lemma_u64_str_len(n / 10);
    }
}

/// Spells a decimal number.
pub fn render_dec(d: &Dec) -> (r: String)
    ensures
        r@ == spec_dec_str(*d),
{
    let mag: u64 = if d.mant < 0 {
        (-(d.mant as i128)) as u64
    } else {
        d.mant as u64
    };
    let ds = render_u64(mag);
    let sign: &'static str = if d.mant < 0 {
        "-"
    } else {
        ""
    };
    proof {
        reveal_strlit("-");
        reveal_strlit("");
        assert("-"@ =~= seq!['-']);
        assert(""@ =~= Seq::<char>::empty());
    }
    if d.scale == 0 {
        let mut s = String::from_str(sign);
        s.append(ds.as_str());
        proof {
            assert(s@ =~= spec_dec_str(*d));
        }
        s
    } else {
        let dl = ds.as_str().unicode_len();
        proof {
            lemma_u64_str_len(mag as nat);
        }
        if dl > d.scale as usize {
            let cut = dl - d.scale as usize;
            let mut s = String::from_str(sign);
            s.append(ds.as_str().substring_char(0, cut));
            s.append(".");
            s.append(ds.as_str().substring_char(cut, dl));
            proof {
                reveal_strlit(".");
                assert("."@ =~= seq!['.']);
                assert(s@ =~= spec_dec_str(*d));
            }
            s
        } else {
            proof {
                reveal_strlit("0.");
                assert("0."@ =~= seq!['0', '.']);
            }
            let mut s = String::from_str(sign);
            s.append("0.");
            let zeros = d.scale as usize - dl;
            let mut k: usize = 0;
            while k < zeros
                invariant
                    0 <= k <= zeros,
                    s@ =~= (if d.mant < 0 {
                        seq!['-']
                    } else {
                        Seq::<char>::empty()
                    }) + seq!['0', '.'] + Seq::new(k as nat, |i: int| '0'),
                decreases zeros - k,
            {
                s.append("0");
                proof {
                    reveal_strlit("0");
                    assert("0"@ =~= seq!['0']);
                    assert(Seq::new((k + 1) as nat, |i: int| '0') =~= Seq::new(
                        k as nat,
                        |i: int| '0',
                    ).push('0'));
                    assert(s@ =~= (if d.mant < 0 {
                        seq!['-']
                    } else {
                        Seq::<char>::empty()
                    }) + seq!['0', '.'] + Seq::new((k + 1) as nat, |i: int| '0'));
                }
                k = k + 1;
            }
            s.append(ds.as_str());
            proof {
                reveal_strlit("0.");
                assert("0."@ =~= seq!['0', '.']);
                assert(s@ =~= spec_dec_str(*d));
            }
            s
        }
    }
}

/// ASCII case-insensitive match of one character against a lower-case
/// template character.
pub open spec fn eq_ci_char(c: char, lower: char) -> bool {
    c == lower || ('A' <= c && c <= 'Z' && c as int + 32 == lower as int)
}

/// ASCII case-insensitive equality of `s` against a lower-case template.
pub open spec fn eq_ci(s: Seq<char>, lower: Seq<char>) -> bool {
    s.len() == lower.len() && forall|k: int| 0 <= k < s.len() ==> eq_ci_char(
        #[trigger] s[k],
        lower[k],
    )
}

/// Whether `prefix` starts `s`.
pub fn str_starts_with(s: &str, prefix: &str) -> (r: bool)
    ensures
        r == prefix@.is_prefix_of(s@),
{
    let n = s.unicode_len();
    let m = prefix.unicode_len();
    if m > n {
        return false;
    }
    let mut i: usize = 0;
    while i < m
        invariant
            0 <= i <= m,
            m <= n,
            n == s@.len(),
            m == prefix@.len(),
            forall|k: int| 0 <= k < i ==> s@[k] == prefix@[k],
        decreases m - i,
    {
        if s.get_char(i) != prefix.get_char(i) {
            proof {
                assert(!prefix@.is_prefix_of(s@)) by {
                    assert(s@.subrange(0, m as int)[i as int] != prefix@[i as int]);
                }
            }
            return false;
        }
        i = i + 1;
    }
    proof {
        assert(prefix@ =~= s@.subrange(0, m as int));
    }
    true
}

/// Character-for-character equality of two string slices.
pub fn str_eq(a: &str, b: &str) -> (r: bool)
    ensures
        r == (a@ == b@),
{
    let n = a.unicode_len();
    let m = b.unicode_len();
    if n != m {
        return false;
    }
    let mut i: usize = 0;
    while i < n
        invariant
            0 <= i <= n,
            n == a@.len(),
            n == b@.len(),
            forall|k: int| 0 <= k < i ==> a@[k] == b@[k],
        decreases n - i,
    {
        if a.get_char(i) != b.get_char(i) {
            return false;
        }
        i = i + 1;
    }
    proof {
        assert(a@ =~= b@);
    }
    true
}

/// Whether `s` equals the lower-case string `lower`, ignoring ASCII case.
pub fn str_eq_ci(s: &str, lower: &str) -> (r: bool)
    ensures
        r == eq_ci(s@, lower@),
{
    let n = s.unicode_len();
    let m = lower.unicode_len();
    if n != m {
        return false;
    }
    let mut i: usize = 0;
    while i < n
        invariant
            0 <= i <= n,
            n == s@.len(),
            n == lower@.len(),
            forall|k: int| 0 <= k < i ==> eq_ci_char(#[trigger] s@[k], lower@[k]),
        decreases n - i,
    {
        let c = s.get_char(i);
        let l = lower.get_char(i);
        if !(c == l || (c >= 'A' && c <= 'Z' && (c as u32) + 32 == (l as u32))) {
            proof {
                assert(!eq_ci_char(s@[i as int], lower@[i as int]));
            }
            return false;
        }
        i = i + 1;
    }
    true
}

/// A boolean wire value: `true` or `false` in any ASCII case.
pub open spec fn is_bool_literal(s: Seq<char>) -> bool {
    eq_ci(s, seq!['t', 'r', 'u', 'e']) || eq_ci(s, seq!['f', 'a', 'l', 's', 'e'])
}

/// The value a boolean wire value denotes.
pub open spec fn bool_literal_val(s: Seq<char>) -> bool {
    eq_ci(s, seq!['t', 'r', 'u', 'e'])
}

/// Recognises `true`/`false` ignoring ASCII case.
pub fn parse_bool_ci(s: &str) -> (r: Option<bool>)
    ensures
        r is Some <==> is_bool_literal(s@),
        r matches Some(v) ==> v == bool_literal_val(s@),
{
    proof {
        reveal_strlit("true");
        reveal_strlit("false");
        assert("true"@ =~= seq!['t', 'r', 'u', 'e']);
        assert("false"@ =~= seq!['f', 'a', 'l', 's', 'e']);
    }
    if str_eq_ci(s, "true") {
        Option::Some(true)
    } else if str_eq_ci(s, "false") {
        Option::Some(false)
    } else {
        Option::None
    }
}

/// Position of the first exponent marker (`e` or `E`) of a literal body,
/// or its length when none occurs.
pub open spec fn exp_idx(b: Seq<char>) -> int {
    match first2(b, 'e', 'E') {
        Option::Some(p) => p,
        Option::None => b.len() as int,
    }
}

/// A float literal as `f64::from_str` reads it: an optional sign, then
/// either a case-insensitive `inf`, `infinity` or `nan`, or mantissa digits
/// with at most one point, optionally followed by an exponent part.
pub open spec fn is_float_literal(s: Seq<char>) -> bool {
    let b = num_body(s);
    ||| eq_ci(b, seq!['i', 'n', 'f'])
    ||| eq_ci(b, seq!['i', 'n', 'f', 'i', 'n', 'i', 't', 'y'])
    ||| eq_ci(b, seq!['n', 'a', 'n'])
    ||| {
        let e = exp_idx(b);
        &&& digits_with_opt_dot(b.subrange(0, e))
        &&& (e == b.len() || is_int_literal(b.subrange(e + 1, b.len() as int)))
    }
}

/// Whether `s` would parse as a 64-bit float; only the shape is decided,
/// not the value.
pub fn is_float_syntax(s: &str) -> (r: bool)
    ensures
        r == is_float_literal(s@),
{
    let n = s.unicode_len();
    if n == 0 {
        return false;
    }
    let c0 = s.get_char(0);
    let start: usize = if c0 == '-' || c0 == '+' {
        1
    } else {
        0
    };
    let b = s.substring_char(start, n);
    proof {
        assert(num_body(s@) =~= b@);
        reveal_strlit("inf");
        reveal_strlit("infinity");
        reveal_strlit("nan");
        assert("inf"@ =~= seq!['i', 'n', 'f']);
        assert("infinity"@ =~= seq!['i', 'n', 'f', 'i', 'n', 'i', 't', 'y']);
        assert("nan"@ =~= seq!['n', 'a', 'n']);
    }
    if str_eq_ci(b, "inf") || str_eq_ci(b, "infinity") || str_eq_ci(b, "nan") {
        return true;
    }
    let blen = n - start;
    let e: usize = match find_first2(b, 'e', 'E') {
        Option::Some(p) => p,
        Option::None => blen,
    };
    proof {
        lemma_first2_props(b@, 'e', 'E');
        assert(e == exp_idx(b@));
    }
    let m = b.substring_char(0, e);
    proof {
        assert(m@ =~= b@.subrange(0, e as int));
    }
    if !digits_opt_dot_check(m) {
        return false;
    }
    if e == blen {
        return true;
    }
    let x = b.substring_char(e + 1, blen);
    proof {
        assert(x@ =~= b@.subrange(e + 1, blen as int));
    }
    int_shape_check(x)
}

/// Whether `m` is one or more digits with at most one point among them.
fn digits_opt_dot_check(m: &str) -> (r: bool)
    ensures
        r == digits_with_opt_dot(m@),
{
    let n = m.unicode_len();
    let dotp: usize = match find_first2(m, '.', '.') {
        Option::Some(p) => p,
        Option::None => n,
    };
    proof {
        lemma_first2_props(m@, '.', '.');
        assert(dotp == dec_dot(m@));
    }
    if n == 0 || (dotp < n && n == 1) {
        return false;
    }
    let mut i: usize = 0;
    while i < n
        invariant
            0 <= i <= n,
            n == m@.len(),
            dotp == dec_dot(m@),
            dotp <= n,
            n > (if dotp < n {
                1int
            } else {
                0int
            }),
            forall|k: int| 0 <= k < i && k != dotp ==> is_digit_char(#[trigger] m@[k]),
        decreases n - i,
    {
        if i != dotp {
            let c = m.get_char(i);
            if !(c >= '0' && c <= '9') {
                proof {
                    assert(!is_digit_char(m@[i as int]));
                }
                return false;
            }
        }
        i = i + 1;
    }
    true
}

/// Whether `x` is an optional sign followed by one or more digits.
fn int_shape_check(x: &str) -> (r: bool)
    ensures
        r == is_int_literal(x@),
{
    let n = x.unicode_len();
    if n == 0 {
        return false;
    }
    let c0 = x.get_char(0);
    let start: usize = if c0 == '-' || c0 == '+' {
        1
    } else {
        0
    };
    if start == n {
        return false;
    }
    let ghost body = num_body(x@);
    proof {
        assert(body =~= x@.subrange(start as int, n as int));
    }
    let mut i: usize = start;
    while i < n
        invariant
            start <= i <= n,
            n == x@.len(),
            start == sign_len(x@),
            body == num_body(x@),
            body =~= x@.subrange(start as int, n as int),
            forall|k: int| start <= k < i ==> is_digit_char(#[trigger] x@[k]),
        decreases n - i,
    {
        let c = x.get_char(i);
        if !(c >= '0' && c <= '9') {
            proof {
                assert(!is_digit_char(body[i - start]));
            }
            return false;
        }
        i = i + 1;
    }
    proof {
        assert forall|k: int| 0 <= k < body.len() implies is_digit_char(#[trigger] body[k]) by {
            assert(body[k] == x@[k + start]);
        }
    }
    true
}

} // verus!
