//! The format checker.
//!
//! A format refines a string type. Seven formats have checkers: email,
//! date, time, date-time and uuid through outside crates, the two IP
//! address forms natively. Any other declared format fails closed with an
//! unsupported-format error rather than silently passing.

use vstd::prelude::*;
use vstd::string::{StrSliceExecFns, StringExecFns};
use crate::errors::{res_ev, ErrV, ValidationError};
use crate::json::Json;
use crate::model::Format;
use crate::text::{
    all_digits, digits_val, find_first2, first2, is_digit_char, lemma_digits_val_prefix,
    lemma_digits_val_ub, lemma_first2_props,
};
use crate::trusted::{
    date_ok, datetime_ok, email_ok, is_date, is_datetime, is_email, is_uuid, time_ok, uuid_ok,
    is_time,
};

verus! {

broadcast use vstd::std_specs::vec::group_vec_axioms, vstd::seq::group_seq_axioms;

/// The pieces of `s` between occurrences of `sep`; one piece more than
/// there are separators.
pub open spec fn split_at_char(s: Seq<char>, sep: char) -> Seq<Seq<char>>
    decreases s.len(),
{
    match first2(s, sep, sep) {
        Option::None => seq![s],
        Option::Some(p) => if 0 <= p < s.len() {
            seq![s.subrange(0, p)] + split_at_char(s.subrange(p + 1, s.len() as int), sep)
        } else {
            seq![s]
        },
    }
}

/// Splits `s` at every occurrence of `sep`.
pub fn split_str(s: &str, sep: char) -> (r: Vec<String>)
    ensures
        r@.len() == split_at_char(s@, sep).len(),
        forall|i: int| 0 <= i < r@.len() ==> (#[trigger] r@[i])@ == split_at_char(s@, sep)[i],
    decreases s@.len(),
{
    match find_first2(s, sep, sep) {
        Option::None => {
            let mut v: Vec<String> = Vec::new();
            v.push(String::from_str(s));
            v
        },
        Option::Some(p) => {
            proof {
                lemma_first2_props(s@, sep, sep);
            }
            let n = s.unicode_len();
            let head = String::from_str(s.substring_char(0, p));
            let tail = s.substring_char(p + 1, n);
            let mut rest = split_str(tail, sep);
            rest.insert(0, head);
            proof {
                let whole = split_at_char(s@, sep);
                assert(whole =~= seq![s@.subrange(0, p as int)] + split_at_char(tail@, sep));
                assert forall|i: int| 0 <= i < rest@.len() implies (#[trigger] rest@[i])@
                    == whole[i] by {
                    if i > 0 {
                        assert(rest@[i] == rest@.subrange(1, rest@.len() as int)[i - 1]);
                    }
                }
            }
            rest
        },
    }
}

/// One octet of a dotted quad: one to three digits, no surplus leading
/// zero, value at most 255.
pub open spec fn is_octet(t: Seq<char>) -> bool {
    &&& 1 <= t.len() <= 3
    &&& all_digits(t)
    &&& digits_val(t) <= 255
    &&& (t.len() > 1 ==> t[0] != '0')
}

/// An IPv4 address in dotted-quad text form, as `1.2.3.4`.
pub open spec fn is_ipv4_text(s: Seq<char>) -> bool {
    let ps = split_at_char(s, '.');
    ps.len() == 4 && forall|i: int| 0 <= i < 4 ==> is_octet(#[trigger] ps[i])
}

/// Whether one split piece is an octet.
fn octet_check(t: &String) -> (r: bool)
    ensures
        r == is_octet(t@),
{
    let n = t.as_str().unicode_len();
    if n < 1 || n > 3 {
        return false;
    }
    let mut i: usize = 0;
    let mut val: u32 = 0;
    while i < n
        invariant
            0 <= i <= n,
            n == t@.len(),
            n <= 3,
            forall|k: int| 0 <= k < i ==> is_digit_char(#[trigger] t@[k]),
            val == digits_val(t@.subrange(0, i as int)),
            val <= 999,
        decreases n - i,
    {
        let c = t.as_str().get_char(i);
        if !(c >= '0' && c <= '9') {
            proof {
                assert(!is_digit_char(t@[i as int]));
            }
            return false;
        }
        proof {
            assert(t@.subrange(0, i + 1 as int).drop_last() =~= t@.subrange(0, i as int));
            lemma_digits_val_prefix(t@.subrange(0, i + 1 as int), i as int);
            lemma_digits_val_ub(t@.subrange(0, i + 1 as int));
            reveal_with_fuel(crate::num::pow10, 4);
        }
        val = val * 10 + ((c as u32) - 48);
        i = i + 1;
    }
    proof {
        assert(t@.subrange(0, n as int) =~= t@);
    }
    if val > 255 {
        return false;
    }
    if n > 1 && t.as_str().get_char(0) == '0' {
        return false;
    }
    true
}

/// Whether `s` is an IPv4 address in dotted-quad form.
pub fn is_ipv4(s: &str) -> (r: bool)
    ensures
        r == is_ipv4_text(s@),
{
    let parts = split_str(s, '.');
    if parts.len() != 4 {
        return false;
    }
    let mut i: usize = 0;
    while i < 4
        invariant
            0 <= i <= 4,
            parts@.len() == 4,
            split_at_char(s@, '.').len() == 4,
            forall|k: int| 0 <= k < 4 ==> (#[trigger] parts@[k])@ == split_at_char(s@, '.')[k],
            forall|k: int| 0 <= k < i ==> is_octet(#[trigger] split_at_char(s@, '.')[k]),
        decreases 4 - i,
    {
        if !octet_check(&parts[i]) {
            return false;
        }
        i = i + 1;
    }
    true
}

/// An ASCII hexadecimal digit.
pub open spec fn is_hex_char(c: char) -> bool {
    ('0' <= c && c <= '9') || ('a' <= c && c <= 'f') || ('A' <= c && c <= 'F')
}

/// One group of an IPv6 address: one to four hexadecimal digits.
pub open spec fn is_group(t: Seq<char>) -> bool {
    1 <= t.len() <= 4 && forall|k: int| 0 <= k < t.len() ==> is_hex_char(#[trigger] t[k])
}

/// How many pieces are empty.
pub open spec fn count_empty(ps: Seq<Seq<char>>) -> int
    decreases ps.len(),
{
    if ps.len() == 0 {
        0
    } else {
        (if ps[0].len() == 0 {
            1int
        } else {
            0int
        }) + count_empty(ps.drop_first())
    }
}

/// The position of the first empty piece.
pub open spec fn first_empty(ps: Seq<Seq<char>>) -> Option<int>
    decreases ps.len(),
{
    if ps.len() == 0 {
        Option::None
    } else if ps[0].len() == 0 {
        Option::Some(0)
    } else {
        match first_empty(ps.drop_first()) {
            Option::Some(i) => Option::Some(i + 1),
            Option::None => Option::None,
        }
    }
}

/// Every piece is a hexadecimal group.
pub open spec fn all_groups(ps: Seq<Seq<char>>) -> bool {
    forall|i: int| 0 <= i < ps.len() ==> is_group(#[trigger] ps[i])
}

/// Every piece is a group, except that the last may instead be an IPv4
/// dotted quad.
pub open spec fn groups_opt_ip4(ps: Seq<Seq<char>>) -> bool {
    &&& (forall|i: int| 0 <= i < ps.len() - 1 ==> is_group(#[trigger] ps[i]))
    &&& (ps.len() > 0 ==> is_group(ps.last()) || is_ipv4_text(ps.last()))
}

/// How many 16-bit groups the pieces stand for: an IPv4 tail counts two.
pub open spec fn group_units(ps: Seq<Seq<char>>) -> int {
    ps.len() + (if ps.len() > 0 && is_ipv4_text(ps.last()) {
        1int
    } else {
        0int
    })
}

/// An IPv6 address in text form: colon-separated hexadecimal groups, at
/// most one `::` standing for a run of zero groups, optionally an IPv4
/// dotted quad as the last two groups; eight groups without `::`, at most
/// seven with it.
pub open spec fn is_ipv6_text(s: Seq<char>) -> bool {
    let ps = split_at_char(s, ':');
    let n = ps.len() as int;
    let c = count_empty(ps);
    if c == 0 {
        groups_opt_ip4(ps) && group_units(ps) == 8
    } else if c == 1 {
        match first_empty(ps) {
            Option::Some(e) => {
                &&& 0 < e < n - 1
                &&& all_groups(ps.subrange(0, e))
                &&& groups_opt_ip4(ps.subrange(e + 1, n))
                &&& e + group_units(ps.subrange(e + 1, n)) <= 7
            },
            Option::None => false,
        }
    } else if c == 2 {
        match first_empty(ps) {
            Option::Some(e) => {
                ||| {
                    &&& e == 0
                    &&& n >= 3
                    &&& ps[1].len() == 0
                    &&& groups_opt_ip4(ps.subrange(2, n))
                    &&& group_units(ps.subrange(2, n)) <= 7
                }
                ||| {
                    &&& e == n - 2
                    &&& n >= 3
                    &&& ps[n - 1].len() == 0
                    &&& all_groups(ps.subrange(0, n - 2))
                    &&& n - 2 <= 7
                }
            },
            Option::None => false,
        }
    } else {
        c == 3 && n == 3
    }
}

/// Whether one split piece is a hexadecimal group.
fn group_check(t: &String) -> (r: bool)
    ensures
        r == is_group(t@),
{
    let n = t.as_str().unicode_len();
    if n < 1 || n > 4 {
        return false;
    }
    let mut i: usize = 0;
    while i < n
        invariant
            0 <= i <= n,
            n == t@.len(),
            forall|k: int| 0 <= k < i ==> is_hex_char(#[trigger] t@[k]),
        decreases n - i,
    {
        let c = t.as_str().get_char(i);
        if !((c >= '0' && c <= '9') || (c >= 'a' && c <= 'f') || (c >= 'A' && c <= 'F')) {
            proof {
                assert(!is_hex_char(t@[i as int]));
            }
            return false;
        }
        i = i + 1;
    }
    true
}

/// Whether the pieces in `[from, to)` are all groups.
fn groups_range_check(parts: &Vec<String>, from: usize, to: usize) -> (r: bool)
    requires
        from <= to <= parts@.len(),
    ensures
        r == (forall|i: int| from <= i < to ==> is_group((#[trigger] parts@[i])@)),
{
    let mut i: usize = from;
    while i < to
        invariant
            from <= i <= to,
            to <= parts@.len(),
            forall|k: int| from <= k < i ==> is_group((#[trigger] parts@[k])@),
        decreases to - i,
    {
        if !group_check(&parts[i]) {
            return false;
        }
        i = i + 1;
    }
    true
}

/// Whether `s` is an IPv6 address in text form.
pub fn is_ipv6(s: &str) -> (r: bool)
    ensures
        r == is_ipv6_text(s@),
{
    let parts = split_str(s, ':');
    let ghost ps = split_at_char(s@, ':');
    let n = parts.len();
    // count the empty pieces and find the first
    let mut c: usize = 0;
    let mut e: usize = n;
    let mut i: usize = 0;
    while i < n
        invariant
            0 <= i <= n,
            n == parts@.len(),
            n == ps.len(),
            forall|k: int| 0 <= k < n ==> (#[trigger] parts@[k])@ == ps[k],
            c == count_empty(ps.subrange(0, i as int)),
            c <= i,
            match first_empty(ps.subrange(0, i as int)) {
                Option::Some(p) => e == p,
                Option::None => e == n,
            },
        decreases n - i,
    {
        proof {
            lemma_empty_step(ps, i as int);
            lemma_count_first(ps.subrange(0, i as int));
        }
        if parts[i].as_str().unicode_len() == 0 {
            if c == 0 {
                e = i;
            }
            c = c + 1;
        }
        i = i + 1;
    }
    proof {
        assert(ps.subrange(0, n as int) =~= ps);
    }
    if c == 0 {
        if n < 1 || n > 8 {
            return false;
        }
        if !groups_range_check(&parts, 0, n - 1) {
            proof {
                assert(!groups_opt_ip4(ps)) by {
                    let bad = choose|i: int| 0 <= i < n - 1 && !is_group((#[trigger] parts@[i])@);
                    assert(ps[bad] == parts@[bad]@);
                }
            }
            return false;
        }
        let last_group = group_check(&parts[n - 1]);
        let last_ip4 = is_ipv4(parts[n - 1].as_str());
        proof {
            assert(ps.last() == parts@[n - 1]@);
            assert forall|i: int| 0 <= i < n - 1 implies is_group(#[trigger] ps[i]) by {
                assert(ps[i] == (parts@[i])@);
            }
        }
        if !(last_group || last_ip4) {
            return false;
        }
        let units: usize = n + (if last_ip4 {
            1
        } else {
            0
        });
        units == 8
    } else if c == 1 {
        if !(0 < e && e < n - 1) {
            return false;
        }
        if !groups_range_check(&parts, 0, e) {
            proof {
                let bad = choose|i: int| 0 <= i < e && !is_group((#[trigger] parts@[i])@);
                assert(ps.subrange(0, e as int)[bad] == ps[bad]);
                assert(!all_groups(ps.subrange(0, e as int)));
            }
            return false;
        }
        let ghost head = ps.subrange(0, e as int);
        let ghost tail = ps.subrange(e + 1, n as int);
        proof {
            assert forall|i: int| 0 <= i < head.len() implies is_group(#[trigger] head[i]) by {
                assert(head[i] == ps[i]);
                assert(ps[i] == (parts@[i])@);
            }
        }
        if !groups_range_check(&parts, e + 1, n - 1) {
            proof {
                assert(!groups_opt_ip4(tail)) by {
                    let bad = choose|i: int|
                        e + 1 <= i < n - 1 && !is_group((#[trigger] parts@[i])@);
                    assert(tail[bad - e - 1] == ps[bad]);
                }
            }
            return false;
        }
        let last_group = group_check(&parts[n - 1]);
        let last_ip4 = is_ipv4(parts[n - 1].as_str());
        proof {
            assert(tail.last() == ps[n - 1]);
            assert forall|i: int| 0 <= i < tail.len() - 1 implies is_group(
                #[trigger] tail[i],
            ) by {
                assert(tail[i] == ps[e + 1 + i]);
                assert(ps[e + 1 + i] == (parts@[e + 1 + i])@);
            }
        }
        if !(last_group || last_ip4) {
            return false;
        }
        let units: usize = (n - e - 1) + (if last_ip4 {
            1
        } else {
            0
        });
        if e > 7 || units > 7 {
            return false;
        }
        e + units <= 7
    } else if c == 2 {
        if e == 0 && n >= 3 && parts[1].as_str().unicode_len() == 0 {
            let ghost tail = ps.subrange(2, n as int);
            if !groups_range_check(&parts, 2, n - 1) {
                proof {
                    assert(!groups_opt_ip4(tail)) by {
                        let bad = choose|i: int|
                            2 <= i < n - 1 && !is_group((#[trigger] parts@[i])@);
                        assert(tail[bad - 2] == ps[bad]);
                    }
                }
                return false;
            }
            let last_group = group_check(&parts[n - 1]);
            let last_ip4 = is_ipv4(parts[n - 1].as_str());
            proof {
                assert(tail.last() == ps[n - 1]);
                assert forall|i: int| 0 <= i < tail.len() - 1 implies is_group(
                    #[trigger] tail[i],
                ) by {
                    assert(tail[i] == ps[2 + i]);
                    assert(ps[2 + i] == (parts@[2 + i])@);
                }
            }
            if !(last_group || last_ip4) {
                return false;
            }
            let units: usize = (n - 2) + (if last_ip4 {
                1
            } else {
                0
            });
            units <= 7
        } else if n >= 3 && e == n - 2 && parts[n - 1].as_str().unicode_len() == 0 {
            let ghost head = ps.subrange(0, n - 2);
            if !groups_range_check(&parts, 0, n - 2) {
                proof {
                    assert(!all_groups(head)) by {
                        let bad = choose|i: int| 0 <= i < n - 2 && !is_group(
                            (#[trigger] parts@[i])@,
                        );
                        assert(head[bad] == ps[bad]);
                    }
                }
                return false;
            }
            proof {
                assert forall|i: int| 0 <= i < head.len() implies is_group(
                    #[trigger] head[i],
                ) by {
                    assert(head[i] == ps[i]);
                    assert(ps[i] == (parts@[i])@);
                }
            }
            n - 2 <= 7
        } else {
            false
        }
    } else {
        c == 3 && n == 3
    }
}

/// A piece list has an empty piece exactly when its empty count is
/// positive.
proof fn lemma_count_first(ps: Seq<Seq<char>>)
    ensures
        (count_empty(ps) == 0) <==> (first_empty(ps) is None),
        count_empty(ps) >= 0,
    decreases ps.len(),
{
    if ps.len() > 0 {
        lemma_count_first(ps.drop_first());
    }
}

proof fn lemma_empty_step(ps: Seq<Seq<char>>, i: int)
    requires
        0 <= i < ps.len(),
    ensures
        count_empty(ps.subrange(0, i + 1)) == count_empty(ps.subrange(0, i)) + (if ps[i].len()
            == 0 {
            1int
        } else {
            0int
        }),
        first_empty(ps.subrange(0, i + 1)) == (if first_empty(ps.subrange(0, i)) is Some {
            first_empty(ps.subrange(0, i))
        } else if ps[i].len() == 0 {
            Option::Some(i)
        } else {
            Option::<int>::None
        }),
{
    lemma_empty_append(ps.subrange(0, i), ps[i]);
    assert(ps.subrange(0, i + 1) =~= ps.subrange(0, i).push(ps[i]));
}

proof fn lemma_empty_append(ps: Seq<Seq<char>>, x: Seq<char>)
    ensures
        count_empty(ps.push(x)) == count_empty(ps) + (if x.len() == 0 {
            1int
        } else {
            0int
        }),
        first_empty(ps.push(x)) == (if first_empty(ps) is Some {
            first_empty(ps)
        } else if x.len() == 0 {
            Option::Some(ps.len() as int)
        } else {
            Option::<int>::None
        }),
    decreases ps.len(),
{
    reveal_with_fuel(count_empty, 3);
    reveal_with_fuel(first_empty, 3);
    if ps.len() == 0 {
        assert(ps.push(x)[0] == x);
        assert(ps.push(x).drop_first() =~= Seq::<Seq<char>>::empty());
    } else {
        lemma_empty_append(ps.drop_first(), x);
        assert(ps.push(x)[0] == ps[0]);
        assert(ps.push(x).drop_first() =~= ps.drop_first().push(x));
    }
}

/// What the format checker decides for `v` against `fmt`: strings are
/// tested against the recognised formats, a recognised-but-uncheckable
/// format fails closed, a missing format passes, and any non-string value
/// is rejected outright.
pub open spec fn spec_check_format(name: Seq<char>, v: Json, fmt: Option<Format>) -> Result<
    (),
    ErrV,
> {
    match v {
        Json::Str(s) => match fmt {
            Option::None => Result::Ok(()),
            Option::Some(f) => {
                let pass = match f {
                    Format::Email => email_ok(s@),
                    Format::Time => time_ok(s@),
                    Format::Date => date_ok(s@),
                    Format::DateTime => datetime_ok(s@),
                    Format::UUID => uuid_ok(s@),
                    Format::IPV4 => is_ipv4_text(s@),
                    Format::IPV6 => is_ipv6_text(s@),
                    _ => false,
                };
                let supported = match f {
                    Format::Email
                    | Format::Time
                    | Format::Date
                    | Format::DateTime
                    | Format::UUID
                    | Format::IPV4
                    | Format::IPV6 => true,
                    _ => false,
                };
                if !supported {
                    Result::Err(ErrV::UnsupportedFormat { format: f, name })
                } else if pass {
                    Result::Ok(())
                } else {
                    Result::Err(ErrV::FormatViolation { format: f, name, value: s@ })
                }
            },
        },
        _ => Result::Err(ErrV::NotAString { name }),
    }
}

/// Checks a value against a declared format; `Ok` exactly when
/// [`spec_check_format`] passes it.
pub fn check_format(name: &String, v: &Json, fmt: Option<&Format>) -> (r: Result<
    (),
    ValidationError,
>)
    ensures
        res_ev(r) == spec_check_format(
            name@,
            *v,
            match fmt {
                Option::Some(f) => Option::Some(*f),
                Option::None => Option::<Format>::None,
            },
        ),
{
    let s: &String = match v {
        Json::Str(s) => s,
        _ => {
            return Result::Err(ValidationError::NotAString { name: name.clone() });
        },
    };
    let f: Format = match fmt {
        Option::None => {
            return Result::Ok(());
        },
        Option::Some(f) => *f,
    };
    let pass: bool = match f {
        Format::Email => is_email(s.as_str()),
        Format::Time => is_time(s.as_str()),
        Format::Date => is_date(s.as_str()),
        Format::DateTime => is_datetime(s.as_str()),
        Format::UUID => is_uuid(s.as_str()),
        Format::IPV4 => is_ipv4(s.as_str()),
        Format::IPV6 => is_ipv6(s.as_str()),
        _ => {
            return Result::Err(ValidationError::UnsupportedFormat { format: f, name: name.clone() });
        },
    };
    if pass {
        Result::Ok(())
    } else {
        Result::Err(
            ValidationError::FormatViolation { format: f, name: name.clone(), value: s.clone() },
        )
    }
}

} // verus!
