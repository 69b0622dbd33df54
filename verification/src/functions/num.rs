//! Numeric conversion and the arithmetic builtins.
//!
//! Strings are converted to 64-bit signed integers by taking the longest
//! numeric prefix after leading whitespace; see [`to_int`]. All arithmetic
//! builtins use checked 64-bit arithmetic and report `Error::OutOfRange` on
//! overflow.

use vstd::prelude::*;
use crate::strutil::{chars_of, string_from_chars, char_is_whitespace, is_unicode_whitespace};
use crate::types::{Error, SpecError, str_res_matches};
use crate::environment::{Value, SpecValue, val_res_matches};

verus! {

/// Whether `c` is an ASCII decimal digit.
pub open spec fn is_dec_digit(c: char) -> bool {
    48 <= (c as u32) <= 57
}

/// The numeric value of an ASCII decimal digit.
pub open spec fn dec_digit_val(c: char) -> int {
    (c as u32) - 48
}

/// The first index at or after `i` whose character is not Unicode whitespace.
pub open spec fn spec_skip_ws(s: Seq<char>, i: int) -> int
    decreases s.len() - i,
{
    if 0 <= i < s.len() && is_unicode_whitespace(s[i]) {
        spec_skip_ws(s, i + 1)
    } else {
        i
    }
}

/// The first index at or after `i` whose character is not a decimal digit.
pub open spec fn spec_digit_end(s: Seq<char>, i: int) -> int
    decreases s.len() - i,
{
    if 0 <= i < s.len() && is_dec_digit(s[i]) {
        spec_digit_end(s, i + 1)
    } else {
        i
    }
}

/// The value of the digits of `s` in positions `i` up to `e`, appended to the
/// accumulator `acc`.
pub open spec fn spec_dec_val(s: Seq<char>, i: int, e: int, acc: int) -> int
    decreases e - i,
{
    if 0 <= i < e && i < s.len() {
        spec_dec_val(s, i + 1, e, acc * 10 + dec_digit_val(s[i]))
    } else {
        acc
    }
}

/// The integer clamped into the 64-bit signed range.
pub open spec fn clamp_i64(v: int) -> int {
    if v < i64::MIN {
        i64::MIN as int
    } else if v > i64::MAX {
        i64::MAX as int
    } else {
        v
    }
}

/// The numeric value of a string: leading whitespace is skipped, one `-`
/// directly before the first digit negates, and the longest run of decimal
/// digits is read; no digits means zero. A value beyond the 64-bit signed
/// range saturates to the nearest bound.
pub open spec fn spec_to_int(s: Seq<char>) -> int {
    let w = spec_skip_ws(s, 0);
    let neg = w < s.len() && s[w] == '-';
    let d0 = if neg {
        w + 1
    } else {
        w
    };
    let e = spec_digit_end(s, d0);
    let mag = spec_dec_val(s, d0, e, 0);
    clamp_i64(
        if neg {
            -mag
        } else {
            mag
        },
    )
}

/// The end of a digit run never lies before its start.
proof fn lemma_digit_end_ge(s: Seq<char>, i: int)
    ensures
        spec_digit_end(s, i) >= i,
    decreases s.len() - i,
{
    if 0 <= i < s.len() && is_dec_digit(s[i]) {
        lemma_digit_end_ge(s, i + 1);
    }
}

/// Every character before the end of a digit run is a digit.
proof fn lemma_digit_run(s: Seq<char>, i: int)
    ensures
        forall|k: int| i <= k < spec_digit_end(s, i) ==> is_dec_digit(#[trigger] s[k]),
    decreases s.len() - i,
{
    if 0 <= i < s.len() && is_dec_digit(s[i]) {
        lemma_digit_run(s, i + 1);
        lemma_digit_end_ge(s, i + 1);
    }
}

/// Appending digits never lowers the accumulated value.
proof fn lemma_dec_val_lower(s: Seq<char>, i: int, e: int, acc: int)
    requires
        acc >= 0,
        forall|k: int| i <= k < e && k < s.len() ==> is_dec_digit(#[trigger] s[k]),
    ensures
        spec_dec_val(s, i, e, acc) >= acc,
    decreases e - i,
{
    if 0 <= i < e && i < s.len() {
        assert(acc * 10 >= acc) by (nonlinear_arith)
            requires
                acc >= 0,
        ;
        lemma_dec_val_lower(s, i + 1, e, acc * 10 + dec_digit_val(s[i]));
    }
}

/// The numeric value of a string, as [`spec_to_int`] gives it.
pub fn to_int(s: &str) -> (r: i64)
    ensures
        r as int == spec_to_int(s@),
{
    let v = chars_of(s);
    let n = v.len();
    let mut i: usize = 0;
    while i < n && char_is_whitespace(v[i])
        invariant
            n == v@.len(),
            v@ == s@,
            0 <= i <= n,
            spec_skip_ws(s@, 0) == spec_skip_ws(s@, i as int),
        decreases n - i,
    {
        i = i + 1;
    }
    assert(spec_skip_ws(s@, i as int) == i as int);
    let neg = i < n && v[i] == '-';
    if neg {
        i = i + 1;
    }
    let ghost d0 = i as int;
    let ghost e = spec_digit_end(s@, d0);
    let mut acc: u64 = 0;
    let mut sat = false;
    while i < n && (v[i] as u32) >= 48 && (v[i] as u32) <= 57
        invariant
            n == v@.len(),
            v@ == s@,
            0 <= d0 <= i <= n,
            e == spec_digit_end(s@, d0),
            spec_digit_end(s@, i as int) == e,
            forall|k: int| d0 <= k < i ==> is_dec_digit(#[trigger] s@[k]),
            !sat ==> spec_dec_val(s@, d0, e, 0) == spec_dec_val(s@, i as int, e, acc as int),
            sat ==> spec_dec_val(s@, d0, e, 0) > u64::MAX as int,
        decreases n - i,
    {
        let d: u64 = (v[i] as u32 as u64) - 48;
        proof {
            lemma_digit_end_ge(s@, i as int + 1);
            assert(spec_digit_end(s@, i as int) == spec_digit_end(s@, i as int + 1));
            assert(i < e);
        }
        if !sat {
            let next = match acc.checked_mul(10) {
                Some(x) => x.checked_add(d),
                None => None,
            };
            match next {
                Some(x) => {
                    acc = x;
                },
                None => {
                    proof {
                        let big = acc as int * 10 + d as int;
                        assert(big > u64::MAX as int);
                        lemma_digit_run(s@, i as int + 1);
                        lemma_dec_val_lower(s@, i as int + 1, e, big);
                    }
                    sat = true;
                },
            }
        }
        i = i + 1;
    }
    assert(spec_digit_end(s@, i as int) == i as int);
    assert(e == i as int);
    if sat {
        if neg {
            i64::MIN
        } else {
            i64::MAX
        }
    } else {
        if neg {
            if acc >= 9223372036854775808u64 {
                i64::MIN
            } else {
                -(acc as i64)
            }
        } else {
            if acc > i64::MAX as u64 {
                i64::MAX
            } else {
                acc as i64
            }
        }
    }
}

/// The decimal digit character for a value between zero and nine.
pub open spec fn spec_digit_char(d: int) -> char {
    if d == 0 {
        '0'
    } else if d == 1 {
        '1'
    } else if d == 2 {
        '2'
    } else if d == 3 {
        '3'
    } else if d == 4 {
        '4'
    } else if d == 5 {
        '5'
    } else if d == 6 {
        '6'
    } else if d == 7 {
        '7'
    } else if d == 8 {
        '8'
    } else {
        '9'
    }
}

/// The decimal digits of a nonnegative integer, most significant first.
pub open spec fn spec_udec_str(n: int) -> Seq<char>
    decreases n,
{
    if n < 10 {
        seq![spec_digit_char(n)]
    } else {
        spec_udec_str(n / 10).push(spec_digit_char(n % 10))
    }
}

/// The decimal rendering of an integer: a minus sign for negative values,
/// then the digits of the magnitude.
pub open spec fn spec_int_str(v: int) -> Seq<char> {
    if v < 0 {
        seq!['-'] + spec_udec_str(-v)
    } else {
        spec_udec_str(v)
    }
}

fn digit_char(d: u64) -> (c: char)
    requires
        d < 10,
    ensures
        c == spec_digit_char(d as int),
{
    if d == 0 {
        '0'
    } else if d == 1 {
        '1'
    } else if d == 2 {
        '2'
    } else if d == 3 {
        '3'
    } else if d == 4 {
        '4'
    } else if d == 5 {
        '5'
    } else if d == 6 {
        '6'
    } else if d == 7 {
        '7'
    } else if d == 8 {
        '8'
    } else {
        '9'
    }
}

pub fn u64_dec_chars(n: u64) -> (r: Vec<char>)
    ensures
        r@ == spec_udec_str(n as int),
        r@.len() >= 1,
    decreases n,
{
    if n < 10 {
        let mut r: Vec<char> = Vec::new();
        r.push(digit_char(n));
        proof {
            assert(r@ =~= seq![spec_digit_char(n as int)]);
        }
        r
    } else {
        let mut r = u64_dec_chars(n / 10);
        r.push(digit_char(n % 10));
        r
    }
}

/// The decimal rendering of a 64-bit signed integer.
pub fn i64_to_string(v: i64) -> (s: String)
    ensures
        s@ == spec_int_str(v as int),
{
    if v >= 0 {
        let digits = u64_dec_chars(v as u64);
        string_from_chars(digits.as_slice())
    } else {
        let mag: u64 = if v == i64::MIN {
            9223372036854775808u64
        } else {
            (-v) as u64
        };
        let digits = u64_dec_chars(mag);
        let mut chars: Vec<char> = Vec::new();
        chars.push('-');
        let mut j: usize = 0;
        while j < digits.len()
            invariant
                j <= digits@.len(),
                chars@ == seq!['-'] + digits@.subrange(0, j as int),
            decreases digits@.len() - j,
        {
            chars.push(digits[j]);
            proof {
                assert(seq!['-'] + digits@.subrange(0, j + 1 as int) =~= (seq!['-']
                    + digits@.subrange(0, j as int)).push(digits@[j as int]));
            }
            j = j + 1;
        }
        proof {
            assert(digits@.subrange(0, digits@.len() as int) =~= digits@);
        }
        string_from_chars(chars.as_slice())
    }
}

/// The decimal rendering of a machine-size unsigned integer.
pub fn usize_to_string(n: usize) -> (s: String)
    ensures
        s@ == spec_int_str(n as int),
{
    let digits = u64_dec_chars(n as u64);
    string_from_chars(digits.as_slice())
}

/// Truncating division, as 64-bit signed machine division rounds.
pub open spec fn spec_trunc_div(x: int, d: int) -> int
    recommends
        d != 0,
{
    if x == 0 {
        0
    } else if x > 0 && d > 0 {
        x / d
    } else if x < 0 && d < 0 {
        (x * -1) / (d * -1)
    } else if x < 0 {
        ((x * -1) / d) * -1
    } else {
        (x / (d * -1)) * -1
    }
}

/// The running sum of the values of `args` from index `i` on, checked against
/// the 64-bit signed range at each step.
pub open spec fn spec_add_fold(args: Seq<Seq<char>>, i: int, acc: int) -> Result<int, SpecError>
    decreases args.len() - i,
{
    if 0 <= i < args.len() {
        let v = acc + spec_to_int(args[i]);
        if v > i64::MAX || v < i64::MIN {
            Err(SpecError::OutOfRange)
        } else {
            spec_add_fold(args, i + 1, v)
        }
    } else {
        Ok(acc)
    }
}

/// `$add(a,b,...)`: the sum of all arguments' numeric values.
pub open spec fn spec_add(args: Seq<Seq<char>>) -> Result<Seq<char>, SpecError> {
    if args.len() < 2 {
        Err(SpecError::InvalidNativeFunctionArgs("add"@, args.len() as int))
    } else {
        match spec_add_fold(args, 0, 0) {
            Ok(v) => Ok(spec_int_str(v)),
            Err(e) => Err(e),
        }
    }
}

/// Adds the numeric values of all arguments; overflow is an error.
pub fn add(args: Vec<String>) -> (r: Result<String, Error>)
    ensures
        str_res_matches(r, spec_add(args.deep_view())),
{
    if args.len() < 2 {
        return Err(Error::InvalidNativeFunctionArgs("add".to_owned(), args.len()));
    }
    let ghost dv = args.deep_view();
    let mut acc: i64 = 0;
    let mut i: usize = 0;
    while i < args.len()
        invariant
            dv == args.deep_view(),
            2 <= args@.len(),
            0 <= i <= args@.len(),
            spec_add_fold(dv, 0, 0) == spec_add_fold(dv, i as int, acc as int),
        decreases args@.len() - i,
    {
        let x = to_int(args[i].as_str());
        match acc.checked_add(x) {
            Some(v) => {
                acc = v;
            },
            None => {
                return Err(Error::OutOfRange);
            },
        }
        i = i + 1;
    }
    Ok(i64_to_string(acc))
}

/// The running difference of the values of `args` from index `i` on, checked
/// against the 64-bit signed range at each step.
pub open spec fn spec_sub_fold(args: Seq<Seq<char>>, i: int, acc: int) -> Result<int, SpecError>
    decreases args.len() - i,
{
    if 0 <= i < args.len() {
        let v = acc - spec_to_int(args[i]);
        if v > i64::MAX || v < i64::MIN {
            Err(SpecError::OutOfRange)
        } else {
            spec_sub_fold(args, i + 1, v)
        }
    } else {
        Ok(acc)
    }
}

/// `$sub(a,b,...)`: the first argument's value minus all the following ones.
pub open spec fn spec_sub(args: Seq<Seq<char>>) -> Result<Seq<char>, SpecError> {
    if args.len() < 2 {
        Err(SpecError::InvalidNativeFunctionArgs("sub"@, args.len() as int))
    } else {
        match spec_sub_fold(args, 1, spec_to_int(args[0])) {
            Ok(v) => Ok(spec_int_str(v)),
            Err(e) => Err(e),
        }
    }
}

/// Subtracts the later arguments' numeric values from the first's; overflow
/// is an error.
pub fn sub(args: Vec<String>) -> (r: Result<String, Error>)
    ensures
        str_res_matches(r, spec_sub(args.deep_view())),
{
    if args.len() < 2 {
        return Err(Error::InvalidNativeFunctionArgs("sub".to_owned(), args.len()));
    }
    let ghost dv = args.deep_view();
    let mut acc: i64 = to_int(args[0].as_str());
    let mut i: usize = 1;
    while i < args.len()
        invariant
            dv == args.deep_view(),
            2 <= args@.len(),
            1 <= i <= args@.len(),
            spec_sub_fold(dv, 1, spec_to_int(dv[0])) == spec_sub_fold(dv, i as int, acc as int),
        decreases args@.len() - i,
    {
        let x = to_int(args[i].as_str());
        match acc.checked_sub(x) {
            Some(v) => {
                acc = v;
            },
            None => {
                return Err(Error::OutOfRange);
            },
        }
        i = i + 1;
    }
    Ok(i64_to_string(acc))
}

/// The running product of the values of `args` from index `i` on, checked
/// against the 64-bit signed range at each step.
pub open spec fn spec_mul_fold(args: Seq<Seq<char>>, i: int, acc: int) -> Result<int, SpecError>
    decreases args.len() - i,
{
    if 0 <= i < args.len() {
        let v = acc * spec_to_int(args[i]);
        if v > i64::MAX || v < i64::MIN {
            Err(SpecError::OutOfRange)
        } else {
            spec_mul_fold(args, i + 1, v)
        }
    } else {
        Ok(acc)
    }
}

/// `$mul(a,b,...)`: the product of all arguments' numeric values.
pub open spec fn spec_mul(args: Seq<Seq<char>>) -> Result<Seq<char>, SpecError> {
    if args.len() < 2 {
        Err(SpecError::InvalidNativeFunctionArgs("mul"@, args.len() as int))
    } else {
        match spec_mul_fold(args, 0, 1) {
            Ok(v) => Ok(spec_int_str(v)),
            Err(e) => Err(e),
        }
    }
}

/// Multiplies the numeric values of all arguments; overflow is an error.
pub fn mul(args: Vec<String>) -> (r: Result<String, Error>)
    ensures
        str_res_matches(r, spec_mul(args.deep_view())),
{
    if args.len() < 2 {
        return Err(Error::InvalidNativeFunctionArgs("mul".to_owned(), args.len()));
    }
    let ghost dv = args.deep_view();
    let mut acc: i64 = 1;
    let mut i: usize = 0;
    while i < args.len()
        invariant
            dv == args.deep_view(),
            2 <= args@.len(),
            0 <= i <= args@.len(),
            spec_mul_fold(dv, 0, 1) == spec_mul_fold(dv, i as int, acc as int),
        decreases args@.len() - i,
    {
        let x = to_int(args[i].as_str());
        match acc.checked_mul(x) {
            Some(v) => {
                acc = v;
            },
            None => {
                return Err(Error::OutOfRange);
            },
        }
        i = i + 1;
    }
    Ok(i64_to_string(acc))
}

/// The running quotient of the values of `args` from index `i` on; a zero
/// divisor resets the accumulator to zero, and overflow is checked at each
/// step.
pub open spec fn spec_div_fold(args: Seq<Seq<char>>, i: int, acc: int) -> Result<int, SpecError>
    decreases args.len() - i,
{
    if 0 <= i < args.len() {
        let d = spec_to_int(args[i]);
        if d == 0 {
            spec_div_fold(args, i + 1, 0)
        } else {
            let q = spec_trunc_div(acc, d);
            if q > i64::MAX || q < i64::MIN {
                Err(SpecError::OutOfRange)
            } else {
                spec_div_fold(args, i + 1, q)
            }
        }
    } else {
        Ok(acc)
    }
}

/// `$div(a,b,...)`: the first argument's value divided by each following one
/// in turn; dividing by zero yields zero.
pub open spec fn spec_div(args: Seq<Seq<char>>) -> Result<Seq<char>, SpecError> {
    if args.len() < 2 {
        Err(SpecError::InvalidNativeFunctionArgs("div"@, args.len() as int))
    } else {
        match spec_div_fold(args, 1, spec_to_int(args[0])) {
            Ok(v) => Ok(spec_int_str(v)),
            Err(e) => Err(e),
        }
    }
}

/// Divides the first argument's numeric value by each following one in turn;
/// a zero divisor yields zero, and overflow is an error.
pub fn div(args: Vec<String>) -> (r: Result<String, Error>)
    ensures
        str_res_matches(r, spec_div(args.deep_view())),
{
    if args.len() < 2 {
        return Err(Error::InvalidNativeFunctionArgs("div".to_owned(), args.len()));
    }
    let ghost dv = args.deep_view();
    let mut acc: i64 = to_int(args[0].as_str());
    let mut i: usize = 1;
    while i < args.len()
        invariant
            dv == args.deep_view(),
            2 <= args@.len(),
            1 <= i <= args@.len(),
            spec_div_fold(dv, 1, spec_to_int(dv[0])) == spec_div_fold(dv, i as int, acc as int),
        decreases args@.len() - i,
    {
        let d = to_int(args[i].as_str());
        if d == 0 {
            acc = 0;
        } else {
            match acc.checked_div(d) {
                Some(q) => {
                    acc = q;
                },
                None => {
                    return Err(Error::OutOfRange);
                },
            }
        }
        i = i + 1;
    }
    Ok(i64_to_string(acc))
}

/// The largest of the values of `args` from index `i` on and the accumulator.
pub open spec fn spec_max_fold(args: Seq<Seq<char>>, i: int, acc: int) -> int
    decreases args.len() - i,
{
    if 0 <= i < args.len() {
        let x = spec_to_int(args[i]);
        spec_max_fold(
            args,
            i + 1,
            if x > acc {
                x
            } else {
                acc
            },
        )
    } else {
        acc
    }
}

/// `$max(a,b,...)`: the largest of the arguments' numeric values.
pub open spec fn spec_max(args: Seq<Seq<char>>) -> Result<Seq<char>, SpecError> {
    if args.len() < 2 {
        Err(SpecError::InvalidNativeFunctionArgs("max"@, args.len() as int))
    } else {
        Ok(spec_int_str(spec_max_fold(args, 0, i64::MIN as int)))
    }
}

/// The largest of the arguments' numeric values.
pub fn max(args: Vec<String>) -> (r: Result<String, Error>)
    ensures
        str_res_matches(r, spec_max(args.deep_view())),
{
    if args.len() < 2 {
        return Err(Error::InvalidNativeFunctionArgs("max".to_owned(), args.len()));
    }
    let ghost dv = args.deep_view();
    let mut acc: i64 = i64::MIN;
    let mut i: usize = 0;
    while i < args.len()
        invariant
            dv == args.deep_view(),
            2 <= args@.len(),
            0 <= i <= args@.len(),
            spec_max_fold(dv, 0, i64::MIN as int) == spec_max_fold(dv, i as int, acc as int),
        decreases args@.len() - i,
    {
        let x = to_int(args[i].as_str());
        if x > acc {
            acc = x;
        }
        i = i + 1;
    }
    Ok(i64_to_string(acc))
}

/// The smallest of the values of `args` from index `i` on and the
/// accumulator.
pub open spec fn spec_min_fold(args: Seq<Seq<char>>, i: int, acc: int) -> int
    decreases args.len() - i,
{
    if 0 <= i < args.len() {
        let x = spec_to_int(args[i]);
        spec_min_fold(
            args,
            i + 1,
            if x < acc {
                x
            } else {
                acc
            },
        )
    } else {
        acc
    }
}

/// `$min(a,b,...)`: the smallest of the arguments' numeric values.
pub open spec fn spec_min(args: Seq<Seq<char>>) -> Result<Seq<char>, SpecError> {
    if args.len() < 2 {
        Err(SpecError::InvalidNativeFunctionArgs("min"@, args.len() as int))
    } else {
        Ok(spec_int_str(spec_min_fold(args, 0, i64::MAX as int)))
    }
}

/// The smallest of the arguments' numeric values.
pub fn min(args: Vec<String>) -> (r: Result<String, Error>)
    ensures
        str_res_matches(r, spec_min(args.deep_view())),
{
    if args.len() < 2 {
        return Err(Error::InvalidNativeFunctionArgs("min".to_owned(), args.len()));
    }
    let ghost dv = args.deep_view();
    let mut acc: i64 = i64::MAX;
    let mut i: usize = 0;
    while i < args.len()
        invariant
            dv == args.deep_view(),
            2 <= args@.len(),
            0 <= i <= args@.len(),
            spec_min_fold(dv, 0, i64::MAX as int) == spec_min_fold(dv, i as int, acc as int),
        decreases args@.len() - i,
    {
        let x = to_int(args[i].as_str());
        if x < acc {
            acc = x;
        }
        i = i + 1;
    }
    Ok(i64_to_string(acc))
}

/// `$eq(a,b)`: empty text; true exactly when the numeric values are equal.
pub open spec fn spec_eq(args: Seq<SpecValue>) -> Result<SpecValue, SpecError> {
    if args.len() != 2 {
        Err(SpecError::InvalidNativeFunctionArgs("eq"@, args.len() as int))
    } else {
        Ok(SpecValue { text: Seq::empty(), truth: spec_to_int(args[0].text) == spec_to_int(args[1].text) })
    }
}

/// True exactly when the two arguments' numeric values are equal.
pub fn eq(args: Vec<Value>) -> (r: Result<Value, Error>)
    ensures
        val_res_matches(r, spec_eq(args.deep_view())),
{
    if args.len() != 2 {
        return Err(Error::InvalidNativeFunctionArgs("eq".to_owned(), args.len()));
    }
    let a = to_int(args[0].val.as_str());
    let b = to_int(args[1].val.as_str());
    Ok(Value { val: String::new(), cond: a == b })
}

/// `$ne(a,b)`: empty text; true exactly when the numeric values differ.
pub open spec fn spec_ne(args: Seq<SpecValue>) -> Result<SpecValue, SpecError> {
    if args.len() != 2 {
        Err(SpecError::InvalidNativeFunctionArgs("ne"@, args.len() as int))
    } else {
        Ok(SpecValue { text: Seq::empty(), truth: spec_to_int(args[0].text) != spec_to_int(args[1].text) })
    }
}

/// True exactly when the two arguments' numeric values differ.
pub fn ne(args: Vec<Value>) -> (r: Result<Value, Error>)
    ensures
        val_res_matches(r, spec_ne(args.deep_view())),
{
    if args.len() != 2 {
        return Err(Error::InvalidNativeFunctionArgs("ne".to_owned(), args.len()));
    }
    let a = to_int(args[0].val.as_str());
    let b = to_int(args[1].val.as_str());
    Ok(Value { val: String::new(), cond: a != b })
}

/// `$gt(a,b)`: empty text; true exactly when the first numeric value is the
/// greater.
pub open spec fn spec_gt(args: Seq<SpecValue>) -> Result<SpecValue, SpecError> {
    if args.len() != 2 {
        Err(SpecError::InvalidNativeFunctionArgs("gt"@, args.len() as int))
    } else {
        Ok(SpecValue { text: Seq::empty(), truth: spec_to_int(args[0].text) > spec_to_int(args[1].text) })
    }
}

/// True exactly when the first argument's numeric value is the greater.
pub fn gt(args: Vec<Value>) -> (r: Result<Value, Error>)
    ensures
        val_res_matches(r, spec_gt(args.deep_view())),
{
    if args.len() != 2 {
        return Err(Error::InvalidNativeFunctionArgs("gt".to_owned(), args.len()));
    }
    let a = to_int(args[0].val.as_str());
    let b = to_int(args[1].val.as_str());
    Ok(Value { val: String::new(), cond: a > b })
}

/// `$gte(a,b)`: empty text; true exactly when the first numeric value is at
/// least the second.
pub open spec fn spec_gte(args: Seq<SpecValue>) -> Result<SpecValue, SpecError> {
    if args.len() != 2 {
        Err(SpecError::InvalidNativeFunctionArgs("gte"@, args.len() as int))
    } else {
        Ok(SpecValue { text: Seq::empty(), truth: spec_to_int(args[0].text) >= spec_to_int(args[1].text) })
    }
}

/// True exactly when the first argument's numeric value is at least the
/// second's.
pub fn gte(args: Vec<Value>) -> (r: Result<Value, Error>)
    ensures
        val_res_matches(r, spec_gte(args.deep_view())),
{
    if args.len() != 2 {
        return Err(Error::InvalidNativeFunctionArgs("gte".to_owned(), args.len()));
    }
    let a = to_int(args[0].val.as_str());
    let b = to_int(args[1].val.as_str());
    Ok(Value { val: String::new(), cond: a >= b })
}

/// `$lt(a,b)`: empty text; true exactly when the first numeric value is the
/// smaller.
pub open spec fn spec_lt(args: Seq<SpecValue>) -> Result<SpecValue, SpecError> {
    if args.len() != 2 {
        Err(SpecError::InvalidNativeFunctionArgs("lt"@, args.len() as int))
    } else {
        Ok(SpecValue { text: Seq::empty(), truth: spec_to_int(args[0].text) < spec_to_int(args[1].text) })
    }
}

/// True exactly when the first argument's numeric value is the smaller.
pub fn lt(args: Vec<Value>) -> (r: Result<Value, Error>)
    ensures
        val_res_matches(r, spec_lt(args.deep_view())),
{
    if args.len() != 2 {
        return Err(Error::InvalidNativeFunctionArgs("lt".to_owned(), args.len()));
    }
    let a = to_int(args[0].val.as_str());
    let b = to_int(args[1].val.as_str());
    Ok(Value { val: String::new(), cond: a < b })
}

/// `$lte(a,b)`: empty text; true exactly when the first numeric value is at
/// most the second.
pub open spec fn spec_lte(args: Seq<SpecValue>) -> Result<SpecValue, SpecError> {
    if args.len() != 2 {
        Err(SpecError::InvalidNativeFunctionArgs("lte"@, args.len() as int))
    } else {
        Ok(SpecValue { text: Seq::empty(), truth: spec_to_int(args[0].text) <= spec_to_int(args[1].text) })
    }
}

/// True exactly when the first argument's numeric value is at most the
/// second's.
pub fn lte(args: Vec<Value>) -> (r: Result<Value, Error>)
    ensures
        val_res_matches(r, spec_lte(args.deep_view())),
{
    if args.len() != 2 {
        return Err(Error::InvalidNativeFunctionArgs("lte".to_owned(), args.len()));
    }
    let a = to_int(args[0].val.as_str());
    let b = to_int(args[1].val.as_str());
    Ok(Value { val: String::new(), cond: a <= b })
}

} // verus!

