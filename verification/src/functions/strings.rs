//! String, constant, and date builtins.

use vstd::prelude::*;
use vstd::slice::slice_subrange;
use vstd::utf8::encode_utf8;
use std::str::FromStr;
use iso_8601::{ApproxDate, PartialDateTime};
use crate::types::{Error, SpecError};
use crate::environment::{Value, SpecValue, val_res_matches};
use crate::strutil::{
    chars_of, string_from_chars, push_char, to_upper, to_lower, upper_of, lower_of,
    first_grapheme_char, char_is_alphabetic, is_unicode_alphabetic, char_is_whitespace,
    is_unicode_whitespace,
};
use crate::functions::num::{
    to_int, spec_to_int, i64_to_string, usize_to_string, spec_int_str, spec_udec_str,
    u64_dec_chars, is_dec_digit, dec_digit_val,
};

verus! {

/// `$upper(s)`: the Unicode uppercase of `s`; truth is passed through.
pub open spec fn spec_upper(args: Seq<SpecValue>) -> Result<SpecValue, SpecError> {
    if args.len() != 1 {
        Err(SpecError::InvalidNativeFunctionArgs("upper"@, args.len() as int))
    } else {
        Ok(SpecValue { text: upper_of(args[0].text), truth: args[0].truth })
    }
}

/// The argument's text uppercased.
pub fn upper(args: Vec<Value>) -> (r: Result<Value, Error>)
    ensures
        val_res_matches(r, spec_upper(args.deep_view())),
{
    if args.len() != 1 {
        return Err(Error::InvalidNativeFunctionArgs("upper".to_owned(), args.len()));
    }
    Ok(Value { val: to_upper(args[0].val.as_str()), cond: args[0].cond })
}

/// `$lower(s)`: the Unicode lowercase of `s`; truth is passed through.
pub open spec fn spec_lower(args: Seq<SpecValue>) -> Result<SpecValue, SpecError> {
    if args.len() != 1 {
        Err(SpecError::InvalidNativeFunctionArgs("lower"@, args.len() as int))
    } else {
        Ok(SpecValue { text: lower_of(args[0].text), truth: args[0].truth })
    }
}

/// The argument's text lowercased.
pub fn lower(args: Vec<Value>) -> (r: Result<Value, Error>)
    ensures
        val_res_matches(r, spec_lower(args.deep_view())),
{
    if args.len() != 1 {
        return Err(Error::InvalidNativeFunctionArgs("lower".to_owned(), args.len()));
    }
    Ok(Value { val: to_lower(args[0].val.as_str()), cond: args[0].cond })
}

/// `$firstalphachar(s[,nonalpha])`: the first character of `s` when it is
/// alphabetic, else the fallback text (`#` by default).
pub open spec fn spec_firstalphachar(args: Seq<SpecValue>) -> Result<SpecValue, SpecError> {
    if args.len() != 1 && args.len() != 2 {
        Err(SpecError::InvalidNativeFunctionArgs("firstalphachar"@, args.len() as int))
    } else {
        let missing = if args.len() == 2 {
            args[1].text
        } else {
            seq!['#']
        };
        let s = args[0].text;
        let text = if s.len() > 0 && is_unicode_alphabetic(s[0]) {
            seq![s[0]]
        } else {
            missing
        };
        Ok(SpecValue { text, truth: args[0].truth })
    }
}

/// The first character of the argument when alphabetic, else the fallback.
pub fn firstalphachar(args: Vec<Value>) -> (r: Result<Value, Error>)
    ensures
        val_res_matches(r, spec_firstalphachar(args.deep_view())),
{
    if args.len() != 1 && args.len() != 2 {
        return Err(Error::InvalidNativeFunctionArgs("firstalphachar".to_owned(), args.len()));
    }
    let missing: String = if args.len() == 2 {
        args[1].val.clone()
    } else {
        let mut m = String::new();
        push_char(&mut m, '#');
        proof {
            assert(m@ =~= seq!['#']);
        }
        m
    };
    let first = first_grapheme_char(args[0].val.as_str());
    let text: String = match first {
        Some(c) => {
            if char_is_alphabetic(c) {
                let mut t = String::new();
                push_char(&mut t, c);
                proof {
                    assert(t@ =~= seq![args@[0].val@[0]]);
                }
                t
            } else {
                missing
            }
        },
        None => missing,
    };
    Ok(Value { val: text, cond: args[0].cond })
}

/// `$crlf()`: a carriage return and line feed; always true.
pub open spec fn spec_crlf(args: Seq<SpecValue>) -> Result<SpecValue, SpecError> {
    if args.len() != 0 {
        Err(SpecError::InvalidNativeFunctionArgs("crlf"@, args.len() as int))
    } else {
        Ok(SpecValue { text: seq!['\r', '\n'], truth: true })
    }
}

/// An end-of-line marker.
pub fn crlf(args: Vec<Value>) -> (r: Result<Value, Error>)
    ensures
        val_res_matches(r, spec_crlf(args.deep_view())),
{
    if args.len() != 0 {
        return Err(Error::InvalidNativeFunctionArgs("crlf".to_owned(), args.len()));
    }
    let mut s = String::new();
    push_char(&mut s, '\r');
    push_char(&mut s, '\n');
    proof {
        assert(s@ =~= seq!['\r', '\n']);
    }
    Ok(Value { val: s, cond: true })
}

/// `$tab()` or `$tab(n)`: one tab, or `n` tabs (none for a negative `n`);
/// always true.
pub open spec fn spec_tab(args: Seq<SpecValue>) -> Result<SpecValue, SpecError> {
    if args.len() == 0 {
        Ok(SpecValue { text: seq!['\t'], truth: true })
    } else if args.len() == 1 {
        let n = spec_to_int(args[0].text);
        let count: int = if n < 0 {
            0
        } else {
            n
        };
        Ok(SpecValue { text: Seq::new(count as nat, |i: int| '\t'), truth: true })
    } else {
        Err(SpecError::InvalidNativeFunctionArgs("tab"@, args.len() as int))
    }
}

/// One tab, or as many tabs as the argument's numeric value.
pub fn tab(args: Vec<Value>) -> (r: Result<Value, Error>)
    ensures
        val_res_matches(r, spec_tab(args.deep_view())),
{
    if args.len() == 0 {
        let mut s = String::new();
        push_char(&mut s, '\t');
        proof {
            assert(s@ =~= seq!['\t']);
        }
        return Ok(Value { val: s, cond: true });
    }
    if args.len() != 1 {
        return Err(Error::InvalidNativeFunctionArgs("tab".to_owned(), args.len()));
    }
    let n = to_int(args[0].val.as_str());
    let count: u64 = if n < 0 {
        0
    } else {
        n as u64
    };
    let mut s = String::new();
    let mut k: u64 = 0;
    while k < count
        invariant
            0 <= k <= count,
            s@ =~= Seq::new(k as nat, |i: int| '\t'),
        decreases count - k,
    {
        push_char(&mut s, '\t');
        proof {
            assert(s@ =~= Seq::new((k + 1) as nat, |i: int| '\t'));
        }
        k = k + 1;
    }
    Ok(Value { val: s, cond: true })
}

/// `$noop(...)`: empty text and true, whatever the arguments.
pub open spec fn spec_noop(args: Seq<SpecValue>) -> Result<SpecValue, SpecError> {
    Ok(SpecValue { text: Seq::empty(), truth: true })
}

/// Does nothing: empty text, true.
pub fn noop(args: Vec<Value>) -> (r: Result<Value, Error>)
    ensures
        val_res_matches(r, spec_noop(args.deep_view())),
{
    Ok(Value { val: String::new(), cond: true })
}

/// The byte length of a character sequence in its UTF-8 encoding, as the
/// machine reports it.
pub open spec fn spec_byte_len(s: Seq<char>) -> int {
    encode_utf8(s).len() as usize as int
}

/// `$len(s)`: the byte length of `s` in decimal; truth is passed through.
pub open spec fn spec_len(args: Seq<SpecValue>) -> Result<SpecValue, SpecError> {
    if args.len() != 1 {
        Err(SpecError::InvalidNativeFunctionArgs("len"@, args.len() as int))
    } else {
        Ok(SpecValue { text: spec_int_str(spec_byte_len(args[0].text)), truth: args[0].truth })
    }
}

/// The argument's byte length, rendered in decimal.
pub fn len(args: Vec<Value>) -> (r: Result<Value, Error>)
    ensures
        val_res_matches(r, spec_len(args.deep_view())),
{
    if args.len() != 1 {
        return Err(Error::InvalidNativeFunctionArgs("len".to_owned(), args.len()));
    }
    let n = args[0].val.as_str().len();
    Ok(Value { val: usize_to_string(n), cond: args[0].cond })
}

/// `$longer(a,b)`: empty text; true exactly when `a` has more bytes than `b`.
pub open spec fn spec_longer(args: Seq<SpecValue>) -> Result<SpecValue, SpecError> {
    if args.len() != 2 {
        Err(SpecError::InvalidNativeFunctionArgs("longer"@, args.len() as int))
    } else {
        Ok(
            SpecValue {
                text: Seq::empty(),
                truth: spec_byte_len(args[0].text) > spec_byte_len(args[1].text),
            },
        )
    }
}

/// True exactly when the first argument has more bytes than the second.
pub fn longer(args: Vec<Value>) -> (r: Result<Value, Error>)
    ensures
        val_res_matches(r, spec_longer(args.deep_view())),
{
    if args.len() != 2 {
        return Err(Error::InvalidNativeFunctionArgs("longer".to_owned(), args.len()));
    }
    let a = args[0].val.as_str().len();
    let b = args[1].val.as_str().len();
    Ok(Value { val: String::new(), cond: a > b })
}

/// Whether `p` is a prefix of `s`.
pub open spec fn spec_starts_with(s: Seq<char>, p: Seq<char>) -> bool {
    p.len() <= s.len() && s.subrange(0, p.len() as int) == p
}

/// The index of the first prefix in `ps`, from position `i` on, that `s`
/// starts with.
pub open spec fn spec_first_prefix(s: Seq<char>, ps: Seq<Seq<char>>, i: int) -> Option<int>
    decreases ps.len() - i,
{
    if 0 <= i < ps.len() {
        if spec_starts_with(s, ps[i]) {
            Some(i)
        } else {
            spec_first_prefix(s, ps, i + 1)
        }
    } else {
        None
    }
}

/// The default prefixes stripped by `$stripprefix` and `$swapprefix`.
pub open spec fn spec_default_prefixes() -> Seq<Seq<char>> {
    seq![seq!['A', ' '], seq!['T', 'h', 'e', ' ']]
}

/// The sequence without trailing Unicode whitespace.
pub open spec fn spec_trim_end(s: Seq<char>) -> Seq<char>
    decreases s.len(),
{
    if s.len() > 0 && is_unicode_whitespace(s.last()) {
        spec_trim_end(s.drop_last())
    } else {
        s
    }
}

/// A found prefix index is in range and names a real prefix of `s`.
proof fn lemma_first_prefix_some(s: Seq<char>, ps: Seq<Seq<char>>, i: int)
    ensures
        match spec_first_prefix(s, ps, i) {
            Some(j) => i <= j < ps.len() && spec_starts_with(s, ps[j]),
            None => true,
        },
    decreases ps.len() - i,
{
    if 0 <= i < ps.len() {
        if !spec_starts_with(s, ps[i]) {
            lemma_first_prefix_some(s, ps, i + 1);
        }
    }
}

fn chars_start_with(s: &Vec<char>, p: &Vec<char>) -> (r: bool)
    ensures
        r == spec_starts_with(s@, p@),
{
    if p.len() > s.len() {
        return false;
    }
    let mut i: usize = 0;
    while i < p.len()
        invariant
            p@.len() <= s@.len(),
            0 <= i <= p@.len(),
            forall|k: int| 0 <= k < i ==> s@[k] == p@[k],
        decreases p@.len() - i,
    {
        if s[i] != p[i] {
            proof {
                assert(s@.subrange(0, p@.len() as int)[i as int] != p@[i as int]);
            }
            return false;
        }
        i = i + 1;
    }
    proof {
        assert(s@.subrange(0, p@.len() as int) =~= p@);
    }
    true
}

fn first_prefix(s: &Vec<char>, ps: &Vec<Vec<char>>) -> (r: Option<usize>)
    ensures
        spec_first_prefix(s@, ps.deep_view(), 0) == (match r {
            Some(j) => Some(j as int),
            None => None,
        }),
        r is Some ==> (r->0 as int) < ps.deep_view().len(),
{
    let ghost pv = ps.deep_view();
    let mut i: usize = 0;
    while i < ps.len()
        invariant
            pv == ps.deep_view(),
            0 <= i <= ps@.len(),
            spec_first_prefix(s@, pv, 0) == spec_first_prefix(s@, pv, i as int),
        decreases ps@.len() - i,
    {
        proof {
            assert(pv[i as int] == ps@[i as int]@);
        }
        if chars_start_with(s, &ps[i]) {
            return Some(i);
        }
        i = i + 1;
    }
    None
}

/// The characters of `s` from position `j` on.
fn tail_from(s: &Vec<char>, j: usize) -> (r: Vec<char>)
    requires
        j <= s@.len(),
    ensures
        r@ == s@.subrange(j as int, s@.len() as int),
{
    let mut r: Vec<char> = Vec::new();
    let mut k: usize = j;
    while k < s.len()
        invariant
            j <= k <= s@.len(),
            r@ == s@.subrange(j as int, k as int),
        decreases s@.len() - k,
    {
        r.push(s[k]);
        proof {
            assert(s@.subrange(j as int, k + 1 as int) =~= s@.subrange(j as int, k as int).push(
                s@[k as int],
            ));
        }
        k = k + 1;
    }
    r
}

fn default_prefixes() -> (r: Vec<Vec<char>>)
    ensures
        r.deep_view() == spec_default_prefixes(),
{
    let mut a: Vec<char> = Vec::new();
    a.push('A');
    a.push(' ');
    let mut the: Vec<char> = Vec::new();
    the.push('T');
    the.push('h');
    the.push('e');
    the.push(' ');
    let mut r: Vec<Vec<char>> = Vec::new();
    proof {
        assert(a@ =~= seq!['A', ' ']);
        assert(the@ =~= seq!['T', 'h', 'e', ' ']);
    }
    r.push(a);
    r.push(the);
    proof {
        assert(r.deep_view() =~~= spec_default_prefixes());
    }
    r
}

/// The prefix list a strip or swap call uses beyond the first argument.
fn custom_prefixes(args: &Vec<Value>) -> (r: Vec<Vec<char>>)
    requires
        args@.len() >= 1,
    ensures
        r.deep_view() == Seq::new((args.deep_view().len() - 1) as nat, |k: int| args.deep_view()[k
            + 1].text),
{
    let ghost dv = args.deep_view();
    let mut r: Vec<Vec<char>> = Vec::new();
    let mut i: usize = 1;
    while i < args.len()
        invariant
            dv == args.deep_view(),
            1 <= i <= args@.len(),
            r.deep_view() =~~= Seq::new((i - 1) as nat, |k: int| dv[k + 1].text),
        decreases args@.len() - i,
    {
        let cs = chars_of(args[i].val.as_str());
        let ghost csv = cs@;
        let ghost prev = r@;
        let ghost prev_dv = r.deep_view();
        r.push(cs);
        proof {
            let newdv = r.deep_view();
            let target = Seq::new(i as nat, |k: int| dv[k + 1].text);
            assert(prev_dv.len() == i - 1);
            assert(prev.len() == i - 1);
            assert(r@.len() == i as int);
            assert(newdv.len() == i as int);
            assert forall|k: int| 0 <= k < i implies newdv[k] =~~= target[k] by {
                if k < i - 1 {
                    assert(r@[k] == prev[k]);
                    assert(newdv[k] == prev_dv[k]);
                } else {
                    assert(r@[k]@ == csv);
                    assert(newdv[k] =~~= csv);
                }
            }
            assert(newdv =~~= target);
        }
        i = i + 1;
    }
    r
}

/// The text after one strip pass: the remainder past the first matching
/// prefix, or the text unchanged.
pub open spec fn spec_strip_once(s: Seq<char>, ps: Seq<Seq<char>>) -> Seq<char> {
    match spec_first_prefix(s, ps, 0) {
        Some(j) => s.subrange(ps[j].len() as int, s.len() as int),
        None => s,
    }
}

/// `$stripprefix(s[,prefix...])`: `s` without its first matching prefix;
/// with no prefixes given, `A ` and `The ` are tried.
pub open spec fn spec_stripprefix(args: Seq<SpecValue>) -> Result<SpecValue, SpecError> {
    if args.len() == 0 {
        Err(SpecError::InvalidNativeFunctionArgs("stripprefix"@, args.len() as int))
    } else {
        let s0 = args[0].text;
        let s1 = if args.len() == 1 {
            spec_strip_once(s0, spec_default_prefixes())
        } else {
            s0
        };
        let custom = Seq::new((args.len() - 1) as nat, |k: int| args[k + 1].text);
        Ok(SpecValue { text: spec_strip_once(s1, custom), truth: args[0].truth })
    }
}

/// The first argument without its first matching prefix.
pub fn stripprefix(args: Vec<Value>) -> (r: Result<Value, Error>)
    ensures
        val_res_matches(r, spec_stripprefix(args.deep_view())),
{
    if args.len() == 0 {
        return Err(Error::InvalidNativeFunctionArgs("stripprefix".to_owned(), args.len()));
    }
    let mut sv = chars_of(args[0].val.as_str());
    if args.len() == 1 {
        let ps = default_prefixes();
        match first_prefix(&sv, &ps) {
            Some(j) => {
                proof {
                    lemma_first_prefix_some(sv@, ps.deep_view(), 0);
                    assert(ps.deep_view()[j as int] == ps@[j as int]@);
                }
                sv = tail_from(&sv, ps[j].len());
            },
            None => {},
        }
    }
    let custom = custom_prefixes(&args);
    match first_prefix(&sv, &custom) {
        Some(j) => {
            proof {
                lemma_first_prefix_some(sv@, custom.deep_view(), 0);
                assert(custom.deep_view()[j as int] == custom@[j as int]@);
            }
            sv = tail_from(&sv, custom[j].len());
        },
        None => {},
    }
    Ok(Value { val: string_from_chars(sv.as_slice()), cond: args[0].cond })
}

/// The text after one swap pass: the remainder, a comma and space, then the
/// matched prefix without trailing whitespace; or the text unchanged.
pub open spec fn spec_swap_once(s: Seq<char>, ps: Seq<Seq<char>>) -> Seq<char> {
    match spec_first_prefix(s, ps, 0) {
        Some(j) => s.subrange(ps[j].len() as int, s.len() as int) + seq![',', ' ']
            + spec_trim_end(ps[j]),
        None => s,
    }
}

/// `$swapprefix(s[,prefix...])`: the first matching prefix moved to the end
/// after a comma; with no prefixes given, `A ` and `The ` are tried.
pub open spec fn spec_swapprefix(args: Seq<SpecValue>) -> Result<SpecValue, SpecError> {
    if args.len() == 0 {
        Err(SpecError::InvalidNativeFunctionArgs("swapprefix"@, args.len() as int))
    } else {
        let s0 = args[0].text;
        let s1 = if args.len() == 1 {
            spec_swap_once(s0, spec_default_prefixes())
        } else {
            s0
        };
        let custom = Seq::new((args.len() - 1) as nat, |k: int| args[k + 1].text);
        Ok(SpecValue { text: spec_swap_once(s1, custom), truth: args[0].truth })
    }
}

fn trim_end_chars(p: &Vec<char>) -> (r: usize)
    ensures
        r <= p@.len(),
        p@.subrange(0, r as int) == spec_trim_end(p@),
{
    let mut e: usize = p.len();
    proof {
        assert(p@.subrange(0, p@.len() as int) =~= p@);
    }
    while e > 0 && char_is_whitespace(p[e - 1])
        invariant
            0 <= e <= p@.len(),
            spec_trim_end(p@) == spec_trim_end(p@.subrange(0, e as int)),
        decreases e,
    {
        proof {
            let cur = p@.subrange(0, e as int);
            assert(cur.last() == p@[e - 1]);
            assert(cur.drop_last() =~= p@.subrange(0, e - 1));
        }
        e = e - 1;
    }
    proof {
        let cur = p@.subrange(0, e as int);
        if e > 0 {
            assert(cur.last() == p@[e - 1]);
        }
        assert(spec_trim_end(cur) == cur);
        assert(p@.subrange(0, p@.len() as int) =~= p@);
    }
    e
}

fn swap_apply(sv: &Vec<char>, ps: &Vec<Vec<char>>) -> (r: Vec<char>)
    ensures
        r@ == spec_swap_once(sv@, ps.deep_view()),
{
    match first_prefix(sv, ps) {
        Some(j) => {
            proof {
                lemma_first_prefix_some(sv@, ps.deep_view(), 0);
                assert(ps.deep_view()[j as int] == ps@[j as int]@);
            }
            let p = &ps[j];
            let mut out = tail_from(sv, p.len());
            out.push(',');
            out.push(' ');
            let e = trim_end_chars(p);
            let mut k: usize = 0;
            let ghost base = sv@.subrange(p@.len() as int, sv@.len() as int) + seq![',', ' '];
            proof {
                assert(out@ =~= base);
            }
            while k < e
                invariant
                    0 <= k <= e <= p@.len(),
                    out@ == base + p@.subrange(0, k as int),
                decreases e - k,
            {
                out.push(p[k]);
                proof {
                    assert(base + p@.subrange(0, k + 1 as int) =~= (base + p@.subrange(
                        0,
                        k as int,
                    )).push(p@[k as int]));
                }
                k = k + 1;
            }
            proof {
                assert(ps.deep_view()[j as int] == p@);
            }
            out
        },
        None => {
            let mut out: Vec<char> = Vec::new();
            let mut k: usize = 0;
            while k < sv.len()
                invariant
                    0 <= k <= sv@.len(),
                    out@ == sv@.subrange(0, k as int),
                decreases sv@.len() - k,
            {
                out.push(sv[k]);
                proof {
                    assert(sv@.subrange(0, k + 1 as int) =~= sv@.subrange(0, k as int).push(
                        sv@[k as int],
                    ));
                }
                k = k + 1;
            }
            proof {
                assert(sv@.subrange(0, sv@.len() as int) =~= sv@);
            }
            out
        },
    }
}

/// The first argument with its first matching prefix moved to the end.
pub fn swapprefix(args: Vec<Value>) -> (r: Result<Value, Error>)
    ensures
        val_res_matches(r, spec_swapprefix(args.deep_view())),
{
    if args.len() == 0 {
        return Err(Error::InvalidNativeFunctionArgs("swapprefix".to_owned(), args.len()));
    }
    let mut sv = chars_of(args[0].val.as_str());
    if args.len() == 1 {
        let ps = default_prefixes();
        sv = swap_apply(&sv, &ps);
    }
    let custom = custom_prefixes(&args);
    sv = swap_apply(&sv, &custom);
    Ok(Value { val: string_from_chars(sv.as_slice()), cond: args[0].cond })
}

/// `$cut(s,n)`: the first `n` characters of `s`, none for a negative `n`;
/// truth is passed through.
pub open spec fn spec_cut(args: Seq<SpecValue>) -> Result<SpecValue, SpecError> {
    if args.len() != 2 {
        Err(SpecError::InvalidNativeFunctionArgs("cut"@, args.len() as int))
    } else {
        let s = args[0].text;
        let n = spec_to_int(args[1].text);
        let take: int = if n < 0 {
            0
        } else if n > s.len() {
            s.len() as int
        } else {
            n
        };
        Ok(SpecValue { text: s.subrange(0, take), truth: args[0].truth })
    }
}

/// The first characters of the first argument, as many as the second names.
pub fn cut(args: Vec<Value>) -> (r: Result<Value, Error>)
    ensures
        val_res_matches(r, spec_cut(args.deep_view())),
{
    if args.len() != 2 {
        return Err(Error::InvalidNativeFunctionArgs("cut".to_owned(), args.len()));
    }
    let sv = chars_of(args[0].val.as_str());
    let n = to_int(args[1].val.as_str());
    let take: usize = if n < 0 {
        0
    } else if (n as u64) > (sv.len() as u64) {
        sv.len()
    } else {
        n as usize
    };
    let out = slice_subrange(sv.as_slice(), 0, take);
    Ok(Value { val: string_from_chars(out), cond: args[0].cond })
}

/// `$left(s,n)`: the same as `$cut(s,n)`.
pub open spec fn spec_left(args: Seq<SpecValue>) -> Result<SpecValue, SpecError> {
    if args.len() != 2 {
        Err(SpecError::InvalidNativeFunctionArgs("left"@, args.len() as int))
    } else {
        spec_cut(args)
    }
}

/// The first characters of the first argument, as many as the second names.
pub fn left(args: Vec<Value>) -> (r: Result<Value, Error>)
    ensures
        val_res_matches(r, spec_left(args.deep_view())),
{
    if args.len() != 2 {
        return Err(Error::InvalidNativeFunctionArgs("left".to_owned(), args.len()));
    }
    cut(args)
}

/// `$num(v,n)`: the value of `v` zero-padded to `n` places, the minus sign
/// counting as one; too small an `n` leaves the plain rendering. Always true.
pub open spec fn spec_num(args: Seq<SpecValue>) -> Result<SpecValue, SpecError> {
    if args.len() != 2 {
        Err(SpecError::InvalidNativeFunctionArgs("num"@, args.len() as int))
    } else {
        let v = spec_to_int(args[0].text);
        let w = spec_to_int(args[1].text);
        if w < 1 || (v < 0 && w < 2) {
            Ok(SpecValue { text: spec_int_str(v), truth: true })
        } else {
            let mag = spec_udec_str(
                if v < 0 {
                    -v
                } else {
                    v
                },
            );
            let sign: Seq<char> = if v < 0 {
                seq!['-']
            } else {
                Seq::empty()
            };
            let z = w - mag.len() - sign.len();
            let zc: int = if z < 0 {
                0
            } else {
                z
            };
            Ok(SpecValue { text: sign + Seq::new(zc as nat, |i: int| '0') + mag, truth: true })
        }
    }
}

/// The first argument's value zero-padded to the width the second names.
pub fn num(args: Vec<Value>) -> (r: Result<Value, Error>)
    ensures
        val_res_matches(r, spec_num(args.deep_view())),
{
    if args.len() != 2 {
        return Err(Error::InvalidNativeFunctionArgs("num".to_owned(), args.len()));
    }
    let v = to_int(args[0].val.as_str());
    let w = to_int(args[1].val.as_str());
    if w < 1 || (v < 0 && w < 2) {
        return Ok(Value { val: i64_to_string(v), cond: true });
    }
    let magv: u64 = if v == i64::MIN {
        9223372036854775808u64
    } else if v < 0 {
        (-v) as u64
    } else {
        v as u64
    };
    let mag = u64_dec_chars(magv);
    let ghost sign: Seq<char> = if v < 0 {
        seq!['-']
    } else {
        Seq::empty()
    };
    let ghost z = w - mag@.len() - sign.len();
    let ghost zc: int = if z < 0 {
        0
    } else {
        z
    };
    let mut out: Vec<char> = Vec::new();
    if v < 0 {
        out.push('-');
    }
    proof {
        assert(out@ =~= sign + Seq::new(0nat, |i: int| '0'));
    }
    let ghost mut zeros: int = 0;
    while (out.len() as u128) + (mag.len() as u128) < (w as u128)
        invariant
            w >= 1,
            mag@.len() >= 1,
            0 <= zeros <= zc,
            z == w - mag@.len() - sign.len(),
            zc == (if z < 0 {
                0int
            } else {
                z
            }),
            out@.len() == sign.len() + zeros,
            out@ =~= sign + Seq::new(zeros as nat, |i: int| '0'),
        decreases w - out@.len() - mag@.len(),
    {
        out.push('0');
        proof {
            zeros = zeros + 1;
            assert(out@ =~= sign + Seq::new(zeros as nat, |i: int| '0'));
        }
    }
    proof {
        assert(zeros == zc);
    }
    let mut k: usize = 0;
    let ghost base = sign + Seq::new(zc as nat, |i: int| '0');
    while k < mag.len()
        invariant
            0 <= k <= mag@.len(),
            out@ == base + mag@.subrange(0, k as int),
        decreases mag@.len() - k,
    {
        out.push(mag[k]);
        proof {
            assert(base + mag@.subrange(0, k + 1 as int) =~= (base + mag@.subrange(
                0,
                k as int,
            )).push(mag@[k as int]));
        }
        k = k + 1;
    }
    proof {
        assert(mag@.subrange(0, mag@.len() as int) =~= mag@);
    }
    Ok(Value { val: string_from_chars(out.as_slice()), cond: true })
}

/// Whether the character occurs in the sequence.
pub open spec fn seq_has_char(s: Seq<char>, c: char) -> bool {
    exists|k: int| 0 <= k < s.len() && s[k] == c
}

/// Whether iso-8601's reader tries to parse a date at all: its entry point
/// skips the date part for text holding a colon but no `T`, and for text
/// holding a line feed unless it is colon- and `T`-free.
pub open spec fn iso_date_attempted(s: Seq<char>) -> bool {
    (!seq_has_char(s, 'T') && !seq_has_char(s, ':')) || (!seq_has_char(s, '\n') && (exists|k: int|
        1 <= k < s.len() && s[k] == 'T'))
}

/// The value of the three decimal digits at position `i`.
pub open spec fn ord3_val(s: Seq<char>, i: int) -> int {
    100 * dec_digit_val(s[i]) + 10 * dec_digit_val(s[i + 1]) + dec_digit_val(s[i + 2])
}

/// How many characters the optional sign before a year takes.
pub open spec fn iso_sign_len(s: Seq<char>) -> int {
    if s.len() > 0 && (s[0] == '-' || s[0] == '+') {
        1
    } else {
        0
    }
}

/// Whether the text starts like an ordinal date whose three day digits name
/// a value past 255: four year digits, then either a dash and three digits,
/// or three digits not followed by a fourth.
pub open spec fn iso_ordinal_overflow(s: Seq<char>) -> bool {
    let b = iso_sign_len(s);
    &&& s.len() >= b + 7
    &&& is_dec_digit(s[b]) && is_dec_digit(s[b + 1]) && is_dec_digit(s[b + 2]) && is_dec_digit(
        s[b + 3],
    )
    &&& ((s.len() >= b + 8 && s[b + 4] == '-' && is_dec_digit(s[b + 5]) && is_dec_digit(s[b + 6])
        && is_dec_digit(s[b + 7]) && ord3_val(s, b + 5) >= 256) || (is_dec_digit(s[b + 4])
        && is_dec_digit(s[b + 5]) && is_dec_digit(s[b + 6]) && ord3_val(s, b + 4) >= 256 && (
        s.len() == b + 7 || !is_dec_digit(s[b + 7]))))
}

/// Whether handing the text to iso-8601's reader would overflow: it folds an
/// ordinal date's three day digits into an eight-bit integer, so a day value
/// past 255 overflows whenever the date part is attempted.
pub open spec fn iso_year_panics(s: Seq<char>) -> bool {
    iso_date_attempted(s) && iso_ordinal_overflow(s)
}

/// The signed four-digit year heading an ordinal-shaped text.
pub open spec fn spec_ordinal_year(s: Seq<char>) -> int {
    let b = iso_sign_len(s);
    let sign: int = if s.len() > 0 && s[0] == '-' {
        -1
    } else {
        1
    };
    if s.len() >= b + 4 {
        sign * (1000 * dec_digit_val(s[b]) + 100 * dec_digit_val(s[b + 1]) + 10 * dec_digit_val(
            s[b + 2],
        ) + dec_digit_val(s[b + 3]))
    } else {
        0
    }
}

fn dec_digit(c: char) -> (r: bool)
    ensures
        r == is_dec_digit(c),
{
    (c as u32) >= 48 && (c as u32) <= 57
}

fn digit_val(c: char) -> (r: u32)
    requires
        is_dec_digit(c),
    ensures
        r as int == dec_digit_val(c),
{
    (c as u32) - 48
}

fn char_in(s: &Vec<char>, c: char) -> (r: bool)
    ensures
        r == seq_has_char(s@, c),
{
    let mut k: usize = 0;
    while k < s.len()
        invariant
            0 <= k <= s@.len(),
            forall|j: int| 0 <= j < k ==> s@[j] != c,
        decreases s@.len() - k,
    {
        if s[k] == c {
            return true;
        }
        k = k + 1;
    }
    false
}

fn t_after_first(s: &Vec<char>) -> (r: bool)
    ensures
        r == (exists|k: int| 1 <= k < s@.len() && s@[k] == 'T'),
{
    let mut k: usize = 1;
    while k < s.len()
        invariant
            1 <= k,
            k <= s@.len() || k == 1,
            forall|j: int| 1 <= j < k ==> s@[j] != 'T',
        decreases s@.len() - k,
    {
        if s[k] == 'T' {
            return true;
        }
        k = k + 1;
    }
    false
}

/// Whether iso-8601's reader would overflow on this text, as
/// [`iso_year_panics`] describes.
fn year_screen(s: &Vec<char>) -> (r: bool)
    ensures
        r == iso_year_panics(s@),
{
    let has_t = char_in(s, 'T');
    let has_colon = char_in(s, ':');
    let has_lf = char_in(s, '\n');
    let attempted = (!has_t && !has_colon) || (!has_lf && t_after_first(s));
    if !attempted {
        return false;
    }
    let n = s.len();
    let b: usize = if n > 0 && (s[0] == '-' || s[0] == '+') {
        1
    } else {
        0
    };
    if n < b + 7 {
        return false;
    }
    if !(dec_digit(s[b]) && dec_digit(s[b + 1]) && dec_digit(s[b + 2]) && dec_digit(s[b + 3])) {
        return false;
    }
    let ext = n >= b + 8 && s[b + 4] == '-' && dec_digit(s[b + 5]) && dec_digit(s[b + 6])
        && dec_digit(s[b + 7]) && 100 * digit_val(s[b + 5]) + 10 * digit_val(s[b + 6]) + digit_val(
        s[b + 7],
    ) >= 256;
    let basic = dec_digit(s[b + 4]) && dec_digit(s[b + 5]) && dec_digit(s[b + 6]) && 100
        * digit_val(s[b + 4]) + 10 * digit_val(s[b + 5]) + digit_val(s[b + 6]) >= 256 && (n == b + 7
        || !dec_digit(s[b + 7]));
    ext || basic
}

/// The signed four-digit year heading an ordinal-shaped text.
fn ordinal_year_head(s: &Vec<char>) -> (y: i64)
    requires
        iso_ordinal_overflow(s@),
    ensures
        y as int == spec_ordinal_year(s@),
{
    let n = s.len();
    let b: usize = if n > 0 && (s[0] == '-' || s[0] == '+') {
        1
    } else {
        0
    };
    proof {
        assert(b as int == iso_sign_len(s@));
    }
    let d0 = digit_val(s[b]);
    let d1 = digit_val(s[b + 1]);
    let d2 = digit_val(s[b + 2]);
    let d3 = digit_val(s[b + 3]);
    let v: u32 = 1000 * d0 + 100 * d1 + 10 * d2 + d3;
    proof {
        assert(v as int == 1000 * dec_digit_val(s@[b as int]) + 100 * dec_digit_val(
            s@[b + 1 as int],
        ) + 10 * dec_digit_val(s@[b + 2 as int]) + dec_digit_val(s@[b + 3 as int]));
    }
    if n > 0 && s[0] == '-' {
        proof {
            assert(spec_ordinal_year(s@) == -1 * (v as int));
            assert(-1 * (v as int) == -(v as int)) by (nonlinear_arith);
        }
        -(v as i64)
    } else {
        proof {
            assert(spec_ordinal_year(s@) == 1 * (v as int));
            assert(1 * (v as int) == v as int) by (nonlinear_arith);
        }
        v as i64
    }
}

/// The year named by a date in ISO 8601 form, where the text parses as one.
pub uninterp spec fn iso_year_of(s: Seq<char>) -> Option<i16>;

/// Relies on iso_8601's `PartialDateTime::from_str`: which year, if any, the
/// text names is a function of the characters alone; a century-only date or a
/// bare time names none. Its ordinal-date reader folds three day digits into
/// an eight-bit integer without an overflow check, so texts on which that
/// read would overflow are excluded here and handled by the caller.
#[verifier::external_body]
fn iso_year(s: &str) -> (r: Option<i16>)
    requires
        !iso_year_panics(s@),
    ensures
        r == iso_year_of(s@),
{
    let ad = match PartialDateTime::from_str(s) {
        Ok(PartialDateTime::Date(d)) => d,
        Ok(PartialDateTime::DateTime(dt)) => dt.date,
        _ => return None,
    };
    match ad {
        ApproxDate::YMD(d) => Some(d.year),
        ApproxDate::YM(d) => Some(d.year),
        ApproxDate::Y(d) => Some(d.year),
        ApproxDate::WD(d) => Some(d.year),
        ApproxDate::W(d) => Some(d.year),
        ApproxDate::O(d) => Some(d.year),
        ApproxDate::C(_) => None,
    }
}

/// The text `$year` renders for a parsed year: its decimal digits, or
/// nothing where no year was named.
pub open spec fn spec_year_text(y: Option<i16>) -> Seq<char> {
    match y {
        Some(v) => spec_int_str(v as int),
        None => Seq::empty(),
    }
}

/// Renders a parsed year as `$year` does.
pub fn year_text(y: Option<i16>) -> (r: String)
    ensures
        r@ == spec_year_text(y),
{
    match y {
        Some(v) => i64_to_string(v as i64),
        None => String::new(),
    }
}

/// `$year(s)`: the year of the date `s` names, or empty text where `s` names
/// no year; truth is passed through. Ordinal-shaped texts whose day digits
/// would overflow iso-8601's reader keep their leading four-digit year.
pub open spec fn spec_year(args: Seq<SpecValue>) -> Result<SpecValue, SpecError> {
    if args.len() != 1 {
        Err(SpecError::InvalidNativeFunctionArgs("year"@, args.len() as int))
    } else {
        let t = args[0].text;
        let text = if iso_year_panics(t) {
            spec_int_str(spec_ordinal_year(t))
        } else {
            spec_year_text(iso_year_of(t))
        };
        Ok(SpecValue { text, truth: args[0].truth })
    }
}

/// The year of the date the argument names, or empty text.
pub fn year(args: Vec<Value>) -> (r: Result<Value, Error>)
    ensures
        val_res_matches(r, spec_year(args.deep_view())),
{
    if args.len() != 1 {
        return Err(Error::InvalidNativeFunctionArgs("year".to_owned(), args.len()));
    }
    let sv = chars_of(args[0].val.as_str());
    if year_screen(&sv) {
        let y = ordinal_year_head(&sv);
        Ok(Value { val: i64_to_string(y), cond: args[0].cond })
    } else {
        let y = iso_year(args[0].val.as_str());
        Ok(Value { val: year_text(y), cond: args[0].cond })
    }
}

} // verus!
