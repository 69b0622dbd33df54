//! The format-string parser: a recursive-descent grammar over characters,
//! with balanced-delimiter scanning for function arguments and conditional
//! bodies, apostrophe escapes, and comment stripping.

use vstd::prelude::*;
use crate::types::{Error, SpecError, Expr, SpecExpr, expr_view, exprs_view, arg_groups_view};
use crate::strutil::{chars_of, string_from_chars};

verus! {

/// The three literal contexts; they differ in which special characters pass
/// through as plain text.
#[derive(Clone, Copy, PartialEq, Eq, Structural)]
pub enum Ctx {
    /// Top-level text: parentheses, brackets and commas are all plain.
    Standard,
    /// Function-argument text: a close parenthesis or comma ends the span.
    FuncArg,
    /// Conditional-body text: a close bracket ends the span.
    CondBody,
}

/// The characters that cannot stand bare in literal text.
pub open spec fn is_special(c: char) -> bool {
    c == '%' || c == '$' || c == ',' || c == '[' || c == ']' || c == '<' || c == '>' || c == '\''
        || c == '(' || c == ')' || c == '/' || c == '\r' || c == '\n'
}

fn is_special_exec(c: char) -> (r: bool)
    ensures
        r == is_special(c),
{
    c == '%' || c == '$' || c == ',' || c == '[' || c == ']' || c == '<' || c == '>' || c == '\''
        || c == '(' || c == ')' || c == '/' || c == '\r' || c == '\n'
}

/// The special characters a context lets through as plain text.
pub open spec fn is_passthrough(c: char, ctx: Ctx) -> bool {
    match ctx {
        Ctx::Standard => c == '(' || c == ')' || c == ']' || c == ',',
        Ctx::FuncArg => c == '(' || c == ']',
        Ctx::CondBody => c == '(' || c == ')' || c == ',',
    }
}

fn is_passthrough_exec(c: char, ctx: Ctx) -> (r: bool)
    ensures
        r == is_passthrough(c, ctx),
{
    match ctx {
        Ctx::Standard => c == '(' || c == ')' || c == ']' || c == ',',
        Ctx::FuncArg => c == '(' || c == ']',
        Ctx::CondBody => c == '(' || c == ')' || c == ',',
    }
}

/// The first position at or after `i` holding the character `c`.
pub open spec fn find_char(s: Seq<char>, i: int, c: char) -> Option<int>
    decreases s.len() - i,
{
    if 0 <= i < s.len() {
        if s[i] == c {
            Some(i)
        } else {
            find_char(s, i + 1, c)
        }
    } else {
        None
    }
}

fn find_char_exec(s: &Vec<char>, i: usize, c: char) -> (r: Option<usize>)
    requires
        i <= s@.len(),
    ensures
        find_char(s@, i as int, c) == (match r {
            Some(j) => Some(j as int),
            None => None,
        }),
        r is Some ==> i <= r->0 < s@.len(),
{
    let n = s.len();
    let mut k: usize = i;
    while k < n
        invariant
            n == s@.len(),
            i <= k <= n,
            find_char(s@, i as int, c) == find_char(s@, k as int, c),
        decreases n - k,
    {
        if s[k] == c {
            return Some(k);
        }
        k = k + 1;
    }
    None
}

/// The position of the bracket that closes a conditional body, scanning from
/// `i` at nesting depth `depth`.
pub open spec fn scan_cond_end(s: Seq<char>, i: int, depth: int) -> Option<int>
    decreases s.len() - i,
{
    if 0 <= i < s.len() {
        if s[i] == '[' {
            scan_cond_end(s, i + 1, depth + 1)
        } else if s[i] == ']' {
            if depth == 1 {
                Some(i)
            } else {
                scan_cond_end(s, i + 1, depth - 1)
            }
        } else {
            scan_cond_end(s, i + 1, depth)
        }
    } else {
        None
    }
}

fn scan_cond_end_exec(s: &Vec<char>, i: usize, depth: u64) -> (r: Option<usize>)
    requires
        i <= s@.len(),
        depth >= 1,
    ensures
        scan_cond_end(s@, i as int, depth as int) == (match r {
            Some(j) => Some(j as int),
            None => None,
        }),
        r is Some ==> i <= r->0 < s@.len(),
    decreases s@.len() - i,
{
    let n = s.len();
    let mut k: usize = i;
    let mut d: u128 = depth as u128;
    while k < n
        invariant
            n == s@.len(),
            i <= k <= n,
            d >= 1,
            d as int <= depth as int + (k - i),
            scan_cond_end(s@, i as int, depth as int) == scan_cond_end(s@, k as int, d as int),
        decreases n - k,
    {
        let c = s[k];
        if c == '[' {
            d = d + 1;
        } else if c == ']' {
            if d == 1 {
                return Some(k);
            }
            d = d - 1;
        }
        k = k + 1;
    }
    None
}

/// Where a function argument span ends, scanning from `i` at depth `depth`:
/// the position of the separating comma (`true`) or of the closing
/// parenthesis (`false`).
pub open spec fn scan_arg_end(s: Seq<char>, i: int, depth: int) -> Option<(int, bool)>
    decreases s.len() - i,
{
    if 0 <= i < s.len() {
        if s[i] == '$' {
            scan_arg_end(s, i + 1, depth + 1)
        } else if s[i] == ')' {
            if depth == 1 {
                Some((i, false))
            } else {
                scan_arg_end(s, i + 1, depth - 1)
            }
        } else if s[i] == ',' && depth == 1 {
            Some((i, true))
        } else {
            scan_arg_end(s, i + 1, depth)
        }
    } else {
        None
    }
}

fn scan_arg_end_exec(s: &Vec<char>, i: usize, depth: u64) -> (r: Option<(usize, bool)>)
    requires
        i <= s@.len(),
        depth >= 1,
    ensures
        scan_arg_end(s@, i as int, depth as int) == (match r {
            Some((j, comma)) => Some((j as int, comma)),
            None => None,
        }),
        r is Some ==> i <= (r->0).0 < s@.len(),
{
    let n = s.len();
    let mut k: usize = i;
    let mut d: u128 = depth as u128;
    while k < n
        invariant
            n == s@.len(),
            i <= k <= n,
            d >= 1,
            d as int <= depth as int + (k - i),
            scan_arg_end(s@, i as int, depth as int) == scan_arg_end(s@, k as int, d as int),
        decreases n - k,
    {
        let c = s[k];
        if c == '$' {
            d = d + 1;
        } else if c == ')' {
            if d == 1 {
                return Some((k, false));
            }
            d = d - 1;
        } else if c == ',' && d == 1 {
            return Some((k, true));
        }
        k = k + 1;
    }
    None
}

/// What a literal run yields: where it stops, the text it collected, and
/// whether any non-comment fragment was consumed.
pub struct LitRes {
    pub end: int,
    pub text: Seq<char>,
    pub seen: bool,
}

/// Scans a literal run from `i`, collecting onto `acc`: plain characters,
/// context passthroughs, apostrophe escapes, deleted newlines, and
/// zero-width comments; it stops at the first character that none of these
/// cover.
pub open spec fn lit_scan(s: Seq<char>, i: int, acc: Seq<char>, seen: bool, ctx: Ctx) -> LitRes
    decreases s.len() - i,
{
    if !(0 <= i < s.len()) {
        LitRes { end: i, text: acc, seen }
    } else {
        let c = s[i];
        if c == '/' && i + 1 < s.len() && s[i + 1] == '/' {
            match find_char(s, i + 2, '\n') {
                Some(k) => if i + 2 <= k < s.len() {
                    lit_scan(s, k + 1, acc, seen, ctx)
                } else {
                    LitRes { end: i, text: acc, seen }
                },
                None => LitRes { end: s.len() as int, text: acc, seen },
            }
        } else if c == '\'' && i + 1 < s.len() && s[i + 1] == '\'' {
            lit_scan(s, i + 2, acc.push('\''), true, ctx)
        } else if c == '\'' {
            match find_char(s, i + 1, '\'') {
                Some(k) => if i + 1 <= k < s.len() {
                    lit_scan(s, k + 1, acc + s.subrange(i + 1, k), true, ctx)
                } else {
                    LitRes { end: i, text: acc, seen }
                },
                None => LitRes { end: i, text: acc, seen },
            }
        } else if c == '\n' {
            lit_scan(s, i + 1, acc, true, ctx)
        } else if c == '\r' && i + 1 < s.len() && s[i + 1] == '\n' {
            lit_scan(s, i + 2, acc, true, ctx)
        } else if c == '<' || c == '>' || c == '/' {
            lit_scan(s, i + 1, acc.push(c), true, ctx)
        } else if is_passthrough(c, ctx) {
            lit_scan(s, i + 1, acc.push(c), true, ctx)
        } else if !is_special(c) {
            lit_scan(s, i + 1, acc.push(c), true, ctx)
        } else {
            LitRes { end: i, text: acc, seen }
        }
    }
}

fn lit_scan_exec(s: &Vec<char>, start: usize, ctx: Ctx) -> (r: (usize, Vec<char>, bool))
    requires
        start <= s@.len(),
    ensures
        (lit_scan(s@, start as int, Seq::empty(), false, ctx) == LitRes {
            end: r.0 as int,
            text: r.1@,
            seen: r.2,
        }),
        start <= r.0 <= s@.len(),
    {
    let n = s.len();
    let mut i: usize = start;
    let mut text: Vec<char> = Vec::new();
    let mut seen = false;
    while i < n
        invariant
            n == s@.len(),
            start <= i <= n,
            lit_scan(s@, start as int, Seq::empty(), false, ctx) == lit_scan(
                s@,
                i as int,
                text@,
                seen,
                ctx,
            ),
        decreases n - i,
    {
        let c = s[i];
        if c == '/' && i + 1 < n && s[i + 1] == '/' {
            match find_char_exec(s, i + 2, '\n') {
                Some(k) => {
                    i = k + 1;
                },
                None => {
                    return (n, text, seen);
                },
            }
        } else if c == '\'' && i + 1 < n && s[i + 1] == '\'' {
            text.push('\'');
            seen = true;
            i = i + 2;
        } else if c == '\'' {
            match find_char_exec(s, i + 1, '\'') {
                Some(k) => {
                    let ghost t0 = text@;
                    let mut m: usize = i + 1;
                    while m < k
                        invariant
                            i + 1 <= m <= k < s@.len(),
                            text@ == t0 + s@.subrange(i + 1 as int, m as int),
                        decreases k - m,
                    {
                        text.push(s[m]);
                        proof {
                            assert(t0 + s@.subrange(i + 1 as int, m + 1 as int) =~= (t0
                                + s@.subrange(i + 1 as int, m as int)).push(s@[m as int]));
                        }
                        m = m + 1;
                    }
                    proof {
                        if i + 1 == k {
                            assert(text@ =~= t0 + s@.subrange(i + 1 as int, k as int));
                        }
                    }
                    seen = true;
                    i = k + 1;
                },
                None => {
                    return (i, text, seen);
                },
            }
        } else if c == '\n' {
            seen = true;
            i = i + 1;
        } else if c == '\r' && i + 1 < n && s[i + 1] == '\n' {
            seen = true;
            i = i + 2;
        } else if c == '<' || c == '>' || c == '/' {
            text.push(c);
            seen = true;
            i = i + 1;
        } else if is_passthrough_exec(c, ctx) {
            text.push(c);
            seen = true;
            i = i + 1;
        } else if !is_special_exec(c) {
            text.push(c);
            seen = true;
            i = i + 1;
        } else {
            return (i, text, seen);
        }
    }
    (i, text, seen)
}

/// The first position at or after `i` that does not hold a line feed;
/// a function call consumes the line feeds that follow it.
pub open spec fn skip_lf(s: Seq<char>, i: int) -> int
    decreases s.len() - i,
{
    if 0 <= i < s.len() && s[i] == '\n' {
        skip_lf(s, i + 1)
    } else {
        i
    }
}

/// The items of `s` parsed from position `i` on, in the given context,
/// appended to `acc`; or the parse error.
pub open spec fn parse_items(s: Seq<char>, i: int, acc: Seq<SpecExpr>, ctx: Ctx) -> Result<
    Seq<SpecExpr>,
    SpecError,
>
    decreases s.len(), s.len() - i,
{
    if i >= s.len() {
        Ok(acc)
    } else if i < 0 {
        Err(SpecError::ParseError)
    } else {
        let c = s[i];
        if c == '[' {
            match scan_cond_end(s, i + 1, 1) {
                Some(j) => if i < j && j < s.len() {
                    match parse_seq(s.subrange(i + 1, j), Ctx::CondBody) {
                        Ok(es) => parse_items(s, j + 1, acc.push(SpecExpr::Conditional(es)), ctx),
                        Err(e) => Err(e),
                    }
                } else {
                    Err(SpecError::ParseError)
                },
                None => Err(SpecError::ParseError),
            }
        } else if c == '$' {
            match find_char(s, i + 1, '(') {
                Some(p) => if i < p && p < s.len() {
                    match parse_args(s, p + 1, Seq::empty()) {
                        Ok((argss, end)) => if i < end && end <= s.len() && i < skip_lf(s, end)
                            && skip_lf(s, end) <= s.len() {
                            parse_items(
                                s,
                                skip_lf(s, end),
                                acc.push(SpecExpr::FuncCall(s.subrange(i + 1, p), argss)),
                                ctx,
                            )
                        } else {
                            Err(SpecError::ParseError)
                        },
                        Err(e) => Err(e),
                    }
                } else {
                    Err(SpecError::ParseError)
                },
                None => Err(SpecError::ParseError),
            }
        } else if c == '%' {
            match find_char(s, i + 1, '%') {
                Some(p) => if i + 1 < p && p < s.len() {
                    parse_items(s, p + 1, acc.push(SpecExpr::Variable(s.subrange(i + 1, p))), ctx)
                } else {
                    Err(SpecError::ParseError)
                },
                None => Err(SpecError::ParseError),
            }
        } else {
            let lr = lit_scan(s, i, Seq::empty(), false, ctx);
            if i < lr.end && lr.end <= s.len() {
                if lr.seen {
                    parse_items(s, lr.end, acc.push(SpecExpr::Literal(lr.text)), ctx)
                } else {
                    parse_items(s, lr.end, acc, ctx)
                }
            } else {
                Err(SpecError::ParseError)
            }
        }
    }
}

/// The argument spans of a call parsed from position `i` on, appended to
/// `acc`, together with the position after the closing parenthesis.
pub open spec fn parse_args(s: Seq<char>, i: int, acc: Seq<Seq<SpecExpr>>) -> Result<
    (Seq<Seq<SpecExpr>>, int),
    SpecError,
>
    decreases s.len(), s.len() - i,
{
    if !(0 <= i <= s.len()) {
        Err(SpecError::ParseError)
    } else {
        match scan_arg_end(s, i, 1) {
            Some((j, comma)) => if i <= j && j < s.len() {
                match parse_seq(s.subrange(i, j), Ctx::FuncArg) {
                    Ok(es) => if comma {
                        parse_args(s, j + 1, acc.push(es))
                    } else {
                        Ok((acc.push(es), j + 1))
                    },
                    Err(e) => Err(e),
                }
            } else {
                Err(SpecError::ParseError)
            },
            None => Err(SpecError::ParseError),
        }
    }
}

/// A whole span parsed as a sequence of expressions in the given context.
pub open spec fn parse_seq(s: Seq<char>, ctx: Ctx) -> Result<Seq<SpecExpr>, SpecError>
    decreases s.len(), s.len() + 1,
{
    parse_items(s, 0, Seq::empty(), ctx)
}

/// What `parse` yields on a format string: the expression sequence, or the
/// parse error.
pub open spec fn spec_parse(s: Seq<char>) -> Result<Seq<SpecExpr>, SpecError> {
    parse_seq(s, Ctx::Standard)
}

/// Appending an expression extends the sequence view by its view.
pub proof fn lemma_exprs_view_push(v: Seq<Expr>, e: Expr)
    ensures
        exprs_view(v.push(e)) =~= exprs_view(v).push(expr_view(e)),
{
}

/// Appending an argument group extends the groups view by its view.
pub proof fn lemma_arg_groups_view_push(args: Seq<Vec<Expr>>, g: Vec<Expr>)
    ensures
        arg_groups_view(args.push(g)) =~= arg_groups_view(args).push(exprs_view(g@)),
{
}

/// The characters of `s` between `a` and `b`.
fn subvec(s: &Vec<char>, a: usize, b: usize) -> (r: Vec<char>)
    requires
        a <= b <= s@.len(),
    ensures
        r@ == s@.subrange(a as int, b as int),
{
    let mut r: Vec<char> = Vec::new();
    let mut m: usize = a;
    while m < b
        invariant
            a <= m <= b <= s@.len(),
            r@ == s@.subrange(a as int, m as int),
        decreases b - m,
    {
        r.push(s[m]);
        proof {
            assert(s@.subrange(a as int, m + 1 as int) =~= s@.subrange(a as int, m as int).push(
                s@[m as int],
            ));
        }
        m = m + 1;
    }
    proof {
        if a == b {
            assert(r@ =~= s@.subrange(a as int, b as int));
        }
    }
    r
}

fn parse_span(s: &Vec<char>, ctx: Ctx) -> (r: Result<Vec<Expr>, Error>)
    ensures
        (match parse_seq(s@, ctx) {
            Ok(es) => r is Ok && exprs_view(r->Ok_0@) == es,
            Err(e) => r is Err && r->Err_0.deep_view() == e,
        }),
    decreases s@.len(),
{
    let n = s.len();
    let mut acc: Vec<Expr> = Vec::new();
    let mut i: usize = 0;
    proof {
        assert(exprs_view(acc@) =~= Seq::<SpecExpr>::empty());
    }
    while i < n
        invariant
            n == s@.len(),
            0 <= i <= n,
            parse_seq(s@, ctx) == parse_items(s@, i as int, exprs_view(acc@), ctx),
        decreases n - i,
    {
        let c = s[i];
        if c == '[' {
            match scan_cond_end_exec(s, i + 1, 1) {
                None => {
                    return Err(Error::ParseError);
                },
                Some(j) => {
                    let sub = subvec(s, i + 1, j);
                    match parse_span(&sub, Ctx::CondBody) {
                        Err(e) => {
                            return Err(e);
                        },
                        Ok(es) => {
                            let ghost prev = acc@;
                            let ghost esv = exprs_view(es@);
                            acc.push(Expr::Conditional(es));
                            proof {
                                lemma_exprs_view_push(
                                    prev,
                                    acc@[acc@.len() - 1],
                                );
                                assert(expr_view(acc@[acc@.len() - 1])
                                    == SpecExpr::Conditional(esv));
                            }
                            i = j + 1;
                        },
                    }
                },
            }
        } else if c == '$' {
            match find_char_exec(s, i + 1, '(') {
                None => {
                    return Err(Error::ParseError);
                },
                Some(p) => {
                    let name_chars = subvec(s, i + 1, p);
                    let name = string_from_chars(name_chars.as_slice());
                    let mut argss: Vec<Vec<Expr>> = Vec::new();
                    let mut k: usize = p + 1;
                    proof {
                        assert(arg_groups_view(argss@) =~= Seq::<Seq<SpecExpr>>::empty());
                    }
                    loop
                        invariant_except_break
                            parse_args(s@, p + 1 as int, Seq::empty()) == parse_args(
                                s@,
                                k as int,
                                arg_groups_view(argss@),
                            ),
                        invariant
                            n == s@.len(),
                            0 <= i < n,
                            i < p < n,
                            p < k <= n,
                            s@[i as int] == '$',
                            find_char(s@, i + 1 as int, '(') == Some(p as int),
                            parse_seq(s@, ctx) == parse_items(s@, i as int, exprs_view(acc@), ctx),
                        ensures
                            i < k <= n,
                            parse_args(s@, p + 1 as int, Seq::empty()) == Ok::<_, SpecError>(
                                (arg_groups_view(argss@), k as int),
                            ),
                        decreases n - k,
                    {
                        match scan_arg_end_exec(s, k, 1) {
                            None => {
                                return Err(Error::ParseError);
                            },
                            Some((j, comma)) => {
                                let sub = subvec(s, k, j);
                                match parse_span(&sub, Ctx::FuncArg) {
                                    Err(e) => {
                                        return Err(e);
                                    },
                                    Ok(es) => {
                                        let ghost prevg = argss@;
                                        let ghost esv = exprs_view(es@);
                                        argss.push(es);
                                        proof {
                                            lemma_arg_groups_view_push(
                                                prevg,
                                                argss@[argss@.len() - 1],
                                            );
                                        }
                                        if comma {
                                            k = j + 1;
                                        } else {
                                            k = j + 1;
                                            break;
                                        }
                                    },
                                }
                            },
                        }
                    }
                    let ghost end0 = k as int;
                    while k < n && s[k] == '\n'
                        invariant
                            n == s@.len(),
                            end0 <= k <= n,
                            skip_lf(s@, end0) == skip_lf(s@, k as int),
                        decreases n - k,
                    {
                        k = k + 1;
                    }
                    proof {
                        assert(skip_lf(s@, k as int) == k as int);
                    }
                    let ghost prev = acc@;
                    let ghost namev = name@;
                    let ghost argsv = arg_groups_view(argss@);
                    acc.push(Expr::FuncCall(name, argss));
                    proof {
                        lemma_exprs_view_push(prev, acc@[acc@.len() - 1]);
                        assert(expr_view(acc@[acc@.len() - 1]) == SpecExpr::FuncCall(
                            namev,
                            argsv,
                        ));
                    }
                    i = k;
                },
            }
        } else if c == '%' {
            match find_char_exec(s, i + 1, '%') {
                None => {
                    return Err(Error::ParseError);
                },
                Some(p) => {
                    if p == i + 1 {
                        return Err(Error::ParseError);
                    }
                    let name_chars = subvec(s, i + 1, p);
                    let name = string_from_chars(name_chars.as_slice());
                    let ghost prev = acc@;
                    let ghost namev = name@;
                    acc.push(Expr::Variable(name));
                    proof {
                        lemma_exprs_view_push(prev, acc@[acc@.len() - 1]);
                        assert(expr_view(acc@[acc@.len() - 1]) == SpecExpr::Variable(namev));
                    }
                    i = p + 1;
                },
            }
        } else {
            let (end, text, seen) = lit_scan_exec(s, i, ctx);
            if end == i {
                return Err(Error::ParseError);
            }
            if seen {
                let lit = string_from_chars(text.as_slice());
                let ghost prev = acc@;
                let ghost litv = lit@;
                acc.push(Expr::Literal(lit));
                proof {
                    lemma_exprs_view_push(prev, acc@[acc@.len() - 1]);
                    assert(expr_view(acc@[acc@.len() - 1]) == SpecExpr::Literal(litv));
                }
            }
            i = end;
        }
    }
    Ok(acc)
}

/// Parses a format string into its expression sequence; any malformed input
/// is the parse error, and the whole input must be consumed.
pub fn parse(input: &str) -> (r: Result<Vec<Expr>, Error>)
    ensures
        (match spec_parse(input@) {
            Ok(es) => r is Ok && exprs_view(r->Ok_0@) == es,
            Err(e) => r is Err && r->Err_0.deep_view() == e,
        }),
{
    let v = chars_of(input);
    parse_span(&v, Ctx::Standard)
}

} // verus!
