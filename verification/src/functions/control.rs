//! Logic and conditional builtins, which read or override truth flags
//! directly.

use vstd::prelude::*;
use crate::types::{Error, SpecError};
use crate::environment::{Value, SpecValue, val_res_matches};
use crate::functions::num::spec_to_int;
use crate::functions::num::to_int;
use vstd::utf8::encode_utf8;

verus! {

/// `$and(a,b,...)`: empty text; true exactly when every argument is true.
pub open spec fn spec_and(args: Seq<SpecValue>) -> Result<SpecValue, SpecError> {
    if args.len() < 2 {
        Err(SpecError::InvalidNativeFunctionArgs("and"@, args.len() as int))
    } else {
        Ok(
            SpecValue {
                text: Seq::empty(),
                truth: (forall|k: int| 0 <= k < args.len() ==> (#[trigger] args[k]).truth),
            },
        )
    }
}

/// True exactly when every argument is true.
pub fn and(args: Vec<Value>) -> (r: Result<Value, Error>)
    ensures
        val_res_matches(r, spec_and(args.deep_view())),
{
    if args.len() < 2 {
        return Err(Error::InvalidNativeFunctionArgs("and".to_owned(), args.len()));
    }
    let ghost dv = args.deep_view();
    let mut c = true;
    let mut i: usize = 0;
    while i < args.len()
        invariant
            dv == args.deep_view(),
            0 <= i <= args@.len(),
            c == (forall|k: int| 0 <= k < i ==> (#[trigger] dv[k]).truth),
        decreases args@.len() - i,
    {
        let ci = args[i].cond;
        proof {
            assert(dv[i as int].truth == ci);
        }
        let c2 = c && ci;
        proof {
            if c2 {
                assert(forall|k: int| 0 <= k < i + 1 ==> (#[trigger] dv[k]).truth);
            } else {
                assert(!(forall|k: int| 0 <= k < i + 1 ==> (#[trigger] dv[k]).truth)) by {
                    if !ci {
                        assert(!dv[i as int].truth);
                    } else {
                        let w = choose|k: int| 0 <= k < i && !(#[trigger] dv[k]).truth;
                        assert(!dv[w].truth);
                    }
                }
            }
        }
        c = c2;
        i = i + 1;
    }
    Ok(Value { val: String::new(), cond: c })
}

/// `$or(a,b,...)`: empty text; true exactly when some argument is true.
pub open spec fn spec_or(args: Seq<SpecValue>) -> Result<SpecValue, SpecError> {
    if args.len() < 2 {
        Err(SpecError::InvalidNativeFunctionArgs("or"@, args.len() as int))
    } else {
        Ok(
            SpecValue {
                text: Seq::empty(),
                truth: (exists|k: int| 0 <= k < args.len() && (#[trigger] args[k]).truth),
            },
        )
    }
}

/// True exactly when some argument is true.
pub fn or(args: Vec<Value>) -> (r: Result<Value, Error>)
    ensures
        val_res_matches(r, spec_or(args.deep_view())),
{
    if args.len() < 2 {
        return Err(Error::InvalidNativeFunctionArgs("or".to_owned(), args.len()));
    }
    let ghost dv = args.deep_view();
    let mut c = false;
    let mut i: usize = 0;
    while i < args.len()
        invariant
            dv == args.deep_view(),
            0 <= i <= args@.len(),
            c == (exists|k: int| 0 <= k < i && (#[trigger] dv[k]).truth),
        decreases args@.len() - i,
    {
        let ci = args[i].cond;
        proof {
            assert(dv[i as int].truth == ci);
        }
        let c2 = c || ci;
        proof {
            if ci {
                assert(dv[i as int].truth);
            }
            if c2 {
                assert(exists|k: int| 0 <= k < i + 1 && (#[trigger] dv[k]).truth);
            } else {
                assert(!(exists|k: int| 0 <= k < i + 1 && (#[trigger] dv[k]).truth));
            }
        }
        c = c2;
        i = i + 1;
    }
    Ok(Value { val: String::new(), cond: c })
}

/// The exclusive-or of the truth flags from index `i` on, onto the
/// accumulator.
pub open spec fn spec_xor_fold(args: Seq<SpecValue>, i: int, acc: bool) -> bool
    decreases args.len() - i,
{
    if 0 <= i < args.len() {
        spec_xor_fold(args, i + 1, acc != args[i].truth)
    } else {
        acc
    }
}

/// `$xor(a,b,...)`: empty text; true exactly when an odd number of arguments
/// are true.
pub open spec fn spec_xor(args: Seq<SpecValue>) -> Result<SpecValue, SpecError> {
    if args.len() < 2 {
        Err(SpecError::InvalidNativeFunctionArgs("xor"@, args.len() as int))
    } else {
        Ok(SpecValue { text: Seq::empty(), truth: spec_xor_fold(args, 0, false) })
    }
}

/// True exactly when an odd number of arguments are true.
pub fn xor(args: Vec<Value>) -> (r: Result<Value, Error>)
    ensures
        val_res_matches(r, spec_xor(args.deep_view())),
{
    if args.len() < 2 {
        return Err(Error::InvalidNativeFunctionArgs("xor".to_owned(), args.len()));
    }
    let ghost dv = args.deep_view();
    let mut c = false;
    let mut i: usize = 0;
    while i < args.len()
        invariant
            dv == args.deep_view(),
            0 <= i <= args@.len(),
            spec_xor_fold(dv, 0, false) == spec_xor_fold(dv, i as int, c),
        decreases args@.len() - i,
    {
        c = c != args[i].cond;
        i = i + 1;
    }
    Ok(Value { val: String::new(), cond: c })
}

/// `$not(a)`: empty text; the logical opposite of the argument's truth.
pub open spec fn spec_not(args: Seq<SpecValue>) -> Result<SpecValue, SpecError> {
    if args.len() != 1 {
        Err(SpecError::InvalidNativeFunctionArgs("not"@, args.len() as int))
    } else {
        Ok(SpecValue { text: Seq::empty(), truth: !args[0].truth })
    }
}

/// The logical opposite of the argument's truth.
pub fn not(args: Vec<Value>) -> (r: Result<Value, Error>)
    ensures
        val_res_matches(r, spec_not(args.deep_view())),
{
    if args.len() != 1 {
        return Err(Error::InvalidNativeFunctionArgs("not".to_owned(), args.len()));
    }
    Ok(Value { val: String::new(), cond: !args[0].cond })
}

/// `$if(cond,then)` or `$if(cond,then,else)`: the then-value when `cond` is
/// true, else the else-value, or empty and false with no else part.
pub open spec fn spec_if(args: Seq<SpecValue>) -> Result<SpecValue, SpecError> {
    if args.len() != 2 && args.len() != 3 {
        Err(SpecError::InvalidNativeFunctionArgs("if"@, args.len() as int))
    } else if args[0].truth {
        Ok(args[1])
    } else if args.len() > 2 {
        Ok(args[2])
    } else {
        Ok(SpecValue { text: Seq::empty(), truth: false })
    }
}

/// The then-value when the condition is true, else the else-value.
pub fn if_(args: Vec<Value>) -> (r: Result<Value, Error>)
    ensures
        val_res_matches(r, spec_if(args.deep_view())),
{
    if args.len() != 2 && args.len() != 3 {
        return Err(Error::InvalidNativeFunctionArgs("if".to_owned(), args.len()));
    }
    if args[0].cond {
        Ok(args[1].clone())
    } else if args.len() > 2 {
        Ok(args[2].clone())
    } else {
        Ok(Value { val: String::new(), cond: false })
    }
}

/// `$if2(a,else)`: `a` itself when it is true, else the else-value.
pub open spec fn spec_if2(args: Seq<SpecValue>) -> Result<SpecValue, SpecError> {
    if args.len() != 2 {
        Err(SpecError::InvalidNativeFunctionArgs("if2"@, args.len() as int))
    } else if args[0].truth {
        Ok(args[0])
    } else {
        Ok(args[1])
    }
}

/// The first argument when it is true, else the second.
pub fn if2(args: Vec<Value>) -> (r: Result<Value, Error>)
    ensures
        val_res_matches(r, spec_if2(args.deep_view())),
{
    if args.len() != 2 {
        return Err(Error::InvalidNativeFunctionArgs("if2".to_owned(), args.len()));
    }
    if args[0].cond {
        Ok(args[0].clone())
    } else {
        Ok(args[1].clone())
    }
}

/// The first true argument from index `i` on, else the last argument.
pub open spec fn spec_if3_pick(args: Seq<SpecValue>, i: int) -> SpecValue
    decreases args.len() - i,
{
    if 0 <= i < args.len() {
        if args[i].truth {
            args[i]
        } else {
            spec_if3_pick(args, i + 1)
        }
    } else {
        args[args.len() - 1]
    }
}

/// `$if3(a1,...,aN,else)`: the first true argument, else the last one.
pub open spec fn spec_if3(args: Seq<SpecValue>) -> Result<SpecValue, SpecError> {
    if args.len() < 2 {
        Err(SpecError::InvalidNativeFunctionArgs("if3"@, args.len() as int))
    } else {
        Ok(spec_if3_pick(args, 0))
    }
}

/// The first true argument, else the last one.
pub fn if3(args: Vec<Value>) -> (r: Result<Value, Error>)
    ensures
        val_res_matches(r, spec_if3(args.deep_view())),
{
    if args.len() < 2 {
        return Err(Error::InvalidNativeFunctionArgs("if3".to_owned(), args.len()));
    }
    let ghost dv = args.deep_view();
    let mut i: usize = 0;
    while i < args.len()
        invariant
            dv == args.deep_view(),
            2 <= args@.len(),
            0 <= i <= args@.len(),
            spec_if3_pick(dv, 0) == spec_if3_pick(dv, i as int),
        decreases args@.len() - i,
    {
        if args[i].cond {
            return Ok(args[i].clone());
        }
        i = i + 1;
    }
    Ok(args[args.len() - 1].clone())
}

/// `$ifequal(a,b,then,else)`: the then-value when the numeric values are
/// equal, else the else-value.
pub open spec fn spec_ifequal(args: Seq<SpecValue>) -> Result<SpecValue, SpecError> {
    if args.len() != 4 {
        Err(SpecError::InvalidNativeFunctionArgs("ifequal"@, args.len() as int))
    } else if spec_to_int(args[0].text) == spec_to_int(args[1].text) {
        Ok(args[2])
    } else {
        Ok(args[3])
    }
}

/// The third argument when the first two are numerically equal, else the
/// fourth.
pub fn ifequal(args: Vec<Value>) -> (r: Result<Value, Error>)
    ensures
        val_res_matches(r, spec_ifequal(args.deep_view())),
{
    if args.len() != 4 {
        return Err(Error::InvalidNativeFunctionArgs("ifequal".to_owned(), args.len()));
    }
    if to_int(args[0].val.as_str()) == to_int(args[1].val.as_str()) {
        Ok(args[2].clone())
    } else {
        Ok(args[3].clone())
    }
}

/// `$ifgreater(a,b,then,else)`: the then-value when the first numeric value
/// is the greater, else the else-value.
pub open spec fn spec_ifgreater(args: Seq<SpecValue>) -> Result<SpecValue, SpecError> {
    if args.len() != 4 {
        Err(SpecError::InvalidNativeFunctionArgs("ifgreater"@, args.len() as int))
    } else if spec_to_int(args[0].text) > spec_to_int(args[1].text) {
        Ok(args[2])
    } else {
        Ok(args[3])
    }
}

/// The third argument when the first numeric value is the greater, else the
/// fourth.
pub fn ifgreater(args: Vec<Value>) -> (r: Result<Value, Error>)
    ensures
        val_res_matches(r, spec_ifgreater(args.deep_view())),
{
    if args.len() != 4 {
        return Err(Error::InvalidNativeFunctionArgs("ifgreater".to_owned(), args.len()));
    }
    if to_int(args[0].val.as_str()) > to_int(args[1].val.as_str()) {
        Ok(args[2].clone())
    } else {
        Ok(args[3].clone())
    }
}

/// `$iflonger(s,n,then,else)`: the then-value when the byte length of `s`
/// exceeds the nonnegative number `n`, else the else-value; a negative `n`
/// never counts as shorter.
pub open spec fn spec_iflonger(args: Seq<SpecValue>) -> Result<SpecValue, SpecError> {
    if args.len() != 4 {
        Err(SpecError::InvalidNativeFunctionArgs("iflonger"@, args.len() as int))
    } else {
        let n = spec_to_int(args[1].text);
        if n >= 0 && (encode_utf8(args[0].text).len() as usize) > n {
            Ok(args[2])
        } else {
            Ok(args[3])
        }
    }
}

/// The third argument when the first's byte length exceeds the second's
/// numeric value, else the fourth.
pub fn iflonger(args: Vec<Value>) -> (r: Result<Value, Error>)
    ensures
        val_res_matches(r, spec_iflonger(args.deep_view())),
{
    if args.len() != 4 {
        return Err(Error::InvalidNativeFunctionArgs("iflonger".to_owned(), args.len()));
    }
    let n = to_int(args[1].val.as_str());
    let len = args[0].val.as_str().len();
    if n >= 0 && (len as u64) > (n as u64) {
        Ok(args[2].clone())
    } else {
        Ok(args[3].clone())
    }
}

/// `$select(n,a1,...,aN)`: the `n`-th following argument when `n` lies
/// between one and `N`, else empty text and false.
pub open spec fn spec_select(args: Seq<SpecValue>) -> Result<SpecValue, SpecError> {
    if args.len() < 2 {
        Err(SpecError::InvalidNativeFunctionArgs("select"@, args.len() as int))
    } else {
        let n = spec_to_int(args[0].text);
        if 1 <= n < args.len() {
            Ok(args[n])
        } else {
            Ok(SpecValue { text: Seq::empty(), truth: false })
        }
    }
}

/// The argument the first value selects by position, else empty and false.
pub fn select(args: Vec<Value>) -> (r: Result<Value, Error>)
    ensures
        val_res_matches(r, spec_select(args.deep_view())),
{
    if args.len() < 2 {
        return Err(Error::InvalidNativeFunctionArgs("select".to_owned(), args.len()));
    }
    let n = to_int(args[0].val.as_str());
    if n >= 1 && (n as u64) < (args.len() as u64) {
        Ok(args[n as usize].clone())
    } else {
        Ok(Value { val: String::new(), cond: false })
    }
}

} // verus!
