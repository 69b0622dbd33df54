//! The metadata builtins as free functions over an environment.

use vstd::prelude::*;
use crate::types::Error;
use crate::environment::{
    Environment, Value, val_res_matches, spec_meta_value, spec_meta_sep_value,
    spec_meta_num_value, spec_meta_test_value,
};

verus! {

/// `$meta(name[,i])`: the named field's joined values, or one of them.
pub fn meta(env: &Environment, args: Vec<Value>) -> (r: Result<Value, Error>)
    ensures
        val_res_matches(r, spec_meta_value(env.md(), args.deep_view())),
{
    env.meta_value(args)
}

/// `$meta_sep(name,sep[,lastsep])`: the named field's values joined with the
/// given separators.
pub fn meta_sep(env: &Environment, args: Vec<Value>) -> (r: Result<Value, Error>)
    ensures
        val_res_matches(r, spec_meta_sep_value(env.md(), args.deep_view())),
{
    env.meta_sep_value(args)
}

/// `$meta_test(name,...)`: true exactly when every named field holds a value.
pub fn meta_test(env: &Environment, args: Vec<Value>) -> (r: Result<Value, Error>)
    ensures
        val_res_matches(r, spec_meta_test_value(env.md(), args.deep_view())),
{
    env.meta_test_value(args)
}

/// `$meta_num(name)`: how many values the named field holds.
pub fn meta_num(env: &Environment, args: Vec<Value>) -> (r: Result<Value, Error>)
    ensures
        val_res_matches(r, spec_meta_num_value(env.md(), args.deep_view())),
{
    env.meta_num_value(args)
}

} // verus!
