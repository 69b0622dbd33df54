//! Laws the library's specifications obey, stated and proved once for all
//! inputs.

use vstd::prelude::*;
use crate::types::{SpecExpr, SpecError};
use crate::environment::{
    MetaT, VarsT, SpecValue, spec_unknown, meta_lookup, spec_meta_value, spec_meta_num_value,
    spec_join,
};
use crate::functions::num::spec_int_str;
use crate::functions::control::{spec_if, spec_and, spec_or};
use crate::parser::spec_parse;
use crate::program::{spec_eval, spec_eval_seq, spec_eval_cond_seq, spec_run};

verus! {

/// Parsing is a function of the text alone: two parses of one string give
/// structurally identical trees.
pub proof fn lemma_parse_deterministic(
    s: Seq<char>,
    r1: Result<Seq<SpecExpr>, SpecError>,
    r2: Result<Seq<SpecExpr>, SpecError>,
)
    requires
        r1 == spec_parse(s),
        r2 == spec_parse(s),
    ensures
        r1 == r2,
{
}

/// A field absent from the metadata renders as a question mark and is
/// untrue, so a conditional around it renders as nothing.
pub proof fn lemma_missing_field(md: MetaT, vars: VarsT, k: Seq<char>)
    requires
        meta_lookup(md, k) is None,
    ensures
        spec_eval(md, vars, SpecExpr::Variable(k)) == Ok::<_, SpecError>((spec_unknown(), vars)),
        spec_eval(md, vars, SpecExpr::Conditional(seq![SpecExpr::Variable(k)])) == Ok::<
            _,
            SpecError,
        >((SpecValue { text: Seq::empty(), truth: false }, vars)),
        spec_run(md, seq![SpecExpr::Variable(k)]) == Ok::<_, SpecError>(seq!['?']),
        spec_run(md, seq![SpecExpr::Conditional(seq![SpecExpr::Variable(k)])]) == Ok::<
            _,
            SpecError,
        >(Seq::<char>::empty()),
{
    let single = seq![SpecExpr::Variable(k)];
    let cond = seq![SpecExpr::Conditional(single)];
    let ghost v0: VarsT = Seq::empty();
    lemma_missing_field_seq(md, vars, k);
    lemma_missing_field_cond_seq(md, vars, k);
    lemma_missing_field_seq(md, v0, k);
    lemma_missing_field_cond_seq(md, v0, k);
    assert(seq!['?'] + Seq::<char>::empty() =~= seq!['?']);
    assert(cond.len() == 1);
    assert(cond[0] == SpecExpr::Conditional(single));
    assert(spec_eval(md, v0, cond[0]) == Ok::<_, SpecError>(
        (SpecValue { text: Seq::empty(), truth: false }, v0),
    ));
    assert(cond.drop_first() =~= Seq::<SpecExpr>::empty());
    assert(spec_eval_seq(md, v0, cond.drop_first()) == Ok::<_, SpecError>(
        (SpecValue { text: Seq::empty(), truth: false }, v0),
    ));
    assert(Seq::<char>::empty() + Seq::<char>::empty() =~= Seq::<char>::empty());
}

/// Evaluating just `%k%` for an absent field `k` yields a question mark,
/// untrue, with the scratch store untouched.
proof fn lemma_missing_field_seq(md: MetaT, vars: VarsT, k: Seq<char>)
    requires
        meta_lookup(md, k) is None,
    ensures
        spec_eval_seq(md, vars, seq![SpecExpr::Variable(k)]) == Ok::<_, SpecError>(
            (SpecValue { text: seq!['?'], truth: false }, vars),
        ),
{
    let single = seq![SpecExpr::Variable(k)];
    assert(single.len() == 1);
    assert(single[0] == SpecExpr::Variable(k));
    assert(spec_eval(md, vars, single[0]) == Ok::<_, SpecError>((spec_unknown(), vars)));
    assert(single.drop_first() =~= Seq::<SpecExpr>::empty());
    assert(spec_eval_seq(md, vars, single.drop_first()) == Ok::<_, SpecError>(
        (SpecValue { text: Seq::<char>::empty(), truth: false }, vars),
    ));
    assert(seq!['?'] + Seq::<char>::empty() =~= seq!['?']);
    assert(spec_unknown().text + Seq::<char>::empty() =~= seq!['?']);
}

/// The same, as a conditional body: a lone absent field reference leaves the
/// body untrue.
proof fn lemma_missing_field_cond_seq(md: MetaT, vars: VarsT, k: Seq<char>)
    requires
        meta_lookup(md, k) is None,
    ensures
        spec_eval_cond_seq(md, vars, seq![SpecExpr::Variable(k)]) == Ok::<_, SpecError>(
            (SpecValue { text: seq!['?'], truth: false }, vars),
        ),
{
    let single = seq![SpecExpr::Variable(k)];
    assert(single.len() == 1);
    assert(single[0] == SpecExpr::Variable(k));
    assert(spec_eval(md, vars, single[0]) == Ok::<_, SpecError>((spec_unknown(), vars)));
    assert(single.drop_first() =~= Seq::<SpecExpr>::empty());
    assert(spec_eval_cond_seq(md, vars, single.drop_first()) == Ok::<_, SpecError>(
        (SpecValue { text: Seq::<char>::empty(), truth: false }, vars),
    ));
    assert(seq!['?'] + Seq::<char>::empty() =~= seq!['?']);
    assert(spec_unknown().text + Seq::<char>::empty() =~= seq!['?']);
}

/// A conditional shows plain text only on the strength of its field
/// references: with body `%k%` then a literal, a present first value renders
/// both, an absent field renders nothing.
pub proof fn lemma_conditional_literal_tail(md: MetaT, vars: VarsT, k: Seq<char>, t: Seq<char>)
    ensures
        meta_lookup(md, k) is None ==> spec_eval(
            md,
            vars,
            SpecExpr::Conditional(seq![SpecExpr::Variable(k), SpecExpr::Literal(t)]),
        ) == Ok::<_, SpecError>((SpecValue { text: Seq::empty(), truth: false }, vars)),
        (match meta_lookup(md, k) {
            Some(vals) => vals.len() > 0 ==> spec_eval(
                md,
                vars,
                SpecExpr::Conditional(seq![SpecExpr::Variable(k), SpecExpr::Literal(t)]),
            ) == Ok::<_, SpecError>((SpecValue { text: vals[0] + t, truth: true }, vars)),
            None => true,
        }),
{
    let body = seq![SpecExpr::Variable(k), SpecExpr::Literal(t)];
    assert(body.len() == 2);
    assert(body[0] == SpecExpr::Variable(k));
    assert(body.drop_first() =~= seq![SpecExpr::Literal(t)]);
    assert(body.drop_first()[0] == SpecExpr::Literal(t));
    assert(body.drop_first().drop_first() =~= Seq::<SpecExpr>::empty());
    assert(spec_eval(md, vars, body.drop_first()[0]) == Ok::<_, SpecError>(
        (SpecValue { text: t, truth: true }, vars),
    ));
    assert(spec_eval_cond_seq(md, vars, body.drop_first().drop_first()) == Ok::<_, SpecError>(
        (SpecValue { text: Seq::<char>::empty(), truth: false }, vars),
    ));
    assert(spec_eval_cond_seq(md, vars, body.drop_first()) == Ok::<_, SpecError>(
        (SpecValue { text: t + Seq::<char>::empty(), truth: false }, vars),
    ));
    assert(t + Seq::<char>::empty() =~= t);
    match meta_lookup(md, k) {
        None => {
            assert(spec_eval(md, vars, body[0]) == Ok::<_, SpecError>((spec_unknown(), vars)));
            assert(spec_eval_cond_seq(md, vars, body) == Ok::<_, SpecError>(
                (SpecValue { text: seq!['?'] + t, truth: false }, vars),
            ));
        },
        Some(vals) => {
            if vals.len() > 0 {
                assert(spec_eval(md, vars, body[0]) == Ok::<_, SpecError>(
                    (SpecValue { text: vals[0], truth: true }, vars),
                ));
                assert(spec_eval_cond_seq(md, vars, body) == Ok::<_, SpecError>(
                    (SpecValue { text: vals[0] + t, truth: true }, vars),
                ));
            }
        },
    }
}

/// The plain joined form of a value list: the values in order with the
/// separator between neighbours.
pub open spec fn spec_joined(vals: Seq<Seq<char>>, sep: Seq<char>) -> Seq<char>
    decreases vals.len(),
{
    if vals.len() == 0 {
        Seq::empty()
    } else if vals.len() == 1 {
        vals[0]
    } else {
        vals[0] + sep + spec_joined(vals.drop_first(), sep)
    }
}

/// The values from `i` on, each preceded by the separator.
pub open spec fn rest_join(vals: Seq<Seq<char>>, sep: Seq<char>, i: int) -> Seq<char>
    decreases vals.len() - i,
{
    if 0 <= i < vals.len() {
        sep + vals[i] + rest_join(vals, sep, i + 1)
    } else {
        Seq::empty()
    }
}

/// Past the first value, the accumulator join appends the separator-led
/// rest.
proof fn lemma_join_acc(vals: Seq<Seq<char>>, sep: Seq<char>, i: int, acc: Seq<char>)
    requires
        1 <= i <= vals.len(),
    ensures
        spec_join(vals, sep, sep, i, acc) == acc + rest_join(vals, sep, i),
    decreases vals.len() - i,
{
    if i < vals.len() {
        lemma_join_acc(vals, sep, i + 1, (acc + sep) + vals[i]);
        assert(((acc + sep) + vals[i]) + rest_join(vals, sep, i + 1) =~= acc + (sep + vals[i]
            + rest_join(vals, sep, i + 1)));
    } else {
        assert(acc + Seq::<char>::empty() =~= acc);
    }
}

/// The plain joined form of a suffix unrolls value by value.
proof fn lemma_joined_suffix(vals: Seq<Seq<char>>, sep: Seq<char>, i: int)
    requires
        0 <= i < vals.len(),
    ensures
        spec_joined(vals.skip(i), sep) == vals[i] + rest_join(vals, sep, i + 1),
    decreases vals.len() - i,
{
    let rest = vals.skip(i);
    assert(rest[0] == vals[i]);
    if rest.len() == 1 {
        assert(vals[i] + Seq::<char>::empty() =~= vals[i]);
    } else {
        lemma_joined_suffix(vals, sep, i + 1);
        assert(rest.drop_first() =~= vals.skip(i + 1));
        assert(vals[i] + sep + (vals[i + 1] + rest_join(vals, sep, i + 2)) =~= vals[i] + (sep
            + vals[i + 1] + rest_join(vals, sep, i + 2)));
    }
}

/// The accumulator join that the metadata builtins use equals the plain
/// joined form when both separators are the same.
pub proof fn lemma_join_is_joined(vals: Seq<Seq<char>>, sep: Seq<char>)
    ensures
        spec_join(vals, sep, sep, 0, Seq::empty()) == spec_joined(vals, sep),
{
    if vals.len() == 0 {
    } else {
        assert(spec_join(vals, sep, sep, 0, Seq::empty()) == spec_join(
            vals,
            sep,
            sep,
            1,
            Seq::<char>::empty() + vals[0],
        ));
        lemma_join_acc(vals, sep, 1, Seq::<char>::empty() + vals[0]);
        lemma_joined_suffix(vals, sep, 0);
        assert(vals.skip(0) =~= vals);
        assert((Seq::<char>::empty() + vals[0]) + rest_join(vals, sep, 1) =~= vals[0] + rest_join(
            vals,
            sep,
            1,
        ));
    }
}

/// For a field with at least one value, `$meta_num` counts exactly its
/// values, and `$meta` joins exactly those values with a comma and space.
pub proof fn lemma_meta_of_present_field(md: MetaT, k: Seq<char>, vals: Seq<Seq<char>>)
    requires
        meta_lookup(md, k) == Some(vals),
        vals.len() > 0,
    ensures
        spec_meta_num_value(md, seq![SpecValue { text: k, truth: true }]) == Ok::<_, SpecError>(
            SpecValue { text: spec_int_str(vals.len() as int), truth: true },
        ),
        spec_meta_value(md, seq![SpecValue { text: k, truth: true }]) == Ok::<_, SpecError>(
            SpecValue { text: spec_joined(vals, seq![',', ' ']), truth: true },
        ),
{
    lemma_join_is_joined(vals, seq![',', ' ']);
}

/// `$if` with three arguments yields the second when the first is true and
/// the third otherwise; with two, an untrue condition yields emptiness and
/// falsehood. `$and` and `$or` reject fewer than two arguments.
pub proof fn lemma_if_and_or(args: Seq<SpecValue>)
    ensures
        args.len() == 3 ==> spec_if(args) == Ok::<_, SpecError>(
            if args[0].truth {
                args[1]
            } else {
                args[2]
            },
        ),
        args.len() == 2 ==> spec_if(args) == Ok::<_, SpecError>(
            if args[0].truth {
                args[1]
            } else {
                SpecValue { text: Seq::empty(), truth: false }
            },
        ),
        args.len() < 2 ==> spec_and(args) == Err::<SpecValue, _>(
            SpecError::InvalidNativeFunctionArgs("and"@, args.len() as int),
        ),
        args.len() < 2 ==> spec_or(args) == Err::<SpecValue, _>(
            SpecError::InvalidNativeFunctionArgs("or"@, args.len() as int),
        ),
{
}

} // verus!
