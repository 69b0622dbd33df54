//! The template program: a parsed expression tree, and the evaluator that
//! walks it against an environment.

use vstd::prelude::*;
use vstd::string::StringExecFns;
use crate::types::{
    Error, SpecError, Expr, SpecExpr, expr_view, exprs_view, arg_groups_view, str_res_matches,
};
use crate::environment::{
    Environment, Value, SpecValue, MetaT, VarsT, spec_meta_i, spec_call,
};
use crate::parser;

verus! {

/// What one expression evaluates to, and the scratch store it leaves.
pub open spec fn spec_eval(md: MetaT, vars: VarsT, e: SpecExpr) -> Result<
    (SpecValue, VarsT),
    SpecError,
>
    decreases e,
{
    match e {
        SpecExpr::Literal(t) => Ok((SpecValue { text: t, truth: true }, vars)),
        SpecExpr::Variable(n) => Ok((spec_meta_i(md, n, 0), vars)),
        SpecExpr::Conditional(es) => match spec_eval_cond_seq(md, vars, es) {
            Ok((v, vs)) => if v.truth {
                Ok((v, vs))
            } else {
                Ok((SpecValue { text: Seq::empty(), truth: false }, vs))
            },
            Err(e) => Err(e),
        },
        SpecExpr::FuncCall(name, argss) => match spec_eval_args(md, vars, argss) {
            Ok((vals, vs)) => spec_call(md, vs, name, vals),
            Err(e) => Err(e),
        },
    }
}

/// What a sequence of expressions evaluates to: the texts concatenated in
/// order, the truths disjoined, side effects threaded left to right. An
/// empty sequence is empty text and false.
pub open spec fn spec_eval_seq(md: MetaT, vars: VarsT, es: Seq<SpecExpr>) -> Result<
    (SpecValue, VarsT),
    SpecError,
>
    decreases es,
{
    if es.len() == 0 {
        Ok((SpecValue { text: Seq::empty(), truth: false }, vars))
    } else {
        match spec_eval(md, vars, es[0]) {
            Ok((v, vs1)) => match spec_eval_seq(md, vs1, es.drop_first()) {
                Ok((rest, vs2)) => Ok(
                    (
                        SpecValue { text: v.text + rest.text, truth: v.truth || rest.truth },
                        vs2,
                    ),
                ),
                Err(e) => Err(e),
            },
            Err(e) => Err(e),
        }
    }
}

/// What a conditional's body yields: text and side effects as for any
/// sequence, but the deciding truth disjoins only the non-literal
/// constituents, so plain text alone never turns a conditional on.
pub open spec fn spec_eval_cond_seq(md: MetaT, vars: VarsT, es: Seq<SpecExpr>) -> Result<
    (SpecValue, VarsT),
    SpecError,
>
    decreases es,
{
    if es.len() == 0 {
        Ok((SpecValue { text: Seq::empty(), truth: false }, vars))
    } else {
        match spec_eval(md, vars, es[0]) {
            Ok((v, vs1)) => match spec_eval_cond_seq(md, vs1, es.drop_first()) {
                Ok((rest, vs2)) => Ok(
                    (
                        SpecValue {
                            text: v.text + rest.text,
                            truth: (!(es[0] is Literal) && v.truth) || rest.truth,
                        },
                        vs2,
                    ),
                ),
                Err(e) => Err(e),
            },
            Err(e) => Err(e),
        }
    }
}

/// What a call's argument groups evaluate to, one value per group, side
/// effects threaded left to right.
pub open spec fn spec_eval_args(md: MetaT, vars: VarsT, argss: Seq<Seq<SpecExpr>>) -> Result<
    (Seq<SpecValue>, VarsT),
    SpecError,
>
    decreases argss,
{
    if argss.len() == 0 {
        Ok((Seq::empty(), vars))
    } else {
        match spec_eval_seq(md, vars, argss[0]) {
            Ok((v, vs1)) => match spec_eval_args(md, vs1, argss.drop_first()) {
                Ok((rest, vs2)) => Ok((seq![v] + rest, vs2)),
                Err(e) => Err(e),
            },
            Err(e) => Err(e),
        }
    }
}

/// What a whole program renders against a metadata table: the top-level
/// texts concatenated, starting from an empty scratch store.
pub open spec fn spec_run(md: MetaT, ast: Seq<SpecExpr>) -> Result<Seq<char>, SpecError> {
    match spec_eval_seq(md, Seq::empty(), ast) {
        Ok((v, _)) => Ok(v.text),
        Err(e) => Err(e),
    }
}

/// Whether an evaluation result and the scratch store it left agree with the
/// mathematical account.
pub open spec fn eval_matches(
    r: Result<Value, Error>,
    new_vars: VarsT,
    sr: Result<(SpecValue, VarsT), SpecError>,
) -> bool {
    match r {
        Ok(v) => sr is Ok && v@ == sr->Ok_0.0 && new_vars == sr->Ok_0.1,
        Err(e) => sr is Err && e.deep_view() == sr->Err_0,
    }
}

/// A parsed template, reusable across runs.
pub struct Program {
    instr: Vec<Expr>,
}

impl Program {
    /// The parsed expression tree.
    pub closed spec fn ast(&self) -> Seq<SpecExpr> {
        exprs_view(self.instr@)
    }

    /// An empty program, rendering nothing.
    pub fn new() -> (p: Program)
        ensures
            p.ast() == Seq::<SpecExpr>::empty(),
    {
        let p = Program { instr: Vec::new() };
        proof {
            assert(p.ast() =~= Seq::<SpecExpr>::empty());
        }
        p
    }

    /// Parses a format string, replacing any previously parsed tree; on
    /// failure the old tree is kept.
    pub fn parse(&mut self, instr: &str) -> (r: Result<(), Error>)
        ensures
            (match parser::spec_parse(instr@) {
                Ok(ast) => r is Ok && final(self).ast() == ast,
                Err(e) => r is Err && r->Err_0.deep_view() == e && final(self).ast() == old(
                    self,
                ).ast(),
            }),
    {
        match parser::parse(instr) {
            Ok(es) => {
                self.instr = es;
                Ok(())
            },
            Err(e) => Err(e),
        }
    }

    /// Renders the program with no metadata.
    pub fn run(&mut self) -> (r: Result<String, Error>)
        ensures
            str_res_matches(r, spec_run(Seq::empty(), old(self).ast())),
            final(self).ast() == old(self).ast(),
    {
        let md: Vec<(String, Vec<String>)> = Vec::new();
        proof {
            assert(md.deep_view() =~= Seq::<(Seq<char>, Seq<Seq<char>>)>::empty());
        }
        self.run_with_meta(md)
    }

    /// Renders the program against the given metadata: field names with
    /// ordered value lists, earlier entries shadowing later duplicates.
    pub fn run_with_meta(&self, metadata: Vec<(String, Vec<String>)>) -> (r: Result<String, Error>)
        ensures
            str_res_matches(r, spec_run(metadata.deep_view(), self.ast())),
    {
        let mut env = Environment::new(metadata);
        proof {
            assert(self.ast().skip(0) =~= self.ast());
        }
        match self.eval_seq(&mut env, &self.instr, 0) {
            Ok(v) => Ok(v.val),
            Err(e) => Err(e),
        }
    }

    /// Evaluates one expression against the environment.
    fn eval(&self, env: &mut Environment, e: &Expr) -> (r: Result<Value, Error>)
        requires
            old(env).wf(),
        ensures
            final(env).wf(),
            final(env).md() == old(env).md(),
            eval_matches(
                r,
                final(env).vars_view(),
                spec_eval(old(env).md(), old(env).vars_view(), expr_view(*e)),
            ),
        decreases *e,
    {
        match e {
            Expr::Literal(s) => Ok(Value { val: s.clone(), cond: true }),
            Expr::Variable(name) => Ok(env.get_variable(name.as_str())),
            Expr::Conditional(v) => {
                proof {
                    assert(exprs_view(v@).skip(0) =~= exprs_view(v@));
                }
                match self.eval_cond(env, v, 0) {
                    Ok(val) => {
                        if val.cond {
                            Ok(val)
                        } else {
                            Ok(Value { val: String::new(), cond: false })
                        }
                    },
                    Err(er) => Err(er),
                }
            },
            Expr::FuncCall(name, argss) => {
                proof {
                    assert(arg_groups_view(argss@).skip(0) =~= arg_groups_view(argss@));
                }
                match self.eval_args(env, argss, 0) {
                    Ok(vals) => env.call(name.as_str(), vals),
                    Err(er) => Err(er),
                }
            },
        }
    }

    /// Evaluates the expressions of `es` from position `i` on, concatenating
    /// texts and disjoining truths.
    fn eval_seq(&self, env: &mut Environment, es: &Vec<Expr>, i: usize) -> (r: Result<Value, Error>)
        requires
            old(env).wf(),
            i <= es@.len(),
        ensures
            final(env).wf(),
            final(env).md() == old(env).md(),
            eval_matches(
                r,
                final(env).vars_view(),
                spec_eval_seq(
                    old(env).md(),
                    old(env).vars_view(),
                    exprs_view(es@).skip(i as int),
                ),
            ),
        decreases es@, es@.len() - i,
    {
        let ghost evs = exprs_view(es@).skip(i as int);
        if i == es.len() {
            proof {
                assert(evs.len() == 0);
            }
            Ok(Value { val: String::new(), cond: false })
        } else {
            proof {
                assert(evs[0] == exprs_view(es@)[i as int]);
                assert(decreases_to!(es@ => es@[i as int]));
            }
            let v = match self.eval(env, &es[i]) {
                Ok(v) => v,
                Err(er) => {
                    return Err(er);
                },
            };
            proof {
                assert(evs.drop_first() =~= exprs_view(es@).skip(i + 1 as int));
            }
            let rest = match self.eval_seq(env, es, i + 1) {
                Ok(rest) => rest,
                Err(er) => {
                    return Err(er);
                },
            };
            Ok(Value { val: v.val.concat(rest.val.as_str()), cond: v.cond || rest.cond })
        }
    }

    /// Evaluates a conditional's body from position `i` on: text as for any
    /// sequence, but only non-literal constituents decide the truth.
    fn eval_cond(&self, env: &mut Environment, es: &Vec<Expr>, i: usize) -> (r: Result<
        Value,
        Error,
    >)
        requires
            old(env).wf(),
            i <= es@.len(),
        ensures
            final(env).wf(),
            final(env).md() == old(env).md(),
            eval_matches(
                r,
                final(env).vars_view(),
                spec_eval_cond_seq(
                    old(env).md(),
                    old(env).vars_view(),
                    exprs_view(es@).skip(i as int),
                ),
            ),
        decreases es@, es@.len() - i,
    {
        let ghost evs = exprs_view(es@).skip(i as int);
        if i == es.len() {
            proof {
                assert(evs.len() == 0);
            }
            Ok(Value { val: String::new(), cond: false })
        } else {
            proof {
                assert(evs[0] == exprs_view(es@)[i as int]);
                assert(decreases_to!(es@ => es@[i as int]));
            }
            let is_lit = match &es[i] {
                Expr::Literal(_) => true,
                _ => false,
            };
            proof {
                assert(is_lit == (evs[0] is Literal));
            }
            let v = match self.eval(env, &es[i]) {
                Ok(v) => v,
                Err(er) => {
                    return Err(er);
                },
            };
            proof {
                assert(evs.drop_first() =~= exprs_view(es@).skip(i + 1 as int));
            }
            let rest = match self.eval_cond(env, es, i + 1) {
                Ok(rest) => rest,
                Err(er) => {
                    return Err(er);
                },
            };
            Ok(
                Value {
                    val: v.val.concat(rest.val.as_str()),
                    cond: (!is_lit && v.cond) || rest.cond,
                },
            )
        }
    }

    /// Evaluates a call's argument groups from position `j` on, one value
    /// per group.
    fn eval_args(&self, env: &mut Environment, argss: &Vec<Vec<Expr>>, j: usize) -> (r: Result<
        Vec<Value>,
        Error,
    >)
        requires
            old(env).wf(),
            j <= argss@.len(),
        ensures
            final(env).wf(),
            final(env).md() == old(env).md(),
            (match r {
                Ok(vals) => spec_eval_args(
                    old(env).md(),
                    old(env).vars_view(),
                    arg_groups_view(argss@).skip(j as int),
                ) == Ok::<_, SpecError>((vals.deep_view(), final(env).vars_view())),
                Err(e) => spec_eval_args(
                    old(env).md(),
                    old(env).vars_view(),
                    arg_groups_view(argss@).skip(j as int),
                ) == Err::<(Seq<SpecValue>, VarsT), _>(e.deep_view()),
            }),
        decreases argss@, argss@.len() - j,
    {
        let ghost avs = arg_groups_view(argss@).skip(j as int);
        if j == argss.len() {
            proof {
                assert(avs.len() == 0);
            }
            let empty: Vec<Value> = Vec::new();
            proof {
                assert(empty.deep_view() =~= Seq::<SpecValue>::empty());
            }
            Ok(empty)
        } else {
            proof {
                assert(avs[0] == arg_groups_view(argss@)[j as int]);
                assert(arg_groups_view(argss@)[j as int] == exprs_view(argss@[j as int]@));
                assert(decreases_to!(argss@ => argss@[j as int]));
                assert(decreases_to!(argss@[j as int] => argss@[j as int]@));
                assert(exprs_view(argss@[j as int]@).skip(0) =~= exprs_view(argss@[j as int]@));
            }
            let v = match self.eval_seq(env, &argss[j], 0) {
                Ok(v) => v,
                Err(er) => {
                    return Err(er);
                },
            };
            proof {
                assert(avs.drop_first() =~= arg_groups_view(argss@).skip(j + 1 as int));
            }
            let mut rest = match self.eval_args(env, argss, j + 1) {
                Ok(rest) => rest,
                Err(er) => {
                    return Err(er);
                },
            };
            let ghost rest_dv = rest.deep_view();
            let ghost vv = v@;
            rest.insert(0, v);
            proof {
                let newdv = rest.deep_view();
                let target = seq![vv] + rest_dv;
                assert(newdv.len() == target.len());
                assert(rest@[0]@ == vv);
                assert(forall|k: int| 0 < k < newdv.len() ==> #[trigger] newdv[k] == rest_dv[k - 1]);
                assert(newdv =~= target);
            }
            Ok(rest)
        }
    }
}

} // verus!
