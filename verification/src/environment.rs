//! The evaluation environment: metadata table, scratch variables, and the
//! builtin function registry.

use vstd::prelude::*;
use crate::types::{Error, SpecError};
use crate::strutil::{push_char, str_eq};
use crate::functions::num::{spec_to_int, spec_int_str, to_int, usize_to_string};

verus! {

/// The metadata table's mathematical shape: field names with their ordered
/// value lists, earlier entries shadowing later ones of the same name.
pub type MetaT = Seq<(Seq<char>, Seq<Seq<char>>)>;

/// The scratch variable store's mathematical shape.
pub type VarsT = Seq<(Seq<char>, Seq<char>)>;

/// An evaluated result: rendered text together with a truth flag that
/// records whether the underlying data existed.
#[derive(Debug, PartialEq)]
pub struct Value {
    pub val: String,
    pub cond: bool,
}

/// The mathematical shape of a `Value`.
pub struct SpecValue {
    pub text: Seq<char>,
    pub truth: bool,
}

impl View for Value {
    type V = SpecValue;

    open spec fn view(&self) -> SpecValue {
        SpecValue { text: self.val@, truth: self.cond }
    }
}

impl DeepView for Value {
    type V = SpecValue;

    open spec fn deep_view(&self) -> SpecValue {
        self@
    }
}

impl Clone for Value {
    fn clone(&self) -> (r: Self)
        ensures
            r == *self,
    {
        Value { val: self.val.clone(), cond: self.cond }
    }
}

/// Whether an executable `Value` result and a mathematical one agree, case by
/// case.
pub open spec fn val_res_matches(
    r: Result<Value, crate::types::Error>,
    s: Result<SpecValue, crate::types::SpecError>,
) -> bool {
    match r {
        Ok(a) => s is Ok && a@ == s->Ok_0,
        Err(a) => s is Err && a.deep_view() == s->Err_0,
    }
}

/// Builds a `Value` from a string slice and a truth flag.
pub fn value_string(s: &str, c: bool) -> (r: Value)
    ensures
        r@ == (SpecValue { text: s@, truth: c }),
{
    Value { val: s.to_owned(), cond: c }
}

/// The value a missing field or variable yields: a question mark, untrue.
pub open spec fn spec_unknown() -> SpecValue {
    SpecValue { text: seq!['?'], truth: false }
}

fn unknown_value() -> (r: Value)
    ensures
        r@ == spec_unknown(),
{
    let mut s = String::new();
    push_char(&mut s, '?');
    proof {
        assert(s@ =~= seq!['?']);
    }
    Value { val: s, cond: false }
}

/// The position of the first entry whose name is `key`, at or after `i`.
pub open spec fn key_index<V>(entries: Seq<(Seq<char>, V)>, key: Seq<char>, i: int) -> Option<int>
    decreases entries.len() - i,
{
    if 0 <= i < entries.len() {
        if entries[i].0 == key {
            Some(i)
        } else {
            key_index(entries, key, i + 1)
        }
    } else {
        None
    }
}

/// The value list of the first metadata entry named `key`, if any.
pub open spec fn meta_lookup(md: MetaT, key: Seq<char>) -> Option<Seq<Seq<char>>> {
    match key_index(md, key, 0) {
        Some(j) => Some(md[j].1),
        None => None,
    }
}

/// The value of the first scratch variable named `key`, if any.
pub open spec fn vars_lookup(vars: VarsT, key: Seq<char>) -> Option<Seq<char>> {
    match key_index(vars, key, 0) {
        Some(j) => Some(vars[j].1),
        None => None,
    }
}

/// The scratch store after `key` is set to `val`: the first entry of that
/// name is replaced, or a new entry appended.
pub open spec fn vars_update(vars: VarsT, key: Seq<char>, val: Seq<char>) -> VarsT {
    match key_index(vars, key, 0) {
        Some(j) => vars.update(j, (key, val)),
        None => vars.push((key, val)),
    }
}

/// The builtin function kinds the registry distinguishes: fallible string
/// functions, value functions, and environment-aware value functions.
#[derive(Debug, Clone, Copy, PartialEq, Eq, Structural)]
pub enum StrFn {
    Add,
    Sub,
    Mul,
    Div,
    Min,
    Max,
}

/// The value-level builtins: comparisons, logic, conditionals, constants,
/// and string functions.
#[derive(Debug, Clone, Copy, PartialEq, Eq, Structural)]
pub enum CondFn {
    Eq,
    Ne,
    Gt,
    Gte,
    Lt,
    Lte,
    If,
    If2,
    If3,
    IfEqual,
    IfGreater,
    IfLonger,
    Select,
    And,
    Or,
    Xor,
    Not,
    Crlf,
    Tab,
    Noop,
    Upper,
    Lower,
    FirstAlphaChar,
    Len,
    Longer,
    StripPrefix,
    SwapPrefix,
    Cut,
    Left,
    Num,
    Year,
}

/// The builtins that read or write the environment.
#[derive(Debug, Clone, Copy, PartialEq, Eq, Structural)]
pub enum EnvFn {
    Meta,
    MetaSep,
    MetaNum,
    MetaTest,
    Get,
    Put,
    Puts,
}

/// A registered builtin: which calling convention it follows, and which
/// function it is.
#[derive(Debug, Clone, Copy, PartialEq, Eq, Structural)]
pub enum FuncValue {
    /// A fallible function from argument texts to a text; the result's truth
    /// is the conjunction of the arguments' truths.
    NativeFnError(StrFn),
    /// A fallible function over whole values, free to set truth itself.
    NativeCondFnError(CondFn),
    /// A fallible value function that also reads or writes the environment.
    NativeEnvFnError(EnvFn),
}

impl DeepView for FuncValue {
    type V = FuncValue;

    open spec fn deep_view(&self) -> FuncValue {
        *self
    }
}

/// The registry an `Environment` is built with: every builtin under its
/// template name.
pub open spec fn builtin_table() -> Seq<(Seq<char>, FuncValue)> {
    seq![
        ("add"@, FuncValue::NativeFnError(StrFn::Add)),
        ("sub"@, FuncValue::NativeFnError(StrFn::Sub)),
        ("mul"@, FuncValue::NativeFnError(StrFn::Mul)),
        ("div"@, FuncValue::NativeFnError(StrFn::Div)),
        ("min"@, FuncValue::NativeFnError(StrFn::Min)),
        ("max"@, FuncValue::NativeFnError(StrFn::Max)),
        ("eq"@, FuncValue::NativeCondFnError(CondFn::Eq)),
        ("ne"@, FuncValue::NativeCondFnError(CondFn::Ne)),
        ("gt"@, FuncValue::NativeCondFnError(CondFn::Gt)),
        ("gte"@, FuncValue::NativeCondFnError(CondFn::Gte)),
        ("lt"@, FuncValue::NativeCondFnError(CondFn::Lt)),
        ("lte"@, FuncValue::NativeCondFnError(CondFn::Lte)),
        ("if"@, FuncValue::NativeCondFnError(CondFn::If)),
        ("if2"@, FuncValue::NativeCondFnError(CondFn::If2)),
        ("if3"@, FuncValue::NativeCondFnError(CondFn::If3)),
        ("ifequal"@, FuncValue::NativeCondFnError(CondFn::IfEqual)),
        ("ifgreater"@, FuncValue::NativeCondFnError(CondFn::IfGreater)),
        ("iflonger"@, FuncValue::NativeCondFnError(CondFn::IfLonger)),
        ("select"@, FuncValue::NativeCondFnError(CondFn::Select)),
        ("and"@, FuncValue::NativeCondFnError(CondFn::And)),
        ("or"@, FuncValue::NativeCondFnError(CondFn::Or)),
        ("xor"@, FuncValue::NativeCondFnError(CondFn::Xor)),
        ("not"@, FuncValue::NativeCondFnError(CondFn::Not)),
        ("crlf"@, FuncValue::NativeCondFnError(CondFn::Crlf)),
        ("tab"@, FuncValue::NativeCondFnError(CondFn::Tab)),
        ("noop"@, FuncValue::NativeCondFnError(CondFn::Noop)),
        ("upper"@, FuncValue::NativeCondFnError(CondFn::Upper)),
        ("lower"@, FuncValue::NativeCondFnError(CondFn::Lower)),
        ("firstalphachar"@, FuncValue::NativeCondFnError(CondFn::FirstAlphaChar)),
        ("len"@, FuncValue::NativeCondFnError(CondFn::Len)),
        ("longer"@, FuncValue::NativeCondFnError(CondFn::Longer)),
        ("stripprefix"@, FuncValue::NativeCondFnError(CondFn::StripPrefix)),
        ("swapprefix"@, FuncValue::NativeCondFnError(CondFn::SwapPrefix)),
        ("cut"@, FuncValue::NativeCondFnError(CondFn::Cut)),
        ("left"@, FuncValue::NativeCondFnError(CondFn::Left)),
        ("num"@, FuncValue::NativeCondFnError(CondFn::Num)),
        ("meta"@, FuncValue::NativeEnvFnError(EnvFn::Meta)),
        ("meta_sep"@, FuncValue::NativeEnvFnError(EnvFn::MetaSep)),
        ("meta_num"@, FuncValue::NativeEnvFnError(EnvFn::MetaNum)),
        ("meta_test"@, FuncValue::NativeEnvFnError(EnvFn::MetaTest)),
        ("get"@, FuncValue::NativeEnvFnError(EnvFn::Get)),
        ("put"@, FuncValue::NativeEnvFnError(EnvFn::Put)),
        ("puts"@, FuncValue::NativeEnvFnError(EnvFn::Puts)),
        ("year"@, FuncValue::NativeCondFnError(CondFn::Year)),
    ]
}

/// The builtin registered under `name`, if any.
pub open spec fn spec_lookup(name: Seq<char>) -> Option<FuncValue> {
    match key_index(builtin_table(), name, 0) {
        Some(j) => Some(builtin_table()[j].1),
        None => None,
    }
}

/// The field value `%name%` resolves to: entry `idx` of the field's value
/// list, or the unknown value.
pub open spec fn spec_meta_i(md: MetaT, key: Seq<char>, idx: int) -> SpecValue {
    match meta_lookup(md, key) {
        Some(v) => if 0 <= idx < v.len() {
            SpecValue { text: v[idx], truth: true }
        } else {
            spec_unknown()
        },
        None => spec_unknown(),
    }
}

/// The values from index `i` on joined onto `acc`, with `sep` between pairs
/// and `last` before the final value.
pub open spec fn spec_join(
    vals: Seq<Seq<char>>,
    sep: Seq<char>,
    last: Seq<char>,
    i: int,
    acc: Seq<char>,
) -> Seq<char>
    decreases vals.len() - i,
{
    if 0 <= i < vals.len() {
        let acc2 = if i > 0 && i + 1 >= vals.len() {
            acc + last
        } else if i > 0 {
            acc + sep
        } else {
            acc
        };
        spec_join(vals, sep, last, i + 1, acc2 + vals[i])
    } else {
        acc
    }
}

/// The field's values joined with `sep`, `last` before the final one; or the
/// unknown value for a missing field.
pub open spec fn spec_meta_sep_with_last(
    md: MetaT,
    key: Seq<char>,
    sep: Seq<char>,
    last: Seq<char>,
) -> SpecValue {
    match meta_lookup(md, key) {
        Some(v) => SpecValue { text: spec_join(v, sep, last, 0, Seq::empty()), truth: true },
        None => spec_unknown(),
    }
}

/// The field's values joined with a comma and space.
pub open spec fn spec_meta(md: MetaT, key: Seq<char>) -> SpecValue {
    spec_meta_sep_with_last(md, key, seq![',', ' '], seq![',', ' '])
}

/// How many values the field holds; zero for a missing field.
pub open spec fn spec_meta_count(md: MetaT, key: Seq<char>) -> int {
    match meta_lookup(md, key) {
        Some(v) => v.len() as int,
        None => 0,
    }
}

/// `$meta(name)` or `$meta(name,i)`: the joined values, or the `i`-th one.
pub open spec fn spec_meta_value(md: MetaT, args: Seq<SpecValue>) -> Result<SpecValue, SpecError> {
    if args.len() == 1 {
        Ok(spec_meta(md, args[0].text))
    } else if args.len() == 2 {
        Ok(spec_meta_i(md, args[0].text, spec_to_int(args[1].text)))
    } else {
        Err(SpecError::InvalidNativeFunctionArgs("meta"@, args.len() as int))
    }
}

/// `$meta_sep(name,sep[,lastsep])`: the values joined with the given
/// separators.
pub open spec fn spec_meta_sep_value(md: MetaT, args: Seq<SpecValue>) -> Result<
    SpecValue,
    SpecError,
> {
    if args.len() == 2 {
        Ok(spec_meta_sep_with_last(md, args[0].text, args[1].text, args[1].text))
    } else if args.len() == 3 {
        Ok(spec_meta_sep_with_last(md, args[0].text, args[1].text, args[2].text))
    } else {
        Err(SpecError::InvalidNativeFunctionArgs("meta_sep"@, args.len() as int))
    }
}

/// `$meta_num(name)`: how many values the field holds, in decimal; always
/// true.
pub open spec fn spec_meta_num_value(md: MetaT, args: Seq<SpecValue>) -> Result<
    SpecValue,
    SpecError,
> {
    if args.len() == 1 {
        Ok(SpecValue { text: spec_int_str(spec_meta_count(md, args[0].text)), truth: true })
    } else {
        Err(SpecError::InvalidNativeFunctionArgs("meta_num"@, args.len() as int))
    }
}

/// `$meta_test(name,...)`: empty text; true exactly when every named field
/// holds at least one value.
pub open spec fn spec_meta_test_value(md: MetaT, args: Seq<SpecValue>) -> Result<
    SpecValue,
    SpecError,
> {
    if args.len() == 0 {
        Err(SpecError::InvalidNativeFunctionArgs("meta_test"@, args.len() as int))
    } else {
        Ok(
            SpecValue {
                text: Seq::empty(),
                truth: (forall|k: int|
                    0 <= k < args.len() ==> spec_meta_count(md, (#[trigger] args[k]).text) > 0),
            },
        )
    }
}

/// `$get(key)`: the scratch variable's value, or the unknown value.
pub open spec fn spec_get_value(vars: VarsT, args: Seq<SpecValue>) -> Result<
    SpecValue,
    SpecError,
> {
    if args.len() == 1 {
        match vars_lookup(vars, args[0].text) {
            Some(v) => Ok(SpecValue { text: v, truth: true }),
            None => Ok(spec_unknown()),
        }
    } else {
        Err(SpecError::InvalidNativeFunctionArgs("get"@, args.len() as int))
    }
}

/// `$put(key,val)`: stores the value and yields it back, true.
pub open spec fn spec_put_value(vars: VarsT, args: Seq<SpecValue>) -> Result<
    (SpecValue, VarsT),
    SpecError,
> {
    if args.len() == 2 {
        Ok(
            (
                SpecValue { text: args[1].text, truth: true },
                vars_update(vars, args[0].text, args[1].text),
            ),
        )
    } else {
        Err(SpecError::InvalidNativeFunctionArgs("put"@, args.len() as int))
    }
}

/// `$puts(key,val)`: stores the value silently; empty text, true.
pub open spec fn spec_puts_value(vars: VarsT, args: Seq<SpecValue>) -> Result<
    (SpecValue, VarsT),
    SpecError,
> {
    if args.len() == 2 {
        Ok(
            (
                SpecValue { text: Seq::empty(), truth: true },
                vars_update(vars, args[0].text, args[1].text),
            ),
        )
    } else {
        Err(SpecError::InvalidNativeFunctionArgs("puts"@, args.len() as int))
    }
}

/// The texts of a value list.
pub open spec fn texts_of(args: Seq<SpecValue>) -> Seq<Seq<char>> {
    Seq::new(args.len(), |i: int| args[i].text)
}

/// Whether every value of a list is true.
pub open spec fn all_truth(args: Seq<SpecValue>) -> bool {
    forall|k: int| 0 <= k < args.len() ==> (#[trigger] args[k]).truth
}

/// What a fallible string builtin yields on the given argument texts.
pub open spec fn spec_str_call(f: StrFn, texts: Seq<Seq<char>>) -> Result<Seq<char>, SpecError> {
    match f {
        StrFn::Add => crate::functions::num::spec_add(texts),
        StrFn::Sub => crate::functions::num::spec_sub(texts),
        StrFn::Mul => crate::functions::num::spec_mul(texts),
        StrFn::Div => crate::functions::num::spec_div(texts),
        StrFn::Min => crate::functions::num::spec_min(texts),
        StrFn::Max => crate::functions::num::spec_max(texts),
    }
}

/// What a value builtin yields on the given arguments.
pub open spec fn spec_cond_call(f: CondFn, args: Seq<SpecValue>) -> Result<SpecValue, SpecError> {
    match f {
        CondFn::Eq => crate::functions::num::spec_eq(args),
        CondFn::Ne => crate::functions::num::spec_ne(args),
        CondFn::Gt => crate::functions::num::spec_gt(args),
        CondFn::Gte => crate::functions::num::spec_gte(args),
        CondFn::Lt => crate::functions::num::spec_lt(args),
        CondFn::Lte => crate::functions::num::spec_lte(args),
        CondFn::If => crate::functions::control::spec_if(args),
        CondFn::If2 => crate::functions::control::spec_if2(args),
        CondFn::If3 => crate::functions::control::spec_if3(args),
        CondFn::IfEqual => crate::functions::control::spec_ifequal(args),
        CondFn::IfGreater => crate::functions::control::spec_ifgreater(args),
        CondFn::IfLonger => crate::functions::control::spec_iflonger(args),
        CondFn::Select => crate::functions::control::spec_select(args),
        CondFn::And => crate::functions::control::spec_and(args),
        CondFn::Or => crate::functions::control::spec_or(args),
        CondFn::Xor => crate::functions::control::spec_xor(args),
        CondFn::Not => crate::functions::control::spec_not(args),
        CondFn::Crlf => crate::functions::strings::spec_crlf(args),
        CondFn::Tab => crate::functions::strings::spec_tab(args),
        CondFn::Noop => crate::functions::strings::spec_noop(args),
        CondFn::Upper => crate::functions::strings::spec_upper(args),
        CondFn::Lower => crate::functions::strings::spec_lower(args),
        CondFn::FirstAlphaChar => crate::functions::strings::spec_firstalphachar(args),
        CondFn::Len => crate::functions::strings::spec_len(args),
        CondFn::Longer => crate::functions::strings::spec_longer(args),
        CondFn::StripPrefix => crate::functions::strings::spec_stripprefix(args),
        CondFn::SwapPrefix => crate::functions::strings::spec_swapprefix(args),
        CondFn::Cut => crate::functions::strings::spec_cut(args),
        CondFn::Left => crate::functions::strings::spec_left(args),
        CondFn::Num => crate::functions::strings::spec_num(args),
        CondFn::Year => crate::functions::strings::spec_year(args),
    }
}

/// What an environment builtin yields, and the scratch store it leaves.
pub open spec fn spec_env_call(f: EnvFn, md: MetaT, vars: VarsT, args: Seq<SpecValue>) -> Result<
    (SpecValue, VarsT),
    SpecError,
> {
    match f {
        EnvFn::Meta => lift_vars(spec_meta_value(md, args), vars),
        EnvFn::MetaSep => lift_vars(spec_meta_sep_value(md, args), vars),
        EnvFn::MetaNum => lift_vars(spec_meta_num_value(md, args), vars),
        EnvFn::MetaTest => lift_vars(spec_meta_test_value(md, args), vars),
        EnvFn::Get => lift_vars(spec_get_value(vars, args), vars),
        EnvFn::Put => spec_put_value(vars, args),
        EnvFn::Puts => spec_puts_value(vars, args),
    }
}

/// Pairs a value result with an unchanged scratch store.
pub open spec fn lift_vars(r: Result<SpecValue, SpecError>, vars: VarsT) -> Result<
    (SpecValue, VarsT),
    SpecError,
> {
    match r {
        Ok(v) => Ok((v, vars)),
        Err(e) => Err(e),
    }
}

/// What `call` yields for a builtin name and evaluated arguments: the value
/// and the scratch store it leaves, or the error.
pub open spec fn spec_call(md: MetaT, vars: VarsT, name: Seq<char>, args: Seq<SpecValue>) -> Result<
    (SpecValue, VarsT),
    SpecError,
> {
    match spec_lookup(name) {
        None => Err(SpecError::UndefinedFunction(name)),
        Some(FuncValue::NativeFnError(f)) => match spec_str_call(f, texts_of(args)) {
            Ok(t) => Ok((SpecValue { text: t, truth: all_truth(args) }, vars)),
            Err(e) => Err(e),
        },
        Some(FuncValue::NativeCondFnError(f)) => lift_vars(spec_cond_call(f, args), vars),
        Some(FuncValue::NativeEnvFnError(f)) => spec_env_call(f, md, vars, args),
    }
}

/// The per-run container: the immutable metadata table, the mutable scratch
/// variable store, and the builtin registry.
#[derive(Clone)]
pub struct Environment {
    vars: Vec<(String, String)>,
    metadata: Vec<(String, Vec<String>)>,
    funcs: Vec<(String, FuncValue)>,
}

impl Environment {
    /// The metadata table, as name and value-list pairs.
    pub closed spec fn md(&self) -> MetaT {
        self.metadata.deep_view()
    }

    /// The scratch variable store, as name and value pairs.
    pub closed spec fn vars_view(&self) -> VarsT {
        self.vars.deep_view()
    }

    /// Whether the registry holds exactly the builtin table.
    pub closed spec fn wf(&self) -> bool {
        self.funcs.deep_view() == builtin_table()
    }

    fn add_default_functions(&mut self)
        ensures
            final(self).wf(),
            final(self).md() == old(self).md(),
            final(self).vars_view() == old(self).vars_view(),
    {
        self.funcs = Vec::new();
        self.funcs.push(("add".to_owned(), FuncValue::NativeFnError(StrFn::Add)));
        self.funcs.push(("sub".to_owned(), FuncValue::NativeFnError(StrFn::Sub)));
        self.funcs.push(("mul".to_owned(), FuncValue::NativeFnError(StrFn::Mul)));
        self.funcs.push(("div".to_owned(), FuncValue::NativeFnError(StrFn::Div)));
        self.funcs.push(("min".to_owned(), FuncValue::NativeFnError(StrFn::Min)));
        self.funcs.push(("max".to_owned(), FuncValue::NativeFnError(StrFn::Max)));
        self.funcs.push(("eq".to_owned(), FuncValue::NativeCondFnError(CondFn::Eq)));
        self.funcs.push(("ne".to_owned(), FuncValue::NativeCondFnError(CondFn::Ne)));
        self.funcs.push(("gt".to_owned(), FuncValue::NativeCondFnError(CondFn::Gt)));
        self.funcs.push(("gte".to_owned(), FuncValue::NativeCondFnError(CondFn::Gte)));
        self.funcs.push(("lt".to_owned(), FuncValue::NativeCondFnError(CondFn::Lt)));
        self.funcs.push(("lte".to_owned(), FuncValue::NativeCondFnError(CondFn::Lte)));
        self.funcs.push(("if".to_owned(), FuncValue::NativeCondFnError(CondFn::If)));
        self.funcs.push(("if2".to_owned(), FuncValue::NativeCondFnError(CondFn::If2)));
        self.funcs.push(("if3".to_owned(), FuncValue::NativeCondFnError(CondFn::If3)));
        self.funcs.push(("ifequal".to_owned(), FuncValue::NativeCondFnError(CondFn::IfEqual)));
        self.funcs.push(("ifgreater".to_owned(), FuncValue::NativeCondFnError(CondFn::IfGreater)));
        self.funcs.push(("iflonger".to_owned(), FuncValue::NativeCondFnError(CondFn::IfLonger)));
        self.funcs.push(("select".to_owned(), FuncValue::NativeCondFnError(CondFn::Select)));
        self.funcs.push(("and".to_owned(), FuncValue::NativeCondFnError(CondFn::And)));
        self.funcs.push(("or".to_owned(), FuncValue::NativeCondFnError(CondFn::Or)));
        self.funcs.push(("xor".to_owned(), FuncValue::NativeCondFnError(CondFn::Xor)));
        self.funcs.push(("not".to_owned(), FuncValue::NativeCondFnError(CondFn::Not)));
        self.funcs.push(("crlf".to_owned(), FuncValue::NativeCondFnError(CondFn::Crlf)));
        self.funcs.push(("tab".to_owned(), FuncValue::NativeCondFnError(CondFn::Tab)));
        self.funcs.push(("noop".to_owned(), FuncValue::NativeCondFnError(CondFn::Noop)));
        self.funcs.push(("upper".to_owned(), FuncValue::NativeCondFnError(CondFn::Upper)));
        self.funcs.push(("lower".to_owned(), FuncValue::NativeCondFnError(CondFn::Lower)));
        self.funcs.push(
            ("firstalphachar".to_owned(), FuncValue::NativeCondFnError(CondFn::FirstAlphaChar)),
        );
        self.funcs.push(("len".to_owned(), FuncValue::NativeCondFnError(CondFn::Len)));
        self.funcs.push(("longer".to_owned(), FuncValue::NativeCondFnError(CondFn::Longer)));
        self.funcs.push(
            ("stripprefix".to_owned(), FuncValue::NativeCondFnError(CondFn::StripPrefix)),
        );
        self.funcs.push(
            ("swapprefix".to_owned(), FuncValue::NativeCondFnError(CondFn::SwapPrefix)),
        );
        self.funcs.push(("cut".to_owned(), FuncValue::NativeCondFnError(CondFn::Cut)));
        self.funcs.push(("left".to_owned(), FuncValue::NativeCondFnError(CondFn::Left)));
        self.funcs.push(("num".to_owned(), FuncValue::NativeCondFnError(CondFn::Num)));
        self.funcs.push(("meta".to_owned(), FuncValue::NativeEnvFnError(EnvFn::Meta)));
        self.funcs.push(("meta_sep".to_owned(), FuncValue::NativeEnvFnError(EnvFn::MetaSep)));
        self.funcs.push(("meta_num".to_owned(), FuncValue::NativeEnvFnError(EnvFn::MetaNum)));
        self.funcs.push(("meta_test".to_owned(), FuncValue::NativeEnvFnError(EnvFn::MetaTest)));
        self.funcs.push(("get".to_owned(), FuncValue::NativeEnvFnError(EnvFn::Get)));
        self.funcs.push(("put".to_owned(), FuncValue::NativeEnvFnError(EnvFn::Put)));
        self.funcs.push(("puts".to_owned(), FuncValue::NativeEnvFnError(EnvFn::Puts)));
        self.funcs.push(("year".to_owned(), FuncValue::NativeCondFnError(CondFn::Year)));
        proof {
            let t = self.funcs.deep_view();
            let bt = builtin_table();
            assert(self.funcs@.len() == 44);
            assert(t.len() == 44);
            assert(t =~~= bt);
        }
    }

    /// Constructs an `Environment` over the given metadata, with an empty
    /// scratch store and the full builtin registry.
    pub fn new(metadata: Vec<(String, Vec<String>)>) -> (env: Environment)
        ensures
            env.wf(),
            env.md() == metadata.deep_view(),
            env.vars_view() == Seq::<(Seq<char>, Seq<char>)>::empty(),
    {
        let mut env = Environment { vars: Vec::new(), metadata, funcs: Vec::new() };
        env.add_default_functions();
        proof {
            assert(env.vars_view() =~= Seq::<(Seq<char>, Seq<char>)>::empty());
        }
        env
    }

    /// The registered builtin under `name`, if any.
    fn lookup(&self, name: &str) -> (r: Option<FuncValue>)
        requires
            self.wf(),
        ensures
            r == spec_lookup(name@),
    {
        let ghost bt = builtin_table();
        let mut j: usize = 0;
        while j < self.funcs.len()
            invariant
                self.wf(),
                bt == builtin_table(),
                self.funcs.deep_view() == bt,
                0 <= j <= self.funcs@.len(),
                self.funcs@.len() == bt.len(),
                key_index(bt, name@, 0) == key_index(bt, name@, j as int),
            decreases self.funcs@.len() - j,
        {
            proof {
                assert(bt[j as int].0 == self.funcs@[j as int].0@);
            }
            if str_eq(self.funcs[j].0.as_str(), name) {
                return Some(self.funcs[j].1);
            }
            j = j + 1;
        }
        None
    }

    /// The value list of the field named `key`, if any.
    fn meta_find(&self, key: &str) -> (r: Option<&Vec<String>>)
        ensures
            match r {
                Some(v) => meta_lookup(self.md(), key@) == Some(v.deep_view()),
                None => meta_lookup(self.md(), key@) is None,
            },
    {
        let ghost md = self.md();
        let mut j: usize = 0;
        while j < self.metadata.len()
            invariant
                md == self.md(),
                0 <= j <= self.metadata@.len(),
                md.len() == self.metadata@.len(),
                key_index(md, key@, 0) == key_index(md, key@, j as int),
            decreases self.metadata@.len() - j,
        {
            proof {
                assert(md[j as int] == self.metadata@[j as int].deep_view());
            }
            if str_eq(self.metadata[j].0.as_str(), key) {
                return Some(&self.metadata[j].1);
            }
            j = j + 1;
        }
        None
    }

    fn meta_i(&self, key: &str, idx: i64) -> (r: Value)
        ensures
            r@ == spec_meta_i(self.md(), key@, idx as int),
    {
        match self.meta_find(key) {
            None => unknown_value(),
            Some(v) => {
                if idx >= 0 && (idx as u64) < (v.len() as u64) {
                    proof {
                        assert(v.deep_view()[idx as int] == v@[idx as int]@);
                    }
                    Value { val: v[idx as usize].clone(), cond: true }
                } else {
                    unknown_value()
                }
            },
        }
    }

    fn meta_sep_with_last(&self, key: &str, sep: &str, last: &str) -> (r: Value)
        ensures
            r@ == spec_meta_sep_with_last(self.md(), key@, sep@, last@),
    {
        match self.meta_find(key) {
            None => unknown_value(),
            Some(v) => {
                let ghost vd = v.deep_view();
                let mut s = String::new();
                let mut i: usize = 0;
                while i < v.len()
                    invariant
                        vd == v.deep_view(),
                        0 <= i <= v@.len(),
                        vd.len() == v@.len(),
                        spec_join(vd, sep@, last@, 0, Seq::empty()) == spec_join(
                            vd,
                            sep@,
                            last@,
                            i as int,
                            s@,
                        ),
                    decreases v@.len() - i,
                {
                    if i > 0 && i + 1 >= v.len() {
                        s.append(last);
                    } else if i > 0 {
                        s.append(sep);
                    }
                    proof {
                        assert(vd[i as int] == v@[i as int]@);
                    }
                    s.append(v[i].as_str());
                    i = i + 1;
                }
                Value { val: s, cond: true }
            },
        }
    }

    /// How many values the field named `key` holds.
    fn meta_count(&self, key: &str) -> (r: usize)
        ensures
            r as int == spec_meta_count(self.md(), key@),
    {
        match self.meta_find(key) {
            Some(v) => v.len(),
            None => 0,
        }
    }

    /// Resolves `%key%`: the field's first value, or the unknown value.
    pub fn get_variable(&self, key: &str) -> (r: Value)
        ensures
            r@ == spec_meta_i(self.md(), key@, 0),
    {
        self.meta_i(key, 0)
    }

    /// The `$meta` builtin over already-evaluated arguments.
    pub fn meta_value(&self, args: Vec<Value>) -> (r: Result<Value, Error>)
        ensures
            val_res_matches(r, spec_meta_value(self.md(), args.deep_view())),
    {
        if args.len() == 1 {
            Ok(self.meta_sep_with_last_join(args[0].val.as_str()))
        } else if args.len() == 2 {
            let idx = to_int(args[1].val.as_str());
            Ok(self.meta_i(args[0].val.as_str(), idx))
        } else {
            Err(Error::InvalidNativeFunctionArgs("meta".to_owned(), args.len()))
        }
    }

    fn meta_sep_with_last_join(&self, key: &str) -> (r: Value)
        ensures
            r@ == spec_meta(self.md(), key@),
    {
        let mut sep = String::new();
        push_char(&mut sep, ',');
        push_char(&mut sep, ' ');
        proof {
            assert(sep@ =~= seq![',', ' ']);
        }
        self.meta_sep_with_last(key, sep.as_str(), sep.as_str())
    }

    /// The `$meta_sep` builtin over already-evaluated arguments.
    pub fn meta_sep_value(&self, args: Vec<Value>) -> (r: Result<Value, Error>)
        ensures
            val_res_matches(r, spec_meta_sep_value(self.md(), args.deep_view())),
    {
        if args.len() == 2 {
            Ok(
                self.meta_sep_with_last(
                    args[0].val.as_str(),
                    args[1].val.as_str(),
                    args[1].val.as_str(),
                ),
            )
        } else if args.len() == 3 {
            Ok(
                self.meta_sep_with_last(
                    args[0].val.as_str(),
                    args[1].val.as_str(),
                    args[2].val.as_str(),
                ),
            )
        } else {
            Err(Error::InvalidNativeFunctionArgs("meta_sep".to_owned(), args.len()))
        }
    }

    /// The `$meta_num` builtin over already-evaluated arguments.
    pub fn meta_num_value(&self, args: Vec<Value>) -> (r: Result<Value, Error>)
        ensures
            val_res_matches(r, spec_meta_num_value(self.md(), args.deep_view())),
    {
        if args.len() == 1 {
            let n = self.meta_count(args[0].val.as_str());
            Ok(Value { val: usize_to_string(n), cond: true })
        } else {
            Err(Error::InvalidNativeFunctionArgs("meta_num".to_owned(), args.len()))
        }
    }

    /// The `$meta_test` builtin over already-evaluated arguments.
    pub fn meta_test_value(&self, args: Vec<Value>) -> (r: Result<Value, Error>)
        ensures
            val_res_matches(r, spec_meta_test_value(self.md(), args.deep_view())),
    {
        if args.len() == 0 {
            return Err(Error::InvalidNativeFunctionArgs("meta_test".to_owned(), args.len()));
        }
        let ghost dv = args.deep_view();
        let mut c = true;
        let mut i: usize = 0;
        while i < args.len()
            invariant
                dv == args.deep_view(),
                0 <= i <= args@.len(),
                c == (forall|k: int|
                    0 <= k < i ==> spec_meta_count(self.md(), (#[trigger] dv[k]).text) > 0),
            decreases args@.len() - i,
        {
            let n = self.meta_count(args[i].val.as_str());
            let ci = n > 0;
            proof {
                assert(dv[i as int].text == args@[i as int].val@);
            }
            let c2 = c && ci;
            proof {
                if c2 {
                    assert(forall|k: int|
                        0 <= k < i + 1 ==> spec_meta_count(self.md(), (#[trigger] dv[k]).text) > 0);
                } else {
                    assert(!(forall|k: int|
                        0 <= k < i + 1 ==> spec_meta_count(self.md(), (#[trigger] dv[k]).text)
                            > 0)) by {
                        if !ci {
                            assert(!(spec_meta_count(self.md(), dv[i as int].text) > 0));
                        } else {
                            let w = choose|k: int|
                                0 <= k < i && !(spec_meta_count(
                                    self.md(),
                                    (#[trigger] dv[k]).text,
                                ) > 0);
                            assert(!(spec_meta_count(self.md(), dv[w].text) > 0));
                        }
                    }
                }
            }
            c = c2;
            i = i + 1;
        }
        Ok(Value { val: String::new(), cond: c })
    }

    /// Sets the scratch variable `key` to `val` and yields the stored value.
    pub fn put(&mut self, key: &str, val: &str) -> (r: String)
        ensures
            r@ == val@,
            final(self).vars_view() == vars_update(old(self).vars_view(), key@, val@),
            final(self).md() == old(self).md(),
            final(self).wf() == old(self).wf(),
    {
        self.vars_set(key, val);
        val.to_owned()
    }

    /// Sets the scratch variable `key` to `val`, silently.
    pub fn puts(&mut self, key: &str, val: &str)
        ensures
            final(self).vars_view() == vars_update(old(self).vars_view(), key@, val@),
            final(self).md() == old(self).md(),
            final(self).wf() == old(self).wf(),
    {
        self.vars_set(key, val);
    }

    fn vars_set(&mut self, key: &str, val: &str)
        ensures
            final(self).vars_view() == vars_update(old(self).vars_view(), key@, val@),
            final(self).md() == old(self).md(),
            final(self).wf() == old(self).wf(),
    {
        let ghost vv = self.vars_view();
        let mut j: usize = 0;
        let n = self.vars.len();
        while j < n
            invariant
                vv == old(self).vars_view(),
                self.vars_view() == vv,
                self.md() == old(self).md(),
                self.wf() == old(self).wf(),
                n == self.vars@.len(),
                vv.len() == self.vars@.len(),
                0 <= j <= n,
                key_index(vv, key@, 0) == key_index(vv, key@, j as int),
            decreases n - j,
        {
            proof {
                assert(vv[j as int] == self.vars@[j as int].deep_view());
            }
            if str_eq(self.vars[j].0.as_str(), key) {
                let ghost prev = self.vars@;
                self.vars.remove(j);
                self.vars.insert(j, (key.to_owned(), val.to_owned()));
                proof {
                    assert(self.vars@ =~= prev.update(j as int, self.vars@[j as int]));
                    let newv = self.vars.deep_view();
                    let target = vv.update(j as int, (key@, val@));
                    assert(newv.len() == target.len());
                    assert forall|k: int| 0 <= k < newv.len() implies newv[k] =~~= target[k] by {
                        if k != j {
                            assert(self.vars@[k] == prev[k]);
                            assert(newv[k] == vv[k]);
                        } else {
                            assert(newv[k] == self.vars@[j as int].deep_view());
                        }
                    }
                    assert(newv =~~= target);
                }
                return ;
            }
            j = j + 1;
        }
        let ghost prev = self.vars@;
        self.vars.push((key.to_owned(), val.to_owned()));
        proof {
            let newv = self.vars.deep_view();
            let target = vv.push((key@, val@));
            assert(newv.len() == target.len());
            assert forall|k: int| 0 <= k < newv.len() implies newv[k] =~~= target[k] by {
                if k < newv.len() - 1 {
                    assert(self.vars@[k] == prev[k]);
                    assert(newv[k] == vv[k]);
                } else {
                    assert(newv[k] == self.vars@[k].deep_view());
                }
            }
            assert(newv =~~= target);
        }
    }

    /// The scratch variable's value, or the unknown value.
    pub fn get(&self, key: &str) -> (r: Value)
        ensures
            r@ == (match vars_lookup(self.vars_view(), key@) {
                Some(v) => SpecValue { text: v, truth: true },
                None => spec_unknown(),
            }),
    {
        let ghost vv = self.vars_view();
        let mut j: usize = 0;
        while j < self.vars.len()
            invariant
                vv == self.vars_view(),
                vv.len() == self.vars@.len(),
                0 <= j <= self.vars@.len(),
                key_index(vv, key@, 0) == key_index(vv, key@, j as int),
            decreases self.vars@.len() - j,
        {
            proof {
                assert(vv[j as int] == self.vars@[j as int].deep_view());
            }
            if str_eq(self.vars[j].0.as_str(), key) {
                return Value { val: self.vars[j].1.clone(), cond: true };
            }
            j = j + 1;
        }
        unknown_value()
    }

    /// The `$put` builtin over already-evaluated arguments.
    pub fn put_value(&mut self, args: Vec<Value>) -> (r: Result<Value, Error>)
        ensures
            final(self).md() == old(self).md(),
            final(self).wf() == old(self).wf(),
            (match spec_put_value(old(self).vars_view(), args.deep_view()) {
                Ok((v, vs)) => r is Ok && r->Ok_0@ == v && final(self).vars_view() == vs,
                Err(e) => r is Err && r->Err_0.deep_view() == e && final(self).vars_view() == old(
                    self,
                ).vars_view(),
            }),
    {
        if args.len() != 2 {
            return Err(Error::InvalidNativeFunctionArgs("put".to_owned(), args.len()));
        }
        let stored = self.put(args[0].val.as_str(), args[1].val.as_str());
        Ok(Value { val: stored, cond: true })
    }

    /// The `$puts` builtin over already-evaluated arguments.
    pub fn puts_value(&mut self, args: Vec<Value>) -> (r: Result<Value, Error>)
        ensures
            final(self).md() == old(self).md(),
            final(self).wf() == old(self).wf(),
            (match spec_puts_value(old(self).vars_view(), args.deep_view()) {
                Ok((v, vs)) => r is Ok && r->Ok_0@ == v && final(self).vars_view() == vs,
                Err(e) => r is Err && r->Err_0.deep_view() == e && final(self).vars_view() == old(
                    self,
                ).vars_view(),
            }),
    {
        if args.len() != 2 {
            return Err(Error::InvalidNativeFunctionArgs("puts".to_owned(), args.len()));
        }
        self.puts(args[0].val.as_str(), args[1].val.as_str());
        Ok(Value { val: String::new(), cond: true })
    }

    /// The `$get` builtin over already-evaluated arguments.
    pub fn get_value(&self, args: Vec<Value>) -> (r: Result<Value, Error>)
        ensures
            val_res_matches(r, spec_get_value(self.vars_view(), args.deep_view())),
    {
        if args.len() != 1 {
            return Err(Error::InvalidNativeFunctionArgs("get".to_owned(), args.len()));
        }
        Ok(self.get(args[0].val.as_str()))
    }

    /// Dispatches a builtin by name over already-evaluated arguments; an
    /// unknown name is an error, and only `$put` and `$puts` touch the
    /// scratch store.
    pub fn call(&mut self, name: &str, args: Vec<Value>) -> (r: Result<Value, Error>)
        requires
            old(self).wf(),
        ensures
            final(self).wf(),
            final(self).md() == old(self).md(),
            (match spec_call(old(self).md(), old(self).vars_view(), name@, args.deep_view()) {
                Ok((v, vs)) => r is Ok && r->Ok_0@ == v && final(self).vars_view() == vs,
                Err(e) => r is Err && r->Err_0.deep_view() == e && final(self).vars_view() == old(
                    self,
                ).vars_view(),
            }),
    {
        let f = self.lookup(name);
        match f {
            None => Err(Error::UndefinedFunction(name.to_owned())),
            Some(FuncValue::NativeFnError(sf)) => {
                let ghost dv = args.deep_view();
                let mut c = true;
                let mut texts: Vec<String> = Vec::new();
                let mut i: usize = 0;
                while i < args.len()
                    invariant
                        dv == args.deep_view(),
                        0 <= i <= args@.len(),
                        c == (forall|k: int| 0 <= k < i ==> (#[trigger] dv[k]).truth),
                        texts.deep_view() =~~= texts_of(dv).subrange(0, i as int),
                    decreases args@.len() - i,
                {
                    let ci = args[i].cond;
                    proof {
                        assert(dv[i as int].truth == ci);
                    }
                    let c2 = c && ci;
                    proof {
                        if c2 {
                            assert(forall|k: int| 0 <= k < i + 1 ==> (#[trigger] dv[k]).truth);
                        } else {
                            assert(!(forall|k: int|
                                0 <= k < i + 1 ==> (#[trigger] dv[k]).truth)) by {
                                if !ci {
                                    assert(!dv[i as int].truth);
                                } else {
                                    let w = choose|k: int|
                                        0 <= k < i && !(#[trigger] dv[k]).truth;
                                    assert(!dv[w].truth);
                                }
                            }
                        }
                    }
                    c = c2;
                    let t = args[i].val.clone();
                    let ghost tv = t@;
                    let ghost prev = texts@;
                    let ghost prev_dv = texts.deep_view();
                    texts.push(t);
                    proof {
                        let newdv = texts.deep_view();
                        let target = texts_of(dv).subrange(0, i + 1 as int);
                        assert(prev_dv.len() == i as int);
                        assert(prev.len() == i as int);
                        assert(texts@.len() == i + 1 as int);
                        assert(newdv.len() == i + 1 as int);
                        assert forall|k: int| 0 <= k < i + 1 implies newdv[k] =~~= target[k] by {
                            if k < i as int {
                                assert(texts@[k] == prev[k]);
                                assert(newdv[k] == prev_dv[k]);
                                assert(prev_dv[k] == texts_of(dv).subrange(0, i as int)[k]);
                            } else {
                                assert(texts@[k]@ == tv);
                                assert(target[k] == dv[i as int].text);
                            }
                        }
                        assert(newdv =~~= target);
                    }
                    i = i + 1;
                }
                proof {
                    assert(texts_of(dv).subrange(0, dv.len() as int) =~= texts_of(dv));
                }
                let t = match sf {
                    StrFn::Add => crate::functions::num::add(texts),
                    StrFn::Sub => crate::functions::num::sub(texts),
                    StrFn::Mul => crate::functions::num::mul(texts),
                    StrFn::Div => crate::functions::num::div(texts),
                    StrFn::Min => crate::functions::num::min(texts),
                    StrFn::Max => crate::functions::num::max(texts),
                };
                match t {
                    Ok(v) => Ok(Value { val: v, cond: c }),
                    Err(e) => Err(e),
                }
            },
            Some(FuncValue::NativeCondFnError(cf)) => {
                match cf {
                    CondFn::Eq => crate::functions::num::eq(args),
                    CondFn::Ne => crate::functions::num::ne(args),
                    CondFn::Gt => crate::functions::num::gt(args),
                    CondFn::Gte => crate::functions::num::gte(args),
                    CondFn::Lt => crate::functions::num::lt(args),
                    CondFn::Lte => crate::functions::num::lte(args),
                    CondFn::If => crate::functions::control::if_(args),
                    CondFn::If2 => crate::functions::control::if2(args),
                    CondFn::If3 => crate::functions::control::if3(args),
                    CondFn::IfEqual => crate::functions::control::ifequal(args),
                    CondFn::IfGreater => crate::functions::control::ifgreater(args),
                    CondFn::IfLonger => crate::functions::control::iflonger(args),
                    CondFn::Select => crate::functions::control::select(args),
                    CondFn::And => crate::functions::control::and(args),
                    CondFn::Or => crate::functions::control::or(args),
                    CondFn::Xor => crate::functions::control::xor(args),
                    CondFn::Not => crate::functions::control::not(args),
                    CondFn::Crlf => crate::functions::strings::crlf(args),
                    CondFn::Tab => crate::functions::strings::tab(args),
                    CondFn::Noop => crate::functions::strings::noop(args),
                    CondFn::Upper => crate::functions::strings::upper(args),
                    CondFn::Lower => crate::functions::strings::lower(args),
                    CondFn::FirstAlphaChar => crate::functions::strings::firstalphachar(args),
                    CondFn::Len => crate::functions::strings::len(args),
                    CondFn::Longer => crate::functions::strings::longer(args),
                    CondFn::StripPrefix => crate::functions::strings::stripprefix(args),
                    CondFn::SwapPrefix => crate::functions::strings::swapprefix(args),
                    CondFn::Cut => crate::functions::strings::cut(args),
                    CondFn::Left => crate::functions::strings::left(args),
                    CondFn::Num => crate::functions::strings::num(args),
                    CondFn::Year => crate::functions::strings::year(args),
                }
            },
            Some(FuncValue::NativeEnvFnError(ef)) => {
                match ef {
                    EnvFn::Meta => self.meta_value(args),
                    EnvFn::MetaSep => self.meta_sep_value(args),
                    EnvFn::MetaNum => self.meta_num_value(args),
                    EnvFn::MetaTest => self.meta_test_value(args),
                    EnvFn::Get => self.get_value(args),
                    EnvFn::Put => self.put_value(args),
                    EnvFn::Puts => self.puts_value(args),
                }
            },
        }
    }
}

} // verus!
