//! The interpreter: the long-lived environment of variable bindings and
//! user-defined functions, and the compilation of each expression into a
//! small stack program.
//!
//! The engine keeps every number as its printed text. Compiling an
//! expression resolves variables and inlines user-defined calls, producing
//! a postfix [`Instr`] program whose numeric steps the embedding
//! application executes; every evaluation error — unknown variable,
//! undefined function, arity mismatch, or exceeding the call-depth bound —
//! is decided here, before any number is touched.

use vstd::prelude::*;

use crate::ast::Args;
use crate::ast::Expr;
use crate::ast::ExprV;
use crate::ast::Func;
use crate::ast::FuncV;
use crate::ast::args_view;
use crate::ast::names_view;
use crate::ast::push_char;
use crate::ast::format_onto;
use crate::ast::push_str_chars;
use crate::ast::spec_format;
use crate::token::Token;
use crate::token::TokenV;
use crate::token::chars_to_string;

verus! {

/// One step of a compiled expression: push a numeral, or combine the top
/// of the stack with an arithmetic or built-in operation.
#[derive(Debug, PartialEq)]
pub enum Instr {
    /// Push the number this numeral text denotes.
    Push(String),
    /// Negate the top of the stack.
    Neg,
    /// Absolute value of the top of the stack.
    AbsVal,
    /// Pop right then left, push their sum.
    Add,
    /// Pop right then left, push their difference.
    Sub,
    /// Pop right then left, push their product.
    Mul,
    /// Pop right then left, push their quotient.
    Div,
    /// Pop right then left, push their remainder.
    Rem,
    /// Pop exponent then base, push base raised to exponent.
    Pow,
    /// Sine of the top of the stack, in radians.
    Sin,
    /// Cosine of the top of the stack, in radians.
    Cos,
    /// Tangent of the top of the stack, in radians.
    Tan,
    /// Natural logarithm of the top of the stack.
    Ln,
    /// Logarithm of the top of the stack in the base this numeral denotes.
    LogBase(String),
}

/// Mathematical image of an [`Instr`].
#[verifier::ext_equal]
pub enum InstrV {
    Push(Seq<char>),
    Neg,
    AbsVal,
    Add,
    Sub,
    Mul,
    Div,
    Rem,
    Pow,
    Sin,
    Cos,
    Tan,
    Ln,
    LogBase(Seq<char>),
}

impl View for Instr {
    type V = InstrV;

    open spec fn view(&self) -> InstrV {
        match self {
            Instr::Push(w) => InstrV::Push(w@),
            Instr::Neg => InstrV::Neg,
            Instr::AbsVal => InstrV::AbsVal,
            Instr::Add => InstrV::Add,
            Instr::Sub => InstrV::Sub,
            Instr::Mul => InstrV::Mul,
            Instr::Div => InstrV::Div,
            Instr::Rem => InstrV::Rem,
            Instr::Pow => InstrV::Pow,
            Instr::Sin => InstrV::Sin,
            Instr::Cos => InstrV::Cos,
            Instr::Tan => InstrV::Tan,
            Instr::Ln => InstrV::Ln,
            Instr::LogBase(w) => InstrV::LogBase(w@),
        }
    }
}

impl Clone for Instr {
    /// Cloning an instruction keeps its mathematical value.
    fn clone(&self) -> (r: Instr)
        ensures
            r@ == self@,
    {
        match self {
            Instr::Push(w) => Instr::Push(w.clone()),
            Instr::Neg => Instr::Neg,
            Instr::AbsVal => Instr::AbsVal,
            Instr::Add => Instr::Add,
            Instr::Sub => Instr::Sub,
            Instr::Mul => Instr::Mul,
            Instr::Div => Instr::Div,
            Instr::Rem => Instr::Rem,
            Instr::Pow => Instr::Pow,
            Instr::Sin => Instr::Sin,
            Instr::Cos => Instr::Cos,
            Instr::Tan => Instr::Tan,
            Instr::Ln => Instr::Ln,
            Instr::LogBase(w) => Instr::LogBase(w.clone()),
        }
    }
}

/// An evaluation failure, decided during compilation; numeric domain
/// issues are not errors and never arise here.
#[derive(Debug, PartialEq)]
pub enum EvalError {
    /// A name bound to no variable, with that name.
    UnknownVariable(String),
    /// A call of a name that no function definition carries.
    UndefinedFunction(String),
    /// A call whose argument count differs from the declared parameter
    /// count, with the callee's name.
    ArityMismatch(String),
    /// A chain of nested calls deeper than the call-depth bound, with the
    /// name whose call exceeded it.
    TooDeep(String),
}

/// Mathematical image of an [`EvalError`].
pub enum EvalErrorV {
    UnknownVariable(Seq<char>),
    UndefinedFunction(Seq<char>),
    ArityMismatch(Seq<char>),
    TooDeep(Seq<char>),
}

impl View for EvalError {
    type V = EvalErrorV;

    open spec fn view(&self) -> EvalErrorV {
        match self {
            EvalError::UnknownVariable(n) => EvalErrorV::UnknownVariable(n@),
            EvalError::UndefinedFunction(n) => EvalErrorV::UndefinedFunction(n@),
            EvalError::ArityMismatch(n) => EvalErrorV::ArityMismatch(n@),
            EvalError::TooDeep(n) => EvalErrorV::TooDeep(n@),
        }
    }
}

impl EvalError {
    /// The error text shown to the user.
    pub fn message(&self) -> (s: String)
        ensures
            s@ == spec_eval_error_message(self@),
    {
        let mut out: Vec<char> = Vec::new();
        match self {
            EvalError::UnknownVariable(n) => {
                push_str_chars(&mut out, "unknown variable: ");
                push_str_chars(&mut out, n.as_str());
            },
            EvalError::UndefinedFunction(n) => {
                push_str_chars(&mut out, "undefined function: ");
                push_str_chars(&mut out, n.as_str());
            },
            EvalError::ArityMismatch(n) => {
                push_str_chars(&mut out, "wrong number of arguments: ");
                push_str_chars(&mut out, n.as_str());
            },
            EvalError::TooDeep(n) => {
                push_str_chars(&mut out, "call depth exceeded: ");
                push_str_chars(&mut out, n.as_str());
            },
        }
        chars_to_string(&out)
    }
}

/// The error text of each evaluation error.
pub open spec fn spec_eval_error_message(e: EvalErrorV) -> Seq<char> {
    match e {
        EvalErrorV::UnknownVariable(n) => "unknown variable: "@ + n,
        EvalErrorV::UndefinedFunction(n) => "undefined function: "@ + n,
        EvalErrorV::ArityMismatch(n) => "wrong number of arguments: "@ + n,
        EvalErrorV::TooDeep(n) => "call depth exceeded: "@ + n,
    }
}

/// How deep user-defined calls may nest while a single expression is
/// compiled; beyond it, compilation reports [`EvalError::TooDeep`] rather
/// than recursing without bound on a self-referential definition.
pub const CALL_DEPTH: u64 = 64;

/// The binding for `n` in an environment read as name/value pairs, the
/// earliest entry winning; entries keep their insertion order and
/// well-formed environments hold each name at most once.
pub open spec fn env_lookup<V>(vs: Seq<(Seq<char>, V)>, n: Seq<char>) -> Option<V>
    decreases vs.len(),
{
    if vs.len() == 0 {
        None
    } else if vs.first().0 == n {
        Some(vs.first().1)
    } else {
        env_lookup(vs.drop_first(), n)
    }
}

/// The environment after binding `n` to `v`: the existing entry for `n`
/// is replaced in place, else a new entry is appended.
pub open spec fn env_define<V>(vs: Seq<(Seq<char>, V)>, n: Seq<char>, v: V) -> Seq<(Seq<char>, V)>
    decreases vs.len(),
{
    if vs.len() == 0 {
        seq![(n, v)]
    } else if vs.first().0 == n {
        seq![(n, v)] + vs.drop_first()
    } else {
        seq![vs.first()] + env_define(vs.drop_first(), n, v)
    }
}

proof fn lemma_env_define_found<V>(vs: Seq<(Seq<char>, V)>, n: Seq<char>, v: V, i: int)
    requires
        0 <= i < vs.len(),
        vs[i].0 == n,
        forall|k: int| 0 <= k < i ==> vs[k].0 != n,
    ensures
        env_define(vs, n, v) == vs.update(i, (n, v)),
    decreases i,
{
    if i == 0 {
        assert(env_define(vs, n, v) =~= vs.update(0, (n, v)));
    } else {
        lemma_env_define_found(vs.drop_first(), n, v, i - 1);
        assert(env_define(vs, n, v) =~= vs.update(i, (n, v)));
    }
}

proof fn lemma_env_define_absent<V>(vs: Seq<(Seq<char>, V)>, n: Seq<char>, v: V)
    requires
        forall|k: int| 0 <= k < vs.len() ==> vs[k].0 != n,
    ensures
        env_define(vs, n, v) == vs.push((n, v)),
    decreases vs.len(),
{
    if vs.len() == 0 {
        assert(env_define(vs, n, v) =~= vs.push((n, v)));
    } else {
        lemma_env_define_absent(vs.drop_first(), n, v);
        assert(env_define(vs, n, v) =~= vs.push((n, v)));
    }
}

/// Binding a name and then looking it up finds exactly the new value,
/// and leaves the binding of every other name untouched.
pub proof fn lemma_define_then_lookup<V>(vs: Seq<(Seq<char>, V)>, n: Seq<char>, v: V)
    ensures
        env_lookup(env_define(vs, n, v), n) == Some(v),
        forall|m: Seq<char>| m != n ==> env_lookup(env_define(vs, n, v), m) == env_lookup(vs, m),
    decreases vs.len(),
{
    let d = env_define(vs, n, v);
    if vs.len() == 0 {
        assert(d =~= seq![(n, v)]);
        assert(env_lookup(d, n) == Some(v));
        assert forall|m: Seq<char>| m != n implies env_lookup(d, m) == env_lookup(vs, m) by {
            assert(d.drop_first() =~= Seq::<(Seq<char>, V)>::empty());
            assert(env_lookup(d, m) == env_lookup(d.drop_first(), m));
        }
    } else if vs.first().0 == n {
        assert(d.first() == (n, v));
        assert(d.drop_first() =~= vs.drop_first());
        assert(env_lookup(d, n) == Some(v));
        assert forall|m: Seq<char>| m != n implies env_lookup(d, m) == env_lookup(vs, m) by {
            assert(env_lookup(d, m) == env_lookup(d.drop_first(), m));
            assert(env_lookup(vs, m) == env_lookup(vs.drop_first(), m));
        }
    } else {
        lemma_define_then_lookup(vs.drop_first(), n, v);
        assert(d.first() == vs.first());
        assert(d.drop_first() =~= env_define(vs.drop_first(), n, v));
        assert(env_lookup(d, n) == env_lookup(d.drop_first(), n));
        assert forall|m: Seq<char>| m != n implies env_lookup(d, m) == env_lookup(vs, m) by {
            if vs.first().0 == m {
                assert(env_lookup(d, m) == Some(d.first().1));
                assert(env_lookup(vs, m) == Some(vs.first().1));
            } else {
                assert(env_lookup(d, m) == env_lookup(d.drop_first(), m));
                assert(env_lookup(vs, m) == env_lookup(vs.drop_first(), m));
            }
        }
    }
}

/// The views of a sequence of compiled instructions.
pub open spec fn prog_view(s: Seq<Instr>) -> Seq<InstrV> {
    s.map_values(|i: Instr| i@)
}

/// The views of a sequence of compiled programs.
pub open spec fn progs_view(s: Seq<Vec<Instr>>) -> Seq<Seq<InstrV>> {
    s.map_values(|v: Vec<Instr>| prog_view(v@))
}

/// The view of a parameter substitution frame.
pub open spec fn frame_view(s: Seq<(String, Vec<Instr>)>) -> Seq<(Seq<char>, Seq<InstrV>)> {
    s.map_values(|p: (String, Vec<Instr>)| (p.0@, prog_view(p.1@)))
}

/// The view of the variable environment entries.
pub open spec fn var_entries_view(s: Seq<(String, String)>) -> Seq<(Seq<char>, Seq<char>)> {
    s.map_values(|p: (String, String)| (p.0@, p.1@))
}

/// The view of the function environment entries.
pub open spec fn fn_entries_view(s: Seq<(String, Vec<String>, Expr)>) -> Seq<
    (Seq<char>, (Seq<Seq<char>>, ExprV)),
> {
    s.map_values(|t: (String, Vec<String>, Expr)| (t.0@, (names_view(t.1@), t.2@)))
}

/// The instruction a binary operator token compiles to.
pub open spec fn op_instr(op: TokenV) -> InstrV {
    match op {
        TokenV::Plus => InstrV::Add,
        TokenV::Minus => InstrV::Sub,
        TokenV::Mult => InstrV::Mul,
        TokenV::Div => InstrV::Div,
        _ => InstrV::Rem,
    }
}

/// The instruction a built-in function compiles to.
pub open spec fn func_instr(f: FuncV) -> InstrV {
    match f {
        FuncV::Sin => InstrV::Sin,
        FuncV::Cos => InstrV::Cos,
        FuncV::Tan => InstrV::Tan,
        FuncV::Ln => InstrV::Ln,
        FuncV::Log(b) => InstrV::LogBase(b),
    }
}

/// The local scope of one call: each parameter bound to the program of
/// its argument expression, positionally.
pub open spec fn make_frame(params: Seq<Seq<char>>, progs: Seq<Seq<InstrV>>) -> Seq<
    (Seq<char>, Seq<InstrV>),
> {
    Seq::new(params.len(), |i: int| (params[i], progs[i]))
}

/// The postfix program an expression compiles to, or the evaluation error
/// that stops it: children first, then the node's own instruction. A
/// variable resolves against the call frame first, then the persistent
/// variables; a call inlines the callee's body with its parameters bound
/// to the argument programs, spending one unit of `fuel`.
pub open spec fn spec_compile(
    e: ExprV,
    vars: Seq<(Seq<char>, Seq<char>)>,
    funcs: Seq<(Seq<char>, (Seq<Seq<char>>, ExprV))>,
    frame: Seq<(Seq<char>, Seq<InstrV>)>,
    fuel: nat,
) -> Result<Seq<InstrV>, EvalErrorV>
    decreases fuel, e,
{
    match e {
        ExprV::Num(w) => Ok(seq![InstrV::Push(w)]),
        ExprV::Negative(x) => match spec_compile(*x, vars, funcs, frame, fuel) {
            Err(er) => Err(er),
            Ok(p) => Ok(p + seq![InstrV::Neg]),
        },
        ExprV::Grouping(x) => spec_compile(*x, vars, funcs, frame, fuel),
        ExprV::Abs(x) => match spec_compile(*x, vars, funcs, frame, fuel) {
            Err(er) => Err(er),
            Ok(p) => Ok(p + seq![InstrV::AbsVal]),
        },
        ExprV::Binary(l, op, r) => match spec_compile(*l, vars, funcs, frame, fuel) {
            Err(er) => Err(er),
            Ok(pl) => match spec_compile(*r, vars, funcs, frame, fuel) {
                Err(er) => Err(er),
                Ok(pr) => Ok(pl + pr + seq![op_instr(op)]),
            },
        },
        ExprV::Exponent(b, x) => match spec_compile(*b, vars, funcs, frame, fuel) {
            Err(er) => Err(er),
            Ok(pb) => match spec_compile(*x, vars, funcs, frame, fuel) {
                Err(er) => Err(er),
                Ok(px) => Ok(pb + px + seq![InstrV::Pow]),
            },
        },
        ExprV::Func(f, a) => match spec_compile(*a, vars, funcs, frame, fuel) {
            Err(er) => Err(er),
            Ok(pa) => Ok(pa + seq![func_instr(f)]),
        },
        ExprV::Var(n) => match env_lookup(frame, n) {
            Some(p) => Ok(p),
            None => match env_lookup(vars, n) {
                Some(w) => Ok(seq![InstrV::Push(w)]),
                None => Err(EvalErrorV::UnknownVariable(n)),
            },
        },
        ExprV::Call(n, args) => match env_lookup(funcs, n) {
            None => Err(EvalErrorV::UndefinedFunction(n)),
            Some((params, body)) => {
                if params.len() != args.len() {
                    Err(EvalErrorV::ArityMismatch(n))
                } else if fuel == 0 {
                    Err(EvalErrorV::TooDeep(n))
                } else {
                    match spec_compile_args(args, vars, funcs, frame, fuel) {
                        Err(er) => Err(er),
                        Ok(progs) => spec_compile(
                            body,
                            vars,
                            funcs,
                            make_frame(params, progs),
                            (fuel - 1) as nat,
                        ),
                    }
                }
            },
        },
    }
}

/// The programs of a call's argument expressions, compiled in the
/// caller's own frame.
pub open spec fn spec_compile_args(
    args: Seq<ExprV>,
    vars: Seq<(Seq<char>, Seq<char>)>,
    funcs: Seq<(Seq<char>, (Seq<Seq<char>>, ExprV))>,
    frame: Seq<(Seq<char>, Seq<InstrV>)>,
    fuel: nat,
) -> Result<Seq<Seq<InstrV>>, EvalErrorV>
    decreases fuel, args,
{
    if args.len() == 0 {
        Ok(seq![])
    } else {
        match spec_compile(args[0], vars, funcs, frame, fuel) {
            Err(er) => Err(er),
            Ok(p) => match spec_compile_args(args.drop_first(), vars, funcs, frame, fuel) {
                Err(er) => Err(er),
                Ok(rest) => Ok(seq![p] + rest),
            },
        }
    }
}

/// A successful compilation of an argument list yields one program per
/// argument.
pub proof fn lemma_compile_args_len(
    args: Seq<ExprV>,
    vars: Seq<(Seq<char>, Seq<char>)>,
    funcs: Seq<(Seq<char>, (Seq<Seq<char>>, ExprV))>,
    frame: Seq<(Seq<char>, Seq<InstrV>)>,
    fuel: nat,
)
    ensures
        spec_compile_args(args, vars, funcs, frame, fuel) matches Ok(ps) ==> ps.len()
            == args.len(),
    decreases args.len(),
{
    if args.len() != 0 {
        lemma_compile_args_len(args.drop_first(), vars, funcs, frame, fuel);
    }
}

/// Holds the session's environment and compiles expressions against it.
pub struct Interpreter {
    vars: Vec<(String, String)>,
    funcs: Vec<(String, Vec<String>, Expr)>,
}

impl Interpreter {
    /// The variable bindings: name to numeral text, in insertion order.
    pub closed spec fn vars_v(&self) -> Seq<(Seq<char>, Seq<char>)> {
        var_entries_view(self.vars@)
    }

    /// The function definitions: name to parameter names and body, in
    /// insertion order.
    pub closed spec fn funcs_v(&self) -> Seq<(Seq<char>, (Seq<Seq<char>>, ExprV))> {
        fn_entries_view(self.funcs@)
    }

    /// A fresh, empty environment.
    pub fn new() -> (it: Interpreter)
        ensures
            it.vars_v() == Seq::<(Seq<char>, Seq<char>)>::empty(),
            it.funcs_v() == Seq::<(Seq<char>, (Seq<Seq<char>>, ExprV))>::empty(),
    {
        let it = Interpreter { vars: Vec::new(), funcs: Vec::new() };
        proof {
            assert(it.vars_v() =~= Seq::<(Seq<char>, Seq<char>)>::empty());
            assert(it.funcs_v() =~= Seq::<(Seq<char>, (Seq<Seq<char>>, ExprV))>::empty());
        }
        it
    }

    /// Binds `name` to the numeral text `value`, replacing an existing
    /// binding in place or appending a new one.
    pub fn define(&mut self, name: String, value: String)
        ensures
            final(self).vars_v() == env_define(old(self).vars_v(), name@, value@),
            final(self).funcs_v() == old(self).funcs_v(),
    {
        let ghost vv = self.vars_v();
        let n = self.vars.len();
        let mut i: usize = 0;
        while i < n
            invariant
                i <= n,
                n == self.vars@.len(),
                self.vars@ == old(self).vars@,
                self.funcs@ == old(self).funcs@,
                vv == var_entries_view(self.vars@),
                forall|k: int| 0 <= k < i ==> vv[k].0 != name@,
            decreases n - i,
        {
            if self.vars[i].0 == name {
                proof {
                    lemma_env_define_found(vv, name@, value@, i as int);
                }
                let pair = (name, value);
                self.vars.set(i, pair);
                proof {
                    assert(var_entries_view(self.vars@) =~= vv.update(i as int, (pair.0@, pair.1@)));
                }
                return ;
            }
            i = i + 1;
        }
        proof {
            lemma_env_define_absent(vv, name@, value@);
        }
        let pair = (name, value);
        self.vars.push(pair);
        proof {
            assert(var_entries_view(self.vars@) =~= vv.push((pair.0@, pair.1@)));
        }
    }

    /// Installs or replaces the definition of `name` as a function of the
    /// given parameters with the given body.
    pub fn declare_function(&mut self, name: String, params: Vec<String>, body: Expr)
        ensures
            final(self).funcs_v() == env_define(
                old(self).funcs_v(),
                name@,
                (names_view(params@), body@),
            ),
            final(self).vars_v() == old(self).vars_v(),
    {
        let ghost fv = self.funcs_v();
        let n = self.funcs.len();
        let mut i: usize = 0;
        while i < n
            invariant
                i <= n,
                n == self.funcs@.len(),
                self.vars@ == old(self).vars@,
                self.funcs@ == old(self).funcs@,
                fv == fn_entries_view(self.funcs@),
                forall|k: int| 0 <= k < i ==> fv[k].0 != name@,
            decreases n - i,
        {
            if self.funcs[i].0 == name {
                proof {
                    lemma_env_define_found(fv, name@, (names_view(params@), body@), i as int);
                }
                let trip = (name, params, body);
                self.funcs.set(i, trip);
                proof {
                    assert(fn_entries_view(self.funcs@) =~= fv.update(
                        i as int,
                        (trip.0@, (names_view(trip.1@), trip.2@)),
                    ));
                }
                return ;
            }
            i = i + 1;
        }
        proof {
            lemma_env_define_absent(fv, name@, (names_view(params@), body@));
        }
        let trip = (name, params, body);
        self.funcs.push(trip);
        proof {
            assert(fn_entries_view(self.funcs@) =~= fv.push(
                (trip.0@, (names_view(trip.1@), trip.2@)),
            ));
        }
    }

    /// Clears every variable binding; function definitions persist.
    pub fn reset_vars(&mut self)
        ensures
            final(self).vars_v() == Seq::<(Seq<char>, Seq<char>)>::empty(),
            final(self).funcs_v() == old(self).funcs_v(),
    {
        self.vars = Vec::new();
        proof {
            assert(self.vars_v() =~= Seq::<(Seq<char>, Seq<char>)>::empty());
        }
    }

    /// Compiles an expression against the current environment, with no
    /// call frame and the standard call-depth bound.
    pub fn compile(&self, expr: &Expr) -> (r: Result<Vec<Instr>, EvalError>)
        ensures
            ({
                let sr = spec_compile(
                    expr@,
                    self.vars_v(),
                    self.funcs_v(),
                    Seq::<(Seq<char>, Seq<InstrV>)>::empty(),
                    CALL_DEPTH as nat,
                );
                match r {
                    Ok(p) => sr matches Ok(sp) && prog_view(p@) == sp,
                    Err(er) => sr matches Err(se) && er@ == se,
                }
            }),
    {
        let frame: Vec<(String, Vec<Instr>)> = Vec::new();
        proof {
            assert(frame_view(frame@) =~= Seq::<(Seq<char>, Seq<InstrV>)>::empty());
        }
        self.compile_expr(expr, &frame, CALL_DEPTH)
    }

    /// The index of the variable entry for `n`, if any.
    fn var_find(&self, n: &String) -> (r: Option<usize>)
        ensures
            match r {
                Some(i) => i < self.vars@.len() && env_lookup(self.vars_v(), n@) == Some(
                    self.vars_v()[i as int].1,
                ),
                None => env_lookup(self.vars_v(), n@) is None,
            },
    {
        let ghost vv = self.vars_v();
        let m = self.vars.len();
        let mut i: usize = 0;
        proof {
            assert(vv.skip(0) =~= vv);
        }
        while i < m
            invariant
                i <= m,
                m == self.vars@.len(),
                vv == self.vars_v(),
                env_lookup(vv, n@) == env_lookup(vv.skip(i as int), n@),
            decreases m - i,
        {
            proof {
                assert(vv.skip(i as int).first() == vv[i as int]);
            }
            if self.vars[i].0 == *n {
                return Some(i);
            }
            proof {
                assert(vv.skip(i as int).drop_first() =~= vv.skip(i as int + 1));
            }
            i = i + 1;
        }
        proof {
            assert(vv.skip(m as int) =~= Seq::<(Seq<char>, Seq<char>)>::empty());
        }
        None
    }

    /// The index of the function definition for `n`, if any.
    fn fn_find(&self, n: &String) -> (r: Option<usize>)
        ensures
            match r {
                Some(i) => i < self.funcs@.len() && env_lookup(self.funcs_v(), n@) == Some(
                    self.funcs_v()[i as int].1,
                ),
                None => env_lookup(self.funcs_v(), n@) is None,
            },
    {
        let ghost fv = self.funcs_v();
        let m = self.funcs.len();
        let mut i: usize = 0;
        proof {
            assert(fv.skip(0) =~= fv);
        }
        while i < m
            invariant
                i <= m,
                m == self.funcs@.len(),
                fv == self.funcs_v(),
                env_lookup(fv, n@) == env_lookup(fv.skip(i as int), n@),
            decreases m - i,
        {
            proof {
                assert(fv.skip(i as int).first() == fv[i as int]);
            }
            if self.funcs[i].0 == *n {
                return Some(i);
            }
            proof {
                assert(fv.skip(i as int).drop_first() =~= fv.skip(i as int + 1));
            }
            i = i + 1;
        }
        proof {
            assert(fv.skip(m as int) =~= Seq::<(Seq<char>, (Seq<Seq<char>>, ExprV))>::empty());
        }
        None
    }

    /// Compiles one expression node, children first.
    fn compile_expr(&self, e: &Expr, frame: &Vec<(String, Vec<Instr>)>, fuel: u64) -> (r: Result<
        Vec<Instr>,
        EvalError,
    >)
        ensures
            ({
                let sr = spec_compile(
                    e@,
                    self.vars_v(),
                    self.funcs_v(),
                    frame_view(frame@),
                    fuel as nat,
                );
                match r {
                    Ok(p) => sr matches Ok(sp) && prog_view(p@) == sp,
                    Err(er) => sr matches Err(se) && er@ == se,
                }
            }),
        decreases fuel, e,
    {
        match e {
            Expr::Num(w) => {
                let v = vec![Instr::Push(w.clone())];
                proof {
                    assert(prog_view(v@) =~= seq![InstrV::Push(w@)]);
                }
                Ok(v)
            },
            Expr::Negative(x) => match self.compile_expr(x, frame, fuel) {
                Err(er) => Err(er),
                Ok(mut p) => {
                    let ghost p0 = prog_view(p@);
                    p.push(Instr::Neg);
                    proof {
                        assert(prog_view(p@) =~= p0 + seq![InstrV::Neg]);
                    }
                    Ok(p)
                },
            },
            Expr::Grouping(x) => self.compile_expr(x, frame, fuel),
            Expr::Abs(x) => match self.compile_expr(x, frame, fuel) {
                Err(er) => Err(er),
                Ok(mut p) => {
                    let ghost p0 = prog_view(p@);
                    p.push(Instr::AbsVal);
                    proof {
                        assert(prog_view(p@) =~= p0 + seq![InstrV::AbsVal]);
                    }
                    Ok(p)
                },
            },
            Expr::Binary(l, op, rr) => match self.compile_expr(l, frame, fuel) {
                Err(er) => Err(er),
                Ok(mut p) => match self.compile_expr(rr, frame, fuel) {
                    Err(er) => Err(er),
                    Ok(mut pr) => {
                        let ghost pl0 = prog_view(p@);
                        let ghost pr0 = prog_view(pr@);
                        p.append(&mut pr);
                        let ins = match op {
                            Token::Plus => Instr::Add,
                            Token::Minus => Instr::Sub,
                            Token::Mult => Instr::Mul,
                            Token::Div => Instr::Div,
                            _ => Instr::Rem,
                        };
                        p.push(ins);
                        proof {
                            assert(prog_view(p@) =~= pl0 + pr0 + seq![op_instr(op@)]);
                        }
                        Ok(p)
                    },
                },
            },
            Expr::Exponent(b, x) => match self.compile_expr(b, frame, fuel) {
                Err(er) => Err(er),
                Ok(mut p) => match self.compile_expr(x, frame, fuel) {
                    Err(er) => Err(er),
                    Ok(mut px) => {
                        let ghost pb0 = prog_view(p@);
                        let ghost px0 = prog_view(px@);
                        p.append(&mut px);
                        p.push(Instr::Pow);
                        proof {
                            assert(prog_view(p@) =~= pb0 + px0 + seq![InstrV::Pow]);
                        }
                        Ok(p)
                    },
                },
            },
            Expr::Func(f, a) => match self.compile_expr(a, frame, fuel) {
                Err(er) => Err(er),
                Ok(mut p) => {
                    let ghost p0 = prog_view(p@);
                    let ins = match f {
                        Func::Sin => Instr::Sin,
                        Func::Cos => Instr::Cos,
                        Func::Tan => Instr::Tan,
                        Func::Ln => Instr::Ln,
                        Func::Log(bb) => Instr::LogBase(bb.clone()),
                    };
                    p.push(ins);
                    proof {
                        assert(prog_view(p@) =~= p0 + seq![func_instr(f@)]);
                    }
                    Ok(p)
                },
            },
            Expr::Var(n) => {
                match frame_find(frame, n) {
                    Some(idx) => {
                        let prog = copy_prog(&frame[idx].1);
                        proof {
                            assert(frame_view(frame@)[idx as int].1 == prog_view(frame@[
                                idx as int].1@));
                        }
                        Ok(prog)
                    },
                    None => match self.var_find(n) {
                        Some(idx) => {
                            let w = self.vars[idx].1.clone();
                            let v = vec![Instr::Push(w)];
                            proof {
                                assert(self.vars_v()[idx as int].1 == self.vars@[idx as int].1@);
                                assert(prog_view(v@) =~= seq![
                                    InstrV::Push(self.vars_v()[idx as int].1),
                                ]);
                            }
                            Ok(v)
                        },
                        None => Err(EvalError::UnknownVariable(n.clone())),
                    },
                }
            },
            Expr::Call(n, args) => {
                match self.fn_find(n) {
                    None => Err(EvalError::UndefinedFunction(n.clone())),
                    Some(fi) => {
                        proof {
                            assert(self.funcs_v()[fi as int] == (
                                self.funcs@[fi as int].0@,
                                (
                                    names_view(self.funcs@[fi as int].1@),
                                    self.funcs@[fi as int].2@,
                                ),
                            ));
                        }
                        if !arity_matches(args, self.funcs[fi].1.len()) {
                            Err(EvalError::ArityMismatch(n.clone()))
                        } else if fuel == 0 {
                            Err(EvalError::TooDeep(n.clone()))
                        } else {
                            match self.compile_args(args, frame, fuel) {
                                Err(er) => Err(er),
                                Ok(progs) => {
                                    proof {
                                        lemma_compile_args_len(
                                            args@,
                                            self.vars_v(),
                                            self.funcs_v(),
                                            frame_view(frame@),
                                            fuel as nat,
                                        );
                                    }
                                    let new_frame = build_frame(&self.funcs[fi].1, progs);
                                    self.compile_expr(&self.funcs[fi].2, &new_frame, fuel - 1)
                                },
                            }
                        }
                    },
                }
            },
        }
    }

    /// Compiles each argument of a call, in the caller's own frame.
    fn compile_args(&self, args: &Args, frame: &Vec<(String, Vec<Instr>)>, fuel: u64) -> (r: Result<
        Vec<Vec<Instr>>,
        EvalError,
    >)
        ensures
            ({
                let sr = spec_compile_args(
                    args@,
                    self.vars_v(),
                    self.funcs_v(),
                    frame_view(frame@),
                    fuel as nat,
                );
                match r {
                    Ok(ps) => sr matches Ok(sp) && progs_view(ps@) == sp,
                    Err(er) => sr matches Err(se) && er@ == se,
                }
            }),
        decreases fuel, args,
    {
        match args {
            Args::Nil => {
                let v: Vec<Vec<Instr>> = Vec::new();
                proof {
                    assert(progs_view(v@) =~= Seq::<Seq<InstrV>>::empty());
                }
                Ok(v)
            },
            Args::Cons(e, rest) => {
                proof {
                    assert(args@[0] == e@);
                    assert(args@.drop_first() =~= args_view(rest));
                }
                match self.compile_expr(e, frame, fuel) {
                    Err(er) => Err(er),
                    Ok(p) => match self.compile_args(rest, frame, fuel) {
                        Err(er) => Err(er),
                        Ok(mut ps) => {
                            let ghost pv = prog_view(p@);
                            let ghost psv = progs_view(ps@);
                            ps.insert(0, p);
                            proof {
                                assert(progs_view(ps@) =~= seq![pv] + psv);
                            }
                            Ok(ps)
                        },
                    },
                }
            },
        }
    }
}

/// The index of the frame entry for `n`, if any.
fn frame_find(frame: &Vec<(String, Vec<Instr>)>, n: &String) -> (r: Option<usize>)
    ensures
        match r {
            Some(i) => i < frame@.len() && env_lookup(frame_view(frame@), n@) == Some(
                frame_view(frame@)[i as int].1,
            ),
            None => env_lookup(frame_view(frame@), n@) is None,
        },
{
    let ghost fv = frame_view(frame@);
    let m = frame.len();
    let mut i: usize = 0;
    proof {
        assert(fv.skip(0) =~= fv);
    }
    while i < m
        invariant
            i <= m,
            m == frame@.len(),
            fv == frame_view(frame@),
            env_lookup(fv, n@) == env_lookup(fv.skip(i as int), n@),
        decreases m - i,
    {
        proof {
            assert(fv.skip(i as int).first() == fv[i as int]);
        }
        if frame[i].0 == *n {
            return Some(i);
        }
        proof {
            assert(fv.skip(i as int).drop_first() =~= fv.skip(i as int + 1));
        }
        i = i + 1;
    }
    proof {
        assert(fv.skip(m as int) =~= Seq::<(Seq<char>, Seq<InstrV>)>::empty());
    }
    None
}

/// A fresh copy of a compiled program.
#[verifier::loop_isolation(false)]
fn copy_prog(p: &Vec<Instr>) -> (r: Vec<Instr>)
    ensures
        prog_view(r@) == prog_view(p@),
{
    let mut r: Vec<Instr> = Vec::new();
    let mut k: usize = 0;
    proof {
        assert(prog_view(r@) =~= prog_view(p@).take(0));
    }
    while k < p.len()
        invariant
            k <= p@.len(),
            prog_view(r@) == prog_view(p@).take(k as int),
        decreases p@.len() - k,
    {
        r.push(p[k].clone());
        k = k + 1;
        proof {
            assert(prog_view(r@) =~= prog_view(p@).take(k as int));
        }
    }
    proof {
        assert(prog_view(p@).take(p@.len() as int) =~= prog_view(p@));
    }
    r
}

/// Whether the argument list has exactly `m` entries.
fn arity_matches(args: &Args, m: usize) -> (b: bool)
    ensures
        b == (args@.len() == m),
    decreases args,
{
    match args {
        Args::Nil => m == 0,
        Args::Cons(_, rest) => {
            if m == 0 {
                proof {
                    assert(args@.len() > 0);
                }
                false
            } else {
                proof {
                    assert(args@.len() == args_view(rest).len() + 1);
                }
                arity_matches(rest, m - 1)
            }
        },
    }
}

/// Binds each parameter to the program of its argument, positionally.
#[verifier::loop_isolation(false)]
fn build_frame(params: &Vec<String>, progs: Vec<Vec<Instr>>) -> (r: Vec<(String, Vec<Instr>)>)
    requires
        params@.len() == progs@.len(),
    ensures
        frame_view(r@) == make_frame(names_view(params@), progs_view(progs@)),
{
    let ghost spv = progs_view(progs@);
    let mut q = progs;
    let mut r: Vec<(String, Vec<Instr>)> = Vec::new();
    let mut k: usize = 0;
    proof {
        assert(progs_view(q@) =~= spv.skip(0));
        assert(frame_view(r@) =~= make_frame(names_view(params@), spv).take(0));
    }
    while k < params.len()
        invariant
            k <= params@.len(),
            k + q@.len() == params@.len(),
            progs_view(q@) == spv.skip(k as int),
            spv.len() == params@.len(),
            frame_view(r@) == make_frame(names_view(params@), spv).take(k as int),
        decreases params@.len() - k,
    {
        let ghost qv0 = q@;
        let prog = q.remove(0);
        proof {
            assert(prog_view(prog@) == spv.skip(k as int)[0]);
            assert(spv.skip(k as int)[0] == spv[k as int]);
            assert(q@ =~= qv0.drop_first());
            assert(progs_view(q@) =~= progs_view(qv0).drop_first());
            assert(progs_view(qv0).drop_first() =~= spv.skip(k as int + 1));
        }
        r.push((params[k].clone(), prog));
        k = k + 1;
        proof {
            assert(progs_view(q@) =~= spv.skip(k as int));
            assert(frame_view(r@) =~= make_frame(names_view(params@), spv).take(k as int));
        }
    }
    proof {
        assert(make_frame(names_view(params@), spv).take(params@.len() as int) =~= make_frame(
            names_view(params@),
            spv,
        ));
    }
    r
}

/// The serialized parameter list: names separated by `, `.
pub open spec fn join_names(ns: Seq<Seq<char>>) -> Seq<char>
    decreases ns.len(),
{
    if ns.len() == 0 {
        seq![]
    } else if ns.len() == 1 {
        ns[0]
    } else {
        join_names(ns.drop_last()) + seq![',', ' '] + ns.last()
    }
}

/// The persisted line of one variable binding.
pub open spec fn var_line(n: Seq<char>, w: Seq<char>) -> Seq<char> {
    "let "@ + n + " = "@ + w + seq!['\n']
}

/// The persisted line of one function definition.
pub open spec fn fn_line(n: Seq<char>, params: Seq<Seq<char>>, body: ExprV) -> Seq<char> {
    "fn "@ + n + seq!['('] + join_names(params) + seq![')', ' '] + spec_format(body) + seq!['\n']
}

/// The persisted lines of the variable bindings, in insertion order.
pub open spec fn var_lines(vs: Seq<(Seq<char>, Seq<char>)>) -> Seq<char>
    decreases vs.len(),
{
    if vs.len() == 0 {
        seq![]
    } else {
        var_lines(vs.drop_last()) + var_line(vs.last().0, vs.last().1)
    }
}

/// The persisted lines of the function definitions, in insertion order.
pub open spec fn fn_lines(fs: Seq<(Seq<char>, (Seq<Seq<char>>, ExprV))>) -> Seq<char>
    decreases fs.len(),
{
    if fs.len() == 0 {
        seq![]
    } else {
        fn_lines(fs.drop_last()) + fn_line(fs.last().0, fs.last().1.0, fs.last().1.1)
    }
}

/// The whole environment as re-parsable text: every variable binding,
/// then every function definition, one statement per line.
pub open spec fn spec_serialize(
    vars: Seq<(Seq<char>, Seq<char>)>,
    funcs: Seq<(Seq<char>, (Seq<Seq<char>>, ExprV))>,
) -> Seq<char> {
    var_lines(vars) + fn_lines(funcs)
}

/// The name rebound to each successful scalar evaluation.
pub open spec fn ans_name() -> Seq<char> {
    "ans"@
}

/// Writes `name(p1, p2, ...)` parameter text onto `out`.
#[verifier::loop_isolation(false)]
fn push_join(out: &mut Vec<char>, params: &Vec<String>)
    ensures
        final(out)@ == old(out)@ + join_names(names_view(params@)),
{
    let ghost pv = names_view(params@);
    let mut j: usize = 0;
    proof {
        assert(join_names(pv.take(0)) =~= Seq::<char>::empty());
    }
    while j < params.len()
        invariant
            j <= params@.len(),
            out@ == old(out)@ + join_names(pv.take(j as int)),
        decreases params@.len() - j,
    {
        if j > 0 {
            push_char(out, ',');
            push_char(out, ' ');
        }
        push_str_chars(out, params[j].as_str());
        j = j + 1;
        proof {
            assert(pv.take(j as int).drop_last() =~= pv.take(j as int - 1));
            assert(pv.take(j as int).last() == pv[j as int - 1]);
            if j == 1 {
                assert(out@ =~= old(out)@ + join_names(pv.take(1)));
            } else {
                assert(out@ =~= old(out)@ + join_names(pv.take(j as int)));
            }
        }
    }
    proof {
        assert(pv.take(params@.len() as int) =~= pv);
    }
}

impl Interpreter {
    /// The environment as re-parsable text, one binding or definition per
    /// line, in the environment's enumeration order.
    #[verifier::loop_isolation(false)]
    #[verifier::rlimit(100)]
    pub fn serialize_env(&self) -> (s: String)
        ensures
            s@ == spec_serialize(self.vars_v(), self.funcs_v()),
    {
        let ghost vv = self.vars_v();
        let ghost fv = self.funcs_v();
        let mut out: Vec<char> = Vec::new();
        let mut i: usize = 0;
        proof {
            assert(var_lines(vv.take(0)) =~= Seq::<char>::empty());
        }
        while i < self.vars.len()
            invariant
                i <= self.vars@.len(),
                out@ == var_lines(vv.take(i as int)),
            decreases self.vars@.len() - i,
        {
            push_str_chars(&mut out, "let ");
            push_str_chars(&mut out, self.vars[i].0.as_str());
            push_str_chars(&mut out, " = ");
            push_str_chars(&mut out, self.vars[i].1.as_str());
            push_char(&mut out, '\n');
            i = i + 1;
            proof {
                assert(vv.take(i as int).drop_last() =~= vv.take(i as int - 1));
                assert(vv.take(i as int).last() == vv[i as int - 1]);
                assert(out@ =~= var_lines(vv.take(i as int)));
            }
        }
        proof {
            assert(vv.take(self.vars@.len() as int) =~= vv);
        }
        let mut k: usize = 0;
        proof {
            assert(fn_lines(fv.take(0)) =~= Seq::<char>::empty());
        }
        while k < self.funcs.len()
            invariant
                k <= self.funcs@.len(),
                out@ == var_lines(vv) + fn_lines(fv.take(k as int)),
            decreases self.funcs@.len() - k,
        {
            push_str_chars(&mut out, "fn ");
            push_str_chars(&mut out, self.funcs[k].0.as_str());
            push_char(&mut out, '(');
            push_join(&mut out, &self.funcs[k].1);
            push_char(&mut out, ')');
            push_char(&mut out, ' ');
            format_onto(&mut out, &self.funcs[k].2);
            push_char(&mut out, '\n');
            k = k + 1;
            proof {
                assert(fv.take(k as int).drop_last() =~= fv.take(k as int - 1));
                assert(fv.take(k as int).last() == fv[k as int - 1]);
                assert(out@ =~= var_lines(vv) + fn_lines(fv.take(k as int)));
            }
        }
        proof {
            assert(fv.take(self.funcs@.len() as int) =~= fv);
        }
        chars_to_string(&out)
    }

    /// Records a successful scalar evaluation: rebinds `ans` to the
    /// freshly computed value and, for an assignment, then binds the
    /// assigned name to it.
    pub fn record_result(&mut self, target: Option<String>, value: String)
        ensures
            final(self).funcs_v() == old(self).funcs_v(),
            final(self).vars_v() == match target {
                Some(n) => env_define(
                    env_define(old(self).vars_v(), ans_name(), value@),
                    n@,
                    value@,
                ),
                None => env_define(old(self).vars_v(), ans_name(), value@),
            },
    {
        let ans = "ans".to_owned();
        match target {
            Some(n) => {
                let v2 = value.clone();
                self.define(ans, v2);
                self.define(n, value);
            },
            None => {
                self.define(ans, value);
            },
        }
    }
}

} // verus!
