//! The abstract syntax: an immutable expression tree built once per parse,
//! the statement forms, and the textual formatting of expressions.
//!
//! Formatting is specified by [`spec_format`]; the executable formatter is
//! proved to produce exactly that character sequence, in a form that
//! re-tokenizes and re-parses.

use vstd::prelude::*;

use crate::token::Token;
use crate::token::TokenV;
use crate::token::chars_to_string;
use crate::token::name_cos;
use crate::token::name_ln;
use crate::token::name_log;
use crate::token::name_sin;
use crate::token::name_tan;
use crate::token::str_to_chars;

verus! {

/// A built-in unary function; `Log` carries its base as the numeral text
/// parsed right after the function name.
#[derive(Debug, PartialEq)]
pub enum Func {
    Sin,
    Cos,
    Tan,
    Ln,
    Log(String),
}

/// Mathematical image of [`Func`].
pub enum FuncV {
    Sin,
    Cos,
    Tan,
    Ln,
    Log(Seq<char>),
}

impl View for Func {
    type V = FuncV;

    open spec fn view(&self) -> FuncV {
        match self {
            Func::Sin => FuncV::Sin,
            Func::Cos => FuncV::Cos,
            Func::Tan => FuncV::Tan,
            Func::Ln => FuncV::Ln,
            Func::Log(b) => FuncV::Log(b@),
        }
    }
}

/// One expression node; each node owns its children exclusively.
#[derive(Debug, PartialEq)]
pub enum Expr {
    /// A numeric literal, as its source text.
    Num(String),
    Negative(Box<Expr>),
    Grouping(Box<Expr>),
    Abs(Box<Expr>),
    /// A left/right pair under one of the operator tokens `+ - * / %`.
    Binary(Box<Expr>, Token, Box<Expr>),
    Exponent(Box<Expr>, Box<Expr>),
    /// A built-in function applied to one argument.
    Func(Func, Box<Expr>),
    /// A named variable, resolved against the environment at evaluation time.
    Var(String),
    /// A call of a user-defined function with its argument expressions.
    Call(String, Box<Args>),
}

/// The argument expressions of a call, in order.
#[derive(Debug, PartialEq)]
pub enum Args {
    Nil,
    Cons(Expr, Box<Args>),
}

/// Mathematical image of [`Expr`].
pub enum ExprV {
    Num(Seq<char>),
    Negative(Box<ExprV>),
    Grouping(Box<ExprV>),
    Abs(Box<ExprV>),
    Binary(Box<ExprV>, TokenV, Box<ExprV>),
    Exponent(Box<ExprV>, Box<ExprV>),
    Func(FuncV, Box<ExprV>),
    Var(Seq<char>),
    Call(Seq<char>, Seq<ExprV>),
}

pub open spec fn expr_view(e: &Expr) -> ExprV
    decreases e,
{
    match e {
        Expr::Num(w) => ExprV::Num(w@),
        Expr::Negative(x) => ExprV::Negative(Box::new(expr_view(x))),
        Expr::Grouping(x) => ExprV::Grouping(Box::new(expr_view(x))),
        Expr::Abs(x) => ExprV::Abs(Box::new(expr_view(x))),
        Expr::Binary(l, op, r) => ExprV::Binary(Box::new(expr_view(l)), op@, Box::new(expr_view(r))),
        Expr::Exponent(b, x) => ExprV::Exponent(Box::new(expr_view(b)), Box::new(expr_view(x))),
        Expr::Func(f, a) => ExprV::Func(f@, Box::new(expr_view(a))),
        Expr::Var(n) => ExprV::Var(n@),
        Expr::Call(n, args) => ExprV::Call(n@, args_view(args)),
    }
}

pub open spec fn args_view(a: &Args) -> Seq<ExprV>
    decreases a,
{
    match a {
        Args::Nil => seq![],
        Args::Cons(e, rest) => seq![expr_view(e)] + args_view(rest),
    }
}

impl View for Expr {
    type V = ExprV;

    open spec fn view(&self) -> ExprV {
        expr_view(self)
    }
}

impl View for Args {
    type V = Seq<ExprV>;

    open spec fn view(&self) -> Seq<ExprV> {
        args_view(self)
    }
}

/// The parse result: exactly one top-level statement.
#[derive(Debug, PartialEq)]
pub enum Stmt {
    /// A bare expression.
    Expr(Expr),
    /// `let name = expression`.
    Assign(String, Expr),
    /// `fn name(parameters) body`.
    Fn(String, Vec<String>, Expr),
}

/// Mathematical image of [`Stmt`].
pub enum StmtV {
    Expr(ExprV),
    Assign(Seq<char>, ExprV),
    Fn(Seq<char>, Seq<Seq<char>>, ExprV),
}

/// The views of a sequence of names.
pub open spec fn names_view(ns: Seq<String>) -> Seq<Seq<char>> {
    ns.map_values(|n: String| n@)
}

impl View for Stmt {
    type V = StmtV;

    open spec fn view(&self) -> StmtV {
        match self {
            Stmt::Expr(e) => StmtV::Expr(e@),
            Stmt::Assign(n, e) => StmtV::Assign(n@, e@),
            Stmt::Fn(n, ps, b) => StmtV::Fn(n@, names_view(ps@), b@),
        }
    }
}

/// The printed symbol of a binary operator token.
pub open spec fn op_symbol(t: TokenV) -> Seq<char> {
    match t {
        TokenV::Plus => seq!['+'],
        TokenV::Minus => seq!['-'],
        TokenV::Mult => seq!['*'],
        TokenV::Div => seq!['/'],
        TokenV::Mod => seq!['%'],
        _ => seq![],
    }
}

/// The printed name of a built-in function; a `log` base is printed after
/// a space so that the text re-tokenizes as the name followed by the base
/// numeral.
pub open spec fn func_chars(f: FuncV) -> Seq<char> {
    match f {
        FuncV::Sin => name_sin(),
        FuncV::Cos => name_cos(),
        FuncV::Tan => name_tan(),
        FuncV::Ln => name_ln(),
        FuncV::Log(b) => name_log() + seq![' '] + b,
    }
}

/// The text an expression prints as: numerals and names as themselves,
/// binary operators with one space on each side, exponentiation with `^`,
/// grouping and absolute-value delimiters around their operand, and calls
/// with comma-separated arguments.
pub open spec fn spec_format(e: ExprV) -> Seq<char>
    decreases e,
{
    match e {
        ExprV::Num(w) => w,
        ExprV::Negative(x) => seq!['-'] + spec_format(*x),
        ExprV::Grouping(x) => seq!['('] + spec_format(*x) + seq![')'],
        ExprV::Abs(x) => seq!['|'] + spec_format(*x) + seq!['|'],
        ExprV::Binary(l, op, r) => spec_format(*l) + seq![' '] + op_symbol(op) + seq![' ']
            + spec_format(*r),
        ExprV::Exponent(b, x) => spec_format(*b) + seq!['^'] + spec_format(*x),
        ExprV::Func(f, a) => func_chars(f) + seq!['('] + spec_format(*a) + seq![')'],
        ExprV::Var(n) => n,
        ExprV::Call(n, args) => n + seq!['('] + spec_format_args(args) + seq![')'],
    }
}

/// The text of a call's argument list, separated by `, `.
pub open spec fn spec_format_args(args: Seq<ExprV>) -> Seq<char>
    decreases args,
{
    if args.len() == 0 {
        seq![]
    } else if args.len() == 1 {
        spec_format(args[0])
    } else {
        spec_format(args[0]) + seq![',', ' '] + spec_format_args(args.drop_first())
    }
}

pub(crate) fn push_char(out: &mut Vec<char>, c: char)
    ensures
        final(out)@ == old(out)@ + seq![c],
{
    out.push(c);
}

pub(crate) fn push_str_chars(out: &mut Vec<char>, s: &str)
    ensures
        final(out)@ == old(out)@ + s@,
{
    let cs = str_to_chars(s);
    let mut k: usize = 0;
    while k < cs.len()
        invariant
            k <= cs@.len(),
            cs@ == s@,
            out@ == old(out)@ + s@.subrange(0, k as int),
        decreases cs@.len() - k,
    {
        out.push(cs[k]);
        k = k + 1;
        proof {
            assert(out@ =~= old(out)@ + s@.subrange(0, k as int));
        }
    }
    proof {
        assert(out@ =~= old(out)@ + s@);
    }
}

fn push_func(out: &mut Vec<char>, f: &Func)
    ensures
        final(out)@ == old(out)@ + func_chars(f@),
{
    match f {
        Func::Sin => {
            push_char(out, 's');
            push_char(out, 'i');
            push_char(out, 'n');
            proof {
                assert(out@ =~= old(out)@ + func_chars(f@));
            }
        },
        Func::Cos => {
            push_char(out, 'c');
            push_char(out, 'o');
            push_char(out, 's');
            proof {
                assert(out@ =~= old(out)@ + func_chars(f@));
            }
        },
        Func::Tan => {
            push_char(out, 't');
            push_char(out, 'a');
            push_char(out, 'n');
            proof {
                assert(out@ =~= old(out)@ + func_chars(f@));
            }
        },
        Func::Ln => {
            push_char(out, 'l');
            push_char(out, 'n');
            proof {
                assert(out@ =~= old(out)@ + func_chars(f@));
            }
        },
        Func::Log(b) => {
            push_char(out, 'l');
            push_char(out, 'o');
            push_char(out, 'g');
            push_char(out, ' ');
            push_str_chars(out, b.as_str());
            proof {
                assert(out@ =~= old(out)@ + func_chars(f@));
            }
        },
    }
}

/// Writes the text of `e` onto `out`.
pub(crate) fn format_onto(out: &mut Vec<char>, e: &Expr)
    ensures
        final(out)@ == old(out)@ + spec_format(e@),
    decreases e,
{
    match e {
        Expr::Num(w) => {
            push_str_chars(out, w.as_str());
        },
        Expr::Negative(x) => {
            push_char(out, '-');
            format_onto(out, x);
            proof {
                assert(out@ =~= old(out)@ + spec_format(e@));
            }
        },
        Expr::Grouping(x) => {
            push_char(out, '(');
            format_onto(out, x);
            push_char(out, ')');
            proof {
                assert(out@ =~= old(out)@ + spec_format(e@));
            }
        },
        Expr::Abs(x) => {
            push_char(out, '|');
            format_onto(out, x);
            push_char(out, '|');
            proof {
                assert(out@ =~= old(out)@ + spec_format(e@));
            }
        },
        Expr::Binary(l, op, r) => {
            format_onto(out, l);
            push_char(out, ' ');
            match op {
                Token::Plus => push_char(out, '+'),
                Token::Minus => push_char(out, '-'),
                Token::Mult => push_char(out, '*'),
                Token::Div => push_char(out, '/'),
                Token::Mod => push_char(out, '%'),
                _ => (),
            }
            push_char(out, ' ');
            format_onto(out, r);
            proof {
                assert(out@ =~= old(out)@ + spec_format(e@));
            }
        },
        Expr::Exponent(b, x) => {
            format_onto(out, b);
            push_char(out, '^');
            format_onto(out, x);
            proof {
                assert(out@ =~= old(out)@ + spec_format(e@));
            }
        },
        Expr::Func(f, a) => {
            push_func(out, f);
            push_char(out, '(');
            format_onto(out, a);
            push_char(out, ')');
            proof {
                assert(out@ =~= old(out)@ + spec_format(e@));
            }
        },
        Expr::Var(n) => {
            push_str_chars(out, n.as_str());
        },
        Expr::Call(n, args) => {
            push_str_chars(out, n.as_str());
            push_char(out, '(');
            format_args_onto(out, args);
            push_char(out, ')');
            proof {
                assert(out@ =~= old(out)@ + spec_format(e@));
            }
        },
    }
}

fn is_nil(a: &Args) -> (b: bool)
    ensures
        b == (a@.len() == 0),
{
    match a {
        Args::Nil => true,
        Args::Cons(_, _) => {
            proof {
                assert(a@.len() > 0);
            }
            false
        },
    }
}

/// Writes the text of an argument list onto `out`.
fn format_args_onto(out: &mut Vec<char>, args: &Args)
    ensures
        final(out)@ == old(out)@ + spec_format_args(args@),
    decreases args,
{
    match args {
        Args::Nil => {
            proof {
                assert(out@ =~= old(out)@ + spec_format_args(args@));
            }
        },
        Args::Cons(e, rest) => {
            format_onto(out, e);
            if is_nil(rest) {
                proof {
                    assert(args@ =~= seq![expr_view(e)]);
                    assert(out@ =~= old(out)@ + spec_format_args(args@));
                }
            } else {
                push_char(out, ',');
                push_char(out, ' ');
                format_args_onto(out, rest);
                proof {
                    assert(args@.drop_first() =~= args_view(rest));
                    assert(out@ =~= old(out)@ + spec_format_args(args@));
                }
            }
        },
    }
}

impl Expr {
    /// The printed text of this expression, as [`spec_format`] describes it.
    pub fn format(&self) -> (s: String)
        ensures
            s@ == spec_format(self@),
    {
        let mut out: Vec<char> = Vec::new();
        format_onto(&mut out, self);
        chars_to_string(&out)
    }
}

/// Structural equality of two expressions, by their mathematical images.
pub fn eq_expr(a: &Expr, b: &Expr) -> (r: bool)
    ensures
        r == (a@ == b@),
    decreases a,
{
    match (a, b) {
        (Expr::Num(x), Expr::Num(y)) => *x == *y,
        (Expr::Var(x), Expr::Var(y)) => *x == *y,
        (Expr::Negative(x), Expr::Negative(y)) => eq_expr(x, y),
        (Expr::Grouping(x), Expr::Grouping(y)) => eq_expr(x, y),
        (Expr::Abs(x), Expr::Abs(y)) => eq_expr(x, y),
        (Expr::Binary(l1, o1, r1), Expr::Binary(l2, o2, r2)) => {
            crate::token::eq_token(o1, o2) && eq_expr(l1, l2) && eq_expr(r1, r2)
        },
        (Expr::Exponent(b1, x1), Expr::Exponent(b2, x2)) => eq_expr(b1, b2) && eq_expr(x1, x2),
        (Expr::Func(f1, a1), Expr::Func(f2, a2)) => {
            let fs = match (f1, f2) {
                (Func::Sin, Func::Sin) => true,
                (Func::Cos, Func::Cos) => true,
                (Func::Tan, Func::Tan) => true,
                (Func::Ln, Func::Ln) => true,
                (Func::Log(b1), Func::Log(b2)) => *b1 == *b2,
                _ => false,
            };
            fs && eq_expr(a1, a2)
        },
        (Expr::Call(n1, a1), Expr::Call(n2, a2)) => *n1 == *n2 && eq_args(a1, a2),
        _ => false,
    }
}

/// Structural equality of two argument lists.
pub fn eq_args(a: &Args, b: &Args) -> (r: bool)
    ensures
        r == (a@ == b@),
    decreases a,
{
    match (a, b) {
        (Args::Nil, Args::Nil) => true,
        (Args::Cons(x, xs), Args::Cons(y, ys)) => {
            let r = eq_expr(x, y) && eq_args(xs, ys);
            proof {
                if expr_view(x) == expr_view(y) && args_view(xs) == args_view(ys) {
                    assert(a@ =~= b@);
                } else if a@ == b@ {
                    assert(a@[0] == b@[0]);
                    assert(a@.drop_first() =~= args_view(xs));
                    assert(b@.drop_first() =~= args_view(ys));
                }
            }
            r
        },
        (Args::Nil, Args::Cons(y, ys)) => {
            proof {
                assert(b@.len() > 0);
            }
            false
        },
        (Args::Cons(x, xs), Args::Nil) => {
            proof {
                assert(a@.len() > 0);
            }
            false
        },
    }
}

} // verus!
