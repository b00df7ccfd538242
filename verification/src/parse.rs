//! Recursive-descent parsing: one token sequence becomes exactly one
//! statement, or a [`ParseErr`] at the first violated expectation.
//!
//! The grammar, loosest to tightest: a term is a left-associative `+`/`-`
//! chain over factors; a factor a left-associative `*`/`/`/`%` chain over
//! exponent expressions; an exponent a left-folded `^` chain (so `2^3^2`
//! groups as `(2^3)^2`); unary minus is right-recursive; a primary is a
//! numeral, a parenthesized or pipe-delimited sub-expression, a single-letter
//! variable substituted at parse time from a supplied letter map, a built-in
//! function application, a named call, or a named variable reference.
//!
//! The whole grammar is specified by the `spec_*` functions below; the
//! executable [`Parser`] is proved to return exactly what they say.

use vstd::prelude::*;

use crate::ast::Args;
use crate::ast::Expr;
use crate::ast::ExprV;
use crate::ast::Func;
use crate::ast::FuncV;
use crate::ast::Stmt;
use crate::ast::StmtV;
use crate::ast::args_view;
use crate::ast::names_view;
use crate::token::FuncName;
use crate::token::Token;
use crate::token::TokenV;
use crate::token::toks_view;

verus! {

/// A parse failure: the token that violated an expectation and a fixed
/// diagnostic message.
#[derive(Debug, PartialEq)]
pub struct ParseErr {
    pub token: Token,
    pub msg: &'static str,
}

/// Mathematical image of a [`ParseErr`].
pub struct ParseErrV {
    pub token: TokenV,
    pub msg: Seq<char>,
}

impl View for ParseErr {
    type V = ParseErrV;

    open spec fn view(&self) -> ParseErrV {
        ParseErrV { token: self.token@, msg: self.msg@ }
    }
}

impl ParseErr {
    /// The error text shown to the user.
    pub fn message(&self) -> (s: String)
        ensures
            s@ == self@.msg,
    {
        let v = crate::token::str_to_chars(self.msg);
        crate::token::chars_to_string(&v)
    }
}

impl ParseErr {
    pub fn new(token: Token, msg: &'static str) -> (e: ParseErr)
        ensures
            e@.token == token@,
            e@.msg == msg@,
    {
        ParseErr { token, msg }
    }
}

/// The token at position `i`, or the sentinel when `i` is past the end:
/// the parser never reads past the sentinel.
pub open spec fn peek_spec(toks: Seq<TokenV>, i: int) -> TokenV {
    if 0 <= i < toks.len() {
        toks[i]
    } else {
        TokenV::Eoe
    }
}

/// The letter map of the parse-time substitution path, as pairs in
/// insertion order; a later entry for the same letter wins.
pub open spec fn vals_view(vs: Seq<(char, String)>) -> Seq<(char, Seq<char>)> {
    vs.map_values(|p: (char, String)| (p.0, p.1@))
}

/// The numeral bound to letter `c`, the latest binding winning.
pub open spec fn spec_lookup(vs: Seq<(char, Seq<char>)>, c: char) -> Option<Seq<char>>
    decreases vs.len(),
{
    if vs.len() == 0 {
        None
    } else if vs.last().0 == c {
        Some(vs.last().1)
    } else {
        spec_lookup(vs.drop_last(), c)
    }
}

/// No name occurs twice.
pub open spec fn distinct_names(ns: Seq<Seq<char>>) -> bool {
    forall|a: int, b: int| 0 <= a < b < ns.len() ==> ns[a] != ns[b]
}

pub open spec fn msg_missing_rparen() -> Seq<char> {
    "Missing closing parentheses"@
}

pub open spec fn msg_missing_pipe() -> Seq<char> {
    "Missing closing pipe"@
}

pub open spec fn msg_missing_lparen() -> Seq<char> {
    "Missing opening parentheses"@
}

pub open spec fn msg_missing_base() -> Seq<char> {
    "Missing base for log function"@
}

pub open spec fn msg_unknown_variable() -> Seq<char> {
    "Unknown variable"@
}

pub open spec fn msg_expected_expression() -> Seq<char> {
    "Expected expression"@
}

pub open spec fn msg_expected_identifier() -> Seq<char> {
    "Expected identifier"@
}

pub open spec fn msg_expected_equal() -> Seq<char> {
    "Expected equals sign"@
}

pub open spec fn msg_expected_parameter() -> Seq<char> {
    "Expected parameter name"@
}

pub open spec fn msg_duplicate_parameter() -> Seq<char> {
    "Duplicate parameter"@
}

/// A primary expression at `i`.
pub open spec fn spec_primary(toks: Seq<TokenV>, vals: Seq<(char, Seq<char>)>, i: int) -> (Result<
    ExprV,
    ParseErrV,
>, int)
    decreases toks.len() - i, 1int,
{
    let t = peek_spec(toks, i);
    match t {
        TokenV::Num(w) => (Ok(ExprV::Num(w)), i + 1),
        TokenV::LParen => {
            let (r, j) = spec_expression(toks, vals, i + 1);
            match r {
                Err(pe) => (Err(pe), j),
                Ok(e) => if peek_spec(toks, j) is RParen {
                    (Ok(ExprV::Grouping(Box::new(e))), j + 1)
                } else {
                    (Err(ParseErrV { token: TokenV::RParen, msg: msg_missing_rparen() }), j)
                },
            }
        },
        TokenV::Pipe => {
            let (r, j) = spec_expression(toks, vals, i + 1);
            match r {
                Err(pe) => (Err(pe), j),
                Ok(e) => if peek_spec(toks, j) is Pipe {
                    (Ok(ExprV::Abs(Box::new(e))), j + 1)
                } else {
                    (Err(ParseErrV { token: TokenV::Pipe, msg: msg_missing_pipe() }), j)
                },
            }
        },
        TokenV::Var(c) => match spec_lookup(vals, c) {
            Some(w) => (Ok(ExprV::Num(w)), i + 1),
            None => (Err(ParseErrV { token: t, msg: msg_unknown_variable() }), i),
        },
        TokenV::Func(fname) => spec_func_app(toks, vals, i, fname),
        TokenV::Ident(name) => {
            if peek_spec(toks, i + 1) is LParen {
                if peek_spec(toks, i + 2) is RParen {
                    (Ok(ExprV::Call(name, seq![])), i + 3)
                } else {
                    let (r, j) = spec_call_args(toks, vals, i + 2);
                    match r {
                        Err(pe) => (Err(pe), j),
                        Ok(args) => if peek_spec(toks, j) is RParen {
                            (Ok(ExprV::Call(name, args)), j + 1)
                        } else {
                            (
                                Err(ParseErrV { token: TokenV::RParen, msg: msg_missing_rparen() }),
                                j,
                            )
                        },
                    }
                }
            } else {
                (Ok(ExprV::Var(name)), i + 1)
            }
        },
        _ => (Err(ParseErrV { token: t, msg: msg_expected_expression() }), i),
    }
}

/// A built-in function application whose name token stands at `i`; for
/// `log` the base is the numeral token right after the name, not an
/// expression.
pub open spec fn spec_func_app(
    toks: Seq<TokenV>,
    vals: Seq<(char, Seq<char>)>,
    i: int,
    fname: FuncName,
) -> (Result<ExprV, ParseErrV>, int)
    decreases toks.len() - i, 0int,
{
    if fname is Log {
        match peek_spec(toks, i + 1) {
            TokenV::Num(base) => {
                if peek_spec(toks, i + 2) is LParen {
                    let (r, j) = spec_expression(toks, vals, i + 3);
                    match r {
                        Err(pe) => (Err(pe), j),
                        Ok(e) => if peek_spec(toks, j) is RParen {
                            (Ok(ExprV::Func(FuncV::Log(base), Box::new(e))), j + 1)
                        } else {
                            (
                                Err(ParseErrV { token: TokenV::RParen, msg: msg_missing_rparen() }),
                                j,
                            )
                        },
                    }
                } else {
                    (Err(ParseErrV { token: TokenV::LParen, msg: msg_missing_lparen() }), i + 2)
                }
            },
            _ => (
                Err(ParseErrV { token: TokenV::Func(fname), msg: msg_missing_base() }),
                i + 1,
            ),
        }
    } else {
        let kind = match fname {
            FuncName::Sin => FuncV::Sin,
            FuncName::Cos => FuncV::Cos,
            FuncName::Tan => FuncV::Tan,
            _ => FuncV::Ln,
        };
        if peek_spec(toks, i + 1) is LParen {
            let (r, j) = spec_expression(toks, vals, i + 2);
            match r {
                Err(pe) => (Err(pe), j),
                Ok(e) => if peek_spec(toks, j) is RParen {
                    (Ok(ExprV::Func(kind, Box::new(e))), j + 1)
                } else {
                    (Err(ParseErrV { token: TokenV::RParen, msg: msg_missing_rparen() }), j)
                },
            }
        } else {
            (Err(ParseErrV { token: TokenV::LParen, msg: msg_missing_lparen() }), i + 1)
        }
    }
}

/// The comma-separated argument expressions of a call, starting at `i`.
pub open spec fn spec_call_args(toks: Seq<TokenV>, vals: Seq<(char, Seq<char>)>, i: int) -> (Result<
    Seq<ExprV>,
    ParseErrV,
>, int)
    decreases toks.len() - i, 7int,
{
    let (r, j) = spec_expression(toks, vals, i);
    match r {
        Err(pe) => (Err(pe), j),
        Ok(e) => if peek_spec(toks, j) is Comma {
            if i <= j < toks.len() {
                let (rr, k) = spec_call_args(toks, vals, j + 1);
                match rr {
                    Err(pe) => (Err(pe), k),
                    Ok(rest) => (Ok(seq![e] + rest), k),
                }
            } else {
                (Ok(seq![e]), j)
            }
        } else {
            (Ok(seq![e]), j)
        },
    }
}

/// Right-recursive unary minus.
pub open spec fn spec_negative(toks: Seq<TokenV>, vals: Seq<(char, Seq<char>)>, i: int) -> (Result<
    ExprV,
    ParseErrV,
>, int)
    decreases toks.len() - i, 2int,
{
    if peek_spec(toks, i) is Minus {
        let (r, j) = spec_negative(toks, vals, i + 1);
        match r {
            Err(pe) => (Err(pe), j),
            Ok(e) => (Ok(ExprV::Negative(Box::new(e))), j),
        }
    } else {
        spec_primary(toks, vals, i)
    }
}

/// The left-folded `^` chain continuing an exponent expression.
pub open spec fn spec_exponent_rest(
    toks: Seq<TokenV>,
    vals: Seq<(char, Seq<char>)>,
    i: int,
    acc: ExprV,
) -> (Result<ExprV, ParseErrV>, int)
    decreases toks.len() - i, 7int,
{
    if peek_spec(toks, i) is Power {
        let (r, j) = spec_negative(toks, vals, i + 1);
        match r {
            Err(pe) => (Err(pe), j),
            Ok(rhs) => if i < j <= toks.len() {
                spec_exponent_rest(toks, vals, j, ExprV::Exponent(Box::new(acc), Box::new(rhs)))
            } else {
                (Ok(acc), j)
            },
        }
    } else {
        (Ok(acc), i)
    }
}

/// An exponent expression at `i`.
pub open spec fn spec_exponent(toks: Seq<TokenV>, vals: Seq<(char, Seq<char>)>, i: int) -> (Result<
    ExprV,
    ParseErrV,
>, int)
    decreases toks.len() - i, 3int,
{
    let (r, j) = spec_negative(toks, vals, i);
    match r {
        Err(pe) => (Err(pe), j),
        Ok(e) => if i < j <= toks.len() {
            spec_exponent_rest(toks, vals, j, e)
        } else {
            (Ok(e), j)
        },
    }
}

/// Whether `t` continues a factor chain.
pub open spec fn is_factor_op(t: TokenV) -> bool {
    t is Mult || t is Div || t is Mod
}

/// The left-associative `*`/`/`/`%` chain continuing a factor.
pub open spec fn spec_factor_rest(
    toks: Seq<TokenV>,
    vals: Seq<(char, Seq<char>)>,
    i: int,
    acc: ExprV,
) -> (Result<ExprV, ParseErrV>, int)
    decreases toks.len() - i, 7int,
{
    let op = peek_spec(toks, i);
    if is_factor_op(op) {
        let (r, j) = spec_exponent(toks, vals, i + 1);
        match r {
            Err(pe) => (Err(pe), j),
            Ok(rhs) => if i < j <= toks.len() {
                spec_factor_rest(
                    toks,
                    vals,
                    j,
                    ExprV::Binary(Box::new(acc), op, Box::new(rhs)),
                )
            } else {
                (Ok(acc), j)
            },
        }
    } else {
        (Ok(acc), i)
    }
}

/// A factor at `i`.
pub open spec fn spec_factor(toks: Seq<TokenV>, vals: Seq<(char, Seq<char>)>, i: int) -> (Result<
    ExprV,
    ParseErrV,
>, int)
    decreases toks.len() - i, 4int,
{
    let (r, j) = spec_exponent(toks, vals, i);
    match r {
        Err(pe) => (Err(pe), j),
        Ok(e) => if i < j <= toks.len() {
            spec_factor_rest(toks, vals, j, e)
        } else {
            (Ok(e), j)
        },
    }
}

/// Whether `t` continues a term chain.
pub open spec fn is_term_op(t: TokenV) -> bool {
    t is Plus || t is Minus
}

/// The left-associative `+`/`-` chain continuing a term.
pub open spec fn spec_term_rest(
    toks: Seq<TokenV>,
    vals: Seq<(char, Seq<char>)>,
    i: int,
    acc: ExprV,
) -> (Result<ExprV, ParseErrV>, int)
    decreases toks.len() - i, 7int,
{
    let op = peek_spec(toks, i);
    if is_term_op(op) {
        let (r, j) = spec_factor(toks, vals, i + 1);
        match r {
            Err(pe) => (Err(pe), j),
            Ok(rhs) => if i < j <= toks.len() {
                spec_term_rest(toks, vals, j, ExprV::Binary(Box::new(acc), op, Box::new(rhs)))
            } else {
                (Ok(acc), j)
            },
        }
    } else {
        (Ok(acc), i)
    }
}

/// A term at `i`.
pub open spec fn spec_term(toks: Seq<TokenV>, vals: Seq<(char, Seq<char>)>, i: int) -> (Result<
    ExprV,
    ParseErrV,
>, int)
    decreases toks.len() - i, 5int,
{
    let (r, j) = spec_factor(toks, vals, i);
    match r {
        Err(pe) => (Err(pe), j),
        Ok(e) => if i < j <= toks.len() {
            spec_term_rest(toks, vals, j, e)
        } else {
            (Ok(e), j)
        },
    }
}

/// A full expression at `i`.
pub open spec fn spec_expression(toks: Seq<TokenV>, vals: Seq<(char, Seq<char>)>, i: int) -> (
    Result<ExprV, ParseErrV>,
    int,
)
    decreases toks.len() - i, 6int,
{
    spec_term(toks, vals, i)
}

/// The comma-separated parameter names of a declaration, starting at `i`
/// and ending at a closing parenthesis.
pub open spec fn spec_params(toks: Seq<TokenV>, i: int) -> (Result<Seq<Seq<char>>, ParseErrV>, int)
    decreases toks.len() - i,
{
    match peek_spec(toks, i) {
        TokenV::Ident(p) => {
            match peek_spec(toks, i + 1) {
                TokenV::Comma => {
                    if 0 <= i < toks.len() {
                        let (r, j) = spec_params(toks, i + 2);
                        match r {
                            Err(pe) => (Err(pe), j),
                            Ok(rest) => (Ok(seq![p] + rest), j),
                        }
                    } else {
                        (Ok(seq![p]), i + 2)
                    }
                },
                TokenV::RParen => (Ok(seq![p]), i + 2),
                _ => (
                    Err(ParseErrV { token: TokenV::RParen, msg: msg_missing_rparen() }),
                    i + 1,
                ),
            }
        },
        t => (Err(ParseErrV { token: t, msg: msg_expected_parameter() }), i),
    }
}

/// The one statement a token sequence parses as: a function declaration
/// after `fn`, an assignment after `let`, else a bare expression.
pub open spec fn spec_parse(toks: Seq<TokenV>, vals: Seq<(char, Seq<char>)>) -> Result<
    StmtV,
    ParseErrV,
> {
    if peek_spec(toks, 0) is Let {
        match peek_spec(toks, 1) {
            TokenV::Ident(name) => {
                if peek_spec(toks, 2) is Equal {
                    let (r, j) = spec_expression(toks, vals, 3);
                    match r {
                        Err(pe) => Err(pe),
                        Ok(e) => Ok(StmtV::Assign(name, e)),
                    }
                } else {
                    Err(ParseErrV { token: TokenV::Equal, msg: msg_expected_equal() })
                }
            },
            t => Err(ParseErrV { token: t, msg: msg_expected_identifier() }),
        }
    } else if peek_spec(toks, 0) is Fn {
        match peek_spec(toks, 1) {
            TokenV::Ident(name) => {
                if peek_spec(toks, 2) is LParen {
                    let (pr, j): (Result<Seq<Seq<char>>, ParseErrV>, int) = if peek_spec(toks, 3)
                        is RParen {
                        (Ok(seq![]), 4)
                    } else {
                        spec_params(toks, 3)
                    };
                    match pr {
                        Err(pe) => Err(pe),
                        Ok(params) => {
                            if distinct_names(params) {
                                let (r, _k) = spec_expression(toks, vals, j);
                                match r {
                                    Err(pe) => Err(pe),
                                    Ok(body) => Ok(StmtV::Fn(name, params, body)),
                                }
                            } else {
                                Err(
                                    ParseErrV {
                                        token: TokenV::Ident(name),
                                        msg: msg_duplicate_parameter(),
                                    },
                                )
                            }
                        },
                    }
                } else {
                    Err(ParseErrV { token: TokenV::LParen, msg: msg_missing_lparen() })
                }
            },
            t => Err(ParseErrV { token: t, msg: msg_expected_identifier() }),
        }
    } else {
        let (r, _j) = spec_expression(toks, vals, 0);
        match r {
            Err(pe) => Err(pe),
            Ok(e) => Ok(StmtV::Expr(e)),
        }
    }
}

/// Consumes a terminated token sequence and produces exactly one
/// statement, applying the precedence-climbing grammar above.
pub struct Parser {
    tokens: Vec<Token>,
    current: usize,
    values: Vec<(char, String)>,
}

impl Parser {
    /// The tokens being parsed, as their mathematical images.
    pub closed spec fn toks(&self) -> Seq<TokenV> {
        toks_view(self.tokens@)
    }

    /// The letter map of the substitution path.
    pub closed spec fn vals(&self) -> Seq<(char, Seq<char>)> {
        vals_view(self.values@)
    }

    /// The next position to read.
    pub closed spec fn pos(&self) -> int {
        self.current as int
    }

    pub fn new(tokens: Vec<Token>, values: Vec<(char, String)>) -> (p: Parser)
        ensures
            p.toks() == toks_view(tokens@),
            p.vals() == vals_view(values@),
            p.pos() == 0,
    {
        Parser { tokens, current: 0, values }
    }

    /// The token at the next position, never past the sentinel.
    fn peek(&self) -> (t: Token)
        ensures
            t@ == peek_spec(self.toks(), self.pos()),
    {
        if self.current < self.tokens.len() {
            self.tokens[self.current].clone()
        } else {
            Token::Eoe
        }
    }

    fn advance(&mut self)
        requires
            old(self).pos() < old(self).toks().len(),
        ensures
            final(self).toks() == old(self).toks(),
            final(self).vals() == old(self).vals(),
            final(self).pos() == old(self).pos() + 1,
    {
        let n = self.tokens.len();
        proof {
            assert(self.current < n);
        }
        self.current = self.current + 1;
    }

    /// The numeral the substitution path binds to `c`, the latest binding
    /// winning.
    fn lookup_value(&self, c: char) -> (r: Option<String>)
        ensures
            match r {
                Some(w) => spec_lookup(self.vals(), c) == Some(w@),
                None => spec_lookup(self.vals(), c) is None,
            },
    {
        let ghost vv = self.vals();
        let mut k = self.values.len();
        proof {
            assert(vv.take(k as int) =~= vv);
        }
        while k > 0
            invariant
                k <= self.values@.len(),
                vv == self.vals(),
                spec_lookup(vv, c) == spec_lookup(vv.take(k as int), c),
            decreases k,
        {
            k = k - 1;
            if self.values[k].0 == c {
                proof {
                    assert(vv.take(k as int + 1).last() == vv[k as int]);
                }
                return Some(self.values[k].1.clone());
            }
            proof {
                assert(vv.take(k as int + 1).last() == vv[k as int]);
                assert(vv.take(k as int + 1).drop_last() =~= vv.take(k as int));
            }
        }
        proof {
            assert(vv.take(0) =~= Seq::<(char, Seq<char>)>::empty());
        }
        None
    }

    /// Parses one statement from the start of the token sequence; the
    /// result is exactly what [`spec_parse`] says of it.
    #[verifier::rlimit(100)]
    pub fn parse(&mut self) -> (r: Result<Stmt, ParseErr>)
        requires
            old(self).pos() == 0,
        ensures
            match r {
                Ok(s) => spec_parse(old(self).toks(), old(self).vals()) matches Ok(sv) && s@ == sv,
                Err(pe) => spec_parse(old(self).toks(), old(self).vals()) matches Err(spe) && pe@
                    == spe,
            },
    {
        let t = self.peek();
        match t {
            Token::Let => {
                self.advance();
                let t1 = self.peek();
                match t1 {
                    Token::Ident(name) => {
                        self.advance();
                        let t2 = self.peek();
                        match t2 {
                            Token::Equal => {
                                self.advance();
                                match self.expression() {
                                    Ok(e) => Ok(Stmt::Assign(name, e)),
                                    Err(pe) => Err(pe),
                                }
                            },
                            _ => Err(ParseErr::new(Token::Equal, "Expected equals sign")),
                        }
                    },
                    other => Err(ParseErr::new(other, "Expected identifier")),
                }
            },
            Token::Fn => {
                self.advance();
                let t1 = self.peek();
                match t1 {
                    Token::Ident(name) => {
                        self.advance();
                        let t2 = self.peek();
                        match t2 {
                            Token::LParen => {
                                self.advance();
                                let t3 = self.peek();
                                let params: Vec<String> = match t3 {
                                    Token::RParen => {
                                        self.advance();
                                        let v: Vec<String> = Vec::new();
                                        proof {
                                            assert(names_view(v@) =~= Seq::<Seq<char>>::empty());
                                        }
                                        v
                                    },
                                    _ => match self.params() {
                                        Ok(ps) => ps,
                                        Err(pe) => {
                                            return Err(pe);
                                        },
                                    },
                                };
                                if !all_distinct(&params) {
                                    return Err(
                                        ParseErr::new(Token::Ident(name), "Duplicate parameter"),
                                    );
                                }
                                match self.expression() {
                                    Ok(body) => Ok(Stmt::Fn(name, params, body)),
                                    Err(pe) => Err(pe),
                                }
                            },
                            _ => Err(ParseErr::new(Token::LParen, "Missing opening parentheses")),
                        }
                    },
                    other => Err(ParseErr::new(other, "Expected identifier")),
                }
            },
            _ => {
                match self.expression() {
                    Ok(e) => Ok(Stmt::Expr(e)),
                    Err(pe) => Err(pe),
                }
            },
        }
    }

    /// A full expression starting at the next position.
    fn expression(&mut self) -> (r: Result<Expr, ParseErr>)
        requires
            old(self).pos() <= old(self).toks().len(),
        ensures
            final(self).toks() == old(self).toks(),
            final(self).vals() == old(self).vals(),
            ({
                let (sr, sj) = spec_expression(old(self).toks(), old(self).vals(), old(self).pos());
                match r {
                    Ok(e) => sr matches Ok(se) && e@ == se && final(self).pos() == sj && old(
                        self,
                    ).pos() < final(self).pos() <= old(self).toks().len(),
                    Err(pe) => sr matches Err(spe) && pe@ == spe,
                }
            }),
        decreases self.toks().len() - self.pos(), 6int,
    {
        self.term()
    }

    fn term(&mut self) -> (r: Result<Expr, ParseErr>)
        requires
            old(self).pos() <= old(self).toks().len(),
        ensures
            final(self).toks() == old(self).toks(),
            final(self).vals() == old(self).vals(),
            ({
                let (sr, sj) = spec_term(old(self).toks(), old(self).vals(), old(self).pos());
                match r {
                    Ok(e) => sr matches Ok(se) && e@ == se && final(self).pos() == sj && old(
                        self,
                    ).pos() < final(self).pos() <= old(self).toks().len(),
                    Err(pe) => sr matches Err(spe) && pe@ == spe,
                }
            }),
        decreases self.toks().len() - self.pos(), 5int,
    {
        match self.factor() {
            Err(pe) => Err(pe),
            Ok(e) => self.term_rest(e),
        }
    }

    fn term_rest(&mut self, acc: Expr) -> (r: Result<Expr, ParseErr>)
        requires
            old(self).pos() <= old(self).toks().len(),
        ensures
            final(self).toks() == old(self).toks(),
            final(self).vals() == old(self).vals(),
            ({
                let (sr, sj) = spec_term_rest(
                    old(self).toks(),
                    old(self).vals(),
                    old(self).pos(),
                    acc@,
                );
                match r {
                    Ok(e) => sr matches Ok(se) && e@ == se && final(self).pos() == sj && old(
                        self,
                    ).pos() <= final(self).pos() <= old(self).toks().len(),
                    Err(pe) => sr matches Err(spe) && pe@ == spe,
                }
            }),
        decreases self.toks().len() - self.pos(), 7int,
    {
        let t = self.peek();
        match t {
            Token::Plus => {
                self.advance();
                match self.factor() {
                    Err(pe) => Err(pe),
                    Ok(rhs) => self.term_rest(
                        Expr::Binary(Box::new(acc), Token::Plus, Box::new(rhs)),
                    ),
                }
            },
            Token::Minus => {
                self.advance();
                match self.factor() {
                    Err(pe) => Err(pe),
                    Ok(rhs) => self.term_rest(
                        Expr::Binary(Box::new(acc), Token::Minus, Box::new(rhs)),
                    ),
                }
            },
            _ => Ok(acc),
        }
    }

    fn factor(&mut self) -> (r: Result<Expr, ParseErr>)
        requires
            old(self).pos() <= old(self).toks().len(),
        ensures
            final(self).toks() == old(self).toks(),
            final(self).vals() == old(self).vals(),
            ({
                let (sr, sj) = spec_factor(old(self).toks(), old(self).vals(), old(self).pos());
                match r {
                    Ok(e) => sr matches Ok(se) && e@ == se && final(self).pos() == sj && old(
                        self,
                    ).pos() < final(self).pos() <= old(self).toks().len(),
                    Err(pe) => sr matches Err(spe) && pe@ == spe,
                }
            }),
        decreases self.toks().len() - self.pos(), 4int,
    {
        match self.exponent() {
            Err(pe) => Err(pe),
            Ok(e) => self.factor_rest(e),
        }
    }

    fn factor_rest(&mut self, acc: Expr) -> (r: Result<Expr, ParseErr>)
        requires
            old(self).pos() <= old(self).toks().len(),
        ensures
            final(self).toks() == old(self).toks(),
            final(self).vals() == old(self).vals(),
            ({
                let (sr, sj) = spec_factor_rest(
                    old(self).toks(),
                    old(self).vals(),
                    old(self).pos(),
                    acc@,
                );
                match r {
                    Ok(e) => sr matches Ok(se) && e@ == se && final(self).pos() == sj && old(
                        self,
                    ).pos() <= final(self).pos() <= old(self).toks().len(),
                    Err(pe) => sr matches Err(spe) && pe@ == spe,
                }
            }),
        decreases self.toks().len() - self.pos(), 7int,
    {
        let t = self.peek();
        match t {
            Token::Mult => {
                self.advance();
                match self.exponent() {
                    Err(pe) => Err(pe),
                    Ok(rhs) => self.factor_rest(
                        Expr::Binary(Box::new(acc), Token::Mult, Box::new(rhs)),
                    ),
                }
            },
            Token::Div => {
                self.advance();
                match self.exponent() {
                    Err(pe) => Err(pe),
                    Ok(rhs) => self.factor_rest(
                        Expr::Binary(Box::new(acc), Token::Div, Box::new(rhs)),
                    ),
                }
            },
            Token::Mod => {
                self.advance();
                match self.exponent() {
                    Err(pe) => Err(pe),
                    Ok(rhs) => self.factor_rest(
                        Expr::Binary(Box::new(acc), Token::Mod, Box::new(rhs)),
                    ),
                }
            },
            _ => Ok(acc),
        }
    }

    fn exponent(&mut self) -> (r: Result<Expr, ParseErr>)
        requires
            old(self).pos() <= old(self).toks().len(),
        ensures
            final(self).toks() == old(self).toks(),
            final(self).vals() == old(self).vals(),
            ({
                let (sr, sj) = spec_exponent(old(self).toks(), old(self).vals(), old(self).pos());
                match r {
                    Ok(e) => sr matches Ok(se) && e@ == se && final(self).pos() == sj && old(
                        self,
                    ).pos() < final(self).pos() <= old(self).toks().len(),
                    Err(pe) => sr matches Err(spe) && pe@ == spe,
                }
            }),
        decreases self.toks().len() - self.pos(), 3int,
    {
        match self.negative() {
            Err(pe) => Err(pe),
            Ok(e) => self.exponent_rest(e),
        }
    }

    fn exponent_rest(&mut self, acc: Expr) -> (r: Result<Expr, ParseErr>)
        requires
            old(self).pos() <= old(self).toks().len(),
        ensures
            final(self).toks() == old(self).toks(),
            final(self).vals() == old(self).vals(),
            ({
                let (sr, sj) = spec_exponent_rest(
                    old(self).toks(),
                    old(self).vals(),
                    old(self).pos(),
                    acc@,
                );
                match r {
                    Ok(e) => sr matches Ok(se) && e@ == se && final(self).pos() == sj && old(
                        self,
                    ).pos() <= final(self).pos() <= old(self).toks().len(),
                    Err(pe) => sr matches Err(spe) && pe@ == spe,
                }
            }),
        decreases self.toks().len() - self.pos(), 7int,
    {
        let t = self.peek();
        match t {
            Token::Power => {
                self.advance();
                match self.negative() {
                    Err(pe) => Err(pe),
                    Ok(rhs) => self.exponent_rest(
                        Expr::Exponent(Box::new(acc), Box::new(rhs)),
                    ),
                }
            },
            _ => Ok(acc),
        }
    }

    fn negative(&mut self) -> (r: Result<Expr, ParseErr>)
        requires
            old(self).pos() <= old(self).toks().len(),
        ensures
            final(self).toks() == old(self).toks(),
            final(self).vals() == old(self).vals(),
            ({
                let (sr, sj) = spec_negative(old(self).toks(), old(self).vals(), old(self).pos());
                match r {
                    Ok(e) => sr matches Ok(se) && e@ == se && final(self).pos() == sj && old(
                        self,
                    ).pos() < final(self).pos() <= old(self).toks().len(),
                    Err(pe) => sr matches Err(spe) && pe@ == spe,
                }
            }),
        decreases self.toks().len() - self.pos(), 2int,
    {
        let t = self.peek();
        match t {
            Token::Minus => {
                self.advance();
                match self.negative() {
                    Err(pe) => Err(pe),
                    Ok(e) => Ok(Expr::Negative(Box::new(e))),
                }
            },
            _ => self.primary(),
        }
    }

    #[verifier::rlimit(100)]
    fn primary(&mut self) -> (r: Result<Expr, ParseErr>)
        requires
            old(self).pos() <= old(self).toks().len(),
        ensures
            final(self).toks() == old(self).toks(),
            final(self).vals() == old(self).vals(),
            ({
                let (sr, sj) = spec_primary(old(self).toks(), old(self).vals(), old(self).pos());
                match r {
                    Ok(e) => sr matches Ok(se) && e@ == se && final(self).pos() == sj && old(
                        self,
                    ).pos() < final(self).pos() <= old(self).toks().len(),
                    Err(pe) => sr matches Err(spe) && pe@ == spe,
                }
            }),
        decreases self.toks().len() - self.pos(), 1int,
    {
        let t = self.peek();
        match t {
            Token::Num(w) => {
                self.advance();
                Ok(Expr::Num(w))
            },
            Token::LParen => {
                self.advance();
                match self.expression() {
                    Err(pe) => Err(pe),
                    Ok(e) => {
                        let t2 = self.peek();
                        match t2 {
                            Token::RParen => {
                                self.advance();
                                Ok(Expr::Grouping(Box::new(e)))
                            },
                            _ => Err(ParseErr::new(Token::RParen, "Missing closing parentheses")),
                        }
                    },
                }
            },
            Token::Pipe => {
                self.advance();
                match self.expression() {
                    Err(pe) => Err(pe),
                    Ok(e) => {
                        let t2 = self.peek();
                        match t2 {
                            Token::Pipe => {
                                self.advance();
                                Ok(Expr::Abs(Box::new(e)))
                            },
                            _ => Err(ParseErr::new(Token::Pipe, "Missing closing pipe")),
                        }
                    },
                }
            },
            Token::Var(c) => {
                match self.lookup_value(c) {
                    Some(w) => {
                        self.advance();
                        Ok(Expr::Num(w))
                    },
                    None => Err(ParseErr::new(Token::Var(c), "Unknown variable")),
                }
            },
            Token::Func(fname) => self.func_app(fname),
            Token::Ident(name) => {
                self.advance();
                let t2 = self.peek();
                match t2 {
                    Token::LParen => {
                        self.advance();
                        let t3 = self.peek();
                        match t3 {
                            Token::RParen => {
                                self.advance();
                                let a = Expr::Call(name, Box::new(Args::Nil));
                                proof {
                                    assert(args_view(&Args::Nil) =~= Seq::<ExprV>::empty());
                                }
                                Ok(a)
                            },
                            _ => {
                                match self.call_args() {
                                    Err(pe) => Err(pe),
                                    Ok(args) => {
                                        let t4 = self.peek();
                                        match t4 {
                                            Token::RParen => {
                                                self.advance();
                                                Ok(Expr::Call(name, Box::new(args)))
                                            },
                                            _ => Err(
                                                ParseErr::new(
                                                    Token::RParen,
                                                    "Missing closing parentheses",
                                                ),
                                            ),
                                        }
                                    },
                                }
                            },
                        }
                    },
                    _ => Ok(Expr::Var(name)),
                }
            },
            other => Err(ParseErr::new(other, "Expected expression")),
        }
    }

    /// A built-in function application whose name token is next.
    #[verifier::rlimit(60)]
    fn func_app(&mut self, fname: FuncName) -> (r: Result<Expr, ParseErr>)
        requires
            old(self).pos() <= old(self).toks().len(),
            peek_spec(old(self).toks(), old(self).pos()) == TokenV::Func(fname),
        ensures
            final(self).toks() == old(self).toks(),
            final(self).vals() == old(self).vals(),
            ({
                let (sr, sj) = spec_func_app(
                    old(self).toks(),
                    old(self).vals(),
                    old(self).pos(),
                    fname,
                );
                match r {
                    Ok(e) => sr matches Ok(se) && e@ == se && final(self).pos() == sj && old(
                        self,
                    ).pos() < final(self).pos() <= old(self).toks().len(),
                    Err(pe) => sr matches Err(spe) && pe@ == spe,
                }
            }),
        decreases self.toks().len() - self.pos(), 0int,
    {
        self.advance();
        match fname {
            FuncName::Log => {
                let t1 = self.peek();
                match t1 {
                    Token::Num(base) => {
                        self.advance();
                        let t2 = self.peek();
                        match t2 {
                            Token::LParen => {
                                self.advance();
                                match self.expression() {
                                    Err(pe) => Err(pe),
                                    Ok(e) => {
                                        let t3 = self.peek();
                                        match t3 {
                                            Token::RParen => {
                                                self.advance();
                                                Ok(
                                                    Expr::Func(
                                                        Func::Log(base),
                                                        Box::new(e),
                                                    ),
                                                )
                                            },
                                            _ => Err(
                                                ParseErr::new(
                                                    Token::RParen,
                                                    "Missing closing parentheses",
                                                ),
                                            ),
                                        }
                                    },
                                }
                            },
                            _ => Err(
                                ParseErr::new(Token::LParen, "Missing opening parentheses"),
                            ),
                        }
                    },
                    _ => Err(
                        ParseErr::new(Token::Func(fname), "Missing base for log function"),
                    ),
                }
            },
            _ => {
                let kind = match fname {
                    FuncName::Sin => Func::Sin,
                    FuncName::Cos => Func::Cos,
                    FuncName::Tan => Func::Tan,
                    _ => Func::Ln,
                };
                let t1 = self.peek();
                match t1 {
                    Token::LParen => {
                        self.advance();
                        match self.expression() {
                            Err(pe) => Err(pe),
                            Ok(e) => {
                                let t2 = self.peek();
                                match t2 {
                                    Token::RParen => {
                                        self.advance();
                                        Ok(Expr::Func(kind, Box::new(e)))
                                    },
                                    _ => Err(
                                        ParseErr::new(
                                            Token::RParen,
                                            "Missing closing parentheses",
                                        ),
                                    ),
                                }
                            },
                        }
                    },
                    _ => Err(ParseErr::new(Token::LParen, "Missing opening parentheses")),
                }
            },
        }
    }

    /// The comma-separated argument expressions of a call.
    fn call_args(&mut self) -> (r: Result<Args, ParseErr>)
        requires
            old(self).pos() <= old(self).toks().len(),
        ensures
            final(self).toks() == old(self).toks(),
            final(self).vals() == old(self).vals(),
            ({
                let (sr, sj) = spec_call_args(old(self).toks(), old(self).vals(), old(self).pos());
                match r {
                    Ok(a) => sr matches Ok(sargs) && a@ == sargs && final(self).pos() == sj && old(
                        self,
                    ).pos() < final(self).pos() <= old(self).toks().len(),
                    Err(pe) => sr matches Err(spe) && pe@ == spe,
                }
            }),
        decreases self.toks().len() - self.pos(), 7int,
    {
        match self.expression() {
            Err(pe) => Err(pe),
            Ok(e) => {
                let t = self.peek();
                match t {
                    Token::Comma => {
                        self.advance();
                        match self.call_args() {
                            Err(pe) => Err(pe),
                            Ok(rest) => {
                                let ghost ev = e@;
                                let ghost rv = rest@;
                                let a = Args::Cons(e, Box::new(rest));
                                proof {
                                    assert(args_view(&a) =~= seq![ev] + rv);
                                }
                                Ok(a)
                            },
                        }
                    },
                    _ => {
                        let ghost ev = e@;
                        let a = Args::Cons(e, Box::new(Args::Nil));
                        proof {
                            assert(args_view(&Args::Nil) == Seq::<ExprV>::empty());
                            assert(args_view(&a) =~= seq![ev]);
                        }
                        Ok(a)
                    },
                }
            },
        }
    }

    /// The comma-separated parameter names of a declaration.
    fn params(&mut self) -> (r: Result<Vec<String>, ParseErr>)
        requires
            old(self).pos() <= old(self).toks().len(),
        ensures
            final(self).toks() == old(self).toks(),
            final(self).vals() == old(self).vals(),
            ({
                let (sr, sj) = spec_params(old(self).toks(), old(self).pos());
                match r {
                    Ok(v) => sr matches Ok(sp) && names_view(v@) == sp && final(self).pos() == sj
                        && old(self).pos() < final(self).pos() <= old(self).toks().len(),
                    Err(pe) => sr matches Err(spe) && pe@ == spe,
                }
            }),
        decreases self.toks().len() - self.pos(),
    {
        let t = self.peek();
        match t {
            Token::Ident(p) => {
                self.advance();
                let t2 = self.peek();
                match t2 {
                    Token::Comma => {
                        self.advance();
                        match self.params() {
                            Err(pe) => Err(pe),
                            Ok(mut rest) => {
                                let ghost r0 = rest@;
                                let ghost pv = p@;
                                rest.insert(0, p);
                                proof {
                                    assert(names_view(rest@) =~= seq![pv] + names_view(r0));
                                }
                                Ok(rest)
                            },
                        }
                    },
                    Token::RParen => {
                        self.advance();
                        let v = vec![p];
                        proof {
                            assert(names_view(v@) =~= seq![v@[0]@]);
                        }
                        Ok(v)
                    },
                    _ => Err(ParseErr::new(Token::RParen, "Missing closing parentheses")),
                }
            },
            other => Err(ParseErr::new(other, "Expected parameter name")),
        }
    }
}

/// Whether all names in the list are pairwise distinct.
fn all_distinct(ns: &Vec<String>) -> (b: bool)
    ensures
        b == distinct_names(names_view(ns@)),
{
    let ghost nv = names_view(ns@);
    let mut i: usize = 0;
    while i < ns.len()
        invariant
            i <= ns@.len(),
            nv == names_view(ns@),
            forall|a: int, b: int| 0 <= a < b < nv.len() && a < i ==> nv[a] != nv[b],
        decreases ns@.len() - i,
    {
        let mut j: usize = i + 1;
        while j < ns.len()
            invariant
                i < ns@.len(),
                i < j <= ns@.len() || j == i + 1,
                nv == names_view(ns@),
                forall|b: int| i < b < j ==> nv[i as int] != nv[b],
            decreases ns@.len() - j,
        {
            if ns[i] == ns[j] {
                proof {
                    assert(nv[i as int] == nv[j as int]);
                }
                return false;
            }
            j = j + 1;
        }
        i = i + 1;
    }
    true
}

} // verus!
