//! Laws of the engine that span several components, each proved once and
//! for all inputs.

use vstd::prelude::*;

use crate::ast::ExprV;
use crate::ast::StmtV;
use crate::parse::ParseErrV;
use crate::parse::msg_expected_expression;
use crate::parse::spec_expression;
use crate::parse::spec_factor;
use crate::parse::spec_factor_rest;
use crate::parse::spec_negative;
use crate::parse::spec_parse;
use crate::parse::spec_primary;
use crate::parse::spec_term;
use crate::parse::spec_term_rest;
use crate::parse::spec_exponent;
use crate::parse::spec_exponent_rest;
use crate::token::TokenV;
use crate::token::TokenizeErrorV;
use crate::token::is_num_char;
use crate::token::is_word_char;
use crate::token::spec_tokenize;
use crate::token::valid_numeral;
use crate::token::word_end;

verus! {

/// A run made entirely of word characters is scanned to its end.
proof fn lemma_word_end_all(s: Seq<char>, i: int, numeric: bool)
    requires
        0 <= i <= s.len(),
        forall|k: int| i <= k < s.len() ==> is_word_char(s[k], numeric),
    ensures
        word_end(s, i, numeric) == s.len(),
    decreases s.len() - i,
{
    if i < s.len() {
        lemma_word_end_all(s, i + 1, numeric);
    }
}

/// Any valid numeral string, tokenized and then parsed as a bare
/// expression, yields exactly the numeral literal node carrying that
/// string — whatever letter map the parser was given.
pub proof fn lemma_numeral_round_trip(w: Seq<char>, vals: Seq<(char, Seq<char>)>)
    requires
        valid_numeral(w),
    ensures
        spec_tokenize(w, 0) == Ok::<Seq<TokenV>, TokenizeErrorV>(
            seq![TokenV::Num(w), TokenV::Eoe],
        ),
        spec_parse(seq![TokenV::Num(w), TokenV::Eoe], vals) == Ok::<StmtV, ParseErrV>(
            StmtV::Expr(ExprV::Num(w)),
        ),
{
    assert(is_num_char(w[0]));
    lemma_word_end_all(w, 0, true);
    assert(w.subrange(0, w.len() as int) =~= w);
    assert(spec_tokenize(w, w.len() as int) == Ok::<Seq<TokenV>, TokenizeErrorV>(
        seq![TokenV::Eoe],
    ));
    assert(spec_tokenize(w, 0) == Ok::<Seq<TokenV>, TokenizeErrorV>(
        seq![TokenV::Num(w)] + seq![TokenV::Eoe],
    ));
    assert(seq![TokenV::Num(w)] + seq![TokenV::Eoe] =~= seq![TokenV::Num(w), TokenV::Eoe]);

    let toks = seq![TokenV::Num(w), TokenV::Eoe];
    assert(spec_primary(toks, vals, 0) == (
        Ok::<ExprV, ParseErrV>(ExprV::Num(w)),
        1int,
    ));
    assert(spec_negative(toks, vals, 0) == (Ok::<ExprV, ParseErrV>(ExprV::Num(w)), 1int));
    assert(spec_exponent_rest(toks, vals, 1, ExprV::Num(w)) == (
        Ok::<ExprV, ParseErrV>(ExprV::Num(w)),
        1int,
    ));
    assert(spec_exponent(toks, vals, 0) == (Ok::<ExprV, ParseErrV>(ExprV::Num(w)), 1int));
    assert(spec_factor_rest(toks, vals, 1, ExprV::Num(w)) == (
        Ok::<ExprV, ParseErrV>(ExprV::Num(w)),
        1int,
    ));
    assert(spec_factor(toks, vals, 0) == (Ok::<ExprV, ParseErrV>(ExprV::Num(w)), 1int));
    assert(spec_term_rest(toks, vals, 1, ExprV::Num(w)) == (
        Ok::<ExprV, ParseErrV>(ExprV::Num(w)),
        1int,
    ));
    assert(spec_term(toks, vals, 0) == (Ok::<ExprV, ParseErrV>(ExprV::Num(w)), 1int));
    assert(spec_expression(toks, vals, 0) == (Ok::<ExprV, ParseErrV>(ExprV::Num(w)), 1int));
}

/// The `^` chain is folded to the left: for any three numeral literals,
/// `a ^ b ^ c` parses as `(a ^ b) ^ c`.
pub proof fn lemma_exponent_left_associative(
    a: Seq<char>,
    b: Seq<char>,
    c: Seq<char>,
    vals: Seq<(char, Seq<char>)>,
)
    ensures
        spec_parse(
            seq![
                TokenV::Num(a),
                TokenV::Power,
                TokenV::Num(b),
                TokenV::Power,
                TokenV::Num(c),
                TokenV::Eoe,
            ],
            vals,
        ) == Ok::<StmtV, ParseErrV>(
            StmtV::Expr(
                ExprV::Exponent(
                    Box::new(
                        ExprV::Exponent(Box::new(ExprV::Num(a)), Box::new(ExprV::Num(b))),
                    ),
                    Box::new(ExprV::Num(c)),
                ),
            ),
        ),
{
    let toks = seq![
        TokenV::Num(a),
        TokenV::Power,
        TokenV::Num(b),
        TokenV::Power,
        TokenV::Num(c),
        TokenV::Eoe,
    ];
    assert(toks.len() == 6);
    assert(toks[0] == TokenV::Num(a));
    assert(toks[1] == TokenV::Power);
    assert(toks[2] == TokenV::Num(b));
    assert(toks[3] == TokenV::Power);
    assert(toks[4] == TokenV::Num(c));
    assert(toks[5] == TokenV::Eoe);
    let ab = ExprV::Exponent(Box::new(ExprV::Num(a)), Box::new(ExprV::Num(b)));
    let abc = ExprV::Exponent(Box::new(ab), Box::new(ExprV::Num(c)));
    assert(spec_primary(toks, vals, 0) == (Ok::<ExprV, ParseErrV>(ExprV::Num(a)), 1int));
    assert(spec_primary(toks, vals, 2) == (Ok::<ExprV, ParseErrV>(ExprV::Num(b)), 3int));
    assert(spec_primary(toks, vals, 4) == (Ok::<ExprV, ParseErrV>(ExprV::Num(c)), 5int));
    assert(spec_negative(toks, vals, 0) == (Ok::<ExprV, ParseErrV>(ExprV::Num(a)), 1int));
    assert(spec_negative(toks, vals, 2) == (Ok::<ExprV, ParseErrV>(ExprV::Num(b)), 3int));
    assert(spec_negative(toks, vals, 4) == (Ok::<ExprV, ParseErrV>(ExprV::Num(c)), 5int));
    assert(spec_exponent_rest(toks, vals, 5, abc) == (Ok::<ExprV, ParseErrV>(abc), 5int));
    assert(spec_exponent_rest(toks, vals, 3, ab) == (Ok::<ExprV, ParseErrV>(abc), 5int));
    assert(spec_exponent_rest(toks, vals, 1, ExprV::Num(a)) == (
        Ok::<ExprV, ParseErrV>(abc),
        5int,
    ));
    assert(spec_exponent(toks, vals, 0) == (Ok::<ExprV, ParseErrV>(abc), 5int));
    assert(spec_factor_rest(toks, vals, 5, abc) == (Ok::<ExprV, ParseErrV>(abc), 5int));
    assert(spec_factor(toks, vals, 0) == (Ok::<ExprV, ParseErrV>(abc), 5int));
    assert(spec_term_rest(toks, vals, 5, abc) == (Ok::<ExprV, ParseErrV>(abc), 5int));
    assert(spec_term(toks, vals, 0) == (Ok::<ExprV, ParseErrV>(abc), 5int));
    assert(spec_expression(toks, vals, 0) == (Ok::<ExprV, ParseErrV>(abc), 5int));
}

/// Multiplication binds tighter than addition: for any three numeral
/// literals, `a + b * c` parses as `a + (b * c)`.
pub proof fn lemma_mul_binds_tighter_than_add(
    a: Seq<char>,
    b: Seq<char>,
    c: Seq<char>,
    vals: Seq<(char, Seq<char>)>,
)
    ensures
        spec_parse(
            seq![
                TokenV::Num(a),
                TokenV::Plus,
                TokenV::Num(b),
                TokenV::Mult,
                TokenV::Num(c),
                TokenV::Eoe,
            ],
            vals,
        ) == Ok::<StmtV, ParseErrV>(
            StmtV::Expr(
                ExprV::Binary(
                    Box::new(ExprV::Num(a)),
                    TokenV::Plus,
                    Box::new(
                        ExprV::Binary(
                            Box::new(ExprV::Num(b)),
                            TokenV::Mult,
                            Box::new(ExprV::Num(c)),
                        ),
                    ),
                ),
            ),
        ),
{
    let toks = seq![
        TokenV::Num(a),
        TokenV::Plus,
        TokenV::Num(b),
        TokenV::Mult,
        TokenV::Num(c),
        TokenV::Eoe,
    ];
    assert(toks.len() == 6);
    assert(toks[0] == TokenV::Num(a));
    assert(toks[1] == TokenV::Plus);
    assert(toks[2] == TokenV::Num(b));
    assert(toks[3] == TokenV::Mult);
    assert(toks[4] == TokenV::Num(c));
    assert(toks[5] == TokenV::Eoe);
    let bc = ExprV::Binary(Box::new(ExprV::Num(b)), TokenV::Mult, Box::new(ExprV::Num(c)));
    let abc = ExprV::Binary(Box::new(ExprV::Num(a)), TokenV::Plus, Box::new(bc));
    assert(spec_primary(toks, vals, 0) == (Ok::<ExprV, ParseErrV>(ExprV::Num(a)), 1int));
    assert(spec_primary(toks, vals, 2) == (Ok::<ExprV, ParseErrV>(ExprV::Num(b)), 3int));
    assert(spec_primary(toks, vals, 4) == (Ok::<ExprV, ParseErrV>(ExprV::Num(c)), 5int));
    assert(spec_negative(toks, vals, 0) == (Ok::<ExprV, ParseErrV>(ExprV::Num(a)), 1int));
    assert(spec_negative(toks, vals, 2) == (Ok::<ExprV, ParseErrV>(ExprV::Num(b)), 3int));
    assert(spec_negative(toks, vals, 4) == (Ok::<ExprV, ParseErrV>(ExprV::Num(c)), 5int));
    assert(spec_exponent_rest(toks, vals, 1, ExprV::Num(a)) == (
        Ok::<ExprV, ParseErrV>(ExprV::Num(a)),
        1int,
    ));
    assert(spec_exponent(toks, vals, 0) == (Ok::<ExprV, ParseErrV>(ExprV::Num(a)), 1int));
    assert(spec_factor_rest(toks, vals, 1, ExprV::Num(a)) == (
        Ok::<ExprV, ParseErrV>(ExprV::Num(a)),
        1int,
    ));
    assert(spec_factor(toks, vals, 0) == (Ok::<ExprV, ParseErrV>(ExprV::Num(a)), 1int));
    assert(spec_exponent_rest(toks, vals, 3, ExprV::Num(b)) == (
        Ok::<ExprV, ParseErrV>(ExprV::Num(b)),
        3int,
    ));
    assert(spec_exponent(toks, vals, 2) == (Ok::<ExprV, ParseErrV>(ExprV::Num(b)), 3int));
    assert(spec_exponent_rest(toks, vals, 5, ExprV::Num(c)) == (
        Ok::<ExprV, ParseErrV>(ExprV::Num(c)),
        5int,
    ));
    assert(spec_exponent(toks, vals, 4) == (Ok::<ExprV, ParseErrV>(ExprV::Num(c)), 5int));
    assert(spec_factor_rest(toks, vals, 5, bc) == (Ok::<ExprV, ParseErrV>(bc), 5int));
    assert(spec_factor_rest(toks, vals, 3, ExprV::Num(b)) == (Ok::<ExprV, ParseErrV>(bc), 5int));
    assert(spec_factor(toks, vals, 2) == (Ok::<ExprV, ParseErrV>(bc), 5int));
    assert(spec_term_rest(toks, vals, 5, abc) == (Ok::<ExprV, ParseErrV>(abc), 5int));
    assert(spec_term_rest(toks, vals, 1, ExprV::Num(a)) == (Ok::<ExprV, ParseErrV>(abc), 5int));
    assert(spec_term(toks, vals, 0) == (Ok::<ExprV, ParseErrV>(abc), 5int));
    assert(spec_expression(toks, vals, 0) == (Ok::<ExprV, ParseErrV>(abc), 5int));
}

/// Unary minus chains right-recursively: for any numeral literal,
/// `--a` parses as the double negation of `a`.
pub proof fn lemma_unary_minus_chains(a: Seq<char>, vals: Seq<(char, Seq<char>)>)
    ensures
        spec_parse(
            seq![TokenV::Minus, TokenV::Minus, TokenV::Num(a), TokenV::Eoe],
            vals,
        ) == Ok::<StmtV, ParseErrV>(
            StmtV::Expr(
                ExprV::Negative(Box::new(ExprV::Negative(Box::new(ExprV::Num(a))))),
            ),
        ),
{
    let toks = seq![TokenV::Minus, TokenV::Minus, TokenV::Num(a), TokenV::Eoe];
    assert(toks.len() == 4);
    assert(toks[0] == TokenV::Minus);
    assert(toks[1] == TokenV::Minus);
    assert(toks[2] == TokenV::Num(a));
    assert(toks[3] == TokenV::Eoe);
    let nn = ExprV::Negative(Box::new(ExprV::Negative(Box::new(ExprV::Num(a)))));
    assert(spec_primary(toks, vals, 2) == (Ok::<ExprV, ParseErrV>(ExprV::Num(a)), 3int));
    assert(spec_negative(toks, vals, 2) == (Ok::<ExprV, ParseErrV>(ExprV::Num(a)), 3int));
    assert(spec_negative(toks, vals, 1) == (
        Ok::<ExprV, ParseErrV>(ExprV::Negative(Box::new(ExprV::Num(a)))),
        3int,
    ));
    assert(spec_negative(toks, vals, 0) == (Ok::<ExprV, ParseErrV>(nn), 3int));
    assert(spec_exponent_rest(toks, vals, 3, nn) == (Ok::<ExprV, ParseErrV>(nn), 3int));
    assert(spec_exponent(toks, vals, 0) == (Ok::<ExprV, ParseErrV>(nn), 3int));
    assert(spec_factor_rest(toks, vals, 3, nn) == (Ok::<ExprV, ParseErrV>(nn), 3int));
    assert(spec_factor(toks, vals, 0) == (Ok::<ExprV, ParseErrV>(nn), 3int));
    assert(spec_term_rest(toks, vals, 3, nn) == (Ok::<ExprV, ParseErrV>(nn), 3int));
    assert(spec_term(toks, vals, 0) == (Ok::<ExprV, ParseErrV>(nn), 3int));
    assert(spec_expression(toks, vals, 0) == (Ok::<ExprV, ParseErrV>(nn), 3int));
}

/// A group left unclosed is rejected, never partially parsed: for any
/// numeral literal, `(a` fails with the missing-parenthesis diagnostic.
pub proof fn lemma_unclosed_paren_rejected(a: Seq<char>, vals: Seq<(char, Seq<char>)>)
    ensures
        spec_parse(seq![TokenV::LParen, TokenV::Num(a), TokenV::Eoe], vals) matches Err(e)
            && e.token == TokenV::RParen && e.msg == crate::parse::msg_missing_rparen(),
{
    let toks = seq![TokenV::LParen, TokenV::Num(a), TokenV::Eoe];
    assert(toks.len() == 3);
    assert(toks[0] == TokenV::LParen);
    assert(toks[1] == TokenV::Num(a));
    assert(toks[2] == TokenV::Eoe);
    let na = ExprV::Num(a);
    assert(spec_primary(toks, vals, 1) == (Ok::<ExprV, ParseErrV>(na), 2int));
    assert(spec_negative(toks, vals, 1) == (Ok::<ExprV, ParseErrV>(na), 2int));
    assert(spec_exponent_rest(toks, vals, 2, na) == (Ok::<ExprV, ParseErrV>(na), 2int));
    assert(spec_exponent(toks, vals, 1) == (Ok::<ExprV, ParseErrV>(na), 2int));
    assert(spec_factor_rest(toks, vals, 2, na) == (Ok::<ExprV, ParseErrV>(na), 2int));
    assert(spec_factor(toks, vals, 1) == (Ok::<ExprV, ParseErrV>(na), 2int));
    assert(spec_term_rest(toks, vals, 2, na) == (Ok::<ExprV, ParseErrV>(na), 2int));
    assert(spec_term(toks, vals, 1) == (Ok::<ExprV, ParseErrV>(na), 2int));
    assert(spec_expression(toks, vals, 1) == (Ok::<ExprV, ParseErrV>(na), 2int));
    let pe = ParseErrV { token: TokenV::RParen, msg: crate::parse::msg_missing_rparen() };
    assert(spec_primary(toks, vals, 0) == (Err::<ExprV, ParseErrV>(pe), 2int));
    assert(spec_negative(toks, vals, 0) == (Err::<ExprV, ParseErrV>(pe), 2int));
    assert(spec_exponent(toks, vals, 0) == (Err::<ExprV, ParseErrV>(pe), 2int));
    assert(spec_factor(toks, vals, 0) == (Err::<ExprV, ParseErrV>(pe), 2int));
    assert(spec_term(toks, vals, 0) == (Err::<ExprV, ParseErrV>(pe), 2int));
    assert(spec_expression(toks, vals, 0) == (Err::<ExprV, ParseErrV>(pe), 2int));
}

/// Empty input tokenizes to the bare sentinel, and parsing it is a
/// parse error — never a crash, never a partial result.
pub proof fn lemma_empty_input_rejected(vals: Seq<(char, Seq<char>)>)
    ensures
        spec_tokenize(Seq::<char>::empty(), 0) == Ok::<Seq<TokenV>, TokenizeErrorV>(
            seq![TokenV::Eoe],
        ),
        spec_parse(seq![TokenV::Eoe], vals) matches Err(e) && e.msg == msg_expected_expression()
            && e.token == TokenV::Eoe,
{
    let toks = seq![TokenV::Eoe];
    let pe = ParseErrV { token: TokenV::Eoe, msg: msg_expected_expression() };
    assert(spec_primary(toks, vals, 0) == (Err::<ExprV, ParseErrV>(pe), 0int));
    assert(spec_negative(toks, vals, 0) == (Err::<ExprV, ParseErrV>(pe), 0int));
    assert(spec_exponent(toks, vals, 0) == (Err::<ExprV, ParseErrV>(pe), 0int));
    assert(spec_factor(toks, vals, 0) == (Err::<ExprV, ParseErrV>(pe), 0int));
    assert(spec_term(toks, vals, 0) == (Err::<ExprV, ParseErrV>(pe), 0int));
    assert(spec_expression(toks, vals, 0) == (Err::<ExprV, ParseErrV>(pe), 0int));
}

} // verus!
