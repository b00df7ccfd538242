//! Lexical analysis: turns one line of input characters into an ordered
//! sequence of tokens terminated by exactly one end-of-expression sentinel.
//!
//! The whole scan is specified by [`spec_tokenize`]; the executable
//! [`Tokenizer`] is proved to return exactly what that model says.

use vstd::prelude::*;

verus! {

/// Names of the built-in unary functions recognised by the tokenizer.
#[derive(Clone, Copy, Debug, PartialEq, Eq, Structural)]
pub enum FuncName {
    Sin,
    Cos,
    Tan,
    Ln,
    Log,
}

/// One lexical unit. Numerals and identifiers carry their source text.
#[derive(Debug, PartialEq)]
pub enum Token {
    /// A numeric literal, as the exact digit/decimal-point run scanned.
    Num(String),
    /// A multi-character (or single-letter) name that is neither a keyword
    /// nor a built-in function name.
    Ident(String),
    /// A built-in function name.
    Func(FuncName),
    /// A single-letter variable of the parse-time substitution path.
    Var(char),
    Plus,
    Minus,
    Mult,
    Div,
    Mod,
    Power,
    LParen,
    RParen,
    Pipe,
    Comma,
    Equal,
    /// The `let` keyword.
    Let,
    /// The `fn` keyword.
    Fn,
    /// End-of-expression sentinel; every token sequence ends with it.
    Eoe,
}

/// Mathematical image of a [`Token`]: strings become character sequences.
pub enum TokenV {
    Num(Seq<char>),
    Ident(Seq<char>),
    Func(FuncName),
    Var(char),
    Plus,
    Minus,
    Mult,
    Div,
    Mod,
    Power,
    LParen,
    RParen,
    Pipe,
    Comma,
    Equal,
    Let,
    Fn,
    Eoe,
}

impl View for Token {
    type V = TokenV;

    open spec fn view(&self) -> TokenV {
        match self {
            Token::Num(s) => TokenV::Num(s@),
            Token::Ident(s) => TokenV::Ident(s@),
            Token::Func(f) => TokenV::Func(*f),
            Token::Var(c) => TokenV::Var(*c),
            Token::Plus => TokenV::Plus,
            Token::Minus => TokenV::Minus,
            Token::Mult => TokenV::Mult,
            Token::Div => TokenV::Div,
            Token::Mod => TokenV::Mod,
            Token::Power => TokenV::Power,
            Token::LParen => TokenV::LParen,
            Token::RParen => TokenV::RParen,
            Token::Pipe => TokenV::Pipe,
            Token::Comma => TokenV::Comma,
            Token::Equal => TokenV::Equal,
            Token::Let => TokenV::Let,
            Token::Fn => TokenV::Fn,
            Token::Eoe => TokenV::Eoe,
        }
    }
}

impl Clone for Token {
    /// Cloning a token keeps its mathematical value.
    fn clone(&self) -> (r: Token)
        ensures
            r@ == self@,
    {
        match self {
            Token::Num(s) => Token::Num(s.clone()),
            Token::Ident(s) => Token::Ident(s.clone()),
            Token::Func(f) => Token::Func(*f),
            Token::Var(c) => Token::Var(*c),
            Token::Plus => Token::Plus,
            Token::Minus => Token::Minus,
            Token::Mult => Token::Mult,
            Token::Div => Token::Div,
            Token::Mod => Token::Mod,
            Token::Power => Token::Power,
            Token::LParen => Token::LParen,
            Token::RParen => Token::RParen,
            Token::Pipe => Token::Pipe,
            Token::Comma => Token::Comma,
            Token::Equal => Token::Equal,
            Token::Let => Token::Let,
            Token::Fn => Token::Fn,
            Token::Eoe => Token::Eoe,
        }
    }
}

/// Tokenizing aborts on the first malformed numeral or unrecognized
/// character.
#[derive(Debug, PartialEq)]
pub enum TokenizeError {
    /// A maximal digit/decimal-point run that is not a valid numeral,
    /// carrying the offending text.
    MalformedNumeral(String),
    /// A character outside the lexical vocabulary, with its position.
    UnrecognizedChar(char, usize),
}

/// Mathematical image of a [`TokenizeError`].
pub enum TokenizeErrorV {
    MalformedNumeral(Seq<char>),
    UnrecognizedChar(char, int),
}

impl View for TokenizeError {
    type V = TokenizeErrorV;

    open spec fn view(&self) -> TokenizeErrorV {
        match self {
            TokenizeError::MalformedNumeral(s) => TokenizeErrorV::MalformedNumeral(s@),
            TokenizeError::UnrecognizedChar(c, i) => TokenizeErrorV::UnrecognizedChar(*c, *i as int),
        }
    }
}

pub open spec fn is_digit(c: char) -> bool {
    '0' <= c && c <= '9'
}

pub open spec fn is_letter(c: char) -> bool {
    ('a' <= c && c <= 'z') || ('A' <= c && c <= 'Z')
}

/// Characters a numeral run is made of.
pub open spec fn is_num_char(c: char) -> bool {
    is_digit(c) || c == '.'
}

/// Characters an identifier may continue with.
pub open spec fn is_ident_char(c: char) -> bool {
    is_letter(c) || is_digit(c)
}

pub open spec fn is_space(c: char) -> bool {
    c == ' ' || c == '\t'
}

/// A member of a word being scanned: numeral characters when `numeric`,
/// identifier characters otherwise.
pub open spec fn is_word_char(c: char, numeric: bool) -> bool {
    if numeric {
        is_num_char(c)
    } else {
        is_ident_char(c)
    }
}

/// End of the maximal word-character run that starts at `i`.
pub open spec fn word_end(s: Seq<char>, i: int, numeric: bool) -> int
    decreases s.len() - i,
{
    if 0 <= i < s.len() && is_word_char(s[i], numeric) {
        word_end(s, i + 1, numeric)
    } else {
        i
    }
}

pub proof fn lemma_word_end_bounds(s: Seq<char>, i: int, numeric: bool)
    requires
        0 <= i <= s.len(),
    ensures
        i <= word_end(s, i, numeric) <= s.len(),
        forall|k: int| i <= k < word_end(s, i, numeric) ==> is_word_char(s[k], numeric),
    decreases s.len() - i,
{
    if i < s.len() && is_word_char(s[i], numeric) {
        lemma_word_end_bounds(s, i + 1, numeric);
    }
}

/// Number of decimal points in a scanned word.
pub open spec fn dot_count(w: Seq<char>) -> nat
    decreases w.len(),
{
    if w.len() == 0 {
        0
    } else {
        dot_count(w.drop_last()) + if w.last() == '.' {
            1nat
        } else {
            0nat
        }
    }
}

/// A valid numeral: a nonempty digit/decimal-point run with at most one
/// decimal point and at least one digit.
pub open spec fn valid_numeral(w: Seq<char>) -> bool {
    &&& w.len() > 0
    &&& forall|k: int| 0 <= k < w.len() ==> is_num_char(w[k])
    &&& dot_count(w) <= 1
    &&& dot_count(w) < w.len()
}

pub open spec fn kw_let() -> Seq<char> {
    seq!['l', 'e', 't']
}

pub open spec fn kw_fn() -> Seq<char> {
    seq!['f', 'n']
}

pub open spec fn name_sin() -> Seq<char> {
    seq!['s', 'i', 'n']
}

pub open spec fn name_cos() -> Seq<char> {
    seq!['c', 'o', 's']
}

pub open spec fn name_tan() -> Seq<char> {
    seq!['t', 'a', 'n']
}

pub open spec fn name_ln() -> Seq<char> {
    seq!['l', 'n']
}

pub open spec fn name_log() -> Seq<char> {
    seq!['l', 'o', 'g']
}

/// Classification of a scanned identifier word: keyword, built-in function
/// name, or generic identifier.
pub open spec fn classify_word(w: Seq<char>) -> TokenV {
    if w == kw_let() {
        TokenV::Let
    } else if w == kw_fn() {
        TokenV::Fn
    } else if w == name_sin() {
        TokenV::Func(FuncName::Sin)
    } else if w == name_cos() {
        TokenV::Func(FuncName::Cos)
    } else if w == name_tan() {
        TokenV::Func(FuncName::Tan)
    } else if w == name_ln() {
        TokenV::Func(FuncName::Ln)
    } else if w == name_log() {
        TokenV::Func(FuncName::Log)
    } else {
        TokenV::Ident(w)
    }
}

/// The token a single operator or delimiter character maps to, if any.
pub open spec fn op_token(c: char) -> Option<TokenV> {
    if c == '+' {
        Some(TokenV::Plus)
    } else if c == '-' {
        Some(TokenV::Minus)
    } else if c == '*' {
        Some(TokenV::Mult)
    } else if c == '/' {
        Some(TokenV::Div)
    } else if c == '%' {
        Some(TokenV::Mod)
    } else if c == '^' {
        Some(TokenV::Power)
    } else if c == '(' {
        Some(TokenV::LParen)
    } else if c == ')' {
        Some(TokenV::RParen)
    } else if c == '|' {
        Some(TokenV::Pipe)
    } else if c == ',' {
        Some(TokenV::Comma)
    } else if c == '=' {
        Some(TokenV::Equal)
    } else {
        None
    }
}

/// Prepends a token to a tokenization result.
pub open spec fn cons_token(t: TokenV, r: Result<Seq<TokenV>, TokenizeErrorV>) -> Result<
    Seq<TokenV>,
    TokenizeErrorV,
> {
    match r {
        Ok(ts) => Ok(seq![t] + ts),
        Err(e) => Err(e),
    }
}

/// The tokenization of `s` from position `i` on: whitespace is skipped,
/// numerals and identifiers are scanned greedily, single characters map to
/// their operator tokens, and the sequence ends with one sentinel.
pub open spec fn spec_tokenize(s: Seq<char>, i: int) -> Result<Seq<TokenV>, TokenizeErrorV>
    decreases s.len() - i,
    when 0 <= i <= s.len()
    via spec_tokenize_dec
{
    if i >= s.len() {
        Ok(seq![TokenV::Eoe])
    } else {
        let c = s[i];
        if is_space(c) {
            spec_tokenize(s, i + 1)
        } else if is_num_char(c) {
            let j = word_end(s, i, true);
            let w = s.subrange(i, j);
            if valid_numeral(w) {
                cons_token(TokenV::Num(w), spec_tokenize(s, j))
            } else {
                Err(TokenizeErrorV::MalformedNumeral(w))
            }
        } else if is_letter(c) {
            let j = word_end(s, i, false);
            cons_token(classify_word(s.subrange(i, j)), spec_tokenize(s, j))
        } else {
            match op_token(c) {
                Some(t) => cons_token(t, spec_tokenize(s, i + 1)),
                None => Err(TokenizeErrorV::UnrecognizedChar(c, i)),
            }
        }
    }
}

#[via_fn]
proof fn spec_tokenize_dec(s: Seq<char>, i: int) {
    if 0 <= i < s.len() {
        if is_num_char(s[i]) {
            lemma_word_end_bounds(s, i, true);
            lemma_word_end_bounds(s, i + 1, true);
        } else if is_letter(s[i]) {
            lemma_word_end_bounds(s, i, false);
            lemma_word_end_bounds(s, i + 1, false);
        }
    }
}

/// The views of a sequence of tokens.
pub open spec fn toks_view(ts: Seq<Token>) -> Seq<TokenV> {
    ts.map_values(|t: Token| t@)
}

/// How an executable tokenization result matches the model's.
pub open spec fn tokens_match(
    sr: Result<Seq<TokenV>, TokenizeErrorV>,
    r: Result<Vec<Token>, TokenizeError>,
) -> bool {
    match (sr, r) {
        (Ok(ts), Ok(v)) => toks_view(v@) == ts,
        (Err(se), Err(e)) => e@ == se,
        _ => false,
    }
}

/// Relies on std's `Iterator::collect` for `String`: collecting the
/// characters of a vector yields the string holding exactly those
/// characters, in order.
#[verifier::external_body]
pub(crate) fn chars_to_string(v: &Vec<char>) -> (s: String)
    ensures
        s@ == v@,
{
    v.iter().collect()
}

/// Relies on std's `str::chars`: iterating a string slice yields exactly
/// its characters, in order.
#[verifier::external_body]
pub(crate) fn str_to_chars(s: &str) -> (v: Vec<char>)
    ensures
        v@ == s@,
{
    s.chars().collect()
}

/// Equality of two tokens, by their mathematical images.
pub fn eq_token(a: &Token, b: &Token) -> (r: bool)
    ensures
        r == (a@ == b@),
{
    match (a, b) {
        (Token::Num(x), Token::Num(y)) => *x == *y,
        (Token::Ident(x), Token::Ident(y)) => *x == *y,
        (Token::Func(x), Token::Func(y)) => *x == *y,
        (Token::Var(x), Token::Var(y)) => *x == *y,
        (Token::Plus, Token::Plus) => true,
        (Token::Minus, Token::Minus) => true,
        (Token::Mult, Token::Mult) => true,
        (Token::Div, Token::Div) => true,
        (Token::Mod, Token::Mod) => true,
        (Token::Power, Token::Power) => true,
        (Token::LParen, Token::LParen) => true,
        (Token::RParen, Token::RParen) => true,
        (Token::Pipe, Token::Pipe) => true,
        (Token::Comma, Token::Comma) => true,
        (Token::Equal, Token::Equal) => true,
        (Token::Let, Token::Let) => true,
        (Token::Fn, Token::Fn) => true,
        (Token::Eoe, Token::Eoe) => true,
        _ => false,
    }
}

/// Converts one line of input characters into tokens.
pub struct Tokenizer {
    input: Vec<char>,
}

impl View for Tokenizer {
    type V = Seq<char>;

    /// A tokenizer is its pending input characters.
    closed spec fn view(&self) -> Seq<char> {
        self.input@
    }
}

impl Tokenizer {
    pub fn new(input: Vec<char>) -> (t: Tokenizer)
        ensures
            t@ == input@,
    {
        Tokenizer { input }
    }

    /// Scans the whole input; the result is exactly what [`spec_tokenize`]
    /// says of it.
    pub fn into_tokens(self) -> (r: Result<Vec<Token>, TokenizeError>)
        ensures
            tokens_match(spec_tokenize(self@, 0), r),
    {
        scan(&self.input, 0)
    }
}

fn exec_is_digit(c: char) -> (b: bool)
    ensures
        b == is_digit(c),
{
    '0' <= c && c <= '9'
}

fn exec_is_letter(c: char) -> (b: bool)
    ensures
        b == is_letter(c),
{
    ('a' <= c && c <= 'z') || ('A' <= c && c <= 'Z')
}

fn exec_is_word_char(c: char, numeric: bool) -> (b: bool)
    ensures
        b == is_word_char(c, numeric),
{
    if numeric {
        exec_is_digit(c) || c == '.'
    } else {
        exec_is_letter(c) || exec_is_digit(c)
    }
}

/// Finds the end of the maximal word-character run starting at `i`.
fn exec_word_end(s: &Vec<char>, i: usize, numeric: bool) -> (j: usize)
    requires
        i <= s@.len(),
    ensures
        j == word_end(s@, i as int, numeric),
        i <= j <= s@.len(),
{
    let mut j = i;
    while j < s.len() && exec_is_word_char(s[j], numeric)
        invariant
            i <= j <= s@.len(),
            word_end(s@, i as int, numeric) == word_end(s@, j as int, numeric),
        decreases s@.len() - j,
    {
        j = j + 1;
    }
    j
}

/// Copies the characters of `s[i..j]`, counting decimal points.
fn read_word(s: &Vec<char>, i: usize, j: usize) -> (r: (Vec<char>, usize))
    requires
        i <= j <= s@.len(),
    ensures
        r.0@ == s@.subrange(i as int, j as int),
        r.1 == dot_count(s@.subrange(i as int, j as int)),
{
    let mut w: Vec<char> = Vec::new();
    let mut dots: usize = 0;
    let mut k = i;
    while k < j
        invariant
            i <= k <= j <= s@.len(),
            w@ == s@.subrange(i as int, k as int),
            dots == dot_count(s@.subrange(i as int, k as int)),
            dots <= w@.len(),
        decreases j - k,
    {
        let c = s[k];
        w.push(c);
        if c == '.' {
            dots = dots + 1;
        }
        k = k + 1;
        proof {
            assert(s@.subrange(i as int, k as int).drop_last() =~= s@.subrange(
                i as int,
                k as int - 1,
            ));
            assert(w@ =~= s@.subrange(i as int, k as int));
        }
    }
    (w, dots)
}

/// Classifies a scanned identifier word.
fn classify(w: &Vec<char>) -> (t: Token)
    ensures
        t@ == classify_word(w@),
{
    if w.len() == 3 && w[0] == 'l' && w[1] == 'e' && w[2] == 't' {
        proof {
            assert(w@ =~= kw_let());
        }
        Token::Let
    } else if w.len() == 2 && w[0] == 'f' && w[1] == 'n' {
        proof {
            assert(w@ =~= kw_fn());
        }
        Token::Fn
    } else if w.len() == 3 && w[0] == 's' && w[1] == 'i' && w[2] == 'n' {
        proof {
            assert(w@ =~= name_sin());
        }
        Token::Func(FuncName::Sin)
    } else if w.len() == 3 && w[0] == 'c' && w[1] == 'o' && w[2] == 's' {
        proof {
            assert(w@ =~= name_cos());
        }
        Token::Func(FuncName::Cos)
    } else if w.len() == 3 && w[0] == 't' && w[1] == 'a' && w[2] == 'n' {
        proof {
            assert(w@ =~= name_tan());
        }
        Token::Func(FuncName::Tan)
    } else if w.len() == 2 && w[0] == 'l' && w[1] == 'n' {
        proof {
            assert(w@ =~= name_ln());
        }
        Token::Func(FuncName::Ln)
    } else if w.len() == 3 && w[0] == 'l' && w[1] == 'o' && w[2] == 'g' {
        proof {
            assert(w@ =~= name_log());
        }
        Token::Func(FuncName::Log)
    } else {
        proof {
            assert(w@ != kw_let() && w@ != kw_fn() && w@ != name_sin() && w@ != name_cos() && w@
                != name_tan() && w@ != name_ln() && w@ != name_log());
        }
        Token::Ident(chars_to_string(w))
    }
}

/// Prepends `t` to a successful scan of the rest of the input.
fn cons_exec(t: Token, rest: Result<Vec<Token>, TokenizeError>) -> (r: Result<
    Vec<Token>,
    TokenizeError,
>)
    ensures
        rest matches Ok(v) ==> r matches Ok(rv) && toks_view(rv@) == seq![t@] + toks_view(v@),
        rest matches Err(e) ==> r matches Err(re) && re == e,
{
    match rest {
        Ok(mut v) => {
            let ghost v0 = v@;
            v.insert(0, t);
            proof {
                assert(toks_view(v@) =~= seq![t@] + toks_view(v0));
            }
            Ok(v)
        },
        Err(e) => Err(e),
    }
}

/// Scans tokens from position `i` to the end of the input.
fn scan(s: &Vec<char>, i: usize) -> (r: Result<Vec<Token>, TokenizeError>)
    requires
        i <= s@.len(),
    ensures
        tokens_match(spec_tokenize(s@, i as int), r),
    decreases s@.len() - i,
{
    if i >= s.len() {
        let v = vec![Token::Eoe];
        proof {
            assert(toks_view(v@) =~= seq![TokenV::Eoe]);
        }
        Ok(v)
    } else {
        let c = s[i];
        if c == ' ' || c == '\t' {
            scan(s, i + 1)
        } else if exec_is_digit(c) || c == '.' {
            let j = exec_word_end(s, i, true);
            proof {
                lemma_word_end_bounds(s@, i as int, true);
                lemma_word_end_bounds(s@, i as int + 1, true);
            }
            let (w, dots) = read_word(s, i, j);
            if dots <= 1 && dots < w.len() {
                let tok = Token::Num(chars_to_string(&w));
                cons_exec(tok, scan(s, j))
            } else {
                Err(TokenizeError::MalformedNumeral(chars_to_string(&w)))
            }
        } else if exec_is_letter(c) {
            let j = exec_word_end(s, i, false);
            proof {
                lemma_word_end_bounds(s@, i as int, false);
                lemma_word_end_bounds(s@, i as int + 1, false);
            }
            let (w, _dots) = read_word(s, i, j);
            let tok = classify(&w);
            cons_exec(tok, scan(s, j))
        } else if c == '+' {
            cons_exec(Token::Plus, scan(s, i + 1))
        } else if c == '-' {
            cons_exec(Token::Minus, scan(s, i + 1))
        } else if c == '*' {
            cons_exec(Token::Mult, scan(s, i + 1))
        } else if c == '/' {
            cons_exec(Token::Div, scan(s, i + 1))
        } else if c == '%' {
            cons_exec(Token::Mod, scan(s, i + 1))
        } else if c == '^' {
            cons_exec(Token::Power, scan(s, i + 1))
        } else if c == '(' {
            cons_exec(Token::LParen, scan(s, i + 1))
        } else if c == ')' {
            cons_exec(Token::RParen, scan(s, i + 1))
        } else if c == '|' {
            cons_exec(Token::Pipe, scan(s, i + 1))
        } else if c == ',' {
            cons_exec(Token::Comma, scan(s, i + 1))
        } else if c == '=' {
            cons_exec(Token::Equal, scan(s, i + 1))
        } else {
            Err(TokenizeError::UnrecognizedChar(c, i))
        }
    }
}

} // verus!
