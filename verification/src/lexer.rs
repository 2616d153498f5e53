//! Lexical analysis: raw query text to an ordered token sequence.
//!
//! The token grammar is stated by [`sp_lex`], a recursive specification
//! over the character sequence; [`Lexer::lex`] is proved to produce
//! exactly what the specification says, or the specified lexical error.
//!
//! Rules, stated once here:
//! - space, carriage return and line feed separate tokens;
//! - keywords are matched case-insensitively over ASCII letters;
//! - identifiers start with an ASCII letter and continue with ASCII
//!   letters and digits, keeping their original casing;
//! - a numeric literal starts with a digit; a hexadecimal literal is
//!   exactly `0x` followed by hexadecimal digits; a fractional literal is
//!   digits, one `.`, then up to [`MAX_SCALE`] fractional digits; any
//!   other shape, or a value beyond `i64`, is an invalid-number error;
//! - a double-quoted run is a text literal without escape sequences;
//! - `!` must be followed by `=`.

use vstd::prelude::*;

use crate::CoilError;
use crate::values::{Decimal, MAX_SCALE};

verus! {

/// One lexical unit of the query language.
#[derive(Clone, Debug, PartialEq)]
pub enum Token {
    // Operations
    Get,
    Put,
    Update,
    Create,
    Delete,
    // Keywords
    In,
    From,
    Where,
    Table,
    Database,
    // Type keywords
    NumberType,
    TextType,
    // Operators
    Equal,
    NotEqual,
    LessThan,
    LessThanOrEqual,
    GreaterThan,
    GreaterThanOrEqual,
    And,
    Or,
    Xor,
    Not,
    Add,
    Subtract,
    Divide,
    Power,
    Modulus,
    // Structure
    Star,
    Comma,
    Period,
    Colon,
    LeftBracket,
    RightBracket,
    LeftParenthesis,
    RightParenthesis,
    // Literals
    Integer(i64),
    Float(Decimal),
    Text(String),
    Null,
    Identifier(String),
}

/// The mathematical model of a [`Token`].
pub enum TokenV {
    Get,
    Put,
    Update,
    Create,
    Delete,
    In,
    From,
    Where,
    Table,
    Database,
    NumberType,
    TextType,
    Equal,
    NotEqual,
    LessThan,
    LessThanOrEqual,
    GreaterThan,
    GreaterThanOrEqual,
    And,
    Or,
    Xor,
    Not,
    Add,
    Subtract,
    Divide,
    Power,
    Modulus,
    Star,
    Comma,
    Period,
    Colon,
    LeftBracket,
    RightBracket,
    LeftParenthesis,
    RightParenthesis,
    Integer(i64),
    Float(Decimal),
    Text(Seq<char>),
    Null,
    Identifier(Seq<char>),
}

pub open spec fn tok_vw(t: Token) -> TokenV {
    match t {
        Token::Get => TokenV::Get,
        Token::Put => TokenV::Put,
        Token::Update => TokenV::Update,
        Token::Create => TokenV::Create,
        Token::Delete => TokenV::Delete,
        Token::In => TokenV::In,
        Token::From => TokenV::From,
        Token::Where => TokenV::Where,
        Token::Table => TokenV::Table,
        Token::Database => TokenV::Database,
        Token::NumberType => TokenV::NumberType,
        Token::TextType => TokenV::TextType,
        Token::Equal => TokenV::Equal,
        Token::NotEqual => TokenV::NotEqual,
        Token::LessThan => TokenV::LessThan,
        Token::LessThanOrEqual => TokenV::LessThanOrEqual,
        Token::GreaterThan => TokenV::GreaterThan,
        Token::GreaterThanOrEqual => TokenV::GreaterThanOrEqual,
        Token::And => TokenV::And,
        Token::Or => TokenV::Or,
        Token::Xor => TokenV::Xor,
        Token::Not => TokenV::Not,
        Token::Add => TokenV::Add,
        Token::Subtract => TokenV::Subtract,
        Token::Divide => TokenV::Divide,
        Token::Power => TokenV::Power,
        Token::Modulus => TokenV::Modulus,
        Token::Star => TokenV::Star,
        Token::Comma => TokenV::Comma,
        Token::Period => TokenV::Period,
        Token::Colon => TokenV::Colon,
        Token::LeftBracket => TokenV::LeftBracket,
        Token::RightBracket => TokenV::RightBracket,
        Token::LeftParenthesis => TokenV::LeftParenthesis,
        Token::RightParenthesis => TokenV::RightParenthesis,
        Token::Integer(i) => TokenV::Integer(i),
        Token::Float(d) => TokenV::Float(d),
        Token::Text(s) => TokenV::Text(s@),
        Token::Null => TokenV::Null,
        Token::Identifier(s) => TokenV::Identifier(s@),
    }
}

// ---------------------------------------------------------------------
// Character classes.
pub open spec fn sp_is_space(c: char) -> bool {
    c == ' ' || c == '\r' || c == '\n'
}

pub open spec fn sp_is_digit(c: char) -> bool {
    '0' <= c && c <= '9'
}

pub open spec fn sp_is_alpha(c: char) -> bool {
    ('a' <= c && c <= 'z') || ('A' <= c && c <= 'Z')
}

pub open spec fn sp_is_alnum(c: char) -> bool {
    sp_is_alpha(c) || sp_is_digit(c)
}

pub open spec fn sp_is_hex_letter(c: char) -> bool {
    ('a' <= c && c <= 'f') || ('A' <= c && c <= 'F')
}

pub open spec fn sp_is_hexdig(c: char) -> bool {
    sp_is_digit(c) || sp_is_hex_letter(c)
}

/// Characters a numeric run is scanned over.
pub open spec fn sp_is_numchar(c: char) -> bool {
    sp_is_digit(c) || sp_is_hex_letter(c) || c == '.' || c == 'x' || c == 'X'
}

pub open spec fn sp_lower_char(c: char) -> char {
    if 'A' <= c && c <= 'Z' {
        (((c as u8) + 32) as char)
    } else {
        c
    }
}

pub open spec fn lower_seq(s: Seq<char>) -> Seq<char> {
    s.map_values(|c: char| sp_lower_char(c))
}

/// Value of one digit, in decimal or hexadecimal.
pub open spec fn sp_digit_val(c: char) -> int {
    if sp_is_digit(c) {
        (c as u8) as int - 48
    } else if 'a' <= c && c <= 'f' {
        (c as u8) as int - 87
    } else if 'A' <= c && c <= 'F' {
        (c as u8) as int - 55
    } else {
        0
    }
}

/// Value of a digit run in the given base.
pub open spec fn val_in_base(s: Seq<char>, base: int) -> int
    decreases s.len(),
{
    if s.len() == 0 {
        0
    } else {
        val_in_base(s.drop_last(), base) * base + sp_digit_val(s.last())
    }
}

pub open spec fn all_digits(s: Seq<char>) -> bool {
    forall|k: int| 0 <= k < s.len() ==> sp_is_digit(#[trigger] s[k])
}

pub open spec fn all_hex(s: Seq<char>) -> bool {
    forall|k: int| 0 <= k < s.len() ==> sp_is_hexdig(#[trigger] s[k])
}

pub proof fn lemma_val_nonneg(s: Seq<char>, base: int)
    requires
        base >= 1,
    ensures
        val_in_base(s, base) >= 0,
    decreases s.len(),
{
    if s.len() > 0 {
        lemma_val_nonneg(s.drop_last(), base);
        assert(val_in_base(s.drop_last(), base) * base >= 0) by (nonlinear_arith)
            requires
                val_in_base(s.drop_last(), base) >= 0,
                base >= 1,
        ;
    }
}

/// A digit run is worth at least as much as any of its prefixes.
pub proof fn lemma_val_prefix(s: Seq<char>, k: int, base: int)
    requires
        0 <= k <= s.len(),
        base >= 1,
    ensures
        val_in_base(s, base) >= val_in_base(s.subrange(0, k), base),
    decreases s.len() - k,
{
    if k == s.len() {
        assert(s.subrange(0, k) =~= s);
    } else {
        lemma_val_prefix(s, k + 1, base);
        let p = s.subrange(0, k);
        let q = s.subrange(0, k + 1);
        assert(q.drop_last() =~= p);
        lemma_val_nonneg(p, base);
        assert(val_in_base(p, base) * base >= val_in_base(p, base)) by (nonlinear_arith)
            requires
                val_in_base(p, base) >= 0,
                base >= 1,
        ;
    }
}

// ---------------------------------------------------------------------
// Scanning positions.
/// End of the numeric run that starts before `i`.
pub open spec fn scan_num_end(s: Seq<char>, i: int) -> int
    decreases s.len() - i,
{
    if i < 0 || i >= s.len() {
        i
    } else if sp_is_numchar(s[i]) {
        scan_num_end(s, i + 1)
    } else {
        i
    }
}

pub proof fn lemma_scan_num_end(s: Seq<char>, i: int)
    requires
        0 <= i <= s.len(),
    ensures
        i <= scan_num_end(s, i) <= s.len(),
        forall|k: int| i <= k < scan_num_end(s, i) ==> sp_is_numchar(#[trigger] s[k]),
        scan_num_end(s, i) < s.len() ==> !sp_is_numchar(s[scan_num_end(s, i)]),
    decreases s.len() - i,
{
    if i < s.len() && sp_is_numchar(s[i]) {
        lemma_scan_num_end(s, i + 1);
    }
}

/// End of the identifier run that starts before `i`.
pub open spec fn scan_ident_end(s: Seq<char>, i: int) -> int
    decreases s.len() - i,
{
    if i < 0 || i >= s.len() {
        i
    } else if sp_is_alnum(s[i]) {
        scan_ident_end(s, i + 1)
    } else {
        i
    }
}

pub proof fn lemma_scan_ident_end(s: Seq<char>, i: int)
    requires
        0 <= i <= s.len(),
    ensures
        i <= scan_ident_end(s, i) <= s.len(),
        forall|k: int| i <= k < scan_ident_end(s, i) ==> sp_is_alnum(#[trigger] s[k]),
        scan_ident_end(s, i) < s.len() ==> !sp_is_alnum(s[scan_ident_end(s, i)]),
    decreases s.len() - i,
{
    if i < s.len() && sp_is_alnum(s[i]) {
        lemma_scan_ident_end(s, i + 1);
    }
}

/// Position of the next double quote at or after `i`, or `-1`.
pub open spec fn find_quote(s: Seq<char>, i: int) -> int
    decreases s.len() - i,
{
    if i < 0 || i >= s.len() {
        -1
    } else if s[i] == '"' {
        i
    } else {
        find_quote(s, i + 1)
    }
}

pub proof fn lemma_find_quote(s: Seq<char>, i: int)
    requires
        0 <= i <= s.len(),
    ensures
        find_quote(s, i) >= 0 ==> i <= find_quote(s, i) < s.len() && s[find_quote(s, i)] == '"',
        find_quote(s, i) < 0 ==> find_quote(s, i) == -1,
    decreases s.len() - i,
{
    if i < s.len() && s[i] != '"' {
        lemma_find_quote(s, i + 1);
    }
}

/// Position of the first `.` at or after `i`, or `-1`.
pub open spec fn first_dot(s: Seq<char>, i: int) -> int
    decreases s.len() - i,
{
    if i < 0 || i >= s.len() {
        -1
    } else if s[i] == '.' {
        i
    } else {
        first_dot(s, i + 1)
    }
}

pub proof fn lemma_first_dot(s: Seq<char>, i: int)
    requires
        0 <= i <= s.len(),
    ensures
        first_dot(s, i) >= 0 ==> i <= first_dot(s, i) < s.len() && s[first_dot(s, i)] == '.',
        first_dot(s, i) < 0 ==> first_dot(s, i) == -1,
    decreases s.len() - i,
{
    if i < s.len() && s[i] != '.' {
        lemma_first_dot(s, i + 1);
    }
}

// ---------------------------------------------------------------------
// Token classification.
/// Keyword table, matched on the lowercased run.
pub open spec fn keyword_token(low: Seq<char>) -> Option<TokenV> {
    if low == "get"@ {
        Some(TokenV::Get)
    } else if low == "put"@ {
        Some(TokenV::Put)
    } else if low == "update"@ {
        Some(TokenV::Update)
    } else if low == "create"@ {
        Some(TokenV::Create)
    } else if low == "delete"@ {
        Some(TokenV::Delete)
    } else if low == "in"@ {
        Some(TokenV::In)
    } else if low == "from"@ {
        Some(TokenV::From)
    } else if low == "where"@ {
        Some(TokenV::Where)
    } else if low == "table"@ {
        Some(TokenV::Table)
    } else if low == "database"@ {
        Some(TokenV::Database)
    } else if low == "and"@ {
        Some(TokenV::And)
    } else if low == "or"@ {
        Some(TokenV::Or)
    } else if low == "xor"@ {
        Some(TokenV::Xor)
    } else if low == "not"@ {
        Some(TokenV::Not)
    } else if low == "number"@ {
        Some(TokenV::NumberType)
    } else if low == "text"@ {
        Some(TokenV::TextType)
    } else if low == "none"@ {
        Some(TokenV::Null)
    } else {
        None
    }
}

/// Classifies a complete numeric run.
pub open spec fn classify_number(run: Seq<char>) -> Result<TokenV, CoilError> {
    if run.len() >= 2 && run[0] == '0' && (run[1] == 'x' || run[1] == 'X') {
        let rest = run.subrange(2, run.len() as int);
        if rest.len() >= 1 && all_hex(rest) && val_in_base(rest, 16) <= i64::MAX {
            Ok(TokenV::Integer(val_in_base(rest, 16) as i64))
        } else {
            Err(CoilError::InvalidNumber)
        }
    } else {
        let d = first_dot(run, 0);
        if d >= 0 {
            let ip = run.subrange(0, d);
            let fp = run.subrange(d + 1, run.len() as int);
            if 1 <= d && all_digits(ip) && all_digits(fp) && fp.len() <= MAX_SCALE && val_in_base(
                ip + fp,
                10,
            ) <= i64::MAX {
                Ok(
                    TokenV::Float(
                        Decimal {
                            mantissa: val_in_base(ip + fp, 10) as i64,
                            scale: fp.len() as u32,
                        },
                    ),
                )
            } else {
                Err(CoilError::InvalidNumber)
            }
        } else {
            if all_digits(run) && val_in_base(run, 10) <= i64::MAX {
                Ok(TokenV::Integer(val_in_base(run, 10) as i64))
            } else {
                Err(CoilError::InvalidNumber)
            }
        }
    }
}

/// The numeric token starting at `i` and the position after it.
pub open spec fn sp_number(s: Seq<char>, i: int) -> Result<(TokenV, int), CoilError> {
    let j = scan_num_end(s, i + 1);
    match classify_number(s.subrange(i, j)) {
        Ok(t) => Ok((t, j)),
        Err(e) => Err(e),
    }
}

/// The text token starting at the quote at `i`.
pub open spec fn sp_string(s: Seq<char>, i: int) -> Result<(TokenV, int), CoilError> {
    let q = find_quote(s, i + 1);
    if q < 0 {
        Err(CoilError::UnterminatedString)
    } else {
        Ok((TokenV::Text(s.subrange(i + 1, q)), q + 1))
    }
}

/// The keyword or identifier token starting at `i`.
pub open spec fn sp_word(s: Seq<char>, i: int) -> (TokenV, int) {
    let j = scan_ident_end(s, i + 1);
    let run = s.subrange(i, j);
    match keyword_token(lower_seq(run)) {
        Some(t) => (t, j),
        None => (TokenV::Identifier(run), j),
    }
}

/// One lexing step at position `i`: a token (or skipped whitespace) and
/// the next position, or a lexical error.
pub open spec fn sp_step(s: Seq<char>, i: int) -> Result<(Option<TokenV>, int), CoilError> {
    let c = s[i];
    if sp_is_space(c) {
        Ok((None, i + 1))
    } else if c == '*' {
        Ok((Some(TokenV::Star), i + 1))
    } else if c == ',' {
        Ok((Some(TokenV::Comma), i + 1))
    } else if c == '.' {
        Ok((Some(TokenV::Period), i + 1))
    } else if c == ':' {
        Ok((Some(TokenV::Colon), i + 1))
    } else if c == '[' {
        Ok((Some(TokenV::LeftBracket), i + 1))
    } else if c == ']' {
        Ok((Some(TokenV::RightBracket), i + 1))
    } else if c == '(' {
        Ok((Some(TokenV::LeftParenthesis), i + 1))
    } else if c == ')' {
        Ok((Some(TokenV::RightParenthesis), i + 1))
    } else if c == '+' {
        Ok((Some(TokenV::Add), i + 1))
    } else if c == '-' {
        Ok((Some(TokenV::Subtract), i + 1))
    } else if c == '/' {
        Ok((Some(TokenV::Divide), i + 1))
    } else if c == '^' {
        Ok((Some(TokenV::Power), i + 1))
    } else if c == '%' {
        Ok((Some(TokenV::Modulus), i + 1))
    } else if c == '=' {
        Ok((Some(TokenV::Equal), i + 1))
    } else if c == '<' {
        if i + 1 < s.len() && s[i + 1] == '=' {
            Ok((Some(TokenV::LessThanOrEqual), i + 2))
        } else {
            Ok((Some(TokenV::LessThan), i + 1))
        }
    } else if c == '>' {
        if i + 1 < s.len() && s[i + 1] == '=' {
            Ok((Some(TokenV::GreaterThanOrEqual), i + 2))
        } else {
            Ok((Some(TokenV::GreaterThan), i + 1))
        }
    } else if c == '!' {
        if i + 1 < s.len() && s[i + 1] == '=' {
            Ok((Some(TokenV::NotEqual), i + 2))
        } else {
            Err(CoilError::UnrecognizedCharacter)
        }
    } else if c == '"' {
        match sp_string(s, i) {
            Ok((t, n)) => Ok((Some(t), n)),
            Err(e) => Err(e),
        }
    } else if sp_is_digit(c) {
        match sp_number(s, i) {
            Ok((t, n)) => Ok((Some(t), n)),
            Err(e) => Err(e),
        }
    } else if sp_is_alpha(c) {
        let (t, n) = sp_word(s, i);
        Ok((Some(t), n))
    } else {
        Err(CoilError::UnrecognizedCharacter)
    }
}

pub proof fn lemma_step_bounds(s: Seq<char>, i: int)
    requires
        0 <= i < s.len(),
    ensures
        match sp_step(s, i) {
            Ok((_, n)) => i < n <= s.len(),
            Err(_) => true,
        },
{
    lemma_scan_num_end(s, i + 1);
    lemma_scan_ident_end(s, i + 1);
    lemma_find_quote(s, i + 1);
}

/// The token sequence of the input from position `i` on.
pub open spec fn sp_lex_from(s: Seq<char>, i: int) -> Result<Seq<TokenV>, CoilError>
    decreases s.len() - i,
    via sp_lex_from_dec
{
    if i < 0 || i >= s.len() {
        Ok(Seq::empty())
    } else {
        match sp_step(s, i) {
            Err(e) => Err(e),
            Ok((ot, n)) => match sp_lex_from(s, n) {
                Err(e) => Err(e),
                Ok(rest) => match ot {
                    Some(t) => Ok(seq![t] + rest),
                    None => Ok(rest),
                },
            },
        }
    }
}

#[via_fn]
proof fn sp_lex_from_dec(s: Seq<char>, i: int) {
    if 0 <= i < s.len() {
        lemma_step_bounds(s, i);
    }
}

/// The token sequence of the whole input.
pub open spec fn sp_lex(s: Seq<char>) -> Result<Seq<TokenV>, CoilError> {
    sp_lex_from(s, 0)
}

/// Whether an exec lexing result matches its model.
pub open spec fn lex_matches(r: Result<Vec<Token>, CoilError>, s: Result<Seq<TokenV>, CoilError>) -> bool {
    match r {
        Ok(toks) => s == Result::<Seq<TokenV>, CoilError>::Ok(
            toks@.map_values(|t: Token| tok_vw(t)),
        ),
        Err(e) => s == Result::<Seq<TokenV>, CoilError>::Err(e),
    }
}

/// A token's decimal payload, if any, is within scale bounds.
pub open spec fn tok_wf(t: Token) -> bool {
    match t {
        Token::Float(d) => d.scale <= MAX_SCALE,
        _ => true,
    }
}

pub open spec fn opt_tok_vw(o: Option<Token>) -> Option<TokenV> {
    match o {
        Some(t) => Some(tok_vw(t)),
        None => None,
    }
}

/// Prepends already-produced tokens to the model of the rest.
pub open spec fn lex_cont(pre: Seq<TokenV>, r: Result<Seq<TokenV>, CoilError>) -> Result<
    Seq<TokenV>,
    CoilError,
> {
    match r {
        Ok(rest) => Ok(pre + rest),
        Err(e) => Err(e),
    }
}

// ---------------------------------------------------------------------
// Executable character classes.
fn is_space(c: char) -> (r: bool)
    ensures
        r == sp_is_space(c),
{
    c == ' ' || c == '\r' || c == '\n'
}

fn is_digit(c: char) -> (r: bool)
    ensures
        r == sp_is_digit(c),
{
    '0' <= c && c <= '9'
}

fn is_alpha(c: char) -> (r: bool)
    ensures
        r == sp_is_alpha(c),
{
    ('a' <= c && c <= 'z') || ('A' <= c && c <= 'Z')
}

fn is_alnum(c: char) -> (r: bool)
    ensures
        r == sp_is_alnum(c),
{
    is_alpha(c) || is_digit(c)
}

fn is_hexdig(c: char) -> (r: bool)
    ensures
        r == sp_is_hexdig(c),
{
    is_digit(c) || ('a' <= c && c <= 'f') || ('A' <= c && c <= 'F')
}

fn is_numchar(c: char) -> (r: bool)
    ensures
        r == sp_is_numchar(c),
{
    is_hexdig(c) || c == '.' || c == 'x' || c == 'X'
}

fn lower_char(c: char) -> (r: char)
    ensures
        r == sp_lower_char(c),
{
    if 'A' <= c && c <= 'Z' {
        ((c as u8) + 32) as char
    } else {
        c
    }
}

fn char_val(c: char) -> (r: u64)
    requires
        sp_is_hexdig(c),
    ensures
        r as int == sp_digit_val(c),
{
    if '0' <= c && c <= '9' {
        (c as u8 - 48) as u64
    } else if 'a' <= c && c <= 'f' {
        (c as u8 - 87) as u64
    } else {
        (c as u8 - 55) as u64
    }
}

/// Copies a string into an indexable character vector.
#[verifier::loop_isolation(false)]
fn to_chars(src: &str) -> (r: Vec<char>)
    ensures
        r@ == src@,
{
    let n = src.unicode_len();
    let mut v: Vec<char> = Vec::new();
    let mut i: usize = 0;
    while i < n
        invariant
            i <= n,
            v@ == src@.subrange(0, i as int),
        decreases n - i,
    {
        let c = src.get_char(i);
        v.push(c);
        i = i + 1;
        proof {
            assert(v@ =~= src@.subrange(0, i as int));
        }
    }
    proof {
        assert(v@ =~= src@);
    }
    v
}

/// Compares a character vector against a string literal.
#[verifier::loop_isolation(false)]
fn chars_eq_str(v: &Vec<char>, lit: &str) -> (r: bool)
    ensures
        r == (v@ == lit@),
{
    let n = lit.unicode_len();
    if v.len() != n {
        return false;
    }
    let mut i: usize = 0;
    while i < n
        invariant
            i <= n,
            v@.len() == n,
            forall|k: int| 0 <= k < i ==> v@[k] == lit@[k],
        decreases n - i,
    {
        if v[i] != lit.get_char(i) {
            return false;
        }
        i = i + 1;
    }
    proof {
        assert(v@ =~= lit@);
    }
    true
}

/// Lowercases one run of characters.
#[verifier::loop_isolation(false)]
fn lower_run(chars: &Vec<char>, i: usize, j: usize) -> (r: Vec<char>)
    requires
        i <= j <= chars@.len(),
    ensures
        r@ == lower_seq(chars@.subrange(i as int, j as int)),
{
    let mut v: Vec<char> = Vec::new();
    let mut k: usize = i;
    while k < j
        invariant
            i <= k <= j,
            v@ == lower_seq(chars@.subrange(i as int, k as int)),
        decreases j - k,
    {
        v.push(lower_char(chars[k]));
        k = k + 1;
        proof {
            assert(v@ =~= lower_seq(chars@.subrange(i as int, k as int)));
        }
    }
    v
}

/// Scans and classifies the numeric literal that starts at `i`.
#[verifier::loop_isolation(false)]
#[verifier::rlimit(100)]
fn lex_number(chars: &Vec<char>, i: usize) -> (r: Result<(Token, usize), CoilError>)
    requires
        i < chars@.len(),
        sp_is_digit(chars@[i as int]),
    ensures
        match r {
            Ok(p) => sp_number(chars@, i as int) == Result::<(TokenV, int), CoilError>::Ok(
                (tok_vw(p.0), p.1 as int),
            ) && p.1 <= chars@.len() && tok_wf(p.0),
            Err(e) => sp_number(chars@, i as int) == Result::<(TokenV, int), CoilError>::Err(e),
        },
{
    let ghost s = chars@;
    let n = chars.len();
    let mut j: usize = i + 1;
    while j < n && is_numchar(chars[j])
        invariant
            i + 1 <= j <= n,
            scan_num_end(s, i as int + 1) == scan_num_end(s, j as int),
        decreases n - j,
    {
        j = j + 1;
    }
    proof {
        assert(scan_num_end(s, j as int) == j);
        lemma_scan_num_end(s, i as int + 1);
    }
    let ghost run = s.subrange(i as int, j as int);
    if j - i >= 2 && chars[i] == '0' && (chars[i + 1] == 'x' || chars[i + 1] == 'X') {
        // Hexadecimal literal.
        let ghost rest = run.subrange(2, run.len() as int);
        proof {
            assert(rest =~= s.subrange(i as int + 2, j as int));
        }
        if i + 2 == j {
            return Err(CoilError::InvalidNumber);
        }
        let mut acc: u128 = 0;
        let mut k: usize = i + 2;
        while k < j
            invariant
                i + 2 <= k <= j,
                all_hex(s.subrange(i as int + 2, k as int)),
                acc as int == val_in_base(s.subrange(i as int + 2, k as int), 16),
                acc <= i64::MAX as u128,
            decreases j - k,
        {
            let c = chars[k];
            if !is_hexdig(c) {
                proof {
                    assert(rest[k - (i + 2)] == s[k as int]);
                    assert(!all_hex(rest));
                }
                return Err(CoilError::InvalidNumber);
            }
            let d = char_val(c) as u128;
            let next = acc * 16 + d;
            proof {
                let pre = s.subrange(i as int + 2, k as int);
                let cur = s.subrange(i as int + 2, k as int + 1);
                assert(cur.drop_last() =~= pre);
                assert(cur.last() == s[k as int]);
                assert(val_in_base(cur, 16) == val_in_base(pre, 16) * 16 + sp_digit_val(
                    s[k as int],
                ));
            }
            if next > i64::MAX as u128 {
                proof {
                    assert(rest.subrange(0, k as int + 1 - (i as int + 2)) =~= s.subrange(
                        i as int + 2,
                        k as int + 1,
                    ));
                    lemma_val_prefix(rest, k as int + 1 - (i as int + 2), 16);
                }
                return Err(CoilError::InvalidNumber);
            }
            acc = next;
            k = k + 1;
        }
        proof {
            assert(s.subrange(i as int + 2, k as int) =~= rest);
        }
        return Ok((Token::Integer(acc as i64), j));
    }
    // Find the first dot of the run, if any.
    let mut k: usize = i;
    while k < j && chars[k] != '.'
        invariant
            i <= k <= j,
            first_dot(run, 0) == first_dot(run, k as int - i),
            forall|m: int| 0 <= m < k - i ==> run[m] != '.',
        decreases j - k,
    {
        proof {
            assert(run[k as int - i] == s[k as int]);
        }
        k = k + 1;
    }
    if k < j {
        // Fractional literal: digits, the dot, then fractional digits.
        proof {
            assert(run[k as int - i] == s[k as int]);
            assert(first_dot(run, k as int - i) == k - i);
        }
        let ghost d = k as int - i;
        let ghost ip = run.subrange(0, d);
        let ghost fp = run.subrange(d + 1, run.len() as int);
        proof {
            assert(ip =~= s.subrange(i as int, k as int));
            assert(fp =~= s.subrange(k as int + 1, j as int));
        }
        if j - (k + 1) > 9 {
            return Err(CoilError::InvalidNumber);
        }
        let ghost cat = ip + fp;
        let mut acc: u128 = 0;
        let mut m: usize = i;
        while m < k
            invariant
                i <= m <= k,
                all_digits(s.subrange(i as int, m as int)),
                acc as int == val_in_base(s.subrange(i as int, m as int), 10),
                acc <= i64::MAX as u128,
            decreases k - m,
        {
            let c = chars[m];
            if !is_digit(c) {
                proof {
                    assert(ip[m - i] == s[m as int]);
                    assert(!all_digits(ip));
                }
                return Err(CoilError::InvalidNumber);
            }
            let dv = char_val(c) as u128;
            let next = acc * 10 + dv;
            proof {
                let pre = s.subrange(i as int, m as int);
                let cur = s.subrange(i as int, m as int + 1);
                assert(cur.drop_last() =~= pre);
                assert(cur.last() == s[m as int]);
            }
            if next > i64::MAX as u128 {
                proof {
                    assert(cat.subrange(0, m as int + 1 - i) =~= s.subrange(
                        i as int,
                        m as int + 1,
                    ));
                    lemma_val_prefix(cat, m as int + 1 - i, 10);
                }
                return Err(CoilError::InvalidNumber);
            }
            acc = next;
            m = m + 1;
        }
        proof {
            assert(s.subrange(i as int, m as int) =~= ip);
        }
        let mut m2: usize = k + 1;
        while m2 < j
            invariant
                k + 1 <= m2 <= j,
                all_digits(s.subrange(k as int + 1, m2 as int)),
                acc as int == val_in_base(ip + s.subrange(k as int + 1, m2 as int), 10),
                acc <= i64::MAX as u128,
            decreases j - m2,
        {
            let c = chars[m2];
            if !is_digit(c) {
                proof {
                    assert(fp[m2 - (k + 1)] == s[m2 as int]);
                    assert(!all_digits(fp));
                }
                return Err(CoilError::InvalidNumber);
            }
            let dv = char_val(c) as u128;
            let next = acc * 10 + dv;
            proof {
                let pre = ip + s.subrange(k as int + 1, m2 as int);
                let cur = ip + s.subrange(k as int + 1, m2 as int + 1);
                assert(cur.drop_last() =~= pre);
                assert(cur.last() == s[m2 as int]);
            }
            if next > i64::MAX as u128 {
                proof {
                    assert(cat.subrange(0, ip.len() + m2 as int + 1 - (k as int + 1)) =~= ip
                        + s.subrange(k as int + 1, m2 as int + 1));
                    lemma_val_prefix(cat, ip.len() + m2 as int + 1 - (k as int + 1), 10);
                }
                return Err(CoilError::InvalidNumber);
            }
            acc = next;
            m2 = m2 + 1;
        }
        proof {
            assert(ip + s.subrange(k as int + 1, m2 as int) =~= cat);
        }
        return Ok(
            (
                Token::Float(Decimal { mantissa: acc as i64, scale: (j - k - 1) as u32 }),
                j,
            ),
        );
    }
    // Plain decimal literal.
    proof {
        assert(first_dot(run, k as int - i) == -1);
    }
    let mut acc: u128 = 0;
    let mut m: usize = i;
    while m < j
        invariant
            i <= m <= j,
            all_digits(s.subrange(i as int, m as int)),
            acc as int == val_in_base(s.subrange(i as int, m as int), 10),
            acc <= i64::MAX as u128,
        decreases j - m,
    {
        let c = chars[m];
        if !is_digit(c) {
            proof {
                assert(run[m - i] == s[m as int]);
                assert(!all_digits(run));
            }
            return Err(CoilError::InvalidNumber);
        }
        let dv = char_val(c) as u128;
        let next = acc * 10 + dv;
        proof {
            let pre = s.subrange(i as int, m as int);
            let cur = s.subrange(i as int, m as int + 1);
            assert(cur.drop_last() =~= pre);
            assert(cur.last() == s[m as int]);
        }
        if next > i64::MAX as u128 {
            proof {
                assert(run.subrange(0, m as int + 1 - i) =~= s.subrange(i as int, m as int + 1));
                lemma_val_prefix(run, m as int + 1 - i, 10);
            }
            return Err(CoilError::InvalidNumber);
        }
        acc = next;
        m = m + 1;
    }
    proof {
        assert(s.subrange(i as int, m as int) =~= run);
    }
    Ok((Token::Integer(acc as i64), j))
}

/// Scans the quoted text literal that starts at `i`.
#[verifier::loop_isolation(false)]
fn lex_string(src: &str, i: usize) -> (r: Result<(Token, usize), CoilError>)
    requires
        i < src@.len(),
        src@[i as int] == '"',
    ensures
        match r {
            Ok(p) => sp_string(src@, i as int) == Result::<(TokenV, int), CoilError>::Ok(
                (tok_vw(p.0), p.1 as int),
            ) && p.1 <= src@.len() && tok_wf(p.0),
            Err(e) => sp_string(src@, i as int) == Result::<(TokenV, int), CoilError>::Err(e),
        },
{
    let n = src.unicode_len();
    let mut k: usize = i + 1;
    while k < n && src.get_char(k) != '"'
        invariant
            i + 1 <= k <= n,
            find_quote(src@, i as int + 1) == find_quote(src@, k as int),
        decreases n - k,
    {
        k = k + 1;
    }
    if k == n {
        return Err(CoilError::UnterminatedString);
    }
    let t = src.substring_char(i + 1, k).to_owned();
    Ok((Token::Text(t), k + 1))
}

/// Scans the keyword or identifier that starts at `i`.
#[verifier::loop_isolation(false)]
fn lex_word(src: &str, chars: &Vec<char>, i: usize) -> (r: (Token, usize))
    requires
        chars@ == src@,
        i < chars@.len(),
        sp_is_alpha(chars@[i as int]),
    ensures
        sp_word(chars@, i as int) == (tok_vw(r.0), r.1 as int),
        i < r.1 <= chars@.len(),
        tok_wf(r.0),
{
    let ghost s = chars@;
    let n = chars.len();
    let mut j: usize = i + 1;
    while j < n && is_alnum(chars[j])
        invariant
            i + 1 <= j <= n,
            scan_ident_end(s, i as int + 1) == scan_ident_end(s, j as int),
        decreases n - j,
    {
        j = j + 1;
    }
    proof {
        assert(scan_ident_end(s, j as int) == j);
    }
    let ghost run = s.subrange(i as int, j as int);
    let low = lower_run(chars, i, j);
    let t: Token = if chars_eq_str(&low, "get") {
        Token::Get
    } else if chars_eq_str(&low, "put") {
        Token::Put
    } else if chars_eq_str(&low, "update") {
        Token::Update
    } else if chars_eq_str(&low, "create") {
        Token::Create
    } else if chars_eq_str(&low, "delete") {
        Token::Delete
    } else if chars_eq_str(&low, "in") {
        Token::In
    } else if chars_eq_str(&low, "from") {
        Token::From
    } else if chars_eq_str(&low, "where") {
        Token::Where
    } else if chars_eq_str(&low, "table") {
        Token::Table
    } else if chars_eq_str(&low, "database") {
        Token::Database
    } else if chars_eq_str(&low, "and") {
        Token::And
    } else if chars_eq_str(&low, "or") {
        Token::Or
    } else if chars_eq_str(&low, "xor") {
        Token::Xor
    } else if chars_eq_str(&low, "not") {
        Token::Not
    } else if chars_eq_str(&low, "number") {
        Token::NumberType
    } else if chars_eq_str(&low, "text") {
        Token::TextType
    } else if chars_eq_str(&low, "none") {
        Token::Null
    } else {
        Token::Identifier(src.substring_char(i, j).to_owned())
    };
    (t, j)
}

/// Cursor state of the lexer; `lex` resets it for each input.
pub struct Lexer {
    src: String,
    chars: Vec<char>,
    pos: usize,
}

impl Lexer {
    /// A fresh lexer with no input yet.
    pub fn new() -> (r: Lexer) {
        Lexer { src: String::new(), chars: Vec::new(), pos: 0 }
    }

    /// Turns the input into its token sequence, exactly as [`sp_lex`]
    /// describes, or reports the first lexical error.
    #[verifier::loop_isolation(false)]
    pub fn lex(lexer: &mut Lexer, src: String) -> (r: Result<Vec<Token>, CoilError>)
        ensures
            lex_matches(r, sp_lex(src@)),
            match r {
                Ok(toks) => forall|k: int| 0 <= k < toks@.len() ==> tok_wf(#[trigger] toks@[k]),
                Err(_) => true,
            },
    {
        let ghost s = src@;
        let chars = to_chars(src.as_str());
        let n = chars.len();
        let mut toks: Vec<Token> = Vec::new();
        let mut pos: usize = 0;
        while pos < n
            invariant
                pos <= n,
                forall|k: int| 0 <= k < toks@.len() ==> tok_wf(#[trigger] toks@[k]),
                sp_lex(s) == lex_cont(
                    toks@.map_values(|t: Token| tok_vw(t)),
                    sp_lex_from(s, pos as int),
                ),
            decreases n - pos,
        {
            let ghost p0 = pos as int;
            let ghost pre = toks@.map_values(|t: Token| tok_vw(t));
            let c = chars[pos];
            let step: (Option<Token>, usize);
            if is_space(c) {
                step = (None, pos + 1);
            } else if c == '*' {
                step = (Some(Token::Star), pos + 1);
            } else if c == ',' {
                step = (Some(Token::Comma), pos + 1);
            } else if c == '.' {
                step = (Some(Token::Period), pos + 1);
            } else if c == ':' {
                step = (Some(Token::Colon), pos + 1);
            } else if c == '[' {
                step = (Some(Token::LeftBracket), pos + 1);
            } else if c == ']' {
                step = (Some(Token::RightBracket), pos + 1);
            } else if c == '(' {
                step = (Some(Token::LeftParenthesis), pos + 1);
            } else if c == ')' {
                step = (Some(Token::RightParenthesis), pos + 1);
            } else if c == '+' {
                step = (Some(Token::Add), pos + 1);
            } else if c == '-' {
                step = (Some(Token::Subtract), pos + 1);
            } else if c == '/' {
                step = (Some(Token::Divide), pos + 1);
            } else if c == '^' {
                step = (Some(Token::Power), pos + 1);
            } else if c == '%' {
                step = (Some(Token::Modulus), pos + 1);
            } else if c == '=' {
                step = (Some(Token::Equal), pos + 1);
            } else if c == '<' {
                if pos + 1 < n && chars[pos + 1] == '=' {
                    step = (Some(Token::LessThanOrEqual), pos + 2);
                } else {
                    step = (Some(Token::LessThan), pos + 1);
                }
            } else if c == '>' {
                if pos + 1 < n && chars[pos + 1] == '=' {
                    step = (Some(Token::GreaterThanOrEqual), pos + 2);
                } else {
                    step = (Some(Token::GreaterThan), pos + 1);
                }
            } else if c == '!' {
                if pos + 1 < n && chars[pos + 1] == '=' {
                    step = (Some(Token::NotEqual), pos + 2);
                } else {
                    return Err(CoilError::UnrecognizedCharacter);
                }
            } else if c == '"' {
                match lex_string(src.as_str(), pos) {
                    Ok(p) => {
                        step = (Some(p.0), p.1);
                    },
                    Err(e) => {
                        return Err(e);
                    },
                }
            } else if is_digit(c) {
                match lex_number(&chars, pos) {
                    Ok(p) => {
                        step = (Some(p.0), p.1);
                    },
                    Err(e) => {
                        return Err(e);
                    },
                }
            } else if is_alpha(c) {
                let w = lex_word(src.as_str(), &chars, pos);
                step = (Some(w.0), w.1);
            } else {
                return Err(CoilError::UnrecognizedCharacter);
            }
            proof {
                assert(sp_step(s, p0) == Result::<(Option<TokenV>, int), CoilError>::Ok(
                    (opt_tok_vw(step.0), step.1 as int),
                ));
                lemma_step_bounds(s, p0);
            }
            let ghost tv = opt_tok_vw(step.0);
            match step.0 {
                Some(t) => {
                    toks.push(t);
                },
                None => {},
            }
            pos = step.1;
            proof {
                let r1 = sp_lex_from(s, pos as int);
                match r1 {
                    Ok(rest) => {
                        match tv {
                            Some(t1) => {
                                assert(sp_lex_from(s, p0) == Result::<
                                    Seq<TokenV>,
                                    CoilError,
                                >::Ok(seq![t1] + rest));
                                assert(toks@.map_values(|t: Token| tok_vw(t)) =~= pre.push(t1));
                                assert(pre + (seq![t1] + rest) =~= pre.push(t1) + rest);
                            },
                            None => {
                                assert(sp_lex_from(s, p0) == Result::<
                                    Seq<TokenV>,
                                    CoilError,
                                >::Ok(rest));
                            },
                        }
                    },
                    Err(e) => {
                        assert(sp_lex_from(s, p0) == Result::<Seq<TokenV>, CoilError>::Err(e));
                    },
                }
            }
        }
        proof {
            assert(sp_lex_from(s, pos as int) == Result::<Seq<TokenV>, CoilError>::Ok(
                Seq::empty(),
            ));
            assert(toks@.map_values(|t: Token| tok_vw(t)) + Seq::<TokenV>::empty()
                =~= toks@.map_values(|t: Token| tok_vw(t)));
        }
        lexer.src = src;
        lexer.chars = chars;
        lexer.pos = pos;
        Ok(toks)
    }
}

} // verus!
