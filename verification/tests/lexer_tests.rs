use coil::lexer::{Lexer, Token};
use coil::values::Decimal;
use coil::CoilError;

fn lex(src: &str) -> Result<Vec<Token>, CoilError> {
    let mut lexer = Lexer::new();
    Lexer::lex(&mut lexer, src.to_string())
}

#[test]
fn lexes_a_simple_get_statement() {
    let toks = lex("GET * FROM customers WHERE ID = 1").unwrap();
    assert_eq!(
        toks,
        vec![
            Token::Get,
            Token::Star,
            Token::From,
            Token::Identifier("customers".to_string()),
            Token::Where,
            Token::Identifier("ID".to_string()),
            Token::Equal,
            Token::Integer(1),
        ]
    );
}

#[test]
fn keywords_are_case_insensitive_and_identifiers_keep_case() {
    let toks = lex("gEt FROM Customers").unwrap();
    assert_eq!(
        toks,
        vec![
            Token::Get,
            Token::From,
            Token::Identifier("Customers".to_string()),
        ]
    );
}

#[test]
fn lexes_all_operators() {
    let toks = lex("< <= > >= = != + - / ^ % ( ) [ ] , . : * and or xor not none").unwrap();
    assert_eq!(
        toks,
        vec![
            Token::LessThan,
            Token::LessThanOrEqual,
            Token::GreaterThan,
            Token::GreaterThanOrEqual,
            Token::Equal,
            Token::NotEqual,
            Token::Add,
            Token::Subtract,
            Token::Divide,
            Token::Power,
            Token::Modulus,
            Token::LeftParenthesis,
            Token::RightParenthesis,
            Token::LeftBracket,
            Token::RightBracket,
            Token::Comma,
            Token::Period,
            Token::Colon,
            Token::Star,
            Token::And,
            Token::Or,
            Token::Xor,
            Token::Not,
            Token::Null,
        ]
    );
}

#[test]
fn lexes_string_literals_without_escapes() {
    let toks = lex("\"james\"").unwrap();
    assert_eq!(toks, vec![Token::Text("james".to_string())]);
    let toks = lex("\"\"").unwrap();
    assert_eq!(toks, vec![Token::Text(String::new())]);
}

#[test]
fn unterminated_string_is_a_lex_error() {
    assert_eq!(lex("\"oops"), Err(CoilError::UnterminatedString));
}

#[test]
fn lexes_decimal_hex_and_fractional_numbers() {
    assert_eq!(lex("42").unwrap(), vec![Token::Integer(42)]);
    assert_eq!(lex("0x10").unwrap(), vec![Token::Integer(16)]);
    assert_eq!(lex("0xfF").unwrap(), vec![Token::Integer(255)]);
    assert_eq!(
        lex("1.5").unwrap(),
        vec![Token::Float(Decimal { mantissa: 15, scale: 1 })]
    );
    assert_eq!(
        lex("12.50").unwrap(),
        vec![Token::Float(Decimal { mantissa: 1250, scale: 2 })]
    );
    // A trailing dot means zero fraction digits.
    assert_eq!(
        lex("7.").unwrap(),
        vec![Token::Float(Decimal { mantissa: 7, scale: 0 })]
    );
}

#[test]
fn malformed_numbers_are_lex_errors() {
    // Hex digits without the 0x prefix.
    assert_eq!(lex("12ab"), Err(CoilError::InvalidNumber));
    // An empty hex literal.
    assert_eq!(lex("0x"), Err(CoilError::InvalidNumber));
    // Two dots.
    assert_eq!(lex("1.2.3"), Err(CoilError::InvalidNumber));
    // Too many fraction digits to hold exactly.
    assert_eq!(lex("1.0123456789"), Err(CoilError::InvalidNumber));
    // Beyond the integer range.
    assert_eq!(lex("99999999999999999999"), Err(CoilError::InvalidNumber));
}

#[test]
fn bang_must_be_followed_by_equal() {
    assert_eq!(lex("!x"), Err(CoilError::UnrecognizedCharacter));
}

#[test]
fn unrecognized_characters_are_lex_errors() {
    assert_eq!(lex("&"), Err(CoilError::UnrecognizedCharacter));
    assert_eq!(lex("#"), Err(CoilError::UnrecognizedCharacter));
}

#[test]
fn whitespace_is_skipped() {
    let toks = lex("  \r\n get \n").unwrap();
    assert_eq!(toks, vec![Token::Get]);
}
