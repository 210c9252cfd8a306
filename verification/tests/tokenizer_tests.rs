use simple_vm::assembler::tokenizer::errors::SASMTokenizeError;
use simple_vm::assembler::tokenizer::token::{Keyword, LiteralToken, Operator, Token};
use simple_vm::assembler::tokenizer::tokenizer::Tokenizer;

fn tokenize(input: &str) -> Result<Vec<Token>, SASMTokenizeError> {
    Tokenizer::new(input).tokenize()
}

#[test]
fn lexes_int_literals() {
    let tokens = tokenize("42 0x1F 0X2a 0xFFFFFFFF 0b1010 0B11").unwrap();
    assert_eq!(
        tokens,
        vec![
            Token::Literal(LiteralToken::Int(42)),
            Token::Literal(LiteralToken::Int(0x1F)),
            Token::Literal(LiteralToken::Int(0x2a)),
            Token::Literal(LiteralToken::Int(-1)),
            Token::Literal(LiteralToken::Int(0b1010)),
            Token::Literal(LiteralToken::Int(0b11)),
        ]
    );
}

#[test]
fn invalid_radix_literals_are_illegal() {
    assert!(matches!(
        tokenize("0xZZ"),
        Err(SASMTokenizeError::IllegalToken(..))
    ));
    assert!(matches!(
        tokenize("0b2"),
        Err(SASMTokenizeError::IllegalToken(..))
    ));
    assert!(matches!(
        tokenize("0x"),
        Err(SASMTokenizeError::IllegalToken(..))
    ));
}

#[test]
fn lexes_keywords_case_insensitively() {
    let tokens = tokenize("PUSh push True").unwrap();
    assert_eq!(
        tokens,
        vec![
            Token::Keyword(Keyword::Push),
            Token::Keyword(Keyword::Push),
            Token::Keyword(Keyword::True),
        ]
    );
}

#[test]
fn identifiers_keep_their_casing() {
    let tokens = tokenize("FooBar foo_bar").unwrap();
    assert_eq!(
        tokens,
        vec![
            Token::Identifier("FooBar".into()),
            Token::Identifier("foo_bar".into()),
        ]
    );
}

#[test]
fn lexes_directives_and_labels() {
    let tokens = tokenize(".data\nstart:").unwrap();
    assert_eq!(
        tokens,
        vec![
            Token::Directive("data".into()),
            Token::NewLine,
            Token::Identifier("start".into()),
            Token::Colon,
        ]
    );
}

#[test]
fn lexes_char_literals() {
    let tokens = tokenize("'a' '\\n' '\\'' ' ' 'é'").unwrap();
    assert_eq!(
        tokens,
        vec![
            Token::Literal(LiteralToken::Char('a')),
            Token::Literal(LiteralToken::Char('\n')),
            Token::Literal(LiteralToken::Char('\'')),
            Token::Literal(LiteralToken::Char(' ')),
            Token::Literal(LiteralToken::Char('é')),
        ]
    );
}

#[test]
fn invalid_char_literals_are_illegal() {
    // empty char
    assert!(matches!(
        tokenize("''"),
        Err(SASMTokenizeError::IllegalToken(..))
    ));
    // more than one char
    assert!(matches!(
        tokenize("'ab'"),
        Err(SASMTokenizeError::IllegalToken(..))
    ));
    // unterminated
    assert!(matches!(
        tokenize("'a"),
        Err(SASMTokenizeError::IllegalToken(..))
    ));
}

#[test]
fn lexes_string_literals() {
    let tokens = tokenize("\"hi\\nthere\" \"\" \"say \\\"hi\\\"\"").unwrap();
    assert_eq!(
        tokens,
        vec![
            Token::Literal(LiteralToken::String("hi\nthere".into())),
            Token::Literal(LiteralToken::String("".into())),
            Token::Literal(LiteralToken::String("say \"hi\"".into())),
        ]
    );
}

#[test]
fn unterminated_string_is_illegal() {
    assert!(matches!(
        tokenize("\"abc"),
        Err(SASMTokenizeError::IllegalToken(..))
    ));
}

#[test]
fn line_comments_preserve_the_terminating_newline() {
    let tokens = tokenize("push 1 # comment\npush 2").unwrap();
    assert_eq!(
        tokens,
        vec![
            Token::Keyword(Keyword::Push),
            Token::Literal(LiteralToken::Int(1)),
            Token::NewLine,
            Token::Keyword(Keyword::Push),
            Token::Literal(LiteralToken::Int(2)),
        ]
    );
}

#[test]
fn negative_immediates_lex_as_operator_then_int() {
    let tokens = tokenize("push -4").unwrap();
    assert_eq!(
        tokens,
        vec![
            Token::Keyword(Keyword::Push),
            Token::Operator(Operator::Minus),
            Token::Literal(LiteralToken::Int(4)),
        ]
    );
}

#[test]
fn unknown_chars_report_their_position() {
    let err = tokenize("push 1\n?").unwrap_err();
    let SASMTokenizeError::UnknownToken(_, line, col) = err else {
        panic!("expected an unknown token error");
    };
    assert_eq!((line, col), (2, 0));
}

#[test]
fn handles_multibyte_characters_in_errors() {
    // 'é' is 2 bytes wide, so the line/col calculation must be byte based
    let err = tokenize("'é'\n\"unterminated").unwrap_err();
    let SASMTokenizeError::IllegalToken(_, line, col) = err else {
        panic!("expected an illegal token error");
    };
    assert_eq!((line, col), (2, 13));
}

#[test]
fn keyword_mnemonics_lex_back_to_their_keyword() {
    let keywords = [
        Keyword::Push,
        Keyword::Addu,
        Keyword::Divc,
        Keyword::JumpIfNotZero,
        Keyword::DebugStack,
        Keyword::PushOverflowFlag,
        Keyword::BitNot,
        Keyword::Move,
        Keyword::Syscall,
        Keyword::False,
    ];
    for k in keywords {
        let text = k.mnemonic();
        assert_eq!(tokenize(&text).unwrap(), vec![Token::Keyword(k)]);
    }
    assert_eq!(Keyword::JumpIfNotZero.mnemonic(), "jnz");
}

#[test]
fn unknown_mnemonics_lex_as_identifiers() {
    // `fmac` and `fmau` name no instruction, so they stay identifiers
    let tokens = tokenize("fmac fmau").unwrap();
    assert_eq!(
        tokens,
        vec![
            Token::Identifier("fmac".into()),
            Token::Identifier("fmau".into()),
        ]
    );
}

#[test]
fn decimal_literal_out_of_range_is_illegal() {
    assert!(matches!(
        tokenize("2147483648"),
        Err(SASMTokenizeError::IllegalToken(..))
    ));
    assert_eq!(
        tokenize("2147483647").unwrap(),
        vec![Token::Literal(LiteralToken::Int(2147483647))]
    );
}

#[test]
fn get_next_token_yields_one_token_at_a_time() {
    let mut t = Tokenizer::new("swap:");
    assert_eq!(t.get_next_token(), Some(Token::Keyword(Keyword::Swap)));
    assert_eq!(t.get_next_token(), Some(Token::Colon));
    assert_eq!(t.get_next_token(), None);
}

#[test]
fn empty_input_has_no_tokens() {
    assert_eq!(tokenize("").unwrap(), vec![]);
    assert_eq!(tokenize("   # only a comment").unwrap(), vec![]);
}

#[test]
fn upper_case_mnemonics_lex_to_their_keyword() {
    for k in [Keyword::Le, Keyword::DebugStack, Keyword::ClearDivZero, Keyword::Pick] {
        let text = k.mnemonic().to_ascii_uppercase();
        assert_eq!(tokenize(&text).unwrap(), vec![Token::Keyword(k)]);
    }
    assert_eq!(Keyword::Le.mnemonic(), "lteq");
}

#[test]
fn no_token_after_blanks_and_a_trailing_comment() {
    let mut t = Tokenizer::new("dup \t# done");
    assert_eq!(t.get_next_token(), Some(Token::Keyword(Keyword::Dup)));
    assert_eq!(t.get_next_token(), None);
    assert_eq!(t.get_next_token(), None);
    let mut t = Tokenizer::new("# note\n");
    assert_eq!(t.get_next_token(), Some(Token::NewLine));
    assert_eq!(t.get_next_token(), None);
}

#[test]
fn tokenizing_stops_at_the_first_bad_token() {
    let mut stepwise = Tokenizer::new("push ?\n0xZZ");
    assert_eq!(stepwise.get_next_token(), Some(Token::Keyword(Keyword::Push)));
    assert!(matches!(stepwise.get_next_token(), Some(Token::Unknown(5, _))));
    assert!(matches!(
        tokenize("push ?\n0xZZ"),
        Err(SASMTokenizeError::UnknownToken(Token::Unknown(5, _), 1, 5))
    ));
}
