use awk_lexer::lexer::Lexer;
use awk_lexer::token::{LexError, Token};

fn lex_all(text: &str) -> (Vec<Token>, Option<LexError>) {
    let mut lex = Lexer::new(text.to_string());
    let mut out = Vec::new();
    loop {
        match lex.next() {
            Ok(Some(t)) => out.push(t),
            Ok(None) => return (out, None),
            Err(e) => return (out, Some(e)),
        }
    }
}

fn ident(s: &str) -> Token {
    Token::Identifier(s.to_string())
}

#[test]
fn keyword_alone() {
    let mut lex = Lexer::new("if".to_string());
    assert_eq!(lex.next(), Ok(Some(Token::If)));
    assert_eq!(lex.next(), Ok(None));
}

#[test]
fn keyword_prefix_is_identifier() {
    assert_eq!(lex_all("ifx"), (vec![ident("ifx")], None));
}

#[test]
fn all_keywords() {
    let (toks, err) = lex_all(
        "if else while for function in do break continue print printf return next nextfile delete exit BEGIN END",
    );
    assert_eq!(err, None);
    assert_eq!(
        toks,
        vec![
            Token::If, Token::Else, Token::While, Token::For, Token::Function, Token::In,
            Token::Do, Token::Break, Token::Continue, Token::Print, Token::Printf,
            Token::Return, Token::Next, Token::Nextfile, Token::Delete, Token::Exit,
            Token::Begin, Token::End,
        ]
    );
}

#[test]
fn string_keeps_escaped_quote() {
    let (toks, err) = lex_all("\"a\\\"b\"");
    assert_eq!(err, None);
    assert_eq!(toks, vec![Token::String("a\\\"b".to_string())]);
    match &toks[0] {
        Token::String(s) => assert_eq!(s.chars().count(), 4),
        _ => panic!("expected a string"),
    }
}

#[test]
fn regex_literal() {
    assert_eq!(lex_all("/li/"), (vec![Token::RegExp("li".to_string())], None));
}

#[test]
fn regex_keeps_escaped_slash() {
    assert_eq!(lex_all("/a\\/b/"), (vec![Token::RegExp("a\\/b".to_string())], None));
}

#[test]
fn lone_plus_at_end() {
    let mut lex = Lexer::new("+".to_string());
    assert_eq!(lex.next(), Ok(Some(Token::Plus)));
    assert_eq!(lex.next(), Ok(None));
    assert_eq!(lex.next(), Ok(None));
}

#[test]
fn comment_then_keyword() {
    assert_eq!(lex_all("# comment\nprint"), (vec![Token::Print], None));
}

#[test]
fn comment_only_gives_nothing() {
    assert_eq!(lex_all("# nothing here"), (vec![], None));
    assert_eq!(lex_all(""), (vec![], None));
    assert_eq!(lex_all("  \n\t "), (vec![], None));
}

#[test]
fn peek_then_next_agree() {
    let mut lex = Lexer::new("print x".to_string());
    assert_eq!(lex.peek(), Ok(Some(Token::Print)));
    assert_eq!(lex.peek(), Ok(Some(Token::Print)));
    assert_eq!(lex.next(), Ok(Some(Token::Print)));
    assert_eq!(lex.next(), Ok(Some(ident("x"))));
    assert_eq!(lex.peek(), Ok(None));
    assert_eq!(lex.next(), Ok(None));
}

#[test]
fn peek_reports_error() {
    let mut lex = Lexer::new("\"open".to_string());
    assert_eq!(lex.peek(), Err(LexError::UnterminatedString(0)));
    assert_eq!(lex.next(), Err(LexError::UnterminatedString(0)));
}

#[test]
fn compound_operators() {
    let (toks, err) = lex_all("++ += + -- -= - *= * %= % ^= ^ <= < >= > == != ! =");
    assert_eq!(err, None);
    assert_eq!(
        toks,
        vec![
            Token::DoublePlus, Token::PlusEqual, Token::Plus, Token::DoubleMinus,
            Token::MinusEqual, Token::Minus, Token::TimesEqual, Token::Multiply,
            Token::ModEqual, Token::Modulus, Token::PowEqual, Token::Pow, Token::LessEqual,
            Token::Less, Token::GreaterEqual, Token::Greater, Token::Equal, Token::NotEqual,
            Token::Not, Token::Other("=".to_string()),
        ]
    );
}

#[test]
fn punctuation() {
    let (toks, err) = lex_all("( ) { } [ ] , ;");
    assert_eq!(err, None);
    assert_eq!(
        toks,
        vec![
            Token::LeftParen, Token::RightParen, Token::LeftCurly, Token::RightCurly,
            Token::LeftSquare, Token::RightSquare, Token::Comma, Token::SemiColon,
        ]
    );
}

#[test]
fn brackets_inside_a_word() {
    let (toks, err) = lex_all("a[2] [x]");
    assert_eq!(err, None);
    assert_eq!(toks, vec![ident("a[2]"), Token::LeftSquare, ident("x]")]);
}

#[test]
fn words_stop_at_operators() {
    let (toks, err) = lex_all("n++;x=a+b,c");
    assert_eq!(err, None);
    assert_eq!(
        toks,
        vec![
            ident("n"), Token::DoublePlus, Token::SemiColon, ident("x"),
            Token::Other("=".to_string()), ident("a"), Token::Plus, ident("b"), Token::Comma,
            ident("c"),
        ]
    );
}

#[test]
fn unterminated_string_offset() {
    assert_eq!(
        lex_all("  print \"abc"),
        (vec![Token::Print], Some(LexError::UnterminatedString(6)))
    );
}

#[test]
fn unterminated_regex_offset() {
    assert_eq!(lex_all("x /ab"), (vec![ident("x")], Some(LexError::UnterminatedRegExp(2))));
}

#[test]
fn backslash_at_end_of_string() {
    assert_eq!(lex_all("\"ab\\"), (vec![], Some(LexError::UnterminatedString(0))));
}

#[test]
fn rest_lexes_like_the_remaining_tokens() {
    let text = "BEGIN { print \"x\" }  /re/ { n++ }";
    let (all, err) = lex_all(text);
    assert_eq!(err, None);
    assert_eq!(all.len(), 10);
    assert_eq!(lex_all("{ print \"x\" }  /re/ { n++ }").0, all[1..].to_vec());
    assert_eq!(lex_all("/re/ { n++ }").0, all[5..].to_vec());
    assert_eq!(lex_all("n++ }").0, all[7..].to_vec());
}

#[test]
fn sample_program() {
    let text = "\nBEGIN { print \"Analysis of \\\"li\\\"\" }\n/li/  { ++n }\nEND   { print \"\\\"li\\\" appears in\", n, \"records.\" }\n        ";
    let (toks, err) = lex_all(text);
    assert_eq!(err, None);
    assert_eq!(
        toks,
        vec![
            Token::Begin, Token::LeftCurly, Token::Print,
            Token::String("Analysis of \\\"li\\\"".to_string()), Token::RightCurly,
            Token::RegExp("li".to_string()), Token::LeftCurly, Token::DoublePlus, ident("n"),
            Token::RightCurly, Token::End, Token::LeftCurly, Token::Print,
            Token::String("\\\"li\\\" appears in".to_string()), Token::Comma, ident("n"),
            Token::Comma, Token::String("records.".to_string()), Token::RightCurly,
        ]
    );
}

#[test]
fn spellings_rebuild_operators() {
    // every token here is spelled by exactly the characters it came from
    let (toks, err) = lex_all("a<=b");
    assert_eq!(err, None);
    assert_eq!(toks, vec![ident("a"), Token::LessEqual, ident("b")]);
}
