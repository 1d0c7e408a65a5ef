use simple_lexer::SimpleLexer;
use simple_lexer::SimpleTokenReader;
use simple_lexer::TokenType;

fn collect(reader: &mut SimpleTokenReader) -> Vec<(TokenType, String)> {
    let mut v = Vec::new();
    loop {
        match reader.read() {
            Some(t) => v.push((*t.get_type(), t.get_text().clone())),
            None => break,
        }
    }
    v
}

fn lex(code: &str) -> Vec<(TokenType, String)> {
    let mut lexer = SimpleLexer::new();
    let mut reader = lexer.tokenize(String::from(code));
    collect(&mut reader)
}

fn pair(kind: TokenType, text: &str) -> (TokenType, String) {
    (kind, String::from(text))
}

#[test]
fn int_keyword_statement() {
    let tokens = lex("int age = 45;");
    assert_eq!(
        tokens,
        vec![
            pair(TokenType::Int, "int"),
            pair(TokenType::Identifier, "age"),
            pair(TokenType::Assignment, "="),
            pair(TokenType::IntLiteral, "45"),
            pair(TokenType::SemiColon, ";"),
        ]
    );
}

#[test]
fn inta_is_identifier() {
    let tokens = lex("inta age = 45;");
    assert_eq!(tokens[0], pair(TokenType::Identifier, "inta"));
    assert_eq!(
        tokens,
        vec![
            pair(TokenType::Identifier, "inta"),
            pair(TokenType::Identifier, "age"),
            pair(TokenType::Assignment, "="),
            pair(TokenType::IntLiteral, "45"),
            pair(TokenType::SemiColon, ";"),
        ]
    );
}

#[test]
fn partial_keyword_prefix_is_identifier() {
    let tokens = lex("in age = 45;");
    assert_eq!(tokens[0], pair(TokenType::Identifier, "in"));
}

#[test]
fn ge_is_a_single_token() {
    let tokens = lex("age >= 45;");
    assert_eq!(
        tokens,
        vec![
            pair(TokenType::Identifier, "age"),
            pair(TokenType::GE, ">="),
            pair(TokenType::IntLiteral, "45"),
            pair(TokenType::SemiColon, ";"),
        ]
    );
}

#[test]
fn gt_closes_without_equals() {
    let tokens = lex("age > 45;");
    assert_eq!(
        tokens,
        vec![
            pair(TokenType::Identifier, "age"),
            pair(TokenType::GT, ">"),
            pair(TokenType::IntLiteral, "45"),
            pair(TokenType::SemiColon, ";"),
        ]
    );
}

#[test]
fn every_token_has_nonempty_text() {
    let tokens = lex("a@# 12+?x ( ) * / - \t\n int45");
    assert!(!tokens.is_empty());
    for (_, text) in tokens {
        assert!(!text.is_empty());
    }
}

#[test]
fn concatenated_texts_reproduce_kept_input() {
    let source = "int age = 45;";
    let tokens = lex(source);
    let mut concatenated = String::new();
    for (_, text) in tokens {
        concatenated.push_str(&text);
    }
    let kept: String = source
        .chars()
        .filter(|c| c.is_ascii_alphanumeric() || ">+-*/;()=".contains(*c))
        .collect();
    assert_eq!(concatenated, kept);
    assert_eq!(concatenated, "intage=45;");
}

#[test]
fn unrecognized_characters_yield_no_tokens() {
    let tokens = lex("@ #\t$ %\n");
    assert!(tokens.is_empty());
}

#[test]
fn empty_input_yields_no_tokens() {
    let tokens = lex("");
    assert!(tokens.is_empty());
}

#[test]
fn trailing_token_is_flushed_at_end_of_input() {
    let tokens = lex("abc");
    assert_eq!(tokens, vec![pair(TokenType::Identifier, "abc")]);
}

#[test]
fn int_at_end_of_input_stays_identifier() {
    // The forced close at end of input freezes the provisional category, so
    // "int" is promoted to the keyword only when a blank actually follows it.
    let tokens = lex("int");
    assert_eq!(tokens, vec![pair(TokenType::Identifier, "int")]);
    let tokens = lex("int ");
    assert_eq!(tokens, vec![pair(TokenType::Int, "int")]);
}

#[test]
fn keyword_path_merges_back_into_identifier() {
    let tokens = lex("inti ");
    assert_eq!(tokens, vec![pair(TokenType::Identifier, "inti")]);
    let tokens = lex("i2 ");
    assert_eq!(tokens, vec![pair(TokenType::Identifier, "i2")]);
}

#[test]
fn ge_alone_is_one_token() {
    let tokens = lex(">=");
    assert_eq!(tokens, vec![pair(TokenType::GE, ">=")]);
}

#[test]
fn lexer_can_be_reused() {
    let mut lexer = SimpleLexer::new();
    let mut first = lexer.tokenize(String::from("age > 45;"));
    let a = collect(&mut first);
    let mut second = lexer.tokenize(String::from("age > 45;"));
    let b = collect(&mut second);
    assert_eq!(a, b);
}

#[test]
fn read_advances_and_stops_at_end() {
    let mut lexer = SimpleLexer::new();
    let mut reader = lexer.tokenize(String::from("a b"));
    assert_eq!(reader.get_position(), 0);
    let first = reader.read().unwrap();
    assert_eq!(first.get_text(), "a");
    assert_eq!(reader.get_position(), 1);
    let second = reader.read().unwrap();
    assert_eq!(second.get_text(), "b");
    assert_eq!(reader.get_position(), 2);
    assert!(reader.read().is_none());
    assert_eq!(reader.get_position(), 2);
}

#[test]
fn peek_does_not_advance() {
    let mut lexer = SimpleLexer::new();
    let reader = lexer.tokenize(String::from("a b"));
    let peeked = reader.peek().unwrap();
    assert_eq!(peeked.get_text(), "a");
    assert_eq!(reader.get_position(), 0);
    let again = reader.peek().unwrap();
    assert_eq!(again.get_text(), "a");
}

#[test]
fn read_then_unread_restores_position_and_peek() {
    let mut lexer = SimpleLexer::new();
    let mut reader = lexer.tokenize(String::from("a b c"));
    reader.read();
    let pos_before = reader.get_position();
    let peek_before = reader.peek().unwrap().get_text().clone();
    reader.read();
    reader.unread();
    assert_eq!(reader.get_position(), pos_before);
    assert_eq!(*reader.peek().unwrap().get_text(), peek_before);
}

#[test]
fn unread_saturates_at_zero() {
    let mut lexer = SimpleLexer::new();
    let mut reader = lexer.tokenize(String::from("a"));
    reader.unread();
    assert_eq!(reader.get_position(), 0);
    reader.read();
    reader.unread();
    reader.unread();
    reader.unread();
    assert_eq!(reader.get_position(), 0);
}

#[test]
fn set_position_rejects_out_of_range() {
    let mut lexer = SimpleLexer::new();
    let mut reader = lexer.tokenize(String::from("a b c"));
    reader.set_position(2);
    assert_eq!(reader.get_position(), 2);
    reader.set_position(3);
    assert_eq!(reader.get_position(), 2);
    reader.set_position(100);
    assert_eq!(reader.get_position(), 2);
    reader.set_position(0);
    assert_eq!(reader.get_position(), 0);
}

#[test]
fn dump_on_empty_stream_is_header_only() {
    let mut lexer = SimpleLexer::new();
    let mut reader = lexer.tokenize(String::from(""));
    let rendered = reader.dump();
    assert_eq!(rendered, "text\t\ttype\n");
    assert_eq!(reader.get_position(), 0);
}

#[test]
fn dump_renders_text_and_category_names() {
    let mut lexer = SimpleLexer::new();
    let mut reader = lexer.tokenize(String::from("age > 45;"));
    let rendered = reader.dump();
    assert_eq!(
        rendered,
        "text\t\ttype\nage\t\tIdentifier\n>\t\tGT\n45\t\tIntLiteral\n;\t\tSemiColon\n"
    );
    assert_eq!(reader.get_position(), 4);
    assert!(reader.read().is_none());
}

#[test]
fn dump_starts_at_the_cursor() {
    let mut lexer = SimpleLexer::new();
    let mut reader = lexer.tokenize(String::from("age > 45;"));
    reader.read();
    reader.read();
    let rendered = reader.dump();
    assert_eq!(rendered, "text\t\ttype\n45\t\tIntLiteral\n;\t\tSemiColon\n");
}

#[test]
fn token_new_and_accessors() {
    let token = simple_lexer::SimpleToken::new(TokenType::GT, String::from(">"));
    assert_eq!(*token.get_type(), TokenType::GT);
    assert_eq!(token.get_text(), ">");
    let copy = token.clone();
    assert_eq!(*copy.get_type(), TokenType::GT);
    assert_eq!(copy.get_text(), ">");
}

#[test]
fn category_names_render_exactly() {
    assert_eq!(TokenType::Plus.name(), "Plus");
    assert_eq!(TokenType::Minus.name(), "Minus");
    assert_eq!(TokenType::Star.name(), "Star");
    assert_eq!(TokenType::Slash.name(), "Slash");
    assert_eq!(TokenType::GE.name(), "GE");
    assert_eq!(TokenType::GT.name(), "GT");
    assert_eq!(TokenType::EQ.name(), "EQ");
    assert_eq!(TokenType::LE.name(), "LE");
    assert_eq!(TokenType::LT.name(), "LT");
    assert_eq!(TokenType::SemiColon.name(), "SemiColon");
    assert_eq!(TokenType::LeftParen.name(), "LeftParen");
    assert_eq!(TokenType::RightParen.name(), "RightParen");
    assert_eq!(TokenType::Assignment.name(), "Assignment");
    assert_eq!(TokenType::If.name(), "If");
    assert_eq!(TokenType::Else.name(), "Else");
    assert_eq!(TokenType::Int.name(), "Int");
    assert_eq!(TokenType::Identifier.name(), "Identifier");
    assert_eq!(TokenType::IntLiteral.name(), "IntLiteral");
    assert_eq!(TokenType::StringLiteral.name(), "StringLiteral");
}

#[test]
fn operators_and_punctuation_each_tokenize() {
    let tokens = lex("+ - * / ; ( ) = >");
    assert_eq!(
        tokens,
        vec![
            pair(TokenType::Plus, "+"),
            pair(TokenType::Minus, "-"),
            pair(TokenType::Star, "*"),
            pair(TokenType::Slash, "/"),
            pair(TokenType::SemiColon, ";"),
            pair(TokenType::LeftParen, "("),
            pair(TokenType::RightParen, ")"),
            pair(TokenType::Assignment, "="),
            pair(TokenType::GT, ">"),
        ]
    );
}

#[test]
fn adjacent_operators_close_each_other() {
    let tokens = lex("(1+2)*3;");
    assert_eq!(
        tokens,
        vec![
            pair(TokenType::LeftParen, "("),
            pair(TokenType::IntLiteral, "1"),
            pair(TokenType::Plus, "+"),
            pair(TokenType::IntLiteral, "2"),
            pair(TokenType::RightParen, ")"),
            pair(TokenType::Star, "*"),
            pair(TokenType::IntLiteral, "3"),
            pair(TokenType::SemiColon, ";"),
        ]
    );
}
