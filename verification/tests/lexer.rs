use sol::lexer::TokenKind::{
    Add, Assignment, CloseBrace, CloseParen, Divide, EndOfLine, Equal, GreaterThan,
    GreaterThanOrEquals, Identifier, LessThan, LessThanOrEquals, Literal, Multiply, Not,
    NotEqual, OpenBrace, OpenParen, Subtract,
};
use sol::lexer::{tokenize, Cursor, Lexer, LexerError, Span, Token, TokenKind};

fn kinds(input: &str) -> Vec<TokenKind> {
    tokenize(input).unwrap().iter().map(|t| *t.kind()).collect()
}

fn texts(input: &str) -> Vec<String> {
    tokenize(input).unwrap().iter().map(|t| t.text(input).to_owned()).collect()
}

#[test]
fn not() {
    let input = r#"
            fn test() {
            let x = !true;
            }"#;
    assert_eq!(
        kinds(input),
        vec![
            Identifier, Identifier, OpenParen, CloseParen, OpenBrace, Identifier, Identifier,
            Assignment, Not, Identifier, EndOfLine, CloseBrace
        ]
    );
    assert_eq!(
        texts(input),
        vec!["fn", "test", "(", ")", "{", "let", "x", "=", "!", "true", ";", "}"]
    );
    let tokens = tokenize(input).unwrap();
    assert_eq!(tokens[0].span(), Span { start: 13, end: 15, line: 2 });
    assert_eq!(tokens[8].span(), Span { start: 45, end: 46, line: 3 });
    assert_eq!(tokens[11].span(), Span { start: 64, end: 65, line: 4 });
}

#[test]
fn lexer_complex_math() {
    let input = r#"
            fn test() {
                let z = (2 * 2) / ((3 - 4) * -2);
            }
        "#;
    assert_eq!(
        kinds(input),
        vec![
            Identifier, Identifier, OpenParen, CloseParen, OpenBrace, Identifier, Identifier,
            Assignment, OpenParen, Literal, Multiply, Literal, CloseParen, Divide, OpenParen,
            OpenParen, Literal, Subtract, Literal, CloseParen, Multiply, Subtract, Literal,
            CloseParen, EndOfLine, CloseBrace
        ]
    );
}

#[test]
fn lexer_math() {
    let input = r#"
            fn test() {
                let x = 2 + 3 / 2 * 3 - 1;
            }
        "#;
    assert_eq!(
        kinds(input),
        vec![
            Identifier, Identifier, OpenParen, CloseParen, OpenBrace, Identifier, Identifier,
            Assignment, Literal, Add, Literal, Divide, Literal, Multiply, Literal, Subtract,
            Literal, EndOfLine, CloseBrace
        ]
    );
    assert_eq!(
        texts(input),
        vec![
            "fn", "test", "(", ")", "{", "let", "x", "=", "2", "+", "3", "/", "2", "*", "3", "-",
            "1", ";", "}"
        ]
    );
}

#[test]
fn lexer_small_input() {
    let input = r#"
            const wow = 3;
            fn test() {}
        "#;
    assert_eq!(
        kinds(input),
        vec![
            Identifier, Identifier, Assignment, Literal, EndOfLine, Identifier, Identifier,
            OpenParen, CloseParen, OpenBrace, CloseBrace
        ]
    );
    assert_eq!(
        texts(input),
        vec!["const", "wow", "=", "3", ";", "fn", "test", "(", ")", "{", "}"]
    );
}

#[test]
fn lexer_larger_test() {
    let input = r#"
const wow = 3;

fn main(argv) {
    let x = 2;
    let y = true;
    print("test");
    print(1.3);


    print(x);
    print(2);

    test();
}

fn test(){
    if true {

    } else {
// comment
        print(2);
    }
}

fn new_function(arg1, arg2, arg3) {
{

    test ();
}
}"#;
    assert_eq!(
        texts(input),
        vec![
            "const", "wow", "=", "3", ";", "fn", "main", "(", "argv", ")", "{", "let", "x", "=",
            "2", ";", "let", "y", "=", "true", ";", "print", "(", "\"test\"", ")", ";", "print",
            "(", "1.3", ")", ";", "print", "(", "x", ")", ";", "print", "(", "2", ")", ";",
            "test", "(", ")", ";", "}", "fn", "test", "(", ")", "{", "if", "true", "{", "}",
            "else", "{", "print", "(", "2", ")", ";", "}", "}", "fn", "new_function", "(",
            "arg1", ",", "arg2", ",", "arg3", ")", "{", "{", "test", "(", ")", ";", "}", "}"
        ]
    );
    let tokens = tokenize(input).unwrap();
    assert_eq!(*tokens[23].kind(), TokenKind::Literal);
    assert_eq!(*tokens[28].kind(), TokenKind::Literal);
    assert_eq!(tokens[tokens.len() - 1].span().line, 31);
}

#[test]
fn lexer_large_input() {
    let input = r#"
        const wow = 3;
        fn test(argv) {
            // this is a comment
            let a = "hello";
        }
        "#;
    assert_eq!(
        texts(input),
        vec![
            "const", "wow", "=", "3", ";", "fn", "test", "(", "argv", ")", "{", "let", "a", "=",
            "\"hello\"", ";", "}"
        ]
    );
}

#[test]
fn lexer_objects() {
    let input = r#"
let y = 3;

let another_object = {
    inner_value: 32,
};

let x = {
    test: 1,
    test2: "testing",
    test3: y,
    test4: another_object,
    test5: {
        test6: {
            test7: 1999
        }
    }
};

print(x);
print(x.test);
print(x.test2);
print(x.test3);
print(x.test4);
print(x.test4.inner_value);
print(x.test5);
print(x.test5.test6);
print(x.test5.test6.test7);
        "#;
    let all = texts(input);
    assert_eq!(
        &all[..17],
        &[
            "let", "y", "=", "3", ";", "let", "another_object", "=", "{", "inner_value", ":",
            "32", ",", "}", ";", "let", "x"
        ]
    );
    assert_eq!(all[all.len() - 11..].join(""), "print(x.test5.test6.test7);");
    assert_eq!(all.len(), 117);
}

#[test]
fn cursor_gives_white_space_and_comments() {
    let mut cursor = Cursor::new("a // b\n+");
    let first = cursor.next_token().unwrap();
    assert_eq!(*first.kind(), TokenKind::Identifier);
    assert_eq!(first.span(), Span { start: 0, end: 1, line: 1 });
    let space = cursor.next_token().unwrap();
    assert_eq!(*space.kind(), TokenKind::Whitespace);
    assert_eq!(space.span(), Span { start: 0, end: 0, line: 1 });
    let comment = cursor.next_token().unwrap();
    assert_eq!(*comment.kind(), TokenKind::Comment);
    assert_eq!(comment.span(), Span { start: 2, end: 6, line: 1 });
    let newline = cursor.next_token().unwrap();
    assert_eq!(*newline.kind(), TokenKind::Whitespace);
    assert_eq!(newline.span(), Span { start: 0, end: 0, line: 2 });
    let plus = cursor.next_token().unwrap();
    assert_eq!(*plus.kind(), TokenKind::Add);
    assert_eq!(plus.span(), Span { start: 7, end: 8, line: 2 });
    let end = cursor.next_token().unwrap();
    assert_eq!(*end.kind(), TokenKind::EndOfFile);
    assert_eq!(end.span(), Span { start: 9, end: 9, line: 2 });
}

#[test]
fn two_character_operators() {
    assert_eq!(
        kinds("== != >= <= = ! > <"),
        vec![Equal, NotEqual, GreaterThanOrEquals, LessThanOrEquals, Assignment, Not, GreaterThan, LessThan]
    );
    let tokens = tokenize("a>=b").unwrap();
    assert_eq!(tokens[1].span(), Span { start: 1, end: 3, line: 1 });
}

#[test]
fn numbers_take_one_dot() {
    assert_eq!(texts("1.2.3"), vec!["1.2", ".", "3"]);
    assert_eq!(texts("7."), vec!["7."]);
    assert_eq!(texts("x.y"), vec!["x", ".", "y"]);
}

#[test]
fn comment_may_end_the_text() {
    assert_eq!(texts("a // no line feed"), vec!["a"]);
    assert_eq!(texts("a / b"), vec!["a", "/", "b"]);
}

#[test]
fn unknown_character_is_an_error() {
    assert_eq!(
        tokenize("let x = #;"),
        Err(LexerError::UnexpectedCharacter { character: '#', position: 8, line: 1 })
    );
}

#[test]
fn unterminated_string_is_an_error() {
    assert_eq!(
        tokenize("\nlet a = \"abc"),
        Err(LexerError::UnterminatedString { start: 9, line: 2 })
    );
    let mut cursor = Cursor::new("\"");
    assert!(cursor.next_token().is_err());
}

#[test]
fn tokens_compare_by_kind() {
    let a = Token::new(TokenKind::Identifier, Span { start: 0, end: 1, line: 1 });
    let b = Token::new(TokenKind::Identifier, Span { start: 5, end: 9, line: 3 });
    let c = Token::new(TokenKind::Literal, Span { start: 0, end: 1, line: 1 });
    assert!(a == b);
    assert!(a != c);
}

#[test]
fn lexer_hands_out_tokens_one_by_one() {
    let mut lexer = Lexer::new(" x ; ");
    assert_eq!(*lexer.next().unwrap().unwrap().kind(), TokenKind::Identifier);
    assert_eq!(*lexer.next().unwrap().unwrap().kind(), TokenKind::EndOfLine);
    assert!(lexer.next().unwrap().is_none());
}
