use jcompiler::lexer::lexer::{LexError, Lexer, Position, Token, TokenKind};

fn lex(input: &str) -> Vec<Token> {
    Lexer::new(input.to_string()).tokenize()
}

fn kinds(input: &str) -> Vec<TokenKind> {
    lex(input).into_iter().map(|token| token.kind).collect()
}

fn ident(name: &str) -> TokenKind {
    TokenKind::Identifier(name.as_bytes().to_vec())
}

fn invalid(text: &str, error: LexError) -> TokenKind {
    TokenKind::Invalid(text.as_bytes().to_vec(), error)
}

fn at(line: usize, column: usize, offset: usize) -> Position {
    Position { line, column, offset }
}

const PROGRAM: &str = r#"
          package example;
          import java.util.ArrayList;
          import java.util.List;

          public class Example {
            private ArrayList<String> names;

            public Example() {
              names = new ArrayList<>();
            }

            public void addName(String name) {
              names.add(name);
            }

            public List<String> getNames() {
              return new ArrayList<>(names);
            }
          }
          "#;

#[test]
fn get_next_token() {
    let input = PROGRAM;
    let mut lex = Lexer::new(input.into());
    let first = lex.next_token();
    assert_eq!(first.kind, TokenKind::Package);
    assert_eq!(first.text, b"package".to_vec());
    assert_eq!(first.position, at(2, 11, 11));
    assert_eq!(lex.next_token().kind, ident("example"));
    assert_eq!(lex.next_token().kind, TokenKind::Semicolon);
    assert_eq!(lex.next_token().kind, TokenKind::Import);
}

#[test]
fn whole_program() {
    let tokens = lex(PROGRAM);
    assert_eq!(tokens.len(), 80);
    assert!(tokens.iter().all(|token| !matches!(token.kind, TokenKind::Invalid(_, _))));
    assert_eq!(tokens[79].kind, TokenKind::EndOfInput);
    assert_eq!(tokens[79].position.offset, PROGRAM.len());
    let generic: Vec<TokenKind> = tokens[22..27].iter().map(|token| token.kind.clone()).collect();
    assert_eq!(
        generic,
        vec![
            ident("ArrayList"),
            TokenKind::Less,
            ident("String"),
            TokenKind::Greater,
            ident("names"),
        ]
    );
}

#[test]
fn end_to_end() {
    assert_eq!(
        kinds("package example;\npublic class Example {}"),
        vec![
            TokenKind::Package,
            ident("example"),
            TokenKind::Semicolon,
            TokenKind::Public,
            TokenKind::Class,
            ident("Example"),
            TokenKind::LBrace,
            TokenKind::RBrace,
            TokenKind::EndOfInput,
        ]
    );
}

#[test]
fn keyword_precedence() {
    assert_eq!(kinds("class"), vec![TokenKind::Class, TokenKind::EndOfInput]);
    assert_eq!(kinds("classify"), vec![ident("classify"), TokenKind::EndOfInput]);
    assert_eq!(kinds("Class"), vec![ident("Class"), TokenKind::EndOfInput]);
    assert_eq!(kinds("_class"), vec![ident("_class"), TokenKind::EndOfInput]);
    assert_eq!(kinds("int9"), vec![ident("int9"), TokenKind::EndOfInput]);
}

#[test]
fn every_reserved_word() {
    assert_eq!(
        kinds(
            "package import class public protected private static abstract final if else \
             return byte short int long char float double boolean void true false"
        ),
        vec![
            TokenKind::Package,
            TokenKind::Import,
            TokenKind::Class,
            TokenKind::Public,
            TokenKind::Protected,
            TokenKind::Private,
            TokenKind::Static,
            TokenKind::Abstract,
            TokenKind::Final,
            TokenKind::If,
            TokenKind::Else,
            TokenKind::Return,
            TokenKind::Byte,
            TokenKind::Short,
            TokenKind::Int,
            TokenKind::Long,
            TokenKind::Char,
            TokenKind::Float,
            TokenKind::Double,
            TokenKind::Boolean,
            TokenKind::Void,
            TokenKind::BooleanLiteral(true),
            TokenKind::BooleanLiteral(false),
            TokenKind::EndOfInput,
        ]
    );
}

#[test]
fn maximal_munch_for_operators() {
    assert_eq!(kinds("=="), vec![TokenKind::Equals, TokenKind::EndOfInput]);
    assert_eq!(kinds("="), vec![TokenKind::Assign, TokenKind::EndOfInput]);
    assert_eq!(
        kinds("==="),
        vec![TokenKind::Equals, TokenKind::Assign, TokenKind::EndOfInput]
    );
    assert_eq!(
        kinds("= ="),
        vec![TokenKind::Assign, TokenKind::Assign, TokenKind::EndOfInput]
    );
}

#[test]
fn every_operator() {
    assert_eq!(
        kinds("{ } ( ) [ ] ; : , . = == != < <= > >= + - * / % ! && ||"),
        vec![
            TokenKind::LBrace,
            TokenKind::RBrace,
            TokenKind::LParen,
            TokenKind::RParen,
            TokenKind::LBracket,
            TokenKind::RBracket,
            TokenKind::Semicolon,
            TokenKind::Colon,
            TokenKind::Comma,
            TokenKind::Dot,
            TokenKind::Assign,
            TokenKind::Equals,
            TokenKind::NotEquals,
            TokenKind::Less,
            TokenKind::LessEqual,
            TokenKind::Greater,
            TokenKind::GreaterEqual,
            TokenKind::Plus,
            TokenKind::Minus,
            TokenKind::Star,
            TokenKind::Slash,
            TokenKind::Percent,
            TokenKind::Not,
            TokenKind::And,
            TokenKind::Or,
            TokenKind::EndOfInput,
        ]
    );
}

#[test]
fn single_ampersand_and_bar_are_unrecognized() {
    assert_eq!(
        kinds("a & b | c"),
        vec![
            ident("a"),
            invalid("&", LexError::UnrecognizedCharacter),
            ident("b"),
            invalid("|", LexError::UnrecognizedCharacter),
            ident("c"),
            TokenKind::EndOfInput,
        ]
    );
}

#[test]
fn position_accuracy() {
    let tokens = lex("a\nb");
    assert_eq!(tokens[0].position, at(1, 1, 0));
    assert_eq!(tokens[1].kind, ident("b"));
    assert_eq!(tokens[1].position, at(2, 1, 2));
    assert_eq!(tokens[2].kind, TokenKind::EndOfInput);
    assert_eq!(tokens[2].position, at(2, 2, 3));
}

#[test]
fn positions_over_lines_and_tabs() {
    let tokens = lex("int x;\n\n\ty = 10;\n");
    let places: Vec<Position> = tokens.iter().map(|token| token.position).collect();
    assert_eq!(
        places,
        vec![
            at(1, 1, 0),
            at(1, 5, 4),
            at(1, 6, 5),
            at(3, 2, 9),
            at(3, 4, 11),
            at(3, 6, 13),
            at(3, 8, 15),
            at(4, 1, 17),
        ]
    );
}

#[test]
fn columns_count_characters_and_offsets_count_bytes() {
    let tokens = lex("\"é\" x");
    assert_eq!(tokens[0].kind, TokenKind::StringLiteral("é".as_bytes().to_vec()));
    assert_eq!(tokens[0].text.len(), 4);
    assert_eq!(tokens[1].kind, ident("x"));
    assert_eq!(tokens[1].position, at(1, 5, 5));
}

#[test]
fn resilience() {
    assert_eq!(
        kinds("@"),
        vec![invalid("@", LexError::UnrecognizedCharacter), TokenKind::EndOfInput]
    );
    let tokens = lex("@ int x;");
    assert_eq!(tokens[0].kind, invalid("@", LexError::UnrecognizedCharacter));
    assert_eq!(tokens[1].kind, TokenKind::Int);
    assert_eq!(tokens[2].kind, ident("x"));
    assert_eq!(tokens[3].kind, TokenKind::Semicolon);
    assert_eq!(tokens[4].kind, TokenKind::EndOfInput);
    assert_eq!(tokens.len(), 5);
}

#[test]
fn unrecognized_character_is_one_character() {
    let tokens = lex("é€😀x");
    assert_eq!(tokens[0].kind, invalid("é", LexError::UnrecognizedCharacter));
    assert_eq!(tokens[1].kind, invalid("€", LexError::UnrecognizedCharacter));
    assert_eq!(tokens[2].kind, invalid("😀", LexError::UnrecognizedCharacter));
    assert_eq!(tokens[3].kind, ident("x"));
    assert_eq!(tokens[3].position, at(1, 4, 9));
    assert_eq!(
        kinds("a\rb"),
        vec![
            ident("a"),
            invalid("\r", LexError::UnrecognizedCharacter),
            ident("b"),
            TokenKind::EndOfInput
        ]
    );
}

#[test]
fn string_literal() {
    let tokens = lex("\"hello\"");
    assert_eq!(tokens.len(), 2);
    assert_eq!(tokens[0].kind, TokenKind::StringLiteral(b"hello".to_vec()));
    assert_eq!(tokens[0].text, b"\"hello\"".to_vec());
    assert_eq!(tokens[0].position, at(1, 1, 0));
    assert_eq!(tokens[1].kind, TokenKind::EndOfInput);
    assert_eq!(kinds("\"\""), vec![TokenKind::StringLiteral(Vec::new()), TokenKind::EndOfInput]);
}

#[test]
fn string_escapes_are_kept_as_written() {
    assert_eq!(
        kinds(r#""a\"b" "c\\" "d\ne""#),
        vec![
            TokenKind::StringLiteral(br#"a\"b"#.to_vec()),
            TokenKind::StringLiteral(br#"c\\"#.to_vec()),
            TokenKind::StringLiteral(br#"d\ne"#.to_vec()),
            TokenKind::EndOfInput,
        ]
    );
    assert_eq!(
        kinds("\"// no comment /* here */\""),
        vec![TokenKind::StringLiteral(b"// no comment /* here */".to_vec()), TokenKind::EndOfInput]
    );
}

#[test]
fn unterminated_string() {
    assert_eq!(
        kinds("\"abc"),
        vec![invalid("\"abc", LexError::UnterminatedString), TokenKind::EndOfInput]
    );
    assert_eq!(
        kinds("\"abc\nx"),
        vec![invalid("\"abc", LexError::UnterminatedString), ident("x"), TokenKind::EndOfInput]
    );
    assert_eq!(
        kinds("\"abc\\"),
        vec![invalid("\"abc\\", LexError::UnterminatedString), TokenKind::EndOfInput]
    );
    assert_eq!(
        kinds("\"abc\\\nx"),
        vec![invalid("\"abc\\", LexError::UnterminatedString), ident("x"), TokenKind::EndOfInput]
    );
    assert_eq!(
        kinds("\"a\\\""),
        vec![invalid("\"a\\\"", LexError::UnterminatedString), TokenKind::EndOfInput]
    );
}

#[test]
fn char_literals() {
    assert_eq!(
        kinds(r"'a' '\n' '\'' '\\' 'é'"),
        vec![
            TokenKind::CharLiteral(b"a".to_vec()),
            TokenKind::CharLiteral(br"\n".to_vec()),
            TokenKind::CharLiteral(br"\'".to_vec()),
            TokenKind::CharLiteral(br"\\".to_vec()),
            TokenKind::CharLiteral("é".as_bytes().to_vec()),
            TokenKind::EndOfInput,
        ]
    );
    assert_eq!(lex("'a'")[0].text, b"'a'".to_vec());
}

#[test]
fn malformed_and_unterminated_char() {
    assert_eq!(kinds("''"), vec![invalid("''", LexError::MalformedChar), TokenKind::EndOfInput]);
    assert_eq!(
        kinds("'ab'"),
        vec![invalid("'ab'", LexError::MalformedChar), TokenKind::EndOfInput]
    );
    assert_eq!(
        kinds(r"'\nn'"),
        vec![invalid(r"'\nn'", LexError::MalformedChar), TokenKind::EndOfInput]
    );
    assert_eq!(kinds("'a"), vec![invalid("'a", LexError::UnterminatedChar), TokenKind::EndOfInput]);
    assert_eq!(
        kinds("'a\n'"),
        vec![
            invalid("'a", LexError::UnterminatedChar),
            invalid("'", LexError::UnterminatedChar),
            TokenKind::EndOfInput
        ]
    );
}

#[test]
fn numbers() {
    assert_eq!(
        kinds("0 42 3.14 007"),
        vec![
            TokenKind::IntLiteral(b"0".to_vec()),
            TokenKind::IntLiteral(b"42".to_vec()),
            TokenKind::FloatLiteral(b"3.14".to_vec()),
            TokenKind::IntLiteral(b"007".to_vec()),
            TokenKind::EndOfInput,
        ]
    );
    assert_eq!(
        kinds("x.y .5"),
        vec![
            ident("x"),
            TokenKind::Dot,
            ident("y"),
            TokenKind::Dot,
            TokenKind::IntLiteral(b"5".to_vec()),
            TokenKind::EndOfInput,
        ]
    );
    assert_eq!(
        kinds("10L"),
        vec![TokenKind::IntLiteral(b"10".to_vec()), ident("L"), TokenKind::EndOfInput]
    );
}

#[test]
fn malformed_numbers_are_rejected() {
    assert_eq!(kinds("1."), vec![invalid("1.", LexError::MalformedNumber), TokenKind::EndOfInput]);
    assert_eq!(
        kinds("1.2.3"),
        vec![invalid("1.2.3", LexError::MalformedNumber), TokenKind::EndOfInput]
    );
    assert_eq!(
        kinds("1..2"),
        vec![invalid("1..2", LexError::MalformedNumber), TokenKind::EndOfInput]
    );
    assert_eq!(
        kinds("1.;"),
        vec![invalid("1.", LexError::MalformedNumber), TokenKind::Semicolon, TokenKind::EndOfInput]
    );
}

#[test]
fn comments_are_skipped() {
    assert_eq!(
        kinds("a // rest of the line == ignored\nb /* block\n comment */ c"),
        vec![ident("a"), ident("b"), ident("c"), TokenKind::EndOfInput]
    );
    assert_eq!(kinds("// only a comment"), vec![TokenKind::EndOfInput]);
    assert_eq!(kinds("/**/"), vec![TokenKind::EndOfInput]);
    assert_eq!(kinds("a/b"), vec![ident("a"), TokenKind::Slash, ident("b"), TokenKind::EndOfInput]);
    let tokens = lex("/* one\n two */ x");
    assert_eq!(tokens[0].position, at(2, 9, 15));
}

#[test]
fn block_comments_do_not_nest() {
    assert_eq!(
        kinds("/* a /* b */ c */"),
        vec![ident("c"), TokenKind::Star, TokenKind::Slash, TokenKind::EndOfInput]
    );
}

#[test]
fn unterminated_comment() {
    assert_eq!(
        kinds("a /* never closed\n b"),
        vec![
            ident("a"),
            invalid("/* never closed\n b", LexError::UnterminatedComment),
            TokenKind::EndOfInput
        ]
    );
    assert_eq!(kinds("/*/"), vec![invalid("/*/", LexError::UnterminatedComment), TokenKind::EndOfInput]);
}

#[test]
fn empty_input() {
    let tokens = lex("");
    assert_eq!(tokens.len(), 1);
    assert_eq!(tokens[0].kind, TokenKind::EndOfInput);
    assert_eq!(tokens[0].text, Vec::<u8>::new());
    assert_eq!(tokens[0].position, at(1, 1, 0));
    assert_eq!(kinds(" \t\n "), vec![TokenKind::EndOfInput]);
}

#[test]
fn end_of_input_repeats() {
    let mut lexer = Lexer::new("x \n".to_string());
    assert_eq!(lexer.next_token().kind, ident("x"));
    let end = lexer.next_token();
    assert_eq!(end.kind, TokenKind::EndOfInput);
    assert_eq!(end.position, at(2, 1, 3));
    for _ in 0..5 {
        assert_eq!(lexer.next_token(), end);
        assert_eq!(lexer.position(), at(2, 1, 3));
    }
    assert_eq!(lexer.tokenize(), vec![end]);
}

#[test]
fn terminates_within_the_length_of_the_input() {
    for input in ["", "a", "a b c", "@@@@", "\"\n\"\n\"", "1.2.3 /* x", PROGRAM] {
        let mut lexer = Lexer::new(input.to_string());
        let mut calls = 0;
        while lexer.next_token().kind != TokenKind::EndOfInput {
            calls += 1;
            assert!(calls <= input.len());
        }
        assert!(lex(input).len() <= input.len() + 1);
    }
}

#[test]
fn total_coverage() {
    for input in [PROGRAM, "a/*c*/b // d\n \"s // t\" 'x' 1.5 @ é", "x /* open"] {
        let source = input.as_bytes();
        let mut rebuilt: Vec<u8> = Vec::new();
        let mut kept: Vec<u8> = Vec::new();
        let mut cursor = 0;
        for token in lex(input) {
            let start = token.position.offset;
            let end = start + token.text.len();
            assert!(cursor <= start && end <= source.len());
            assert_eq!(&source[start..end], token.text.as_slice());
            rebuilt.extend_from_slice(&source[cursor..start]);
            rebuilt.extend_from_slice(&token.text);
            kept.extend_from_slice(&token.text);
            cursor = end;
        }
        rebuilt.extend_from_slice(&source[cursor..]);
        assert_eq!(rebuilt, source.to_vec());
        assert!(kept.len() <= source.len());
    }
    let texts: Vec<u8> = lex("a /* c */ + b").into_iter().flat_map(|token| token.text).collect();
    assert_eq!(texts, b"a+b".to_vec());
}

#[test]
fn current_char_reads_under_the_cursor() {
    let mut lexer = Lexer::new("ab c".to_string());
    assert_eq!(lexer.current_char(), b'a');
    lexer.next_token();
    assert_eq!(lexer.current_char(), b' ');
    lexer.next_token();
    assert_eq!(lexer.current_char(), 0);
    assert_eq!(Lexer::new(String::new()).current_char(), 0);
}

#[test]
fn tokenize_continues_from_the_cursor() {
    let mut lexer = Lexer::new("a b c".to_string());
    lexer.next_token();
    assert_eq!(lexer.position(), at(1, 2, 1));
    let rest: Vec<TokenKind> = lexer.tokenize().into_iter().map(|token| token.kind).collect();
    assert_eq!(rest, vec![ident("b"), ident("c"), TokenKind::EndOfInput]);
    assert_eq!(lexer.position(), at(1, 6, 5));
}

#[test]
fn messages() {
    assert_eq!(LexError::UnterminatedString.message(), "unterminated string");
    assert_eq!(LexError::UnterminatedChar.message(), "unterminated character literal");
    assert_eq!(LexError::UnterminatedComment.message(), "unterminated comment");
    assert_eq!(LexError::UnrecognizedCharacter.message(), "unrecognized character");
    assert_eq!(LexError::MalformedNumber.message(), "malformed number");
    assert_eq!(LexError::MalformedChar.message(), "malformed character literal");
}
