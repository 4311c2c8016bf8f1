use mini::ast::{Expr, Program, Stmt};
use mini::expr::{parse_int_expr, ExprError};
use mini::lexer::{Lexer, Tok};
use mini::parser::{parse_line, Line, ParseError, ParseErrorKind, Parser};
use regex::Regex;
use mini::strlit::{parse_string, StringError};

fn num(v: i32) -> Box<Expr> {
    Box::new(Expr::Int(v))
}

fn name_ref(name: &str) -> Box<Expr> {
    Box::new(Expr::Var(name.to_string()))
}

fn let_stmt(name: &str, expr: Expr) -> Stmt {
    Stmt::Let { name: name.to_string(), expr }
}

fn print_stmt(name: &str) -> Stmt {
    Stmt::Print { name: name.to_string() }
}

#[test]
fn lexer_yields_tokens_in_order() {
    let mut lx = Lexer::new(" 12 + foo_1*(3)\t/ -_x ");
    assert_eq!(lx.next(), Some(Tok::Int(12)));
    assert_eq!(lx.next(), Some(Tok::Plus));
    assert_eq!(lx.next(), Some(Tok::Ident(String::from("foo_1"))));
    assert_eq!(lx.next(), Some(Tok::Star));
    assert_eq!(lx.next(), Some(Tok::LParen));
    assert_eq!(lx.next(), Some(Tok::Int(3)));
    assert_eq!(lx.next(), Some(Tok::RParen));
    assert_eq!(lx.next(), Some(Tok::Slash));
    assert_eq!(lx.next(), Some(Tok::Minus));
    assert_eq!(lx.next(), Some(Tok::Ident(String::from("_x"))));
    assert_eq!(lx.next(), None);
    assert_eq!(lx.next(), None);
}

#[test]
fn lexer_stops_at_unknown_character_and_stays_stopped() {
    let mut lx = Lexer::new("1 $ 2");
    assert_eq!(lx.next(), Some(Tok::Int(1)));
    assert_eq!(lx.next(), None);
    assert_eq!(lx.next(), None);
}

#[test]
fn lexer_stops_at_number_too_large() {
    let mut lx = Lexer::new("2147483647 2147483648 5");
    assert_eq!(lx.next(), Some(Tok::Int(2147483647)));
    assert_eq!(lx.next(), None);
    assert_eq!(lx.next(), None);
}

#[test]
fn lexer_reads_leading_zeros() {
    let mut lx = Lexer::new("000000000000000000042");
    assert_eq!(lx.next(), Some(Tok::Int(42)));
    assert_eq!(lx.next(), None);
}

#[test]
fn lexer_does_not_skip_vertical_tab() {
    let mut lx = Lexer::new("1\u{b}2");
    assert_eq!(lx.next(), Some(Tok::Int(1)));
    assert_eq!(lx.next(), None);
}

#[test]
fn multiplication_binds_tighter_than_addition() {
    assert_eq!(
        parse_int_expr("2 + 3 * 4"),
        Ok(Expr::Add(num(2), Box::new(Expr::Mul(num(3), num(4)))))
    );
    assert_eq!(
        parse_int_expr("2 * 3 + 4"),
        Ok(Expr::Add(Box::new(Expr::Mul(num(2), num(3))), num(4)))
    );
}

#[test]
fn subtraction_associates_to_the_left() {
    assert_eq!(
        parse_int_expr("2 - 3 - 4"),
        Ok(Expr::Sub(Box::new(Expr::Sub(num(2), num(3))), num(4)))
    );
    assert_eq!(
        parse_int_expr("8 / 4 / 2"),
        Ok(Expr::Div(Box::new(Expr::Div(num(8), num(4))), num(2)))
    );
}

#[test]
fn unary_minus_binds_tighter_than_multiplication() {
    assert_eq!(
        parse_int_expr("-2 * 3"),
        Ok(Expr::Mul(Box::new(Expr::UnaryNeg(num(2))), num(3)))
    );
    assert_eq!(
        parse_int_expr("- - a"),
        Ok(Expr::UnaryNeg(Box::new(Expr::UnaryNeg(name_ref("a")))))
    );
}

#[test]
fn parentheses_override_precedence() {
    assert_eq!(
        parse_int_expr("(2 + 3) * 4"),
        Ok(Expr::Mul(Box::new(Expr::Add(num(2), num(3))), num(4)))
    );
    assert_eq!(
        parse_int_expr("-(a + 1)"),
        Ok(Expr::UnaryNeg(Box::new(Expr::Add(name_ref("a"), num(1)))))
    );
}

#[test]
fn expression_errors() {
    assert_eq!(parse_int_expr(""), Err(ExprError::ExpectedExpression));
    assert_eq!(parse_int_expr("1 +"), Err(ExprError::ExpectedExpression));
    assert_eq!(parse_int_expr("(1 + 2"), Err(ExprError::ExpectedRParen));
    assert_eq!(parse_int_expr("(1 2)"), Err(ExprError::ExpectedRParen));
    assert_eq!(parse_int_expr("* 2"), Err(ExprError::UnexpectedToken(Tok::Star)));
    assert_eq!(parse_int_expr(")"), Err(ExprError::UnexpectedToken(Tok::RParen)));
    assert_eq!(parse_int_expr("1 2"), Err(ExprError::TrailingToken(Tok::Int(2))));
    assert_eq!(parse_int_expr("1 )"), Err(ExprError::TrailingToken(Tok::RParen)));
    assert_eq!(
        parse_int_expr("a b"),
        Err(ExprError::TrailingToken(Tok::Ident("b".to_string())))
    );
}

#[test]
fn expression_is_cut_where_the_lexer_stops() {
    assert_eq!(parse_int_expr("1 + 2 ; 3"), Ok(Expr::Add(num(1), num(2))));
    assert_eq!(parse_int_expr("1 + $"), Err(ExprError::ExpectedExpression));
    assert_eq!(parse_int_expr("(1 $ )"), Err(ExprError::ExpectedRParen));
    assert_eq!(parse_int_expr("99999999999"), Err(ExprError::ExpectedExpression));
}

#[test]
fn string_literal_with_escapes() {
    assert_eq!(parse_string("\"hi\\n\""), Ok("hi\n".to_string()));
    assert_eq!(parse_string("\"a\\tb\\\"c\\\\d\""), Ok("a\tb\"c\\d".to_string()));
    assert_eq!(parse_string("\"\""), Ok(String::new()));
    assert_eq!(parse_string("\"a\"b\""), Ok("a\"b".to_string()));
    assert_eq!(parse_string("\"h\u{e9}\""), Ok("h\u{e9}".to_string()));
}

#[test]
fn string_literal_errors() {
    assert_eq!(parse_string("hi"), Err(StringError::NotAStringLiteral));
    assert_eq!(parse_string("\"hi"), Err(StringError::NotAStringLiteral));
    assert_eq!(parse_string("\""), Err(StringError::NotAStringLiteral));
    assert_eq!(parse_string(""), Err(StringError::NotAStringLiteral));
    assert_eq!(parse_string("\"a\\qb\""), Err(StringError::UnsupportedEscape('q')));
    assert_eq!(parse_string("\"abc\\\""), Err(StringError::DanglingBackslash));
    assert_eq!(parse_string("\"\\q\\\""), Err(StringError::UnsupportedEscape('q')));
}

#[test]
fn program_of_let_and_print() {
    let program = Parser::parse("let x = 2 + 3 * 4;\nprint x;\n").unwrap();
    assert_eq!(
        program,
        Program {
            stmts: vec![
                let_stmt("x", Expr::Add(num(2), Box::new(Expr::Mul(num(3), num(4))))),
                print_stmt("x"),
            ]
        }
    );
}

#[test]
fn program_with_string_round_trip() {
    let program = Parser::parse("let s = \"hi\\n\";\nprint s;").unwrap();
    assert_eq!(
        program.stmts,
        vec![let_stmt("s", Expr::Str("hi\n".to_string())), print_stmt("s")]
    );
}

#[test]
fn blank_lines_and_comments_are_skipped() {
    let src = "\n  // a comment\n\r\nlet x = 1;\r\n   \n//print y;\nprint x;";
    let program = Parser::parse(src).unwrap();
    assert_eq!(program.stmts, vec![let_stmt("x", Expr::Int(1)), print_stmt("x")]);
    assert_eq!(Parser::parse("").unwrap().stmts, vec![]);
    assert_eq!(Parser::parse("\n\n").unwrap().stmts, vec![]);
}

#[test]
fn whitespace_in_statements() {
    let program = Parser::parse("  let\t_a1=1 ;  \nprint   _a1  ;\nlet b\u{a0}=\u{2003}2;").unwrap();
    assert_eq!(
        program.stmts,
        vec![let_stmt("_a1", Expr::Int(1)), print_stmt("_a1"), let_stmt("b", Expr::Int(2))]
    );
}

#[test]
fn initializer_runs_to_the_last_semicolon() {
    let program = Parser::parse("let x = 1; ;").unwrap();
    assert_eq!(program.stmts, vec![let_stmt("x", Expr::Int(1))]);
    let program = Parser::parse("let s = \"a;b\";").unwrap();
    assert_eq!(program.stmts, vec![let_stmt("s", Expr::Str("a;b".to_string()))]);
}

fn error_of(src: &str) -> ParseError {
    Parser::parse(src).unwrap_err()
}

fn unrecognized(text: &str) -> ParseErrorKind {
    ParseErrorKind::UnrecognizedSyntax { text: text.to_string() }
}

#[test]
fn missing_semicolon_names_the_line() {
    assert_eq!(
        error_of("let x = 1;\nprint x\n"),
        ParseError { line: 2, kind: unrecognized("print x") }
    );
    assert_eq!(
        error_of("let x = 1\nprint x;\n"),
        ParseError { line: 1, kind: unrecognized("let x = 1") }
    );
    assert_eq!(
        error_of("\n// c\n\nlet x = 1;\n\nlet y = 2\n"),
        ParseError { line: 6, kind: unrecognized("let y = 2") }
    );
}

#[test]
fn unrecognized_keyword_names_the_line() {
    assert_eq!(
        error_of("let x = 1;\nprint x;\nshow x;\n"),
        ParseError { line: 3, kind: unrecognized("show x;") }
    );
    assert_eq!(error_of("foo bar;"), ParseError { line: 1, kind: unrecognized("foo bar;") });
    assert_eq!(error_of("letx = 1;"), ParseError { line: 1, kind: unrecognized("letx = 1;") });
    assert_eq!(error_of("let = 1;").kind, unrecognized("let = 1;"));
    assert_eq!(error_of("let 1x = 1;").kind, unrecognized("let 1x = 1;"));
    assert_eq!(error_of("let x y = 1;").kind, unrecognized("let x y = 1;"));
    assert_eq!(error_of("let x =;").kind, unrecognized("let x =;"));
    assert_eq!(error_of("print;").kind, unrecognized("print;"));
    assert_eq!(error_of("print x y;").kind, unrecognized("print x y;"));
    assert_eq!(error_of("print x;;").kind, unrecognized("print x;;"));
    assert_eq!(error_of("print \"x\";").kind, unrecognized("print \"x\";"));
}

#[test]
fn unrecognized_line_is_held_without_the_whitespace_at_its_ends() {
    assert_eq!(
        error_of("let x = 1;\r\n \t show  x ; \u{a0}\r\nprint x;"),
        ParseError { line: 2, kind: unrecognized("show  x ;") }
    );
    assert_eq!(
        error_of("  h\u{e9}llo w\u{f6}rld  ").message(),
        "line 1: unrecognized syntax `h\u{e9}llo w\u{f6}rld`"
    );
}

fn bad_expression(text: &str, error: ExprError) -> ParseErrorKind {
    ParseErrorKind::BadExpression { text: text.to_string(), error }
}

#[test]
fn first_bad_line_is_reported() {
    assert_eq!(
        error_of("let a = 1;\nlet b = (;\nnonsense\n"),
        ParseError { line: 2, kind: bad_expression("(", ExprError::ExpectedExpression) }
    );
}

#[test]
fn bad_initializers() {
    assert_eq!(
        error_of("let x = ;"),
        ParseError { line: 1, kind: bad_expression("", ExprError::ExpectedExpression) }
    );
    assert_eq!(
        error_of("let x =  1 2 ;"),
        ParseError {
            line: 1,
            kind: bad_expression("1 2", ExprError::TrailingToken(Tok::Int(2)))
        }
    );
    assert_eq!(
        error_of("\nlet s = \"a\\q\";"),
        ParseError {
            line: 2,
            kind: ParseErrorKind::BadString(StringError::UnsupportedEscape('q'))
        }
    );
    assert_eq!(
        error_of("let s = \"a\\\";"),
        ParseError { line: 1, kind: ParseErrorKind::BadString(StringError::DanglingBackslash) }
    );
    assert_eq!(
        error_of("let s = \";"),
        ParseError { line: 1, kind: bad_expression("\"", ExprError::ExpectedExpression) }
    );
    assert_eq!(
        error_of("let s = \"a\" + 1;"),
        ParseError { line: 1, kind: bad_expression("\"a\" + 1", ExprError::ExpectedExpression) }
    );
}

#[test]
fn parse_error_messages() {
    assert_eq!(error_of("\n\nshow x;").message(), "line 3: unrecognized syntax `show x;`");
    assert_eq!(error_of("foo bar;").message(), "line 1: unrecognized syntax `foo bar;`");
    assert_eq!(
        error_of("let x = 1 +;").message(),
        "line 1: bad expression `1 +`: expected expression"
    );
    assert_eq!(
        error_of("let x = (1;").message(),
        "line 1: bad expression `(1`: expected `)`"
    );
    assert_eq!(
        error_of("let x = 1 foo;").message(),
        "line 1: bad expression `1 foo`: unexpected token after expression: foo"
    );
    assert_eq!(
        error_of("let x = * 2;").message(),
        "line 1: bad expression `* 2`: unexpected token: *"
    );
    assert_eq!(
        error_of("let s = \"\\q\";").message(),
        "line 1 string literal: unsupported escape \\q"
    );
    assert_eq!(
        error_of("let s = \"\\\";").message(),
        "line 1 string literal: dangling backslash"
    );
    let mut src = String::new();
    for _ in 0..1204 {
        src.push('\n');
    }
    src.push('?');
    assert_eq!(error_of(&src).message(), "line 1205: unrecognized syntax `?`");
}

#[test]
fn token_text() {
    assert_eq!(Tok::Int(0).text(), "0");
    assert_eq!(Tok::Int(2147483647).text(), "2147483647");
    assert_eq!(Tok::Int(-2147483648).text(), "-2147483648");
    assert_eq!(Tok::Int(-17).text(), "-17");
    assert_eq!(Tok::Ident("abc".to_string()).text(), "abc");
    assert_eq!(Tok::Plus.text(), "+");
    assert_eq!(Tok::Minus.text(), "-");
    assert_eq!(Tok::Star.text(), "*");
    assert_eq!(Tok::Slash.text(), "/");
    assert_eq!(Tok::LParen.text(), "(");
    assert_eq!(Tok::RParen.text(), ")");
    assert_eq!(StringError::NotAStringLiteral.message(), "not a string literal");
}

#[derive(Debug, PartialEq)]
enum Shape {
    Let(String, Option<String>),
    Print(String),
    Neither,
}

/// The two statement shapes as patterns.
struct Patterns {
    let_re: Regex,
    print_re: Regex,
}

impl Patterns {
    fn new() -> Patterns {
        Patterns {
            let_re: Regex::new(r#"^let\s+([A-Za-z_][A-Za-z0-9_]*)\s*=\s*(.+);\s*$"#).unwrap(),
            print_re: Regex::new(r#"^print\s+([A-Za-z_][A-Za-z0-9_]*)\s*;\s*$"#).unwrap(),
        }
    }

    fn shape(&self, line: &str) -> Shape {
        if let Some(caps) = self.let_re.captures(line) {
            return Shape::Let(caps[1].to_string(), Some(caps[2].trim().to_string()));
        }
        if let Some(caps) = self.print_re.captures(line) {
            return Shape::Print(caps[1].to_string());
        }
        Shape::Neither
    }

    /// Whether the parser and the patterns see the same shape in `line`.
    fn agree(&self, line: &str) {
        let expected = self.shape(line);
        let chars: Vec<char> = line.chars().collect();
        let found = match parse_line(&chars) {
            Line::Stmt(Stmt::Let { name, .. }) => Shape::Let(name, None),
            Line::Stmt(Stmt::Print { name }) => Shape::Print(name),
            Line::Invalid(ParseErrorKind::BadExpression { text, .. }) => match &expected {
                Shape::Let(name, _) => Shape::Let(name.clone(), Some(text)),
                _ => Shape::Let(String::new(), Some(text)),
            },
            Line::Invalid(ParseErrorKind::BadString(_)) => match &expected {
                Shape::Let(name, _) => Shape::Let(name.clone(), None),
                _ => Shape::Let(String::new(), None),
            },
            Line::Invalid(ParseErrorKind::UnrecognizedSyntax { text }) => {
                assert_eq!(text, line);
                Shape::Neither
            }
            Line::Skip => Shape::Neither,
        };
        match (&expected, &found) {
            (Shape::Let(a, text), Shape::Let(b, other)) => {
                assert_eq!(a, b, "{:?}", line);
                if other.is_some() {
                    assert_eq!(text, other, "{:?}", line);
                }
            }
            _ => assert_eq!(expected, found, "{:?}", line),
        }
    }
}

#[test]
fn statement_shapes_agree_with_their_patterns() {
    let lines = [
        "let x = 1;",
        "let x=1;",
        "let  x  =  1 ;",
        "let x = 1; ;",
        "let x = 1;;",
        "let x =;",
        "let x = ;",
        "let x =  ;",
        "let x == 1;",
        "let x = = 1;",
        "letx = 1;",
        "let x y = 1;",
        "let x = \"a;b\";",
        "let x = \"a\\q\";",
        "let x = ;;",
        "let x = 1 2;",
        "let x = (;",
        "let 1 = 2;",
        "let _ = 2;",
        "let _9a_ = 2;",
        "let x- = 2;",
        "LET x = 1;",
        "let x = 1",
        "let x",
        "let",
        "let ;",
        "let =;",
        "let\u{a0}x\u{2003}=\u{3000}1;",
        "let\tx\t=\t1\t;",
        "let x\u{b}= 1;",
        "print x;",
        "print  x ;",
        "print\tx\t;",
        "print\u{2028}x\u{205f};",
        "print x",
        "print x;;",
        "print x; ;",
        "printx;",
        "print 1;",
        "print ;",
        "print;",
        "print x y;",
        "print x = 1;",
        "let print = 1;",
        "print let;",
        "x = 1;",
        "show x;",
        ";",
        "=",
    ];
    let patterns = Patterns::new();
    for line in lines {
        patterns.agree(line);
    }
}

/// A small generator of pseudo-random numbers.
struct Dice(u64);

impl Dice {
    fn roll(&mut self, sides: usize) -> usize {
        self.0 = self.0.wrapping_mul(6364136223846793005).wrapping_add(1442695040888963407);
        ((self.0 >> 33) as usize) % sides
    }

    fn text(&mut self, pieces: &[&str], most: usize) -> String {
        let mut text = String::new();
        for _ in 0..self.roll(most + 1) {
            text.push_str(pieces[self.roll(pieces.len())]);
        }
        text
    }
}

const LINE_PIECES: [&str; 22] = [
    "let", "print", " ", " ", "\t", "x", "y1", "_", "1", "23", "=", ";", ";", "\"", "\\", "n",
    "(", ")", "+", "*", "\u{a0}", "//",
];

#[test]
fn random_lines_agree_with_their_patterns() {
    let patterns = Patterns::new();
    let mut dice = Dice(1);
    for _ in 0..4000 {
        let text = dice.text(&LINE_PIECES, 9);
        let line = text.trim();
        if line.is_empty() || line.starts_with("//") {
            let chars: Vec<char> = line.chars().collect();
            assert_eq!(parse_line(&chars), Line::Skip, "{:?}", line);
        } else {
            patterns.agree(line);
        }
    }
}

/// The statements of `src`, found line by line with the patterns of the two shapes.
fn parse_by_pattern(patterns: &Patterns, src: &str) -> Result<Vec<Stmt>, ParseError> {
    let mut stmts = Vec::new();
    for (index, raw) in src.lines().enumerate() {
        let line = raw.trim();
        if line.is_empty() || line.starts_with("//") {
            continue;
        }
        let fail = |kind: ParseErrorKind| ParseError { line: index + 1, kind };
        match patterns.shape(line) {
            Shape::Let(name, Some(rhs)) => {
                let expr = if rhs.len() >= 2 && rhs.starts_with('"') && rhs.ends_with('"') {
                    Expr::Str(parse_string(&rhs).map_err(|e| fail(ParseErrorKind::BadString(e)))?)
                } else {
                    parse_int_expr(&rhs).map_err(|error| {
                        fail(ParseErrorKind::BadExpression { text: rhs.clone(), error })
                    })?
                };
                stmts.push(Stmt::Let { name, expr });
            }
            Shape::Print(name) => stmts.push(Stmt::Print { name }),
            _ => return Err(fail(ParseErrorKind::UnrecognizedSyntax { text: line.to_string() })),
        }
    }
    Ok(stmts)
}

#[test]
fn random_sources_agree_with_their_patterns() {
    let pieces = [
        "let x = 1;", "let y = x + 2;", "print x;", "print y", "let s = \"a\\n\";", "\n", "\n",
        "\r\n", "\r", " ", "// note", "let", "=", ";", "1", "x", "\"",
    ];
    let patterns = Patterns::new();
    let mut dice = Dice(7);
    for _ in 0..2000 {
        let src = dice.text(&pieces, 12);
        let expected = parse_by_pattern(&patterns, &src);
        let found = Parser::parse(&src).map(|program| program.stmts);
        assert_eq!(expected, found, "{:?}", src);
    }
}

/// Recursive descent over the grammar
///
/// ```text
/// sum     := product (('+' | '-') product)*
/// product := unary (('*' | '/') unary)*
/// unary   := '-' unary | atom
/// atom    := number | name | '(' sum ')'
/// ```
struct Descent {
    toks: Vec<Tok>,
    at: usize,
}

impl Descent {
    fn sum(&mut self) -> Option<Expr> {
        let mut lhs = self.product()?;
        loop {
            match self.toks.get(self.at) {
                Some(Tok::Plus) => {
                    self.at += 1;
                    lhs = Expr::Add(Box::new(lhs), Box::new(self.product()?));
                }
                Some(Tok::Minus) => {
                    self.at += 1;
                    lhs = Expr::Sub(Box::new(lhs), Box::new(self.product()?));
                }
                _ => return Some(lhs),
            }
        }
    }

    fn product(&mut self) -> Option<Expr> {
        let mut lhs = self.unary()?;
        loop {
            match self.toks.get(self.at) {
                Some(Tok::Star) => {
                    self.at += 1;
                    lhs = Expr::Mul(Box::new(lhs), Box::new(self.unary()?));
                }
                Some(Tok::Slash) => {
                    self.at += 1;
                    lhs = Expr::Div(Box::new(lhs), Box::new(self.unary()?));
                }
                _ => return Some(lhs),
            }
        }
    }

    fn unary(&mut self) -> Option<Expr> {
        let tok = self.toks.get(self.at)?.clone();
        self.at += 1;
        match tok {
            Tok::Minus => Some(Expr::UnaryNeg(Box::new(self.unary()?))),
            Tok::Int(v) => Some(Expr::Int(v)),
            Tok::Ident(name) => Some(Expr::Var(name)),
            Tok::LParen => {
                let inner = self.sum()?;
                match self.toks.get(self.at) {
                    Some(Tok::RParen) => {
                        self.at += 1;
                        Some(inner)
                    }
                    _ => None,
                }
            }
            _ => None,
        }
    }
}

fn parse_by_descent(text: &str) -> Option<Expr> {
    let mut lexer = Lexer::new(text);
    let mut toks = Vec::new();
    while let Some(tok) = lexer.next() {
        toks.push(tok);
    }
    let mut descent = Descent { toks, at: 0 };
    let expr = descent.sum()?;
    if descent.at == descent.toks.len() {
        Some(expr)
    } else {
        None
    }
}

#[test]
fn random_expressions_agree_with_the_grammar() {
    let pieces = [
        "1", "2", "30", "x", "y", "+", "-", "*", "/", "(", ")", " ", "+", "-", "*", "(", ")",
    ];
    let mut dice = Dice(3);
    let mut parsed = 0;
    for _ in 0..20000 {
        let text = dice.text(&pieces, 11);
        let expected = parse_by_descent(&text);
        let found = parse_int_expr(&text).ok();
        if found.is_some() {
            parsed += 1;
        }
        assert_eq!(expected, found, "{:?}", text);
    }
    assert!(parsed > 1000);
}
