//! Statement parser: turns source text into a program, line by line.
//!
//! A line is taken without the whitespace at its ends. Empty lines and lines that start
//! with `//` are skipped. Two shapes are statements:
//!
//! * `let` whitespace *name* `=` *initializer* `;`
//! * `print` whitespace *name* `;`
//!
//! where whitespace may also stand around `=` and before `;`, a name is an ASCII letter or
//! `_` followed by ASCII letters, digits and `_`, and the initializer is everything between
//! the first `=` and the `;` that ends the line. An initializer enclosed in double quotes is
//! a string literal; any other is an arithmetic expression. Every other line is an error,
//! reported with its number, counted from 1, and with its text.

use crate::ast::{stmts_view, Expr, ExprView, Program, Stmt, StmtView};
use crate::expr::{parse_expr_spec, parse_int_expr, ExprError, ExprErrorView};
use crate::strlit::{is_quoted, parse_string, parse_string_spec, StringError};
use crate::text::{
    chars_between, chars_of, decimal_digits, is_ident_start, lemma_run_end_bounds, push_decimal,
    run_end, scan, starts_with, string_of, trim, trim_range, CharClass,
};
use vstd::prelude::*;

verus! {

/// What is wrong with a line.
#[derive(Debug, PartialEq, Eq)]
pub enum ParseErrorKind {
    /// The line `text`, given without the whitespace at its ends, has neither the shape of
    /// a `let` nor that of a `print`.
    UnrecognizedSyntax { text: String },
    /// The initializer is enclosed in double quotes but is no valid string literal.
    BadString(StringError),
    /// The initializer `text` is no valid arithmetic expression.
    BadExpression { text: String, error: ExprError },
}

/// Mathematical value of a [`ParseErrorKind`].
pub ghost enum ParseErrorKindView {
    UnrecognizedSyntax { text: Seq<char> },
    BadString(StringError),
    BadExpression { text: Seq<char>, error: ExprErrorView },
}

impl View for ParseErrorKind {
    type V = ParseErrorKindView;

    open spec fn view(&self) -> ParseErrorKindView {
        match self {
            ParseErrorKind::UnrecognizedSyntax { text } => ParseErrorKindView::UnrecognizedSyntax {
                text: text@,
            },
            ParseErrorKind::BadString(e) => ParseErrorKindView::BadString(*e),
            ParseErrorKind::BadExpression { text, error } => ParseErrorKindView::BadExpression {
                text: text@,
                error: error@,
            },
        }
    }
}

/// A parse error: the number of the offending line, counted from 1, and what is wrong
/// with it.
#[derive(Debug, PartialEq, Eq)]
pub struct ParseError {
    pub line: usize,
    pub kind: ParseErrorKind,
}

impl ParseErrorKind {
    /// What is wrong, in words, to stand behind the number of the line.
    pub open spec fn message_spec(kind: ParseErrorKindView) -> Seq<char> {
        match kind {
            ParseErrorKindView::UnrecognizedSyntax { text } => ": unrecognized syntax `"@ + text
                + "`"@,
            ParseErrorKindView::BadString(e) => " string literal: "@ + e.message_spec(),
            ParseErrorKindView::BadExpression { text, error } => ": bad expression `"@ + text
                + "`: "@ + ExprError::message_spec(error),
        }
    }

    /// What is wrong, in words, to stand behind the number of the line.
    pub fn message(&self) -> (text: String)
        ensures
            text@ == ParseErrorKind::message_spec(self@),
    {
        match self {
            ParseErrorKind::UnrecognizedSyntax { text } => String::from_str(
                ": unrecognized syntax `",
            ).concat(text.as_str()).concat("`"),
            ParseErrorKind::BadString(e) => String::from_str(" string literal: ").concat(
                e.message().as_str(),
            ),
            ParseErrorKind::BadExpression { text, error } => String::from_str(
                ": bad expression `",
            ).concat(text.as_str()).concat("`: ").concat(error.message().as_str()),
        }
    }
}

impl ParseError {
    /// The error as one line: `line`, the number of the line, and what is wrong with it.
    pub open spec fn message_spec(e: ParseErrorView) -> Seq<char> {
        "line "@ + decimal_digits(e.line) + ParseErrorKind::message_spec(e.kind)
    }

    /// The error as one line of text.
    pub fn message(&self) -> (text: String)
        ensures
            text@ == ParseError::message_spec(self@),
    {
        let mut text = String::from_str("line ");
        push_decimal(&mut text, self.line);
        text.concat(self.kind.message().as_str())
    }
}

/// Mathematical value of a [`ParseError`].
pub ghost struct ParseErrorView {
    pub line: nat,
    pub kind: ParseErrorKindView,
}

impl View for ParseError {
    type V = ParseErrorView;

    open spec fn view(&self) -> ParseErrorView {
        ParseErrorView { line: self.line as nat, kind: self.kind@ }
    }
}

/// What one line amounts to.
pub ghost enum LineView {
    /// Empty or a comment.
    Skip,
    Stmt(StmtView),
    Invalid(ParseErrorKindView),
}

/// Where the name lies that follows `keyword` and whitespace at the start of `line`.
pub open spec fn keyword_arg(line: Seq<char>, keyword: Seq<char>) -> Option<(int, int)> {
    if !starts_with(line, keyword) {
        None
    } else {
        let a = run_end(line, keyword.len() as int, CharClass::Space);
        if a == keyword.len() || a >= line.len() || !is_ident_start(line[a]) {
            None
        } else {
            Some((a, run_end(line, a + 1, CharClass::IdentPart)))
        }
    }
}

/// The name and the initializer of a line of the shape `let name = initializer;`.
pub open spec fn let_parts(line: Seq<char>) -> Option<(Seq<char>, Seq<char>)> {
    match keyword_arg(line, "let"@) {
        None => None,
        Some((a, b)) => {
            let c = run_end(line, b, CharClass::Space);
            if c < line.len() && line[c] == '=' && c + 1 < line.len() - 1 && line.last() == ';' {
                Some((line.subrange(a, b), line.subrange(c + 1, line.len() - 1)))
            } else {
                None
            }
        },
    }
}

/// The name of a line of the shape `print name;`.
pub open spec fn print_name(line: Seq<char>) -> Option<Seq<char>> {
    match keyword_arg(line, "print"@) {
        None => None,
        Some((a, b)) => {
            let c = run_end(line, b, CharClass::Space);
            if c == line.len() - 1 && line[c] == ';' {
                Some(line.subrange(a, b))
            } else {
                None
            }
        },
    }
}

/// The statement that an initializer gives to `name`.
pub open spec fn let_stmt(name: Seq<char>, initializer: Seq<char>) -> LineView {
    let rhs = trim(initializer);
    if is_quoted(rhs) {
        match parse_string_spec(rhs) {
            Ok(text) => LineView::Stmt(StmtView::Let { name, expr: ExprView::Str(text) }),
            Err(e) => LineView::Invalid(ParseErrorKindView::BadString(e)),
        }
    } else {
        match parse_expr_spec(rhs) {
            Ok(expr) => LineView::Stmt(StmtView::Let { name, expr }),
            Err(error) => LineView::Invalid(
                ParseErrorKindView::BadExpression { text: rhs, error },
            ),
        }
    }
}

/// What a line amounts to, given without the whitespace at its ends.
pub open spec fn parse_line_spec(line: Seq<char>) -> LineView {
    if line.len() == 0 || starts_with(line, "//"@) {
        LineView::Skip
    } else {
        match let_parts(line) {
            Some((name, initializer)) => let_stmt(name, initializer),
            None => match print_name(line) {
                Some(name) => LineView::Stmt(StmtView::Print { name }),
                None => LineView::Invalid(ParseErrorKindView::UnrecognizedSyntax { text: line }),
            },
        }
    }
}

/// `stmts` put in front of a result.
pub open spec fn and_then(stmts: Seq<StmtView>, r: Result<Seq<StmtView>, ParseErrorView>) -> Result<
    Seq<StmtView>,
    ParseErrorView,
> {
    match r {
        Ok(rest) => Ok(stmts + rest),
        Err(e) => Err(e),
    }
}

/// The statements of the lines of `src` from position `pos` on, where the line at `pos`
/// has the number `line_no`; or the first line in error.
pub open spec fn parse_from(src: Seq<char>, pos: int, line_no: nat) -> Result<
    Seq<StmtView>,
    ParseErrorView,
>
    decreases src.len() + 1 - pos,
    via parse_from_decreases
{
    if pos < 0 || pos >= src.len() {
        Ok(Seq::empty())
    } else {
        let end = run_end(src, pos, CharClass::Not('\n'));
        match parse_line_spec(trim(src.subrange(pos, end))) {
            LineView::Skip => parse_from(src, end + 1, line_no + 1),
            LineView::Stmt(stmt) => and_then(seq![stmt], parse_from(src, end + 1, line_no + 1)),
            LineView::Invalid(kind) => Err(ParseErrorView { line: line_no, kind }),
        }
    }
}

#[via_fn]
proof fn parse_from_decreases(src: Seq<char>, pos: int, line_no: nat) {
    if 0 <= pos < src.len() {
        lemma_run_end_bounds(src, pos, CharClass::Not('\n'));
    }
}

/// The program that `src` denotes, or its first line in error.
pub open spec fn parse_spec(src: Seq<char>) -> Result<Seq<StmtView>, ParseErrorView> {
    parse_from(src, 0, 1)
}

/// What a line amounts to.
#[derive(Debug, PartialEq, Eq)]
pub enum Line {
    /// Empty or a comment.
    Skip,
    Stmt(Stmt),
    Invalid(ParseErrorKind),
}

impl View for Line {
    type V = LineView;

    open spec fn view(&self) -> LineView {
        match self {
            Line::Skip => LineView::Skip,
            Line::Stmt(s) => LineView::Stmt(s@),
            Line::Invalid(e) => LineView::Invalid(e@),
        }
    }
}

/// Whether `line` begins with `prefix`.
fn has_prefix(line: &Vec<char>, prefix: &Vec<char>) -> (r: bool)
    ensures
        r == starts_with(line@, prefix@),
{
    if prefix.len() > line.len() {
        return false;
    }
    let mut i: usize = 0;
    while i < prefix.len()
        invariant
            i <= prefix.len() <= line.len(),
            line@.subrange(0, i as int) == prefix@.subrange(0, i as int),
        decreases prefix.len() - i,
    {
        if line[i] != prefix[i] {
            proof {
                let whole = line@.subrange(0, prefix.len() as int);
                assert(whole[i as int] != prefix@[i as int]);
            }
            return false;
        }
        proof {
            assert(line@.subrange(0, i + 1) =~= line@.subrange(0, i as int).push(line@[i as int]));
            assert(prefix@.subrange(0, i + 1) =~= prefix@.subrange(0, i as int).push(
                prefix@[i as int],
            ));
        }
        i += 1;
    }
    proof {
        assert(prefix@.subrange(0, prefix.len() as int) =~= prefix@);
    }
    true
}

/// Where the name lies that follows `keyword` and whitespace at the start of `line`.
fn find_keyword_arg(line: &Vec<char>, keyword: &str) -> (r: Option<(usize, usize)>)
    ensures
        match keyword_arg(line@, keyword@) {
            Some((a, b)) => r == Some((a as usize, b as usize)) && 0 <= a < b <= line.len(),
            None => r is None,
        },
{
    let kw = chars_of(keyword);
    if !has_prefix(line, &kw) {
        return None;
    }
    let n = line.len();
    let a = scan(line, kw.len(), n, CharClass::Space);
    proof {
        lemma_run_end_bounds(line@, kw.len() as int, CharClass::Space);
    }
    if a == kw.len() || a >= n {
        return None;
    }
    let c = line[a];
    if !((c >= 'a' && c <= 'z') || (c >= 'A' && c <= 'Z') || c == '_') {
        return None;
    }
    let b = scan(line, a + 1, n, CharClass::IdentPart);
    proof {
        lemma_run_end_bounds(line@, a as int + 1, CharClass::IdentPart);
    }
    Some((a, b))
}

/// Parses one line, given without the whitespace at its ends.
pub fn parse_line(line: &Vec<char>) -> (r: Line)
    ensures
        r@ == parse_line_spec(line@),
{
    let n = line.len();
    if n == 0 {
        return Line::Skip;
    }
    let marker = chars_of("//");
    if has_prefix(line, &marker) {
        return Line::Skip;
    }
    match find_keyword_arg(line, "let") {
        Some((a, b)) => {
            let c = scan(line, b, n, CharClass::Space);
            proof {
                lemma_run_end_bounds(line@, b as int, CharClass::Space);
            }
            if c < n && line[c] == '=' && c + 1 < n - 1 && line[n - 1] == ';' {
                let name = string_of(line, a, b);
                let (from, to) = trim_range(line, c + 1, n - 1);
                let rhs = string_of(line, from, to);
                let quoted = to - from >= 2 && line[from] == '"' && line[to - 1] == '"';
                return if quoted {
                    match parse_string(rhs.as_str()) {
                        Ok(text) => Line::Stmt(Stmt::Let { name, expr: Expr::Str(text) }),
                        Err(e) => Line::Invalid(ParseErrorKind::BadString(e)),
                    }
                } else {
                    match parse_int_expr(rhs.as_str()) {
                        Ok(expr) => Line::Stmt(Stmt::Let { name, expr }),
                        Err(error) => Line::Invalid(
                            ParseErrorKind::BadExpression { text: rhs, error },
                        ),
                    }
                };
            }
        },
        None => {},
    }
    match find_keyword_arg(line, "print") {
        Some((a, b)) => {
            let c = scan(line, b, n, CharClass::Space);
            proof {
                lemma_run_end_bounds(line@, b as int, CharClass::Space);
            }
            if c == n - 1 && line[c] == ';' {
                return Line::Stmt(Stmt::Print { name: string_of(line, a, b) });
            }
        },
        None => {},
    }
    let text = string_of(line, 0, n);
    assert(line@.subrange(0, n as int) =~= line@);
    Line::Invalid(ParseErrorKind::UnrecognizedSyntax { text })
}

/// Entry point for turning source text into a program.
pub struct Parser;

impl Parser {
    /// Parses a whole program. The result is the statements of all lines in order, or the
    /// error of the first line that is no statement, with that line's number.
    pub fn parse(src: &str) -> (r: Result<Program, ParseError>)
        ensures
            match parse_spec(src@) {
                Ok(stmts) => r is Ok && r->Ok_0@ == stmts,
                Err(e) => r is Err && r->Err_0@ == e,
            },
    {
        let chars = chars_of(src);
        let n = chars.len();
        let mut stmts: Vec<Stmt> = Vec::new();
        let mut pos: usize = 0;
        let mut line_no: usize = 1;
        proof {
            assert(stmts_view(stmts@) =~= Seq::<StmtView>::empty());
            match parse_spec(src@) {
                Ok(all) => assert(Seq::<StmtView>::empty() + all =~= all),
                Err(_) => {},
            }
        }
        while pos < n
            invariant
                chars@ == src@,
                n == chars.len(),
                pos <= n,
                1 <= line_no <= pos + 1,
                parse_spec(src@) == and_then(
                    stmts_view(stmts@),
                    parse_from(src@, pos as int, line_no as nat),
                ),
            decreases n - pos,
        {
            let end = scan(&chars, pos, n, CharClass::Not('\n'));
            proof {
                lemma_run_end_bounds(chars@, pos as int, CharClass::Not('\n'));
            }
            let (from, to) = trim_range(&chars, pos, end);
            let line = chars_between(&chars, from, to);
            let ghost before = stmts_view(stmts@);
            let ghost tail = parse_from(src@, end as int + 1, line_no as nat + 1);
            match parse_line(&line) {
                Line::Skip => {},
                Line::Stmt(stmt) => {
                    proof {
                        match tail {
                            Ok(rest) => assert(before + (seq![stmt@] + rest) =~= before.push(stmt@)
                                + rest),
                            Err(_) => {},
                        }
                    }
                    stmts.push(stmt);
                    assert(stmts_view(stmts@) =~= before.push(stmt@));
                },
                Line::Invalid(kind) => {
                    return Err(ParseError { line: line_no, kind });
                },
            }
            if end >= n - 1 {
                proof {
                    assert(tail == Ok::<Seq<StmtView>, ParseErrorView>(Seq::empty()));
                    assert(stmts_view(stmts@) + Seq::<StmtView>::empty() =~= stmts_view(stmts@));
                }
                return Ok(Program { stmts });
            }
            pos = end + 1;
            line_no = line_no + 1;
        }
        proof {
            assert(stmts_view(stmts@) + Seq::<StmtView>::empty() =~= stmts_view(stmts@));
        }
        Ok(Program { stmts })
    }
}

/// Where the line with the number `k`, counted from 1, starts in `src`.
pub open spec fn line_start(src: Seq<char>, k: nat) -> int
    decreases k,
{
    if k <= 1 {
        0
    } else {
        run_end(src, line_start(src, (k - 1) as nat), CharClass::Not('\n')) + 1
    }
}

/// Whether `src` has a line with the number `k`.
pub open spec fn has_line(src: Seq<char>, k: nat) -> bool {
    k >= 1 && line_start(src, k) < src.len()
}

/// The line of `src` with the number `k`, without the whitespace at its ends.
pub open spec fn line_text(src: Seq<char>, k: nat) -> Seq<char> {
    let start = line_start(src, k);
    trim(src.subrange(start, run_end(src, start, CharClass::Not('\n'))))
}

/// A line starts inside the text or right behind it, unless an earlier line is missing too.
proof fn lemma_line_start_bounds(src: Seq<char>, k: nat)
    requires
        has_line(src, k),
    ensures
        0 <= line_start(src, k),
        forall|j: nat| 1 <= j <= k ==> 0 <= #[trigger] line_start(src, j) < src.len(),
    decreases k,
{
    if k > 1 {
        let before = line_start(src, (k - 1) as nat);
        lemma_line_start_nonnegative(src, (k - 1) as nat);
        if before >= src.len() {
            assert(run_end(src, before, CharClass::Not('\n')) == before);
        }
        lemma_run_end_bounds(src, before, CharClass::Not('\n'));
        lemma_line_start_bounds(src, (k - 1) as nat);
        assert forall|j: nat| 1 <= j <= k implies 0 <= #[trigger] line_start(src, j)
            < src.len() by {
            if j < k {
                assert(0 <= line_start(src, j) < src.len());
            }
        }
    }
}

/// No line starts before the text.
proof fn lemma_line_start_nonnegative(src: Seq<char>, k: nat)
    ensures
        0 <= line_start(src, k),
    decreases k,
{
    if k > 1 {
        let before = line_start(src, (k - 1) as nat);
        lemma_line_start_nonnegative(src, (k - 1) as nat);
        if before <= src.len() {
            lemma_run_end_bounds(src, before, CharClass::Not('\n'));
        }
    }
}

/// Parsing from line `j` on reports line `k` if that is the first line in error from `j` on.
proof fn lemma_first_error_from(src: Seq<char>, j: nat, k: nat)
    requires
        1 <= j <= k,
        has_line(src, k),
        forall|i: nat| j <= i < k ==> !(#[trigger] parse_line_spec(line_text(src, i)) is Invalid),
        parse_line_spec(line_text(src, k)) is Invalid,
    ensures
        parse_from(src, line_start(src, j), j) == Err::<Seq<StmtView>, ParseErrorView>(
            ParseErrorView { line: k, kind: parse_line_spec(line_text(src, k))->Invalid_0 },
        ),
    decreases k - j,
{
    lemma_line_start_bounds(src, k);
    assert(0 <= line_start(src, j) < src.len());
    if j < k {
        assert(!(parse_line_spec(line_text(src, j)) is Invalid));
        assert(line_start(src, j + 1) == run_end(src, line_start(src, j), CharClass::Not('\n'))
            + 1);
        lemma_first_error_from(src, j + 1, k);
    }
}

/// The first line in error is the line that is reported: if the line with the number `k`
/// is no statement, no comment and not empty, and no line before it is in error, then
/// parsing fails with the number `k` and with what is wrong with that line.
pub proof fn law_error_names_first_bad_line(src: Seq<char>, k: nat)
    requires
        has_line(src, k),
        forall|i: nat| 1 <= i < k ==> !(#[trigger] parse_line_spec(line_text(src, i)) is Invalid),
        parse_line_spec(line_text(src, k)) is Invalid,
    ensures
        parse_spec(src) == Err::<Seq<StmtView>, ParseErrorView>(
            ParseErrorView { line: k, kind: parse_line_spec(line_text(src, k))->Invalid_0 },
        ),
{
    lemma_first_error_from(src, 1, k);
}

/// A line that does not end in `;` is no statement: unless it is empty or a comment, it
/// is in error, and the error holds the line.
pub proof fn law_missing_semicolon(line: Seq<char>)
    requires
        line.len() > 0,
        !starts_with(line, "//"@),
        line.last() != ';',
    ensures
        parse_line_spec(line) == LineView::Invalid(
            ParseErrorKindView::UnrecognizedSyntax { text: line },
        ),
{
    if let Some((a, b)) = keyword_arg(line, "print"@) {
        let c = run_end(line, b, CharClass::Space);
        if c == line.len() - 1 {
            assert(line[c] == line.last());
        }
    }
}

/// A line that begins with neither `let` nor `print` is no statement: unless it is empty
/// or a comment, it is in error, and the error holds the line.
pub proof fn law_unknown_keyword(line: Seq<char>)
    requires
        line.len() > 0,
        !starts_with(line, "//"@),
        !starts_with(line, "let"@),
        !starts_with(line, "print"@),
    ensures
        parse_line_spec(line) == LineView::Invalid(
            ParseErrorKindView::UnrecognizedSyntax { text: line },
        ),
{
}

/// A line without its `;`, or with an unknown keyword, makes parsing fail with the number
/// and the text of that line, provided that no line before it is in error.
pub proof fn law_bad_line_is_reported(src: Seq<char>, k: nat)
    requires
        has_line(src, k),
        forall|i: nat| 1 <= i < k ==> !(#[trigger] parse_line_spec(line_text(src, i)) is Invalid),
        line_text(src, k).len() > 0,
        !starts_with(line_text(src, k), "//"@),
        line_text(src, k).last() != ';' || (!starts_with(line_text(src, k), "let"@)
            && !starts_with(line_text(src, k), "print"@)),
    ensures
        parse_spec(src) == Err::<Seq<StmtView>, ParseErrorView>(
            ParseErrorView {
                line: k,
                kind: ParseErrorKindView::UnrecognizedSyntax { text: line_text(src, k) },
            },
        ),
{
    if line_text(src, k).last() != ';' {
        law_missing_semicolon(line_text(src, k));
    } else {
        law_unknown_keyword(line_text(src, k));
    }
    law_error_names_first_bad_line(src, k);
}

} // verus!
