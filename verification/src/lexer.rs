//! Tokens of arithmetic expressions and the lexer that yields them one at a time.

use crate::text::{
    chars_of, int_text, is_digit, is_ident_start, lemma_run_end_bounds, lemma_run_is_class,
    push_int, run_end, scan, string_of, CharClass,
};
use vstd::prelude::*;

verus! {

/// A token of an arithmetic expression.
#[derive(Debug, PartialEq, Eq)]
pub enum Tok {
    Int(i32),
    Ident(String),
    Plus,
    Minus,
    Star,
    Slash,
    LParen,
    RParen,
}

/// Mathematical value of a [`Tok`].
pub ghost enum TokView {
    Int(i32),
    Ident(Seq<char>),
    Plus,
    Minus,
    Star,
    Slash,
    LParen,
    RParen,
}

impl View for Tok {
    type V = TokView;

    open spec fn view(&self) -> TokView {
        match self {
            Tok::Int(v) => TokView::Int(*v),
            Tok::Ident(name) => TokView::Ident(name@),
            Tok::Plus => TokView::Plus,
            Tok::Minus => TokView::Minus,
            Tok::Star => TokView::Star,
            Tok::Slash => TokView::Slash,
            Tok::LParen => TokView::LParen,
            Tok::RParen => TokView::RParen,
        }
    }
}

impl Tok {
    /// The token as it is written.
    pub open spec fn text_spec(tok: TokView) -> Seq<char> {
        match tok {
            TokView::Int(v) => int_text(v as int),
            TokView::Ident(name) => name,
            TokView::Plus => "+"@,
            TokView::Minus => "-"@,
            TokView::Star => "*"@,
            TokView::Slash => "/"@,
            TokView::LParen => "("@,
            TokView::RParen => ")"@,
        }
    }

    /// The token as it is written.
    pub fn text(&self) -> (text: String)
        ensures
            text@ == Tok::text_spec(self@),
    {
        match self {
            Tok::Int(v) => {
                let mut text = String::new();
                push_int(&mut text, *v);
                assert(Seq::<char>::empty() + int_text(*v as int) =~= int_text(*v as int));
                text
            },
            Tok::Ident(name) => name.clone(),
            Tok::Plus => String::from_str("+"),
            Tok::Minus => String::from_str("-"),
            Tok::Star => String::from_str("*"),
            Tok::Slash => String::from_str("/"),
            Tok::LParen => String::from_str("("),
            Tok::RParen => String::from_str(")"),
        }
    }
}

impl Clone for Tok {
    fn clone(&self) -> (copy: Tok)
        ensures
            copy@ == self@,
    {
        match self {
            Tok::Int(v) => Tok::Int(*v),
            Tok::Ident(name) => Tok::Ident(name.clone()),
            Tok::Plus => Tok::Plus,
            Tok::Minus => Tok::Minus,
            Tok::Star => Tok::Star,
            Tok::Slash => Tok::Slash,
            Tok::LParen => Tok::LParen,
            Tok::RParen => Tok::RParen,
        }
    }
}

/// The number that a digit stands for.
pub open spec fn digit_value(c: char) -> nat {
    (c as nat - '0' as nat) as nat
}

/// The number that a sequence of digits denotes in base ten.
pub open spec fn decimal(digits: Seq<char>) -> nat
    decreases digits.len(),
{
    if digits.len() == 0 {
        0
    } else {
        10 * decimal(digits.drop_last()) + digit_value(digits.last())
    }
}

/// The token that starts at or after position `i`, blanks skipped, with the position that
/// follows it; `None` where the text ends, where a number does not fit 32 signed bits, and
/// where a character starts no token.
pub open spec fn token_at(s: Seq<char>, i: int) -> Option<(TokView, int)> {
    let j = run_end(s, i, CharClass::Blank);
    if !(0 <= j < s.len()) {
        None
    } else if is_digit(s[j]) {
        let k = run_end(s, j, CharClass::Digit);
        let value = decimal(s.subrange(j, k));
        if value <= i32::MAX {
            Some((TokView::Int(value as i32), k))
        } else {
            None
        }
    } else if is_ident_start(s[j]) {
        let k = run_end(s, j + 1, CharClass::IdentPart);
        Some((TokView::Ident(s.subrange(j, k)), k))
    } else if s[j] == '+' {
        Some((TokView::Plus, j + 1))
    } else if s[j] == '-' {
        Some((TokView::Minus, j + 1))
    } else if s[j] == '*' {
        Some((TokView::Star, j + 1))
    } else if s[j] == '/' {
        Some((TokView::Slash, j + 1))
    } else if s[j] == '(' {
        Some((TokView::LParen, j + 1))
    } else if s[j] == ')' {
        Some((TokView::RParen, j + 1))
    } else {
        None
    }
}

/// The tokens of `s` from position `i` up to where the lexer stops.
pub open spec fn tokens_from(s: Seq<char>, i: int) -> Seq<TokView>
    decreases s.len() - i,
{
    match token_at(s, i) {
        Some((tok, k)) => if i < k <= s.len() {
            seq![tok] + tokens_from(s, k)
        } else {
            seq![]
        },
        None => seq![],
    }
}

/// The tokens of `s`: all of them up to the end, or up to the first place where no token
/// starts.
pub open spec fn tokens(s: Seq<char>) -> Seq<TokView> {
    tokens_from(s, 0)
}

/// Every token is at least one character long and ends inside the text.
pub proof fn lemma_token_advances(s: Seq<char>, i: int)
    requires
        0 <= i <= s.len(),
    ensures
        match token_at(s, i) {
            Some((_, k)) => i < k <= s.len(),
            None => true,
        },
{
    let j = run_end(s, i, CharClass::Blank);
    lemma_run_end_bounds(s, i, CharClass::Blank);
    if j < s.len() {
        lemma_run_end_bounds(s, j + 1, CharClass::Digit);
        lemma_run_end_bounds(s, j + 1, CharClass::IdentPart);
    }
}

/// Lexer over the characters of one expression. It yields tokens until the text ends or
/// until a character starts no token; after that it yields nothing more.
pub struct Lexer {
    s: Vec<char>,
    i: usize,
    done: bool,
}

impl View for Lexer {
    type V = Seq<TokView>;

    /// The tokens that are still to come.
    closed spec fn view(&self) -> Seq<TokView> {
        if self.done {
            seq![]
        } else {
            tokens_from(self.s@, self.i as int)
        }
    }
}

impl Lexer {
    #[verifier::type_invariant]
    spec fn inv(&self) -> bool {
        self.i <= self.s.len()
    }

    /// A lexer at the start of `s`.
    pub fn new(s: &str) -> (lexer: Lexer)
        ensures
            lexer@ == tokens(s@),
    {
        Lexer { s: chars_of(s), i: 0, done: false }
    }

    /// The number that the digits from `from` up to `to` denote, if it fits 32 signed bits.
    fn number(s: &Vec<char>, from: usize, to: usize) -> (value: Option<i32>)
        requires
            from <= to <= s.len(),
            forall|k: int| from <= k < to ==> is_digit(#[trigger] s@[k]),
        ensures
            match value {
                Some(v) => v == decimal(s@.subrange(from as int, to as int)),
                None => decimal(s@.subrange(from as int, to as int)) > i32::MAX,
            },
    {
        let mut k: usize = from;
        let mut value: i64 = 0;
        let mut fits = true;
        while k < to
            invariant
                from <= k <= to <= s.len(),
                forall|k: int| from <= k < to ==> is_digit(#[trigger] s@[k]),
                fits ==> value == decimal(s@.subrange(from as int, k as int)) && 0 <= value
                    <= i32::MAX,
                !fits ==> decimal(s@.subrange(from as int, k as int)) > i32::MAX,
            decreases to - k,
        {
            let d: i64 = (s[k] as u32 - '0' as u32) as i64;
            proof {
                let wider = s@.subrange(from as int, k as int + 1);
                assert(wider.drop_last() =~= s@.subrange(from as int, k as int));
                assert(wider.last() == s@[k as int]);
            }
            if fits {
                let next = value * 10 + d;
                if next > i32::MAX as i64 {
                    fits = false;
                } else {
                    value = next;
                }
            }
            k += 1;
        }
        if fits {
            Some(value as i32)
        } else {
            None
        }
    }

    /// The next token, or `None` once the lexer has stopped.
    pub fn next(&mut self) -> (tok: Option<Tok>)
        ensures
            match tok {
                Some(t) => old(self)@ == seq![t@] + final(self)@,
                None => old(self)@ == Seq::<TokView>::empty() && final(self)@ == Seq::<
                    TokView,
                >::empty(),
            },
    {
        proof {
            use_type_invariant(&*self);
        }
        if self.done {
            return None;
        }
        let ghost start = self.i as int;
        let n = self.s.len();
        let j = scan(&self.s, self.i, n, CharClass::Blank);
        proof {
            lemma_token_advances(self.s@, start);
            lemma_run_end_bounds(self.s@, start, CharClass::Blank);
        }
        if j >= n {
            self.i = j;
            self.done = true;
            return None;
        }
        let c = self.s[j];
        if c >= '0' && c <= '9' {
            let k = scan(&self.s, j, n, CharClass::Digit);
            proof {
                lemma_run_end_bounds(self.s@, j as int, CharClass::Digit);
                lemma_run_is_class(self.s@, j as int, CharClass::Digit);
            }
            self.i = k;
            return match Self::number(&self.s, j, k) {
                Some(v) => Some(Tok::Int(v)),
                None => {
                    self.done = true;
                    None
                },
            };
        }
        if (c >= 'a' && c <= 'z') || (c >= 'A' && c <= 'Z') || c == '_' {
            let k = scan(&self.s, j + 1, n, CharClass::IdentPart);
            proof {
                lemma_run_end_bounds(self.s@, j as int + 1, CharClass::IdentPart);
            }
            let name = string_of(&self.s, j, k);
            self.i = k;
            return Some(Tok::Ident(name));
        }
        self.i = j + 1;
        if c == '+' {
            Some(Tok::Plus)
        } else if c == '-' {
            Some(Tok::Minus)
        } else if c == '*' {
            Some(Tok::Star)
        } else if c == '/' {
            Some(Tok::Slash)
        } else if c == '(' {
            Some(Tok::LParen)
        } else if c == ')' {
            Some(Tok::RParen)
        } else {
            self.done = true;
            None
        }
    }
}

} // verus!
