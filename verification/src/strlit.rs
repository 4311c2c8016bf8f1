//! String literals: text between double quotes with the escapes `\n`, `\t`, `\"` and `\\`.

use crate::text::chars_of;
use vstd::prelude::*;

verus! {

/// Why a text is no string literal.
#[derive(Clone, Copy, Debug, PartialEq, Eq, Structural)]
pub enum StringError {
    /// The text is not enclosed in double quotes.
    NotAStringLiteral,
    /// A backslash is followed by this character, which names no escape.
    UnsupportedEscape(char),
    /// The text between the quotes ends in a single backslash.
    DanglingBackslash,
}

impl StringError {
    /// The error in words.
    pub open spec fn message_spec(self) -> Seq<char> {
        match self {
            StringError::NotAStringLiteral => "not a string literal"@,
            StringError::UnsupportedEscape(c) => "unsupported escape \\"@.push(c),
            StringError::DanglingBackslash => "dangling backslash"@,
        }
    }

    /// The error in words.
    pub fn message(&self) -> (text: String)
        ensures
            text@ == self.message_spec(),
    {
        match self {
            StringError::NotAStringLiteral => String::from_str("not a string literal"),
            StringError::UnsupportedEscape(c) => {
                let mut text = String::from_str("unsupported escape \\");
                text.push(*c);
                text
            },
            StringError::DanglingBackslash => String::from_str("dangling backslash"),
        }
    }
}

/// Whether `s` is enclosed in double quotes: it has an opening quote and a closing one.
pub open spec fn is_quoted(s: Seq<char>) -> bool {
    s.len() >= 2 && s[0] == '"' && s.last() == '"'
}

/// The character that follows a backslash stands for.
pub open spec fn escape(c: char) -> Option<char> {
    if c == 'n' {
        Some('\n')
    } else if c == 't' {
        Some('\t')
    } else if c == '"' {
        Some('"')
    } else if c == '\\' {
        Some('\\')
    } else {
        None
    }
}

/// `text` put in front of a result.
pub open spec fn prepend(text: Seq<char>, r: Result<Seq<char>, StringError>) -> Result<
    Seq<char>,
    StringError,
> {
    match r {
        Ok(rest) => Ok(text + rest),
        Err(e) => Err(e),
    }
}

/// The text that `body` denotes: every escape replaced by its character, everything else
/// kept. The first escape that is not supported, or a backslash at the very end, is the
/// error.
pub open spec fn unescape(body: Seq<char>) -> Result<Seq<char>, StringError>
    decreases body.len(),
{
    if body.len() == 0 {
        Ok(Seq::empty())
    } else if body[0] != '\\' {
        prepend(seq![body[0]], unescape(body.skip(1)))
    } else if body.len() == 1 {
        Err(StringError::DanglingBackslash)
    } else {
        match escape(body[1]) {
            Some(c) => prepend(seq![c], unescape(body.skip(2))),
            None => Err(StringError::UnsupportedEscape(body[1])),
        }
    }
}

/// The text that the literal `s` denotes.
pub open spec fn parse_string_spec(s: Seq<char>) -> Result<Seq<char>, StringError> {
    if is_quoted(s) {
        unescape(s.subrange(1, s.len() - 1))
    } else {
        Err(StringError::NotAStringLiteral)
    }
}

/// Parses a string literal, quotes included, and gives the text it denotes.
pub fn parse_string(s: &str) -> (r: Result<String, StringError>)
    ensures
        match parse_string_spec(s@) {
            Ok(text) => r is Ok && r->Ok_0@ == text,
            Err(e) => r == Err::<String, StringError>(e),
        },
{
    let chars = chars_of(s);
    let n = chars.len();
    if !(n >= 2 && chars[0] == '"' && chars[n - 1] == '"') {
        return Err(StringError::NotAStringLiteral);
    }
    let ghost body = chars@.subrange(1, n - 1);
    let mut out = String::new();
    let mut i: usize = 1;
    proof {
        assert(body.skip(0) =~= body);
        match unescape(body) {
            Ok(text) => assert(out@ + text =~= text),
            Err(_) => {},
        }
    }
    while i < n - 1
        invariant
            1 <= i <= n - 1,
            n == chars.len(),
            chars@ == s@,
            is_quoted(s@),
            body == chars@.subrange(1, n - 1),
            unescape(body) == prepend(out@, unescape(body.skip(i - 1))),
        decreases n - i,
    {
        let ghost tail = body.skip(i - 1);
        let ghost before = out@;
        let c = chars[i];
        assert(tail[0] == c);
        if c != '\\' {
            out.push(c);
            i += 1;
            proof {
                assert(tail.skip(1) =~= body.skip(i - 1));
                assert(before + (seq![c] + tail.skip(1)) =~= before.push(c) + tail.skip(1));
                assert(forall|rest: Seq<char>|
                    before + (seq![c] + rest) =~= #[trigger] (before.push(c) + rest));
            }
        } else if i + 1 >= n - 1 {
            return Err(StringError::DanglingBackslash);
        } else {
            let e = chars[i + 1];
            assert(tail[1] == e);
            let decoded = if e == 'n' {
                '\n'
            } else if e == 't' {
                '\t'
            } else if e == '"' {
                '"'
            } else if e == '\\' {
                '\\'
            } else {
                return Err(StringError::UnsupportedEscape(e));
            };
            out.push(decoded);
            i += 2;
            proof {
                assert(tail.skip(2) =~= body.skip(i - 1));
                assert(forall|rest: Seq<char>|
                    before + (seq![decoded] + rest) =~= #[trigger] (before.push(decoded) + rest));
            }
        }
    }
    proof {
        assert(body.skip(i - 1) =~= Seq::<char>::empty());
        assert(out@ + Seq::<char>::empty() =~= out@);
    }
    Ok(out)
}

} // verus!
