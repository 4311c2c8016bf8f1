//! Characters and runs of characters: the classes that the grammar is written in,
//! trimming, and conversions between strings and vectors of characters.

use vstd::prelude::*;

verus! {

/// `String::push` appends one character.
pub assume_specification[ String::push ](s: &mut String, ch: char)
    ensures
        final(s)@ == old(s)@.push(ch),
;

/// The classes of characters that the grammar scans in runs.
#[derive(Clone, Copy, Debug, PartialEq, Eq, Structural)]
pub enum CharClass {
    /// ASCII whitespace: space, tab, line feed, form feed, carriage return.
    Blank,
    /// Unicode whitespace.
    Space,
    /// `0` to `9`.
    Digit,
    /// ASCII letters, digits and `_`.
    IdentPart,
    /// Every character but the given one.
    Not(char),
}

/// The ASCII whitespace characters.
pub open spec fn is_blank(c: char) -> bool {
    c == ' ' || c == '\t' || c == '\n' || c == '\x0C' || c == '\r'
}

/// The characters with the Unicode property `White_Space`.
pub open spec fn is_space(c: char) -> bool {
    ('\u{9}' <= c && c <= '\u{D}') || c == ' ' || c == '\u{85}' || c == '\u{A0}' || c
        == '\u{1680}' || ('\u{2000}' <= c && c <= '\u{200A}') || c == '\u{2028}' || c
        == '\u{2029}' || c == '\u{202F}' || c == '\u{205F}' || c == '\u{3000}'
}

/// The ASCII digits.
pub open spec fn is_digit(c: char) -> bool {
    '0' <= c && c <= '9'
}

/// The characters that a name can start with: ASCII letters and `_`.
pub open spec fn is_ident_start(c: char) -> bool {
    ('a' <= c && c <= 'z') || ('A' <= c && c <= 'Z') || c == '_'
}

/// The characters that a name can go on with: ASCII letters, digits and `_`.
pub open spec fn is_ident_part(c: char) -> bool {
    is_ident_start(c) || is_digit(c)
}

/// Whether `c` belongs to `class`.
pub open spec fn in_class(c: char, class: CharClass) -> bool {
    match class {
        CharClass::Blank => is_blank(c),
        CharClass::Space => is_space(c),
        CharClass::Digit => is_digit(c),
        CharClass::IdentPart => is_ident_part(c),
        CharClass::Not(other) => c != other,
    }
}

/// The end of the longest run of characters of `class` that starts at `i`.
pub open spec fn run_end(s: Seq<char>, i: int, class: CharClass) -> int
    decreases s.len() - i,
{
    if 0 <= i < s.len() && in_class(s[i], class) {
        run_end(s, i + 1, class)
    } else {
        i
    }
}

/// The start of the longest run of characters of `class` that ends at `j`.
pub open spec fn run_start(s: Seq<char>, j: int, class: CharClass) -> int
    decreases j,
{
    if 0 < j <= s.len() && in_class(s[j - 1], class) {
        run_start(s, j - 1, class)
    } else {
        j
    }
}

/// `s` without the Unicode whitespace at its two ends.
pub open spec fn trim(s: Seq<char>) -> Seq<char> {
    let from = run_end(s, 0, CharClass::Space);
    if from >= s.len() {
        Seq::empty()
    } else {
        s.subrange(from, run_start(s, s.len() as int, CharClass::Space))
    }
}

/// Whether `s` begins with `prefix`.
pub open spec fn starts_with(s: Seq<char>, prefix: Seq<char>) -> bool {
    prefix.len() <= s.len() && s.subrange(0, prefix.len() as int) == prefix
}

/// A run ends inside the text and not before its start.
pub proof fn lemma_run_end_bounds(s: Seq<char>, i: int, class: CharClass)
    requires
        0 <= i <= s.len(),
    ensures
        i <= run_end(s, i, class) <= s.len(),
    decreases s.len() - i,
{
    if i < s.len() && in_class(s[i], class) {
        lemma_run_end_bounds(s, i + 1, class);
    }
}

/// Every character of a run belongs to the run's class.
pub proof fn lemma_run_is_class(s: Seq<char>, i: int, class: CharClass)
    requires
        0 <= i <= s.len(),
    ensures
        forall|k: int| i <= k < run_end(s, i, class) ==> in_class(#[trigger] s[k], class),
    decreases s.len() - i,
{
    if i < s.len() && in_class(s[i], class) {
        lemma_run_is_class(s, i + 1, class);
    }
}

/// A run that ends at `j` starts inside the text and not after `j`.
pub proof fn lemma_run_start_bounds(s: Seq<char>, j: int, class: CharClass)
    requires
        0 <= j <= s.len(),
    ensures
        0 <= run_start(s, j, class) <= j,
    decreases j,
{
    if 0 < j && in_class(s[j - 1], class) {
        lemma_run_start_bounds(s, j - 1, class);
    }
}

/// Scanning a stretch of a text is scanning the text, as long as the run ends inside
/// the stretch.
pub proof fn lemma_run_end_within(s: Seq<char>, from: int, to: int, i: int, class: CharClass)
    requires
        0 <= from <= i <= to <= s.len(),
    ensures
        run_end(s.subrange(from, to), i - from, class) + from == if run_end(s, i, class) <= to {
            run_end(s, i, class)
        } else {
            to
        },
    decreases to - i,
{
    let part = s.subrange(from, to);
    lemma_run_end_bounds(s, i, class);
    if i < to && in_class(s[i], class) {
        assert(part[i - from] == s[i]);
        lemma_run_end_within(s, from, to, i + 1, class);
        lemma_run_end_bounds(s, i + 1, class);
    }
}

/// A run that ends before the end of the text ends at a character outside its class.
pub proof fn lemma_run_end_stops(s: Seq<char>, i: int, class: CharClass)
    requires
        0 <= i <= s.len(),
    ensures
        run_end(s, i, class) < s.len() ==> !in_class(s[run_end(s, i, class)], class),
    decreases s.len() - i,
{
    if i < s.len() && in_class(s[i], class) {
        lemma_run_end_stops(s, i + 1, class);
    }
}

/// A run that ends at `j` does not reach back over a character outside its class.
pub proof fn lemma_run_start_after(s: Seq<char>, k: int, j: int, class: CharClass)
    requires
        0 <= k < j <= s.len(),
        !in_class(s[k], class),
    ensures
        k < run_start(s, j, class) <= j,
    decreases j,
{
    if in_class(s[j - 1], class) {
        lemma_run_start_after(s, k, j - 1, class);
    }
}

/// Scanning a stretch of a text backwards is scanning the text backwards, as long as the
/// run starts inside the stretch.
pub proof fn lemma_run_start_within(s: Seq<char>, from: int, to: int, j: int, class: CharClass)
    requires
        0 <= from <= j <= to <= s.len(),
    ensures
        run_start(s.subrange(from, to), j - from, class) + from == if run_start(s, j, class)
            >= from {
            run_start(s, j, class)
        } else {
            from
        },
    decreases j - from,
{
    let part = s.subrange(from, to);
    lemma_run_start_bounds(s, j, class);
    if from < j && in_class(s[j - 1], class) {
        assert(part[j - 1 - from] == s[j - 1]);
        lemma_run_start_within(s, from, to, j - 1, class);
        lemma_run_start_bounds(s, j - 1, class);
    }
}

/// Whether `c` belongs to `class`.
pub fn has_class(c: char, class: CharClass) -> (r: bool)
    ensures
        r == in_class(c, class),
{
    match class {
        CharClass::Blank => c == ' ' || c == '\t' || c == '\n' || c == '\x0C' || c == '\r',
        CharClass::Space => (c >= '\u{9}' && c <= '\u{D}') || c == ' ' || c == '\u{85}' || c
            == '\u{A0}' || c == '\u{1680}' || (c >= '\u{2000}' && c <= '\u{200A}') || c
            == '\u{2028}' || c == '\u{2029}' || c == '\u{202F}' || c == '\u{205F}' || c
            == '\u{3000}',
        CharClass::Digit => c >= '0' && c <= '9',
        CharClass::IdentPart => (c >= 'a' && c <= 'z') || (c >= 'A' && c <= 'Z') || c == '_' || (
        c >= '0' && c <= '9'),
        CharClass::Not(other) => c != other,
    }
}

/// The end of the run of `class` characters that starts at `i`, looking no further than `to`.
pub fn scan(s: &Vec<char>, i: usize, to: usize, class: CharClass) -> (j: usize)
    requires
        i <= to <= s.len(),
    ensures
        i <= j <= to,
        j == if run_end(s@, i as int, class) <= to {
            run_end(s@, i as int, class)
        } else {
            to as int
        },
{
    let mut j: usize = i;
    while j < to && has_class(s[j], class)
        invariant
            i <= j <= to <= s.len(),
            run_end(s@, i as int, class) == run_end(s@, j as int, class),
        decreases to - j,
    {
        j += 1;
    }
    proof {
        lemma_run_end_bounds(s@, j as int, class);
    }
    j
}

/// The start of the run of `class` characters that ends at `j`, looking no further back
/// than `from`.
pub fn scan_back(s: &Vec<char>, from: usize, j: usize, class: CharClass) -> (i: usize)
    requires
        from <= j <= s.len(),
    ensures
        from <= i <= j,
        i == if run_start(s@, j as int, class) >= from {
            run_start(s@, j as int, class)
        } else {
            from as int
        },
{
    let mut i: usize = j;
    while i > from && has_class(s[i - 1], class)
        invariant
            from <= i <= j <= s.len(),
            run_start(s@, j as int, class) == run_start(s@, i as int, class),
        decreases i,
    {
        i -= 1;
    }
    proof {
        lemma_run_start_bounds(s@, i as int, class);
    }
    i
}

/// The bounds of the stretch from `from` up to `to` without the whitespace at its ends.
pub fn trim_range(s: &Vec<char>, from: usize, to: usize) -> (bounds: (usize, usize))
    requires
        from <= to <= s.len(),
    ensures
        from <= bounds.0 <= bounds.1 <= to,
        s@.subrange(bounds.0 as int, bounds.1 as int) == trim(s@.subrange(from as int, to as int)),
{
    let a = scan(s, from, to, CharClass::Space);
    proof {
        lemma_run_end_within(s@, from as int, to as int, from as int, CharClass::Space);
    }
    if a >= to {
        assert(s@.subrange(to as int, to as int) =~= Seq::<char>::empty());
        return (to, to);
    }
    let b = scan_back(s, a, to, CharClass::Space);
    proof {
        let part = s@.subrange(from as int, to as int);
        lemma_run_end_stops(s@, from as int, CharClass::Space);
        lemma_run_start_after(s@, a as int, to as int, CharClass::Space);
        lemma_run_start_within(s@, from as int, to as int, to as int, CharClass::Space);
        assert(part.subrange(a - from, b - from) =~= s@.subrange(a as int, b as int));
    }
    (a, b)
}

/// The characters of `s`.
pub fn chars_of(s: &str) -> (v: Vec<char>)
    ensures
        v@ == s@,
{
    let mut v: Vec<char> = Vec::new();
    for c in it: s.chars()
        invariant
            it.seq() == s@,
            v@ == it.seq().take(it.index()),
    {
        v.push(c);
    }
    v
}

/// The characters of `v` from `from` up to `to`.
pub fn chars_between(v: &Vec<char>, from: usize, to: usize) -> (part: Vec<char>)
    requires
        from <= to <= v.len(),
    ensures
        part@ == v@.subrange(from as int, to as int),
{
    let mut part: Vec<char> = Vec::new();
    let mut i: usize = from;
    while i < to
        invariant
            from <= i <= to <= v.len(),
            part@ == v@.subrange(from as int, i as int),
        decreases to - i,
    {
        part.push(v[i]);
        i += 1;
    }
    part
}

/// The string made of the characters of `v` from `from` up to `to`.
pub fn string_of(v: &Vec<char>, from: usize, to: usize) -> (s: String)
    requires
        from <= to <= v.len(),
    ensures
        s@ == v@.subrange(from as int, to as int),
{
    let mut s = String::new();
    let mut i: usize = from;
    while i < to
        invariant
            from <= i <= to <= v.len(),
            s@ == v@.subrange(from as int, i as int),
        decreases to - i,
    {
        s.push(v[i]);
        i += 1;
    }
    s
}

/// The character of a digit.
pub open spec fn digit_char(d: nat) -> char {
    ((d + 48) as u8) as char
}

/// The digits of `n` in base ten, without leading zeros.
pub open spec fn decimal_digits(n: nat) -> Seq<char>
    decreases n,
{
    if n < 10 {
        seq![digit_char(n)]
    } else {
        decimal_digits(n / 10).push(digit_char(n % 10))
    }
}

/// Appends the digits of `n` in base ten to `s`.
pub fn push_decimal(s: &mut String, n: usize)
    ensures
        final(s)@ == old(s)@ + decimal_digits(n as nat),
    decreases n,
{
    if n >= 10 {
        push_decimal(s, n / 10);
    }
    let d: u8 = (n % 10) as u8;
    s.push((d + 48) as char);
    proof {
        if n >= 10 {
            assert(old(s)@ + decimal_digits((n / 10) as nat).push(digit_char((n % 10) as nat))
                =~= (old(s)@ + decimal_digits((n / 10) as nat)).push(digit_char((n % 10) as nat)));
        } else {
            assert(old(s)@ + seq![digit_char(n as nat)] =~= old(s)@.push(digit_char(n as nat)));
        }
    }
}

/// The number `v` in base ten, with a minus sign if it is negative.
pub open spec fn int_text(v: int) -> Seq<char> {
    if v < 0 {
        seq!['-'] + decimal_digits((-v) as nat)
    } else {
        decimal_digits(v as nat)
    }
}

/// Appends `v` in base ten to `s`.
pub fn push_int(s: &mut String, v: i32)
    ensures
        final(s)@ == old(s)@ + int_text(v as int),
{
    if v < 0 {
        s.push('-');
        let magnitude: u32 = if v == i32::MIN {
            2147483648
        } else {
            (-v) as u32
        };
        push_decimal(s, magnitude as usize);
        assert(s@ =~= old(s)@ + (seq!['-'] + decimal_digits((-v) as nat)));
    } else {
        push_decimal(s, v as usize);
    }
}

} // verus!
