//! The lexer: source text as a sequence of tokens.

use vstd::prelude::*;
use vstd::string::{StrSliceExecFns, StringSliceAdditionalSpecFns};

verus! {

/// Punctuation and operators.
#[derive(Debug, Clone, Copy, PartialEq, Eq, Structural)]
pub enum Symbol {
    LParen,
    RParen,
    LBrace,
    RBrace,
    Comma,
    Semi,
    Colon,
    Arrow,
    Assign,
    EqEq,
    Bang,
    NotEq,
    Less,
    LessEq,
    Greater,
    GreaterEq,
    Plus,
    Minus,
    Star,
    Slash,
    Percent,
    AndAnd,
    OrOr,
    Amp,
}

/// One token of the source text.
#[derive(Debug, PartialEq, Eq)]
pub enum Token {
    Number(i32),
    /// A name or a keyword.
    Word(String),
    Sym(Symbol),
}

/// A token as a mathematical value.
pub ghost enum Tok {
    Number(i32),
    Word(Seq<char>),
    Sym(Symbol),
}

impl View for Token {
    type V = Tok;

    open spec fn view(&self) -> Tok {
        match self {
            Token::Number(n) => Tok::Number(*n),
            Token::Word(w) => Tok::Word(w@),
            Token::Sym(s) => Tok::Sym(*s),
        }
    }
}

/// The views of a list of tokens, in order.
pub open spec fn tokens_view(ts: Seq<Token>) -> Seq<Tok> {
    Seq::new(ts.len(), |i: int| ts[i]@)
}

/// Why a text is no program.
#[derive(Debug, Clone, Copy, PartialEq, Eq, Structural)]
pub enum ParseError {
    /// A character that starts no token, at this position of the text.
    BadCharacter(usize),
    /// A number that does not fit in 32 bits, at this position of the text.
    NumberTooLarge(usize),
    /// A token that cannot stand where it stands, at this position of the
    /// token sequence; the position after the last token where the text
    /// ends too early.
    Unexpected(usize),
}

/// Whether the character separates tokens.
pub open spec fn is_space(c: char) -> bool {
    c == ' ' || c == '\n' || c == '\t' || c == '\r'
}

/// Whether the character is a decimal digit.
pub open spec fn is_digit(c: char) -> bool {
    '0' <= c <= '9'
}

/// Whether the character can start a word.
pub open spec fn is_word_start(c: char) -> bool {
    ('a' <= c <= 'z') || ('A' <= c <= 'Z') || c == '_'
}

/// Whether the character can continue a word.
pub open spec fn is_word_char(c: char) -> bool {
    is_word_start(c) || is_digit(c)
}

/// The end of the run of digits that starts at `i`.
pub open spec fn digits_end(s: Seq<char>, i: int) -> int
    decreases s.len() - i,
{
    if 0 <= i < s.len() && is_digit(s[i]) {
        digits_end(s, i + 1)
    } else {
        i
    }
}

/// The end of the run of word characters that starts at `i`.
pub open spec fn word_end(s: Seq<char>, i: int) -> int
    decreases s.len() - i,
{
    if 0 <= i < s.len() && is_word_char(s[i]) {
        word_end(s, i + 1)
    } else {
        i
    }
}

/// The number that the digits from `from` up to `to` spell, cut off at the
/// first position where it would exceed 32 bits: `None` where it does.
pub open spec fn number_value(s: Seq<char>, from: int, to: int) -> Option<int>
    decreases to - from,
{
    if to <= from {
        Some(0)
    } else {
        match number_value(s, from, to - 1) {
            Some(v) => if v * 10 + (s[to - 1] as int - '0' as int) <= i32::MAX {
                Some(v * 10 + (s[to - 1] as int - '0' as int))
            } else {
                None
            },
            None => None,
        }
    }
}

/// The symbol that starts at `i`, with its length. Symbols of two
/// characters go before those of one.
pub open spec fn symbol_at(s: Seq<char>, i: int) -> Option<(Symbol, int)> {
    let c = s[i];
    let d = if i + 1 < s.len() {
        s[i + 1]
    } else {
        ' '
    };
    if c == '-' && d == '>' {
        Some((Symbol::Arrow, 2))
    } else if c == '=' && d == '=' {
        Some((Symbol::EqEq, 2))
    } else if c == '!' && d == '=' {
        Some((Symbol::NotEq, 2))
    } else if c == '<' && d == '=' {
        Some((Symbol::LessEq, 2))
    } else if c == '>' && d == '=' {
        Some((Symbol::GreaterEq, 2))
    } else if c == '&' && d == '&' {
        Some((Symbol::AndAnd, 2))
    } else if c == '|' && d == '|' {
        Some((Symbol::OrOr, 2))
    } else if c == '(' {
        Some((Symbol::LParen, 1))
    } else if c == ')' {
        Some((Symbol::RParen, 1))
    } else if c == '{' {
        Some((Symbol::LBrace, 1))
    } else if c == '}' {
        Some((Symbol::RBrace, 1))
    } else if c == ',' {
        Some((Symbol::Comma, 1))
    } else if c == ';' {
        Some((Symbol::Semi, 1))
    } else if c == ':' {
        Some((Symbol::Colon, 1))
    } else if c == '=' {
        Some((Symbol::Assign, 1))
    } else if c == '!' {
        Some((Symbol::Bang, 1))
    } else if c == '<' {
        Some((Symbol::Less, 1))
    } else if c == '>' {
        Some((Symbol::Greater, 1))
    } else if c == '+' {
        Some((Symbol::Plus, 1))
    } else if c == '-' {
        Some((Symbol::Minus, 1))
    } else if c == '*' {
        Some((Symbol::Star, 1))
    } else if c == '/' {
        Some((Symbol::Slash, 1))
    } else if c == '%' {
        Some((Symbol::Percent, 1))
    } else if c == '&' {
        Some((Symbol::Amp, 1))
    } else {
        None
    }
}

/// A run ends at or after its start, within the text.
pub proof fn lemma_run_ends(s: Seq<char>, i: int)
    requires
        0 <= i <= s.len(),
    ensures
        i <= digits_end(s, i) <= s.len(),
        i <= word_end(s, i) <= s.len(),
        i < s.len() && is_digit(s[i]) ==> i < digits_end(s, i),
        i < s.len() && is_word_char(s[i]) ==> i < word_end(s, i),
    decreases s.len() - i,
{
    if i < s.len() {
        lemma_run_ends(s, i + 1);
    }
}

/// The tokens of the text from position `i` on; `acc` holds the tokens
/// found so far. Spaces separate tokens; a number is a run of digits; a
/// word is a letter or `_` and the run of letters, digits and `_` after it.
pub open spec fn lex(s: Seq<char>, i: int, acc: Seq<Tok>) -> Result<Seq<Tok>, ParseError>
    decreases s.len() - i,
{
    if i < 0 || i >= s.len() {
        Ok(acc)
    } else if is_space(s[i]) {
        lex(s, i + 1, acc)
    } else if is_digit(s[i]) {
        proof {
            lemma_run_ends(s, i);
        }
        let e = digits_end(s, i);
        match number_value(s, i, e) {
            Some(v) => lex(s, e, acc.push(Tok::Number(v as i32))),
            None => Err(ParseError::NumberTooLarge(i as usize)),
        }
    } else if is_word_start(s[i]) {
        proof {
            lemma_run_ends(s, i);
        }
        let e = word_end(s, i);
        lex(s, e, acc.push(Tok::Word(s.subrange(i, e))))
    } else {
        match symbol_at(s, i) {
            Some((sym, n)) => lex(s, i + n, acc.push(Tok::Sym(sym))),
            None => Err(ParseError::BadCharacter(i as usize)),
        }
    }
}

/// The tokens of a text.
pub open spec fn tokens_of(s: Seq<char>) -> Result<Seq<Tok>, ParseError> {
    lex(s, 0, Seq::empty())
}

/// The characters of a text of ASCII characters, one for each byte.
fn ascii_chars_of(text: &str) -> (r: Vec<char>)
    requires
        text.is_ascii(),
    ensures
        r@ == text@,
{
    broadcast use vstd::string::is_ascii_spec_bytes;

    let bytes = text.as_bytes();
    let n = bytes.len();
    let mut out: Vec<char> = Vec::new();
    let mut i: usize = 0;
    while i < n
        invariant
            n == text@.len(),
            bytes@ == text.spec_bytes(),
            text.is_ascii(),
            bytes@ == Seq::new(text@.len(), |k: int| text@.index(k) as u8),
            i <= n,
            out@ == text@.subrange(0, i as int),
        decreases n - i,
    {
        let b = bytes[i];
        assert(b == text@[i as int] as u8);
        assert(vstd::utf8::is_ascii_chars(text@));
        out.push(b as char);
        assert(out@ =~= text@.subrange(0, i + 1));
        i += 1;
    }
    assert(out@ =~= text@);
    out
}

/// The characters of a text.
fn chars_of(text: &str) -> (r: Vec<char>)
    ensures
        r@ == text@,
{
    let n = text.unicode_len();
    let mut out: Vec<char> = Vec::new();
    let mut i: usize = 0;
    while i < n
        invariant
            n == text@.len(),
            i <= n,
            out@ == text@.subrange(0, i as int),
        decreases n - i,
    {
        out.push(text.get_char(i));
        assert(out@ =~= text@.subrange(0, i + 1));
        i += 1;
    }
    assert(out@ =~= text@);
    out
}

fn space(c: char) -> (r: bool)
    ensures
        r == is_space(c),
{
    c == ' ' || c == '\n' || c == '\t' || c == '\r'
}

fn digit(c: char) -> (r: bool)
    ensures
        r == is_digit(c),
{
    '0' <= c && c <= '9'
}

fn word_start(c: char) -> (r: bool)
    ensures
        r == is_word_start(c),
{
    ('a' <= c && c <= 'z') || ('A' <= c && c <= 'Z') || c == '_'
}

/// The symbol that starts at position `i`.
fn read_symbol(s: &Vec<char>, i: usize) -> (r: Option<(Symbol, usize)>)
    requires
        i < s.len(),
    ensures
        match r {
            Some((sym, n)) => symbol_at(s@, i as int) == Some((sym, n as int)) && 1 <= n <= 2 && i
                + n <= s.len(),
            None => symbol_at(s@, i as int) is None,
        },
{
    let c = s[i];
    let d = if i + 1 < s.len() {
        s[i + 1]
    } else {
        ' '
    };
    if c == '-' && d == '>' {
        Some((Symbol::Arrow, 2))
    } else if c == '=' && d == '=' {
        Some((Symbol::EqEq, 2))
    } else if c == '!' && d == '=' {
        Some((Symbol::NotEq, 2))
    } else if c == '<' && d == '=' {
        Some((Symbol::LessEq, 2))
    } else if c == '>' && d == '=' {
        Some((Symbol::GreaterEq, 2))
    } else if c == '&' && d == '&' {
        Some((Symbol::AndAnd, 2))
    } else if c == '|' && d == '|' {
        Some((Symbol::OrOr, 2))
    } else if c == '(' {
        Some((Symbol::LParen, 1))
    } else if c == ')' {
        Some((Symbol::RParen, 1))
    } else if c == '{' {
        Some((Symbol::LBrace, 1))
    } else if c == '}' {
        Some((Symbol::RBrace, 1))
    } else if c == ',' {
        Some((Symbol::Comma, 1))
    } else if c == ';' {
        Some((Symbol::Semi, 1))
    } else if c == ':' {
        Some((Symbol::Colon, 1))
    } else if c == '=' {
        Some((Symbol::Assign, 1))
    } else if c == '!' {
        Some((Symbol::Bang, 1))
    } else if c == '<' {
        Some((Symbol::Less, 1))
    } else if c == '>' {
        Some((Symbol::Greater, 1))
    } else if c == '+' {
        Some((Symbol::Plus, 1))
    } else if c == '-' {
        Some((Symbol::Minus, 1))
    } else if c == '*' {
        Some((Symbol::Star, 1))
    } else if c == '/' {
        Some((Symbol::Slash, 1))
    } else if c == '%' {
        Some((Symbol::Percent, 1))
    } else if c == '&' {
        Some((Symbol::Amp, 1))
    } else {
        None
    }
}

/// Reads the number whose digits start at position `i`.
fn read_number(s: &Vec<char>, i: usize) -> (r: (Option<i32>, usize))
    requires
        i < s.len(),
        is_digit(s@[i as int]),
    ensures
        r.1 == digits_end(s@, i as int),
        i < r.1 <= s.len(),
        match r.0 {
            Some(v) => number_value(s@, i as int, r.1 as int) == Some(v as int),
            None => number_value(s@, i as int, r.1 as int) is None,
        },
{
    let mut e = i;
    let mut v: Option<i32> = Some(0);
    proof {
        lemma_run_ends(s@, i as int);
    }
    while e < s.len() && digit(s[e])
        invariant
            i <= e <= s.len(),
            digits_end(s@, i as int) == digits_end(s@, e as int),
            match v {
                Some(x) => x >= 0 && number_value(s@, i as int, e as int) == Some(x as int),
                None => number_value(s@, i as int, e as int) is None,
            },
        decreases s.len() - e,
    {
        let d: i64 = (s[e] as u32 - '0' as u32) as i64;
        v = match v {
            Some(x) => {
                let next: i64 = (x as i64) * 10 + d;
                if next <= 2147483647 {
                    Some(next as i32)
                } else {
                    None
                }
            },
            None => None,
        };
        e += 1;
    }
    (v, e)
}

/// The end of the word that starts at position `i`.
fn read_word(s: &Vec<char>, i: usize) -> (e: usize)
    requires
        i < s.len(),
        is_word_start(s@[i as int]),
    ensures
        e == word_end(s@, i as int),
        i < e <= s.len(),
{
    let mut e = i;
    proof {
        lemma_run_ends(s@, i as int);
    }
    while e < s.len() && (word_start(s[e]) || digit(s[e]))
        invariant
            i <= e <= s.len(),
            word_end(s@, i as int) == word_end(s@, e as int),
        decreases s.len() - e,
    {
        e += 1;
    }
    e
}

/// Splits a text into tokens.
pub fn tokenize(text: &str) -> (r: Result<Vec<Token>, ParseError>)
    ensures
        match r {
            Ok(ts) => tokens_of(text@) == Ok::<Seq<Tok>, ParseError>(tokens_view(ts@)),
            Err(e) => tokens_of(text@) == Err::<Seq<Tok>, ParseError>(e),
        },
{
    let ascii = text.is_ascii();
    let s = if ascii {
        ascii_chars_of(text)
    } else {
        chars_of(text)
    };
    let mut out: Vec<Token> = Vec::new();
    let mut i: usize = 0;
    assert(tokens_view(out@) =~= Seq::<Tok>::empty());
    while i < s.len()
        invariant
            s@ == text@,
            ascii ==> text.is_ascii(),
            i <= s.len(),
            tokens_of(text@) == lex(s@, i as int, tokens_view(out@)),
        decreases s.len() - i,
    {
        let c = s[i];
        let ghost acc = tokens_view(out@);
        if space(c) {
            i += 1;
        } else if digit(c) {
            let (v, e) = read_number(&s, i);
            match v {
                Some(n) => {
                    out.push(Token::Number(n));
                    assert(tokens_view(out@) =~= acc.push(Tok::Number(n)));
                    i = e;
                },
                None => {
                    return Err(ParseError::NumberTooLarge(i));
                },
            }
        } else if word_start(c) {
            let e = read_word(&s, i);
            let w = if ascii {
                text.substring_ascii(i, e).to_owned()
            } else {
                text.substring_char(i, e).to_owned()
            };
            out.push(Token::Word(w));
            assert(tokens_view(out@) =~= acc.push(Tok::Word(s@.subrange(i as int, e as int))));
            i = e;
        } else {
            match read_symbol(&s, i) {
                Some((sym, n)) => {
                    out.push(Token::Sym(sym));
                    assert(tokens_view(out@) =~= acc.push(Tok::Sym(sym)));
                    i = i + n;
                },
                None => {
                    return Err(ParseError::BadCharacter(i));
                },
            }
        }
    }
    Ok(out)
}

} // verus!
