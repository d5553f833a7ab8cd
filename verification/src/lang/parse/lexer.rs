//! The tokens of a program text.

use vstd::prelude::*;

verus! {

/// The kinds of tokens of a program text.
#[derive(Clone, Copy, PartialEq, Eq, Debug, Structural)]
pub enum TokenKind {
    /// A run of letters, digits and underscores: a keyword, a name or a
    /// number.
    Word,
    /// `:=`
    Assign,
    /// `::`
    Scope,
    /// `(`
    LParen,
    /// `)`
    RParen,
    /// `{`
    LBrace,
    /// `}`
    RBrace,
    /// `,`
    Comma,
    /// `=`
    Equal,
    /// `!=`
    NotEqual,
    /// `<`
    Less,
    /// `<=`
    LessEqual,
    /// `>`
    Greater,
    /// `>=`
    GreaterEqual,
    /// `+-`
    PlusMinus,
    /// `+`
    Plus,
    /// `-`
    Minus,
    /// `*`
    Star,
    /// `/`
    Slash,
    /// `#` and the run of letters and digits behind it.
    Hex,
    /// A text between double quotes; the token spans what is between
    /// them.
    Quoted,
}

/// A token: its kind and the characters `start..end` of the text that it
/// spans.
#[derive(Clone, Copy, PartialEq, Eq, Debug, Structural)]
pub struct Token {
    pub kind: TokenKind,
    pub start: usize,
    pub end: usize,
}

/// Whether `c` separates tokens.
pub open spec fn is_space(c: char) -> bool {
    c == ' ' || c == '\t' || c == '\n' || c == '\r'
}

/// Whether `c` can stand in a word.
pub open spec fn is_word_char(c: char) -> bool {
    ('a' <= c <= 'z') || ('A' <= c <= 'Z') || ('0' <= c <= '9') || c == '_'
}

/// The position behind the longest run of spaces that starts at `pos`.
pub open spec fn space_end(chars: Seq<char>, pos: int) -> int
    decreases chars.len() - pos,
{
    if 0 <= pos < chars.len() && is_space(chars[pos]) {
        space_end(chars, pos + 1)
    } else {
        pos
    }
}

/// The position behind the longest run of word characters that starts at
/// `pos`.
pub open spec fn word_end(chars: Seq<char>, pos: int) -> int
    decreases chars.len() - pos,
{
    if 0 <= pos < chars.len() && is_word_char(chars[pos]) {
        word_end(chars, pos + 1)
    } else {
        pos
    }
}

/// The position of the first double quote at or behind `pos`, or the
/// length of the text where there is none.
pub open spec fn quote_end(chars: Seq<char>, pos: int) -> int
    decreases chars.len() - pos,
{
    if 0 <= pos < chars.len() && chars[pos] != '"' {
        quote_end(chars, pos + 1)
    } else {
        pos
    }
}

/// The token of kind `kind` that spans `start..end`.
pub open spec fn token(kind: TokenKind, start: int, end: int) -> Token {
    Token { kind, start: start as usize, end: end as usize }
}

/// The character at `pos`, if the text has one there.
pub open spec fn char_at(chars: Seq<char>, pos: int) -> Option<char> {
    if 0 <= pos < chars.len() {
        Some(chars[pos])
    } else {
        None
    }
}

/// The token that starts at `pos`, where `pos` holds a character that
/// is no space; `None` where no token starts with that character.
pub open spec fn token_at(chars: Seq<char>, pos: int) -> Option<Token> {
    let c = chars[pos];
    let d = char_at(chars, pos + 1);
    if is_word_char(c) {
        Some(token(TokenKind::Word, pos, word_end(chars, pos)))
    } else if c == ':' {
        if d == Some('=') {
            Some(token(TokenKind::Assign, pos, pos + 2))
        } else if d == Some(':') {
            Some(token(TokenKind::Scope, pos, pos + 2))
        } else {
            None
        }
    } else if c == '(' {
        Some(token(TokenKind::LParen, pos, pos + 1))
    } else if c == ')' {
        Some(token(TokenKind::RParen, pos, pos + 1))
    } else if c == '{' {
        Some(token(TokenKind::LBrace, pos, pos + 1))
    } else if c == '}' {
        Some(token(TokenKind::RBrace, pos, pos + 1))
    } else if c == ',' {
        Some(token(TokenKind::Comma, pos, pos + 1))
    } else if c == '=' {
        Some(token(TokenKind::Equal, pos, pos + 1))
    } else if c == '!' {
        if d == Some('=') {
            Some(token(TokenKind::NotEqual, pos, pos + 2))
        } else {
            None
        }
    } else if c == '<' {
        if d == Some('=') {
            Some(token(TokenKind::LessEqual, pos, pos + 2))
        } else {
            Some(token(TokenKind::Less, pos, pos + 1))
        }
    } else if c == '>' {
        if d == Some('=') {
            Some(token(TokenKind::GreaterEqual, pos, pos + 2))
        } else {
            Some(token(TokenKind::Greater, pos, pos + 1))
        }
    } else if c == '+' {
        if d == Some('-') {
            Some(token(TokenKind::PlusMinus, pos, pos + 2))
        } else {
            Some(token(TokenKind::Plus, pos, pos + 1))
        }
    } else if c == '-' {
        Some(token(TokenKind::Minus, pos, pos + 1))
    } else if c == '*' {
        Some(token(TokenKind::Star, pos, pos + 1))
    } else if c == '/' {
        Some(token(TokenKind::Slash, pos, pos + 1))
    } else if c == '#' {
        Some(token(TokenKind::Hex, pos, word_end(chars, pos + 1)))
    } else if c == '"' {
        if quote_end(chars, pos + 1) < chars.len() {
            Some(token(TokenKind::Quoted, pos + 1, quote_end(chars, pos + 1)))
        } else {
            None
        }
    } else {
        None
    }
}

/// The position behind a token in the text: behind the closing quote for
/// a quoted text, else the end of the token.
pub open spec fn after(t: Token) -> int {
    if t.kind == TokenKind::Quoted {
        t.end + 1
    } else {
        t.end as int
    }
}

/// A token in front of the tokens that follow it, where those exist.
pub open spec fn cons(t: Token, rest: Option<Seq<Token>>) -> Option<Seq<Token>> {
    match rest {
        Some(r) => Some(seq![t] + r),
        None => None,
    }
}

/// The tokens of the text from `pos` on; `None` where a character starts
/// no token or a quoted text is not closed.
pub open spec fn lex_from(chars: Seq<char>, pos: int) -> Option<Seq<Token>>
    decreases chars.len() - pos,
{
    let p = space_end(chars, pos);
    if p < 0 || p >= chars.len() {
        Some(Seq::empty())
    } else {
        match token_at(chars, p) {
            Some(t) => if pos < after(t) <= chars.len() {
                cons(t, lex_from(chars, after(t)))
            } else {
                None
            },
            None => None,
        }
    }
}

/// The tokens of a text.
pub open spec fn lex(chars: Seq<char>) -> Option<Seq<Token>> {
    lex_from(chars, 0)
}

/// Whether every token lies within a text of `len` characters.
pub open spec fn within(tokens: Seq<Token>, len: int) -> bool {
    forall|i: int| 0 <= i < tokens.len() ==> (#[trigger] tokens[i]).start <= tokens[i].end <= len
}

/// The characters of a token.
pub open spec fn text_of(chars: Seq<char>, t: Token) -> Seq<char> {
    chars.subrange(t.start as int, t.end as int)
}

fn space(c: char) -> (r: bool)
    ensures
        r == is_space(c),
{
    c == ' ' || c == '\t' || c == '\n' || c == '\r'
}

fn word_char(c: char) -> (r: bool)
    ensures
        r == is_word_char(c),
{
    ('a' <= c && c <= 'z') || ('A' <= c && c <= 'Z') || ('0' <= c && c <= '9') || c == '_'
}

fn skip_spaces(chars: &Vec<char>, pos: usize) -> (r: usize)
    requires
        pos <= chars@.len(),
    ensures
        r == space_end(chars@, pos as int),
        pos <= r <= chars@.len(),
{
    let mut i: usize = pos;
    while i < chars.len() && space(chars[i])
        invariant
            pos <= i <= chars@.len(),
            space_end(chars@, i as int) == space_end(chars@, pos as int),
        decreases chars@.len() - i,
    {
        i += 1;
    }
    i
}

fn skip_word(chars: &Vec<char>, pos: usize) -> (r: usize)
    requires
        pos <= chars@.len(),
    ensures
        r == word_end(chars@, pos as int),
        pos <= r <= chars@.len(),
        pos < chars@.len() && is_word_char(chars@[pos as int]) ==> r > pos,
{
    let mut i: usize = pos;
    while i < chars.len() && word_char(chars[i])
        invariant
            pos <= i <= chars@.len(),
            word_end(chars@, i as int) == word_end(chars@, pos as int),
        decreases chars@.len() - i,
    {
        i += 1;
    }
    i
}

fn skip_quoted(chars: &Vec<char>, pos: usize) -> (r: usize)
    requires
        pos <= chars@.len(),
    ensures
        r == quote_end(chars@, pos as int),
        pos <= r <= chars@.len(),
{
    let mut i: usize = pos;
    while i < chars.len() && chars[i] != '"'
        invariant
            pos <= i <= chars@.len(),
            quote_end(chars@, i as int) == quote_end(chars@, pos as int),
        decreases chars@.len() - i,
    {
        i += 1;
    }
    i
}

fn make(kind: TokenKind, start: usize, end: usize) -> (r: Option<Token>)
    ensures
        r == Some(token(kind, start as int, end as int)),
{
    Some(Token { kind, start, end })
}

fn read_token(chars: &Vec<char>, pos: usize) -> (r: Option<Token>)
    requires
        pos < chars.len(),
    ensures
        r == token_at(chars@, pos as int),
        r matches Some(t) ==> t.start <= t.end <= chars@.len() && pos < after(t) <= chars@.len(),
{
    let c = chars[pos];
    let d: Option<char> = if pos + 1 < chars.len() {
        Some(chars[pos + 1])
    } else {
        None
    };
    let two = match d {
        Some(_) => true,
        None => false,
    };
    let next_is_eq = match d {
        Some(e) => e == '=',
        None => false,
    };
    if word_char(c) {
        make(TokenKind::Word, pos, skip_word(chars, pos))
    } else if c == ':' {
        match d {
            Some(e) => if e == '=' {
                make(TokenKind::Assign, pos, pos + 2)
            } else if e == ':' {
                make(TokenKind::Scope, pos, pos + 2)
            } else {
                None
            },
            None => None,
        }
    } else if c == '(' {
        make(TokenKind::LParen, pos, pos + 1)
    } else if c == ')' {
        make(TokenKind::RParen, pos, pos + 1)
    } else if c == '{' {
        make(TokenKind::LBrace, pos, pos + 1)
    } else if c == '}' {
        make(TokenKind::RBrace, pos, pos + 1)
    } else if c == ',' {
        make(TokenKind::Comma, pos, pos + 1)
    } else if c == '=' {
        make(TokenKind::Equal, pos, pos + 1)
    } else if c == '!' {
        if next_is_eq {
            make(TokenKind::NotEqual, pos, pos + 2)
        } else {
            None
        }
    } else if c == '<' {
        if next_is_eq {
            make(TokenKind::LessEqual, pos, pos + 2)
        } else {
            make(TokenKind::Less, pos, pos + 1)
        }
    } else if c == '>' {
        if next_is_eq {
            make(TokenKind::GreaterEqual, pos, pos + 2)
        } else {
            make(TokenKind::Greater, pos, pos + 1)
        }
    } else if c == '+' {
        match d {
            Some(e) => if e == '-' {
                make(TokenKind::PlusMinus, pos, pos + 2)
            } else {
                make(TokenKind::Plus, pos, pos + 1)
            },
            None => make(TokenKind::Plus, pos, pos + 1),
        }
    } else if c == '-' {
        make(TokenKind::Minus, pos, pos + 1)
    } else if c == '*' {
        make(TokenKind::Star, pos, pos + 1)
    } else if c == '/' {
        make(TokenKind::Slash, pos, pos + 1)
    } else if c == '#' {
        make(TokenKind::Hex, pos, skip_word(chars, pos + 1))
    } else if c == '"' {
        let e = skip_quoted(chars, pos + 1);
        if e < chars.len() {
            make(TokenKind::Quoted, pos + 1, e)
        } else {
            None
        }
    } else {
        None
    }
}

/// Splits a text into its tokens; `None` where a character starts no
/// token or a quoted text is not closed.
pub fn tokenize(chars: &Vec<char>) -> (r: Option<Vec<Token>>)
    ensures
        match r {
            Some(tokens) => lex(chars@) == Some(tokens@) && within(tokens@, chars@.len() as int),
            None => lex(chars@) is None,
        },
{
    let mut out: Vec<Token> = Vec::new();
    let mut pos: usize = 0;
    proof {
        match lex_from(chars@, 0) {
            Some(all) => {
                assert(Seq::<Token>::empty() + all =~= all);
            },
            None => {},
        }
    }
    loop
        invariant
            pos <= chars@.len(),
            within(out@, chars@.len() as int),
            match lex_from(chars@, pos as int) {
                Some(rest) => lex(chars@) == Some(out@ + rest),
                None => lex(chars@) is None,
            },
        decreases chars@.len() - pos,
    {
        let p = skip_spaces(chars, pos);
        if p >= chars.len() {
            assert(out@ + Seq::<Token>::empty() =~= out@);
            return Some(out);
        }
        let t = match read_token(chars, p) {
            Some(t) => t,
            None => {
                return None;
            },
        };
        let ghost before = out@;
        out.push(t);
        proof {
            match lex_from(chars@, after(t)) {
                Some(rest) => {
                    assert(before + (seq![t] + rest) =~= before.push(t) + rest);
                },
                None => {},
            }
        }
        pos = if t.kind == TokenKind::Quoted {
            t.end + 1
        } else {
            t.end
        };
    }
}

} // verus!
