//! The grammar of the five blocks and of a whole program, and the parsers
//! that follow it.

use vstd::prelude::*;
use crate::lang::parse::Error;
use crate::lang::parse::blocks::boundary::{BoundaryBlock, BoundaryModel};
use crate::lang::parse::blocks::environment::{grid_of, EnvironmentBlock};
use crate::lang::parse::blocks::neighborhood::{
    models,
    Dimension,
    EdgeDirection,
    NeighborhoodBlock,
    NeighborhoodModel,
    NeighborhoodRule,
    RuleModel,
};
use crate::lang::parse::blocks::rule::{
    transition_models,
    ExprModel,
    RuleASTNode,
    RuleTerminal,
    RulesBlock,
    TransitionModel,
    TransitionRule,
};
use crate::lang::parse::blocks::state::{
    builtin_color,
    hex_color,
    hex_color_of,
    named_color,
    put,
    Attribute,
    Rgb8,
    StatesBlock,
};
use crate::lang::ProgramBuilder;
use crate::lang::parse::lexer::{lex, text_of, tokenize, within, Token, TokenKind};
use crate::lang::runtime::ops::rules::BinaryOp;

verus! {

/// The kind of the token at `pos`, if there is one.
pub open spec fn kind_at(tokens: Seq<Token>, pos: int) -> Option<TokenKind> {
    if 0 <= pos < tokens.len() {
        Some(tokens[pos].kind)
    } else {
        None
    }
}

/// The text of the token at `pos`, if that token is a word.
pub open spec fn word_at(chars: Seq<char>, tokens: Seq<Token>, pos: int) -> Option<Seq<char>> {
    if kind_at(tokens, pos) == Some(TokenKind::Word) {
        Some(text_of(chars, tokens[pos]))
    } else {
        None
    }
}

/// The value of a decimal digit.
pub open spec fn digit(c: char) -> Option<int> {
    if '0' <= c <= '9' {
        Some(c as int - '0' as int)
    } else {
        None
    }
}

/// The number that a text of decimal digits writes; `None` where the text
/// is empty or holds another character.
pub open spec fn decimal(s: Seq<char>) -> Option<int>
    decreases s.len(),
{
    if s.len() == 0 {
        None
    } else {
        match digit(s.last()) {
            None => None,
            Some(d) => if s.len() == 1 {
                Some(d)
            } else {
                match decimal(s.drop_last()) {
                    Some(v) => Some(v * 10 + d),
                    None => None,
                }
            },
        }
    }
}

/// The magnitude that a text writes: a syntax error where it is no
/// decimal number, an unrepresentable number where it exceeds `limit`.
pub open spec fn magnitude(s: Seq<char>, limit: int) -> Result<int, Error> {
    match decimal(s) {
        None => Err(Error::SyntaxError),
        Some(v) => if v <= limit {
            Ok(v)
        } else {
            Err(Error::UnrepresentableNumber)
        },
    }
}

/// A decimal number does not shrink when digits are appended to it.
pub proof fn lemma_decimal_grows(s: Seq<char>, i: int, j: int)
    requires
        1 <= i <= j <= s.len(),
        decimal(s.take(j)) is Some,
    ensures
        decimal(s.take(i)) is Some,
        0 <= decimal(s.take(i))->0 <= decimal(s.take(j))->0,
    decreases j - i,
{
    if i < j {
        let longer = s.take(j);
        assert(longer.drop_last() =~= s.take(j - 1));
        if i < j - 1 {
            lemma_decimal_grows(s, i, j - 1);
        } else {
            lemma_decimal_nonnegative(s.take(i));
        }
        lemma_decimal_nonnegative(s.take(j - 1));
    } else {
        lemma_decimal_nonnegative(s.take(i));
    }
}

/// A decimal number is not negative.
pub proof fn lemma_decimal_nonnegative(s: Seq<char>)
    requires
        decimal(s) is Some,
    ensures
        decimal(s)->0 >= 0,
    decreases s.len(),
{
    if s.len() > 1 {
        lemma_decimal_nonnegative(s.drop_last());
    }
}

fn digit_value(c: char) -> (r: Option<u8>)
    ensures
        match r {
            Some(v) => digit(c) == Some(v as int) && v <= 9,
            None => digit(c) is None,
        },
{
    if '0' <= c && c <= '9' {
        Some((c as u32 - '0' as u32) as u8)
    } else {
        None
    }
}

/// Reads the magnitude that the token `t` writes, up to `limit`.
pub fn read_magnitude(chars: &Vec<char>, t: Token, limit: usize) -> (r: Result<usize, Error>)
    requires
        t.start <= t.end <= chars@.len(),
    ensures
        match r {
            Ok(v) => magnitude(text_of(chars@, t), limit as int) == Ok::<int, Error>(v as int),
            Err(e) => magnitude(text_of(chars@, t), limit as int) == Err::<int, Error>(e),
        },
{
    let ghost s = text_of(chars@, t);
    if t.start == t.end {
        return Err(Error::SyntaxError);
    }
    let mut i: usize = t.start;
    while i < t.end
        invariant
            t.start <= i <= t.end <= chars@.len(),
            s == text_of(chars@, t),
            forall|k: int| 0 <= k < i - t.start ==> digit(#[trigger] s[k]) is Some,
        decreases t.end - i,
    {
        assert(s[i - t.start] == chars@[i as int]);
        if digit_value(chars[i]).is_none() {
            proof {
                lemma_not_decimal(s, i - t.start);
            }
            return Err(Error::SyntaxError);
        }
        i += 1;
    }
    proof {
        lemma_all_digits(s, s.len() as int);
        assert(s.take(s.len() as int) =~= s);
    }
    let mut value: usize = 0;
    let mut j: usize = t.start;
    while j < t.end
        invariant
            t.start <= j <= t.end <= chars@.len(),
            s == text_of(chars@, t),
            decimal(s) is Some,
            forall|k: int| 0 <= k < s.len() ==> digit(#[trigger] s[k]) is Some,
            j > t.start ==> decimal(s.take(j - t.start)) == Some(value as int),
            j == t.start ==> value == 0,
            value <= limit,
        decreases t.end - j,
    {
        let ghost n = j - t.start;
        assert(s[n] == chars@[j as int]);
        let d = match digit_value(chars[j]) {
            Some(d) => d,
            None => {
                return Err(Error::SyntaxError);
            },
        };
        proof {
            let longer = s.take(n + 1);
            assert(longer.last() == s[n]);
            assert(longer.drop_last() =~= s.take(n));
            lemma_all_digits(s, n + 1);
        }
        let next = match value.checked_mul(10) {
            Some(v) => match v.checked_add(d as usize) {
                Some(w) => if w <= limit {
                    Some(w)
                } else {
                    None
                },
                None => None,
            },
            None => None,
        };
        match next {
            Some(w) => {
                value = w;
            },
            None => {
                proof {
                    assert(s.take(s.len() as int) =~= s);
                    lemma_decimal_grows(s, n + 1, s.len() as int);
                    assert(decimal(s.take(n + 1))->0 == value * 10 + d);
                }
                return Err(Error::UnrepresentableNumber);
            },
        }
        j += 1;
    }
    Ok(value)
}

/// A text with a character that is no digit writes no decimal number.
pub proof fn lemma_not_decimal(s: Seq<char>, k: int)
    requires
        0 <= k < s.len(),
        digit(s[k]) is None,
    ensures
        decimal(s) is None,
    decreases s.len(),
{
    if k < s.len() - 1 {
        lemma_not_decimal(s.drop_last(), k);
    }
}

/// A text of digits writes a decimal number, and so does each of its
/// beginnings.
pub proof fn lemma_all_digits(s: Seq<char>, n: int)
    requires
        1 <= n <= s.len(),
        forall|k: int| 0 <= k < n ==> digit(#[trigger] s[k]) is Some,
    ensures
        decimal(s.take(n)) is Some,
    decreases n,
{
    let head = s.take(n);
    assert(head.last() == s[n - 1]);
    if n > 1 {
        assert(head.drop_last() =~= s.take(n - 1));
        lemma_all_digits(s, n - 1);
    }
}

/// Whether the token `t` is the word `lit`.
pub fn is_word(chars: &Vec<char>, t: Token, lit: &str) -> (r: bool)
    requires
        t.start <= t.end <= chars@.len(),
    ensures
        r == (t.kind == TokenKind::Word && text_of(chars@, t) == lit@),
{
    if t.kind != TokenKind::Word {
        return false;
    }
    same_text(chars, t, lit)
}

/// Whether the text of the token `t` is `lit`.
pub fn same_text(chars: &Vec<char>, t: Token, lit: &str) -> (r: bool)
    requires
        t.start <= t.end <= chars@.len(),
    ensures
        r == (text_of(chars@, t) == lit@),
{
    let ghost s = text_of(chars@, t);
    let n = lit.unicode_len();
    if t.end - t.start != n {
        return false;
    }
    let mut i: usize = 0;
    while i < n
        invariant
            i <= n,
            n == lit@.len(),
            n == t.end - t.start,
            t.start <= t.end <= chars@.len(),
            s == text_of(chars@, t),
            forall|k: int| 0 <= k < i ==> s[k] == lit@[k],
        decreases n - i,
    {
        assert(s[i as int] == chars@[t.start + i]);
        if chars[t.start + i] != lit.get_char(i) {
            return false;
        }
        i += 1;
    }
    assert(s =~= lit@);
    true
}

/// `String::push`: the character is appended to the end of the string.
#[verifier::external_body]
fn push_char(s: &mut String, c: char)
    ensures
        final(s)@ == old(s)@.push(c),
{
    s.push(c)
}

/// The text of the token `t` as a string.
pub fn name_of(chars: &Vec<char>, t: Token) -> (r: String)
    requires
        t.start <= t.end <= chars@.len(),
    ensures
        r@ == text_of(chars@, t),
{
    let mut out = String::new();
    let mut i: usize = t.start;
    while i < t.end
        invariant
            t.start <= i <= t.end <= chars@.len(),
            out@ == chars@.subrange(t.start as int, i as int),
        decreases t.end - i,
    {
        push_char(&mut out, chars[i]);
        assert(out@ =~= chars@.subrange(t.start as int, i + 1));
        i += 1;
    }
    out
}

/// The characters of a text.
pub fn chars_of(text: &str) -> (r: Vec<char>)
    ensures
        r@ == text@,
{
    let n = text.unicode_len();
    let mut out: Vec<char> = Vec::new();
    let mut i: usize = 0;
    while i < n
        invariant
            i <= n,
            n == text@.len(),
            out@ == text@.take(i as int),
        decreases n - i,
    {
        out.push(text.get_char(i));
        assert(out@ =~= text@.take(i + 1));
        i += 1;
    }
    assert(text@.take(n as int) =~= text@);
    out
}

/// The kind of the token at `pos`, if there is one.
pub fn peek(tokens: &Vec<Token>, pos: usize) -> (r: Option<TokenKind>)
    ensures
        r == kind_at(tokens@, pos as int),
{
    if pos < tokens.len() {
        Some(tokens[pos].kind)
    } else {
        None
    }
}

/// Whether the token at `pos` is the word `lit`.
pub fn word_here(chars: &Vec<char>, tokens: &Vec<Token>, pos: usize, lit: &str) -> (r: bool)
    requires
        within(tokens@, chars@.len() as int),
    ensures
        r == (word_at(chars@, tokens@, pos as int) == Some(lit@)),
{
    if pos < tokens.len() {
        is_word(chars, tokens[pos], lit)
    } else {
        false
    }
}

/// The name in parentheses behind a scope sign at `pos`, and the position
/// behind it: `::(name)`.
pub open spec fn scoped_name(chars: Seq<char>, tokens: Seq<Token>, pos: int) -> Option<
    (Seq<char>, int),
> {
    if kind_at(tokens, pos) == Some(TokenKind::Scope) && kind_at(tokens, pos + 1) == Some(
        TokenKind::LParen,
    ) && kind_at(tokens, pos + 2) == Some(TokenKind::Word) && kind_at(tokens, pos + 3) == Some(
        TokenKind::RParen,
    ) {
        Some((text_of(chars, tokens[pos + 2]), pos + 4))
    } else {
        None
    }
}

/// The boundary block that starts at `pos`, and the position behind it:
/// `boundary := void | wrap | infinite | static | static::(Name)`.
pub open spec fn boundary_at(chars: Seq<char>, tokens: Seq<Token>, pos: int) -> Result<
    (BoundaryModel, int),
    Error,
> {
    if word_at(chars, tokens, pos) == Some("boundary"@) && kind_at(tokens, pos + 1) == Some(
        TokenKind::Assign,
    ) {
        let regime = word_at(chars, tokens, pos + 2);
        if regime == Some("void"@) {
            Ok((BoundaryModel::Void, pos + 3))
        } else if regime == Some("wrap"@) {
            Ok((BoundaryModel::Wrap, pos + 3))
        } else if regime == Some("infinite"@) {
            Ok((BoundaryModel::Infinite, pos + 3))
        } else if regime == Some("static"@) {
            if kind_at(tokens, pos + 3) == Some(TokenKind::Scope) {
                match scoped_name(chars, tokens, pos + 3) {
                    Some((name, next)) => Ok((BoundaryModel::Static(Some(name)), next)),
                    None => Err(Error::SyntaxError),
                }
            } else {
                Ok((BoundaryModel::Static(None), pos + 3))
            }
        } else {
            Err(Error::SyntaxError)
        }
    } else {
        Err(Error::SyntaxError)
    }
}

/// Reads the boundary block that starts at `pos`.
pub fn parse_boundary(chars: &Vec<char>, tokens: &Vec<Token>, pos: usize) -> (r: Result<
    (BoundaryBlock, usize),
    Error,
>)
    requires
        within(tokens@, chars@.len() as int),
        pos <= tokens.len(),
    ensures
        match r {
            Ok((block, next)) => boundary_at(chars@, tokens@, pos as int) == Ok::<
                (BoundaryModel, int),
                Error,
            >((block.model(), next as int)) && pos < next <= tokens.len(),
            Err(e) => boundary_at(chars@, tokens@, pos as int) == Err::<(BoundaryModel, int), Error>(
                e,
            ),
        },
{
    if tokens.len() - pos < 3 {
        return Err(Error::SyntaxError);
    }
    if !word_here(chars, tokens, pos, "boundary") || tokens[pos + 1].kind != TokenKind::Assign {
        return Err(Error::SyntaxError);
    }
    if word_here(chars, tokens, pos + 2, "void") {
        Ok((BoundaryBlock::Void, pos + 3))
    } else if word_here(chars, tokens, pos + 2, "wrap") {
        Ok((BoundaryBlock::Wrap, pos + 3))
    } else if word_here(chars, tokens, pos + 2, "infinite") {
        Ok((BoundaryBlock::Infinite, pos + 3))
    } else if word_here(chars, tokens, pos + 2, "static") {
        if pos + 3 < tokens.len() && tokens[pos + 3].kind == TokenKind::Scope {
            if tokens.len() - pos < 7 {
                return Err(Error::SyntaxError);
            }
            if tokens[pos + 4].kind == TokenKind::LParen && tokens[pos + 5].kind == TokenKind::Word
                && tokens[pos + 6].kind == TokenKind::RParen {
                let name = name_of(chars, tokens[pos + 5]);
                Ok((BoundaryBlock::Static(Some(name)), pos + 7))
            } else {
                Err(Error::SyntaxError)
            }
        } else {
            Ok((BoundaryBlock::Static(None), pos + 3))
        }
    } else {
        Err(Error::SyntaxError)
    }
}


/// The dimension that the token at `pos` writes: `x`, `y`, `z` or `*`.
pub open spec fn dimension_at(chars: Seq<char>, tokens: Seq<Token>, pos: int) -> Option<Dimension> {
    if kind_at(tokens, pos) == Some(TokenKind::Star) {
        Some(Dimension::All)
    } else if word_at(chars, tokens, pos) == Some("x"@) {
        Some(Dimension::X)
    } else if word_at(chars, tokens, pos) == Some("y"@) {
        Some(Dimension::Y)
    } else if word_at(chars, tokens, pos) == Some("z"@) {
        Some(Dimension::Z)
    } else {
        None
    }
}

/// Reads the dimension that the token at `pos` writes.
pub fn parse_dimension(chars: &Vec<char>, tokens: &Vec<Token>, pos: usize) -> (r: Option<Dimension>)
    requires
        within(tokens@, chars@.len() as int),
    ensures
        r == dimension_at(chars@, tokens@, pos as int),
{
    if pos >= tokens.len() {
        return None;
    }
    if tokens[pos].kind == TokenKind::Star {
        Some(Dimension::All)
    } else if word_here(chars, tokens, pos, "x") {
        Some(Dimension::X)
    } else if word_here(chars, tokens, pos, "y") {
        Some(Dimension::Y)
    } else if word_here(chars, tokens, pos, "z") {
        Some(Dimension::Z)
    } else {
        None
    }
}

/// The number that the token at `pos` writes, up to `limit`: a syntax
/// error where the token is no word.
pub open spec fn number_at(chars: Seq<char>, tokens: Seq<Token>, pos: int, limit: int) -> Result<
    int,
    Error,
> {
    match word_at(chars, tokens, pos) {
        Some(text) => magnitude(text, limit),
        None => Err(Error::SyntaxError),
    }
}

/// Reads the number that the token at `pos` writes, up to `limit`.
pub fn parse_number(chars: &Vec<char>, tokens: &Vec<Token>, pos: usize, limit: usize) -> (r: Result<
    usize,
    Error,
>)
    requires
        within(tokens@, chars@.len() as int),
    ensures
        match r {
            Ok(v) => number_at(chars@, tokens@, pos as int, limit as int) == Ok::<int, Error>(
                v as int,
            ) && v <= limit,
            Err(e) => number_at(chars@, tokens@, pos as int, limit as int) == Err::<int, Error>(e),
        },
{
    if pos >= tokens.len() || tokens[pos].kind != TokenKind::Word {
        return Err(Error::SyntaxError);
    }
    read_magnitude(chars, tokens[pos], limit)
}

/// The extent directive at `pos`: `axis = extent`.
pub open spec fn directive_at(chars: Seq<char>, tokens: Seq<Token>, pos: int) -> Result<
    (Dimension, usize),
    Error,
> {
    match dimension_at(chars, tokens, pos) {
        None => Err(Error::SyntaxError),
        Some(d) => if kind_at(tokens, pos + 1) == Some(TokenKind::Equal) {
            match number_at(chars, tokens, pos + 2, usize::MAX as int) {
                Ok(v) => Ok((d, v as usize)),
                Err(e) => Err(e),
            }
        } else {
            Err(Error::SyntaxError)
        },
    }
}

/// The extent directives from `pos` to the closing parenthesis, behind
/// the directives `acc`, and the position behind the parenthesis:
/// directives are separated by commas.
pub open spec fn directives_from(
    chars: Seq<char>,
    tokens: Seq<Token>,
    pos: int,
    acc: Seq<(Dimension, usize)>,
) -> Result<(Seq<(Dimension, usize)>, int), Error>
    decreases tokens.len() - pos,
{
    if pos < 0 || pos >= tokens.len() {
        Err(Error::SyntaxError)
    } else {
        match directive_at(chars, tokens, pos) {
            Err(e) => Err(e),
            Ok(d) => if kind_at(tokens, pos + 3) == Some(TokenKind::Comma) {
                directives_from(chars, tokens, pos + 4, acc.push(d))
            } else if kind_at(tokens, pos + 3) == Some(TokenKind::RParen) {
                Ok((acc.push(d), pos + 4))
            } else {
                Err(Error::SyntaxError)
            },
        }
    }
}

/// The number of axes that the token at `pos` writes: `1D`, `2D` or `3D`.
pub open spec fn axes_at(chars: Seq<char>, tokens: Seq<Token>, pos: int) -> Option<int> {
    if word_at(chars, tokens, pos) == Some("1D"@) {
        Some(1)
    } else if word_at(chars, tokens, pos) == Some("2D"@) {
        Some(2)
    } else if word_at(chars, tokens, pos) == Some("3D"@) {
        Some(3)
    } else {
        None
    }
}

/// The environment block that starts at `pos`, and the position behind
/// it: `environment := 1D | 2D | 3D`, with `::(axis = extent, ...)` behind
/// it where extents are given.
pub open spec fn environment_at(chars: Seq<char>, tokens: Seq<Token>, pos: int) -> Result<
    (EnvironmentBlock, int),
    Error,
> {
    if word_at(chars, tokens, pos) == Some("environment"@) && kind_at(tokens, pos + 1) == Some(
        TokenKind::Assign,
    ) {
        match axes_at(chars, tokens, pos + 2) {
            None => Err(Error::SyntaxError),
            Some(dims) => if kind_at(tokens, pos + 3) == Some(TokenKind::Scope) {
                if kind_at(tokens, pos + 4) == Some(TokenKind::LParen) {
                    match directives_from(chars, tokens, pos + 5, Seq::empty()) {
                        Ok((directives, next)) => Ok((grid_of(dims, directives), next)),
                        Err(e) => Err(e),
                    }
                } else {
                    Err(Error::SyntaxError)
                }
            } else {
                Ok((grid_of(dims, Seq::empty()), pos + 3))
            },
        }
    } else {
        Err(Error::SyntaxError)
    }
}

fn parse_directive(chars: &Vec<char>, tokens: &Vec<Token>, pos: usize) -> (r: Result<
    (Dimension, usize),
    Error,
>)
    requires
        within(tokens@, chars@.len() as int),
        pos < tokens.len(),
    ensures
        r == directive_at(chars@, tokens@, pos as int),
{
    let d = match parse_dimension(chars, tokens, pos) {
        Some(d) => d,
        None => {
            return Err(Error::SyntaxError);
        },
    };
    if tokens.len() - pos < 3 || tokens[pos + 1].kind != TokenKind::Equal {
        return Err(Error::SyntaxError);
    }
    match parse_number(chars, tokens, pos + 2, usize::MAX) {
        Ok(v) => Ok((d, v)),
        Err(e) => Err(e),
    }
}

/// Reads the environment block that starts at `pos`.
pub fn parse_environment(chars: &Vec<char>, tokens: &Vec<Token>, pos: usize) -> (r: Result<
    (EnvironmentBlock, usize),
    Error,
>)
    requires
        within(tokens@, chars@.len() as int),
        pos <= tokens.len(),
    ensures
        match r {
            Ok((block, next)) => environment_at(chars@, tokens@, pos as int) == Ok::<
                (EnvironmentBlock, int),
                Error,
            >((block, next as int)) && pos < next <= tokens.len(),
            Err(e) => environment_at(chars@, tokens@, pos as int) == Err::<
                (EnvironmentBlock, int),
                Error,
            >(e),
        },
{
    if tokens.len() - pos < 3 {
        return Err(Error::SyntaxError);
    }
    if !word_here(chars, tokens, pos, "environment") || tokens[pos + 1].kind != TokenKind::Assign {
        return Err(Error::SyntaxError);
    }
    let dims: usize = if word_here(chars, tokens, pos + 2, "1D") {
        1
    } else if word_here(chars, tokens, pos + 2, "2D") {
        2
    } else if word_here(chars, tokens, pos + 2, "3D") {
        3
    } else {
        return Err(Error::SyntaxError);
    };
    let mut directives: Vec<(Dimension, usize)> = Vec::new();
    if !(pos + 3 < tokens.len() && tokens[pos + 3].kind == TokenKind::Scope) {
        return Ok((EnvironmentBlock::from_directives(dims, &directives), pos + 3));
    }
    if !(pos + 4 < tokens.len() && tokens[pos + 4].kind == TokenKind::LParen) {
        return Err(Error::SyntaxError);
    }
    let ghost start = pos + 5;
    let mut at: usize = pos + 5;
    loop
        invariant
            within(tokens@, chars@.len() as int),
            pos + 5 <= at <= tokens.len(),
            start == pos + 5,
            1 <= dims <= 3,
            environment_at(chars@, tokens@, pos as int) == (match directives_from(
                chars@,
                tokens@,
                start,
                Seq::empty(),
            ) {
                Ok((found, next)) => Ok::<(EnvironmentBlock, int), Error>(
                    (grid_of(dims as int, found), next),
                ),
                Err(e) => Err::<(EnvironmentBlock, int), Error>(e),
            }),
            directives_from(chars@, tokens@, at as int, directives@) == directives_from(
                chars@,
                tokens@,
                start,
                Seq::empty(),
            ),
        decreases tokens.len() - at,
    {
        if at >= tokens.len() {
            return Err(Error::SyntaxError);
        }
        let d = match parse_directive(chars, tokens, at) {
            Ok(d) => d,
            Err(e) => {
                return Err(e);
            },
        };
        directives.push(d);
        match peek(tokens, at + 3) {
            Some(TokenKind::Comma) => {
                at = at + 4;
            },
            Some(TokenKind::RParen) => {
                return Ok((EnvironmentBlock::from_directives(dims, &directives), at + 4));
            },
            _ => {
                return Err(Error::SyntaxError);
            },
        }
    }
}

/// The neighbourhood rule at `pos`: an axis, one of `+-`, `+`, `-` and
/// `within`, and a magnitude.
pub open spec fn rule_at(chars: Seq<char>, tokens: Seq<Token>, pos: int) -> Result<RuleModel, Error> {
    match dimension_at(chars, tokens, pos) {
        None => Err(Error::SyntaxError),
        Some(dimension) => if kind_at(tokens, pos + 1) == Some(TokenKind::PlusMinus) {
            match number_at(chars, tokens, pos + 2, usize::MAX as int) {
                Ok(magnitude) => Ok(RuleModel::UndirectedEdge { dimension, magnitude }),
                Err(e) => Err(e),
            }
        } else if kind_at(tokens, pos + 1) == Some(TokenKind::Plus) {
            match number_at(chars, tokens, pos + 2, isize::MAX as int) {
                Ok(magnitude) => Ok(RuleModel::DirectedEdge { dimension, magnitude }),
                Err(e) => Err(e),
            }
        } else if kind_at(tokens, pos + 1) == Some(TokenKind::Minus) {
            match number_at(chars, tokens, pos + 2, isize::MAX as int) {
                Ok(magnitude) => Ok(RuleModel::DirectedEdge { dimension, magnitude: -magnitude }),
                Err(e) => Err(e),
            }
        } else if word_at(chars, tokens, pos + 1) == Some("within"@) {
            match number_at(chars, tokens, pos + 2, usize::MAX as int) {
                Ok(magnitude) => Ok(RuleModel::UndirectedCircle { dimension, magnitude }),
                Err(e) => Err(e),
            }
        } else {
            Err(Error::SyntaxError)
        },
    }
}

/// The neighbourhood rules from `pos` to the closing brace, behind the
/// rules `acc`, and the position behind the brace.
pub open spec fn rules_from(chars: Seq<char>, tokens: Seq<Token>, pos: int, acc: Seq<RuleModel>) -> Result<
    (Seq<RuleModel>, int),
    Error,
>
    decreases tokens.len() - pos,
{
    if pos < 0 || pos >= tokens.len() {
        Err(Error::SyntaxError)
    } else if kind_at(tokens, pos) == Some(TokenKind::RBrace) {
        Ok((acc, pos + 1))
    } else {
        match rule_at(chars, tokens, pos) {
            Err(e) => Err(e),
            Ok(rule) => rules_from(chars, tokens, pos + 3, acc.push(rule)),
        }
    }
}

/// The neighbourhood block that starts at `pos`, and the position behind
/// it: `neighborhood := MOORE | VON_NEUMANN | { rule ... }`.
pub open spec fn neighborhood_at(chars: Seq<char>, tokens: Seq<Token>, pos: int) -> Result<
    (NeighborhoodModel, int),
    Error,
> {
    if word_at(chars, tokens, pos) == Some("neighborhood"@) && kind_at(tokens, pos + 1) == Some(
        TokenKind::Assign,
    ) {
        if word_at(chars, tokens, pos + 2) == Some("MOORE"@) {
            Ok((NeighborhoodModel::Moore, pos + 3))
        } else if word_at(chars, tokens, pos + 2) == Some("VON_NEUMANN"@) {
            Ok((NeighborhoodModel::VonNeumann, pos + 3))
        } else if kind_at(tokens, pos + 2) == Some(TokenKind::LBrace) {
            match rules_from(chars, tokens, pos + 3, Seq::empty()) {
                Ok((rules, next)) => Ok((NeighborhoodModel::Custom(rules), next)),
                Err(e) => Err(e),
            }
        } else {
            Err(Error::SyntaxError)
        }
    } else {
        Err(Error::SyntaxError)
    }
}

fn parse_rule(chars: &Vec<char>, tokens: &Vec<Token>, pos: usize) -> (r: Result<
    NeighborhoodRule,
    Error,
>)
    requires
        within(tokens@, chars@.len() as int),
        pos < tokens.len(),
    ensures
        match r {
            Ok(rule) => rule_at(chars@, tokens@, pos as int) == Ok::<RuleModel, Error>(rule.model()),
            Err(e) => rule_at(chars@, tokens@, pos as int) == Err::<RuleModel, Error>(e),
        },
        r is Ok ==> pos + 3 <= tokens.len(),
{
    let dimension = match parse_dimension(chars, tokens, pos) {
        Some(d) => d,
        None => {
            return Err(Error::SyntaxError);
        },
    };
    if tokens.len() - pos < 2 {
        return Err(Error::SyntaxError);
    }
    let sign = tokens[pos + 1].kind;
    if sign == TokenKind::PlusMinus {
        match parse_number(chars, tokens, pos + 2, usize::MAX) {
            Ok(magnitude) => Ok(NeighborhoodRule::UndirectedEdge { dimension, magnitude }),
            Err(e) => Err(e),
        }
    } else if sign == TokenKind::Plus {
        match parse_number(chars, tokens, pos + 2, isize::MAX as usize) {
            Ok(magnitude) => NeighborhoodRule::directed(dimension, magnitude, EdgeDirection::Positive),
            Err(e) => Err(e),
        }
    } else if sign == TokenKind::Minus {
        match parse_number(chars, tokens, pos + 2, isize::MAX as usize) {
            Ok(magnitude) => NeighborhoodRule::directed(dimension, magnitude, EdgeDirection::Negative),
            Err(e) => Err(e),
        }
    } else if word_here(chars, tokens, pos + 1, "within") {
        match parse_number(chars, tokens, pos + 2, usize::MAX) {
            Ok(magnitude) => Ok(NeighborhoodRule::UndirectedCircle { dimension, magnitude }),
            Err(e) => Err(e),
        }
    } else {
        Err(Error::SyntaxError)
    }
}

/// Reads the neighbourhood block that starts at `pos`.
pub fn parse_neighborhood(chars: &Vec<char>, tokens: &Vec<Token>, pos: usize) -> (r: Result<
    (NeighborhoodBlock, usize),
    Error,
>)
    requires
        within(tokens@, chars@.len() as int),
        pos <= tokens.len(),
    ensures
        match r {
            Ok((block, next)) => neighborhood_at(chars@, tokens@, pos as int) == Ok::<
                (NeighborhoodModel, int),
                Error,
            >((block.model(), next as int)) && pos < next <= tokens.len(),
            Err(e) => neighborhood_at(chars@, tokens@, pos as int) == Err::<
                (NeighborhoodModel, int),
                Error,
            >(e),
        },
{
    if tokens.len() - pos < 3 {
        return Err(Error::SyntaxError);
    }
    if !word_here(chars, tokens, pos, "neighborhood") || tokens[pos + 1].kind != TokenKind::Assign {
        return Err(Error::SyntaxError);
    }
    if word_here(chars, tokens, pos + 2, "MOORE") {
        return Ok((NeighborhoodBlock::Moore, pos + 3));
    }
    if word_here(chars, tokens, pos + 2, "VON_NEUMANN") {
        return Ok((NeighborhoodBlock::VonNeumann, pos + 3));
    }
    if tokens[pos + 2].kind != TokenKind::LBrace {
        return Err(Error::SyntaxError);
    }
    let mut rules: Vec<NeighborhoodRule> = Vec::new();
    let ghost start = pos + 3;
    let mut at: usize = pos + 3;
    assert(models(rules@) =~= Seq::<RuleModel>::empty());
    loop
        invariant
            within(tokens@, chars@.len() as int),
            pos + 3 <= at <= tokens.len(),
            start == pos + 3,
            neighborhood_at(chars@, tokens@, pos as int) == (match rules_from(
                chars@,
                tokens@,
                start,
                Seq::empty(),
            ) {
                Ok((found, next)) => Ok::<(NeighborhoodModel, int), Error>(
                    (NeighborhoodModel::Custom(found), next),
                ),
                Err(e) => Err::<(NeighborhoodModel, int), Error>(e),
            }),
            rules_from(chars@, tokens@, at as int, models(rules@)) == rules_from(
                chars@,
                tokens@,
                start,
                Seq::empty(),
            ),
        decreases tokens.len() - at,
    {
        if at >= tokens.len() {
            return Err(Error::SyntaxError);
        }
        if tokens[at].kind == TokenKind::RBrace {
            return Ok((NeighborhoodBlock::Custom(rules), at + 1));
        }
        let rule = match parse_rule(chars, tokens, at) {
            Ok(rule) => rule,
            Err(e) => {
                return Err(e);
            },
        };
        let ghost before = models(rules@);
        rules.push(rule);
        assert(models(rules@) =~= before.push(rule.model()));
        at = at + 3;
    }
}


/// The colour that the token at `pos` writes as the value of a colour
/// attribute: a hexadecimal colour, a quoted colour name or a plain one.
/// The inner `None` where the colour is not known, the outer where the
/// token cannot be a colour.
pub open spec fn color_at(chars: Seq<char>, tokens: Seq<Token>, pos: int) -> Option<Option<Rgb8>> {
    if kind_at(tokens, pos) == Some(TokenKind::Hex) {
        Some(hex_color_of(text_of(chars, tokens[pos])))
    } else if kind_at(tokens, pos) == Some(TokenKind::Quoted) || kind_at(tokens, pos) == Some(
        TokenKind::Word,
    ) {
        Some(builtin_color(text_of(chars, tokens[pos])))
    } else {
        None
    }
}

/// The attribute at `pos` and the position behind it: `default` or
/// `color = value`.
pub open spec fn attribute_at(chars: Seq<char>, tokens: Seq<Token>, pos: int) -> Result<
    (Attribute, int),
    Error,
> {
    if word_at(chars, tokens, pos) == Some("default"@) {
        Ok((Attribute::Default, pos + 1))
    } else if word_at(chars, tokens, pos) == Some("color"@) && kind_at(tokens, pos + 1) == Some(
        TokenKind::Equal,
    ) {
        match color_at(chars, tokens, pos + 2) {
            Some(color) => Ok((Attribute::Color(color), pos + 3)),
            None => Err(Error::SyntaxError),
        }
    } else {
        Err(Error::SyntaxError)
    }
}

/// The attributes from `pos` to the closing parenthesis, behind the
/// attributes `acc`, and the position behind the parenthesis: attributes
/// are separated by commas.
pub open spec fn attributes_from(
    chars: Seq<char>,
    tokens: Seq<Token>,
    pos: int,
    acc: Seq<Attribute>,
) -> Result<(Seq<Attribute>, int), Error>
    decreases tokens.len() - pos,
{
    if pos < 0 || pos >= tokens.len() {
        Err(Error::SyntaxError)
    } else {
        match attribute_at(chars, tokens, pos) {
            Err(e) => Err(e),
            Ok((attribute, next)) => if next <= pos {
                Err(Error::SyntaxError)
            } else if kind_at(tokens, next) == Some(TokenKind::Comma) {
                attributes_from(chars, tokens, next + 1, acc.push(attribute))
            } else if kind_at(tokens, next) == Some(TokenKind::RParen) {
                Ok((acc.push(attribute), next + 1))
            } else {
                Err(Error::SyntaxError)
            },
        }
    }
}

/// The state declaration at `pos` and the position behind it: a name,
/// with `::(attribute, ...)` behind it where it has attributes.
pub open spec fn state_at(chars: Seq<char>, tokens: Seq<Token>, pos: int) -> Result<
    ((Seq<char>, Seq<Attribute>), int),
    Error,
> {
    match word_at(chars, tokens, pos) {
        None => Err(Error::SyntaxError),
        Some(name) => if kind_at(tokens, pos + 1) == Some(TokenKind::Scope) {
            if kind_at(tokens, pos + 2) == Some(TokenKind::LParen) {
                match attributes_from(chars, tokens, pos + 3, Seq::empty()) {
                    Ok((attributes, next)) => Ok(((name, attributes), next)),
                    Err(e) => Err(e),
                }
            } else {
                Err(Error::SyntaxError)
            }
        } else {
            Ok(((name, Seq::empty()), pos + 1))
        },
    }
}

/// The state declarations from `pos` to the closing brace, put into the
/// entries `acc`, and the position behind the brace.
pub open spec fn states_from(
    chars: Seq<char>,
    tokens: Seq<Token>,
    pos: int,
    acc: Seq<(Seq<char>, Seq<Attribute>)>,
) -> Result<(Seq<(Seq<char>, Seq<Attribute>)>, int), Error>
    decreases tokens.len() - pos,
{
    if pos < 0 || pos >= tokens.len() {
        Err(Error::SyntaxError)
    } else if kind_at(tokens, pos) == Some(TokenKind::RBrace) {
        Ok((acc, pos + 1))
    } else {
        match state_at(chars, tokens, pos) {
            Err(e) => Err(e),
            Ok(((name, attributes), next)) => if pos < next <= tokens.len() {
                states_from(chars, tokens, next, put(acc, name, attributes))
            } else {
                Err(Error::SyntaxError)
            },
        }
    }
}

/// The states block that starts at `pos`, and the position behind it:
/// `state := { declaration ... }`.
pub open spec fn states_at(chars: Seq<char>, tokens: Seq<Token>, pos: int) -> Result<
    (Seq<(Seq<char>, Seq<Attribute>)>, int),
    Error,
> {
    if word_at(chars, tokens, pos) == Some("state"@) && kind_at(tokens, pos + 1) == Some(
        TokenKind::Assign,
    ) && kind_at(tokens, pos + 2) == Some(TokenKind::LBrace) {
        states_from(chars, tokens, pos + 3, Seq::empty())
    } else {
        Err(Error::SyntaxError)
    }
}

fn parse_color_value(chars: &Vec<char>, tokens: &Vec<Token>, pos: usize) -> (r: Option<Option<Rgb8>>)
    requires
        within(tokens@, chars@.len() as int),
    ensures
        r == color_at(chars@, tokens@, pos as int),
{
    if pos >= tokens.len() {
        return None;
    }
    let t = tokens[pos];
    if t.kind == TokenKind::Hex {
        let text = name_of(chars, t);
        Some(hex_color(text.as_str()))
    } else if t.kind == TokenKind::Quoted || t.kind == TokenKind::Word {
        let text = name_of(chars, t);
        Some(named_color(text.as_str()))
    } else {
        None
    }
}

fn parse_attribute(chars: &Vec<char>, tokens: &Vec<Token>, pos: usize) -> (r: Result<
    (Attribute, usize),
    Error,
>)
    requires
        within(tokens@, chars@.len() as int),
        pos < tokens.len(),
    ensures
        match r {
            Ok((attribute, next)) => attribute_at(chars@, tokens@, pos as int) == Ok::<
                (Attribute, int),
                Error,
            >((attribute, next as int)) && pos < next <= tokens.len(),
            Err(e) => attribute_at(chars@, tokens@, pos as int) == Err::<(Attribute, int), Error>(e),
        },
{
    if word_here(chars, tokens, pos, "default") {
        return Ok((Attribute::Default, pos + 1));
    }
    if !word_here(chars, tokens, pos, "color") {
        return Err(Error::SyntaxError);
    }
    if tokens.len() - pos < 3 || tokens[pos + 1].kind != TokenKind::Equal {
        return Err(Error::SyntaxError);
    }
    match parse_color_value(chars, tokens, pos + 2) {
        Some(color) => Ok((Attribute::Color(color), pos + 3)),
        None => Err(Error::SyntaxError),
    }
}

fn parse_state(chars: &Vec<char>, tokens: &Vec<Token>, pos: usize) -> (r: Result<
    (String, Vec<Attribute>, usize),
    Error,
>)
    requires
        within(tokens@, chars@.len() as int),
        pos < tokens.len(),
    ensures
        match r {
            Ok((name, attributes, next)) => state_at(chars@, tokens@, pos as int) == Ok::<
                ((Seq<char>, Seq<Attribute>), int),
                Error,
            >(((name@, attributes@), next as int)) && pos < next <= tokens.len(),
            Err(e) => state_at(chars@, tokens@, pos as int) == Err::<
                ((Seq<char>, Seq<Attribute>), int),
                Error,
            >(e),
        },
{
    if tokens[pos].kind != TokenKind::Word {
        return Err(Error::SyntaxError);
    }
    let name = name_of(chars, tokens[pos]);
    let mut attributes: Vec<Attribute> = Vec::new();
    if !(pos + 1 < tokens.len() && tokens[pos + 1].kind == TokenKind::Scope) {
        return Ok((name, attributes, pos + 1));
    }
    if !(pos + 2 < tokens.len() && tokens[pos + 2].kind == TokenKind::LParen) {
        return Err(Error::SyntaxError);
    }
    let ghost start = pos + 3;
    let mut at: usize = pos + 3;
    loop
        invariant
            within(tokens@, chars@.len() as int),
            pos + 3 <= at <= tokens.len(),
            start == pos + 3,
            state_at(chars@, tokens@, pos as int) == (match attributes_from(
                chars@,
                tokens@,
                start,
                Seq::empty(),
            ) {
                Ok((found, next)) => Ok::<((Seq<char>, Seq<Attribute>), int), Error>(
                    ((name@, found), next),
                ),
                Err(e) => Err::<((Seq<char>, Seq<Attribute>), int), Error>(e),
            }),
            attributes_from(chars@, tokens@, at as int, attributes@) == attributes_from(
                chars@,
                tokens@,
                start,
                Seq::empty(),
            ),
        decreases tokens.len() - at,
    {
        if at >= tokens.len() {
            return Err(Error::SyntaxError);
        }
        let (attribute, next) = match parse_attribute(chars, tokens, at) {
            Ok(found) => found,
            Err(e) => {
                return Err(e);
            },
        };
        attributes.push(attribute);
        match peek(tokens, next) {
            Some(TokenKind::Comma) => {
                at = next + 1;
            },
            Some(TokenKind::RParen) => {
                return Ok((name, attributes, next + 1));
            },
            _ => {
                return Err(Error::SyntaxError);
            },
        }
    }
}

/// Reads the states block that starts at `pos`.
pub fn parse_states(chars: &Vec<char>, tokens: &Vec<Token>, pos: usize) -> (r: Result<
    (StatesBlock, usize),
    Error,
>)
    requires
        within(tokens@, chars@.len() as int),
        pos <= tokens.len(),
    ensures
        match r {
            Ok((block, next)) => states_at(chars@, tokens@, pos as int) == Ok::<
                (Seq<(Seq<char>, Seq<Attribute>)>, int),
                Error,
            >((block@, next as int)) && pos < next <= tokens.len() && block.wf(),
            Err(e) => states_at(chars@, tokens@, pos as int) == Err::<
                (Seq<(Seq<char>, Seq<Attribute>)>, int),
                Error,
            >(e),
        },
{
    if tokens.len() - pos < 3 {
        return Err(Error::SyntaxError);
    }
    if !word_here(chars, tokens, pos, "state") || tokens[pos + 1].kind != TokenKind::Assign
        || tokens[pos + 2].kind != TokenKind::LBrace {
        return Err(Error::SyntaxError);
    }
    let mut block = StatesBlock::new();
    let ghost start = pos + 3;
    let mut at: usize = pos + 3;
    assert(block@ =~= Seq::<(Seq<char>, Seq<Attribute>)>::empty());
    loop
        invariant
            within(tokens@, chars@.len() as int),
            pos + 3 <= at <= tokens.len(),
            start == pos + 3,
            block.wf(),
            states_at(chars@, tokens@, pos as int) == states_from(
                chars@,
                tokens@,
                start,
                Seq::empty(),
            ),
            states_from(chars@, tokens@, at as int, block@) == states_from(
                chars@,
                tokens@,
                start,
                Seq::empty(),
            ),
        decreases tokens.len() - at,
    {
        if at >= tokens.len() {
            return Err(Error::SyntaxError);
        }
        if tokens[at].kind == TokenKind::RBrace {
            return Ok((block, at + 1));
        }
        let (name, attributes, next) = match parse_state(chars, tokens, at) {
            Ok(found) => found,
            Err(e) => {
                return Err(e);
            },
        };
        block.insert(name, attributes);
        at = next;
    }
}

/// The binary operator that the token at `pos` writes, where it is one
/// of precedence level `level`: level 0 holds `and` and `or`, level 1 `=`
/// and `!=`, level 2 the orderings, level 3 `+` and `-`, level 4 `*` and
/// `/`.
pub open spec fn operator_at(chars: Seq<char>, tokens: Seq<Token>, pos: int, level: int) -> Option<
    BinaryOp,
> {
    let kind = kind_at(tokens, pos);
    if level == 0 {
        if word_at(chars, tokens, pos) == Some("and"@) {
            Some(BinaryOp::And)
        } else if word_at(chars, tokens, pos) == Some("or"@) {
            Some(BinaryOp::Or)
        } else {
            None
        }
    } else if level == 1 {
        if kind == Some(TokenKind::Equal) {
            Some(BinaryOp::Equal)
        } else if kind == Some(TokenKind::NotEqual) {
            Some(BinaryOp::NotEqual)
        } else {
            None
        }
    } else if level == 2 {
        if kind == Some(TokenKind::Less) {
            Some(BinaryOp::LessThan)
        } else if kind == Some(TokenKind::LessEqual) {
            Some(BinaryOp::LessThanOrEqualTo)
        } else if kind == Some(TokenKind::Greater) {
            Some(BinaryOp::GreaterThan)
        } else if kind == Some(TokenKind::GreaterEqual) {
            Some(BinaryOp::GreaterThanOrEqualTo)
        } else {
            None
        }
    } else if level == 3 {
        if kind == Some(TokenKind::Plus) {
            Some(BinaryOp::Add)
        } else if kind == Some(TokenKind::Minus) {
            Some(BinaryOp::Sub)
        } else {
            None
        }
    } else if level == 4 {
        if kind == Some(TokenKind::Star) {
            Some(BinaryOp::Mul)
        } else if kind == Some(TokenKind::Slash) {
            Some(BinaryOp::Div)
        } else {
            None
        }
    } else {
        None
    }
}

/// The operator `op` on two expressions.
pub open spec fn binary(op: BinaryOp, lhs: ExprModel, rhs: ExprModel) -> ExprModel {
    ExprModel::Binary { op, lhs: Box::new(lhs), rhs: Box::new(rhs) }
}

/// The expression of precedence level `level` that starts at `pos`, and
/// the position behind it. An expression of a level below 5 is a chain of
/// expressions of the next level with operators of its own level between
/// them, grouped from the left; an expression of level 5 is an operand.
pub open spec fn expr_at(chars: Seq<char>, tokens: Seq<Token>, pos: int, level: int) -> Result<
    (ExprModel, int),
    Error,
>
    decreases tokens.len() - pos, 6 - level, 1int,
{
    if pos < 0 || pos >= tokens.len() || level < 0 || level > 5 {
        Err(Error::SyntaxError)
    } else if level == 5 {
        operand_at(chars, tokens, pos)
    } else {
        match expr_at(chars, tokens, pos, level + 1) {
            Err(e) => Err(e),
            Ok((left, next)) => if pos <= next <= tokens.len() {
                chain_at(chars, tokens, next, level, left)
            } else {
                Err(Error::SyntaxError)
            },
        }
    }
}

/// The chain of precedence level `level` that goes on at `pos` behind
/// the expression `left`, and the position behind it.
pub open spec fn chain_at(
    chars: Seq<char>,
    tokens: Seq<Token>,
    pos: int,
    level: int,
    left: ExprModel,
) -> Result<(ExprModel, int), Error>
    decreases tokens.len() - pos, 6 - level, 0int,
{
    if pos < 0 || pos >= tokens.len() || level < 0 || level >= 5 {
        Ok((left, pos))
    } else {
        match operator_at(chars, tokens, pos, level) {
            None => Ok((left, pos)),
            Some(op) => match expr_at(chars, tokens, pos + 1, level + 1) {
                Err(e) => Err(e),
                Ok((right, next)) => if pos < next <= tokens.len() {
                    chain_at(chars, tokens, next, level, binary(op, left, right))
                } else {
                    Err(Error::SyntaxError)
                },
            },
        }
    }
}

/// The operand that starts at `pos`, and the position behind it: a
/// census `neighborhood(Name)`, a number, or an expression in
/// parentheses.
pub open spec fn operand_at(chars: Seq<char>, tokens: Seq<Token>, pos: int) -> Result<
    (ExprModel, int),
    Error,
>
    decreases tokens.len() - pos, 0int, 0int,
{
    if pos < 0 || pos >= tokens.len() {
        Err(Error::SyntaxError)
    } else if kind_at(tokens, pos) == Some(TokenKind::LParen) {
        match expr_at(chars, tokens, pos + 1, 0) {
            Err(e) => Err(e),
            Ok((inner, next)) => if kind_at(tokens, next) == Some(TokenKind::RParen) {
                Ok((inner, next + 1))
            } else {
                Err(Error::SyntaxError)
            },
        }
    } else if word_at(chars, tokens, pos) == Some("neighborhood"@) && kind_at(tokens, pos + 1)
        == Some(TokenKind::LParen) {
        if kind_at(tokens, pos + 2) == Some(TokenKind::Word) && kind_at(tokens, pos + 3) == Some(
            TokenKind::RParen,
        ) {
            Ok((ExprModel::Census(text_of(chars, tokens[pos + 2])), pos + 4))
        } else {
            Err(Error::SyntaxError)
        }
    } else {
        match number_at(chars, tokens, pos, isize::MAX as int) {
            Ok(v) => Ok((ExprModel::Number(v), pos + 1)),
            Err(e) => Err(e),
        }
    }
}

fn parse_operator(chars: &Vec<char>, tokens: &Vec<Token>, pos: usize, level: u8) -> (r: Option<
    BinaryOp,
>)
    requires
        within(tokens@, chars@.len() as int),
    ensures
        r == operator_at(chars@, tokens@, pos as int, level as int),
{
    if pos >= tokens.len() {
        return None;
    }
    let kind = tokens[pos].kind;
    if level == 0 {
        if word_here(chars, tokens, pos, "and") {
            Some(BinaryOp::And)
        } else if word_here(chars, tokens, pos, "or") {
            Some(BinaryOp::Or)
        } else {
            None
        }
    } else if level == 1 {
        if kind == TokenKind::Equal {
            Some(BinaryOp::Equal)
        } else if kind == TokenKind::NotEqual {
            Some(BinaryOp::NotEqual)
        } else {
            None
        }
    } else if level == 2 {
        if kind == TokenKind::Less {
            Some(BinaryOp::LessThan)
        } else if kind == TokenKind::LessEqual {
            Some(BinaryOp::LessThanOrEqualTo)
        } else if kind == TokenKind::Greater {
            Some(BinaryOp::GreaterThan)
        } else if kind == TokenKind::GreaterEqual {
            Some(BinaryOp::GreaterThanOrEqualTo)
        } else {
            None
        }
    } else if level == 3 {
        if kind == TokenKind::Plus {
            Some(BinaryOp::Add)
        } else if kind == TokenKind::Minus {
            Some(BinaryOp::Sub)
        } else {
            None
        }
    } else if level == 4 {
        if kind == TokenKind::Star {
            Some(BinaryOp::Mul)
        } else if kind == TokenKind::Slash {
            Some(BinaryOp::Div)
        } else {
            None
        }
    } else {
        None
    }
}

/// Reads the expression of precedence level `level` that starts at
/// `pos`.
pub fn parse_expr(chars: &Vec<char>, tokens: &Vec<Token>, pos: usize, level: u8) -> (r: Result<
    (RuleASTNode, usize),
    Error,
>)
    requires
        within(tokens@, chars@.len() as int),
        pos <= tokens.len(),
    ensures
        match r {
            Ok((node, next)) => expr_at(chars@, tokens@, pos as int, level as int) == Ok::<
                (ExprModel, int),
                Error,
            >((node.model(), next as int)) && pos <= next <= tokens.len(),
            Err(e) => expr_at(chars@, tokens@, pos as int, level as int) == Err::<
                (ExprModel, int),
                Error,
            >(e),
        },
    decreases tokens.len() - pos, 6 - level, 1int,
{
    if pos >= tokens.len() || level > 5 {
        return Err(Error::SyntaxError);
    }
    if level == 5 {
        return parse_operand(chars, tokens, pos);
    }
    match parse_expr(chars, tokens, pos, level + 1) {
        Err(e) => Err(e),
        Ok((left, next)) => parse_chain(chars, tokens, next, level, left),
    }
}

fn parse_chain(chars: &Vec<char>, tokens: &Vec<Token>, pos: usize, level: u8, left: RuleASTNode) -> (r:
    Result<(RuleASTNode, usize), Error>)
    requires
        within(tokens@, chars@.len() as int),
        pos <= tokens.len(),
        level < 5,
    ensures
        match r {
            Ok((node, next)) => chain_at(
                chars@,
                tokens@,
                pos as int,
                level as int,
                left.model(),
            ) == Ok::<(ExprModel, int), Error>((node.model(), next as int)) && pos <= next
                <= tokens.len(),
            Err(e) => chain_at(chars@, tokens@, pos as int, level as int, left.model()) == Err::<
                (ExprModel, int),
                Error,
            >(e),
        },
    decreases tokens.len() - pos, 6 - level, 0int,
{
    if pos >= tokens.len() {
        return Ok((left, pos));
    }
    let op = match parse_operator(chars, tokens, pos, level) {
        Some(op) => op,
        None => {
            return Ok((left, pos));
        },
    };
    match parse_expr(chars, tokens, pos + 1, level + 1) {
        Err(e) => Err(e),
        Ok((right, next)) => {
            if next <= pos {
                return Err(Error::SyntaxError);
            }
            let joined = RuleASTNode::binary(op, Box::new(left), Box::new(right));
            parse_chain(chars, tokens, next, level, joined)
        },
    }
}

fn parse_operand(chars: &Vec<char>, tokens: &Vec<Token>, pos: usize) -> (r: Result<
    (RuleASTNode, usize),
    Error,
>)
    requires
        within(tokens@, chars@.len() as int),
        pos < tokens.len(),
    ensures
        match r {
            Ok((node, next)) => operand_at(chars@, tokens@, pos as int) == Ok::<
                (ExprModel, int),
                Error,
            >((node.model(), next as int)) && pos < next <= tokens.len(),
            Err(e) => operand_at(chars@, tokens@, pos as int) == Err::<(ExprModel, int), Error>(e),
        },
    decreases tokens.len() - pos, 0int, 0int,
{
    if tokens[pos].kind == TokenKind::LParen {
        return match parse_expr(chars, tokens, pos + 1, 0) {
            Err(e) => Err(e),
            Ok((inner, next)) => match peek(tokens, next) {
                Some(TokenKind::RParen) => Ok((inner, next + 1)),
                _ => Err(Error::SyntaxError),
            },
        };
    }
    if word_here(chars, tokens, pos, "neighborhood") && pos + 1 < tokens.len() && tokens[pos
        + 1].kind == TokenKind::LParen {
        if tokens.len() - pos < 4 {
            return Err(Error::SyntaxError);
        }
        if tokens[pos + 2].kind == TokenKind::Word && tokens[pos + 3].kind == TokenKind::RParen {
            let name = name_of(chars, tokens[pos + 2]);
            return Ok((RuleASTNode::Terminal(RuleTerminal::Census(name)), pos + 4));
        }
        return Err(Error::SyntaxError);
    }
    match parse_number(chars, tokens, pos, isize::MAX as usize) {
        Ok(v) => Ok((RuleASTNode::Terminal(RuleTerminal::Number(v as isize)), pos + 1)),
        Err(e) => Err(e),
    }
}

/// The transition at `pos` and the position behind it:
/// `from A to B := condition`.
pub open spec fn transition_at(chars: Seq<char>, tokens: Seq<Token>, pos: int) -> Result<
    (TransitionModel, int),
    Error,
> {
    if word_at(chars, tokens, pos) == Some("from"@) && kind_at(tokens, pos + 1) == Some(
        TokenKind::Word,
    ) && word_at(chars, tokens, pos + 2) == Some("to"@) && kind_at(tokens, pos + 3) == Some(
        TokenKind::Word,
    ) && kind_at(tokens, pos + 4) == Some(TokenKind::Assign) {
        match expr_at(chars, tokens, pos + 5, 0) {
            Ok((root, next)) => Ok(
                (
                    TransitionModel {
                        from: text_of(chars, tokens[pos + 1]),
                        to: text_of(chars, tokens[pos + 3]),
                        root,
                    },
                    next,
                ),
            ),
            Err(e) => Err(e),
        }
    } else {
        Err(Error::SyntaxError)
    }
}

/// The transitions from `pos` to the closing brace, behind the
/// transitions `acc`, and the position behind the brace.
pub open spec fn transitions_at(
    chars: Seq<char>,
    tokens: Seq<Token>,
    pos: int,
    acc: Seq<TransitionModel>,
) -> Result<(Seq<TransitionModel>, int), Error>
    decreases tokens.len() - pos,
{
    if pos < 0 || pos >= tokens.len() {
        Err(Error::SyntaxError)
    } else if kind_at(tokens, pos) == Some(TokenKind::RBrace) {
        Ok((acc, pos + 1))
    } else {
        match transition_at(chars, tokens, pos) {
            Err(e) => Err(e),
            Ok((rule, next)) => if pos < next <= tokens.len() {
                transitions_at(chars, tokens, next, acc.push(rule))
            } else {
                Err(Error::SyntaxError)
            },
        }
    }
}

/// The rules block that starts at `pos`, and the position behind it:
/// `rule := { transition ... }`.
pub open spec fn rules_block_at(chars: Seq<char>, tokens: Seq<Token>, pos: int) -> Result<
    (Seq<TransitionModel>, int),
    Error,
> {
    if word_at(chars, tokens, pos) == Some("rule"@) && kind_at(tokens, pos + 1) == Some(
        TokenKind::Assign,
    ) && kind_at(tokens, pos + 2) == Some(TokenKind::LBrace) {
        transitions_at(chars, tokens, pos + 3, Seq::empty())
    } else {
        Err(Error::SyntaxError)
    }
}

fn parse_transition(chars: &Vec<char>, tokens: &Vec<Token>, pos: usize) -> (r: Result<
    (TransitionRule, usize),
    Error,
>)
    requires
        within(tokens@, chars@.len() as int),
        pos < tokens.len(),
    ensures
        match r {
            Ok((rule, next)) => transition_at(chars@, tokens@, pos as int) == Ok::<
                (TransitionModel, int),
                Error,
            >((rule.model(), next as int)) && pos < next <= tokens.len(),
            Err(e) => transition_at(chars@, tokens@, pos as int) == Err::<
                (TransitionModel, int),
                Error,
            >(e),
        },
{
    if tokens.len() - pos < 5 {
        return Err(Error::SyntaxError);
    }
    if !word_here(chars, tokens, pos, "from") || tokens[pos + 1].kind != TokenKind::Word
        || !word_here(chars, tokens, pos + 2, "to") || tokens[pos + 3].kind != TokenKind::Word
        || tokens[pos + 4].kind != TokenKind::Assign {
        return Err(Error::SyntaxError);
    }
    let from = name_of(chars, tokens[pos + 1]);
    let to = name_of(chars, tokens[pos + 3]);
    match parse_expr(chars, tokens, pos + 5, 0) {
        Ok((root, next)) => Ok((TransitionRule { from, to, root: Box::new(root) }, next)),
        Err(e) => Err(e),
    }
}

/// Reads the rules block that starts at `pos`.
pub fn parse_rules(chars: &Vec<char>, tokens: &Vec<Token>, pos: usize) -> (r: Result<
    (RulesBlock, usize),
    Error,
>)
    requires
        within(tokens@, chars@.len() as int),
        pos <= tokens.len(),
    ensures
        match r {
            Ok((block, next)) => rules_block_at(chars@, tokens@, pos as int) == Ok::<
                (Seq<TransitionModel>, int),
                Error,
            >((block.model(), next as int)) && pos < next <= tokens.len(),
            Err(e) => rules_block_at(chars@, tokens@, pos as int) == Err::<
                (Seq<TransitionModel>, int),
                Error,
            >(e),
        },
{
    if tokens.len() - pos < 3 {
        return Err(Error::SyntaxError);
    }
    if !word_here(chars, tokens, pos, "rule") || tokens[pos + 1].kind != TokenKind::Assign
        || tokens[pos + 2].kind != TokenKind::LBrace {
        return Err(Error::SyntaxError);
    }
    let mut rules: Vec<TransitionRule> = Vec::new();
    let ghost start = pos + 3;
    let mut at: usize = pos + 3;
    assert(transition_models(rules@) =~= Seq::<TransitionModel>::empty());
    loop
        invariant
            within(tokens@, chars@.len() as int),
            pos + 3 <= at <= tokens.len(),
            start == pos + 3,
            rules_block_at(chars@, tokens@, pos as int) == transitions_at(
                chars@,
                tokens@,
                start,
                Seq::empty(),
            ),
            transitions_at(chars@, tokens@, at as int, transition_models(rules@)) == transitions_at(
                chars@,
                tokens@,
                start,
                Seq::empty(),
            ),
        decreases tokens.len() - at,
    {
        if at >= tokens.len() {
            return Err(Error::SyntaxError);
        }
        if tokens[at].kind == TokenKind::RBrace {
            return Ok((RulesBlock::new(rules), at + 1));
        }
        let (rule, next) = match parse_transition(chars, tokens, at) {
            Ok(found) => found,
            Err(e) => {
                return Err(e);
            },
        };
        let ghost before = transition_models(rules@);
        let ghost added = rule.model();
        rules.push(rule);
        assert(transition_models(rules@) =~= before.push(added));
        at = next;
    }
}


/// What a block parser found, where the block spans all `len` tokens; a
/// syntax error where tokens are left over.
pub open spec fn whole<T>(found: Result<(T, int), Error>, len: int) -> Result<T, Error> {
    match found {
        Ok((block, next)) => if next == len {
            Ok(block)
        } else {
            Err(Error::SyntaxError)
        },
        Err(e) => Err(e),
    }
}

/// The boundary block that a text writes.
pub open spec fn boundary_of(text: Seq<char>) -> Result<BoundaryModel, Error> {
    match lex(text) {
        Some(tokens) => whole(boundary_at(text, tokens, 0), tokens.len() as int),
        None => Err(Error::SyntaxError),
    }
}

/// The environment block that a text writes.
pub open spec fn environment_of(text: Seq<char>) -> Result<EnvironmentBlock, Error> {
    match lex(text) {
        Some(tokens) => whole(environment_at(text, tokens, 0), tokens.len() as int),
        None => Err(Error::SyntaxError),
    }
}

/// The neighbourhood block that a text writes.
pub open spec fn neighborhood_of(text: Seq<char>) -> Result<NeighborhoodModel, Error> {
    match lex(text) {
        Some(tokens) => whole(neighborhood_at(text, tokens, 0), tokens.len() as int),
        None => Err(Error::SyntaxError),
    }
}

/// The states block that a text writes.
pub open spec fn states_of(text: Seq<char>) -> Result<Seq<(Seq<char>, Seq<Attribute>)>, Error> {
    match lex(text) {
        Some(tokens) => whole(states_at(text, tokens, 0), tokens.len() as int),
        None => Err(Error::SyntaxError),
    }
}

/// The rules block that a text writes.
pub open spec fn rules_of(text: Seq<char>) -> Result<Seq<TransitionModel>, Error> {
    match lex(text) {
        Some(tokens) => whole(rules_block_at(text, tokens, 0), tokens.len() as int),
        None => Err(Error::SyntaxError),
    }
}

impl BoundaryBlock {
    /// Reads a boundary block from its text.
    pub fn parse(text: &str) -> (r: Result<BoundaryBlock, Error>)
        ensures
            match r {
                Ok(block) => boundary_of(text@) == Ok::<BoundaryModel, Error>(block.model()),
                Err(e) => boundary_of(text@) == Err::<BoundaryModel, Error>(e),
            },
    {
        let chars = chars_of(text);
        let tokens = match tokenize(&chars) {
            Some(tokens) => tokens,
            None => {
                return Err(Error::SyntaxError);
            },
        };
        match parse_boundary(&chars, &tokens, 0) {
            Ok((block, next)) => if next == tokens.len() {
                Ok(block)
            } else {
                Err(Error::SyntaxError)
            },
            Err(e) => Err(e),
        }
    }
}

impl EnvironmentBlock {
    /// Reads an environment block from its text.
    pub fn parse(text: &str) -> (r: Result<EnvironmentBlock, Error>)
        ensures
            r == environment_of(text@),
    {
        let chars = chars_of(text);
        let tokens = match tokenize(&chars) {
            Some(tokens) => tokens,
            None => {
                return Err(Error::SyntaxError);
            },
        };
        match parse_environment(&chars, &tokens, 0) {
            Ok((block, next)) => if next == tokens.len() {
                Ok(block)
            } else {
                Err(Error::SyntaxError)
            },
            Err(e) => Err(e),
        }
    }
}

impl NeighborhoodBlock {
    /// Reads a neighbourhood block from its text.
    pub fn parse(text: &str) -> (r: Result<NeighborhoodBlock, Error>)
        ensures
            match r {
                Ok(block) => neighborhood_of(text@) == Ok::<NeighborhoodModel, Error>(block.model()),
                Err(e) => neighborhood_of(text@) == Err::<NeighborhoodModel, Error>(e),
            },
    {
        let chars = chars_of(text);
        let tokens = match tokenize(&chars) {
            Some(tokens) => tokens,
            None => {
                return Err(Error::SyntaxError);
            },
        };
        match parse_neighborhood(&chars, &tokens, 0) {
            Ok((block, next)) => if next == tokens.len() {
                Ok(block)
            } else {
                Err(Error::SyntaxError)
            },
            Err(e) => Err(e),
        }
    }
}

impl StatesBlock {
    /// Reads a states block from its text.
    pub fn parse(text: &str) -> (r: Result<StatesBlock, Error>)
        ensures
            match r {
                Ok(block) => block.wf() && states_of(text@) == Ok::<
                    Seq<(Seq<char>, Seq<Attribute>)>,
                    Error,
                >(block@),
                Err(e) => states_of(text@) == Err::<Seq<(Seq<char>, Seq<Attribute>)>, Error>(e),
            },
    {
        let chars = chars_of(text);
        let tokens = match tokenize(&chars) {
            Some(tokens) => tokens,
            None => {
                return Err(Error::SyntaxError);
            },
        };
        match parse_states(&chars, &tokens, 0) {
            Ok((block, next)) => if next == tokens.len() {
                Ok(block)
            } else {
                Err(Error::SyntaxError)
            },
            Err(e) => Err(e),
        }
    }
}

impl RulesBlock {
    /// Reads a rules block from its text.
    pub fn parse(text: &str) -> (r: Result<RulesBlock, Error>)
        ensures
            match r {
                Ok(block) => rules_of(text@) == Ok::<Seq<TransitionModel>, Error>(block.model()),
                Err(e) => rules_of(text@) == Err::<Seq<TransitionModel>, Error>(e),
            },
    {
        let chars = chars_of(text);
        let tokens = match tokenize(&chars) {
            Some(tokens) => tokens,
            None => {
                return Err(Error::SyntaxError);
            },
        };
        match parse_rules(&chars, &tokens, 0) {
            Ok((block, next)) => if next == tokens.len() {
                Ok(block)
            } else {
                Err(Error::SyntaxError)
            },
            Err(e) => Err(e),
        }
    }
}

/// The mathematical content of the five blocks of a program, as far as
/// they are given.
pub ghost struct ProgramModel {
    pub boundary: Option<BoundaryModel>,
    pub environment: Option<EnvironmentBlock>,
    pub neighborhood: Option<NeighborhoodModel>,
    pub states: Option<Seq<(Seq<char>, Seq<Attribute>)>>,
    pub rules: Option<Seq<TransitionModel>>,
}

impl ProgramModel {
    /// No block is given.
    pub open spec fn empty() -> ProgramModel {
        ProgramModel { boundary: None, environment: None, neighborhood: None, states: None, rules: None }
    }

    /// Whether every one of the five blocks is given.
    pub open spec fn complete(self) -> bool {
        &&& self.boundary is Some
        &&& self.environment is Some
        &&& self.neighborhood is Some
        &&& self.states is Some
        &&& self.rules is Some
    }
}

impl ProgramBuilder {
    /// The blocks of the builder as mathematical values.
    pub open spec fn model(self) -> ProgramModel {
        ProgramModel {
            boundary: match self.boundary_block() {
                Some(b) => Some(b.model()),
                None => None,
            },
            environment: self.environment_block(),
            neighborhood: match self.neighborhood_block() {
                Some(n) => Some(n.model()),
                None => None,
            },
            states: match self.states_block() {
                Some(s) => Some(s@),
                None => None,
            },
            rules: match self.rules_block() {
                Some(r) => Some(r.model()),
                None => None,
            },
        }
    }
}

/// The blocks `acc` with the block that starts at `pos` added, and the
/// position behind that block. The block starts with its keyword; a
/// block that is given already is a multiple definition.
pub open spec fn block_at(chars: Seq<char>, tokens: Seq<Token>, pos: int, acc: ProgramModel) -> Result<
    (ProgramModel, int),
    Error,
> {
    if word_at(chars, tokens, pos) == Some("boundary"@) {
        if acc.boundary is Some {
            Err(Error::MultipleDefinitionsForBlock)
        } else {
            match boundary_at(chars, tokens, pos) {
                Ok((block, next)) => Ok((ProgramModel { boundary: Some(block), ..acc }, next)),
                Err(e) => Err(e),
            }
        }
    } else if word_at(chars, tokens, pos) == Some("environment"@) {
        if acc.environment is Some {
            Err(Error::MultipleDefinitionsForBlock)
        } else {
            match environment_at(chars, tokens, pos) {
                Ok((block, next)) => Ok((ProgramModel { environment: Some(block), ..acc }, next)),
                Err(e) => Err(e),
            }
        }
    } else if word_at(chars, tokens, pos) == Some("neighborhood"@) {
        if acc.neighborhood is Some {
            Err(Error::MultipleDefinitionsForBlock)
        } else {
            match neighborhood_at(chars, tokens, pos) {
                Ok((block, next)) => Ok((ProgramModel { neighborhood: Some(block), ..acc }, next)),
                Err(e) => Err(e),
            }
        }
    } else if word_at(chars, tokens, pos) == Some("state"@) {
        if acc.states is Some {
            Err(Error::MultipleDefinitionsForBlock)
        } else {
            match states_at(chars, tokens, pos) {
                Ok((block, next)) => Ok((ProgramModel { states: Some(block), ..acc }, next)),
                Err(e) => Err(e),
            }
        }
    } else if word_at(chars, tokens, pos) == Some("rule"@) {
        if acc.rules is Some {
            Err(Error::MultipleDefinitionsForBlock)
        } else {
            match rules_block_at(chars, tokens, pos) {
                Ok((block, next)) => Ok((ProgramModel { rules: Some(block), ..acc }, next)),
                Err(e) => Err(e),
            }
        }
    } else {
        Err(Error::SyntaxError)
    }
}

/// The program that the blocks from `pos` on complete, given the blocks
/// `acc` in front of them. A program without one of the five blocks
/// misses a block.
pub open spec fn program_from(chars: Seq<char>, tokens: Seq<Token>, pos: int, acc: ProgramModel) -> Result<
    ProgramModel,
    Error,
>
    decreases tokens.len() - pos,
{
    if pos < 0 || pos >= tokens.len() {
        if acc.complete() {
            Ok(acc)
        } else {
            Err(Error::MissingBlock)
        }
    } else {
        match block_at(chars, tokens, pos, acc) {
            Ok((more, next)) => if pos < next <= tokens.len() {
                program_from(chars, tokens, next, more)
            } else {
                Err(Error::SyntaxError)
            },
            Err(e) => Err(e),
        }
    }
}

/// The program that a text writes: its five blocks, each exactly once
/// and in any order.
pub open spec fn program(text: Seq<char>) -> Result<ProgramModel, Error> {
    match lex(text) {
        Some(tokens) => program_from(text, tokens, 0, ProgramModel::empty()),
        None => Err(Error::SyntaxError),
    }
}

/// Reads the block that starts at `pos` into `builder`.
fn parse_block(chars: &Vec<char>, tokens: &Vec<Token>, pos: usize, builder: &mut ProgramBuilder) -> (r:
    Result<usize, Error>)
    requires
        within(tokens@, chars@.len() as int),
        pos < tokens.len(),
    ensures
        match r {
            Ok(next) => block_at(chars@, tokens@, pos as int, old(builder).model()) == Ok::<
                (ProgramModel, int),
                Error,
            >((final(builder).model(), next as int)) && pos < next <= tokens.len(),
            Err(e) => block_at(chars@, tokens@, pos as int, old(builder).model()) == Err::<
                (ProgramModel, int),
                Error,
            >(e),
        },
{
    if word_here(chars, tokens, pos, "boundary") {
        if builder.has_boundary() {
            return Err(Error::MultipleDefinitionsForBlock);
        }
        match parse_boundary(chars, tokens, pos) {
            Ok((block, next)) => {
                builder.boundary(block);
                Ok(next)
            },
            Err(e) => Err(e),
        }
    } else if word_here(chars, tokens, pos, "environment") {
        if builder.has_environment() {
            return Err(Error::MultipleDefinitionsForBlock);
        }
        match parse_environment(chars, tokens, pos) {
            Ok((block, next)) => {
                builder.environment(block);
                Ok(next)
            },
            Err(e) => Err(e),
        }
    } else if word_here(chars, tokens, pos, "neighborhood") {
        if builder.has_neighborhood() {
            return Err(Error::MultipleDefinitionsForBlock);
        }
        match parse_neighborhood(chars, tokens, pos) {
            Ok((block, next)) => {
                builder.neighborhood(block);
                Ok(next)
            },
            Err(e) => Err(e),
        }
    } else if word_here(chars, tokens, pos, "state") {
        if builder.has_states() {
            return Err(Error::MultipleDefinitionsForBlock);
        }
        match parse_states(chars, tokens, pos) {
            Ok((block, next)) => {
                builder.states(block);
                Ok(next)
            },
            Err(e) => Err(e),
        }
    } else if word_here(chars, tokens, pos, "rule") {
        if builder.has_rules() {
            return Err(Error::MultipleDefinitionsForBlock);
        }
        match parse_rules(chars, tokens, pos) {
            Ok((block, next)) => {
                builder.rules(block);
                Ok(next)
            },
            Err(e) => Err(e),
        }
    } else {
        Err(Error::SyntaxError)
    }
}

/// Reads a program: its five blocks, each exactly once and in any order.
pub fn parse_program(s: &str) -> (r: Result<ProgramBuilder, Error>)
    ensures
        match r {
            Ok(builder) => program(s@) == Ok::<ProgramModel, Error>(builder.model())
                && builder.complete(),
            Err(e) => program(s@) == Err::<ProgramModel, Error>(e),
        },
{
    let chars = chars_of(s);
    let tokens = match tokenize(&chars) {
        Some(tokens) => tokens,
        None => {
            return Err(Error::SyntaxError);
        },
    };
    let mut builder = ProgramBuilder::new();
    let mut pos: usize = 0;
    while pos < tokens.len()
        invariant
            chars@ == s@,
            lex(s@) == Some(tokens@),
            within(tokens@, chars@.len() as int),
            pos <= tokens.len(),
            program(s@) == program_from(chars@, tokens@, pos as int, builder.model()),
        decreases tokens.len() - pos,
    {
        match parse_block(&chars, &tokens, pos, &mut builder) {
            Ok(next) => {
                pos = next;
            },
            Err(e) => {
                return Err(e);
            },
        }
    }
    if builder.is_complete() {
        Ok(builder)
    } else {
        Err(Error::MissingBlock)
    }
}

} // verus!
