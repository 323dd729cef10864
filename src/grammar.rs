//! The lexical grammar, stated over sequences of characters and positions.
use vstd::prelude::*;

use crate::token::{classify_word, LexError, TokenView};

verus! {

/// Whitespace between tokens: space, tab and newline.
pub open spec fn is_space(c: char) -> bool {
    c == ' ' || c == '\t' || c == '\n'
}

/// Operator and punctuation characters, each of which starts a token of its
/// own (the brackets and `/` are handled apart).
pub open spec fn is_symbol(c: char) -> bool {
    c == '+' || c == '-' || c == '*' || c == '%' || c == '^' || c == '<' || c == '>' || c == '!'
        || c == '=' || c == ',' || c == ';' || c == '(' || c == ')' || c == '{' || c == '}'
}

/// Characters at which a word stops.
pub open spec fn ends_word(c: char) -> bool {
    is_space(c) || c == '#' || c == '"' || c == '/' || is_symbol(c)
}

/// The first position at or after `i` that does not hold whitespace.
pub open spec fn space_end(s: Seq<char>, i: nat) -> nat
    decreases s.len() - i,
{
    if i < s.len() && is_space(s[i as int]) {
        space_end(s, i + 1)
    } else {
        i
    }
}

/// The first position at or after `i` that holds a newline, or the length.
pub open spec fn line_end(s: Seq<char>, i: nat) -> nat
    decreases s.len() - i,
{
    if i < s.len() && s[i as int] != '\n' {
        line_end(s, i + 1)
    } else {
        i
    }
}

/// Where the whitespace and comments that start at `i` end; `in_comment`
/// says that `i` lies inside a comment, which a newline closes.
pub open spec fn trivia_end(s: Seq<char>, i: nat, in_comment: bool) -> nat
    decreases s.len() - i,
{
    if i >= s.len() {
        i
    } else if in_comment {
        trivia_end(s, i + 1, s[i as int] != '\n')
    } else if is_space(s[i as int]) {
        trivia_end(s, i + 1, false)
    } else if s[i as int] == '#' {
        trivia_end(s, i + 1, true)
    } else {
        i
    }
}

/// The position of the quote `q` that closes a literal whose text starts at
/// `k`; a backslash right before `q` makes that `q` part of the text.
pub open spec fn closing(s: Seq<char>, k: nat, q: char) -> Option<nat>
    decreases s.len() - k,
{
    if k >= s.len() {
        None
    } else if s[k as int] == q {
        Some(k)
    } else if s[k as int] == '\\' && k + 1 < s.len() && s[k + 1int] == q {
        closing(s, k + 2, q)
    } else {
        closing(s, k + 1, q)
    }
}

/// Where the word that continues at `k` ends.
pub open spec fn word_end(s: Seq<char>, k: nat) -> nat
    decreases s.len() - k,
{
    if k < s.len() && !ends_word(s[k as int]) {
        word_end(s, k + 1)
    } else {
        k
    }
}

/// The operator or punctuation token at `j`, where `s[j]` is a symbol, and
/// its length: a second character completes a compound operator where it can.
pub open spec fn symbol_token(s: Seq<char>, j: nat) -> (TokenView, nat) {
    let c = s[j as int];
    let eq = j + 1 < s.len() && s[j + 1int] == '=';
    let twice = j + 1 < s.len() && s[j + 1int] == c;
    if c == '+' {
        if twice {
            (TokenView::DoublePlus, 2)
        } else if eq {
            (TokenView::PlusEqual, 2)
        } else {
            (TokenView::Plus, 1)
        }
    } else if c == '-' {
        if twice {
            (TokenView::DoubleMinus, 2)
        } else if eq {
            (TokenView::MinusEqual, 2)
        } else {
            (TokenView::Minus, 1)
        }
    } else if c == '*' {
        if eq { (TokenView::TimesEqual, 2) } else { (TokenView::Multiply, 1) }
    } else if c == '%' {
        if eq { (TokenView::ModEqual, 2) } else { (TokenView::Modulus, 1) }
    } else if c == '^' {
        if eq { (TokenView::PowEqual, 2) } else { (TokenView::Pow, 1) }
    } else if c == '<' {
        if eq { (TokenView::LessEqual, 2) } else { (TokenView::Less, 1) }
    } else if c == '>' {
        if eq { (TokenView::GreaterEqual, 2) } else { (TokenView::Greater, 1) }
    } else if c == '!' {
        if eq { (TokenView::NotEqual, 2) } else { (TokenView::Not, 1) }
    } else if c == '=' {
        if eq { (TokenView::Equal, 2) } else { (TokenView::Other(seq!['=']), 1) }
    } else if c == ',' {
        (TokenView::Comma, 1)
    } else if c == ';' {
        (TokenView::SemiColon, 1)
    } else if c == '(' {
        (TokenView::LeftParen, 1)
    } else if c == ')' {
        (TokenView::RightParen, 1)
    } else if c == '{' {
        (TokenView::LeftCurly, 1)
    } else {
        (TokenView::RightCurly, 1)
    }
}

/// What one scan returns: a token, the end of input, or an error.
pub type Outcome = Result<Option<TokenView>, LexError>;

/// The token that starts at `j`, where `s[j]` is neither whitespace nor `#`,
/// and the position right after it (on an error: `j` itself).
pub open spec fn token_at(s: Seq<char>, j: nat) -> (Outcome, nat) {
    let c = s[j as int];
    if c == '"' {
        match closing(s, j + 1, '"') {
            Some(e) => (Ok(Some(TokenView::String(s.subrange(j + 1int, e as int)))), e + 1),
            None => (Err(LexError::UnterminatedString(j as usize)), j),
        }
    } else if c == '/' {
        match closing(s, j + 1, '/') {
            Some(e) => (Ok(Some(TokenView::RegExp(s.subrange(j + 1int, e as int)))), e + 1),
            None => (Err(LexError::UnterminatedRegExp(j as usize)), j),
        }
    } else if c == '[' {
        (Ok(Some(TokenView::LeftSquare)), j + 1)
    } else if c == ']' {
        (Ok(Some(TokenView::RightSquare)), j + 1)
    } else if is_symbol(c) {
        (Ok(Some(symbol_token(s, j).0)), j + symbol_token(s, j).1)
    } else {
        let e = word_end(s, j + 1);
        (Ok(Some(classify_word(s.subrange(j as int, e as int)))), e)
    }
}

/// One scan from cursor `i`: skip whitespace and comments, then read one
/// token. Returns the outcome and the cursor after it.
pub open spec fn lex_step(s: Seq<char>, i: nat) -> (Outcome, nat) {
    let j = trivia_end(s, i, false);
    if j >= s.len() {
        (Ok(None), j)
    } else {
        token_at(s, j)
    }
}


pub proof fn lemma_space_end(s: Seq<char>, i: nat)
    requires
        i <= s.len(),
    ensures
        i <= space_end(s, i) <= s.len(),
        i < s.len() && is_space(s[i as int]) ==> i < space_end(s, i),
        trivia_end(s, i, false) == trivia_end(s, space_end(s, i), false),
    decreases s.len() - i,
{
    if i < s.len() && is_space(s[i as int]) {
        lemma_space_end(s, i + 1);
    }
}

proof fn lemma_comment_end(s: Seq<char>, j: nat)
    requires
        j <= s.len(),
    ensures
        j <= line_end(s, j) <= s.len(),
        trivia_end(s, j, true) == trivia_end(s, line_end(s, j), false),
    decreases s.len() - j,
{
    if j < s.len() && s[j as int] != '\n' {
        lemma_comment_end(s, j + 1);
    }
}

pub proof fn lemma_line_end(s: Seq<char>, i: nat)
    requires
        i < s.len(),
        s[i as int] == '#',
    ensures
        i < line_end(s, i) <= s.len(),
        trivia_end(s, i, false) == trivia_end(s, line_end(s, i), false),
{
    lemma_comment_end(s, i + 1);
}

pub proof fn lemma_trivia_end(s: Seq<char>, i: nat, in_comment: bool)
    requires
        i <= s.len(),
    ensures
        i <= trivia_end(s, i, in_comment) <= s.len(),
        trivia_end(s, i, in_comment) < s.len() ==> !is_space(s[trivia_end(s, i, in_comment) as int])
            && s[trivia_end(s, i, in_comment) as int] != '#',
    decreases s.len() - i,
{
    if i < s.len() {
        if in_comment {
            lemma_trivia_end(s, i + 1, s[i as int] != '\n');
        } else if is_space(s[i as int]) || s[i as int] == '#' {
            lemma_trivia_end(s, i + 1, s[i as int] == '#');
        }
    }
}

pub proof fn lemma_closing(s: Seq<char>, k: nat, q: char)
    ensures
        closing(s, k, q) matches Some(e) ==> k <= e < s.len() && s[e as int] == q,
    decreases s.len() - k,
{
    if k < s.len() && s[k as int] != q {
        if s[k as int] == '\\' && k + 1 < s.len() && s[k + 1int] == q {
            lemma_closing(s, k + 2, q);
        } else {
            lemma_closing(s, k + 1, q);
        }
    }
}

pub proof fn lemma_word_end(s: Seq<char>, k: nat)
    requires
        k <= s.len(),
    ensures
        k <= word_end(s, k) <= s.len(),
        forall|m: int| k <= m < word_end(s, k) ==> !ends_word(#[trigger] s[m]),
    decreases s.len() - k,
{
    if k < s.len() && !ends_word(s[k as int]) {
        lemma_word_end(s, k + 1);
    }
}

/// A scan from a cursor within the text leaves the cursor within the text,
/// and moves it forward whenever a token comes out.
pub proof fn lemma_step_bounds(s: Seq<char>, i: nat)
    requires
        i <= s.len(),
    ensures
        i <= lex_step(s, i).1 <= s.len(),
        lex_step(s, i).0 matches Ok(Some(_)) ==> i <= trivia_end(s, i, false) < lex_step(s, i).1,
{
    let j = trivia_end(s, i, false);
    lemma_trivia_end(s, i, false);
    if j < s.len() {
        lemma_closing(s, j + 1, s[j as int]);
        lemma_word_end(s, j + 1);
    }
}


/// Lexing from cursor `i` to the end: the tokens in order, and the error
/// that stopped the scan, if one did.
pub open spec fn lex_from(s: Seq<char>, i: nat) -> (Seq<TokenView>, Option<LexError>)
    decreases s.len() - i,
{
    let st = lex_step(s, i);
    match st.0 {
        Ok(Some(t)) => if i < st.1 <= s.len() {
            let rest = lex_from(s, st.1);
            (seq![t] + rest.0, rest.1)
        } else {
            (seq![t], None)
        },
        Ok(None) => (Seq::empty(), None),
        Err(e) => (Seq::empty(), Some(e)),
    }
}

} // verus!
