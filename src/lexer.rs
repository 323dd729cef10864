//! The lexer: a source text, a cursor into it, and a one-token lookahead.
use vstd::prelude::*;

use crate::grammar::{
    closing, ends_word, is_space, is_symbol, lemma_line_end, lemma_space_end, lemma_step_bounds,
    lemma_word_end, lex_step, line_end, space_end, symbol_token, token_at, trivia_end, word_end,
    Outcome,
};
use crate::token::{classify, string_from_chars, LexError, Token, TokenView};

verus! {

/// The mathematical value of what a scan returns.
pub open spec fn outcome_view(r: Result<Option<Token>, LexError>) -> Outcome {
    match r {
        Ok(Some(t)) => Ok(Some(t@)),
        Ok(None) => Ok(None),
        Err(e) => Err(e),
    }
}

/// Where the run of whitespace that ends at `k` begins.
pub open spec fn space_start(s: Seq<char>, k: nat) -> nat
    decreases k,
{
    if 0 < k <= s.len() && is_space(s[k - 1]) {
        space_start(s, (k - 1) as nat)
    } else {
        k
    }
}

/// `s` without the whitespace at either end.
pub open spec fn trim(s: Seq<char>) -> Seq<char> {
    let a = space_end(s, 0);
    let b = space_start(s, s.len());
    if a < b {
        s.subrange(a as int, b as int)
    } else {
        Seq::empty()
    }
}

/// Neither end of `s` is whitespace.
pub open spec fn is_trimmed(s: Seq<char>) -> bool {
    s.len() > 0 ==> !is_space(s[0]) && !is_space(s.last())
}

fn is_space_char(c: char) -> (r: bool)
    ensures
        r == is_space(c),
{
    c == ' ' || c == '\t' || c == '\n'
}

fn is_symbol_char(c: char) -> (r: bool)
    ensures
        r == is_symbol(c),
{
    c == '+' || c == '-' || c == '*' || c == '%' || c == '^' || c == '<' || c == '>' || c == '!'
        || c == '=' || c == ',' || c == ';' || c == '(' || c == ')' || c == '{' || c == '}'
}

fn ends_word_char(c: char) -> (r: bool)
    ensures
        r == ends_word(c),
{
    is_space_char(c) || c == '#' || c == '"' || c == '/' || is_symbol_char(c)
}

fn clone_outcome(r: &Result<Option<Token>, LexError>) -> (c: Result<Option<Token>, LexError>)
    ensures
        c == *r,
{
    match r {
        Ok(Some(t)) => Ok(Some(t.clone())),
        Ok(None) => Ok(None),
        Err(e) => Err(*e),
    }
}

/// Relies on `str::chars` collected into a `Vec`: the characters of the
/// string, in order.
#[verifier::external_body]
fn chars_of(s: &str) -> (r: Vec<char>)
    ensures
        r@ == s@,
{
    s.chars().collect()
}

proof fn lemma_space_end_bounds(s: Seq<char>, i: nat)
    requires
        i <= s.len(),
    ensures
        i <= space_end(s, i) <= s.len(),
        space_end(s, i) < s.len() ==> !is_space(s[space_end(s, i) as int]),
        forall|k: int| i <= k < space_end(s, i) ==> is_space(#[trigger] s[k]),
    decreases s.len() - i,
{
    if i < s.len() && is_space(s[i as int]) {
        lemma_space_end_bounds(s, i + 1);
    }
}

proof fn lemma_space_start_bounds(s: Seq<char>, k: nat)
    requires
        k <= s.len(),
    ensures
        space_start(s, k) <= k,
        space_start(s, k) > 0 ==> !is_space(s[space_start(s, k) - 1]),
        forall|m: int| space_start(s, k) <= m < k ==> is_space(#[trigger] s[m]),
    decreases k,
{
    if 0 < k && is_space(s[k - 1]) {
        lemma_space_start_bounds(s, (k - 1) as nat);
    }
}

/// What `trim` leaves is trimmed.
pub proof fn lemma_trim_ends(s: Seq<char>)
    ensures
        is_trimmed(trim(s)),
{
    lemma_space_end_bounds(s, 0);
    lemma_space_start_bounds(s, s.len());
}

/// A tokenizer over one source text. It hands out tokens one at a time and
/// never goes back.
pub struct Lexer {
    chars: Vec<char>,
    idx: usize,
    peeked: Option<(Result<Option<Token>, LexError>, usize)>,
}

impl Lexer {
    /// The source text, trimmed.
    pub closed spec fn source(&self) -> Seq<char> {
        self.chars@
    }

    /// The position of the next character not yet consumed.
    pub closed spec fn cursor(&self) -> nat {
        self.idx as nat
    }

    /// Whether a token scanned by `peek` is cached.
    pub closed spec fn has_peeked(&self) -> bool {
        self.peeked is Some
    }

    /// The cursor lies within the text, the text is trimmed, and a token
    /// cached by `peek` is the one that a scan from the cursor gives.
    pub closed spec fn wf(&self) -> bool {
        &&& self.idx <= self.chars.len()
        &&& is_trimmed(self.chars@)
        &&& match self.peeked {
            Some((r, n)) => (outcome_view(r), n as nat) == lex_step(self.chars@, self.idx as nat),
            None => true,
        }
    }

    /// A lexer over `text` with the whitespace at both ends removed, its
    /// cursor at the start.
    pub fn new(text: String) -> (l: Lexer)
        ensures
            l.wf(),
            l.source() == trim(text@),
            l.cursor() == 0,
    {
        let all = chars_of(text.as_str());
        let mut a: usize = 0;
        while a < all.len() && is_space_char(all[a])
            invariant
                a <= all.len(),
                space_end(all@, 0) == space_end(all@, a as nat),
            decreases all.len() - a,
        {
            a = a + 1;
        }
        let mut b: usize = all.len();
        while b > 0 && is_space_char(all[b - 1])
            invariant
                b <= all.len(),
                space_start(all@, all@.len()) == space_start(all@, b as nat),
            decreases b,
        {
            b = b - 1;
        }
        let mut chars: Vec<char> = Vec::new();
        if a < b {
            let mut k: usize = a;
            while k < b
                invariant
                    a <= k <= b <= all.len(),
                    chars@ == all@.subrange(a as int, k as int),
                decreases b - k,
            {
                chars.push(all[k]);
                k = k + 1;
            }
        }
        proof {
            lemma_trim_ends(all@);
        }
        Lexer { chars, idx: 0, peeked: None }
    }

    /// Whether the character under the cursor is whitespace.
    pub fn is_whitespace(&self) -> (r: bool)
        ensures
            r == (self.cursor() < self.source().len() && is_space(self.source()[self.cursor() as int])),
    {
        if self.idx < self.chars.len() {
            is_space_char(self.chars[self.idx])
        } else {
            false
        }
    }

    /// Moves the cursor past the whitespace under it. A token cached by
    /// `peek` is dropped, as the cursor may move.
    pub fn skip_whitespace(&mut self)
        requires
            old(self).wf(),
        ensures
            final(self).wf(),
            final(self).source() == old(self).source(),
            final(self).cursor() == space_end(old(self).source(), old(self).cursor()),
            !final(self).has_peeked(),
    {
        self.peeked = None;
        while self.is_whitespace()
            invariant
                self.idx <= self.chars.len(),
                is_trimmed(self.chars@),
                self.peeked is None,
                self.chars@ == old(self).chars@,
                space_end(self.chars@, self.idx as nat) == space_end(
                    old(self).chars@,
                    old(self).idx as nat,
                ),
            decreases self.chars.len() - self.idx,
        {
            self.idx = self.idx + 1;
        }
    }

    /// Moves the cursor to the next newline, or to the end of the text. A
    /// token cached by `peek` is dropped, as the cursor may move.
    pub fn skip_comment_line(&mut self)
        requires
            old(self).wf(),
        ensures
            final(self).wf(),
            final(self).source() == old(self).source(),
            final(self).cursor() == line_end(old(self).source(), old(self).cursor()),
            !final(self).has_peeked(),
    {
        self.peeked = None;
        while self.idx < self.chars.len() && self.chars[self.idx] != '\n'
            invariant
                self.idx <= self.chars.len(),
                is_trimmed(self.chars@),
                self.peeked is None,
                self.chars@ == old(self).chars@,
                line_end(self.chars@, self.idx as nat) == line_end(
                    old(self).chars@,
                    old(self).idx as nat,
                ),
            decreases self.chars.len() - self.idx,
        {
            self.idx = self.idx + 1;
        }
    }

    /// Reads a literal whose opening quote `q` is under the cursor. Returns
    /// its text, escapes kept as written, and moves the cursor past the
    /// closing quote; returns `None`, the cursor unmoved, where none comes.
    fn quoted(&mut self, q: char) -> (r: Option<String>)
        requires
            old(self).wf(),
            old(self).idx < old(self).chars.len(),
            old(self).chars@[old(self).idx as int] == q,
        ensures
            final(self).wf(),
            final(self).chars@ == old(self).chars@,
            match closing(old(self).chars@, (old(self).idx + 1) as nat, q) {
                Some(e) => r is Some && r->0@ == old(self).chars@.subrange(
                    old(self).idx + 1int,
                    e as int,
                ) && final(self).idx == e + 1,
                None => r is None && final(self).idx == old(self).idx,
            },
    {
        let ghost s = self.chars@;
        let start = self.idx;
        self.peeked = None;
        let mut buf: Vec<char> = Vec::new();
        let mut k: usize = start + 1;
        while k < self.chars.len()
            invariant
                start < k <= self.chars.len(),
                self.chars@ == s,
                s == old(self).chars@,
                start == old(self).idx,
                self.idx == start,
                self.peeked is None,
                is_trimmed(s),
                buf@ == s.subrange(start + 1int, k as int),
                closing(s, k as nat, q) == closing(s, (start + 1) as nat, q),
            decreases self.chars.len() - k,
        {
            let c = self.chars[k];
            if c == q {
                self.idx = k + 1;
                return Some(string_from_chars(&buf));
            }
            if c == '\\' && k + 1 < self.chars.len() && self.chars[k + 1] == q {
                buf.push(c);
                buf.push(q);
                k = k + 2;
                assert(buf@ =~= s.subrange(start + 1int, k as int));
            } else {
                buf.push(c);
                k = k + 1;
                assert(buf@ =~= s.subrange(start + 1int, k as int));
            }
        }
        None
    }

    /// Reads the string literal whose `"` is under the cursor, as
    /// `token_at` states: its text keeps each `\\"` as written.
    pub fn handle_string(&mut self) -> (r: Result<String, LexError>)
        requires
            old(self).wf(),
            old(self).cursor() < old(self).source().len(),
            old(self).source()[old(self).cursor() as int] == '"',
        ensures
            final(self).wf(),
            final(self).source() == old(self).source(),
            (match r {
                Ok(t) => Ok(Some(TokenView::String(t@))),
                Err(e) => Err(e),
            }, final(self).cursor()) == token_at(old(self).source(), old(self).cursor()),
    {
        let start = self.idx;
        match self.quoted('"') {
            Some(t) => Ok(t),
            None => Err(LexError::UnterminatedString(start)),
        }
    }

    /// Reads the regular expression literal whose `/` is under the cursor,
    /// as `token_at` states.
    pub fn handle_regex(&mut self) -> (r: Result<String, LexError>)
        requires
            old(self).wf(),
            old(self).cursor() < old(self).source().len(),
            old(self).source()[old(self).cursor() as int] == '/',
        ensures
            final(self).wf(),
            final(self).source() == old(self).source(),
            (match r {
                Ok(t) => Ok(Some(TokenView::RegExp(t@))),
                Err(e) => Err(e),
            }, final(self).cursor()) == token_at(old(self).source(), old(self).cursor()),
    {
        let start = self.idx;
        match self.quoted('/') {
            Some(t) => Ok(t),
            None => Err(LexError::UnterminatedRegExp(start)),
        }
    }

    /// The character at `k`, or `None` past the end of the text.
    fn char_at(&self, k: usize) -> (r: Option<char>)
        ensures
            r == (if k < self.chars@.len() { Some(self.chars@[k as int]) } else { None::<char> }),
    {
        if k < self.chars.len() {
            Some(self.chars[k])
        } else {
            None
        }
    }

    /// The operator or punctuation token at `j` and its length.
    fn scan_symbol(&self, j: usize) -> (r: (Token, usize))
        requires
            j < self.chars.len(),
            is_symbol(self.chars@[j as int]),
        ensures
            (r.0@, r.1 as nat) == symbol_token(self.chars@, j as nat),
    {
        let c = self.chars[j];
        let after = self.char_at(j + 1);
        let eq = after == Some('=');
        let twice = after == Some(c);
        if c == '+' {
            if twice {
                (Token::DoublePlus, 2)
            } else if eq {
                (Token::PlusEqual, 2)
            } else {
                (Token::Plus, 1)
            }
        } else if c == '-' {
            if twice {
                (Token::DoubleMinus, 2)
            } else if eq {
                (Token::MinusEqual, 2)
            } else {
                (Token::Minus, 1)
            }
        } else if c == '*' {
            if eq { (Token::TimesEqual, 2) } else { (Token::Multiply, 1) }
        } else if c == '%' {
            if eq { (Token::ModEqual, 2) } else { (Token::Modulus, 1) }
        } else if c == '^' {
            if eq { (Token::PowEqual, 2) } else { (Token::Pow, 1) }
        } else if c == '<' {
            if eq { (Token::LessEqual, 2) } else { (Token::Less, 1) }
        } else if c == '>' {
            if eq { (Token::GreaterEqual, 2) } else { (Token::Greater, 1) }
        } else if c == '!' {
            if eq { (Token::NotEqual, 2) } else { (Token::Not, 1) }
        } else if c == '=' {
            if eq {
                (Token::Equal, 2)
            } else {
                let v: Vec<char> = vec!['='];
                assert(v@ =~= seq!['=']);
                (Token::Other(string_from_chars(&v)), 1)
            }
        } else if c == ',' {
            (Token::Comma, 1)
        } else if c == ';' {
            (Token::SemiColon, 1)
        } else if c == '(' {
            (Token::LeftParen, 1)
        } else if c == ')' {
            (Token::RightParen, 1)
        } else if c == '{' {
            (Token::LeftCurly, 1)
        } else {
            (Token::RightCurly, 1)
        }
    }

    /// Produces the next token and moves the cursor past it, skipping
    /// whitespace and comments first; `Ok(None)` once only whitespace and
    /// comments remain. A token cached by `peek` is handed out without a
    /// second scan. What comes out, and where the cursor ends, is `lex_step`
    /// of the text at the cursor.
    pub fn next(&mut self) -> (r: Result<Option<Token>, LexError>)
        requires
            old(self).wf(),
        ensures
            final(self).wf(),
            final(self).source() == old(self).source(),
            (outcome_view(r), final(self).cursor()) == lex_step(
                old(self).source(),
                old(self).cursor(),
            ),
    {
        proof {
            lemma_step_bounds(self.chars@, self.idx as nat);
        }
        if self.peeked.is_some() {
            let cached = self.peeked.take();
            match cached {
                Some((r, n)) => {
                    self.idx = n;
                    return r;
                },
                None => {},
            }
        }
        let ghost s = self.chars@;
        let ghost i0 = self.idx as nat;
        loop
            invariant
                self.wf(),
                self.peeked is None,
                self.chars@ == s,
                s == old(self).chars@,
                i0 == old(self).idx,
                trivia_end(s, self.idx as nat, false) == trivia_end(s, i0, false),
            ensures
                self.wf(),
                self.peeked is None,
                self.chars@ == s,
                trivia_end(s, self.idx as nat, false) == trivia_end(s, i0, false),
                self.idx < s.len() ==> !is_space(s[self.idx as int]) && s[self.idx as int] != '#',
            decreases self.chars.len() - self.idx,
        {
            if self.is_whitespace() {
                proof {
                    lemma_space_end(s, self.idx as nat);
                }
                self.skip_whitespace();
            } else if self.idx < self.chars.len() && self.chars[self.idx] == '#' {
                proof {
                    lemma_line_end(s, self.idx as nat);
                }
                self.skip_comment_line();
            } else {
                break;
            }
        }
        if self.idx >= self.chars.len() {
            return Ok(None);
        }
        let c = self.chars[self.idx];
        if c == '"' {
            match self.handle_string() {
                Ok(t) => Ok(Some(Token::String(t))),
                Err(e) => Err(e),
            }
        } else if c == '/' {
            match self.handle_regex() {
                Ok(t) => Ok(Some(Token::RegExp(t))),
                Err(e) => Err(e),
            }
        } else if c == '[' {
            self.idx = self.idx + 1;
            Ok(Some(Token::LeftSquare))
        } else if c == ']' {
            self.idx = self.idx + 1;
            Ok(Some(Token::RightSquare))
        } else if is_symbol_char(c) {
            let (t, n) = self.scan_symbol(self.idx);
            self.idx = self.idx + n;
            Ok(Some(t))
        } else {
            let start = self.idx;
            let mut w: Vec<char> = Vec::new();
            w.push(c);
            let mut k: usize = start + 1;
            proof {
                lemma_word_end(s, k as nat);
            }
            while k < self.chars.len() && !ends_word_char(self.chars[k])
                invariant
                    start < k <= self.chars.len(),
                    self.chars@ == s,
                    w@ == s.subrange(start as int, k as int),
                    word_end(s, k as nat) == word_end(s, (start + 1) as nat),
                decreases self.chars.len() - k,
            {
                w.push(self.chars[k]);
                k = k + 1;
                assert(w@ =~= s.subrange(start as int, k as int));
            }
            self.idx = k;
            Ok(Some(classify(&w)))
        }
    }

    /// The token that `next` would produce now, without consuming it: the
    /// cursor stays, and the result is cached for the following `next`.
    pub fn peek(&mut self) -> (r: Result<Option<Token>, LexError>)
        requires
            old(self).wf(),
        ensures
            final(self).wf(),
            final(self).source() == old(self).source(),
            final(self).cursor() == old(self).cursor(),
            outcome_view(r) == lex_step(old(self).source(), old(self).cursor()).0,
    {
        match &self.peeked {
            Some((r, _)) => {
                return clone_outcome(r);
            },
            None => {},
        }
        let start = self.idx;
        let r = self.next();
        let n = self.idx;
        self.idx = start;
        self.peeked = Some((clone_outcome(&r), n));
        r
    }
}

} // verus!
