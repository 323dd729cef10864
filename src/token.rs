use vstd::prelude::*;

verus! {

/// One lexical unit of a program.
#[derive(Debug, PartialEq, Eq)]
pub enum Token {
    // keywords
    If,
    Else,
    While,
    For,
    Function,
    In,
    Do,
    Break,
    Continue,
    Print,
    Printf,
    Return,
    Next,
    Nextfile,
    Delete,
    Exit,
    Begin,
    End,
    // structural punctuation
    LeftParen,
    RightParen,
    LeftCurly,
    RightCurly,
    LeftSquare,
    RightSquare,
    Comma,
    SemiColon,
    // relational and logical operators
    Less,
    Greater,
    LessEqual,
    GreaterEqual,
    Equal,
    NotEqual,
    Not,
    // arithmetic and assignment operators
    Plus,
    Minus,
    Multiply,
    Divide,
    Modulus,
    Pow,
    DoublePlus,
    DoubleMinus,
    PlusEqual,
    MinusEqual,
    TimesEqual,
    DivEqual,
    ModEqual,
    PowEqual,
    // tokens that carry their text
    String(String),
    RegExp(String),
    Identifier(String),
    Other(String),
}

/// The mathematical value of a [`Token`]: the same variant, with text as a
/// sequence of characters.
pub enum TokenView {
    // keywords
    If,
    Else,
    While,
    For,
    Function,
    In,
    Do,
    Break,
    Continue,
    Print,
    Printf,
    Return,
    Next,
    Nextfile,
    Delete,
    Exit,
    Begin,
    End,
    // structural punctuation
    LeftParen,
    RightParen,
    LeftCurly,
    RightCurly,
    LeftSquare,
    RightSquare,
    Comma,
    SemiColon,
    // relational and logical operators
    Less,
    Greater,
    LessEqual,
    GreaterEqual,
    Equal,
    NotEqual,
    Not,
    // arithmetic and assignment operators
    Plus,
    Minus,
    Multiply,
    Divide,
    Modulus,
    Pow,
    DoublePlus,
    DoubleMinus,
    PlusEqual,
    MinusEqual,
    TimesEqual,
    DivEqual,
    ModEqual,
    PowEqual,
    // tokens that carry their text
    String(Seq<char>),
    RegExp(Seq<char>),
    Identifier(Seq<char>),
    Other(Seq<char>),
}

impl View for Token {
    type V = TokenView;

    open spec fn view(&self) -> TokenView {
        match self {
            Token::If => TokenView::If,
            Token::Else => TokenView::Else,
            Token::While => TokenView::While,
            Token::For => TokenView::For,
            Token::Function => TokenView::Function,
            Token::In => TokenView::In,
            Token::Do => TokenView::Do,
            Token::Break => TokenView::Break,
            Token::Continue => TokenView::Continue,
            Token::Print => TokenView::Print,
            Token::Printf => TokenView::Printf,
            Token::Return => TokenView::Return,
            Token::Next => TokenView::Next,
            Token::Nextfile => TokenView::Nextfile,
            Token::Delete => TokenView::Delete,
            Token::Exit => TokenView::Exit,
            Token::Begin => TokenView::Begin,
            Token::End => TokenView::End,
            Token::LeftParen => TokenView::LeftParen,
            Token::RightParen => TokenView::RightParen,
            Token::LeftCurly => TokenView::LeftCurly,
            Token::RightCurly => TokenView::RightCurly,
            Token::LeftSquare => TokenView::LeftSquare,
            Token::RightSquare => TokenView::RightSquare,
            Token::Comma => TokenView::Comma,
            Token::SemiColon => TokenView::SemiColon,
            Token::Less => TokenView::Less,
            Token::Greater => TokenView::Greater,
            Token::LessEqual => TokenView::LessEqual,
            Token::GreaterEqual => TokenView::GreaterEqual,
            Token::Equal => TokenView::Equal,
            Token::NotEqual => TokenView::NotEqual,
            Token::Not => TokenView::Not,
            Token::Plus => TokenView::Plus,
            Token::Minus => TokenView::Minus,
            Token::Multiply => TokenView::Multiply,
            Token::Divide => TokenView::Divide,
            Token::Modulus => TokenView::Modulus,
            Token::Pow => TokenView::Pow,
            Token::DoublePlus => TokenView::DoublePlus,
            Token::DoubleMinus => TokenView::DoubleMinus,
            Token::PlusEqual => TokenView::PlusEqual,
            Token::MinusEqual => TokenView::MinusEqual,
            Token::TimesEqual => TokenView::TimesEqual,
            Token::DivEqual => TokenView::DivEqual,
            Token::ModEqual => TokenView::ModEqual,
            Token::PowEqual => TokenView::PowEqual,
            Token::String(s) => TokenView::String(s@),
            Token::RegExp(s) => TokenView::RegExp(s@),
            Token::Identifier(s) => TokenView::Identifier(s@),
            Token::Other(s) => TokenView::Other(s@),
        }
    }
}

impl Clone for Token {
    fn clone(&self) -> (r: Token)
        ensures
            r == *self,
    {
        match self {
            Token::If => Token::If,
            Token::Else => Token::Else,
            Token::While => Token::While,
            Token::For => Token::For,
            Token::Function => Token::Function,
            Token::In => Token::In,
            Token::Do => Token::Do,
            Token::Break => Token::Break,
            Token::Continue => Token::Continue,
            Token::Print => Token::Print,
            Token::Printf => Token::Printf,
            Token::Return => Token::Return,
            Token::Next => Token::Next,
            Token::Nextfile => Token::Nextfile,
            Token::Delete => Token::Delete,
            Token::Exit => Token::Exit,
            Token::Begin => Token::Begin,
            Token::End => Token::End,
            Token::LeftParen => Token::LeftParen,
            Token::RightParen => Token::RightParen,
            Token::LeftCurly => Token::LeftCurly,
            Token::RightCurly => Token::RightCurly,
            Token::LeftSquare => Token::LeftSquare,
            Token::RightSquare => Token::RightSquare,
            Token::Comma => Token::Comma,
            Token::SemiColon => Token::SemiColon,
            Token::Less => Token::Less,
            Token::Greater => Token::Greater,
            Token::LessEqual => Token::LessEqual,
            Token::GreaterEqual => Token::GreaterEqual,
            Token::Equal => Token::Equal,
            Token::NotEqual => Token::NotEqual,
            Token::Not => Token::Not,
            Token::Plus => Token::Plus,
            Token::Minus => Token::Minus,
            Token::Multiply => Token::Multiply,
            Token::Divide => Token::Divide,
            Token::Modulus => Token::Modulus,
            Token::Pow => Token::Pow,
            Token::DoublePlus => Token::DoublePlus,
            Token::DoubleMinus => Token::DoubleMinus,
            Token::PlusEqual => Token::PlusEqual,
            Token::MinusEqual => Token::MinusEqual,
            Token::TimesEqual => Token::TimesEqual,
            Token::DivEqual => Token::DivEqual,
            Token::ModEqual => Token::ModEqual,
            Token::PowEqual => Token::PowEqual,
            Token::String(s) => Token::String(s.clone()),
            Token::RegExp(s) => Token::RegExp(s.clone()),
            Token::Identifier(s) => Token::Identifier(s.clone()),
            Token::Other(s) => Token::Other(s.clone()),
        }
    }
}

/// Why a call that scans the next token failed. Each carries the offset, in
/// the trimmed source, of the character that opened the literal.
#[derive(Clone, Copy, Debug, PartialEq, Eq, Structural)]
pub enum LexError {
    /// End of input came before the closing `"`.
    UnterminatedString(usize),
    /// End of input came before the closing `/`.
    UnterminatedRegExp(usize),
}


/// The source text that a token stands for: a keyword's or operator's
/// spelling, a literal with its delimiters, a word as written.
pub open spec fn spelling(t: TokenView) -> Seq<char> {
    match t {
            TokenView::If => seq!['i', 'f'],
            TokenView::Else => seq!['e', 'l', 's', 'e'],
            TokenView::While => seq!['w', 'h', 'i', 'l', 'e'],
            TokenView::For => seq!['f', 'o', 'r'],
            TokenView::Function => seq!['f', 'u', 'n', 'c', 't', 'i', 'o', 'n'],
            TokenView::In => seq!['i', 'n'],
            TokenView::Do => seq!['d', 'o'],
            TokenView::Break => seq!['b', 'r', 'e', 'a', 'k'],
            TokenView::Continue => seq!['c', 'o', 'n', 't', 'i', 'n', 'u', 'e'],
            TokenView::Print => seq!['p', 'r', 'i', 'n', 't'],
            TokenView::Printf => seq!['p', 'r', 'i', 'n', 't', 'f'],
            TokenView::Return => seq!['r', 'e', 't', 'u', 'r', 'n'],
            TokenView::Next => seq!['n', 'e', 'x', 't'],
            TokenView::Nextfile => seq!['n', 'e', 'x', 't', 'f', 'i', 'l', 'e'],
            TokenView::Delete => seq!['d', 'e', 'l', 'e', 't', 'e'],
            TokenView::Exit => seq!['e', 'x', 'i', 't'],
            TokenView::Begin => seq!['B', 'E', 'G', 'I', 'N'],
            TokenView::End => seq!['E', 'N', 'D'],
            TokenView::LeftParen => seq!['('],
            TokenView::RightParen => seq![')'],
            TokenView::LeftCurly => seq!['{'],
            TokenView::RightCurly => seq!['}'],
            TokenView::LeftSquare => seq!['['],
            TokenView::RightSquare => seq![']'],
            TokenView::Comma => seq![','],
            TokenView::SemiColon => seq![';'],
            TokenView::Less => seq!['<'],
            TokenView::Greater => seq!['>'],
            TokenView::LessEqual => seq!['<', '='],
            TokenView::GreaterEqual => seq!['>', '='],
            TokenView::Equal => seq!['=', '='],
            TokenView::NotEqual => seq!['!', '='],
            TokenView::Not => seq!['!'],
            TokenView::Plus => seq!['+'],
            TokenView::Minus => seq!['-'],
            TokenView::Multiply => seq!['*'],
            TokenView::Divide => seq!['/'],
            TokenView::Modulus => seq!['%'],
            TokenView::Pow => seq!['^'],
            TokenView::DoublePlus => seq!['+', '+'],
            TokenView::DoubleMinus => seq!['-', '-'],
            TokenView::PlusEqual => seq!['+', '='],
            TokenView::MinusEqual => seq!['-', '='],
            TokenView::TimesEqual => seq!['*', '='],
            TokenView::DivEqual => seq!['/', '='],
            TokenView::ModEqual => seq!['%', '='],
            TokenView::PowEqual => seq!['^', '='],
            TokenView::String(x) => seq!['"'] + x + seq!['"'],
            TokenView::RegExp(x) => seq!['/'] + x + seq!['/'],
            TokenView::Identifier(x) => x,
            TokenView::Other(x) => x,
    }
}

/// The keyword spelled by `w`, if any.
pub open spec fn keyword_of(w: Seq<char>) -> Option<TokenView> {
    if w == spelling(TokenView::If) {
        Some(TokenView::If)
    } else if w == spelling(TokenView::Else) {
        Some(TokenView::Else)
    } else if w == spelling(TokenView::While) {
        Some(TokenView::While)
    } else if w == spelling(TokenView::For) {
        Some(TokenView::For)
    } else if w == spelling(TokenView::Function) {
        Some(TokenView::Function)
    } else if w == spelling(TokenView::In) {
        Some(TokenView::In)
    } else if w == spelling(TokenView::Do) {
        Some(TokenView::Do)
    } else if w == spelling(TokenView::Break) {
        Some(TokenView::Break)
    } else if w == spelling(TokenView::Continue) {
        Some(TokenView::Continue)
    } else if w == spelling(TokenView::Print) {
        Some(TokenView::Print)
    } else if w == spelling(TokenView::Printf) {
        Some(TokenView::Printf)
    } else if w == spelling(TokenView::Return) {
        Some(TokenView::Return)
    } else if w == spelling(TokenView::Next) {
        Some(TokenView::Next)
    } else if w == spelling(TokenView::Nextfile) {
        Some(TokenView::Nextfile)
    } else if w == spelling(TokenView::Delete) {
        Some(TokenView::Delete)
    } else if w == spelling(TokenView::Exit) {
        Some(TokenView::Exit)
    } else if w == spelling(TokenView::Begin) {
        Some(TokenView::Begin)
    } else if w == spelling(TokenView::End) {
        Some(TokenView::End)
    } else {
        None
    }
}

/// A word becomes its keyword, or else an identifier.
pub open spec fn classify_word(w: Seq<char>) -> TokenView {
    match keyword_of(w) {
        Some(k) => k,
        None => TokenView::Identifier(w),
    }
}

fn same_word(w: &Vec<char>, k: &[char]) -> (r: bool)
    ensures
        r == (w@ == k@),
{
    if w.len() != k.len() {
        return false;
    }
    let mut i: usize = 0;
    while i < w.len()
        invariant
            w.len() == k@.len(),
            i <= w.len(),
            forall|j: int| 0 <= j < i ==> w@[j] == k@[j],
        decreases w.len() - i,
    {
        if w[i] != k[i] {
            return false;
        }
        i = i + 1;
    }
    assert(w@ =~= k@);
    true
}

/// Turns a scanned word into its token: a keyword where the word spells one,
/// else an identifier holding the word.
pub fn classify(w: &Vec<char>) -> (r: Token)
    ensures
        r@ == classify_word(w@),
{
    if same_word(w, &['i', 'f']) {
        Token::If
    } else if same_word(w, &['e', 'l', 's', 'e']) {
        Token::Else
    } else if same_word(w, &['w', 'h', 'i', 'l', 'e']) {
        Token::While
    } else if same_word(w, &['f', 'o', 'r']) {
        Token::For
    } else if same_word(w, &['f', 'u', 'n', 'c', 't', 'i', 'o', 'n']) {
        Token::Function
    } else if same_word(w, &['i', 'n']) {
        Token::In
    } else if same_word(w, &['d', 'o']) {
        Token::Do
    } else if same_word(w, &['b', 'r', 'e', 'a', 'k']) {
        Token::Break
    } else if same_word(w, &['c', 'o', 'n', 't', 'i', 'n', 'u', 'e']) {
        Token::Continue
    } else if same_word(w, &['p', 'r', 'i', 'n', 't']) {
        Token::Print
    } else if same_word(w, &['p', 'r', 'i', 'n', 't', 'f']) {
        Token::Printf
    } else if same_word(w, &['r', 'e', 't', 'u', 'r', 'n']) {
        Token::Return
    } else if same_word(w, &['n', 'e', 'x', 't']) {
        Token::Next
    } else if same_word(w, &['n', 'e', 'x', 't', 'f', 'i', 'l', 'e']) {
        Token::Nextfile
    } else if same_word(w, &['d', 'e', 'l', 'e', 't', 'e']) {
        Token::Delete
    } else if same_word(w, &['e', 'x', 'i', 't']) {
        Token::Exit
    } else if same_word(w, &['B', 'E', 'G', 'I', 'N']) {
        Token::Begin
    } else if same_word(w, &['E', 'N', 'D']) {
        Token::End
    } else {
        Token::Identifier(string_from_chars(w))
    }
}

/// Relies on `FromIterator<char>` for `String`: the string holds the given
/// characters in their order.
#[verifier::external_body]
pub(crate) fn string_from_chars(cs: &Vec<char>) -> (r: String)
    ensures
        r@ == cs@,
{
    cs.iter().collect()
}

} // verus!
