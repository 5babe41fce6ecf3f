//! The token type: the closed set of lexical units the scanner can recognize,
//! together with its mathematical view and the keyword table.

use vstd::prelude::*;
use vstd::string::StrSliceExecFns;
use vstd::string::StringExecFns;

verus! {

/// Mathematical image of a token: string payloads appear as character
/// sequences, so contracts can speak of them exactly.
pub ghost enum TokenView {
    Illegal,
    EOF,
    Ident(Seq<char>),
    Int(Seq<char>),
    Assign,
    Plus,
    Minus,
    Bang,
    Asterisk,
    Slash,
    Eq,
    NotEq,
    Lt,
    Gt,
    Comma,
    Semicolon,
    LParen,
    RParen,
    LBrace,
    RBrace,
    Function,
    Let,
    Bool(bool),
    If,
    Else,
    Return,
}

/// A lexical unit of source text. `Illegal` marks a single unrecognized
/// character; `EOF` is the terminal end-of-input marker. Identifier and
/// integer-literal payloads stay textual.
#[derive(Hash, Eq, PartialEq, Clone, Debug)]
pub enum Token {
    Illegal,
    EOF,
    // Identifiers and literals.
    Ident(String),
    Int(String),
    // Operators.
    Assign,
    Plus,
    Minus,
    Bang,
    Asterisk,
    Slash,
    Eq,
    NotEq,
    Lt,
    Gt,
    // Delimiters.
    Comma,
    Semicolon,
    LParen,
    RParen,
    LBrace,
    RBrace,
    // Keywords.
    Function,
    Let,
    Bool(bool),
    If,
    Else,
    Return,
}

impl View for Token {
    type V = TokenView;

    open spec fn view(&self) -> TokenView {
        match self {
            Token::Illegal => TokenView::Illegal,
            Token::EOF => TokenView::EOF,
            Token::Ident(s) => TokenView::Ident(s@),
            Token::Int(s) => TokenView::Int(s@),
            Token::Assign => TokenView::Assign,
            Token::Plus => TokenView::Plus,
            Token::Minus => TokenView::Minus,
            Token::Bang => TokenView::Bang,
            Token::Asterisk => TokenView::Asterisk,
            Token::Slash => TokenView::Slash,
            Token::Eq => TokenView::Eq,
            Token::NotEq => TokenView::NotEq,
            Token::Lt => TokenView::Lt,
            Token::Gt => TokenView::Gt,
            Token::Comma => TokenView::Comma,
            Token::Semicolon => TokenView::Semicolon,
            Token::LParen => TokenView::LParen,
            Token::RParen => TokenView::RParen,
            Token::LBrace => TokenView::LBrace,
            Token::RBrace => TokenView::RBrace,
            Token::Function => TokenView::Function,
            Token::Let => TokenView::Let,
            Token::Bool(b) => TokenView::Bool(*b),
            Token::If => TokenView::If,
            Token::Else => TokenView::Else,
            Token::Return => TokenView::Return,
        }
    }
}

/// The fixed keyword spellings: exactly these letter runs are reserved.
pub open spec fn is_keyword(s: Seq<char>) -> bool {
    ||| s == "fn"@
    ||| s == "let"@
    ||| s == "true"@
    ||| s == "false"@
    ||| s == "if"@
    ||| s == "else"@
    ||| s == "return"@
}

/// The keyword token owed to a reserved spelling.
pub open spec fn keyword_token(s: Seq<char>) -> TokenView {
    if s == "fn"@ {
        TokenView::Function
    } else if s == "let"@ {
        TokenView::Let
    } else if s == "true"@ {
        TokenView::Bool(true)
    } else if s == "false"@ {
        TokenView::Bool(false)
    } else if s == "if"@ {
        TokenView::If
    } else if s == "else"@ {
        TokenView::Else
    } else {
        TokenView::Return
    }
}

/// What the keyword table resolves a letter run to: the keyword token when
/// the run is a reserved spelling, else an identifier holding the run
/// verbatim.
pub open spec fn spec_lookup_ident(s: Seq<char>) -> TokenView {
    if is_keyword(s) {
        keyword_token(s)
    } else {
        TokenView::Ident(s)
    }
}

/// Character-by-character string comparison, so the keyword table needs no
/// trust in library equality.
fn str_eq(a: &str, b: &str) -> (r: bool)
    ensures
        r == (a@ == b@),
{
    let alen = a.unicode_len();
    let blen = b.unicode_len();
    if alen != blen {
        return false;
    }
    let mut i: usize = 0;
    while i < alen
        invariant
            alen == a@.len(),
            alen == b@.len(),
            0 <= i <= alen,
            forall|k: int| 0 <= k < i ==> a@[k] == b@[k],
        decreases alen - i,
    {
        let ca = a.get_char(i);
        let cb = b.get_char(i);
        if ca != cb {
            return false;
        }
        i = i + 1;
    }
    proof {
        assert(a@ =~= b@);
    }
    true
}

/// The human-readable rendering owed to each token: payload-bearing variants
/// render as `Kind(payload)`, all others as their variant name.
pub open spec fn spec_text(t: TokenView) -> Seq<char> {
    match t {
        TokenView::Illegal => "Illegal"@,
        TokenView::EOF => "EOF"@,
        TokenView::Ident(s) => "Ident("@ + s + ")"@,
        TokenView::Int(s) => "Int("@ + s + ")"@,
        TokenView::Assign => "Assign"@,
        TokenView::Plus => "Plus"@,
        TokenView::Minus => "Minus"@,
        TokenView::Bang => "Bang"@,
        TokenView::Asterisk => "Asterisk"@,
        TokenView::Slash => "Slash"@,
        TokenView::Eq => "Eq"@,
        TokenView::NotEq => "NotEq"@,
        TokenView::Lt => "Lt"@,
        TokenView::Gt => "Gt"@,
        TokenView::Comma => "Comma"@,
        TokenView::Semicolon => "Semicolon"@,
        TokenView::LParen => "LParen"@,
        TokenView::RParen => "RParen"@,
        TokenView::LBrace => "LBrace"@,
        TokenView::RBrace => "RBrace"@,
        TokenView::Function => "Function"@,
        TokenView::Let => "Let"@,
        TokenView::Bool(b) => if b {
            "Bool(true)"@
        } else {
            "Bool(false)"@
        },
        TokenView::If => "If"@,
        TokenView::Else => "Else"@,
        TokenView::Return => "Return"@,
    }
}

impl Token {
    /// A human-readable rendering for diagnostics: payload-bearing variants
    /// as `Kind(payload)`, all others as their variant name.
    pub fn text(&self) -> (r: String)
        ensures
            r@ == spec_text(self@),
    {
        match self {
            Token::Illegal => "Illegal".to_owned(),
            Token::EOF => "EOF".to_owned(),
            Token::Ident(s) => "Ident(".to_owned().concat(s.as_str()).concat(")"),
            Token::Int(s) => "Int(".to_owned().concat(s.as_str()).concat(")"),
            Token::Assign => "Assign".to_owned(),
            Token::Plus => "Plus".to_owned(),
            Token::Minus => "Minus".to_owned(),
            Token::Bang => "Bang".to_owned(),
            Token::Asterisk => "Asterisk".to_owned(),
            Token::Slash => "Slash".to_owned(),
            Token::Eq => "Eq".to_owned(),
            Token::NotEq => "NotEq".to_owned(),
            Token::Lt => "Lt".to_owned(),
            Token::Gt => "Gt".to_owned(),
            Token::Comma => "Comma".to_owned(),
            Token::Semicolon => "Semicolon".to_owned(),
            Token::LParen => "LParen".to_owned(),
            Token::RParen => "RParen".to_owned(),
            Token::LBrace => "LBrace".to_owned(),
            Token::RBrace => "RBrace".to_owned(),
            Token::Function => "Function".to_owned(),
            Token::Let => "Let".to_owned(),
            Token::Bool(b) => if *b {
                "Bool(true)".to_owned()
            } else {
                "Bool(false)".to_owned()
            },
            Token::If => "If".to_owned(),
            Token::Else => "Else".to_owned(),
            Token::Return => "Return".to_owned(),
        }
    }

    /// Resolves a consumed letter run against the keyword table: reserved
    /// spellings become their keyword token, anything else an identifier
    /// carrying the text verbatim.
    pub fn lookup_ident(ident: &str) -> (t: Token)
        ensures
            t@ == spec_lookup_ident(ident@),
    {
        if str_eq(ident, "fn") {
            Token::Function
        } else if str_eq(ident, "let") {
            Token::Let
        } else if str_eq(ident, "true") {
            Token::Bool(true)
        } else if str_eq(ident, "false") {
            Token::Bool(false)
        } else if str_eq(ident, "if") {
            Token::If
        } else if str_eq(ident, "else") {
            Token::Else
        } else if str_eq(ident, "return") {
            Token::Return
        } else {
            Token::Ident(ident.to_owned())
        }
    }
}

} // verus!
