//! Tokens, as the lexer hands them to the preprocessor.

use vstd::prelude::*;

verus! {

/// The kind of a token.
#[derive(Clone, Copy, Debug, PartialEq, Eq, Structural)]
pub enum TokenType {
    /// A numeric literal; `Token::val` is its value.
    Num,
    /// A string literal; `Token::name` holds its contents, `Token::val` their byte length.
    Str,
    /// An identifier; `Token::name` is its spelling.
    Ident,
    /// A macro parameter placeholder; `Token::val` is the parameter's position.
    Param,
    Plus,
    Minus,
    Mul,
    Div,
    And,
    Dot,
    Comma,
    Exclamation,
    Question,
    VerticalBar,
    Hat,
    Colon,
    HashMark,
    Semicolon,
    LeftParen,
    RightParen,
    LeftBracket,
    RightBracket,
    LeftBrace,
    RightBrace,
    LeftAngleBracket,
    RightAngleBracket,
    Equal,
    EQ,
    NE,
    LE,
    GE,
    Logor,
    Logand,
    SHL,
    SHR,
    Inc,
    Dec,
    Arrow,
    If,
    Else,
    For,
    Do,
    While,
    Break,
    Return,
    Sizeof,
    Alignof,
    Struct,
    Typedef,
    Extern,
    Int,
    Char,
    Void,
    /// The end of a source line.
    NewLine,
}

/// One token of the source text.
#[derive(Debug, PartialEq, Eq)]
pub struct Token {
    pub ty: TokenType,
    /// The value of a `Num`, the position of a `Param`, the byte length of a `Str`.
    pub val: usize,
    /// The spelling of an `Ident`, the contents of a `Str`.
    pub name: String,
    /// The token as it is written in the source; empty for a synthesized token.
    pub text: String,
    /// The file the token comes from.
    pub filename: String,
    /// The line of that file on which the token ends.
    pub line: usize,
    /// Set on a macro body token that follows `#`: its argument is turned into a string.
    pub stringize: bool,
}

/// The mathematical value of a [`Token`].
pub ghost struct TokenView {
    pub ty: TokenType,
    pub val: usize,
    pub name: Seq<char>,
    pub text: Seq<char>,
    pub filename: Seq<char>,
    pub line: usize,
    pub stringize: bool,
}

impl View for Token {
    type V = TokenView;

    open spec fn view(&self) -> TokenView {
        TokenView {
            ty: self.ty,
            val: self.val,
            name: self.name@,
            text: self.text@,
            filename: self.filename@,
            line: self.line,
            stringize: self.stringize,
        }
    }
}

impl DeepView for Token {
    type V = TokenView;

    open spec fn deep_view(&self) -> TokenView {
        self@
    }
}

impl Clone for Token {
    fn clone(&self) -> (r: Self)
        ensures
            r == *self,
    {
        Token {
            ty: self.ty,
            val: self.val,
            name: self.name.clone(),
            text: self.text.clone(),
            filename: self.filename.clone(),
            line: self.line,
            stringize: self.stringize,
        }
    }
}

impl TokenView {
    /// A token that the preprocessor makes up at the place of `self`:
    /// it has the given kind, value and name, no source text, and the
    /// position of `self`.
    pub open spec fn synthesized(self, ty: TokenType, val: usize, name: Seq<char>) -> TokenView {
        TokenView {
            ty,
            val,
            name,
            text: Seq::empty(),
            filename: self.filename,
            line: self.line,
            stringize: false,
        }
    }

    /// Whether `self` is the identifier spelled `s`.
    pub open spec fn is_ident(self, s: Seq<char>) -> bool {
        self.ty == TokenType::Ident && self.name == s
    }
}

impl Token {
    /// A token of the given kind as the lexer reads it, not marked for stringizing.
    pub fn new(
        ty: TokenType,
        val: usize,
        name: String,
        text: String,
        filename: String,
        line: usize,
    ) -> (t: Token)
        ensures
            t == (Token { ty, val, name, text, filename, line, stringize: false }),
    {
        Token { ty, val, name, text, filename, line, stringize: false }
    }

    /// A token made up at the place of `self`, with no source text.
    pub fn synthesized(&self, ty: TokenType, val: usize, name: String) -> (t: Token)
        ensures
            t@ == self@.synthesized(ty, val, name@),
    {
        Token {
            ty,
            val,
            name,
            text: String::new(),
            filename: self.filename.clone(),
            line: self.line,
            stringize: false,
        }
    }

    /// Whether this token is the identifier spelled `s`.
    pub fn is_ident(&self, s: &str) -> (b: bool)
        ensures
            b == self@.is_ident(s@),
    {
        self.ty == TokenType::Ident && self.name == s.to_owned()
    }
}

} // verus!
