//! The lexer: source text to tokens. At each position the longest match
//! wins, a keyword beating an identifier of the same length; runs of spaces,
//! tabs, newlines and form feeds, `//` and `#` line comments and `/* */`
//! block comments are skipped.

use vstd::prelude::*;
use std::ops::Range;
use crate::number::{is_digit, digits_value, nat_to_double, digits_to_double, double_to_int, double_to_i64};
use crate::tagged::{hex_digits, hex_chars};
use crate::text::{decimal, signed_decimal, u64_to_text, i64_to_text, concat, utf8_len, byte_length, chars_of, string_of, char_utf8_len};
use crate::chars::chars_equal;

verus! {

/// A token of the surface language. A float literal keeps its text, since
/// nothing computes with its value; an integer literal holds the bit pattern
/// of the double nearest to it.
#[derive(Debug, Clone, PartialEq)]
pub enum Token {
    Fn,
    Var,
    Return,
    Async,
    Mod,
    If,
    Else,
    While,
    For,
    Trait,
    Impl,
    Class,
    Cl,
    Clg,
    Clc,
    Struct,
    Try,
    Catch,
    Throw,
    In,
    True,
    False,
    Await,
    BitAnd,
    BitOr,
    BitXor,
    BitNot,
    Shl,
    Shr,
    And,
    Or,
    Not,
    Import,
    Say,
    Ask,
    Fng,
    Fnc,
    Use,
    Upd,
    Init,
    Plus,
    Minus,
    Star,
    Slash,
    EqEq,
    Ne,
    Le,
    Ge,
    Lt,
    Gt,
    Eq,
    Colon,
    DotDot,
    Dot,
    Semicolon,
    Comma,
    LBrace,
    RBrace,
    LParen,
    RParen,
    LBracket,
    RBracket,
    StringLit(String),
    Float(String),
    Number(u64),
    Identifier(String),
}

/// A token with its text as a character sequence.
pub enum TokenView {
    Fn,
    Var,
    Return,
    Async,
    Mod,
    If,
    Else,
    While,
    For,
    Trait,
    Impl,
    Class,
    Cl,
    Clg,
    Clc,
    Struct,
    Try,
    Catch,
    Throw,
    In,
    True,
    False,
    Await,
    BitAnd,
    BitOr,
    BitXor,
    BitNot,
    Shl,
    Shr,
    And,
    Or,
    Not,
    Import,
    Say,
    Ask,
    Fng,
    Fnc,
    Use,
    Upd,
    Init,
    Plus,
    Minus,
    Star,
    Slash,
    EqEq,
    Ne,
    Le,
    Ge,
    Lt,
    Gt,
    Eq,
    Colon,
    DotDot,
    Dot,
    Semicolon,
    Comma,
    LBrace,
    RBrace,
    LParen,
    RParen,
    LBracket,
    RBracket,
    StringLit(Seq<char>),
    Float(Seq<char>),
    Number(u64),
    Identifier(Seq<char>),
}

/// The view of a token. It is opaque: the facts of
/// `lemma_token_view` say what it is, one variant at a time.
#[verifier::opaque]
pub open spec fn token_view(t: Token) -> TokenView {
    match t {
        Token::Fn => TokenView::Fn,
        Token::Var => TokenView::Var,
        Token::Return => TokenView::Return,
        Token::Async => TokenView::Async,
        Token::Mod => TokenView::Mod,
        Token::If => TokenView::If,
        Token::Else => TokenView::Else,
        Token::While => TokenView::While,
        Token::For => TokenView::For,
        Token::Trait => TokenView::Trait,
        Token::Impl => TokenView::Impl,
        Token::Class => TokenView::Class,
        Token::Cl => TokenView::Cl,
        Token::Clg => TokenView::Clg,
        Token::Clc => TokenView::Clc,
        Token::Struct => TokenView::Struct,
        Token::Try => TokenView::Try,
        Token::Catch => TokenView::Catch,
        Token::Throw => TokenView::Throw,
        Token::In => TokenView::In,
        Token::True => TokenView::True,
        Token::False => TokenView::False,
        Token::Await => TokenView::Await,
        Token::BitAnd => TokenView::BitAnd,
        Token::BitOr => TokenView::BitOr,
        Token::BitXor => TokenView::BitXor,
        Token::BitNot => TokenView::BitNot,
        Token::Shl => TokenView::Shl,
        Token::Shr => TokenView::Shr,
        Token::And => TokenView::And,
        Token::Or => TokenView::Or,
        Token::Not => TokenView::Not,
        Token::Import => TokenView::Import,
        Token::Say => TokenView::Say,
        Token::Ask => TokenView::Ask,
        Token::Fng => TokenView::Fng,
        Token::Fnc => TokenView::Fnc,
        Token::Use => TokenView::Use,
        Token::Upd => TokenView::Upd,
        Token::Init => TokenView::Init,
        Token::Plus => TokenView::Plus,
        Token::Minus => TokenView::Minus,
        Token::Star => TokenView::Star,
        Token::Slash => TokenView::Slash,
        Token::EqEq => TokenView::EqEq,
        Token::Ne => TokenView::Ne,
        Token::Le => TokenView::Le,
        Token::Ge => TokenView::Ge,
        Token::Lt => TokenView::Lt,
        Token::Gt => TokenView::Gt,
        Token::Eq => TokenView::Eq,
        Token::Colon => TokenView::Colon,
        Token::DotDot => TokenView::DotDot,
        Token::Dot => TokenView::Dot,
        Token::Semicolon => TokenView::Semicolon,
        Token::Comma => TokenView::Comma,
        Token::LBrace => TokenView::LBrace,
        Token::RBrace => TokenView::RBrace,
        Token::LParen => TokenView::LParen,
        Token::RParen => TokenView::RParen,
        Token::LBracket => TokenView::LBracket,
        Token::RBracket => TokenView::RBracket,
        Token::StringLit(s) => TokenView::StringLit(s@),
        Token::Float(s) => TokenView::Float(s@),
        Token::Number(n) => TokenView::Number(n),
        Token::Identifier(s) => TokenView::Identifier(s@),
    }
}

impl View for Token {
    type V = TokenView;

    open spec fn view(&self) -> TokenView {
        token_view(*self)
    }
}

/// The view of a token keeps its variant and its payload.
pub broadcast proof fn lemma_token_view(t: Token)
    ensures
        (t is Fn) == (#[trigger] token_view(t) == TokenView::Fn),
        (t is Var) == (#[trigger] token_view(t) == TokenView::Var),
        (t is Return) == (#[trigger] token_view(t) == TokenView::Return),
        (t is Async) == (#[trigger] token_view(t) == TokenView::Async),
        (t is Mod) == (#[trigger] token_view(t) == TokenView::Mod),
        (t is If) == (#[trigger] token_view(t) == TokenView::If),
        (t is Else) == (#[trigger] token_view(t) == TokenView::Else),
        (t is While) == (#[trigger] token_view(t) == TokenView::While),
        (t is For) == (#[trigger] token_view(t) == TokenView::For),
        (t is Trait) == (#[trigger] token_view(t) == TokenView::Trait),
        (t is Impl) == (#[trigger] token_view(t) == TokenView::Impl),
        (t is Class) == (#[trigger] token_view(t) == TokenView::Class),
        (t is Cl) == (#[trigger] token_view(t) == TokenView::Cl),
        (t is Clg) == (#[trigger] token_view(t) == TokenView::Clg),
        (t is Clc) == (#[trigger] token_view(t) == TokenView::Clc),
        (t is Struct) == (#[trigger] token_view(t) == TokenView::Struct),
        (t is Try) == (#[trigger] token_view(t) == TokenView::Try),
        (t is Catch) == (#[trigger] token_view(t) == TokenView::Catch),
        (t is Throw) == (#[trigger] token_view(t) == TokenView::Throw),
        (t is In) == (#[trigger] token_view(t) == TokenView::In),
        (t is True) == (#[trigger] token_view(t) == TokenView::True),
        (t is False) == (#[trigger] token_view(t) == TokenView::False),
        (t is Await) == (#[trigger] token_view(t) == TokenView::Await),
        (t is BitAnd) == (#[trigger] token_view(t) == TokenView::BitAnd),
        (t is BitOr) == (#[trigger] token_view(t) == TokenView::BitOr),
        (t is BitXor) == (#[trigger] token_view(t) == TokenView::BitXor),
        (t is BitNot) == (#[trigger] token_view(t) == TokenView::BitNot),
        (t is Shl) == (#[trigger] token_view(t) == TokenView::Shl),
        (t is Shr) == (#[trigger] token_view(t) == TokenView::Shr),
        (t is And) == (#[trigger] token_view(t) == TokenView::And),
        (t is Or) == (#[trigger] token_view(t) == TokenView::Or),
        (t is Not) == (#[trigger] token_view(t) == TokenView::Not),
        (t is Import) == (#[trigger] token_view(t) == TokenView::Import),
        (t is Say) == (#[trigger] token_view(t) == TokenView::Say),
        (t is Ask) == (#[trigger] token_view(t) == TokenView::Ask),
        (t is Fng) == (#[trigger] token_view(t) == TokenView::Fng),
        (t is Fnc) == (#[trigger] token_view(t) == TokenView::Fnc),
        (t is Use) == (#[trigger] token_view(t) == TokenView::Use),
        (t is Upd) == (#[trigger] token_view(t) == TokenView::Upd),
        (t is Init) == (#[trigger] token_view(t) == TokenView::Init),
        (t is Plus) == (#[trigger] token_view(t) == TokenView::Plus),
        (t is Minus) == (#[trigger] token_view(t) == TokenView::Minus),
        (t is Star) == (#[trigger] token_view(t) == TokenView::Star),
        (t is Slash) == (#[trigger] token_view(t) == TokenView::Slash),
        (t is EqEq) == (#[trigger] token_view(t) == TokenView::EqEq),
        (t is Ne) == (#[trigger] token_view(t) == TokenView::Ne),
        (t is Le) == (#[trigger] token_view(t) == TokenView::Le),
        (t is Ge) == (#[trigger] token_view(t) == TokenView::Ge),
        (t is Lt) == (#[trigger] token_view(t) == TokenView::Lt),
        (t is Gt) == (#[trigger] token_view(t) == TokenView::Gt),
        (t is Eq) == (#[trigger] token_view(t) == TokenView::Eq),
        (t is Colon) == (#[trigger] token_view(t) == TokenView::Colon),
        (t is DotDot) == (#[trigger] token_view(t) == TokenView::DotDot),
        (t is Dot) == (#[trigger] token_view(t) == TokenView::Dot),
        (t is Semicolon) == (#[trigger] token_view(t) == TokenView::Semicolon),
        (t is Comma) == (#[trigger] token_view(t) == TokenView::Comma),
        (t is LBrace) == (#[trigger] token_view(t) == TokenView::LBrace),
        (t is RBrace) == (#[trigger] token_view(t) == TokenView::RBrace),
        (t is LParen) == (#[trigger] token_view(t) == TokenView::LParen),
        (t is RParen) == (#[trigger] token_view(t) == TokenView::RParen),
        (t is LBracket) == (#[trigger] token_view(t) == TokenView::LBracket),
        (t is RBracket) == (#[trigger] token_view(t) == TokenView::RBracket),
        (t is StringLit) == (token_view(t) is StringLit),
        (t is Float) == (token_view(t) is Float),
        (t is Number) == (token_view(t) is Number),
        (t is Identifier) == (token_view(t) is Identifier),
        t is StringLit ==> token_view(t)->StringLit_0 == t->StringLit_0@,
        t is Float ==> token_view(t)->Float_0 == t->Float_0@,
        t is Number ==> token_view(t)->Number_0 == t->Number_0,
        t is Identifier ==> token_view(t)->Identifier_0 == t->Identifier_0@,
{
    reveal(token_view);
}

/// The keyword spelled `w`, if any.
pub open spec fn keyword_of(w: Seq<char>) -> Option<TokenView> {
    if w == "fn"@ {
        Some(TokenView::Fn)
    } else if w == "var"@ {
        Some(TokenView::Var)
    } else if w == "return"@ {
        Some(TokenView::Return)
    } else if w == "async"@ {
        Some(TokenView::Async)
    } else if w == "mod"@ {
        Some(TokenView::Mod)
    } else if w == "if"@ {
        Some(TokenView::If)
    } else if w == "else"@ {
        Some(TokenView::Else)
    } else if w == "while"@ {
        Some(TokenView::While)
    } else if w == "for"@ {
        Some(TokenView::For)
    } else if w == "trait"@ {
        Some(TokenView::Trait)
    } else if w == "impl"@ {
        Some(TokenView::Impl)
    } else if w == "class"@ {
        Some(TokenView::Class)
    } else if w == "cl"@ {
        Some(TokenView::Cl)
    } else if w == "clg"@ {
        Some(TokenView::Clg)
    } else if w == "clc"@ {
        Some(TokenView::Clc)
    } else if w == "struct"@ {
        Some(TokenView::Struct)
    } else if w == "try"@ {
        Some(TokenView::Try)
    } else if w == "catch"@ {
        Some(TokenView::Catch)
    } else if w == "throw"@ {
        Some(TokenView::Throw)
    } else if w == "in"@ {
        Some(TokenView::In)
    } else if w == "true"@ {
        Some(TokenView::True)
    } else if w == "false"@ {
        Some(TokenView::False)
    } else if w == "await"@ {
        Some(TokenView::Await)
    } else if w == "and"@ {
        Some(TokenView::And)
    } else if w == "or"@ {
        Some(TokenView::Or)
    } else if w == "not"@ {
        Some(TokenView::Not)
    } else if w == "import"@ {
        Some(TokenView::Import)
    } else if w == "say"@ {
        Some(TokenView::Say)
    } else if w == "ask"@ {
        Some(TokenView::Ask)
    } else if w == "fng"@ {
        Some(TokenView::Fng)
    } else if w == "fnc"@ {
        Some(TokenView::Fnc)
    } else if w == "use"@ {
        Some(TokenView::Use)
    } else if w == "upd"@ {
        Some(TokenView::Upd)
    } else if w == "init"@ {
        Some(TokenView::Init)
    } else {
        None
    }
}

/// The keyword spelled by `w`, if any.
fn keyword_token(w: &[char]) -> (r: Option<Token>)
    ensures
        match r {
            Some(t) => keyword_of(w@) == Some(t@),
            None => keyword_of(w@) is None,
        },
{
    reveal(token_view);
    if chars_equal(w, "fn") {
        Some(Token::Fn)
    } else if chars_equal(w, "var") {
        Some(Token::Var)
    } else if chars_equal(w, "return") {
        Some(Token::Return)
    } else if chars_equal(w, "async") {
        Some(Token::Async)
    } else if chars_equal(w, "mod") {
        Some(Token::Mod)
    } else if chars_equal(w, "if") {
        Some(Token::If)
    } else if chars_equal(w, "else") {
        Some(Token::Else)
    } else if chars_equal(w, "while") {
        Some(Token::While)
    } else if chars_equal(w, "for") {
        Some(Token::For)
    } else if chars_equal(w, "trait") {
        Some(Token::Trait)
    } else if chars_equal(w, "impl") {
        Some(Token::Impl)
    } else if chars_equal(w, "class") {
        Some(Token::Class)
    } else if chars_equal(w, "cl") {
        Some(Token::Cl)
    } else if chars_equal(w, "clg") {
        Some(Token::Clg)
    } else if chars_equal(w, "clc") {
        Some(Token::Clc)
    } else if chars_equal(w, "struct") {
        Some(Token::Struct)
    } else if chars_equal(w, "try") {
        Some(Token::Try)
    } else if chars_equal(w, "catch") {
        Some(Token::Catch)
    } else if chars_equal(w, "throw") {
        Some(Token::Throw)
    } else if chars_equal(w, "in") {
        Some(Token::In)
    } else if chars_equal(w, "true") {
        Some(Token::True)
    } else if chars_equal(w, "false") {
        Some(Token::False)
    } else if chars_equal(w, "await") {
        Some(Token::Await)
    } else if chars_equal(w, "and") {
        Some(Token::And)
    } else if chars_equal(w, "or") {
        Some(Token::Or)
    } else if chars_equal(w, "not") {
        Some(Token::Not)
    } else if chars_equal(w, "import") {
        Some(Token::Import)
    } else if chars_equal(w, "say") {
        Some(Token::Say)
    } else if chars_equal(w, "ask") {
        Some(Token::Ask)
    } else if chars_equal(w, "fng") {
        Some(Token::Fng)
    } else if chars_equal(w, "fnc") {
        Some(Token::Fnc)
    } else if chars_equal(w, "use") {
        Some(Token::Use)
    } else if chars_equal(w, "upd") {
        Some(Token::Upd)
    } else if chars_equal(w, "init") {
        Some(Token::Init)
    } else {
        None
    }
}

/// The two-character operator spelled `a` then `b`, if any.
pub open spec fn operator_of_two(a: char, b: char) -> Option<TokenView> {
    if a == '<' && b == '<' {
        Some(TokenView::Shl)
    } else if a == '<' && b == '=' {
        Some(TokenView::Le)
    } else if a == '>' && b == '>' {
        Some(TokenView::Shr)
    } else if a == '>' && b == '=' {
        Some(TokenView::Ge)
    } else if a == '=' && b == '=' {
        Some(TokenView::EqEq)
    } else if a == '!' && b == '=' {
        Some(TokenView::Ne)
    } else if a == '.' && b == '.' {
        Some(TokenView::DotDot)
    } else {
        None
    }
}

/// The one-character operator or delimiter spelled `c`, if any.
pub open spec fn operator_of_one(c: char) -> Option<TokenView> {
    if c == '&' {
        Some(TokenView::BitAnd)
    } else if c == '|' {
        Some(TokenView::BitOr)
    } else if c == '^' {
        Some(TokenView::BitXor)
    } else if c == '~' {
        Some(TokenView::BitNot)
    } else if c == '+' {
        Some(TokenView::Plus)
    } else if c == '-' {
        Some(TokenView::Minus)
    } else if c == '*' {
        Some(TokenView::Star)
    } else if c == '<' {
        Some(TokenView::Lt)
    } else if c == '>' {
        Some(TokenView::Gt)
    } else if c == '=' {
        Some(TokenView::Eq)
    } else if c == ':' {
        Some(TokenView::Colon)
    } else if c == '.' {
        Some(TokenView::Dot)
    } else if c == ';' {
        Some(TokenView::Semicolon)
    } else if c == ',' {
        Some(TokenView::Comma)
    } else if c == '{' {
        Some(TokenView::LBrace)
    } else if c == '}' {
        Some(TokenView::RBrace)
    } else if c == '(' {
        Some(TokenView::LParen)
    } else if c == ')' {
        Some(TokenView::RParen)
    } else if c == '[' {
        Some(TokenView::LBracket)
    } else if c == ']' {
        Some(TokenView::RBracket)
    } else {
        None
    }
}

fn operator_two(a: char, b: char) -> (r: Option<Token>)
    ensures
        match r {
            Some(t) => operator_of_two(a, b) == Some(t@),
            None => operator_of_two(a, b) is None,
        },
{
    reveal(token_view);
    if a == '<' && b == '<' {
        Some(Token::Shl)
    } else if a == '<' && b == '=' {
        Some(Token::Le)
    } else if a == '>' && b == '>' {
        Some(Token::Shr)
    } else if a == '>' && b == '=' {
        Some(Token::Ge)
    } else if a == '=' && b == '=' {
        Some(Token::EqEq)
    } else if a == '!' && b == '=' {
        Some(Token::Ne)
    } else if a == '.' && b == '.' {
        Some(Token::DotDot)
    } else {
        None
    }
}

fn operator_one(c: char) -> (r: Option<Token>)
    ensures
        match r {
            Some(t) => operator_of_one(c) == Some(t@),
            None => operator_of_one(c) is None,
        },
{
    reveal(token_view);
    if c == '&' {
        Some(Token::BitAnd)
    } else if c == '|' {
        Some(Token::BitOr)
    } else if c == '^' {
        Some(Token::BitXor)
    } else if c == '~' {
        Some(Token::BitNot)
    } else if c == '+' {
        Some(Token::Plus)
    } else if c == '-' {
        Some(Token::Minus)
    } else if c == '*' {
        Some(Token::Star)
    } else if c == '<' {
        Some(Token::Lt)
    } else if c == '>' {
        Some(Token::Gt)
    } else if c == '=' {
        Some(Token::Eq)
    } else if c == ':' {
        Some(Token::Colon)
    } else if c == '.' {
        Some(Token::Dot)
    } else if c == ';' {
        Some(Token::Semicolon)
    } else if c == ',' {
        Some(Token::Comma)
    } else if c == '{' {
        Some(Token::LBrace)
    } else if c == '}' {
        Some(Token::RBrace)
    } else if c == '(' {
        Some(Token::LParen)
    } else if c == ')' {
        Some(Token::RParen)
    } else if c == '[' {
        Some(Token::LBracket)
    } else if c == ']' {
        Some(Token::RBracket)
    } else {
        None
    }
}

/// The characters skipped between tokens.
pub open spec fn is_space(c: char) -> bool {
    c == ' ' || c == '\t' || c == '\n' || c == '\x0c'
}

/// The characters an identifier starts with.
pub open spec fn ident_start(c: char) -> bool {
    ('a' <= c && c <= 'z') || ('A' <= c && c <= 'Z') || c == '_'
}

/// The characters an identifier continues with.
pub open spec fn ident_char(c: char) -> bool {
    ident_start(c) || is_digit(c) || c == '-'
}

/// The end of the run of spaces at `i`.
pub open spec fn space_end(s: Seq<char>, i: int) -> int
    decreases s.len() - i,
{
    if 0 <= i < s.len() && is_space(s[i]) {
        space_end(s, i + 1)
    } else {
        i
    }
}

/// The end of the run of digits at `i`.
pub open spec fn digits_end(s: Seq<char>, i: int) -> int
    decreases s.len() - i,
{
    if 0 <= i < s.len() && is_digit(s[i]) {
        digits_end(s, i + 1)
    } else {
        i
    }
}

/// The end of the run of identifier characters at `i`.
pub open spec fn ident_end(s: Seq<char>, i: int) -> int
    decreases s.len() - i,
{
    if 0 <= i < s.len() && ident_char(s[i]) {
        ident_end(s, i + 1)
    } else {
        i
    }
}

/// The position of the first newline at or after `i`, or the end.
pub open spec fn line_end(s: Seq<char>, i: int) -> int
    decreases s.len() - i,
{
    if 0 <= i < s.len() && s[i] != '\n' {
        line_end(s, i + 1)
    } else {
        i
    }
}

/// The end of a block comment whose body starts at `j`: the body is read as
/// single characters other than `*` and pairs of a `*` and a character other
/// than `/`, up to the `*/` that closes it. `None` when the text ends first.
pub open spec fn block_end(s: Seq<char>, j: int) -> Option<int>
    decreases s.len() - j,
{
    if j < 0 || j >= s.len() {
        None
    } else if s[j] == '*' {
        if j + 1 >= s.len() {
            None
        } else if s[j + 1] == '/' {
            Some(j + 2)
        } else {
            block_end(s, j + 2)
        }
    } else {
        block_end(s, j + 1)
    }
}

/// The end of a string literal whose body starts at `j`, just after its
/// closing quote: a backslash takes the next character with it, unless that
/// is a newline. `None` when no closing quote follows.
pub open spec fn string_end(s: Seq<char>, j: int) -> Option<int>
    decreases s.len() - j,
{
    if j < 0 || j >= s.len() {
        None
    } else if s[j] == '"' {
        Some(j + 1)
    } else if s[j] == '\\' {
        if j + 1 < s.len() && s[j + 1] != '\n' {
            string_end(s, j + 2)
        } else {
            None
        }
    } else {
        string_end(s, j + 1)
    }
}

/// What the text at a position starts with: something skipped, up to an
/// end; a token, up to an end; or nothing the language knows.
pub enum Lexeme {
    Skip(int),
    Tok(TokenView, int),
    Fail,
}

/// The longest match at `i`, which is inside the text.
pub open spec fn next_lexeme(s: Seq<char>, i: int) -> Lexeme {
    let c = s[i];
    if is_space(c) {
        Lexeme::Skip(space_end(s, i))
    } else if c == '#' {
        Lexeme::Skip(line_end(s, i))
    } else if c == '/' {
        if i + 1 < s.len() && s[i + 1] == '/' {
            Lexeme::Skip(line_end(s, i))
        } else if i + 1 < s.len() && s[i + 1] == '*' && block_end(s, i + 2) is Some {
            Lexeme::Skip(block_end(s, i + 2)->0)
        } else {
            Lexeme::Tok(TokenView::Slash, i + 1)
        }
    } else if is_digit(c) {
        let d = digits_end(s, i);
        if d + 1 < s.len() && s[d] == '.' && is_digit(s[d + 1]) {
            let f = digits_end(s, d + 1);
            Lexeme::Tok(TokenView::Float(s.subrange(i, f)), f)
        } else {
            Lexeme::Tok(TokenView::Number(nat_to_double(digits_value(s.subrange(i, d)))), d)
        }
    } else if ident_start(c) {
        let e = ident_end(s, i);
        let w = s.subrange(i, e);
        match keyword_of(w) {
            Some(k) => Lexeme::Tok(k, e),
            None => Lexeme::Tok(TokenView::Identifier(w), e),
        }
    } else if c == '"' {
        match string_end(s, i + 1) {
            Some(e) => Lexeme::Tok(TokenView::StringLit(s.subrange(i + 1, e - 1)), e),
            None => Lexeme::Fail,
        }
    } else if i + 1 < s.len() && operator_of_two(c, s[i + 1]) is Some {
        Lexeme::Tok(operator_of_two(c, s[i + 1])->0, i + 2)
    } else {
        match operator_of_one(c) {
            Some(t) => Lexeme::Tok(t, i + 1),
            None => Lexeme::Fail,
        }
    }
}

/// The tokens of the text from `i` on, each with the character positions
/// where it starts and ends, or the position where no token matches. (Every
/// match ends past its start; the check on it only shows that this ends.)
pub open spec fn lex_from(s: Seq<char>, i: int) -> Result<Seq<(TokenView, int, int)>, int>
    decreases s.len() - i,
{
    if i < 0 || i >= s.len() {
        Ok(seq![])
    } else {
        match next_lexeme(s, i) {
            Lexeme::Fail => Err(i),
            Lexeme::Skip(j) => if j <= i || j > s.len() {
                Err(i)
            } else {
                lex_from(s, j)
            },
            Lexeme::Tok(t, j) => if j <= i || j > s.len() {
                Err(i)
            } else {
                match lex_from(s, j) {
                    Ok(rest) => Ok(seq![(t, i, j)] + rest),
                    Err(e) => Err(e),
                }
            },
        }
    }
}

/// Tokens come in the order of the text: each covers a nonempty stretch of
/// it, and each starts at or after the end of the one before.
pub proof fn law_tokens_in_order(s: Seq<char>, i: int)
    requires
        0 <= i,
    ensures
        lex_from(s, i) is Ok ==> {
            let ts = lex_from(s, i)->Ok_0;
            &&& forall|k: int| #![trigger ts[k]] 0 <= k < ts.len() ==> i <= ts[k].1 < ts[k].2 <= s.len()
            &&& forall|k: int| #![trigger ts[k]] 0 <= k < ts.len() - 1 ==> ts[k].2 <= ts[k + 1].1
        },
    decreases s.len() - i,
{
    if i < s.len() {
        match next_lexeme(s, i) {
            Lexeme::Fail => {},
            Lexeme::Skip(j) => {
                if i < j <= s.len() {
                    law_tokens_in_order(s, j);
                }
            },
            Lexeme::Tok(t, j) => {
                if i < j <= s.len() {
                    law_tokens_in_order(s, j);
                    if lex_from(s, j) is Ok {
                        let rest = lex_from(s, j)->Ok_0;
                        let ts = seq![(t, i, j)] + rest;
                        assert(lex_from(s, i)->Ok_0 == ts);
                        assert forall|k: int| #![trigger ts[k]] 0 <= k < ts.len() - 1 implies ts[k].2 <= ts[k + 1].1 by {
                            if k > 0 {
                                assert(ts[k] == rest[k - 1]);
                            }
                            assert(ts[k + 1] == rest[k]);
                        }
                        assert forall|k: int| #![trigger ts[k]] 0 <= k < ts.len() implies i <= ts[k].1 < ts[k].2 <= s.len() by {
                            if k > 0 {
                                assert(ts[k] == rest[k - 1]);
                            }
                        }
                    }
                }
            },
        }
    }
}

/// The message for text that no token matches at character `i`: the
/// position is counted in bytes.
pub open spec fn lex_error_message(s: Seq<char>, i: int) -> Seq<char> {
    "Unexpected token at position "@ + decimal(utf8_len(s.take(i)))
}

/// Tokens with byte spans that stand for the tokens `ts` of `s`.
pub open spec fn spans_match(s: Seq<char>, v: Seq<(Token, Range<usize>)>, ts: Seq<(TokenView, int, int)>) -> bool {
    &&& v.len() == ts.len()
    &&& forall|k: int| #![trigger v[k]] 0 <= k < v.len() ==> {
        &&& v[k].0@ == ts[k].0
        &&& v[k].1.start == utf8_len(s.take(ts[k].1))
        &&& v[k].1.end == utf8_len(s.take(ts[k].2))
    }
}

/// `acc` before what `r` holds.
pub open spec fn after_tokens(acc: Seq<(TokenView, int, int)>, r: Result<Seq<(TokenView, int, int)>, int>) -> Result<Seq<(TokenView, int, int)>, int> {
    match r {
        Ok(rest) => Ok(acc + rest),
        Err(e) => Err(e),
    }
}

/// What the lexer gives for `s`: its tokens with byte spans, or the message
/// for the first position that no token matches.
pub open spec fn lexed(s: Seq<char>, r: Result<Vec<(Token, Range<usize>)>, String>) -> bool {
    match lex_from(s, 0) {
        Ok(ts) => r is Ok && spans_match(s, r->Ok_0@, ts),
        Err(i) => r is Err && r->Err_0@ == lex_error_message(s, i),
    }
}

/// The lexeme at `i` as the lexer holds it.
enum Lexed {
    Skip(usize),
    Tok(Token, usize),
    Fail,
}

spec fn lexed_view(l: Lexed) -> Lexeme {
    match l {
        Lexed::Skip(j) => Lexeme::Skip(j as int),
        Lexed::Tok(t, j) => Lexeme::Tok(t@, j as int),
        Lexed::Fail => Lexeme::Fail,
    }
}

fn scan_spaces(s: &Vec<char>, i: usize) -> (j: usize)
    requires
        s@.len() <= usize::MAX,
        i < s@.len(),
        is_space(s@[i as int]),
    ensures
        j == space_end(s@, i as int),
        i < j <= s@.len(),
{
    let mut j = i + 1;
    while j < s.len() && (s[j] == ' ' || s[j] == '\t' || s[j] == '\n' || s[j] == '\x0c')
        invariant
            i < j <= s@.len(),
            space_end(s@, j as int) == space_end(s@, i as int),
        decreases s@.len() - j,
    {
        j = j + 1;
    }
    j
}

fn scan_digits(s: &Vec<char>, i: usize) -> (j: usize)
    requires
        s@.len() <= usize::MAX,
        i < s@.len(),
        is_digit(s@[i as int]),
    ensures
        j == digits_end(s@, i as int),
        i < j <= s@.len(),
        forall|k: int| i <= k < j ==> is_digit(#[trigger] s@[k]),
{
    let mut j = i + 1;
    while j < s.len() && '0' <= s[j] && s[j] <= '9'
        invariant
            i < j <= s@.len(),
            digits_end(s@, j as int) == digits_end(s@, i as int),
            forall|k: int| i <= k < j ==> is_digit(#[trigger] s@[k]),
        decreases s@.len() - j,
    {
        j = j + 1;
    }
    j
}

fn scan_ident(s: &Vec<char>, i: usize) -> (j: usize)
    requires
        s@.len() <= usize::MAX,
        i < s@.len(),
        ident_start(s@[i as int]),
    ensures
        j == ident_end(s@, i as int),
        i < j <= s@.len(),
{
    let mut j = i + 1;
    while j < s.len() && (('a' <= s[j] && s[j] <= 'z') || ('A' <= s[j] && s[j] <= 'Z') || s[j] == '_'
        || ('0' <= s[j] && s[j] <= '9') || s[j] == '-')
        invariant
            i < j <= s@.len(),
            ident_end(s@, j as int) == ident_end(s@, i as int),
        decreases s@.len() - j,
    {
        j = j + 1;
    }
    j
}

fn scan_line(s: &Vec<char>, i: usize) -> (j: usize)
    requires
        s@.len() <= usize::MAX,
        i < s@.len(),
        s@[i as int] != '\n',
    ensures
        j == line_end(s@, i as int),
        i < j <= s@.len(),
{
    let mut j = i + 1;
    while j < s.len() && s[j] != '\n'
        invariant
            i < j <= s@.len(),
            line_end(s@, j as int) == line_end(s@, i as int),
        decreases s@.len() - j,
    {
        j = j + 1;
    }
    j
}

fn scan_block(s: &Vec<char>, j0: usize) -> (r: Option<usize>)
    requires
        j0 <= s@.len(),
    ensures
        match r {
            Some(e) => block_end(s@, j0 as int) == Some(e as int) && j0 < e <= s@.len(),
            None => block_end(s@, j0 as int) is None,
        },
{
    let mut j = j0;
    while j < s.len()
        invariant
            j0 <= j <= s@.len() + 1,
            block_end(s@, j as int) == block_end(s@, j0 as int),
        decreases s@.len() + 1 - j,
    {
        if s[j] == '*' {
            if j + 1 >= s.len() {
                return None;
            } else if s[j + 1] == '/' {
                return Some(j + 2);
            }
            j = j + 2;
        } else {
            j = j + 1;
        }
    }
    None
}

fn scan_string(s: &Vec<char>, j0: usize) -> (r: Option<usize>)
    requires
        j0 <= s@.len(),
    ensures
        match r {
            Some(e) => string_end(s@, j0 as int) == Some(e as int) && j0 < e <= s@.len(),
            None => string_end(s@, j0 as int) is None,
        },
{
    let mut j = j0;
    while j < s.len()
        invariant
            j0 <= j <= s@.len() + 1,
            string_end(s@, j as int) == string_end(s@, j0 as int),
        decreases s@.len() + 1 - j,
    {
        if s[j] == '"' {
            return Some(j + 1);
        } else if s[j] == '\\' {
            if j + 1 < s.len() && s[j + 1] != '\n' {
                j = j + 2;
            } else {
                return None;
            }
        } else {
            j = j + 1;
        }
    }
    None
}

fn copy_chars(s: &Vec<char>, lo: usize, hi: usize) -> (r: Vec<char>)
    requires
        lo <= hi <= s@.len(),
    ensures
        r@ == s@.subrange(lo as int, hi as int),
{
    let mut r: Vec<char> = Vec::new();
    let mut k = lo;
    while k < hi
        invariant
            lo <= k <= hi <= s@.len(),
            r@ == s@.subrange(lo as int, k as int),
        decreases hi - k,
    {
        r.push(s[k]);
        k = k + 1;
    }
    r
}

fn next_lexed(s: &Vec<char>, i: usize) -> (r: Lexed)
    requires
        s@.len() <= usize::MAX,
        i < s@.len(),
    ensures
        lexed_view(r) == next_lexeme(s@, i as int),
        match r {
            Lexed::Skip(j) => i < j <= s@.len(),
            Lexed::Tok(_, j) => i < j <= s@.len(),
            Lexed::Fail => true,
        },
{
    reveal(token_view);
    let c = s[i];
    if c == ' ' || c == '\t' || c == '\n' || c == '\x0c' {
        Lexed::Skip(scan_spaces(s, i))
    } else if c == '#' {
        Lexed::Skip(scan_line(s, i))
    } else if c == '/' {
        if i + 1 < s.len() && s[i + 1] == '/' {
            Lexed::Skip(scan_line(s, i))
        } else if i + 1 < s.len() && s[i + 1] == '*' {
            match scan_block(s, i + 2) {
                Some(e) => Lexed::Skip(e),
                None => Lexed::Tok(Token::Slash, i + 1),
            }
        } else {
            Lexed::Tok(Token::Slash, i + 1)
        }
    } else if '0' <= c && c <= '9' {
        let d = scan_digits(s, i);
        if s.len() - d > 1 && s[d] == '.' && '0' <= s[d + 1] && s[d + 1] <= '9' {
            let f = scan_digits(s, d + 1);
            let text = copy_chars(s, i, f);
            Lexed::Tok(Token::Float(string_of(&text)), f)
        } else {
            let digits = copy_chars(s, i, d);
            assert forall|k: int| 0 <= k < digits@.len() implies is_digit(#[trigger] digits@[k]) by {
                assert(digits@[k] == s@[i + k]);
            }
            Lexed::Tok(Token::Number(digits_to_double(&digits)), d)
        }
    } else if ('a' <= c && c <= 'z') || ('A' <= c && c <= 'Z') || c == '_' {
        let e = scan_ident(s, i);
        let w = copy_chars(s, i, e);
        match keyword_token(&w) {
            Some(k) => Lexed::Tok(k, e),
            None => Lexed::Tok(Token::Identifier(string_of(&w)), e),
        }
    } else if c == '"' {
        match scan_string(s, i + 1) {
            Some(e) => {
                let body = copy_chars(s, i + 1, e - 1);
                Lexed::Tok(Token::StringLit(string_of(&body)), e)
            }
            None => Lexed::Fail,
        }
    } else {
        let two = if i + 1 < s.len() {
            operator_two(c, s[i + 1])
        } else {
            None
        };
        match two {
            Some(t) => Lexed::Tok(t, i + 2),
            None => match operator_one(c) {
                Some(t) => Lexed::Tok(t, i + 1),
                None => Lexed::Fail,
            },
        }
    }
}

/// The number of bytes UTF-8 takes for `c`.
fn char_len(c: char) -> (n: usize)
    ensures
        n == char_utf8_len(c),
{
    if (c as u32) < 0x80 {
        1
    } else if (c as u32) < 0x800 {
        2
    } else if (c as u32) < 0x10000 {
        3
    } else {
        4
    }
}

proof fn lemma_utf8_prefix(s: Seq<char>, i: int, j: int)
    requires
        0 <= i <= j <= s.len(),
    ensures
        utf8_len(s.take(i)) <= utf8_len(s.take(j)),
        j == i + 1 ==> utf8_len(s.take(j)) == utf8_len(s.take(i)) + char_utf8_len(s[i]),
    decreases j - i,
{
    if i < j {
        assert(s.take(j).drop_last() == s.take(j - 1));
        lemma_utf8_prefix(s, i, j - 1);
    }
}

/// The tokens of `source` with their byte spans, or the message for the
/// first position where no token matches.
pub fn lex(source: &str) -> (r: Result<Vec<(Token, Range<usize>)>, String>)
    ensures
        lexed(source@, r),
{
    let s = chars_of(source);
    let total = byte_length(source);
    let mut out: Vec<(Token, Range<usize>)> = Vec::new();
    let ghost mut acc: Seq<(TokenView, int, int)> = seq![];
    let mut i: usize = 0;
    let mut byte: usize = 0;
    proof {
        assert(s@.take(s@.len() as int) == s@);
        assert(acc + lex_from(s@, 0)->Ok_0 == lex_from(s@, 0)->Ok_0);
    }
    while i < s.len()
        invariant
            i <= s@.len(),
            s@ == source@,
            total == utf8_len(s@),
            byte == utf8_len(s@.take(i as int)),
            lex_from(s@, 0) == after_tokens(acc, lex_from(s@, i as int)),
            spans_match(s@, out@, acc),
        decreases s@.len() - i,
    {
        proof {
            assert(s@.take(s@.len() as int) == s@);
        }
        let l = next_lexed(&s, i);
        match l {
            Lexed::Fail => {
                let msg = concat("Unexpected token at position ", &u64_to_text(byte as u64));
                return Err(msg);
            }
            Lexed::Skip(j) => {
                let mut k = i;
                while k < j
                    invariant
                        i <= k <= j <= s@.len(),
                        total == utf8_len(s@),
                        byte == utf8_len(s@.take(k as int)),
                    decreases j - k,
                {
                    proof {
                        lemma_utf8_prefix(s@, k as int, k + 1);
                        lemma_utf8_prefix(s@, k + 1, s@.len() as int);
                        assert(s@.take(s@.len() as int) == s@);
                    }
                    byte = byte + char_len(s[k]);
                    k = k + 1;
                }
                i = j;
            }
            Lexed::Tok(t, j) => {
                let start = byte;
                let mut k = i;
                while k < j
                    invariant
                        i <= k <= j <= s@.len(),
                        total == utf8_len(s@),
                        byte == utf8_len(s@.take(k as int)),
                    decreases j - k,
                {
                    proof {
                        lemma_utf8_prefix(s@, k as int, k + 1);
                        lemma_utf8_prefix(s@, k + 1, s@.len() as int);
                        assert(s@.take(s@.len() as int) == s@);
                    }
                    byte = byte + char_len(s[k]);
                    k = k + 1;
                }
                let ghost entry = (t@, i as int, j as int);
                proof {
                    match lex_from(s@, j as int) {
                        Ok(rest) => {
                            assert(acc + (seq![entry] + rest) == acc.push(entry) + rest);
                        }
                        Err(_) => {}
                    }
                    acc = acc.push(entry);
                }
                out.push((t, Range { start: start, end: byte }));
                i = j;
            }
        }
    }
    proof {
        assert(acc + seq![] == acc);
    }
    Ok(out)
}


/// How `char::escape_debug` writes `c` inside a quoted string: quotes,
/// backslashes and the usual control characters with a backslash, other
/// control characters as `\u{..}`, the rest as it is.
pub open spec fn escaped_char(c: char) -> Seq<char> {
    if c == '"' {
        seq!['\\', '"']
    } else if c == '\\' {
        seq!['\\', '\\']
    } else if c == '\n' {
        seq!['\\', 'n']
    } else if c == '\r' {
        seq!['\\', 'r']
    } else if c == '\t' {
        seq!['\\', 't']
    } else if c == '\0' {
        seq!['\\', '0']
    } else if (c as u32) < 0x20 || (c as u32) == 0x7f {
        seq!['\\', 'u', '{'] + hex_digits((c as u32) as nat) + seq!['}']
    } else {
        seq![c]
    }
}

/// The characters of `s`, each escaped.
pub open spec fn escaped(s: Seq<char>) -> Seq<char>
    decreases s.len(),
{
    if s.len() == 0 {
        seq![]
    } else {
        escaped(s.drop_last()) + escaped_char(s.last())
    }
}

/// `s` in double quotes, escaped: how `Debug` shows a string.
pub open spec fn quoted(s: Seq<char>) -> Seq<char> {
    seq!['"'] + escaped(s) + seq!['"']
}

/// `s` without its leading zeros, or `0` when it has only zeros.
pub open spec fn without_leading_zeros(s: Seq<char>) -> Seq<char>
    decreases s.len(),
{
    if s.len() == 0 {
        seq!['0']
    } else if s[0] == '0' {
        without_leading_zeros(s.drop_first())
    } else {
        s
    }
}

/// `s` without its trailing zeros, or `0` when it has only zeros.
pub open spec fn without_trailing_zeros(s: Seq<char>) -> Seq<char>
    decreases s.len(),
{
    if s.len() == 0 {
        seq!['0']
    } else if s.last() == '0' {
        without_trailing_zeros(s.drop_last())
    } else {
        s
    }
}

/// The text of a float literal written with its integer part without
/// leading zeros and its fraction without trailing zeros, as `Debug` shows
/// the double of a literal with up to 15 significant digits between `1e-4`
/// and `1e16`.
pub open spec fn float_text(text: Seq<char>) -> Seq<char> {
    let d = digits_end(text, 0);
    let frac = if d < text.len() { text.subrange(d + 1, text.len() as int) } else { seq![] };
    without_leading_zeros(text.subrange(0, d)) + seq!['.'] + without_trailing_zeros(frac)
}

/// How `Debug` shows a token. An integer literal shows as its value with a
/// `.0`, as `Debug` shows a double below `1e16`.
#[verifier::opaque]
pub open spec fn token_debug(t: TokenView) -> Seq<char> {
    match t {
        TokenView::Fn => "Fn"@,
        TokenView::Var => "Var"@,
        TokenView::Return => "Return"@,
        TokenView::Async => "Async"@,
        TokenView::Mod => "Mod"@,
        TokenView::If => "If"@,
        TokenView::Else => "Else"@,
        TokenView::While => "While"@,
        TokenView::For => "For"@,
        TokenView::Trait => "Trait"@,
        TokenView::Impl => "Impl"@,
        TokenView::Class => "Class"@,
        TokenView::Cl => "Cl"@,
        TokenView::Clg => "Clg"@,
        TokenView::Clc => "Clc"@,
        TokenView::Struct => "Struct"@,
        TokenView::Try => "Try"@,
        TokenView::Catch => "Catch"@,
        TokenView::Throw => "Throw"@,
        TokenView::In => "In"@,
        TokenView::True => "True"@,
        TokenView::False => "False"@,
        TokenView::Await => "Await"@,
        TokenView::BitAnd => "BitAnd"@,
        TokenView::BitOr => "BitOr"@,
        TokenView::BitXor => "BitXor"@,
        TokenView::BitNot => "BitNot"@,
        TokenView::Shl => "Shl"@,
        TokenView::Shr => "Shr"@,
        TokenView::And => "And"@,
        TokenView::Or => "Or"@,
        TokenView::Not => "Not"@,
        TokenView::Import => "Import"@,
        TokenView::Say => "Say"@,
        TokenView::Ask => "Ask"@,
        TokenView::Fng => "Fng"@,
        TokenView::Fnc => "Fnc"@,
        TokenView::Use => "Use"@,
        TokenView::Upd => "Upd"@,
        TokenView::Init => "Init"@,
        TokenView::Plus => "Plus"@,
        TokenView::Minus => "Minus"@,
        TokenView::Star => "Star"@,
        TokenView::Slash => "Slash"@,
        TokenView::EqEq => "EqEq"@,
        TokenView::Ne => "Ne"@,
        TokenView::Le => "Le"@,
        TokenView::Ge => "Ge"@,
        TokenView::Lt => "Lt"@,
        TokenView::Gt => "Gt"@,
        TokenView::Eq => "Eq"@,
        TokenView::Colon => "Colon"@,
        TokenView::DotDot => "DotDot"@,
        TokenView::Dot => "Dot"@,
        TokenView::Semicolon => "Semicolon"@,
        TokenView::Comma => "Comma"@,
        TokenView::LBrace => "LBrace"@,
        TokenView::RBrace => "RBrace"@,
        TokenView::LParen => "LParen"@,
        TokenView::RParen => "RParen"@,
        TokenView::LBracket => "LBracket"@,
        TokenView::RBracket => "RBracket"@,
        TokenView::StringLit(s) => "StringLit("@ + quoted(s) + ")"@,
        TokenView::Float(s) => "Float("@ + float_text(s) + ")"@,
        TokenView::Number(n) => "Number("@ + signed_decimal(double_to_int(n)) + ".0)"@,
        TokenView::Identifier(s) => "Identifier("@ + quoted(s) + ")"@,
    }
}

fn escape_into(out: &mut Vec<char>, s: &Vec<char>)
    ensures
        final(out)@ == old(out)@ + escaped(s@),
{
    let ghost start = out@;
    let mut i: usize = 0;
    while i < s.len()
        invariant
            0 <= i <= s@.len(),
            out@ == start + escaped(s@.take(i as int)),
        decreases s@.len() - i,
    {
        let c = s[i];
        let ghost before = out@;
        if c == '"' {
            out.push('\\');
            out.push('"');
        } else if c == '\\' {
            out.push('\\');
            out.push('\\');
        } else if c == '\n' {
            out.push('\\');
            out.push('n');
        } else if c == '\r' {
            out.push('\\');
            out.push('r');
        } else if c == '\t' {
            out.push('\\');
            out.push('t');
        } else if c == '\0' {
            out.push('\\');
            out.push('0');
        } else if (c as u32) < 0x20 || (c as u32) == 0x7f {
            out.push('\\');
            out.push('u');
            out.push('{');
            let code = c as u32;
            let h = hex_chars(code as u64);
            let mut k: usize = 0;
            let ghost mid = out@;
            while k < h.len()
                invariant
                    0 <= k <= h@.len(),
                    out@ == mid + h@.take(k as int),
                decreases h@.len() - k,
            {
                out.push(h[k]);
                k = k + 1;
            }
            assert(h@.take(h@.len() as int) == h@);
            out.push('}');
            assert(out@ =~= before + (seq!['\\', 'u', '{'] + hex_digits((c as u32) as nat) + seq!['}']));
        } else {
            out.push(c);
        }
        assert(s@.take(i + 1).drop_last() == s@.take(i as int));
        assert(out@ =~= before + escaped_char(c));
        i = i + 1;
    }
    assert(s@.take(s@.len() as int) == s@);
}

fn quoted_text(s: &String) -> (r: Vec<char>)
    ensures
        r@ == quoted(s@),
{
    let mut out: Vec<char> = Vec::new();
    out.push('"');
    escape_into(&mut out, &chars_of(s.as_str()));
    out.push('"');
    out
}

fn float_shown(text: &String) -> (r: Vec<char>)
    ensures
        r@ == float_text(text@),
{
    let s = chars_of(text.as_str());
    let mut d: usize = 0;
    while d < s.len() && '0' <= s[d] && s[d] <= '9'
        invariant
            0 <= d <= s@.len(),
            s@ == text@,
            digits_end(s@, d as int) == digits_end(s@, 0),
        decreases s@.len() - d,
    {
        d = d + 1;
    }
    let mut lo: usize = 0;
    while lo < d && s[lo] == '0'
        invariant
            0 <= lo <= d <= s@.len(),
            without_leading_zeros(s@.subrange(lo as int, d as int)) == without_leading_zeros(s@.subrange(0, d as int)),
        decreases d - lo,
    {
        assert(s@.subrange(lo as int, d as int).drop_first() == s@.subrange(lo + 1, d as int));
        lo = lo + 1;
    }
    let mut out: Vec<char> = Vec::new();
    if lo == d {
        out.push('0');
    } else {
        let mut k = lo;
        while k < d
            invariant
                lo <= k <= d <= s@.len(),
                out@ == s@.subrange(lo as int, k as int),
            decreases d - k,
        {
            out.push(s[k]);
            k = k + 1;
        }
        assert(s@.subrange(lo as int, d as int)[0] != '0');
    }
    out.push('.');
    if d == s.len() {
        out.push('0');
        return out;
    }
    let ghost frac = s@.subrange(d + 1, s@.len() as int);
    let mut hi: usize = s.len();
    while hi > d + 1 && s[hi - 1] == '0'
        invariant
            d < s@.len(),
            d + 1 <= hi <= s@.len(),
            without_trailing_zeros(s@.subrange(d + 1, hi as int)) == without_trailing_zeros(frac),
        decreases hi,
    {
        assert(s@.subrange(d + 1, hi as int).drop_last() == s@.subrange(d + 1, hi - 1));
        hi = hi - 1;
    }
    if hi == d + 1 {
        out.push('0');
    } else {
        let mut k = d + 1;
        let ghost mid = out@;
        while k < hi
            invariant
                d + 1 <= k <= hi <= s@.len(),
                out@ == mid + s@.subrange(d + 1, k as int),
            decreases hi - k,
        {
            out.push(s[k]);
            k = k + 1;
        }
        assert(s@.subrange(d + 1, hi as int).last() != '0');
    }
    out
}

/// How `Debug` shows a token, as the parser's messages write it.
pub fn token_debug_text(t: &Token) -> (r: String)
    ensures
        r@ == token_debug(t@),
{
    reveal(token_debug);
    reveal(token_view);
    match t {
        Token::Fn => "Fn".to_string(),
        Token::Var => "Var".to_string(),
        Token::Return => "Return".to_string(),
        Token::Async => "Async".to_string(),
        Token::Mod => "Mod".to_string(),
        Token::If => "If".to_string(),
        Token::Else => "Else".to_string(),
        Token::While => "While".to_string(),
        Token::For => "For".to_string(),
        Token::Trait => "Trait".to_string(),
        Token::Impl => "Impl".to_string(),
        Token::Class => "Class".to_string(),
        Token::Cl => "Cl".to_string(),
        Token::Clg => "Clg".to_string(),
        Token::Clc => "Clc".to_string(),
        Token::Struct => "Struct".to_string(),
        Token::Try => "Try".to_string(),
        Token::Catch => "Catch".to_string(),
        Token::Throw => "Throw".to_string(),
        Token::In => "In".to_string(),
        Token::True => "True".to_string(),
        Token::False => "False".to_string(),
        Token::Await => "Await".to_string(),
        Token::BitAnd => "BitAnd".to_string(),
        Token::BitOr => "BitOr".to_string(),
        Token::BitXor => "BitXor".to_string(),
        Token::BitNot => "BitNot".to_string(),
        Token::Shl => "Shl".to_string(),
        Token::Shr => "Shr".to_string(),
        Token::And => "And".to_string(),
        Token::Or => "Or".to_string(),
        Token::Not => "Not".to_string(),
        Token::Import => "Import".to_string(),
        Token::Say => "Say".to_string(),
        Token::Ask => "Ask".to_string(),
        Token::Fng => "Fng".to_string(),
        Token::Fnc => "Fnc".to_string(),
        Token::Use => "Use".to_string(),
        Token::Upd => "Upd".to_string(),
        Token::Init => "Init".to_string(),
        Token::Plus => "Plus".to_string(),
        Token::Minus => "Minus".to_string(),
        Token::Star => "Star".to_string(),
        Token::Slash => "Slash".to_string(),
        Token::EqEq => "EqEq".to_string(),
        Token::Ne => "Ne".to_string(),
        Token::Le => "Le".to_string(),
        Token::Ge => "Ge".to_string(),
        Token::Lt => "Lt".to_string(),
        Token::Gt => "Gt".to_string(),
        Token::Eq => "Eq".to_string(),
        Token::Colon => "Colon".to_string(),
        Token::DotDot => "DotDot".to_string(),
        Token::Dot => "Dot".to_string(),
        Token::Semicolon => "Semicolon".to_string(),
        Token::Comma => "Comma".to_string(),
        Token::LBrace => "LBrace".to_string(),
        Token::RBrace => "RBrace".to_string(),
        Token::LParen => "LParen".to_string(),
        Token::RParen => "RParen".to_string(),
        Token::LBracket => "LBracket".to_string(),
        Token::RBracket => "RBracket".to_string(),
        Token::StringLit(s) => {
            let q = quoted_text(s);
            let a = concat("StringLit(", &string_of(&q));
            concat(&a, ")")
        }
        Token::Identifier(s) => {
            let q = quoted_text(s);
            let a = concat("Identifier(", &string_of(&q));
            concat(&a, ")")
        }
        Token::Float(s) => {
            let f = float_shown(s);
            let a = concat("Float(", &string_of(&f));
            concat(&a, ")")
        }
        Token::Number(n) => {
            let a = concat("Number(", &i64_to_text(double_to_i64(*n)));
            concat(&a, ".0)")
        }
    }
}

/// The character, and the second one if any, that spell an operator or
/// delimiter token, for those read by `operator_of_one` and
/// `operator_of_two` (the slash, which may open a comment, is read apart).
pub open spec fn operator_spelling(t: TokenView) -> Option<(char, Option<char>)> {
    match t {
        TokenView::BitAnd => Some(('&', None)),
        TokenView::BitOr => Some(('|', None)),
        TokenView::BitXor => Some(('^', None)),
        TokenView::BitNot => Some(('~', None)),
        TokenView::Plus => Some(('+', None)),
        TokenView::Minus => Some(('-', None)),
        TokenView::Star => Some(('*', None)),
        TokenView::Lt => Some(('<', None)),
        TokenView::Gt => Some(('>', None)),
        TokenView::Eq => Some(('=', None)),
        TokenView::Colon => Some((':', None)),
        TokenView::Dot => Some(('.', None)),
        TokenView::Semicolon => Some((';', None)),
        TokenView::Comma => Some((',', None)),
        TokenView::LBrace => Some(('{', None)),
        TokenView::RBrace => Some(('}', None)),
        TokenView::LParen => Some(('(', None)),
        TokenView::RParen => Some((')', None)),
        TokenView::LBracket => Some(('[', None)),
        TokenView::RBracket => Some((']', None)),
        TokenView::Shl => Some(('<', Some('<'))),
        TokenView::Le => Some(('<', Some('='))),
        TokenView::Shr => Some(('>', Some('>'))),
        TokenView::Ge => Some(('>', Some('='))),
        TokenView::EqEq => Some(('=', Some('='))),
        TokenView::Ne => Some(('!', Some('='))),
        TokenView::DotDot => Some(('.', Some('.'))),
        _ => None,
    }
}

/// A character is read as a one-character operator exactly when it spells
/// that operator (`<` is `Lt`, never `Gt`; `-` is `Minus`), and a pair of
/// characters as a two-character operator exactly when the pair spells it
/// (`<=` is `Le`, `<<` is `Shl`).
pub proof fn law_operator_spellings(a: char, b: char, t: TokenView)
    ensures
        operator_of_one(a) == Some(t) <==> operator_spelling(t) == Some((a, None::<char>)),
        operator_of_two(a, b) == Some(t) <==> operator_spelling(t) == Some((a, Some(b))),
{
}

/// The word that spells each keyword token.
pub open spec fn keyword_spelling(t: TokenView) -> Option<Seq<char>> {
    match t {
        TokenView::Fn => Some("fn"@),
        TokenView::Var => Some("var"@),
        TokenView::Return => Some("return"@),
        TokenView::Async => Some("async"@),
        TokenView::Mod => Some("mod"@),
        TokenView::If => Some("if"@),
        TokenView::Else => Some("else"@),
        TokenView::While => Some("while"@),
        TokenView::For => Some("for"@),
        TokenView::Trait => Some("trait"@),
        TokenView::Impl => Some("impl"@),
        TokenView::Class => Some("class"@),
        TokenView::Cl => Some("cl"@),
        TokenView::Clg => Some("clg"@),
        TokenView::Clc => Some("clc"@),
        TokenView::Struct => Some("struct"@),
        TokenView::Try => Some("try"@),
        TokenView::Catch => Some("catch"@),
        TokenView::Throw => Some("throw"@),
        TokenView::In => Some("in"@),
        TokenView::True => Some("true"@),
        TokenView::False => Some("false"@),
        TokenView::Await => Some("await"@),
        TokenView::And => Some("and"@),
        TokenView::Or => Some("or"@),
        TokenView::Not => Some("not"@),
        TokenView::Import => Some("import"@),
        TokenView::Say => Some("say"@),
        TokenView::Ask => Some("ask"@),
        TokenView::Fng => Some("fng"@),
        TokenView::Fnc => Some("fnc"@),
        TokenView::Use => Some("use"@),
        TokenView::Upd => Some("upd"@),
        TokenView::Init => Some("init"@),
        _ => None,
    }
}

/// A word read as a keyword is the word that spells that keyword: `while`
/// is read as `While` and as nothing else, `if` as `If`, and so on.
pub proof fn law_keyword_spellings(w: Seq<char>, t: TokenView)
    ensures
        keyword_of(w) == Some(t) ==> keyword_spelling(t) == Some(w),
{
}

} // verus!
