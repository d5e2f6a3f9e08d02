//! The lexer of formulas: it cuts the text of a formula into tokens.

use vstd::prelude::*;
use crate::cursor::{strip_spec, Cursor, CursorModel};
use crate::text::{is_ascii_letter, is_digit, is_letter, str_eq};

verus! {

/// Whether `c` is alphabetic, as `char::is_alphabetic` finds it.
pub uninterp spec fn char_is_alphabetic(c: char) -> bool;

/// Whether `c` is a letter or a number, as `char::is_alphanumeric` finds
/// it.
pub uninterp spec fn char_is_alphanumeric(c: char) -> bool;

/// `char::is_alphabetic` of the standard library: whether the character
/// has the property `Alphabetic` of Unicode.
pub assume_specification[ char::is_alphabetic ](c: char) -> (r: bool)
    ensures
        r == char_is_alphabetic(c),
;

/// `char::is_alphanumeric` of the standard library: whether the character
/// is alphabetic or has one of the number categories of Unicode.
pub assume_specification[ char::is_alphanumeric ](c: char) -> (r: bool)
    ensures
        r == char_is_alphanumeric(c),
;

#[derive(Debug, Clone, Copy, PartialEq, Eq, Structural)]
pub enum TokenType {
    Bang,
    BangEqual,
    Comma,
    Divide,
    Dot,
    Equal,
    EqualEqual,
    Error,
    Greater,
    GreaterEqual,
    Ident,
    Ignore,
    LeftBrace,
    LeftParen,
    Less,
    LessEqual,
    Minus,
    Number,
    Plus,
    Range,
    RightBrace,
    RightParen,
    Semicolon,
    Star,
    Str,
    Unknown,
}

#[derive(Debug)]
pub struct Token {
    index: usize,
    token_type: TokenType,
    value: String,
}

/// What a `Token` holds, with its text as characters.
pub struct TokenModel {
    /// The place of the token among the tokens of its formula, from 1.
    pub index: nat,
    pub token_type: TokenType,
    pub value: Seq<char>,
}

impl View for Token {
    type V = TokenModel;

    closed spec fn view(&self) -> TokenModel {
        TokenModel { index: self.index as nat, token_type: self.token_type, value: self.value@ }
    }
}

impl Token {
    /// The place of the token among the tokens of its formula, from 1.
    pub fn index(&self) -> (r: usize)
        ensures
            r == self@.index,
    {
        self.index
    }

    pub fn token_type(&self) -> (r: &TokenType)
        ensures
            *r == self@.token_type,
    {
        &self.token_type
    }

    /// The text of the token.
    pub fn value(&self) -> (r: &str)
        ensures
            r@ == self@.value,
    {
        self.value.as_str()
    }
}

/// The token of kind `token_type` that the characters at hand make.
pub open spec fn token_of(state: CursorModel, token_type: TokenType) -> TokenModel {
    TokenModel { index: state.index, token_type, value: state.lexeme }
}

/// Whether `c` can stand in the name of an error after its `#`.
pub open spec fn is_error_char(c: char) -> bool {
    is_ascii_letter(c) || c == '!' || c == '/' || c == '?' || c == '0'
}

/// Whether `lexeme` is the name of an error.
pub open spec fn is_error_name(lexeme: Seq<char>) -> bool {
    ||| lexeme == "#NULL!"@
    ||| lexeme == "#DIV/0"@
    ||| lexeme == "#VALUE!"@
    ||| lexeme == "#REF!"@
    ||| lexeme == "#NAME?"@
    ||| lexeme == "#NUM!"@
    ||| lexeme == "#N/A"@
}

impl CursorModel {
    /// The state after the rest of a text in quotes `quote` is taken, and
    /// whether a quote closed it: the text goes up to the next quote, but
    /// two quotes in a row are part of it, and it loses the quotes round
    /// it. Every line break counts a line. Without a closing quote the text
    /// takes all that is left.
    pub open spec fn quoted(self, quote: char) -> (CursorModel, bool)
        decreases self.source.len() - self.ahead,
    {
        let next = self.advance();
        match self.peek() {
            None => (next, false),
            Some(c) => if c == quote {
                if next.peek_char() == quote {
                    next.advance().quoted(quote)
                } else {
                    (CursorModel { lexeme: strip_spec(next.lexeme, quote), ..next }, true)
                }
            } else if c == '\n' {
                (CursorModel { line: next.line + 1, ..next }).quoted(quote)
            } else {
                next.quoted(quote)
            },
        }
    }

    /// The state after the rest of a range in brackets is taken, and
    /// whether a bracket closed it. Without one the range takes all that is
    /// left.
    pub open spec fn bracketed(self) -> (CursorModel, bool)
        decreases self.source.len() - self.ahead,
    {
        let next = self.advance();
        match self.peek() {
            None => (next, false),
            Some(c) => if c == ']' {
                (next, true)
            } else {
                next.bracketed()
            },
        }
    }

    /// The state after the characters are taken that can stand in the name
    /// of an error.
    pub open spec fn error_chars(self) -> CursorModel
        decreases self.source.len() - self.ahead,
    {
        if self.ahead < self.source.len() && is_error_char(self.peek_char()) {
            self.advance().error_chars()
        } else {
            self
        }
    }

    /// The state after the digits that come next are taken.
    pub open spec fn digits(self) -> CursorModel
        decreases self.source.len() - self.ahead,
    {
        if self.ahead < self.source.len() && is_digit(self.peek_char()) {
            self.advance().digits()
        } else {
            self
        }
    }

    /// The state after a number is taken: digits, and after them, at will,
    /// a point and more digits.
    pub open spec fn number(self) -> CursorModel {
        let whole = self.digits();
        if whole.peek_char() == '.' {
            whole.advance().digits()
        } else {
            whole
        }
    }

    /// The state after the letters and numbers that come next are taken.
    pub open spec fn alphanumerics(self) -> CursorModel
        decreases self.source.len() - self.ahead,
    {
        if self.ahead < self.source.len() && char_is_alphanumeric(self.peek_char()) {
            self.advance().alphanumerics()
        } else {
            self
        }
    }

    /// The state after the blanks that come next are taken.
    pub open spec fn blanks(self) -> CursorModel
        decreases self.source.len() - self.ahead,
    {
        if self.ahead < self.source.len() && self.peek_char() == ' ' {
            self.advance().blanks()
        } else {
            self
        }
    }

    /// The kind of the token that starts with one of the characters that
    /// are a token by themselves.
    pub open spec fn single(c: char) -> Option<TokenType> {
        if c == '(' {
            Some(TokenType::LeftParen)
        } else if c == ')' {
            Some(TokenType::RightParen)
        } else if c == '{' {
            Some(TokenType::LeftBrace)
        } else if c == '}' {
            Some(TokenType::RightBrace)
        } else if c == ',' {
            Some(TokenType::Comma)
        } else if c == '.' {
            Some(TokenType::Dot)
        } else if c == '-' {
            Some(TokenType::Minus)
        } else if c == '+' {
            Some(TokenType::Plus)
        } else if c == ';' {
            Some(TokenType::Semicolon)
        } else if c == '*' {
            Some(TokenType::Star)
        } else if c == '/' {
            Some(TokenType::Divide)
        } else {
            None
        }
    }

    /// The kinds of the tokens that start with a character which an equal
    /// sign may follow: the kind without the sign, and the kind with it.
    pub open spec fn paired(c: char) -> Option<(TokenType, TokenType)> {
        if c == '!' {
            Some((TokenType::Bang, TokenType::BangEqual))
        } else if c == '=' {
            Some((TokenType::Equal, TokenType::EqualEqual))
        } else if c == '<' {
            Some((TokenType::Less, TokenType::LessEqual))
        } else if c == '>' {
            Some((TokenType::Greater, TokenType::GreaterEqual))
        } else {
            None
        }
    }

    /// The state in which the next token is complete, and its kind; none at
    /// the end of the formula. The first character decides what is taken.
    /// A text or a range that is not closed, an error of no known name, and
    /// a character with which no token starts are tokens of an unknown kind,
    /// and the lexer remembers that it met one.
    pub open spec fn scan(self) -> Option<(CursorModel, TokenType)> {
        let next = self.advance();
        match next.current {
            None => None,
            Some(c) => Some(
                if Self::single(c) is Some {
                    (next, Self::single(c)->0)
                } else if let Some((alone, with_equal)) = Self::paired(c) {
                    if next.matches_next('=') {
                        (next.advance(), with_equal)
                    } else {
                        (next, alone)
                    }
                } else if c == ' ' {
                    (next.blanks(), TokenType::Ignore)
                } else if c == '"' || c == '\'' {
                    let (end, closed) = next.quoted(c);
                    if closed {
                        (end, TokenType::Str)
                    } else {
                        (CursorModel { had_error: true, ..end }, TokenType::Unknown)
                    }
                } else if c == '[' {
                    let (end, closed) = next.bracketed();
                    if closed {
                        (end, TokenType::Range)
                    } else {
                        (CursorModel { had_error: true, ..end }, TokenType::Unknown)
                    }
                } else if c == '#' {
                    let end = next.error_chars();
                    if is_error_name(end.lexeme) {
                        (end, TokenType::Error)
                    } else {
                        (CursorModel { had_error: true, ..end }, TokenType::Unknown)
                    }
                } else if is_digit(c) {
                    (next.number(), TokenType::Number)
                } else if char_is_alphabetic(c) {
                    (next.alphanumerics(), TokenType::Ident)
                } else {
                    (CursorModel { had_error: true, ..next }, TokenType::Unknown)
                },
            ),
        }
    }
}

/// The lexer of one formula.
#[derive(Debug)]
pub struct Lexer<'a> {
    formula: &'a str,
    cursor: Cursor,
}

/// What a `Lexer` holds.
pub struct LexerModel {
    /// The formula that the lexer reads.
    pub formula: Seq<char>,
    /// Where the lexer stands in it.
    pub cursor: CursorModel,
}

impl<'a> View for Lexer<'a> {
    type V = LexerModel;

    closed spec fn view(&self) -> LexerModel {
        LexerModel { formula: self.formula@, cursor: self.cursor@ }
    }
}

impl<'a> Lexer<'a> {
    /// A lexer at the start of `formula`.
    pub fn new(formula: &'a str) -> (r: Lexer<'a>)
        requires
            formula@.len() < usize::MAX,
        ensures
            r@ == (LexerModel { formula: formula@, cursor: CursorModel::start(formula@) }),
            r@.cursor.wf(),
    {
        Lexer { formula, cursor: Cursor::new(formula) }
    }

    /// The formula that the lexer reads.
    pub fn formula(&self) -> (r: &'a str)
        ensures
            r@ == self@.formula,
    {
        self.formula
    }

    /// Whether a token could not be read.
    pub fn had_error(&self) -> (r: bool)
        ensures
            r == self@.cursor.had_error,
    {
        self.cursor.had_error()
    }

    fn advance(&mut self) -> (r: Option<char>)
        requires
            old(self)@.cursor.wf(),
        ensures
            final(self)@.formula == old(self)@.formula,
            final(self)@.cursor == old(self)@.cursor.advance(),
            final(self)@.cursor.wf(),
            r == old(self)@.cursor.peek(),
            r == final(self)@.cursor.current,
    {
        self.cursor.advance()
    }

    fn try_match(&mut self, expected: char) -> (r: bool)
        requires
            old(self)@.cursor.wf(),
        ensures
            final(self)@.formula == old(self)@.formula,
            r == old(self)@.cursor.matches_next(expected),
            final(self)@.cursor == if r {
                old(self)@.cursor.advance()
            } else {
                old(self)@.cursor
            },
            final(self)@.cursor.wf(),
    {
        self.cursor.try_match(expected)
    }

    fn error_msg(&mut self)
        ensures
            final(self)@.formula == old(self)@.formula,
            final(self)@.cursor == (CursorModel { had_error: true, ..old(self)@.cursor }),
    {
        self.cursor.error_msg()
    }

    fn token(&mut self, token_type: TokenType) -> (r: Token)
        requires
            old(self)@.cursor.index < usize::MAX,
        ensures
            final(self)@.formula == old(self)@.formula,
            r@ == token_of(old(self)@.cursor, token_type),
            final(self)@.cursor == old(self)@.cursor.after_token(),
    {
        let (index, value) = self.cursor.token();
        Token { index, token_type, value }
    }

    fn peek(&self) -> (r: char)
        ensures
            r == self@.cursor.peek_char(),
    {
        self.cursor.peek()
    }

    fn strip_lexeme(&mut self, c: char)
        ensures
            final(self)@.formula == old(self)@.formula,
            final(self)@.cursor == (CursorModel {
                lexeme: strip_spec(old(self)@.cursor.lexeme, c),
                ..old(self)@.cursor
            }),
    {
        self.cursor.strip_lexeme(c)
    }

    /// Takes the rest of a text in quotes `quote`, and says whether a
    /// quote closed it.
    fn quoted(&mut self, quote: char) -> (closed: bool)
        requires
            old(self)@.cursor.wf(),
        ensures
            final(self)@.formula == old(self)@.formula,
            (final(self)@.cursor, closed) == old(self)@.cursor.quoted(quote),
            final(self)@.cursor.wf(),
            final(self)@.cursor.index == old(self)@.cursor.index,
            final(self)@.cursor.ahead >= old(self)@.cursor.ahead,
    {
        loop
            invariant
                self@.formula == old(self)@.formula,
                self@.cursor.wf(),
                self@.cursor.index == old(self)@.cursor.index,
                self@.cursor.ahead >= old(self)@.cursor.ahead,
                self@.cursor.quoted(quote) == old(self)@.cursor.quoted(quote),
            decreases self@.cursor.source.len() - self@.cursor.ahead,
        {
            match self.advance() {
                None => {
                    return false;
                },
                Some(c) => {
                    if c == quote {
                        if self.peek() == quote {
                            self.advance();
                        } else {
                            self.strip_lexeme(quote);
                            return true;
                        }
                    } else if c == '\n' {
                        self.cursor.count_line();
                    }
                },
            }
        }
    }

    fn string(&mut self) -> (r: Token)
        requires
            old(self)@.cursor.wf(),
            old(self)@.cursor.index <= old(self)@.cursor.ahead,
        ensures
            final(self)@.formula == old(self)@.formula,
            final(self)@.cursor.wf(),
            ({
                let (end, closed) = old(self)@.cursor.quoted('"');
                if closed {
                    r@ == token_of(end, TokenType::Str) && final(self)@.cursor == end.after_token()
                } else {
                    r@ == token_of(end, TokenType::Unknown) && final(self)@.cursor == (CursorModel {
                        had_error: true,
                        ..end
                    }).after_token()
                }
            }),
    {
        if self.quoted('"') {
            self.token(TokenType::Str)
        } else {
            self.error_msg();
            self.token(TokenType::Unknown)
        }
    }

    fn path(&mut self) -> (r: Token)
        requires
            old(self)@.cursor.wf(),
            old(self)@.cursor.index <= old(self)@.cursor.ahead,
        ensures
            final(self)@.formula == old(self)@.formula,
            final(self)@.cursor.wf(),
            ({
                let (end, closed) = old(self)@.cursor.quoted('\'');
                if closed {
                    r@ == token_of(end, TokenType::Str) && final(self)@.cursor == end.after_token()
                } else {
                    r@ == token_of(end, TokenType::Unknown) && final(self)@.cursor == (CursorModel {
                        had_error: true,
                        ..end
                    }).after_token()
                }
            }),
    {
        if self.quoted('\'') {
            self.token(TokenType::Str)
        } else {
            self.error_msg();
            self.token(TokenType::Unknown)
        }
    }

    fn range(&mut self) -> (r: Token)
        requires
            old(self)@.cursor.wf(),
            old(self)@.cursor.index <= old(self)@.cursor.ahead,
        ensures
            final(self)@.formula == old(self)@.formula,
            final(self)@.cursor.wf(),
            ({
                let (end, closed) = old(self)@.cursor.bracketed();
                if closed {
                    r@ == token_of(end, TokenType::Range) && final(self)@.cursor == end.after_token()
                } else {
                    r@ == token_of(end, TokenType::Unknown) && final(self)@.cursor == (CursorModel {
                        had_error: true,
                        ..end
                    }).after_token()
                }
            }),
    {
        loop
            invariant
                self@.formula == old(self)@.formula,
                self@.cursor.wf(),
                self@.cursor.index == old(self)@.cursor.index,
                self@.cursor.index <= self@.cursor.ahead,
                self@.cursor.bracketed() == old(self)@.cursor.bracketed(),
            decreases self@.cursor.source.len() - self@.cursor.ahead,
        {
            match self.advance() {
                None => {
                    self.error_msg();
                    return self.token(TokenType::Unknown);
                },
                Some(c) => {
                    if c == ']' {
                        return self.token(TokenType::Range);
                    }
                },
            }
        }
    }

    fn error(&mut self) -> (r: Token)
        requires
            old(self)@.cursor.wf(),
            old(self)@.cursor.index <= old(self)@.cursor.ahead,
        ensures
            final(self)@.formula == old(self)@.formula,
            final(self)@.cursor.wf(),
            ({
                let end = old(self)@.cursor.error_chars();
                if is_error_name(end.lexeme) {
                    r@ == token_of(end, TokenType::Error) && final(self)@.cursor == end.after_token()
                } else {
                    r@ == token_of(end, TokenType::Unknown) && final(self)@.cursor == (CursorModel {
                        had_error: true,
                        ..end
                    }).after_token()
                }
            }),
    {
        loop
            invariant
                self@.formula == old(self)@.formula,
                self@.cursor.wf(),
                self@.cursor.index == old(self)@.cursor.index,
                self@.cursor.ahead >= old(self)@.cursor.ahead,
                self@.cursor.error_chars() == old(self)@.cursor.error_chars(),
            ensures
                self@.formula == old(self)@.formula,
                self@.cursor.wf(),
                self@.cursor.index == old(self)@.cursor.index,
                self@.cursor.ahead >= old(self)@.cursor.ahead,
                self@.cursor == old(self)@.cursor.error_chars(),
            decreases self@.cursor.source.len() - self@.cursor.ahead,
        {
            let c = self.peek();
            if !(is_letter(c) || c == '!' || c == '/' || c == '?' || c == '0') {
                break ;
            }
            self.advance();
        }
        let name = self.cursor.lexeme();
        let name = name.as_str();
        if str_eq(name, "#NULL!") || str_eq(name, "#DIV/0") || str_eq(name, "#VALUE!") || str_eq(
            name,
            "#REF!",
        ) || str_eq(name, "#NAME?") || str_eq(name, "#NUM!") || str_eq(name, "#N/A") {
            self.token(TokenType::Error)
        } else {
            self.error_msg();
            self.token(TokenType::Unknown)
        }
    }

    /// Takes the digits that come next.
    fn digits(&mut self)
        requires
            old(self)@.cursor.wf(),
        ensures
            final(self)@.formula == old(self)@.formula,
            final(self)@.cursor == old(self)@.cursor.digits(),
            final(self)@.cursor.wf(),
            final(self)@.cursor.index == old(self)@.cursor.index,
            final(self)@.cursor.ahead >= old(self)@.cursor.ahead,
    {
        while '0' <= self.peek() && self.peek() <= '9'
            invariant
                self@.formula == old(self)@.formula,
                self@.cursor.wf(),
                self@.cursor.index == old(self)@.cursor.index,
                self@.cursor.ahead >= old(self)@.cursor.ahead,
                self@.cursor.digits() == old(self)@.cursor.digits(),
            decreases self@.cursor.source.len() - self@.cursor.ahead,
        {
            self.advance();
        }
    }

    fn number(&mut self) -> (r: Token)
        requires
            old(self)@.cursor.wf(),
            old(self)@.cursor.index <= old(self)@.cursor.ahead,
        ensures
            final(self)@.formula == old(self)@.formula,
            final(self)@.cursor.wf(),
            r@ == token_of(old(self)@.cursor.number(), TokenType::Number),
            final(self)@.cursor == old(self)@.cursor.number().after_token(),
    {
        self.digits();
        if self.peek() == '.' {
            self.advance();
            self.digits();
        }
        self.token(TokenType::Number)
    }

    fn ident(&mut self) -> (r: Token)
        requires
            old(self)@.cursor.wf(),
            old(self)@.cursor.index <= old(self)@.cursor.ahead,
        ensures
            final(self)@.formula == old(self)@.formula,
            final(self)@.cursor.wf(),
            r@ == token_of(old(self)@.cursor.alphanumerics(), TokenType::Ident),
            final(self)@.cursor == old(self)@.cursor.alphanumerics().after_token(),
    {
        while self.cursor.has_next() && self.peek().is_alphanumeric()
            invariant
                self@.formula == old(self)@.formula,
                self@.cursor.wf(),
                self@.cursor.index == old(self)@.cursor.index,
                self@.cursor.ahead >= old(self)@.cursor.ahead,
                self@.cursor.alphanumerics() == old(self)@.cursor.alphanumerics(),
            decreases self@.cursor.source.len() - self@.cursor.ahead,
        {
            self.advance();
        }
        self.token(TokenType::Ident)
    }

    /// The next token of the formula; none at its end.
    pub fn next_token(&mut self) -> (r: Option<Token>)
        requires
            old(self)@.cursor.wf(),
        ensures
            final(self)@.formula == old(self)@.formula,
            final(self)@.cursor.wf(),
            match old(self)@.cursor.scan() {
                Some((end, kind)) => r is Some && r->0@ == token_of(end, kind) && final(self)@.cursor
                    == end.after_token(),
                None => r is None && final(self)@.cursor == old(self)@.cursor.advance(),
            },
    {
        if let Some(c) = self.advance() {
            match c {
                '(' => Some(self.token(TokenType::LeftParen)),
                ')' => Some(self.token(TokenType::RightParen)),
                '{' => Some(self.token(TokenType::LeftBrace)),
                '}' => Some(self.token(TokenType::RightBrace)),
                ',' => Some(self.token(TokenType::Comma)),
                '.' => Some(self.token(TokenType::Dot)),
                '-' => Some(self.token(TokenType::Minus)),
                '+' => Some(self.token(TokenType::Plus)),
                ';' => Some(self.token(TokenType::Semicolon)),
                '*' => Some(self.token(TokenType::Star)),
                '/' => Some(self.token(TokenType::Divide)),
                '!' => {
                    if self.try_match('=') {
                        Some(self.token(TokenType::BangEqual))
                    } else {
                        Some(self.token(TokenType::Bang))
                    }
                },
                '=' => {
                    if self.try_match('=') {
                        Some(self.token(TokenType::EqualEqual))
                    } else {
                        Some(self.token(TokenType::Equal))
                    }
                },
                '<' => {
                    if self.try_match('=') {
                        Some(self.token(TokenType::LessEqual))
                    } else {
                        Some(self.token(TokenType::Less))
                    }
                },
                '>' => {
                    if self.try_match('=') {
                        Some(self.token(TokenType::GreaterEqual))
                    } else {
                        Some(self.token(TokenType::Greater))
                    }
                },
                ' ' => {
                    while self.peek() == ' '
                        invariant
                            self@.formula == old(self)@.formula,
                            self@.cursor.wf(),
                            self@.cursor.index <= self@.cursor.ahead,
                            self@.cursor.blanks() == old(self)@.cursor.advance().blanks(),
                        decreases self@.cursor.source.len() - self@.cursor.ahead,
                    {
                        self.advance();
                    }
                    Some(self.token(TokenType::Ignore))
                },
                '"' => Some(self.string()),
                '\'' => Some(self.path()),
                '[' => Some(self.range()),
                '#' => Some(self.error()),
                _ => {
                    if '0' <= c && c <= '9' {
                        Some(self.number())
                    } else if c.is_alphabetic() {
                        Some(self.ident())
                    } else {
                        self.error_msg();
                        Some(self.token(TokenType::Unknown))
                    }
                },
            }
        } else {
            None
        }
    }
}

} // verus!
