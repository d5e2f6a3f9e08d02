//! Number formats: the lexer that cuts a format code into tokens, and the
//! formatter that writes a number as a format says.

use vstd::prelude::*;
use vstd::slice::slice_subrange;
use crate::cursor::{strip_spec, Cursor, CursorModel};
use crate::text::{chars_of, string_of_slice};

verus! {

#[derive(Debug, Clone, Copy, PartialEq, Eq, Structural)]
pub enum TokenType {
    /// Special symbol - basically, no special format
    General,
    /// there are (up to) four sections for number formats, broken up by
    /// semicolons.
    SectionBreak,
    /// digit or zero
    Zero,
    /// digit (if needed)
    PoundSign,
    /// thousands separator
    Comma,
    /// show decimal point for numbers
    Period,
    /// fractions
    Slash,
    /// multiply number by 100 and add percent sign
    Percent,
    Exponential,
    /// digit or space
    QuestionMark,
    /// skip width (like ?)
    Underscore,
    /// *= means the "=" will fill empty space in the cell
    Repeat,
    /// @ ... when value is text, emit it "as is"
    At,
    /// Literal text to be emitted with value
    Text,
    Year,
    Month,
    Day,
    Second,
    Hour,
    /// AM/PM
    Meridiem,
    /// eg, [Red]
    Color,
    /// eg, [<=100][Red] will display numbers less than 100 in red
    Condition,
    /// Do not really expect to see this, but maybe?
    Unknown,
}

#[derive(Debug)]
pub struct Token {
    index: usize,
    token_type: TokenType,
    value: String,
}

/// What a `Token` holds, with its text as characters.
pub struct TokenModel {
    /// The place of the token among the tokens of its format, from 1.
    pub index: nat,
    pub token_type: TokenType,
    pub value: Seq<char>,
}

impl View for Token {
    type V = TokenModel;

    closed spec fn view(&self) -> TokenModel {
        TokenModel { index: self.index as nat, token_type: self.token_type, value: self.value@ }
    }
}

impl Token {
    /// The place of the token among the tokens of its format, from 1.
    pub fn index(&self) -> (r: usize)
        ensures
            r == self@.index,
    {
        self.index
    }

    pub fn token_type(&self) -> (r: &TokenType)
        ensures
            *r == self@.token_type,
    {
        &self.token_type
    }

    /// The text of the token.
    pub fn value(&self) -> (r: &str)
        ensures
            r@ == self@.value,
    {
        self.value.as_str()
    }
}

/// The token of kind `token_type` that the characters at hand make.
pub open spec fn token_of(state: CursorModel, token_type: TokenType) -> TokenModel {
    TokenModel { index: state.index, token_type, value: state.lexeme }
}

/// The kind of the token that the character `c` is by itself, if it is
/// one.
pub open spec fn single(c: char) -> Option<TokenType> {
    if c == '0' {
        Some(TokenType::Zero)
    } else if c == '#' {
        Some(TokenType::PoundSign)
    } else if c == '?' {
        Some(TokenType::QuestionMark)
    } else if c == ',' {
        Some(TokenType::Comma)
    } else if c == '.' {
        Some(TokenType::Period)
    } else if c == '/' {
        Some(TokenType::Slash)
    } else if c == '%' {
        Some(TokenType::Percent)
    } else if c == '@' {
        Some(TokenType::At)
    } else if c == '_' {
        Some(TokenType::Underscore)
    } else if c == ';' {
        Some(TokenType::SectionBreak)
    } else {
        None
    }
}

/// The kind of the token that a run of the character `c` makes, if it
/// makes one.
pub open spec fn repeated(c: char) -> Option<TokenType> {
    if c == 'y' {
        Some(TokenType::Year)
    } else if c == 'm' {
        Some(TokenType::Month)
    } else if c == 'd' {
        Some(TokenType::Day)
    } else if c == 'h' {
        Some(TokenType::Hour)
    } else if c == 's' {
        Some(TokenType::Second)
    } else if c == ' ' {
        Some(TokenType::Text)
    } else {
        None
    }
}

/// The state after the characters `c` that come next are taken.
pub open spec fn same(state: CursorModel, c: char) -> CursorModel
    decreases state.source.len() - state.ahead,
{
    if state.ahead < state.source.len() && state.peek_char() == c {
        same(state.advance(), c)
    } else {
        state
    }
}

/// The state after the characters up to the next `close` are taken, and
/// whether there was one. Without one all that is left is taken.
pub open spec fn until(state: CursorModel, close: char) -> (CursorModel, bool)
    decreases state.source.len() - state.ahead,
{
    let next = state.advance();
    match state.peek() {
        None => (next, false),
        Some(c) => if c == close {
            (next, true)
        } else {
            until(next, close)
        },
    }
}

/// `lexeme` without its first and its last character.
pub open spec fn inner(lexeme: Seq<char>) -> Seq<char> {
    lexeme.subrange(1, lexeme.len() - 1)
}

/// The characters that follow the `G` of `General`.
pub open spec fn general_tail() -> Seq<char> {
    seq!['e', 'n', 'e', 'r', 'a', 'l']
}

/// The state after as many characters of `General` are taken as come
/// next, from the one at `k` of its tail on, and whether they were all
/// there.
pub open spec fn general(state: CursorModel, k: nat) -> (CursorModel, bool)
    decreases 6 - k,
{
    if k >= 6 {
        (state, true)
    } else if state.matches_next(general_tail()[k as int]) {
        general(state.advance(), k + 1)
    } else {
        (state, false)
    }
}

/// The state after the rest of `AM/PM` or `A/P` is taken, in either case,
/// and whether it was all there. What does not fit is left.
pub open spec fn meridiem(state: CursorModel) -> (CursorModel, bool) {
    let c = state.peek_char();
    if c == '/' {
        let slash = state.advance();
        if slash.peek_char() == 'p' || slash.peek_char() == 'P' {
            (slash.advance(), true)
        } else {
            (slash, false)
        }
    } else if c == 'm' || c == 'M' {
        let first = state.advance();
        if !first.matches_next('/') {
            (first, false)
        } else {
            let slash = first.advance();
            if !(slash.peek_char() == 'P' || slash.peek_char() == 'p') {
                (slash, false)
            } else {
                let second = slash.advance();
                if second.peek_char() == 'm' || second.peek_char() == 'M' {
                    (second.advance(), true)
                } else {
                    (second, false)
                }
            }
        }
    } else {
        (state, false)
    }
}

/// The state in which the next token is complete, and its kind; none at
/// the end of the format. The first character decides what is taken. What
/// starts like a token and does not end like one is a token of an unknown
/// kind; where such a token is a text or a bracket without its end, the
/// lexer remembers that it met one.
pub open spec fn scan(state: CursorModel) -> Option<(CursorModel, TokenType)> {
    let next = state.advance();
    match state.peek() {
        None => None,
        Some(c) => Some(
            if let Some(kind) = single(c) {
                (next, kind)
            } else if let Some(kind) = repeated(c) {
                (same(next, c), kind)
            } else if c == 'e' || c == 'E' {
                if next.peek_char() == '+' || next.peek_char() == '-' {
                    (next.advance(), TokenType::Exponential)
                } else {
                    (next, TokenType::Exponential)
                }
            } else if c == '*' || c == '\'' {
                if next.peek_char() != '\0' {
                    let taken = next.advance();
                    (
                        CursorModel { lexeme: strip_spec(taken.lexeme, c), ..taken },
                        if c == '*' {
                            TokenType::Repeat
                        } else {
                            TokenType::Text
                        },
                    )
                } else {
                    (next, TokenType::Unknown)
                }
            } else if c == '[' {
                let (end, closed) = until(next, ']');
                if closed {
                    (
                        CursorModel { lexeme: inner(end.lexeme), ..end },
                        if next.peek_char() == '<' || next.peek_char() == '>' || next.peek_char()
                            == '=' {
                            TokenType::Condition
                        } else {
                            TokenType::Color
                        },
                    )
                } else {
                    (CursorModel { had_error: true, ..end }, TokenType::Unknown)
                }
            } else if c == '"' {
                let (end, closed) = until(next, '"');
                if closed {
                    (CursorModel { lexeme: strip_spec(end.lexeme, '"'), ..end }, TokenType::Text)
                } else {
                    (CursorModel { had_error: true, ..end }, TokenType::Unknown)
                }
            } else if c == 'G' {
                let (end, whole) = general(next, 0);
                (
                    end,
                    if whole {
                        TokenType::General
                    } else {
                        TokenType::Unknown
                    },
                )
            } else if c == 'a' || c == 'A' {
                let (end, whole) = meridiem(next);
                (
                    end,
                    if whole {
                        TokenType::Meridiem
                    } else {
                        TokenType::Unknown
                    },
                )
            } else {
                (next, TokenType::Text)
            },
        ),
    }
}

/// Taking characters never goes back, and never changes the text.
pub proof fn lemma_taking_goes_on(state: CursorModel, c: char, k: nat)
    requires
        state.wf(),
    ensures
        same(state, c).wf() && same(state, c).ahead >= state.ahead && same(state, c).index
            == state.index && same(state, c).source == state.source,
        ({
            let (end, closed) = until(state, c);
            end.wf() && end.ahead >= state.ahead && end.index == state.index && end.source
                == state.source && (closed ==> end.lexeme.len() >= state.lexeme.len() + 1)
        }),
        ({
            let (end, whole) = general(state, k);
            end.wf() && end.ahead >= state.ahead && end.index == state.index && end.source
                == state.source
        }),
        ({
            let (end, whole) = meridiem(state);
            end.wf() && end.ahead >= state.ahead && end.index == state.index && end.source
                == state.source
        }),
    decreases state.source.len() - state.ahead, 6 - k,
{
    if state.ahead < state.source.len() {
        lemma_taking_goes_on(state.advance(), c, k);
        if k < 6 {
            lemma_taking_goes_on(state.advance(), c, k + 1);
        }
    }
}

/// A token takes at least one character, and leaves the lexer in order.
pub proof fn lemma_scan_goes_on(state: CursorModel)
    requires
        state.wf(),
    ensures
        match scan(state) {
            Some((end, kind)) => end.wf() && end.ahead > state.ahead && end.index == state.index
                && end.source == state.source,
            None => state.ahead == state.source.len(),
        },
{
    if let Some(c) = state.peek() {
        let next = state.advance();
        lemma_taking_goes_on(next, c, 0);
        lemma_taking_goes_on(next, ']', 0);
        lemma_taking_goes_on(next, '"', 0);
    }
}

/// The tokens of the rest of a format, from the state `state` on, and the
/// state in which the lexer ends.
pub open spec fn tokens_from(state: CursorModel) -> (Seq<TokenModel>, CursorModel)
    decreases state.source.len() - state.ahead,
    when state.wf()
    via tokens_from_decreases
{
    match scan(state) {
        None => (Seq::empty(), state.advance()),
        Some((end, kind)) => {
            let (rest, last) = tokens_from(end.after_token());
            (seq![token_of(end, kind)] + rest, last)
        },
    }
}

#[via_fn]
proof fn tokens_from_decreases(state: CursorModel) {
    lemma_scan_goes_on(state);
}

/// The tokens of the format code `format`.
pub open spec fn format_tokens(format: Seq<char>) -> Seq<TokenModel> {
    tokens_from(CursorModel::start(format)).0
}

/// The tokens on the places of `tokens` as what they hold.
pub open spec fn token_models(tokens: Seq<Token>) -> Seq<TokenModel> {
    Seq::new(tokens.len(), |i: int| tokens[i]@)
}

/// The lexer of one format code. It holds the tokens of the format from
/// the start.
#[derive(Debug)]
pub struct Lexer<'a> {
    // Total format
    format: &'a str,
    // where the lexer stands in it
    cursor: Cursor,
    // list of tokens that we've seen so far
    tokens: Option<Vec<Token>>,
}

/// What a `Lexer` holds.
pub struct LexerModel {
    /// The format that the lexer reads.
    pub format: Seq<char>,
    /// Where the lexer stands in it.
    pub cursor: CursorModel,
    /// The tokens that the lexer has read.
    pub tokens: Option<Seq<TokenModel>>,
}

impl<'a> View for Lexer<'a> {
    type V = LexerModel;

    closed spec fn view(&self) -> LexerModel {
        LexerModel {
            format: self.format@,
            cursor: self.cursor@,
            tokens: match self.tokens {
                Some(tokens) => Some(token_models(tokens@)),
                None => None,
            },
        }
    }
}

impl<'a> Lexer<'a> {
    /// The lexer of `format`, with the tokens of `format`.
    pub fn new(format: &'a str) -> (r: Lexer<'a>)
        requires
            format@.len() < usize::MAX,
        ensures
            r@.format == format@,
            r@.tokens == Some(format_tokens(format@)),
            r@.cursor == tokens_from(CursorModel::start(format@)).1,
    {
        let mut lexer = Lexer { format, cursor: Cursor::new(format), tokens: None };
        lexer.prime();
        lexer
    }

    /// The format that the lexer reads.
    pub fn format(&self) -> (r: &'a str)
        ensures
            r@ == self@.format,
    {
        self.format
    }

    /// Whether a text or a bracket of the format had no end.
    pub fn had_error(&self) -> (r: bool)
        ensures
            r == self@.cursor.had_error,
    {
        self.cursor.had_error()
    }

    /// list of tokens of the format
    pub fn tokens(&self) -> (r: Option<&Vec<Token>>)
        ensures
            match r {
                Some(tokens) => self@.tokens == Some(token_models(tokens@)),
                None => self@.tokens is None,
            },
    {
        self.tokens.as_ref()
    }

    /// The tokens of the format, for good.
    pub fn into_tokens(self) -> (r: Vec<Token>)
        ensures
            match self@.tokens {
                Some(tokens) => token_models(r@) == tokens,
                None => r@.len() == 0,
            },
    {
        match self.tokens {
            Some(tokens) => tokens,
            None => Vec::new(),
        }
    }

    /// Reads the whole format into tokens.
    fn prime(&mut self)
        requires
            old(self)@.cursor.wf(),
            old(self)@.cursor.lexeme.len() == 0,
            old(self)@.cursor.index <= old(self)@.cursor.ahead + 1,
        ensures
            final(self)@.format == old(self)@.format,
            final(self)@.tokens == Some(tokens_from(old(self)@.cursor).0),
            final(self)@.cursor == tokens_from(old(self)@.cursor).1,
    {
        let mut tokens: Vec<Token> = Vec::new();
        assert(token_models(tokens@) =~= Seq::<TokenModel>::empty());
        loop
            invariant
                self@.format == old(self)@.format,
                self.cursor@.wf(),
                self.cursor@.lexeme.len() == 0,
                tokens_from(old(self)@.cursor).0 == token_models(tokens@) + tokens_from(
                    self.cursor@,
                ).0,
                tokens_from(old(self)@.cursor).1 == tokens_from(self.cursor@).1,
            decreases self.cursor@.source.len() - self.cursor@.ahead,
        {
            let ghost before = self.cursor@;
            let ghost done = token_models(tokens@);
            proof {
                lemma_scan_goes_on(before);
            }
            if let Some(c) = self.advance() {
                let next_token = match c {
                    '0' => self.token(TokenType::Zero),
                    '#' => self.token(TokenType::PoundSign),
                    '?' => self.token(TokenType::QuestionMark),
                    ',' => self.token(TokenType::Comma),
                    '.' => self.token(TokenType::Period),
                    '/' => self.token(TokenType::Slash),
                    '%' => self.token(TokenType::Percent),
                    'e' | 'E' => self.exponential(),
                    '*' => {
                        if self.peek() != '\0' {
                            self.advance();
                            self.strip_lexeme('*');
                            self.token(TokenType::Repeat)
                        } else {
                            self.token(TokenType::Unknown)
                        }
                    },
                    '@' => self.token(TokenType::At),
                    '\'' => {
                        if self.peek() != '\0' {
                            self.advance();
                            self.strip_lexeme('\'');
                            self.token(TokenType::Text)
                        } else {
                            self.token(TokenType::Unknown)
                        }
                    },
                    '_' => self.token(TokenType::Underscore),
                    '[' => {
                        let p = self.peek();
                        if p == '<' || p == '>' || p == '=' {
                            self.condition()
                        } else {
                            self.color()
                        }
                    },
                    'y' => self.slurp_same(TokenType::Year),
                    'm' => self.slurp_same(TokenType::Month),
                    'd' => self.slurp_same(TokenType::Day),
                    'h' => self.slurp_same(TokenType::Hour),
                    's' => self.slurp_same(TokenType::Second),
                    '"' => self.string(),
                    'G' => self.general(),
                    'a' | 'A' => self.time(),
                    ' ' => self.slurp_same(TokenType::Text),
                    ';' => self.token(TokenType::SectionBreak),
                    _ => self.token(TokenType::Text),
                };
                tokens.push(next_token);
                proof {
                    let (end, kind) = scan(before)->0;
                    assert(next_token@ == token_of(end, kind));
                    assert(self.cursor@ == end.after_token());
                    let rest = tokens_from(self.cursor@).0;
                    assert(token_models(tokens@) =~= done.push(next_token@));
                    assert(done + (seq![next_token@] + rest) =~= done.push(next_token@) + rest);
                }
            } else {
                self.tokens = Some(tokens);
                assert(done + Seq::<TokenModel>::empty() =~= done);
                return ;
            }
        }
    }

    fn advance(&mut self) -> (r: Option<char>)
        requires
            old(self)@.cursor.wf(),
        ensures
            final(self)@ == (LexerModel { cursor: old(self)@.cursor.advance(), ..old(self)@ }),
            final(self)@.cursor.wf(),
            r == old(self)@.cursor.peek(),
            r == final(self)@.cursor.current,
    {
        self.cursor.advance()
    }

    fn error_msg(&mut self)
        ensures
            final(self)@ == (LexerModel {
                cursor: CursorModel { had_error: true, ..old(self)@.cursor },
                ..old(self)@
            }),
    {
        self.cursor.error_msg()
    }

    fn token(&mut self, token_type: TokenType) -> (r: Token)
        requires
            old(self)@.cursor.index < usize::MAX,
        ensures
            r@ == token_of(old(self)@.cursor, token_type),
            final(self)@ == (LexerModel { cursor: old(self)@.cursor.after_token(), ..old(self)@ }),
    {
        let (index, value) = self.cursor.token();
        Token { index, token_type, value }
    }

    fn peek(&self) -> (r: char)
        ensures
            r == self@.cursor.peek_char(),
    {
        self.cursor.peek()
    }

    fn try_match(&mut self, expected: char) -> (r: bool)
        requires
            old(self)@.cursor.wf(),
        ensures
            r == old(self)@.cursor.matches_next(expected),
            final(self)@ == (LexerModel {
                cursor: if r {
                    old(self)@.cursor.advance()
                } else {
                    old(self)@.cursor
                },
                ..old(self)@
            }),
            final(self)@.cursor.wf(),
    {
        self.cursor.try_match(expected)
    }

    fn strip_lexeme(&mut self, c: char)
        ensures
            final(self)@ == (LexerModel {
                cursor: CursorModel {
                    lexeme: strip_spec(old(self)@.cursor.lexeme, c),
                    ..old(self)@.cursor
                },
                ..old(self)@
            }),
    {
        self.cursor.strip_lexeme(c)
    }

    /// Takes the characters up to the next `close`, and says whether
    /// there was one.
    fn take_until(&mut self, close: char) -> (closed: bool)
        requires
            old(self)@.cursor.wf(),
        ensures
            (final(self)@.cursor, closed) == until(old(self)@.cursor, close),
            final(self)@.format == old(self)@.format,
            final(self)@.tokens == old(self)@.tokens,
    {
        loop
            invariant
                self@.cursor.wf(),
                self@.format == old(self)@.format,
                self@.tokens == old(self)@.tokens,
                until(self@.cursor, close) == until(old(self)@.cursor, close),
            decreases self@.cursor.source.len() - self@.cursor.ahead,
        {
            match self.advance() {
                None => {
                    return false;
                },
                Some(c) => {
                    if c == close {
                        return true;
                    }
                },
            }
        }
    }

    fn string(&mut self) -> (r: Token)
        requires
            old(self)@.cursor.wf(),
            old(self)@.cursor.index <= old(self)@.cursor.ahead,
        ensures
            final(self)@.format == old(self)@.format,
            final(self)@.tokens == old(self)@.tokens,
            ({
                let (end, closed) = until(old(self)@.cursor, '"');
                if closed {
                    let end = CursorModel { lexeme: strip_spec(end.lexeme, '"'), ..end };
                    r@ == token_of(end, TokenType::Text) && final(self)@.cursor == end.after_token()
                } else {
                    let end = CursorModel { had_error: true, ..end };
                    r@ == token_of(end, TokenType::Unknown) && final(self)@.cursor
                        == end.after_token()
                }
            }),
    {
        proof {
            lemma_taking_goes_on(self@.cursor, '"', 0);
        }
        if self.take_until('"') {
            self.strip_lexeme('"');
            self.token(TokenType::Text)
        } else {
            self.error_msg();
            self.token(TokenType::Unknown)
        }
    }

    /// Takes a bracket to its end and makes it a token of kind
    /// `token_type`, without the brackets.
    fn bracket(&mut self, token_type: TokenType) -> (r: Token)
        requires
            old(self)@.cursor.wf(),
            old(self)@.cursor.index <= old(self)@.cursor.ahead,
            old(self)@.cursor.lexeme.len() >= 1,
        ensures
            final(self)@.format == old(self)@.format,
            final(self)@.tokens == old(self)@.tokens,
            ({
                let (end, closed) = until(old(self)@.cursor, ']');
                if closed {
                    let end = CursorModel { lexeme: inner(end.lexeme), ..end };
                    r@ == token_of(end, token_type) && final(self)@.cursor == end.after_token()
                } else {
                    let end = CursorModel { had_error: true, ..end };
                    r@ == token_of(end, TokenType::Unknown) && final(self)@.cursor
                        == end.after_token()
                }
            }),
    {
        proof {
            lemma_taking_goes_on(self@.cursor, ']', 0);
        }
        if self.take_until(']') {
            let lexeme = self.cursor.lexeme();
            let chars = chars_of(lexeme.as_str());
            let l = slice_subrange(chars.as_slice(), 1, chars.len() - 1);
            let (index, _) = self.cursor.token();
            let value = string_of_slice(l);
            Token { index, token_type, value }
        } else {
            self.error_msg();
            self.token(TokenType::Unknown)
        }
    }

    fn color(&mut self) -> (r: Token)
        requires
            old(self)@.cursor.wf(),
            old(self)@.cursor.index <= old(self)@.cursor.ahead,
            old(self)@.cursor.lexeme.len() >= 1,
        ensures
            final(self)@.format == old(self)@.format,
            final(self)@.tokens == old(self)@.tokens,
            ({
                let (end, closed) = until(old(self)@.cursor, ']');
                if closed {
                    let end = CursorModel { lexeme: inner(end.lexeme), ..end };
                    r@ == token_of(end, TokenType::Color) && final(self)@.cursor
                        == end.after_token()
                } else {
                    let end = CursorModel { had_error: true, ..end };
                    r@ == token_of(end, TokenType::Unknown) && final(self)@.cursor
                        == end.after_token()
                }
            }),
    {
        self.bracket(TokenType::Color)
    }

    fn condition(&mut self) -> (r: Token)
        requires
            old(self)@.cursor.wf(),
            old(self)@.cursor.index <= old(self)@.cursor.ahead,
            old(self)@.cursor.lexeme.len() >= 1,
        ensures
            final(self)@.format == old(self)@.format,
            final(self)@.tokens == old(self)@.tokens,
            ({
                let (end, closed) = until(old(self)@.cursor, ']');
                if closed {
                    let end = CursorModel { lexeme: inner(end.lexeme), ..end };
                    r@ == token_of(end, TokenType::Condition) && final(self)@.cursor
                        == end.after_token()
                } else {
                    let end = CursorModel { had_error: true, ..end };
                    r@ == token_of(end, TokenType::Unknown) && final(self)@.cursor
                        == end.after_token()
                }
            }),
    {
        self.bracket(TokenType::Condition)
    }

    fn exponential(&mut self) -> (r: Token)
        requires
            old(self)@.cursor.wf(),
            old(self)@.cursor.index <= old(self)@.cursor.ahead,
        ensures
            final(self)@.format == old(self)@.format,
            final(self)@.tokens == old(self)@.tokens,
            ({
                let c = old(self)@.cursor.peek_char();
                let end = if c == '+' || c == '-' {
                    old(self)@.cursor.advance()
                } else {
                    old(self)@.cursor
                };
                r@ == token_of(end, TokenType::Exponential) && final(self)@.cursor
                    == end.after_token()
            }),
    {
        let c = self.peek();
        if c == '+' || c == '-' {
            self.advance();
        }
        self.token(TokenType::Exponential)
    }

    fn slurp_same(&mut self, token: TokenType) -> (r: Token)
        requires
            old(self)@.cursor.wf(),
            old(self)@.cursor.index <= old(self)@.cursor.ahead,
            old(self)@.cursor.current is Some,
        ensures
            final(self)@.format == old(self)@.format,
            final(self)@.tokens == old(self)@.tokens,
            ({
                let end = same(old(self)@.cursor, old(self)@.cursor.current->0);
                r@ == token_of(end, token) && final(self)@.cursor == end.after_token()
            }),
    {
        let c = match self.cursor.current() {
            Some(c) => c,
            None => '\0',
        };
        while self.cursor.has_next() && self.peek() == c
            invariant
                self@.cursor.wf(),
                self@.format == old(self)@.format,
                self@.tokens == old(self)@.tokens,
                self@.cursor.index == old(self)@.cursor.index,
                self@.cursor.index <= self@.cursor.ahead,
                same(self@.cursor, c) == same(old(self)@.cursor, c),
            decreases self@.cursor.source.len() - self@.cursor.ahead,
        {
            self.advance();
        }
        self.token(token)
    }

    /// Takes the rest of `General`.
    fn general(&mut self) -> (r: Token)
        requires
            old(self)@.cursor.wf(),
            old(self)@.cursor.index <= old(self)@.cursor.ahead,
        ensures
            final(self)@.format == old(self)@.format,
            final(self)@.tokens == old(self)@.tokens,
            ({
                let (end, whole) = general(old(self)@.cursor, 0);
                r@ == token_of(
                    end,
                    if whole {
                        TokenType::General
                    } else {
                        TokenType::Unknown
                    },
                ) && final(self)@.cursor == end.after_token()
            }),
    {
        proof {
            reveal_with_fuel(general, 7);
        }
        if !self.try_match('e') {
            return self.token(TokenType::Unknown);
        }
        if !self.try_match('n') {
            return self.token(TokenType::Unknown);
        }
        if !self.try_match('e') {
            return self.token(TokenType::Unknown);
        }
        if !self.try_match('r') {
            return self.token(TokenType::Unknown);
        }
        if !self.try_match('a') {
            return self.token(TokenType::Unknown);
        }
        if !self.try_match('l') {
            return self.token(TokenType::Unknown);
        }
        self.token(TokenType::General)
    }

    fn time(&mut self) -> (r: Token)
        requires
            old(self)@.cursor.wf(),
            old(self)@.cursor.index <= old(self)@.cursor.ahead,
        ensures
            final(self)@.format == old(self)@.format,
            final(self)@.tokens == old(self)@.tokens,
            ({
                let (end, whole) = meridiem(old(self)@.cursor);
                r@ == token_of(
                    end,
                    if whole {
                        TokenType::Meridiem
                    } else {
                        TokenType::Unknown
                    },
                ) && final(self)@.cursor == end.after_token()
            }),
    {
        let c = self.peek();
        if c == '/' {
            self.advance();
            let peek = self.peek();
            if peek == 'p' || peek == 'P' {
                self.advance();
                self.token(TokenType::Meridiem)
            } else {
                self.token(TokenType::Unknown)
            }
        } else if c == 'm' || c == 'M' {
            self.advance();
            if !self.try_match('/') {
                return self.token(TokenType::Unknown);
            }
            if self.peek() == 'P' || self.peek() == 'p' {
                self.advance();
            } else {
                return self.token(TokenType::Unknown);
            }
            if self.peek() == 'm' || self.peek() == 'M' {
                self.advance();
            } else {
                return self.token(TokenType::Unknown);
            }
            self.token(TokenType::Meridiem)
        } else {
            self.token(TokenType::Unknown)
        }
    }
}

/// How a number is written.
#[derive(Debug)]
pub struct Formatter {
    /// To how many digits the whole part is filled up with zeros.
    pub number_of_required_digits: Option<usize>,
    /// Texts that are put between the digits of the whole part, each with
    /// the place before which it goes; a place counts the digits to its left.
    pub extra_chars: Vec<(usize, String)>,
    /// Whether a comma parts every three digits of the whole part.
    pub show_commas: bool,
    /// How many characters of the decimal part are kept, its point among
    /// them.
    pub number_of_decimals: Option<usize>,
}

/// What a `Formatter` holds, with text as its characters.
pub struct FormatterModel {
    pub number_of_required_digits: Option<usize>,
    pub extra_chars: Seq<(usize, Seq<char>)>,
    pub show_commas: bool,
    pub number_of_decimals: Option<usize>,
}

impl View for Formatter {
    type V = FormatterModel;

    open spec fn view(&self) -> FormatterModel {
        FormatterModel {
            number_of_required_digits: self.number_of_required_digits,
            extra_chars: Seq::new(
                self.extra_chars@.len(),
                |i: int| (self.extra_chars@[i].0, self.extra_chars@[i].1@),
            ),
            show_commas: self.show_commas,
            number_of_decimals: self.number_of_decimals,
        }
    }
}

/// What is known of a format while its tokens are read: the formatter so
/// far, and whether the decimal point has gone by.
pub struct FormatScan {
    pub formatter: FormatterModel,
    pub seen_period: bool,
}

/// One more than the count `n`, where a missing count is none.
pub open spec fn one_more(n: Option<usize>) -> Option<usize> {
    match n {
        Some(n) => Some((n + 1) as usize),
        None => Some(1usize),
    }
}

/// What is known of a format after the token of kind `kind`: a zero counts
/// as a decimal before the point and as a required digit after it, a comma
/// asks for commas once a required digit is known, and the point is
/// remembered.
pub open spec fn scan_token(scan: FormatScan, kind: TokenType) -> FormatScan {
    match kind {
        TokenType::Zero => if scan.seen_period {
            FormatScan {
                formatter: FormatterModel {
                    number_of_required_digits: one_more(scan.formatter.number_of_required_digits),
                    ..scan.formatter
                },
                ..scan
            }
        } else {
            FormatScan {
                formatter: FormatterModel {
                    number_of_decimals: one_more(scan.formatter.number_of_decimals),
                    ..scan.formatter
                },
                ..scan
            }
        },
        TokenType::Comma => if scan.formatter.number_of_required_digits is Some {
            FormatScan { formatter: FormatterModel { show_commas: true, ..scan.formatter }, ..scan }
        } else {
            scan
        },
        TokenType::Period => FormatScan { seen_period: true, ..scan },
        _ => scan,
    }
}

/// What is known of a format after the tokens `tokens`.
pub open spec fn scan_tokens(tokens: Seq<TokenModel>) -> FormatScan
    decreases tokens.len(),
{
    if tokens.len() == 0 {
        FormatScan {
            formatter: FormatterModel {
                number_of_required_digits: None,
                extra_chars: Seq::empty(),
                show_commas: false,
                number_of_decimals: None,
            },
            seen_period: false,
        }
    } else {
        scan_token(scan_tokens(tokens.drop_last()), tokens.last().token_type)
    }
}

/// The formatter that the format code `format` asks for.
pub fn parse_format(format: &str) -> (r: Formatter)
    requires
        format@.len() < usize::MAX,
    ensures
        r@ == scan_tokens(format_tokens(format@)).formatter,
{
    let scanner = Lexer::new(format);
    let tokens = scanner.into_tokens();
    let mut number_formatter = Formatter {
        number_of_required_digits: None,
        extra_chars: Vec::new(),
        show_commas: false,
        number_of_decimals: None,
    };
    let mut seen_period = false;
    let ghost all = token_models(tokens@);
    let mut i: usize = 0;
    assert(number_formatter@.extra_chars =~= Seq::empty());
    assert(all.subrange(0, 0) =~= Seq::<TokenModel>::empty());
    while i < tokens.len()
        invariant
            i <= tokens.len(),
            all == token_models(tokens@),
            scan_tokens(all.subrange(0, i as int)) == (FormatScan {
                formatter: number_formatter@,
                seen_period,
            }),
            number_formatter.extra_chars@.len() == 0,
            number_formatter.number_of_required_digits matches Some(n) ==> n <= i,
            number_formatter.number_of_decimals matches Some(n) ==> n <= i,
        decreases tokens.len() - i,
    {
        proof {
            let here = all.subrange(0, i + 1);
            assert(here.drop_last() =~= all.subrange(0, i as int));
            assert(here.last() == tokens@[i as int]@);
        }
        match tokens[i].token_type() {
            TokenType::Zero => {
                if seen_period {
                    let n = match number_formatter.number_of_required_digits {
                        Some(n) => n,
                        None => 0,
                    };
                    number_formatter.number_of_required_digits = Some(n + 1);
                } else {
                    let n = match number_formatter.number_of_decimals {
                        Some(n) => n,
                        None => 0,
                    };
                    number_formatter.number_of_decimals = Some(n + 1);
                }
            },
            TokenType::Comma => {
                if number_formatter.number_of_required_digits.is_some() {
                    number_formatter.show_commas = true;
                }
            },
            TokenType::Period => {
                seen_period = true;
            },
            _ => {},
        }
        assert(number_formatter@.extra_chars =~= Seq::empty());
        i += 1;
    }
    assert(all.subrange(0, all.len() as int) =~= all);
    number_formatter
}

/// How many bytes the character `c` takes in UTF-8.
pub open spec fn utf8_width(c: char) -> nat {
    if (c as u32) < 0x80 {
        1
    } else if (c as u32) < 0x800 {
        2
    } else if (c as u32) < 0x10000 {
        3
    } else {
        4
    }
}

/// How many bytes the characters `s` take in UTF-8.
pub open spec fn utf8_len(s: Seq<char>) -> nat
    decreases s.len(),
{
    if s.len() == 0 {
        0
    } else {
        utf8_len(s.drop_last()) + utf8_width(s.last())
    }
}

/// The first `k` characters of `s` take no more bytes than all of them,
/// and a byte each at the least.
pub proof fn lemma_utf8_len_prefix(s: Seq<char>, k: int)
    requires
        0 <= k <= s.len(),
    ensures
        k <= utf8_len(s.subrange(0, k)) <= utf8_len(s),
    decreases s.len() - k,
{
    if k == s.len() {
        assert(s.subrange(0, k) =~= s);
        lemma_utf8_len_least(s);
    } else {
        let next = s.subrange(0, k + 1);
        assert(next.drop_last() =~= s.subrange(0, k));
        lemma_utf8_len_prefix(s, k + 1);
        lemma_utf8_len_least(s.subrange(0, k));
    }
}

/// Every character takes a byte at the least.
pub proof fn lemma_utf8_len_least(s: Seq<char>)
    ensures
        s.len() <= utf8_len(s),
    decreases s.len(),
{
    if s.len() > 0 {
        lemma_utf8_len_least(s.drop_last());
    }
}

/// How many characters stand in `s` before its first point; all of them
/// where it has none.
pub open spec fn before_point(s: Seq<char>) -> nat
    decreases s.len(),
{
    if s.len() > 0 && s[0] != '.' {
        1 + before_point(s.drop_first())
    } else {
        0
    }
}

/// The point of `s` stands at `k` where no earlier character is one.
pub proof fn lemma_before_point(s: Seq<char>, k: int)
    requires
        0 <= k <= s.len(),
        forall|j: int| 0 <= j < k ==> #[trigger] s[j] != '.',
        k < s.len() ==> s[k] == '.',
    ensures
        before_point(s) == k,
    decreases k,
{
    if k > 0 {
        let t = s.drop_first();
        assert forall|j: int| 0 <= j < k - 1 implies #[trigger] t[j] != '.' by {
            assert(t[j] == s[j + 1]);
        }
        if k - 1 < t.len() {
            assert(t[k - 1] == s[k]);
        }
        lemma_before_point(t, k - 1);
    }
}

/// The whole part of the number `num`: what stands before its point.
pub open spec fn whole_part(num: Seq<char>) -> Seq<char> {
    num.subrange(0, before_point(num) as int)
}

/// The decimal part of the number `num`: its point and what follows it.
pub open spec fn decimal_part(num: Seq<char>) -> Seq<char> {
    num.subrange(before_point(num) as int, num.len() as int)
}

/// The digit at the place `i` of the whole part `whole`, counted from the
/// right and from 0: a zero where the whole part has no such place.
pub open spec fn digit_at(whole: Seq<char>, i: int) -> char {
    if i < whole.len() {
        whole[whole.len() - 1 - i]
    } else {
        '0'
    }
}

/// The whole part after its first `i` places are written, from the right to
/// the left and each text as it stands, and how many of the extra texts are
/// left. Before a place goes the last extra text that is left, if it is
/// meant for that place; then a comma, where commas are asked for and the
/// place is a third one; then the digit.
pub open spec fn places(whole: Seq<char>, f: FormatterModel, min_digits: nat, i: nat) -> (
    Seq<char>,
    nat,
)
    decreases i,
{
    if i == 0 {
        (Seq::empty(), f.extra_chars.len())
    } else {
        let (out, left) = places(whole, f, min_digits, (i - 1) as nat);
        let place = i - 1;
        let take = left > 0 && f.extra_chars[left - 1].0 == min_digits - place;
        let out = if take {
            out + f.extra_chars[left - 1].1
        } else {
            out
        };
        let out = if f.show_commas && place != 0 && place % 3 == 0 {
            out.push(',')
        } else {
            out
        };
        (
            out.push(digit_at(whole, place)),
            if take {
                (left - 1) as nat
            } else {
                left
            },
        )
    }
}

/// The number `num` as the formatter `f` writes it. The whole part is
/// filled up with zeros to the required digits and written from the right,
/// with the extra texts and the commas between its digits; the last extra
/// text that is left goes in front; and the decimal part follows, cut to
/// the decimals that are asked for.
pub open spec fn format_number_spec(num: Seq<char>, f: FormatterModel) -> Seq<char> {
    let whole = whole_part(num);
    let decimal = decimal_part(num);
    let min_digits: nat = match f.number_of_required_digits {
        Some(n) => n as nat,
        None => 0,
    };
    let count = (whole.len() + min_digits - utf8_len(whole)) as nat;
    let (out, left) = places(whole, f, min_digits, count);
    let out = if left > 0 {
        out + f.extra_chars[left - 1].1
    } else {
        out
    };
    out.reverse() + match f.number_of_decimals {
        Some(n) => if n < decimal.len() {
            decimal.subrange(0, n as int)
        } else {
            decimal
        },
        None => decimal,
    }
}

/// Whether the formatter `f` can write the number `num`: the whole part of
/// the number takes no more bytes than the formatter requires digits.
pub open spec fn can_format(num: Seq<char>, f: FormatterModel) -> bool {
    utf8_len(whole_part(num)) <= match f.number_of_required_digits {
        Some(n) => n as nat,
        None => 0,
    }
}

/// Appends the characters of `text` to `out`.
fn push_text(out: &mut Vec<char>, text: &str)
    ensures
        final(out)@ == old(out)@ + text@,
{
    assert(out@ =~= old(out)@ + text@.subrange(0, 0));
    for c in it: text.chars()
        invariant
            it.seq() == text@,
            out@ == old(out)@ + text@.subrange(0, it.index() as int),
    {
        out.push(c);
        assert(out@ =~= old(out)@ + text@.subrange(0, it.index() + 1));
    }
    assert(text@.subrange(0, text@.len() as int) =~= text@);
}

/// Writes the number `num` as `formatter` says.
pub fn format_number(num: &str, formatter: Formatter) -> (r: String)
    requires
        can_format(num@, formatter@),
    ensures
        r@ == format_number_spec(num@, formatter@),
{
    let chars = chars_of(num);
    let ghost f = formatter@;
    let extra_chars = formatter.extra_chars;
    let mut extra_chars_idx = extra_chars.len();
    // Where the whole part ends, and how many bytes it takes.
    let mut point: usize = 0;
    while point < chars.len() && chars[point] != '.'
        invariant
            point <= chars.len(),
            forall|j: int| 0 <= j < point ==> #[trigger] chars@[j] != '.',
        decreases chars.len() - point,
    {
        point += 1;
    }
    proof {
        lemma_before_point(chars@, point as int);
    }
    let min_digits: usize = match formatter.number_of_required_digits {
        Some(n) => n,
        None => 0,
    };
    let mut bytes: usize = 0;
    let mut b: usize = 0;
    assert(whole_part(chars@).subrange(0, 0) =~= Seq::<char>::empty());
    while b < point
        invariant
            b <= point <= chars.len(),
            whole_part(chars@) == chars@.subrange(0, point as int),
            bytes == utf8_len(whole_part(chars@).subrange(0, b as int)),
            utf8_len(whole_part(chars@)) <= min_digits,
        decreases point - b,
    {
        let n = chars[b] as u32;
        proof {
            let here = whole_part(chars@).subrange(0, b + 1);
            assert(here.drop_last() =~= whole_part(chars@).subrange(0, b as int));
            assert(here.last() == chars@[b as int]);
            lemma_utf8_len_prefix(whole_part(chars@), b + 1);
        }
        let width: usize = if n < 0x80 {
            1
        } else if n < 0x800 {
            2
        } else if n < 0x10000 {
            3
        } else {
            4
        };
        bytes = bytes + width;
        b += 1;
    }
    proof {
        assert(whole_part(chars@).subrange(0, point as int) =~= whole_part(chars@));
        lemma_utf8_len_prefix(whole_part(chars@), point as int);
    }
    let ghost whole = whole_part(chars@);
    let n_times: usize = min_digits - bytes;
    let count: usize = point + n_times;
    let mut formatted: Vec<char> = Vec::new();
    let mut i: usize = 0;
    let mut digits_left: usize = min_digits;
    while i < count
        invariant
            i <= count,
            count == point + n_times,
            point <= chars.len(),
            whole == chars@.subrange(0, point as int),
            digits_left == min_digits - i,
            bytes + n_times == min_digits,
            point <= bytes,
            extra_chars_idx <= extra_chars.len(),
            f.extra_chars.len() == extra_chars.len(),
            forall|k: int|
                0 <= k < extra_chars.len() ==> #[trigger] f.extra_chars[k] == (
                    extra_chars@[k].0,
                    extra_chars@[k].1@,
                ),
            f.show_commas == formatter.show_commas,
            places(whole, f, min_digits as nat, i as nat) == (formatted@, extra_chars_idx as nat),
        decreases count - i,
    {
        if extra_chars_idx > 0 {
            if extra_chars[extra_chars_idx - 1].0 == digits_left {
                extra_chars_idx -= 1;
                push_text(&mut formatted, extra_chars[extra_chars_idx].1.as_str());
            }
        }
        if formatter.show_commas && i != 0 && i % 3 == 0 {
            formatted.push(',');
        }
        let c = if i < point {
            chars[point - 1 - i]
        } else {
            '0'
        };
        assert(c == digit_at(whole, i as int));
        formatted.push(c);
        digits_left -= 1;
        i += 1;
    }
    if extra_chars_idx > 0 {
        push_text(&mut formatted, extra_chars[extra_chars_idx - 1].1.as_str());
    }
    let ghost written = formatted@;
    let mut out: Vec<char> = Vec::new();
    let mut k: usize = formatted.len();
    while k > 0
        invariant
            k <= formatted.len(),
            out@ == formatted@.reverse().subrange(0, formatted.len() - k),
        decreases k,
    {
        k -= 1;
        out.push(formatted[k]);
        assert(out@ =~= formatted@.reverse().subrange(0, formatted.len() - k));
    }
    assert(out@ =~= written.reverse());
    let keep: usize = match formatter.number_of_decimals {
        Some(n) => if n < chars.len() - point {
            n
        } else {
            chars.len() - point
        },
        None => chars.len() - point,
    };
    let mut d: usize = 0;
    while d < keep
        invariant
            d <= keep,
            point + keep <= chars.len(),
            out@ == written.reverse() + chars@.subrange(point as int, point + d),
        decreases keep - d,
    {
        out.push(chars[point + d]);
        assert(out@ =~= written.reverse() + chars@.subrange(point as int, point + d + 1));
        d += 1;
    }
    proof {
        let decimal = decimal_part(chars@);
        assert(chars@.subrange(point as int, point + keep) =~= decimal.subrange(0, keep as int));
        assert(decimal.subrange(0, decimal.len() as int) =~= decimal);
    }
    string_of_slice(out.as_slice())
}

} // verus!
