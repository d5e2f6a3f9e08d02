//! A cursor over text: the part that the lexers of this library share.
//!
//! A cursor takes the characters of a text one by one and gathers them
//! into the token at hand, until the lexer that drives it hands the token
//! out.

use vstd::prelude::*;
use crate::text::{chars_of, string_of};

verus! {

/// `lexeme` without the character `c` at its front and at its end: where
/// `c` does not stand at the end, nothing is taken away, and where it
/// stands there, it is taken away at the front too if it stands there.
pub open spec fn strip_spec(lexeme: Seq<char>, c: char) -> Seq<char> {
    let inner = if lexeme.len() > 0 && lexeme[0] == c {
        lexeme.subrange(1, lexeme.len() as int)
    } else {
        lexeme
    };
    if inner.len() > 0 && inner.last() == c {
        inner.drop_last()
    } else {
        lexeme
    }
}

/// The state of a cursor.
pub struct CursorModel {
    /// The text that is read.
    pub source: Seq<char>,
    /// How many characters of it have been taken.
    pub ahead: nat,
    /// The character that was taken last, if the last step took one.
    pub current: Option<char>,
    /// The place that the next token gets.
    pub index: nat,
    /// The line of the text at which the cursor stands.
    pub line: nat,
    /// The characters of the token at hand.
    pub lexeme: Seq<char>,
    /// Whether a token could not be read.
    pub had_error: bool,
}

impl CursorModel {
    /// The state in which the cursor over `source` starts.
    pub open spec fn start(source: Seq<char>) -> CursorModel {
        CursorModel {
            source,
            ahead: 0,
            current: None,
            index: 1,
            line: 1,
            lexeme: Seq::empty(),
            had_error: false,
        }
    }

    /// What holds of every state that a cursor reaches.
    pub open spec fn wf(self) -> bool {
        &&& self.ahead <= self.source.len() < usize::MAX
        &&& 1 <= self.index <= self.ahead + 1
        &&& 1 <= self.line <= self.ahead + 1
    }

    /// The character that is taken next, if there is one.
    pub open spec fn peek(self) -> Option<char> {
        if self.ahead < self.source.len() {
            Some(self.source[self.ahead as int])
        } else {
            None
        }
    }

    /// The character that is taken next, or the character 0 at the end.
    pub open spec fn peek_char(self) -> char {
        match self.peek() {
            Some(c) => c,
            None => '\0',
        }
    }

    pub open spec fn is_at_end(self) -> bool {
        self.current is None
    }

    /// The state after the next character is taken: it joins the token at
    /// hand. At the end there is none to take.
    pub open spec fn advance(self) -> CursorModel {
        match self.peek() {
            Some(c) => CursorModel {
                ahead: self.ahead + 1,
                current: Some(c),
                lexeme: self.lexeme.push(c),
                ..self
            },
            None => CursorModel { current: None, ..self },
        }
    }

    /// The state after the next character is taken if it is `expected`,
    /// and whether it was.
    pub open spec fn matches_next(self, expected: char) -> bool {
        !self.is_at_end() && self.peek() == Some(expected)
    }

    /// The state after a token has gone out.
    pub open spec fn after_token(self) -> CursorModel {
        CursorModel { index: self.index + 1, lexeme: Seq::empty(), ..self }
    }
}

/// A cursor over one text.
#[derive(Debug)]
pub struct Cursor {
    chars: Vec<char>,
    ahead: usize,
    current: Option<char>,
    index: usize,
    line: usize,
    lexeme: Vec<char>,
    had_error: bool,
}

impl View for Cursor {
    type V = CursorModel;

    closed spec fn view(&self) -> CursorModel {
        CursorModel {
            source: self.chars@,
            ahead: self.ahead as nat,
            current: self.current,
            index: self.index as nat,
            line: self.line as nat,
            lexeme: self.lexeme@,
            had_error: self.had_error,
        }
    }
}

impl Cursor {
    /// A cursor at the start of `text`.
    pub fn new(text: &str) -> (r: Cursor)
        requires
            text@.len() < usize::MAX,
        ensures
            r@ == CursorModel::start(text@),
            r@.wf(),
    {
        Cursor {
            chars: chars_of(text),
            ahead: 0,
            current: None,
            index: 1,
            line: 1,
            lexeme: Vec::new(),
            had_error: false,
        }
    }

    /// Whether a token could not be read.
    pub fn had_error(&self) -> (r: bool)
        ensures
            r == self@.had_error,
    {
        self.had_error
    }

    /// The character that was taken last, if the last step took one.
    pub fn current(&self) -> (r: Option<char>)
        ensures
            r == self@.current,
    {
        self.current
    }

    pub fn is_at_end(&self) -> (r: bool)
        ensures
            r == self@.is_at_end(),
    {
        self.current.is_none()
    }

    /// Takes the next character, if there is one: it joins the token at
    /// hand.
    pub fn advance(&mut self) -> (r: Option<char>)
        requires
            old(self)@.wf(),
        ensures
            final(self)@ == old(self)@.advance(),
            final(self)@.wf(),
            r == old(self)@.peek(),
            r == final(self)@.current,
    {
        if self.ahead < self.chars.len() {
            let c = self.chars[self.ahead];
            self.ahead = self.ahead + 1;
            self.current = Some(c);
            self.lexeme.push(c);
        } else {
            self.current = None;
        }
        self.current
    }

    /// Takes the next character if it is `expected`, and says whether it
    /// was. A cursor whose last step took nothing takes nothing.
    pub fn try_match(&mut self, expected: char) -> (r: bool)
        requires
            old(self)@.wf(),
        ensures
            r == old(self)@.matches_next(expected),
            final(self)@ == if r {
                old(self)@.advance()
            } else {
                old(self)@
            },
            final(self)@.wf(),
    {
        if self.is_at_end() {
            return false;
        }
        if self.ahead >= self.chars.len() || self.chars[self.ahead] != expected {
            return false;
        }
        self.advance();
        true
    }

    /// Remembers that a token could not be read.
    pub fn error_msg(&mut self)
        ensures
            final(self)@ == (CursorModel { had_error: true, ..old(self)@ }),
    {
        self.had_error = true;
    }

    /// Counts a line.
    pub fn count_line(&mut self)
        requires
            old(self)@.line < usize::MAX,
        ensures
            final(self)@ == (CursorModel { line: old(self)@.line + 1, ..old(self)@ }),
    {
        self.line = self.line + 1;
    }

    /// Hands out the token at hand, as its place and its text, and starts
    /// the next one.
    pub fn token(&mut self) -> (r: (usize, String))
        requires
            old(self)@.index < usize::MAX,
        ensures
            r.0 == old(self)@.index,
            r.1@ == old(self)@.lexeme,
            final(self)@ == old(self)@.after_token(),
    {
        let index = self.index;
        let value = string_of(&self.lexeme);
        self.lexeme = Vec::new();
        self.index = self.index + 1;
        (index, value)
    }

    /// The character that is taken next, or the character 0 at the end.
    pub fn peek(&self) -> (r: char)
        ensures
            r == self@.peek_char(),
    {
        if self.ahead < self.chars.len() {
            self.chars[self.ahead]
        } else {
            '\0'
        }
    }

    /// Whether there is a character to take.
    pub fn has_next(&self) -> (r: bool)
        ensures
            r == (self@.ahead < self@.source.len()),
    {
        self.ahead < self.chars.len()
    }

    /// The text of the token at hand.
    pub fn lexeme(&self) -> (r: String)
        ensures
            r@ == self@.lexeme,
    {
        string_of(&self.lexeme)
    }

    /// Takes the character `c` away from the front and from the end of the
    /// token at hand; where it does not stand at the end, nothing is taken
    /// away.
    pub fn strip_lexeme(&mut self, c: char)
        ensures
            final(self)@ == (CursorModel {
                lexeme: strip_spec(old(self)@.lexeme, c),
                ..old(self)@
            }),
    {
        let n = self.lexeme.len();
        let from: usize = if n > 0 && self.lexeme[0] == c {
            1
        } else {
            0
        };
        if n > from && self.lexeme[n - 1] == c {
            let mut inner: Vec<char> = Vec::new();
            let mut i: usize = from;
            while i < n - 1
                invariant
                    from <= i <= n - 1,
                    n == self.lexeme.len(),
                    inner@ == self.lexeme@.subrange(from as int, i as int),
                decreases n - i,
            {
                inner.push(self.lexeme[i]);
                assert(inner@ =~= self.lexeme@.subrange(from as int, i + 1));
                i += 1;
            }
            assert(inner@ =~= strip_spec(self.lexeme@, c));
            self.lexeme = inner;
        } else {
            assert(self.lexeme@ =~= strip_spec(self.lexeme@, c));
        }
    }
}

} // verus!
