pub mod laws;
pub mod token;

use vstd::prelude::*;
use crate::error::{Error, ErrorView};
use crate::lexer::token::{Token, TokenView};
use crate::range::{Range, Ranged};
use crate::text::{char_is_numeric, char_is_whitespace, chars_of, text_of};

verus! {

/// Whether `c` separates lexemes as blank space does. The `,` character is
/// considered whitespace, in the Lisp tradition.
pub open spec fn whitespace(c: char) -> bool {
    char_is_whitespace(c) || c == ','
}

/// Whether `c` opens or closes a list, an array or a dict.
pub open spec fn delimiter(c: char) -> bool {
    c == '(' || c == ')' || c == '[' || c == ']' || c == '{' || c == '}'
}

/// Whether `c` ends a line.
pub open spec fn eol(c: char) -> bool {
    c == '\n'
}

/// Whether a symbol or a number ends before `c`.
pub open spec fn ends_lexeme(c: char) -> bool {
    whitespace(c) || delimiter(c) || eol(c)
}

/// The range from position `start` up to position `end`.
pub open spec fn range_of(start: int, end: int) -> Range {
    Range { start: start as usize, end: end as usize }
}

/// The first position at or after `pos` that ends a lexeme: the position of
/// a whitespace, delimiter or end-of-line character, or the end of `s`.
pub open spec fn lexeme_end(s: Seq<char>, pos: int) -> int
    decreases s.len() - pos,
{
    if pos < 0 || pos >= s.len() || ends_lexeme(s[pos]) {
        pos
    } else {
        lexeme_end(s, pos + 1)
    }
}

/// The first position at or after `pos` that holds an end-of-line
/// character, or the end of `s`.
pub open spec fn line_end(s: Seq<char>, pos: int) -> int
    decreases s.len() - pos,
{
    if pos < 0 || pos >= s.len() || eol(s[pos]) {
        pos
    } else {
        line_end(s, pos + 1)
    }
}

/// The first position at or after `pos` that holds a `"`, or the end of
/// `s`.
pub open spec fn quote_end(s: Seq<char>, pos: int) -> int
    decreases s.len() - pos,
{
    if pos < 0 || pos >= s.len() || s[pos] == '"' {
        pos
    } else {
        quote_end(s, pos + 1)
    }
}

/// Where an annotation body that is read from `pos` ends, and how many
/// parentheses are still open there. The body runs up to the first
/// whitespace or end-of-line character outside parentheses, or to the end
/// of `s`; `nesting` is the number of parentheses open at `pos`.
pub open spec fn annotation_end(s: Seq<char>, pos: int, nesting: int) -> (int, int)
    decreases s.len() - pos,
{
    if pos < 0 || pos >= s.len() {
        (pos, nesting)
    } else if s[pos] == '(' {
        annotation_end(s, pos + 1, nesting + 1)
    } else if s[pos] == ')' {
        annotation_end(s, pos + 1, nesting - 1)
    } else if nesting == 0 && (whitespace(s[pos]) || eol(s[pos])) {
        (pos, 0)
    } else {
        annotation_end(s, pos + 1, nesting)
    }
}

/// `s` without its `_` characters, which separate groups of digits.
pub open spec fn without_separators(s: Seq<char>) -> Seq<char>
    decreases s.len(),
{
    if s.len() == 0 {
        s
    } else if s.last() == '_' {
        without_separators(s.drop_last())
    } else {
        without_separators(s.drop_last()).push(s.last())
    }
}

/// What stands at one position of the source text.
pub ghost enum Lexed {
    /// A token with its range, and the position after it.
    Token(TokenView, Range, int),
    /// Whitespace, and the position after it.
    Skip(int),
    /// A lexical error with its range.
    Fail(ErrorView, Range),
}

/// What stands at position `pos` of `s`, where `0 <= pos < s.len()`.
pub open spec fn lex_at(s: Seq<char>, pos: int) -> Lexed {
    let c = s[pos];
    if c == '(' {
        Lexed::Token(TokenView::LeftParen, range_of(pos, pos + 1), pos + 1)
    } else if c == ')' {
        Lexed::Token(TokenView::RightParen, range_of(pos, pos + 1), pos + 1)
    } else if c == '[' {
        Lexed::Token(TokenView::LeftBracket, range_of(pos, pos + 1), pos + 1)
    } else if c == ']' {
        Lexed::Token(TokenView::RightBracket, range_of(pos, pos + 1), pos + 1)
    } else if c == '{' {
        Lexed::Token(TokenView::LeftBrace, range_of(pos, pos + 1), pos + 1)
    } else if c == '}' {
        Lexed::Token(TokenView::RightBrace, range_of(pos, pos + 1), pos + 1)
    } else if c == ';' {
        let end = line_end(s, pos + 1);
        let next = if end < s.len() {
            end + 1
        } else {
            end
        };
        Lexed::Token(TokenView::Comment(s.subrange(pos, end)), range_of(pos, next), next)
    } else if c == '\'' {
        Lexed::Token(TokenView::Quote, range_of(pos, pos + 1), pos + 1)
    } else if c == '"' {
        let end = quote_end(s, pos + 1);
        if end < s.len() {
            Lexed::Token(
                TokenView::String(s.subrange(pos + 1, end)),
                range_of(pos, end + 1),
                end + 1,
            )
        } else {
            Lexed::Fail(ErrorView::UnterminatedString, range_of(pos, end))
        }
    } else if c == '-' {
        if pos + 1 >= s.len() {
            Lexed::Fail(ErrorView::UnexpectedEol, range_of(pos, pos))
        } else {
            let end = lexeme_end(s, pos + 1);
            if char_is_numeric(s[pos + 1]) {
                Lexed::Token(
                    TokenView::Number(without_separators(s.subrange(pos, end))),
                    range_of(pos, end),
                    end,
                )
            } else {
                Lexed::Token(TokenView::Symbol(s.subrange(pos, end)), range_of(pos, end), end)
            }
        }
    } else if c == '#' {
        let (end, nesting) = annotation_end(s, pos + 1, 0);
        if nesting == 0 {
            Lexed::Token(TokenView::Annotation(s.subrange(pos + 1, end)), range_of(pos, end), end)
        } else {
            Lexed::Fail(ErrorView::UnterminatedAnnotation, range_of(pos, end))
        }
    } else if whitespace(c) || eol(c) {
        Lexed::Skip(pos + 1)
    } else if char_is_numeric(c) {
        let end = lexeme_end(s, pos + 1);
        Lexed::Token(
            TokenView::Number(without_separators(s.subrange(pos, end))),
            range_of(pos, end),
            end,
        )
    } else {
        let end = lexeme_end(s, pos + 1);
        Lexed::Token(TokenView::Symbol(s.subrange(pos, end)), range_of(pos, end), end)
    }
}

/// The tokens of `s` from position `pos` on, each with its range, or the
/// first lexical error.
pub open spec fn lex_from(s: Seq<char>, pos: int) -> Result<
    Seq<(TokenView, Range)>,
    (ErrorView, Range),
>
    decreases s.len() - pos,
{
    if pos < 0 || pos >= s.len() {
        Ok(Seq::empty())
    } else {
        proof {
            lemma_lex_at_advances(s, pos);
        }
        match lex_at(s, pos) {
            Lexed::Token(t, r, next) => match lex_from(s, next) {
                Ok(rest) => Ok(seq![(t, r)] + rest),
                Err(e) => Err(e),
            },
            Lexed::Skip(next) => lex_from(s, next),
            Lexed::Fail(e, r) => Err((e, r)),
        }
    }
}

/// The tokens and ranges of the whole of `s`, or the first lexical error.
pub open spec fn lex_spec(s: Seq<char>) -> Result<Seq<(TokenView, Range)>, (ErrorView, Range)> {
    lex_from(s, 0)
}

/// Each of the scans ends between where it starts and the end of the text.
pub proof fn lemma_scan_bounds(s: Seq<char>, pos: int)
    requires
        0 <= pos <= s.len(),
    ensures
        pos <= lexeme_end(s, pos) <= s.len(),
        pos <= line_end(s, pos) <= s.len(),
        pos <= quote_end(s, pos) <= s.len(),
        forall|n: int| pos <= (#[trigger] annotation_end(s, pos, n)).0 <= s.len(),
    decreases s.len() - pos,
{
    if pos < s.len() {
        lemma_scan_bounds(s, pos + 1);
    }
    assert forall|n: int| pos <= (#[trigger] annotation_end(s, pos, n)).0 <= s.len() by {
        if pos < s.len() {
            assert(pos + 1 <= annotation_end(s, pos + 1, n + 1).0 <= s.len());
            assert(pos + 1 <= annotation_end(s, pos + 1, n - 1).0 <= s.len());
            assert(pos + 1 <= annotation_end(s, pos + 1, n).0 <= s.len());
        }
    }
}

/// An annotation body whose parentheses are not balanced runs to the end of
/// the text.
pub proof fn lemma_unbalanced_annotation(s: Seq<char>, pos: int, nesting: int)
    requires
        0 <= pos <= s.len(),
    ensures
        annotation_end(s, pos, nesting).1 != 0 ==> annotation_end(s, pos, nesting).0 == s.len(),
    decreases s.len() - pos,
{
    if pos < s.len() {
        lemma_unbalanced_annotation(s, pos + 1, nesting + 1);
        lemma_unbalanced_annotation(s, pos + 1, nesting - 1);
        lemma_unbalanced_annotation(s, pos + 1, nesting);
    }
}

/// What stands at a position ends after that position and within the text;
/// only the error for a lone `-` at the end of the text has an empty range.
pub proof fn lemma_lex_at_advances(s: Seq<char>, pos: int)
    requires
        0 <= pos < s.len(),
    ensures
        match lex_at(s, pos) {
            Lexed::Token(_, r, next) => pos < next <= s.len() && r == range_of(pos, next),
            Lexed::Skip(next) => next == pos + 1,
            Lexed::Fail(_, r) => r.start == pos as usize,
        },
{
    lemma_scan_bounds(s, pos + 1);
}

/// The values of a sequence of tokens with their ranges, one by one.
pub open spec fn tokens_view(tokens: Seq<Ranged<Token>>) -> Seq<(TokenView, Range)> {
    tokens.map_values(|t: Ranged<Token>| t@)
}

/// `rest` with the tokens `done` in front of it.
pub open spec fn lex_onto(
    done: Seq<(TokenView, Range)>,
    rest: Result<Seq<(TokenView, Range)>, (ErrorView, Range)>,
) -> Result<Seq<(TokenView, Range)>, (ErrorView, Range)> {
    match rest {
        Ok(tokens) => Ok(done + tokens),
        Err(e) => Err(e),
    }
}

/// Returns true if `ch` is considered whitespace.
/// The `,` character is considered whitespace, in the Lisp tradition.
pub fn is_whitespace(ch: char) -> (b: bool)
    ensures
        b == whitespace(ch),
{
    ch.is_whitespace() || ch == ','
}

/// Returns true if `ch` opens or closes a list, an array or a dict.
pub fn is_delimiter(ch: char) -> (b: bool)
    ensures
        b == delimiter(ch),
{
    ch == '(' || ch == ')' || ch == '[' || ch == ']' || ch == '{' || ch == '}'
}

/// Returns true if `ch` ends a line.
pub fn is_eol(ch: char) -> (b: bool)
    ensures
        b == eol(ch),
{
    ch == '\n'
}

/// The Lexer performs the lexical analysis stage of the compilation
/// pipeline. The input text is scanned into lexemes and then evaluated into
/// lexical tokens. The tokens are associated with ranges (ranges within the
/// input text).
pub struct Lexer {
    chars: Vec<char>,
    index: usize,
}

impl Lexer {
    /// The whole text that the lexer was made with.
    pub closed spec fn source(&self) -> Seq<char> {
        self.chars@
    }

    /// The position of the next character to read.
    pub closed spec fn position(&self) -> int {
        self.index as int
    }

    #[verifier::type_invariant]
    spec fn valid(&self) -> bool {
        self.index <= self.chars.len()
    }

    /// Makes a new Lexer with the given input text.
    pub fn new(input: &str) -> (lexer: Lexer)
        ensures
            lexer.source() == input@,
            lexer.position() == 0,
    {
        Lexer { chars: chars_of(input), index: 0 }
    }

    /// The next character, if any; the lexer moves past it.
    fn next_char(&mut self) -> (c: Option<char>)
        ensures
            final(self).source() == old(self).source(),
            match c {
                Some(ch) => {
                    &&& old(self).position() < old(self).source().len()
                    &&& ch == old(self).source()[old(self).position()]
                    &&& final(self).position() == old(self).position() + 1
                },
                None => {
                    &&& old(self).position() >= old(self).source().len()
                    &&& final(self).position() == old(self).position()
                },
            },
    {
        proof {
            use_type_invariant(&*self);
        }
        if self.index < self.chars.len() {
            let ch = self.chars[self.index];
            self.index += 1;
            Some(ch)
        } else {
            None
        }
    }

    /// Whether the lexer stands at the end of a lexeme: at the end of the
    /// text, or before a character that a symbol or a number cannot hold.
    fn at_lexeme_end(&self) -> (b: bool)
        ensures
            b == (self.position() >= self.source().len() || ends_lexeme(
                self.source()[self.position()],
            )),
    {
        proof {
            use_type_invariant(self);
        }
        if self.index >= self.chars.len() {
            true
        } else {
            let ch = self.chars[self.index];
            is_whitespace(ch) || is_delimiter(ch) || is_eol(ch)
        }
    }

    /// Moves the lexer to the end of the lexeme it stands in.
    fn skip_lexeme(&mut self)
        ensures
            final(self).source() == old(self).source(),
            final(self).position() == lexeme_end(old(self).source(), old(self).position()),
            old(self).position() <= final(self).position() <= old(self).source().len(),
    {
        proof {
            use_type_invariant(&*self);
        }
        let ghost start = self.index as int;
        while !self.at_lexeme_end()
            invariant
                self.chars@ == old(self).chars@,
                start <= self.index <= self.chars.len(),
                lexeme_end(self.chars@, start) == lexeme_end(self.chars@, self.index as int),
            decreases self.chars.len() - self.index,
        {
            self.index += 1;
        }
    }

    /// Scans a symbol that starts at `start` and runs past the current
    /// position to the end of the lexeme.
    fn scan_lexeme(&mut self, start: usize) -> (text: String)
        requires
            start <= old(self).position(),
        ensures
            final(self).source() == old(self).source(),
            final(self).position() == lexeme_end(old(self).source(), old(self).position()),
            old(self).position() <= final(self).position() <= old(self).source().len(),
            text@ == old(self).source().subrange(start as int, final(self).position()),
    {
        self.skip_lexeme();
        proof {
            use_type_invariant(&*self);
        }
        text_of(&self.chars, start, self.index)
    }

    /// Scans a number that starts at `start` and runs past the current
    /// position to the end of the lexeme. The `_` characters, which
    /// separate groups of digits, are left out of the text.
    fn scan_number(&mut self, start: usize) -> (text: String)
        requires
            start <= old(self).position(),
        ensures
            final(self).source() == old(self).source(),
            final(self).position() == lexeme_end(old(self).source(), old(self).position()),
            old(self).position() <= final(self).position() <= old(self).source().len(),
            text@ == without_separators(
                old(self).source().subrange(start as int, final(self).position()),
            ),
    {
        self.skip_lexeme();
        proof {
            use_type_invariant(&*self);
        }
        let mut text = String::new();
        let mut i: usize = start;
        while i < self.index
            invariant
                start <= i <= self.index <= self.chars.len(),
                text@ == without_separators(self.chars@.subrange(start as int, i as int)),
            decreases self.index - i,
        {
            let ch = self.chars[i];
            if ch != '_' {
                text.push(ch);
            }
            i += 1;
            assert(self.chars@.subrange(start as int, i as int).drop_last()
                =~= self.chars@.subrange(start as int, i - 1));
        }
        text
    }

    /// Scans a comment that starts with the `;` at `start`, the character
    /// before the current position. The comment runs to the end of the
    /// line, which is read too but is not part of the text; it cannot fail.
    fn scan_comment(&mut self, start: usize) -> (text: String)
        requires
            start + 1 == old(self).position(),
        ensures
            final(self).source() == old(self).source(),
            text@ == old(self).source().subrange(
                start as int,
                line_end(old(self).source(), old(self).position()),
            ),
            final(self).position() == ({
                let end = line_end(old(self).source(), old(self).position());
                if end < old(self).source().len() {
                    end + 1
                } else {
                    end
                }
            }),
            old(self).position() <= final(self).position() <= old(self).source().len(),
    {
        proof {
            use_type_invariant(&*self);
        }
        let ghost from = self.index as int;
        while self.index < self.chars.len() && !is_eol(self.chars[self.index])
            invariant
                self.chars@ == old(self).chars@,
                from <= self.index <= self.chars.len(),
                line_end(self.chars@, from) == line_end(self.chars@, self.index as int),
            decreases self.chars.len() - self.index,
        {
            self.index += 1;
        }
        let text = text_of(&self.chars, start, self.index);
        if self.index < self.chars.len() {
            self.index += 1;
        }
        text
    }

    /// Scans a string literal whose opening `"` has just been read.
    fn scan_string(&mut self) -> (r: Result<String, Error>)
        ensures
            final(self).source() == old(self).source(),
            old(self).position() <= final(self).position() <= old(self).source().len(),
            ({
                let end = quote_end(old(self).source(), old(self).position());
                match r {
                    Ok(text) => end < old(self).source().len() && final(self).position() == end
                        + 1 && text@ == old(self).source().subrange(old(self).position(), end),
                    Err(e) => end >= old(self).source().len() && final(self).position() == end
                        && e@ == ErrorView::UnterminatedString,
                }
            }),
    {
        proof {
            use_type_invariant(&*self);
        }
        let from = self.index;
        while self.index < self.chars.len() && self.chars[self.index] != '"'
            invariant
                self.chars@ == old(self).chars@,
                from <= self.index <= self.chars.len(),
                quote_end(self.chars@, from as int) == quote_end(
                    self.chars@,
                    self.index as int,
                ),
            decreases self.chars.len() - self.index,
        {
            self.index += 1;
        }
        if self.index >= self.chars.len() {
            return Err(Error::UnterminatedString);
        }
        let text = text_of(&self.chars, from, self.index);
        self.index += 1;
        Ok(text)
    }

    /// Scans an annotation whose `#`, at `start`, has just been read.
    fn lex_annotation(&mut self, start: usize) -> (r: Result<Ranged<Token>, Ranged<Error>>)
        requires
            start + 1 == old(self).position(),
        ensures
            final(self).source() == old(self).source(),
            old(self).position() <= final(self).position() <= old(self).source().len(),
            ({
                let (end, nesting) = annotation_end(old(self).source(), old(self).position(), 0);
                &&& final(self).position() == end
                &&& match r {
                    Ok(t) => nesting == 0 && t@ == (
                        TokenView::Annotation(
                            old(self).source().subrange(old(self).position(), end),
                        ),
                        range_of(start as int, end),
                    ),
                    Err(e) => nesting != 0 && end == old(self).source().len() && e@ == (
                        ErrorView::UnterminatedAnnotation,
                        range_of(start as int, end),
                    ),
                }
            }),
    {
        proof {
            use_type_invariant(&*self);
        }
        let from = self.index;
        let mut nesting: i128 = 0;
        loop
            invariant
                self.chars@ == old(self).chars@,
                from <= self.index <= self.chars.len(),
                from == old(self).index,
                -(self.index - from) <= nesting <= self.index - from,
                annotation_end(self.chars@, from as int, 0) == annotation_end(
                    self.chars@,
                    self.index as int,
                    nesting as int,
                ),
            ensures
                self.chars@ == old(self).chars@,
                from <= self.index <= self.chars.len(),
                annotation_end(self.chars@, from as int, 0) == (
                    self.index as int,
                    nesting as int,
                ),
            decreases self.chars.len() - self.index,
        {
            if self.index >= self.chars.len() {
                break ;
            }
            let ch = self.chars[self.index];
            if ch == '(' {
                nesting += 1;
            } else if ch == ')' {
                nesting -= 1;
            } else if nesting == 0 && (is_whitespace(ch) || is_eol(ch)) {
                break ;
            }
            self.index += 1;
        }
        let range = Range { start, end: self.index };
        if nesting != 0 {
            proof {
                lemma_unbalanced_annotation(self.chars@, from as int, 0);
            }
            return Err(Ranged(Error::UnterminatedAnnotation, range));
        }
        let text = text_of(&self.chars, from, self.index);
        Ok(Ranged(Token::Annotation(text), range))
    }

    /// Scans the text from the current position to its end into tokens,
    /// each with its range. Returns the tokens, or the first lexical error;
    /// the tokens before an error are discarded. Either way the lexer has
    /// then read the whole text.
    pub fn lex(&mut self) -> (r: Result<Vec<Ranged<Token>>, Ranged<Error>>)
        ensures
            final(self).source() == old(self).source(),
            final(self).position() == old(self).source().len(),
            match r {
                Ok(tokens) => lex_from(old(self).source(), old(self).position()) == Ok::<
                    Seq<(TokenView, Range)>,
                    (ErrorView, Range),
                >(tokens_view(tokens@)),
                Err(e) => lex_from(old(self).source(), old(self).position()) == Err::<
                    Seq<(TokenView, Range)>,
                    (ErrorView, Range),
                >(e@),
            },
    {
        proof {
            use_type_invariant(&*self);
        }
        let mut tokens: Vec<Ranged<Token>> = Vec::new();
        let ghost source = self.chars@;
        let ghost origin = self.index as int;
        assert(tokens_view(tokens@) + lex_from(source, origin)->Ok_0 =~= lex_from(
            source,
            origin,
        )->Ok_0);
        loop
            invariant
                self.chars@ == source,
                source == old(self).chars@,
                origin == old(self).index,
                0 <= origin <= self.index <= self.chars.len(),
                lex_from(source, origin) == lex_onto(
                    tokens_view(tokens@),
                    lex_from(source, self.index as int),
                ),
            ensures
                self.chars@ == source,
                self.index == self.chars.len(),
                lex_from(source, origin) == Ok::<Seq<(TokenView, Range)>, (ErrorView, Range)>(
                    tokens_view(tokens@),
                ),
            decreases self.chars.len() - self.index,
        {
            let start = self.index;
            let ghost done = tokens_view(tokens@);
            let Some(ch) = self.next_char() else {
                assert(done + Seq::<(TokenView, Range)>::empty() =~= done);
                break ;
            };
            proof {
                lemma_lex_at_advances(source, start as int);
                lemma_scan_bounds(source, start + 1);
            }
            let token = if ch == '(' {
                Ranged(Token::LeftParen, Range { start, end: self.index })
            } else if ch == ')' {
                Ranged(Token::RightParen, Range { start, end: self.index })
            } else if ch == '[' {
                Ranged(Token::LeftBracket, Range { start, end: self.index })
            } else if ch == ']' {
                Ranged(Token::RightBracket, Range { start, end: self.index })
            } else if ch == '{' {
                Ranged(Token::LeftBrace, Range { start, end: self.index })
            } else if ch == '}' {
                Ranged(Token::RightBrace, Range { start, end: self.index })
            } else if ch == ';' {
                let comment = self.scan_comment(start);
                Ranged(Token::Comment(comment), Range { start, end: self.index })
            } else if ch == '\'' {
                Ranged(Token::Quote, Range { start, end: self.index })
            } else if ch == '"' {
                match self.scan_string() {
                    Ok(string) => Ranged(Token::String(string), Range { start, end: self.index }),
                    Err(error) => {
                        return Err(Ranged(error, Range { start, end: self.index }));
                    },
                }
            } else if ch == '-' {
                let Some(ch1) = self.next_char() else {
                    return Err(Ranged(Error::UnexpectedEol, Range { start, end: start }));
                };
                self.index -= 1;
                if ch1.is_numeric() {
                    let lexeme = self.scan_number(start);
                    Ranged(Token::Number(lexeme), Range { start, end: self.index })
                } else {
                    let lexeme = self.scan_lexeme(start);
                    Ranged(Token::Symbol(lexeme), Range { start, end: self.index })
                }
            } else if ch == '#' {
                match self.lex_annotation(start) {
                    Ok(token) => token,
                    Err(error) => {
                        return Err(error);
                    },
                }
            } else if is_whitespace(ch) || is_eol(ch) {
                continue ;
            } else if ch.is_numeric() {
                let lexeme = self.scan_number(start);
                Ranged(Token::Number(lexeme), Range { start, end: self.index })
            } else {
                let lexeme = self.scan_lexeme(start);
                Ranged(Token::Symbol(lexeme), Range { start, end: self.index })
            };
            proof {
                assert(lex_at(source, start as int) == Lexed::Token(
                    token@.0,
                    token@.1,
                    self.index as int,
                ));
                let rest = lex_from(source, self.index as int);
                assert(tokens_view(tokens@.push(token)) =~= done.push(token@));
                if rest is Ok {
                    assert(done + (seq![token@] + rest->Ok_0) =~= done.push(token@) + rest->Ok_0);
                }
            }
            tokens.push(token);
        }
        Ok(tokens)
    }

    /// Returns the input text that has not been read yet as a String.
    pub fn input(&self) -> (text: String)
        ensures
            text@ == self.source().skip(self.position()),
    {
        proof {
            use_type_invariant(self);
        }
        let text = text_of(&self.chars, self.index, self.chars.len());
        assert(text@ =~= self.source().skip(self.position()));
        text
    }
}

} // verus!
