use vstd::prelude::*;
use vstd::string::StringExecFns;

use super::token::{Token, TokenKind};
use crate::shared::span::{Location, Span};
use crate::text::{
    is_alphabetic, is_numeric, is_whitespace, push_char, str_eq, unicode_alphabetic,
    unicode_numeric, unicode_whitespace,
};

verus! {

/// What a lexing error reports, as plain values.
pub struct LexFailure {
    pub reason: Seq<char>,
    pub span: Span,
}

/// Represents an error that occurred during lexing.
#[derive(Debug)]
pub struct LexError {
    /// The cause of this error.
    pub reason: String,
    /// The (optional) span of this error.
    pub span: Option<Span>,
}

impl LexError {
    /// Whether this error reports `failure`.
    pub open spec fn describes(&self, failure: LexFailure) -> bool {
        &&& self.reason@ == failure.reason
        &&& self.span == Some(failure.span)
    }
}

/// Represents the result of lexing.
pub type LexResult<T> = Result<T, LexError>;

/// A place in the source: the index of a character with its line and column.
pub struct Cursor {
    pub index: nat,
    pub line: nat,
    pub column: nat,
}

impl Cursor {
    /// Where lexing starts.
    pub open spec fn start() -> Cursor {
        Cursor { index: 0, line: 1, column: 1 }
    }

    /// The line and column of the cursor.
    pub open spec fn location(self) -> Location {
        Location { line: self.line as usize, column: self.column as usize }
    }

    /// A cursor lies within the source, and its line and column count from
    /// one and cannot exceed the number of characters passed.
    pub open spec fn wf(self, source: Seq<char>) -> bool {
        &&& self.index <= source.len()
        &&& 1 <= self.line <= self.index + 1
        &&& 1 <= self.column <= self.index + 1
    }
}

/// What one token is made of.
pub enum Lexeme {
    /// A keyword or an identifier, by its text.
    Word(Seq<char>),
    /// A literal number, by its value.
    Number(i32),
    /// A symbol, by its kind.
    Symbol(TokenKind),
    /// The end of the input.
    Eof,
}

/// The character at `index`, or the NUL character past the end of the source.
pub open spec fn char_at(source: Seq<char>, index: nat) -> char {
    if index < source.len() {
        source[index as int]
    } else {
        '\0'
    }
}

/// The cursor after the run of line feeds that starts under it: each one
/// begins a new line.
pub open spec fn skip_newlines(source: Seq<char>, cursor: Cursor) -> Cursor
    decreases source.len() - cursor.index,
{
    if cursor.index < source.len() && source[cursor.index as int] == '\n' {
        skip_newlines(
            source,
            Cursor { index: cursor.index + 1, line: cursor.line + 1, ..cursor },
        )
    } else {
        cursor
    }
}

/// The cursor one character on. Line feeds are stepped over at once, so the
/// cursor never rests on one that was stepped to; the character after a run
/// of them is in column one.
pub open spec fn step(source: Seq<char>, cursor: Cursor) -> Cursor {
    let index = cursor.index + 1;
    if index >= source.len() {
        Cursor { index, ..cursor }
    } else if source[index as int] == '\n' {
        Cursor {
            column: 1,
            ..skip_newlines(source, Cursor { index, column: cursor.column + 1, ..cursor })
        }
    } else {
        Cursor { index, column: cursor.column + 1, ..cursor }
    }
}

/// The cursor `n` characters on, or at the end of the source if that comes first.
pub open spec fn steps(source: Seq<char>, cursor: Cursor, n: nat) -> Cursor
    decreases n,
{
    if n == 0 || cursor.index >= source.len() {
        cursor
    } else {
        steps(source, step(source, cursor), (n - 1) as nat)
    }
}

/// Skipping line feeds keeps the cursor well formed and does not go back.
pub proof fn lemma_skip_newlines(source: Seq<char>, cursor: Cursor)
    requires
        cursor.index <= source.len(),
        1 <= cursor.line <= cursor.index + 1,
    ensures
        cursor.index <= skip_newlines(source, cursor).index <= source.len(),
        1 <= skip_newlines(source, cursor).line <= skip_newlines(source, cursor).index + 1,
        skip_newlines(source, cursor).column == cursor.column,
    decreases source.len() - cursor.index,
{
    if cursor.index < source.len() && source[cursor.index as int] == '\n' {
        lemma_skip_newlines(
            source,
            Cursor { index: cursor.index + 1, line: cursor.line + 1, ..cursor },
        );
    }
}

/// A step from within the source moves the cursor on and keeps it well formed.
pub proof fn lemma_step(source: Seq<char>, cursor: Cursor)
    requires
        cursor.wf(source),
        cursor.index < source.len(),
    ensures
        step(source, cursor).wf(source),
        step(source, cursor).index > cursor.index,
{
    let index = cursor.index + 1;
    if index < source.len() && source[index as int] == '\n' {
        lemma_skip_newlines(source, Cursor { index, column: cursor.column + 1, ..cursor });
    }
}

/// One step from within the source is a step.
pub proof fn lemma_steps_one(source: Seq<char>, cursor: Cursor)
    ensures
        steps(source, cursor, 1) == if cursor.index < source.len() {
            step(source, cursor)
        } else {
            cursor
        },
{
    reveal_with_fuel(steps, 2);
}

/// Whether a word goes on with `c`: with a letter, a digit or an underscore.
pub open spec fn word_char(c: char) -> bool {
    unicode_alphabetic(c) || unicode_numeric(c) || c == '_'
}

/// The cursor after the white space that starts under it.
pub open spec fn skip_whitespace(source: Seq<char>, cursor: Cursor) -> Cursor
    decreases source.len() - cursor.index,
{
    if cursor.wf(source) && cursor.index < source.len() && source[cursor.index as int] != '\0'
        && unicode_whitespace(source[cursor.index as int]) {
        if cursor.index < step(source, cursor).index <= source.len() {
            skip_whitespace(source, step(source, cursor))
        } else {
            cursor
        }
    } else {
        cursor
    }
}

/// A word or a number as it is scanned: the cursor behind it, its text so
/// far and the location of its last character.
pub struct Scan {
    pub cursor: Cursor,
    pub raw: Seq<char>,
    pub end: Location,
}

/// The rest of a word: every character that goes on with it is taken.
pub open spec fn scan_word(source: Seq<char>, scan: Scan) -> Scan
    decreases source.len() - scan.cursor.index,
{
    let cursor = scan.cursor;
    if cursor.wf(source) && cursor.index < source.len() && word_char(source[cursor.index as int]) {
        if cursor.index < step(source, cursor).index <= source.len() {
            scan_word(
                source,
                Scan {
                    cursor: step(source, cursor),
                    raw: scan.raw.push(source[cursor.index as int]),
                    end: cursor.location(),
                },
            )
        } else {
            scan
        }
    } else {
        scan
    }
}

/// The rest of a number: every numeric character is taken.
pub open spec fn scan_number(source: Seq<char>, scan: Scan) -> Scan
    decreases source.len() - scan.cursor.index,
{
    let cursor = scan.cursor;
    if cursor.wf(source) && cursor.index < source.len() && unicode_numeric(
        source[cursor.index as int],
    ) {
        if cursor.index < step(source, cursor).index <= source.len() {
            scan_number(
                source,
                Scan {
                    cursor: step(source, cursor),
                    raw: scan.raw.push(source[cursor.index as int]),
                    end: cursor.location(),
                },
            )
        } else {
            scan
        }
    } else {
        scan
    }
}

/// The value of the decimal digit `c`, if it is one.
pub open spec fn digit_value(c: char) -> Option<nat> {
    if '0' <= c <= '9' {
        Some((c as nat - '0' as nat) as nat)
    } else {
        None
    }
}

/// The number that a string of decimal digits stands for, if it is one.
pub open spec fn decimal_value(raw: Seq<char>) -> Option<nat>
    decreases raw.len(),
{
    if raw.len() == 0 {
        Some(0)
    } else {
        match (decimal_value(raw.drop_last()), digit_value(raw.last())) {
            (Some(value), Some(digit)) => Some(value * 10 + digit),
            _ => None,
        }
    }
}

/// The `i32` that a string of decimal digits stands for, if it fits in one.
pub open spec fn parse_i32(raw: Seq<char>) -> Option<i32> {
    match decimal_value(raw) {
        Some(value) if value <= i32::MAX => Some(value as i32),
        _ => None,
    }
}

/// The keyword that a word is, if it is one.
pub open spec fn keyword(raw: Seq<char>) -> Option<TokenKind> {
    if raw == "fn"@ {
        Some(TokenKind::KwFn)
    } else if raw == "struct"@ {
        Some(TokenKind::KwStruct)
    } else if raw == "impl"@ {
        Some(TokenKind::KwImpl)
    } else if raw == "self"@ {
        Some(TokenKind::KwSelf)
    } else if raw == "let"@ {
        Some(TokenKind::KwLet)
    } else if raw == "return"@ {
        Some(TokenKind::KwRet)
    } else {
        None
    }
}

/// The symbol that the single character `c` is, if it is one.
pub open spec fn symbol(c: char) -> Option<TokenKind> {
    if c == '+' {
        Some(TokenKind::Plus)
    } else if c == '*' {
        Some(TokenKind::Star)
    } else if c == '(' {
        Some(TokenKind::LParen)
    } else if c == ')' {
        Some(TokenKind::RParen)
    } else if c == '{' {
        Some(TokenKind::LBrace)
    } else if c == '}' {
        Some(TokenKind::RBrace)
    } else if c == ':' {
        Some(TokenKind::Colon)
    } else if c == ';' {
        Some(TokenKind::Semicolon)
    } else if c == '=' {
        Some(TokenKind::Equal)
    } else if c == ',' {
        Some(TokenKind::Comma)
    } else {
        None
    }
}

/// Whether a token kind is the kind of the given lexeme.
pub open spec fn kind_of(kind: TokenKind, lexeme: Lexeme) -> bool {
    match lexeme {
        Lexeme::Word(raw) => match keyword(raw) {
            Some(keyword) => kind == keyword,
            None => kind matches TokenKind::Ident(name) && name@ == raw,
        },
        Lexeme::Number(value) => kind == TokenKind::LitNum(value),
        Lexeme::Symbol(symbol) => kind == symbol,
        Lexeme::Eof => kind == TokenKind::EOF,
    }
}

/// Whether a token is the given lexeme at the given span.
pub open spec fn token_of(token: Token, lexeme: (Lexeme, Span)) -> bool {
    &&& kind_of(token.kind, lexeme.0)
    &&& token.span == Some(lexeme.1)
}

/// The failure for a character that starts no token.
pub open spec fn unexpected(c: char, span: Span) -> LexFailure {
    LexFailure { reason: "Unexpected character '"@.push(c) + "'"@, span }
}

/// The failure for a character other than the one that must come.
pub open spec fn expected(expected: char, found: char, span: Span) -> LexFailure {
    LexFailure {
        reason: "Expected character '"@.push(expected) + "', found '"@.push(found) + "'"@,
        span,
    }
}

/// The failure for a number that fits in no `i32`.
pub open spec fn unconvertible(raw: Seq<char>, span: Span) -> LexFailure {
    LexFailure { reason: "Couldn't convert "@ + raw + " into an i32"@, span }
}

/// What lexing one token gives: the token or a failure.
pub struct Lexed {
    pub outcome: Result<(Lexeme, Span), LexFailure>,
    /// The cursor behind the token, or where lexing failed.
    pub cursor: Cursor,
}

/// The next token from the cursor on: white space is skipped; the NUL
/// character or the end of the source is the end of the input; a letter or
/// an underscore starts a word, a numeric character a number, and anything
/// else must be a symbol.
pub open spec fn next_token(source: Seq<char>, from: Cursor) -> Lexed {
    let cursor = skip_whitespace(source, from);
    let current = char_at(source, cursor.index);
    let start = cursor.location();
    if current == '\0' {
        Lexed { outcome: Ok((Lexeme::Eof, Span { start, end: start })), cursor }
    } else if unicode_alphabetic(current) || current == '_' {
        let scan = scan_word(
            source,
            Scan { cursor: step(source, cursor), raw: seq![current], end: start },
        );
        Lexed {
            outcome: Ok((Lexeme::Word(scan.raw), Span { start, end: scan.end })),
            cursor: scan.cursor,
        }
    } else if unicode_numeric(current) {
        let scan = scan_number(
            source,
            Scan { cursor: step(source, cursor), raw: seq![current], end: start },
        );
        let span = Span { start, end: scan.end };
        Lexed {
            outcome: match parse_i32(scan.raw) {
                Some(value) => Ok((Lexeme::Number(value), span)),
                None => Err(unconvertible(scan.raw, span)),
            },
            cursor: scan.cursor,
        }
    } else if current == '-' {
        let after = step(source, cursor);
        let span = Span { start, end: after.location() };
        let second = char_at(source, after.index);
        if second == '>' {
            Lexed {
                outcome: Ok((Lexeme::Symbol(TokenKind::RArrow), span)),
                cursor: step(source, after),
            }
        } else {
            Lexed { outcome: Err(unexpected(second, span)), cursor: after }
        }
    } else {
        match symbol(current) {
            Some(kind) => Lexed {
                outcome: Ok((Lexeme::Symbol(kind), Span { start, end: start })),
                cursor: step(source, cursor),
            },
            None => Lexed {
                outcome: Err(unexpected(current, Span { start, end: start })),
                cursor,
            },
        }
    }
}

/// The tokens from the cursor on, up to the end of the input, or the first failure.
pub open spec fn lex_from(source: Seq<char>, from: Cursor) -> Result<
    Seq<(Lexeme, Span)>,
    LexFailure,
>
    decreases source.len() - from.index,
{
    let lexed = next_token(source, from);
    match lexed.outcome {
        Err(failure) => Err(failure),
        Ok((Lexeme::Eof, _)) => Ok(Seq::empty()),
        Ok(lexeme) => if from.index < lexed.cursor.index <= source.len() {
            match lex_from(source, lexed.cursor) {
                Err(failure) => Err(failure),
                Ok(rest) => Ok(seq![lexeme] + rest),
            }
        } else {
            Ok(Seq::empty())
        },
    }
}

/// Where lexing from the cursor on ends: behind the last token, or where it fails.
pub open spec fn lex_end(source: Seq<char>, from: Cursor) -> Cursor
    decreases source.len() - from.index,
{
    let lexed = next_token(source, from);
    match lexed.outcome {
        Ok((Lexeme::Eof, _)) => lexed.cursor,
        Ok(_) => if from.index < lexed.cursor.index <= source.len() {
            lex_end(source, lexed.cursor)
        } else {
            lexed.cursor
        },
        Err(_) => lexed.cursor,
    }
}

/// Skipping white space keeps the cursor well formed and does not go back.
pub proof fn lemma_skip_whitespace(source: Seq<char>, cursor: Cursor)
    requires
        cursor.wf(source),
    ensures
        skip_whitespace(source, cursor).wf(source),
        skip_whitespace(source, cursor).index >= cursor.index,
    decreases source.len() - cursor.index,
{
    if cursor.index < source.len() && source[cursor.index as int] != '\0' && unicode_whitespace(
        source[cursor.index as int],
    ) {
        lemma_step(source, cursor);
        lemma_skip_whitespace(source, step(source, cursor));
    }
}

/// Scanning a word keeps the cursor well formed and does not go back.
pub proof fn lemma_scan_word(source: Seq<char>, scan: Scan)
    requires
        scan.cursor.wf(source),
    ensures
        scan_word(source, scan).cursor.wf(source),
        scan_word(source, scan).cursor.index >= scan.cursor.index,
    decreases source.len() - scan.cursor.index,
{
    let cursor = scan.cursor;
    if cursor.index < source.len() && word_char(source[cursor.index as int]) {
        lemma_step(source, cursor);
        lemma_scan_word(
            source,
            Scan {
                cursor: step(source, cursor),
                raw: scan.raw.push(source[cursor.index as int]),
                end: cursor.location(),
            },
        );
    }
}

/// Scanning a number keeps the cursor well formed and does not go back.
pub proof fn lemma_scan_number(source: Seq<char>, scan: Scan)
    requires
        scan.cursor.wf(source),
    ensures
        scan_number(source, scan).cursor.wf(source),
        scan_number(source, scan).cursor.index >= scan.cursor.index,
    decreases source.len() - scan.cursor.index,
{
    let cursor = scan.cursor;
    if cursor.index < source.len() && unicode_numeric(source[cursor.index as int]) {
        lemma_step(source, cursor);
        lemma_scan_number(
            source,
            Scan {
                cursor: step(source, cursor),
                raw: scan.raw.push(source[cursor.index as int]),
                end: cursor.location(),
            },
        );
    }
}

/// Lexing a token keeps the cursor well formed, and every token but the end
/// of the input moves it on.
pub proof fn lemma_next_token(source: Seq<char>, from: Cursor)
    requires
        from.wf(source),
    ensures
        next_token(source, from).cursor.wf(source),
        next_token(source, from).cursor.index >= from.index,
        next_token(source, from).outcome is Ok && !(next_token(source, from).outcome->Ok_0.0
            is Eof) ==> next_token(source, from).cursor.index > from.index,
{
    let cursor = skip_whitespace(source, from);
    lemma_skip_whitespace(source, from);
    let current = char_at(source, cursor.index);
    if current != '\0' {
        lemma_step(source, cursor);
        let start = cursor.location();
        let first = Scan { cursor: step(source, cursor), raw: seq![current], end: start };
        lemma_scan_word(source, first);
        lemma_scan_number(source, first);
        let after = step(source, cursor);
        if after.index < source.len() {
            lemma_step(source, after);
        }
    }
}

/// Represents the lexing engine.
pub struct Lexer<'a> {
    /// The source code to be lexed.
    source: &'a [char],
    /// Our current index in the `source` slice.
    index: usize,
    /// Our current line (starting at one).
    line: usize,
    /// Our current column (starting at one).
    column: usize,
}

impl<'a> Lexer<'a> {
    /// The source code to be lexed.
    pub closed spec fn source(&self) -> Seq<char> {
        self.source@
    }

    /// Where the lexer stands in the source.
    pub closed spec fn cursor(&self) -> Cursor {
        Cursor { index: self.index as nat, line: self.line as nat, column: self.column as nat }
    }

    /// The cursor is well formed and the positions in the source can be counted.
    pub open spec fn wf(&self) -> bool {
        &&& self.cursor().wf(self.source())
        &&& self.source().len() < usize::MAX
    }

    /// Create a new lexer instance.
    pub fn new(source: &'a [char]) -> (lexer: Self)
        requires
            source@.len() < usize::MAX,
        ensures
            lexer.wf(),
            lexer.source() == source@,
            lexer.cursor() == Cursor::start(),
    {
        Lexer { source, index: 0, line: 1, column: 1 }
    }

    /// Lex the entire input, from where the lexer stands.
    pub fn lex(&mut self) -> (result: LexResult<Vec<Token>>)
        requires
            old(self).wf(),
        ensures
            final(self).wf(),
            final(self).source() == old(self).source(),
            final(self).cursor() == lex_end(old(self).source(), old(self).cursor()),
            match lex_from(old(self).source(), old(self).cursor()) {
                Ok(lexemes) => result is Ok && result->Ok_0@.len() == lexemes.len() && forall|
                    i: int,
                |
                    0 <= i < lexemes.len() ==> token_of(#[trigger] result->Ok_0@[i], lexemes[i]),
                Err(failure) => result is Err && result->Err_0.describes(failure),
            },
    {
        let mut tokens: Vec<Token> = Vec::new();
        let ghost mut lexemes: Seq<(Lexeme, Span)> = Seq::empty();
        loop
            invariant
                self.wf(),
                self.source() == old(self).source(),
                tokens@.len() == lexemes.len(),
                lex_end(old(self).source(), old(self).cursor()) == lex_end(
                    self.source(),
                    self.cursor(),
                ),
                forall|i: int| 0 <= i < lexemes.len() ==> token_of(#[trigger] tokens@[i], lexemes[i]),
                lex_from(old(self).source(), old(self).cursor()) == match lex_from(
                    self.source(),
                    self.cursor(),
                ) {
                    Ok(rest) => Ok::<Seq<(Lexeme, Span)>, LexFailure>(lexemes + rest),
                    Err(failure) => Err(failure),
                },
            decreases self.source().len() - self.cursor().index,
        {
            let ghost before = self.cursor();
            proof {
                lemma_next_token(self.source(), before);
            }
            let token = match self.next() {
                Ok(token) => token,
                Err(error) => {
                    return Err(error);
                },
            };
            let ghost lexeme = next_token(self.source(), before).outcome->Ok_0;
            if token.kind == TokenKind::EOF {
                proof {
                    lemma_kind_eof(token.kind, self.source(), before);
                    assert(lexemes + Seq::<(Lexeme, Span)>::empty() =~= lexemes);
                }
                return Ok(tokens);
            }
            proof {
                assert(!(lexeme.0 is Eof));
                let rest = lex_from(self.source(), self.cursor());
                if rest is Ok {
                    assert(lexemes + (seq![lexeme] + rest->Ok_0) =~= lexemes.push(lexeme)
                        + rest->Ok_0);
                }
                lexemes = lexemes.push(lexeme);
            }
            tokens.push(token);
        }
    }

    /// Return the next token.
    pub fn next(&mut self) -> (result: LexResult<Token>)
        requires
            old(self).wf(),
        ensures
            final(self).wf(),
            final(self).source() == old(self).source(),
            final(self).cursor() == next_token(old(self).source(), old(self).cursor()).cursor,
            match next_token(old(self).source(), old(self).cursor()).outcome {
                Ok(lexeme) => result is Ok && token_of(result->Ok_0, lexeme),
                Err(failure) => result is Err && result->Err_0.describes(failure),
            },
    {
        proof {
            lemma_next_token(self.source(), self.cursor());
            lemma_skip_whitespace(self.source(), self.cursor());
        }
        while self.index < self.source.len() && self.current() != '\0' && is_whitespace(
            self.current(),
        )
            invariant
                self.wf(),
                self.source == old(self).source,
                skip_whitespace(self.source(), self.cursor()) == skip_whitespace(
                    old(self).source(),
                    old(self).cursor(),
                ),
            decreases self.source().len() - self.cursor().index,
        {
            proof {
                lemma_step(self.source(), self.cursor());
            }
            self.step(1);
        }
        let ghost cursor = self.cursor();
        if self.current() == '\0' {
            return Ok(Token::spanned(TokenKind::EOF, Span::single(self.line, self.column)));
        }
        proof {
            lemma_step(self.source(), cursor);
        }
        let current = self.current();
        if is_alphabetic(current) || current == '_' {
            let start = self.location();
            let mut end = self.location();
            let mut raw = String::new();
            push_char(&mut raw, current);
            self.step(1);
            assert(raw@ =~= seq![current]);
            while self.index < self.source.len() && (is_alphabetic(self.current()) || is_numeric(
                self.current(),
            ) || self.current() == '_')
                invariant
                    self.wf(),
                    self.source == old(self).source,
                    scan_word(
                        self.source(),
                        Scan { cursor: self.cursor(), raw: raw@, end },
                    ) == scan_word(
                        self.source(),
                        Scan { cursor: step(self.source(), cursor), raw: seq![current], end: start },
                    ),
                decreases self.source().len() - self.cursor().index,
            {
                proof {
                    lemma_step(self.source(), self.cursor());
                }
                push_char(&mut raw, self.current());
                end = self.location();
                self.step(1);
            }
            let span = Span::new(start, end);
            let kind = if str_eq(raw.as_str(), "fn") {
                TokenKind::KwFn
            } else if str_eq(raw.as_str(), "struct") {
                TokenKind::KwStruct
            } else if str_eq(raw.as_str(), "impl") {
                TokenKind::KwImpl
            } else if str_eq(raw.as_str(), "self") {
                TokenKind::KwSelf
            } else if str_eq(raw.as_str(), "let") {
                TokenKind::KwLet
            } else if str_eq(raw.as_str(), "return") {
                TokenKind::KwRet
            } else {
                TokenKind::Ident(raw)
            };
            Ok(Token::spanned(kind, span))
        } else if is_numeric(current) {
            let start = self.location();
            let mut end = self.location();
            let mut raw = String::new();
            push_char(&mut raw, current);
            let mut value: Option<i32> = push_digit(Some(0), current, Ghost(Seq::empty()));
            self.step(1);
            assert(raw@ =~= seq![current]);
            while self.index < self.source.len() && is_numeric(self.current())
                invariant
                    self.wf(),
                    self.source == old(self).source,
                    value == parse_i32(raw@),
                    scan_number(
                        self.source(),
                        Scan { cursor: self.cursor(), raw: raw@, end },
                    ) == scan_number(
                        self.source(),
                        Scan { cursor: step(self.source(), cursor), raw: seq![current], end: start },
                    ),
                decreases self.source().len() - self.cursor().index,
            {
                proof {
                    lemma_step(self.source(), self.cursor());
                }
                value = push_digit(value, self.current(), Ghost(raw@));
                push_char(&mut raw, self.current());
                end = self.location();
                self.step(1);
            }
            match value {
                Some(value) => Ok(Token::spanned(TokenKind::LitNum(value), Span::new(start, end))),
                None => {
                    let mut reason = String::from_str("Couldn't convert ");
                    reason.append(raw.as_str());
                    reason.append(" into an i32");
                    Err(LexError { reason, span: Some(Span::new(start, end)) })
                },
            }
        } else {
            // Must be a symbol of some kind
            let start = Location::new(self.line, self.column);
            let mut end: Location = Location::new(self.line, self.column);
            let kind;
            if current == '+' {
                self.step(1);
                kind = TokenKind::Plus;
            } else if current == '*' {
                self.step(1);
                kind = TokenKind::Star;
            } else if current == '(' {
                self.step(1);
                kind = TokenKind::LParen;
            } else if current == ')' {
                self.step(1);
                kind = TokenKind::RParen;
            } else if current == '{' {
                self.step(1);
                kind = TokenKind::LBrace;
            } else if current == '}' {
                self.step(1);
                kind = TokenKind::RBrace;
            } else if current == ':' {
                self.step(1);
                kind = TokenKind::Colon;
            } else if current == ';' {
                self.step(1);
                kind = TokenKind::Semicolon;
            } else if current == '=' {
                self.step(1);
                kind = TokenKind::Equal;
            } else if current == ',' {
                self.step(1);
                kind = TokenKind::Comma;
            } else if current == '-' {
                // Single character lookahead (we need to look at the next one)
                self.step(1);
                end = Location::new(self.line, self.column);
                let second = self.current();
                if second == '>' {
                    proof {
                        lemma_step(self.source(), self.cursor());
                    }
                    self.step(1);
                    kind = TokenKind::RArrow;
                } else {
                    return Err(Self::unexpected(second, Span::new(start, end)));
                }
            } else {
                return Err(Self::unexpected(current, Span::new(start, end)));
            }
            Ok(Token::spanned(kind, Span::new(start, end)))
        }
    }

    /// Returns a `LexError` for an unexpected character with a span.
    pub fn unexpected(c: char, span: Span) -> (error: LexError)
        ensures
            error.describes(unexpected(c, span)),
    {
        let mut reason = String::from_str("Unexpected character '");
        push_char(&mut reason, c);
        reason.append("'");
        LexError { reason, span: Some(span) }
    }

    /// Return the current character.
    pub fn current(&self) -> (c: char)
        requires
            self.wf(),
        ensures
            c == char_at(self.source(), self.cursor().index),
    {
        self.lookahead(0)
    }

    /// Return the current location.
    pub fn location(&self) -> (location: Location)
        ensures
            location == self.cursor().location(),
    {
        Location::new(self.line, self.column)
    }

    /// Step `n` characters on, or to the end of the source if that comes first.
    fn step(&mut self, n: usize)
        requires
            old(self).wf(),
        ensures
            final(self).wf(),
            final(self).source == old(self).source,
            final(self).cursor() == steps(old(self).source(), old(self).cursor(), n as nat),
            n == 1 && old(self).cursor().index < old(self).source().len() ==> final(self).cursor()
                == step(old(self).source(), old(self).cursor()),
    {
        proof {
            lemma_steps_one(self.source(), self.cursor());
        }
        let mut k: usize = 0;
        while k < n && self.index < self.source.len()
            invariant
                k <= n,
                self.wf(),
                self.source == old(self).source,
                steps(self.source(), self.cursor(), (n - k) as nat) == steps(
                    old(self).source(),
                    old(self).cursor(),
                    n as nat,
                ),
            decreases n - k,
        {
            let ghost before = self.cursor();
            proof {
                lemma_step(self.source(), before);
            }
            self.index = self.index + 1;
            if self.index < self.source.len() {
                self.column = self.column + 1;
                if self.source[self.index] == '\n' {
                    let ghost first = self.cursor();
                    while self.index < self.source.len() && self.current() == '\n'
                        invariant
                            self.wf(),
                            self.source == old(self).source,
                            self.column == first.column,
                            first.index <= self.index,
                            first.column <= first.index + 1,
                            skip_newlines(self.source(), self.cursor()) == skip_newlines(
                                self.source(),
                                first,
                            ),
                        decreases self.source().len() - self.cursor().index,
                    {
                        self.index = self.index + 1;
                        self.line = self.line + 1;
                    }
                    self.column = 1;
                }
            }
            k = k + 1;
        }
    }

    /// Look `n` characters ahead of the cursor.
    fn lookahead(&self, n: usize) -> (c: char)
        requires
            self.wf(),
        ensures
            c == char_at(self.source(), self.cursor().index + n as nat),
    {
        if n >= self.source.len() - self.index {
            '\0'
        } else {
            self.source[self.index + n]
        }
    }

    /// Move the cursor if the character matches, return an error otherwise.
    pub fn expect(&mut self, expected: char) -> (result: LexResult<()>)
        requires
            old(self).wf(),
        ensures
            final(self).wf(),
            final(self).source() == old(self).source(),
            char_at(old(self).source(), old(self).cursor().index) == expected ==> result is Ok
                && final(self).cursor() == steps(old(self).source(), old(self).cursor(), 1),
            char_at(old(self).source(), old(self).cursor().index) != expected ==> result is Err
                && final(self).cursor() == old(self).cursor() && result->Err_0.describes(
                self::expected(
                    expected,
                    char_at(old(self).source(), old(self).cursor().index),
                    Span::spec_single(old(self).cursor().line as usize, old(self).cursor().column as usize),
                ),
            ),
    {
        let current = self.current();
        if current == expected {
            self.step(1);
            Ok(())
        } else {
            let mut reason = String::from_str("Expected character '");
            push_char(&mut reason, expected);
            reason.append("', found '");
            push_char(&mut reason, current);
            reason.append("'");
            Err(LexError { reason, span: Some(Span::single(self.line, self.column)) })
        }
    }
}

/// A token that lexing gives is the end of the input only if the lexeme is.
proof fn lemma_kind_eof(kind: TokenKind, source: Seq<char>, from: Cursor)
    requires
        next_token(source, from).outcome is Ok,
        kind_of(kind, next_token(source, from).outcome->Ok_0.0),
        kind.same(&TokenKind::EOF),
    ensures
        next_token(source, from).outcome->Ok_0.0 is Eof,
{
}

/// The number read so far with one more digit: `None` once a character is
/// no decimal digit or the number fits in no `i32`.
fn push_digit(value: Option<i32>, c: char, Ghost(raw): Ghost<Seq<char>>) -> (pushed: Option<i32>)
    requires
        value == parse_i32(raw),
    ensures
        pushed == parse_i32(raw.push(c)),
{
    assert(raw.push(c).drop_last() =~= raw);
    let code = c as u32;
    if code < 48 || code > 57 {
        return None;
    }
    let digit: i32 = (code - 48) as i32;
    match value {
        Some(value) => {
            if value > (i32::MAX - digit) / 10 {
                None
            } else {
                Some(value * 10 + digit)
            }
        },
        None => {
            proof {
                if decimal_value(raw) is Some {
                    assert(decimal_value(raw)->0 > i32::MAX);
                }
            }
            None
        },
    }
}

} // verus!
