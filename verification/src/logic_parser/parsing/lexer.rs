//! A lexer with a fixed alphabet: tokens with their start and length in
//! bytes, words over letters, digits and `_`.

use vstd::prelude::*;
use vstd::string::StringExecFns;
use crate::logic_parser::lexing::lexer::{
    lemma_offset_grows,
    lemma_run,
    offset,
    run,
    run_end,
    word_between,
    word_kind,
    alphabetic,
    is_alphabetic,
    is_alphanumeric,
    numeric,
    Alphabet,
};
use crate::logic_parser::lexing::token::Kind;
use crate::logic_parser::parsing::errors::{LexerError, LexerFault};
use crate::text::{
    byte_len,
    lemma_byte_len_prefix,
    measured_chars,
    push_char,
    same_text,
    utf8_width,
    width_of,
};

verus! {

/// All the tokens this lexer can produce.
#[derive(Debug)]
pub enum TokenKind {
    Identifier(String),
    Literal(bool),
    Not,
    And,
    Or,
    Implies,
    OpenParen,
    CloseParen,
}

impl View for TokenKind {
    type V = Kind;

    open spec fn view(&self) -> Kind {
        match self {
            TokenKind::Identifier(name) => Kind::Identifier(name@),
            TokenKind::Literal(value) => Kind::Literal(*value),
            TokenKind::Not => Kind::Not,
            TokenKind::And => Kind::And,
            TokenKind::Or => Kind::Or,
            TokenKind::Implies => Kind::Implies,
            TokenKind::OpenParen => Kind::OpenParen,
            TokenKind::CloseParen => Kind::CloseParen,
        }
    }
}

impl PartialEq for TokenKind {
    fn eq(&self, other: &TokenKind) -> (same: bool) {
        match (self, other) {
            (TokenKind::Identifier(a), TokenKind::Identifier(b)) => *a == *b,
            (TokenKind::Literal(a), TokenKind::Literal(b)) => *a == *b,
            (TokenKind::Not, TokenKind::Not) => true,
            (TokenKind::And, TokenKind::And) => true,
            (TokenKind::Or, TokenKind::Or) => true,
            (TokenKind::Implies, TokenKind::Implies) => true,
            (TokenKind::OpenParen, TokenKind::OpenParen) => true,
            (TokenKind::CloseParen, TokenKind::CloseParen) => true,
            _ => false,
        }
    }
}

impl vstd::std_specs::cmp::PartialEqSpecImpl for TokenKind {
    open spec fn obeys_eq_spec() -> bool {
        true
    }

    open spec fn eq_spec(&self, other: &TokenKind) -> bool {
        self@ == other@
    }
}

impl TokenKind {
    /// How a token kind is written out: every kind alike.
    pub fn to_string(&self) -> (text: String)
        ensures
            text@ == "tokensito"@,
    {
        String::from_str("tokensito")
    }
}

/// A token: its kind, where it starts and how long it is, in bytes.
#[derive(Debug)]
pub struct Token {
    pub kind: TokenKind,
    pub start: usize,
    pub len: usize,
}

/// A token as a value of plain sequences.
pub struct TokenView {
    pub kind: Kind,
    pub start: usize,
    pub len: usize,
}

impl View for Token {
    type V = TokenView;

    open spec fn view(&self) -> TokenView {
        TokenView { kind: self.kind@, start: self.start, len: self.len }
    }
}

impl PartialEq for Token {
    fn eq(&self, other: &Token) -> (same: bool) {
        self.kind == other.kind && self.start == other.start && self.len == other.len
    }
}

impl vstd::std_specs::cmp::PartialEqSpecImpl for Token {
    open spec fn obeys_eq_spec() -> bool {
        true
    }

    open spec fn eq_spec(&self, other: &Token) -> bool {
        self@ == other@
    }
}

/// The tokens of a vector as plain values.
pub open spec fn token_views(tokens: Seq<Token>) -> Seq<TokenView> {
    tokens.map_values(|token: Token| token@)
}

/// What a lexer takes for a negation, a blank and a word.
#[derive(Debug, Clone, Copy, PartialEq, Eq, Structural)]
pub struct Dialect {
    /// The sign of negation.
    pub negation: char,
    /// Whether a carriage return is a blank, as tab and space are.
    pub carriage_return: bool,
    /// Whether `_` is a character of words, and may start one.
    pub underscore: bool,
}

/// The blanks of a dialect.
pub struct Blanks {
    pub carriage_return: bool,
}

/// The characters of the words of a dialect.
pub struct WordChars {
    pub underscore: bool,
}

/// The characters that start the words of a dialect.
pub struct WordStart {
    pub underscore: bool,
}

impl Alphabet for Blanks {
    open spec fn decides(&self) -> bool {
        true
    }

    open spec fn has(&self, c: char) -> bool {
        c == '\t' || c == ' ' || (self.carriage_return && c == '\r')
    }

    fn contains(&self, c: char) -> (yes: bool) {
        c == '\t' || c == ' ' || (self.carriage_return && c == '\r')
    }
}

impl Alphabet for WordChars {
    open spec fn decides(&self) -> bool {
        true
    }

    open spec fn has(&self, c: char) -> bool {
        alphabetic(c) || numeric(c) || (self.underscore && c == '_')
    }

    fn contains(&self, c: char) -> (yes: bool) {
        is_alphanumeric(c) || (self.underscore && c == '_')
    }
}

impl Alphabet for WordStart {
    open spec fn decides(&self) -> bool {
        true
    }

    open spec fn has(&self, c: char) -> bool {
        alphabetic(c) || (self.underscore && c == '_')
    }

    fn contains(&self, c: char) -> (yes: bool) {
        is_alphabetic(c) || (self.underscore && c == '_')
    }
}

impl Dialect {
    /// Negation is `~`; tab, space and carriage return are blanks; words are
    /// made of letters, digits and `_` and start with a letter or `_`.
    pub open spec fn tilde() -> Dialect {
        Dialect { negation: '~', carriage_return: true, underscore: true }
    }

    /// The blanks of the dialect.
    pub open spec fn blanks(self) -> Blanks {
        Blanks { carriage_return: self.carriage_return }
    }

    /// The characters of the words of the dialect.
    pub open spec fn word_chars(self) -> WordChars {
        WordChars { underscore: self.underscore }
    }

    /// The characters that start the words of the dialect.
    pub open spec fn word_start(self) -> WordStart {
        WordStart { underscore: self.underscore }
    }
}

/// How many characters of `s` from `from` on take `bytes` bytes together;
/// negative where no number of them does.
pub open spec fn chars_within(s: Seq<char>, from: int, bytes: int) -> int
    decreases bytes,
{
    if bytes <= 0 {
        0
    } else if !(0 <= from < s.len()) || utf8_width(s[from]) > bytes {
        -1
    } else {
        let rest = chars_within(s, from + 1, bytes - utf8_width(s[from]));
        if rest < 0 {
            -1
        } else {
            rest + 1
        }
    }
}

/// What the lexer says after `=` where no `>` follows.
pub open spec fn arrow_hint() -> Seq<char> {
    "Unexpected character (expected '=>'), got '='"@
}

/// What the lexer says of a character that starts no token.
pub open spec fn unknown_hint(c: char) -> Seq<char> {
    "Unkown Token: '"@.push(c) + "'"@
}

/// What stands at a place of the source.
pub enum Scan {
    /// Nothing but blanks up to the end.
    End,
    /// A token, and the position after the characters that were read for it.
    Token { token: TokenView, next: int },
    /// No token.
    Fault { fault: LexerFault },
    /// A word whose text cannot be cut out of the source: its length in
    /// bytes, counted as if its first character took one byte, ends within a
    /// character.
    Split,
}

/// The word that begins with the character at `start`.
pub open spec fn scan_word(dialect: Dialect, s: Seq<char>, start: int) -> Scan {
    let end = start + 1 + run(&dialect.word_chars(), s, start + 1);
    let len = offset(s, end) - offset(s, start + 1) + 1;
    let count = chars_within(s, start, len);
    if count < 0 {
        Scan::Split
    } else {
        Scan::Token {
            token: TokenView {
                kind: word_kind(s.subrange(start, start + count)),
                start: offset(s, start) as usize,
                len: len as usize,
            },
            next: end,
        }
    }
}

/// A token of one byte at `start`.
pub open spec fn sign(kind: Kind, s: Seq<char>, start: int) -> Scan {
    Scan::Token { token: TokenView { kind, start: offset(s, start) as usize, len: 1 }, next: start + 1 }
}

/// What stands in `s` from position `from` on, blanks passed over.
pub open spec fn scan(dialect: Dialect, s: Seq<char>, from: int) -> Scan {
    let start = from + run(&dialect.blanks(), s, from);
    if start >= s.len() {
        Scan::End
    } else {
        let c = s[start];
        if c == '(' {
            sign(Kind::OpenParen, s, start)
        } else if c == ')' {
            sign(Kind::CloseParen, s, start)
        } else if c == dialect.negation {
            sign(Kind::Not, s, start)
        } else if c == '&' {
            sign(Kind::And, s, start)
        } else if c == '|' {
            sign(Kind::Or, s, start)
        } else if c == '=' {
            if start + 1 < s.len() && s[start + 1] == '>' {
                Scan::Token {
                    token: TokenView { kind: Kind::Implies, start: offset(s, start) as usize, len: 1 },
                    next: start + 2,
                }
            } else {
                Scan::Fault { fault: LexerFault::SyntaxError(arrow_hint()) }
            }
        } else if dialect.word_start().has(c) {
            scan_word(dialect, s, start)
        } else {
            Scan::Fault { fault: LexerFault::UnknownToken(unknown_hint(c)) }
        }
    }
}

/// `first` put in front of what follows it, where that is no error.
pub open spec fn prepend(
    first: Seq<TokenView>,
    rest: Result<Seq<TokenView>, LexerFault>,
) -> Result<Seq<TokenView>, LexerFault> {
    match rest {
        Ok(tokens) => Ok(first + tokens),
        Err(fault) => Err(fault),
    }
}

/// The tokens of `s` from position `from` on, or the first error.
pub open spec fn lexed_from(dialect: Dialect, s: Seq<char>, from: int) -> Result<
    Seq<TokenView>,
    LexerFault,
>
    decreases s.len() - from,
{
    match scan(dialect, s, from) {
        Scan::End => Ok(Seq::empty()),
        Scan::Fault { fault } => Err(fault),
        Scan::Split => Ok(Seq::empty()),
        Scan::Token { token, next } => {
            if from < next <= s.len() {
                prepend(seq![token], lexed_from(dialect, s, next))
            } else {
                Ok(Seq::empty())
            }
        },
    }
}

/// Every word of `s` from position `from` on, up to the first error, can
/// be cut out of the source.
pub open spec fn cuts_cleanly(dialect: Dialect, s: Seq<char>, from: int) -> bool
    decreases s.len() - from,
{
    match scan(dialect, s, from) {
        Scan::End => true,
        Scan::Fault { .. } => true,
        Scan::Split => false,
        Scan::Token { token, next } => {
            if from < next <= s.len() {
                cuts_cleanly(dialect, s, next)
            } else {
                true
            }
        },
    }
}

/// A lexer: its dialect, the source it reads and its place in it.
pub struct Lexer {
    dialect: Dialect,
    expr: Vec<char>,
    at: usize,
    pos: usize,
}

impl Lexer {
    /// The dialect that the lexer reads.
    pub closed spec fn dialect(&self) -> Dialect {
        self.dialect
    }

    /// The source text.
    pub closed spec fn source(&self) -> Seq<char> {
        self.expr@
    }

    /// How many characters of the source have been read.
    pub closed spec fn cursor(&self) -> int {
        self.at as int
    }

    /// How many bytes of the source have been read.
    pub closed spec fn position(&self) -> int {
        self.pos as int
    }

    /// The place of the lexer lies in its source.
    pub closed spec fn wf(&self) -> bool {
        &&& self.at <= self.expr.len()
        &&& self.pos == offset(self.expr@, self.at as int)
        &&& byte_len(self.expr@) <= usize::MAX
    }

    /// A lexer at the beginning of `expr`, with `~` for negation.
    pub fn new(expr: &str) -> (lexer: Lexer)
        ensures
            lexer.wf(),
            lexer.dialect() == Dialect::tilde(),
            lexer.source() == expr@,
            lexer.cursor() == 0,
    {
        Lexer::in_dialect(Dialect { negation: '~', carriage_return: true, underscore: true }, expr)
    }

    /// A lexer of `dialect` at the beginning of `expr`.
    pub fn in_dialect(dialect: Dialect, expr: &str) -> (lexer: Lexer)
        ensures
            lexer.wf(),
            lexer.dialect() == dialect,
            lexer.source() == expr@,
            lexer.cursor() == 0,
    {
        let lexer = Lexer { dialect, expr: measured_chars(expr), at: 0, pos: 0 };
        proof {
            assert(lexer.expr@.take(0) =~= Seq::<char>::empty());
        }
        lexer
    }

    /// The tokens of the source from the lexer's place on, or the first
    /// error. Every word on the way must be such that it can be cut out of
    /// the source.
    pub fn parse(self) -> (result: Result<Vec<Token>, LexerError>)
        requires
            self.wf(),
            cuts_cleanly(self.dialect(), self.source(), self.cursor()),
        ensures
            match result {
                Ok(tokens) => lexed_from(self.dialect(), self.source(), self.cursor()) == Ok::<
                    Seq<TokenView>,
                    LexerFault,
                >(token_views(tokens@)),
                Err(error) => lexed_from(self.dialect(), self.source(), self.cursor()) == Err::<
                    Seq<TokenView>,
                    LexerFault,
                >(error@),
            },
    {
        match self.try_parse() {
            Some(result) => result,
            None => Ok(Vec::new()),
        }
    }

    /// The tokens of the source from the lexer's place on, or the first
    /// error; `None` where a word on the way cannot be cut out of the source.
    pub fn try_parse(self) -> (outcome: Option<Result<Vec<Token>, LexerError>>)
        requires
            self.wf(),
        ensures
            outcome is Some == cuts_cleanly(self.dialect(), self.source(), self.cursor()),
            match outcome {
                Some(Ok(tokens)) => lexed_from(self.dialect(), self.source(), self.cursor()) == Ok::<
                    Seq<TokenView>,
                    LexerFault,
                >(token_views(tokens@)),
                Some(Err(error)) => lexed_from(self.dialect(), self.source(), self.cursor())
                    == Err::<Seq<TokenView>, LexerFault>(error@),
                None => true,
            },
    {
        let ghost d = self.dialect();
        let ghost s = self.source();
        let ghost first = self.cursor();
        let mut lexer = self;
        let mut tokens: Vec<Token> = Vec::new();
        proof {
            assert(token_views(tokens@) =~= Seq::<TokenView>::empty());
        }
        loop
            invariant
                lexer.wf(),
                lexer.dialect() == d,
                lexer.source() == s,
                d == self.dialect(),
                s == self.source(),
                first == self.cursor(),
                cuts_cleanly(d, s, first) == cuts_cleanly(d, s, lexer.cursor()),
                lexed_from(d, s, first) == prepend(
                    token_views(tokens@),
                    lexed_from(d, s, lexer.cursor()),
                ),
            decreases s.len() - lexer.cursor(),
        {
            let ghost done = token_views(tokens@);
            match lexer.try_next_token() {
                None => {
                    return None;
                },
                Some(Err(error)) => {
                    return Some(Err(error));
                },
                Some(Ok(None)) => {
                    proof {
                        assert(done + Seq::<TokenView>::empty() =~= done);
                    }
                    return Some(Ok(tokens));
                },
                Some(Ok(Some(token))) => {
                    tokens.push(token);
                    proof {
                        assert(token_views(tokens@) =~= done.push(token@));
                        match lexed_from(d, s, lexer.cursor()) {
                            Ok(more) => {
                                assert(done + (seq![token@] + more) =~= done.push(token@) + more);
                            },
                            Err(_) => {},
                        }
                    }
                },
            }
        }
    }

    /// The next token of the source, `None` at its end, or the error that
    /// stands in its place. A word that comes next must be such that it can
    /// be cut out of the source.
    pub fn next_token(&mut self) -> (result: Result<Option<Token>, LexerError>)
        requires
            old(self).wf(),
            !(scan(old(self).dialect(), old(self).source(), old(self).cursor()) is Split),
        ensures
            final(self).wf(),
            final(self).dialect() == old(self).dialect(),
            final(self).source() == old(self).source(),
            match scan(old(self).dialect(), old(self).source(), old(self).cursor()) {
                Scan::End => result matches Ok(None),
                Scan::Fault { fault } => result matches Err(error) && error@ == fault,
                Scan::Split => false,
                Scan::Token { token, next } => {
                    &&& result matches Ok(Some(found))
                    &&& found@ == token
                    &&& old(self).cursor() < next <= old(self).source().len()
                    &&& final(self).cursor() == next
                },
            },
    {
        match self.try_next_token() {
            Some(result) => result,
            None => Ok(None),
        }
    }

    /// The next token of the source, `None` at its end, or the error that
    /// stands in its place; nothing at all where a word comes next that
    /// cannot be cut out of the source.
    pub fn try_next_token(&mut self) -> (outcome: Option<Result<Option<Token>, LexerError>>)
        requires
            old(self).wf(),
        ensures
            final(self).wf(),
            final(self).dialect() == old(self).dialect(),
            final(self).source() == old(self).source(),
            match scan(old(self).dialect(), old(self).source(), old(self).cursor()) {
                Scan::End => outcome matches Some(Ok(None)),
                Scan::Fault { fault } => outcome matches Some(Err(error)) && error@ == fault,
                Scan::Split => outcome is None,
                Scan::Token { token, next } => {
                    &&& outcome matches Some(Ok(Some(found)))
                    &&& found@ == token
                    &&& old(self).cursor() < next <= old(self).source().len()
                    &&& final(self).cursor() == next
                },
            },
    {
        self.skip_whitespaces();
        let start = self.pos;
        let ghost s = self.expr@;
        proof {
            lemma_run(&self.dialect.blanks(), s, old(self).cursor());
        }
        let c = match self.next_char() {
            Some(c) => c,
            None => {
                return Some(Ok(None));
            },
        };
        let token = if c == '(' {
            Token { kind: TokenKind::OpenParen, start, len: 1 }
        } else if c == ')' {
            Token { kind: TokenKind::CloseParen, start, len: 1 }
        } else if c == self.dialect.negation {
            Token { kind: TokenKind::Not, start, len: 1 }
        } else if c == '&' {
            Token { kind: TokenKind::And, start, len: 1 }
        } else if c == '|' {
            Token { kind: TokenKind::Or, start, len: 1 }
        } else if c == '=' {
            match self.next_char() {
                Some('>') => Token { kind: TokenKind::Implies, start, len: 1 },
                _ => {
                    return Some(
                        Err(
                            LexerError::SyntaxError(
                                String::from_str("Unexpected character (expected '=>'), got '='"),
                            ),
                        ),
                    );
                },
            }
        } else if (WordStart { underscore: self.dialect.underscore }).contains(c) {
            match self.try_tokenize_proposition(start) {
                Some(token) => token,
                None => {
                    return None;
                },
            }
        } else {
            let mut what = String::from_str("Unkown Token: '");
            push_char(&mut what, c);
            what.append("'");
            return Some(Err(LexerError::UnknownToken(what)));
        };
        Some(Ok(Some(token)))
    }

    /// Reads one character, if there is one.
    pub fn next_char(&mut self) -> (next: Option<char>)
        requires
            old(self).wf(),
        ensures
            final(self).wf(),
            final(self).dialect() == old(self).dialect(),
            final(self).source() == old(self).source(),
            old(self).cursor() < old(self).source().len() ==> next == Some(
                old(self).source()[old(self).cursor()],
            ) && final(self).cursor() == old(self).cursor() + 1,
            old(self).cursor() >= old(self).source().len() ==> next is None && final(self).cursor()
                == old(self).cursor(),
    {
        if self.at < self.expr.len() {
            let c = self.expr[self.at];
            proof {
                lemma_byte_len_prefix(self.expr@, self.at as int);
                lemma_byte_len_prefix(self.expr@, self.at + 1);
            }
            self.pos = self.pos + width_of(c);
            self.at = self.at + 1;
            Some(c)
        } else {
            None
        }
    }

    /// Reads the rest of the word whose first character has been read and
    /// stood at the byte `start`. The word must be such that it can be cut
    /// out of the source.
    pub fn tokenize_proposition(&mut self, start: usize) -> (token: Token)
        requires
            old(self).wf(),
            0 < old(self).cursor(),
            start == offset(old(self).source(), old(self).cursor() - 1),
            !(scan_word(old(self).dialect(), old(self).source(), old(self).cursor() - 1) is Split),
        ensures
            final(self).wf(),
            final(self).dialect() == old(self).dialect(),
            final(self).source() == old(self).source(),
            scan_word(old(self).dialect(), old(self).source(), old(self).cursor() - 1) == (
            Scan::Token { token: token@, next: final(self).cursor() }),
            old(self).cursor() <= final(self).cursor() <= old(self).source().len(),
    {
        match self.try_tokenize_proposition(start) {
            Some(token) => token,
            None => Token { kind: TokenKind::Not, start, len: 1 },
        }
    }

    /// Reads the rest of the word whose first character has been read and
    /// stood at the byte `start`; no token where the word cannot be cut out
    /// of the source.
    pub fn try_tokenize_proposition(&mut self, start: usize) -> (found: Option<Token>)
        requires
            old(self).wf(),
            0 < old(self).cursor(),
            start == offset(old(self).source(), old(self).cursor() - 1),
        ensures
            final(self).wf(),
            final(self).dialect() == old(self).dialect(),
            final(self).source() == old(self).source(),
            old(self).cursor() <= final(self).cursor() <= old(self).source().len(),
            match found {
                Some(token) => scan_word(
                    old(self).dialect(),
                    old(self).source(),
                    old(self).cursor() - 1,
                ) == (Scan::Token { token: token@, next: final(self).cursor() }),
                None => scan_word(old(self).dialect(), old(self).source(), old(self).cursor() - 1)
                    is Split,
            },
    {
        let first = self.at - 1;
        let word_chars = WordChars { underscore: self.dialect.underscore };
        let ghost s = self.expr@;
        let ghost end = self.at + run(&word_chars, s, self.at as int);
        proof {
            lemma_run(&word_chars, s, self.at as int);
            lemma_offset_grows(s, self.at as int, end);
            lemma_byte_len_prefix(s, end);
            lemma_byte_len_prefix(s, first as int);
        }
        // One is added for the first character, which has been read already.
        let token_len = self.read_while(&word_chars) + 1;
        let mut count: usize = 0;
        let mut bytes: usize = 0;
        while bytes < token_len
            invariant
                self.wf(),
                self.expr@ == s,
                self.dialect() == old(self).dialect(),
                word_chars == old(self).dialect().word_chars(),
                s == old(self).source(),
                first == old(self).cursor() - 1,
                self.cursor() == end,
                end == old(self).cursor() + run(&word_chars, s, old(self).cursor()),
                old(self).cursor() <= end <= s.len(),
                token_len == offset(s, end) - offset(s, old(self).cursor()) + 1,
                first + count <= s.len(),
                bytes <= token_len,
                chars_within(s, first as int, token_len as int) < 0 <==> chars_within(
                    s,
                    first + count,
                    token_len - bytes,
                ) < 0,
                chars_within(s, first as int, token_len as int) >= 0 ==> chars_within(
                    s,
                    first as int,
                    token_len as int,
                ) == count + chars_within(s, first + count, token_len - bytes),
            decreases token_len - bytes,
        {
            if first + count >= self.expr.len() {
                return None;
            }
            let width = width_of(self.expr[first + count]);
            if width > token_len - bytes {
                return None;
            }
            bytes = bytes + width;
            count = count + 1;
        }
        let word = word_between(&self.expr, first, first + count);
        if same_text(word.as_str(), "true") {
            Some(Token { kind: TokenKind::Literal(true), start, len: token_len })
        } else if same_text(word.as_str(), "false") {
            Some(Token { kind: TokenKind::Literal(false), start, len: token_len })
        } else {
            Some(Token { kind: TokenKind::Identifier(word), start, len: token_len })
        }
    }

    /// Reads the blanks that come next; says how many bytes they took.
    pub fn skip_whitespaces(&mut self) -> (count: usize)
        requires
            old(self).wf(),
        ensures
            final(self).wf(),
            final(self).dialect() == old(self).dialect(),
            final(self).source() == old(self).source(),
            final(self).cursor() == old(self).cursor() + run(
                &old(self).dialect().blanks(),
                old(self).source(),
                old(self).cursor(),
            ),
            count == final(self).position() - old(self).position(),
    {
        let blanks = Blanks { carriage_return: self.dialect.carriage_return };
        self.read_while(&blanks)
    }

    /// Reads on while the characters are accepted by `pred`; says how many
    /// bytes were read.
    pub fn take_while<F>(&mut self, pred: F) -> (count: usize) where F: Fn(char) -> bool
        requires
            old(self).wf(),
            pred.decides(),
        ensures
            final(self).wf(),
            final(self).dialect() == old(self).dialect(),
            final(self).source() == old(self).source(),
            final(self).cursor() == old(self).cursor() + run(
                &pred,
                old(self).source(),
                old(self).cursor(),
            ),
            count == final(self).position() - old(self).position(),
    {
        self.read_while(&pred)
    }

    /// Reads on while the characters are in `alphabet`; says how many bytes
    /// were read.
    fn read_while<P: Alphabet>(&mut self, alphabet: &P) -> (count: usize)
        requires
            old(self).wf(),
            alphabet.decides(),
        ensures
            final(self).wf(),
            final(self).dialect() == old(self).dialect(),
            final(self).source() == old(self).source(),
            final(self).cursor() == old(self).cursor() + run(
                alphabet,
                old(self).source(),
                old(self).cursor(),
            ),
            count == final(self).position() - old(self).position(),
            count == offset(old(self).source(), final(self).cursor()) - offset(
                old(self).source(),
                old(self).cursor(),
            ),
    {
        let from = self.pos;
        let (end, bytes) = run_end(alphabet, &self.expr, self.at, self.pos);
        proof {
            lemma_offset_grows(self.expr@, self.at as int, end as int);
        }
        self.at = end;
        self.pos = bytes;
        self.pos - from
    }
}

} // verus!
