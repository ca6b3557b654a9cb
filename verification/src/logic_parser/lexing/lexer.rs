//! The lexer: from source text to tokens, over an alphabet of the caller's
//! choice for the words.

use vstd::prelude::*;
use vstd::string::StringExecFns;
use crate::logic_parser::errors::{LexerError, LexerFault};
use crate::logic_parser::lexing::token::{Kind, Span, Token, TokenKind, TokenView};
use crate::text::{
    byte_len,
    lemma_byte_len_prefix,
    measured_chars,
    occurs_at,
    push_char,
    width_of,
};

verus! {

/// A set of characters that can be asked for its members.
pub trait Alphabet {
    /// The answers of `contains` can be relied on: the same character gets
    /// the same answer.
    spec fn decides(&self) -> bool;

    /// `c` is in the alphabet.
    spec fn has(&self, c: char) -> bool;

    /// Whether `c` is in the alphabet.
    fn contains(&self, c: char) -> (yes: bool)
        requires
            self.decides(),
        ensures
            yes == self.has(c),
    ;
}

/// A predicate on characters is the alphabet of those that it accepts.
impl<F: Fn(char) -> bool> Alphabet for F {
    open spec fn decides(&self) -> bool {
        &&& forall|c: char| call_requires(*self, (c,))
        &&& forall|c: char, a: bool, b: bool|
            call_ensures(*self, (c,), a) && call_ensures(*self, (c,), b) ==> a == b
    }

    open spec fn has(&self, c: char) -> bool {
        call_ensures(*self, (c,), true)
    }

    fn contains(&self, c: char) -> (yes: bool) {
        self(c)
    }
}

/// Unicode's `Alphabetic` property, as `char::is_alphabetic` reports it.
pub uninterp spec fn alphabetic(c: char) -> bool;

/// Unicode's numeric categories, as `char::is_numeric` reports them.
pub uninterp spec fn numeric(c: char) -> bool;

/// Calls `char::is_alphabetic`. Trusted: its answer is the property named
/// `alphabetic`.
#[verifier::external_body]
pub(crate) fn is_alphabetic(c: char) -> (yes: bool)
    ensures
        yes == alphabetic(c),
{
    c.is_alphabetic()
}

/// Calls `char::is_alphanumeric`. Trusted: as std documents it, a character
/// is alphanumeric exactly when it is alphabetic or numeric.
#[verifier::external_body]
pub(crate) fn is_alphanumeric(c: char) -> (yes: bool)
    ensures
        yes == (alphabetic(c) || numeric(c)),
{
    c.is_alphanumeric()
}

/// The alphabet of words unless another is given: letters, digits and `_`.
pub struct DefaultAlphabet;

/// The characters a word may start with unless others are given: letters and `_`.
pub struct DefaultStartAlphabet;

impl Alphabet for DefaultAlphabet {
    open spec fn decides(&self) -> bool {
        true
    }

    open spec fn has(&self, c: char) -> bool {
        alphabetic(c) || numeric(c) || c == '_'
    }

    fn contains(&self, c: char) -> (yes: bool) {
        is_alphanumeric(c) || c == '_'
    }
}

impl Alphabet for DefaultStartAlphabet {
    open spec fn decides(&self) -> bool {
        true
    }

    open spec fn has(&self, c: char) -> bool {
        alphabetic(c) || c == '_'
    }

    fn contains(&self, c: char) -> (yes: bool) {
        is_alphabetic(c) || c == '_'
    }
}

/// The characters that separate tokens: tab, space and carriage return.
pub struct Blank;

impl Alphabet for Blank {
    open spec fn decides(&self) -> bool {
        true
    }

    open spec fn has(&self, c: char) -> bool {
        c == '\t' || c == ' ' || c == '\r'
    }

    fn contains(&self, c: char) -> (yes: bool) {
        c == '\t' || c == ' ' || c == '\r'
    }
}

/// How many characters of `s`, from position `from` on, are in `alphabet`
/// without a break.
pub open spec fn run<P: Alphabet>(alphabet: &P, s: Seq<char>, from: int) -> nat
    decreases s.len() - from,
{
    if 0 <= from < s.len() && alphabet.has(s[from]) {
        1 + run(alphabet, s, from + 1)
    } else {
        0
    }
}

/// The place in bytes of the character position `at` of `s`.
pub open spec fn offset(s: Seq<char>, at: int) -> nat {
    byte_len(s.take(at))
}

/// The span in bytes of the characters of `s` from `from` up to `to`.
pub open spec fn span_of(s: Seq<char>, from: int, to: int) -> Span {
    Span { start: offset(s, from) as usize, end: offset(s, to) as usize }
}

/// The span of one byte at the character position `at`, where errors point.
pub open spec fn fault_span(s: Seq<char>, at: int) -> Span {
    Span { start: offset(s, at) as usize, end: (offset(s, at) + 1) as usize }
}

/// A word is a literal where it reads `true` or `false`, else an identifier.
pub open spec fn word_kind(word: Seq<char>) -> Kind {
    if word == "true"@ {
        Kind::Literal(true)
    } else if word == "false"@ {
        Kind::Literal(false)
    } else {
        Kind::Identifier(word)
    }
}

/// What the lexer says where `->` or `=>` was to come.
pub open spec fn implies_hint() -> Seq<char> {
    "expected one of the following: '=>', '->'"@
}

/// What the lexer says where `<->` or `<=>` was to come.
pub open spec fn iff_hint() -> Seq<char> {
    "expected one of the following: '<->', '<=>'"@
}

/// What stands at a place of the source.
pub enum Scan {
    /// Nothing but blanks up to the end.
    End,
    /// A token of `kind` over the characters from `from` up to `to`.
    Token { kind: Kind, from: int, to: int },
    /// No token.
    Fault { fault: LexerFault },
}

/// The token that begins with the character at `start`, which is no blank.
pub open spec fn scan_token<A: Alphabet, S: Alphabet>(
    alphabet: &A,
    start_alphabet: &S,
    s: Seq<char>,
    start: int,
) -> Scan {
    let c = s[start];
    if c == '~' || c == '!' {
        Scan::Token { kind: Kind::Not, from: start, to: start + 1 }
    } else if c == '(' {
        Scan::Token { kind: Kind::OpenParen, from: start, to: start + 1 }
    } else if c == ')' {
        Scan::Token { kind: Kind::CloseParen, from: start, to: start + 1 }
    } else if c == '&' {
        Scan::Token {
            kind: Kind::And,
            from: start,
            to: if occurs_at(s, "&&"@, start) {
                start + 2
            } else {
                start + 1
            },
        }
    } else if c == '|' {
        Scan::Token {
            kind: Kind::Or,
            from: start,
            to: if occurs_at(s, "||"@, start) {
                start + 2
            } else {
                start + 1
            },
        }
    } else if c == '=' || c == '-' {
        if occurs_at(s, "=>"@, start) || occurs_at(s, "->"@, start) {
            Scan::Token { kind: Kind::Implies, from: start, to: start + 2 }
        } else {
            Scan::Fault { fault: LexerFault::SyntaxError(implies_hint(), fault_span(s, start)) }
        }
    } else if c == '<' {
        if occurs_at(s, "<->"@, start) || occurs_at(s, "<=>"@, start) {
            Scan::Token { kind: Kind::IfAndOnlyIf, from: start, to: start + 3 }
        } else {
            Scan::Fault { fault: LexerFault::SyntaxError(iff_hint(), fault_span(s, start)) }
        }
    } else if start_alphabet.has(c) {
        let end = start + run(alphabet, s, start);
        Scan::Token { kind: word_kind(s.subrange(start, end)), from: start, to: end }
    } else {
        Scan::Fault { fault: LexerFault::UnknownToken(c, fault_span(s, start)) }
    }
}

/// What stands in `s` from position `from` on, blanks passed over.
pub open spec fn scan<A: Alphabet, S: Alphabet>(
    alphabet: &A,
    start_alphabet: &S,
    s: Seq<char>,
    from: int,
) -> Scan {
    let start = from + run(&Blank, s, from);
    if start >= s.len() {
        Scan::End
    } else {
        scan_token(alphabet, start_alphabet, s, start)
    }
}

/// `first` put in front of what follows it, where that is no error.
pub open spec fn prepend(
    first: Seq<TokenView>,
    rest: Result<Seq<TokenView>, LexerFault>,
) -> Result<Seq<TokenView>, LexerFault> {
    match rest {
        Ok(tokens) => Ok(first + tokens),
        Err(fault) => Err(fault),
    }
}

/// The tokens of `s` from position `from` on, or the first error.
pub open spec fn lexed_from<A: Alphabet, S: Alphabet>(
    alphabet: &A,
    start_alphabet: &S,
    s: Seq<char>,
    from: int,
) -> Result<Seq<TokenView>, LexerFault>
    decreases s.len() - from,
{
    match scan(alphabet, start_alphabet, s, from) {
        Scan::End => Ok(Seq::empty()),
        Scan::Fault { fault } => Err(fault),
        Scan::Token { kind, from: start, to } => {
            if from < to <= s.len() {
                prepend(
                    seq![TokenView { kind, span: span_of(s, start, to) }],
                    lexed_from(alphabet, start_alphabet, s, to),
                )
            } else {
                Ok(Seq::empty())
            }
        },
    }
}

/// The tokens of the source text `s`, or the first error in it.
pub open spec fn lexed<A: Alphabet, S: Alphabet>(
    alphabet: &A,
    start_alphabet: &S,
    s: Seq<char>,
) -> Result<Seq<TokenView>, LexerFault> {
    lexed_from(alphabet, start_alphabet, s, 0)
}

/// The tokens of a vector as plain values.
pub open spec fn token_views(tokens: Seq<Token>) -> Seq<TokenView> {
    tokens.map_values(|token: Token| token@)
}

/// A run ends within the text, on a character outside the alphabet, and
/// every character of it is in the alphabet.
pub proof fn lemma_run<P: Alphabet>(alphabet: &P, s: Seq<char>, from: int)
    requires
        0 <= from <= s.len(),
    ensures
        from + run(alphabet, s, from) <= s.len(),
        from + run(alphabet, s, from) < s.len() ==> !alphabet.has(
            s[from + run(alphabet, s, from)],
        ),
        forall|i: int| from <= i < from + run(alphabet, s, from) ==> alphabet.has(#[trigger] s[i]),
    decreases s.len() - from,
{
    if from < s.len() && alphabet.has(s[from]) {
        lemma_run(alphabet, s, from + 1);
    }
}

/// A run that has been followed for a while goes on from there.
proof fn lemma_run_split<P: Alphabet>(alphabet: &P, s: Seq<char>, from: int, mid: int)
    requires
        0 <= from <= mid <= s.len(),
        forall|i: int| from <= i < mid ==> alphabet.has(#[trigger] s[i]),
    ensures
        run(alphabet, s, from) == (mid - from) + run(alphabet, s, mid),
    decreases mid - from,
{
    if from < mid {
        assert(alphabet.has(s[from]));
        lemma_run_split(alphabet, s, from + 1, mid);
    }
}

/// Where the run of `alphabet` in `chars` from `at` ends, in characters and
/// in bytes, given the byte place `pos` of `at`.
pub(crate) fn run_end<P: Alphabet>(alphabet: &P, chars: &Vec<char>, at: usize, pos: usize) -> (end: (
    usize,
    usize,
))
    requires
        alphabet.decides(),
        at <= chars.len(),
        pos == offset(chars@, at as int),
        byte_len(chars@) <= usize::MAX,
    ensures
        end.0 == at + run(alphabet, chars@, at as int),
        end.0 <= chars.len(),
        end.1 == offset(chars@, end.0 as int),
{
    let mut i: usize = at;
    let mut bytes: usize = pos;
    while i < chars.len() && alphabet.contains(chars[i])
        invariant
            alphabet.decides(),
            at <= i <= chars.len(),
            bytes == offset(chars@, i as int),
            byte_len(chars@) <= usize::MAX,
            forall|j: int| at <= j < i ==> alphabet.has(#[trigger] chars@[j]),
        decreases chars.len() - i,
    {
        proof {
            lemma_byte_len_prefix(chars@, i as int);
            lemma_byte_len_prefix(chars@, i + 1);
        }
        bytes = bytes + width_of(chars[i]);
        i += 1;
    }
    proof {
        lemma_run_split(alphabet, chars@, at as int, i as int);
    }
    (i, bytes)
}

/// A lexer: the alphabet of its words, the alphabet of their first
/// characters, the source it reads and its place in it.
pub struct Lexer<A, S> {
    is_in_alphabet: A,
    is_in_start_chars_alphabet: S,
    src: Vec<char>,
    at: usize,
    pos: usize,
}

impl Lexer<DefaultAlphabet, DefaultStartAlphabet> {
    /// A lexer whose words are made of letters, digits and `_` and do not
    /// start with a digit. Its source is empty.
    pub fn new() -> (lexer: Self)
        ensures
            lexer.wf(),
            lexer.source() == Seq::<char>::empty(),
            lexer.cursor() == 0,
    {
        Lexer {
            is_in_alphabet: DefaultAlphabet,
            is_in_start_chars_alphabet: DefaultStartAlphabet,
            src: Vec::new(),
            at: 0,
            pos: 0,
        }
    }
}

impl<A: Fn(char) -> bool, S: Fn(char) -> bool> Lexer<A, S> {
    /// A lexer over the alphabets that two predicates accept, with an empty
    /// source. Every character that may start a word must be a character of
    /// words: a word of no characters would be read over and over. What a
    /// predicate answers is known to a caller only once it has answered, so
    /// a caller that has to show these conditions gives alphabets of its own
    /// to `over`.
    pub fn with_alphabet(alphabet: A, start_chars_alphabet: S) -> (lexer: Self)
        requires
            alphabet.decides(),
            start_chars_alphabet.decides(),
            forall|c: char| start_chars_alphabet.has(c) ==> alphabet.has(c),
        ensures
            lexer.wf(),
            *lexer.alphabet() == alphabet,
            *lexer.start_alphabet() == start_chars_alphabet,
            lexer.source() == Seq::<char>::empty(),
            lexer.cursor() == 0,
    {
        Lexer::over(alphabet, start_chars_alphabet)
    }
}

impl<A: Alphabet, S: Alphabet> Lexer<A, S> {
    /// A lexer over the given alphabets, with an empty source. Every
    /// character that may start a word must be a character of words.
    pub fn over(alphabet: A, start_chars_alphabet: S) -> (lexer: Self)
        requires
            alphabet.decides(),
            start_chars_alphabet.decides(),
            forall|c: char| start_chars_alphabet.has(c) ==> alphabet.has(c),
        ensures
            lexer.wf(),
            *lexer.alphabet() == alphabet,
            *lexer.start_alphabet() == start_chars_alphabet,
            lexer.source() == Seq::<char>::empty(),
            lexer.cursor() == 0,
    {
        Lexer {
            is_in_alphabet: alphabet,
            is_in_start_chars_alphabet: start_chars_alphabet,
            src: Vec::new(),
            at: 0,
            pos: 0,
        }
    }

    /// The alphabet of the words.
    pub closed spec fn alphabet(&self) -> &A {
        &self.is_in_alphabet
    }

    /// The alphabet of the first character of a word.
    pub closed spec fn start_alphabet(&self) -> &S {
        &self.is_in_start_chars_alphabet
    }

    /// The source text.
    pub closed spec fn source(&self) -> Seq<char> {
        self.src@
    }

    /// How many characters of the source have been read.
    pub closed spec fn cursor(&self) -> int {
        self.at as int
    }

    /// How many bytes of the source have been read.
    pub closed spec fn position(&self) -> int {
        self.pos as int
    }

    /// The lexer is in order: its alphabets can be relied on, a character
    /// that starts a word is a character of words, and its place lies in
    /// the source.
    pub closed spec fn wf(&self) -> bool {
        &&& self.is_in_alphabet.decides()
        &&& self.is_in_start_chars_alphabet.decides()
        &&& forall|c: char| self.is_in_start_chars_alphabet.has(c) ==> self.is_in_alphabet.has(c)
        &&& self.at <= self.src.len()
        &&& self.pos == offset(self.src@, self.at as int)
        &&& byte_len(self.src@) <= usize::MAX
    }

    /// Takes `src` as the source and goes to its beginning.
    pub fn load(&mut self, src: &str)
        requires
            old(self).wf(),
        ensures
            final(self).wf(),
            final(self).alphabet() == old(self).alphabet(),
            final(self).start_alphabet() == old(self).start_alphabet(),
            final(self).source() == src@,
            final(self).cursor() == 0,
    {
        self.src = measured_chars(src);
        self.at = 0;
        self.pos = 0;
        proof {
            assert(self.src@.take(0) =~= Seq::<char>::empty());
        }
    }

    /// The tokens of `src`, or the first error in it.
    pub fn tokenize(&mut self, src: &str) -> (result: Result<Vec<Token>, LexerError>)
        requires
            old(self).wf(),
        ensures
            final(self).wf(),
            final(self).alphabet() == old(self).alphabet(),
            final(self).start_alphabet() == old(self).start_alphabet(),
            final(self).source() == src@,
            match result {
                Ok(tokens) => lexed(old(self).alphabet(), old(self).start_alphabet(), src@) == Ok::<
                    Seq<TokenView>,
                    LexerFault,
                >(token_views(tokens@)),
                Err(error) => lexed(old(self).alphabet(), old(self).start_alphabet(), src@) == Err::<
                    Seq<TokenView>,
                    LexerFault,
                >(error@),
            },
    {
        let mut tokens: Vec<Token> = Vec::new();
        self.load(src);
        proof {
            assert(token_views(tokens@) =~= Seq::<TokenView>::empty());
        }
        loop
            invariant
                self.wf(),
                self.alphabet() == old(self).alphabet(),
                self.start_alphabet() == old(self).start_alphabet(),
                self.source() == src@,
                lexed(self.alphabet(), self.start_alphabet(), src@) == prepend(
                    token_views(tokens@),
                    lexed_from(self.alphabet(), self.start_alphabet(), src@, self.cursor()),
                ),
            decreases self.source().len() - self.cursor(),
        {
            let ghost before = self.cursor();
            let ghost done = token_views(tokens@);
            match self.next_token() {
                Err(error) => {
                    return Err(error);
                },
                Ok(None) => {
                    proof {
                        assert(done + Seq::<TokenView>::empty() =~= done);
                    }
                    return Ok(tokens);
                },
                Ok(Some(token)) => {
                    tokens.push(token);
                    proof {
                        let rest = lexed_from(
                            self.alphabet(),
                            self.start_alphabet(),
                            src@,
                            self.cursor(),
                        );
                        assert(token_views(tokens@) =~= done.push(token@));
                        match rest {
                            Ok(more) => {
                                assert(done + (seq![token@] + more) =~= done.push(token@) + more);
                            },
                            Err(_) => {},
                        }
                    }
                },
            }
        }
    }

    /// The next token of the source, `None` at its end, or the error that
    /// stands in its place.
    pub fn next_token(&mut self) -> (result: Result<Option<Token>, LexerError>)
        requires
            old(self).wf(),
        ensures
            final(self).wf(),
            final(self).alphabet() == old(self).alphabet(),
            final(self).start_alphabet() == old(self).start_alphabet(),
            final(self).source() == old(self).source(),
            match scan(
                old(self).alphabet(),
                old(self).start_alphabet(),
                old(self).source(),
                old(self).cursor(),
            ) {
                Scan::End => result matches Ok(None),
                Scan::Fault { fault } => result matches Err(error) && error@ == fault,
                Scan::Token { kind, from, to } => {
                    &&& result matches Ok(Some(token))
                    &&& token@ == TokenView { kind, span: span_of(old(self).source(), from, to) }
                    &&& old(self).cursor() < to <= old(self).source().len()
                    &&& final(self).cursor() == to
                },
            },
    {
        self.skip_whitespaces();
        let start = self.pos;
        let ghost from = self.cursor();
        let ghost s = self.src@;
        proof {
            lemma_run(&Blank, s, old(self).cursor());
            lemma_byte_len_prefix(s, from);
            if from < s.len() {
                lemma_byte_len_prefix(s, from + 1);
            }
        }
        let c = match self.peek_char() {
            Some(c) => c,
            None => {
                return Ok(None);
            },
        };
        proof {
            reveal_strlit("&&");
            reveal_strlit("||");
            reveal_strlit("=>");
            reveal_strlit("->");
            reveal_strlit("<->");
            reveal_strlit("<=>");
        }
        let kind = if c == '~' || c == '!' {
            self.consume();
            TokenKind::Not
        } else if c == '(' {
            self.consume();
            TokenKind::OpenParen
        } else if c == ')' {
            self.consume();
            TokenKind::CloseParen
        } else if c == '&' {
            if self.next_matches("&&") {
                self.skip(2);
            } else {
                self.consume();
            }
            TokenKind::And
        } else if c == '|' {
            if self.next_matches("||") {
                self.skip(2);
            } else {
                self.consume();
            }
            TokenKind::Or
        } else if c == '=' || c == '-' {
            if self.next_matches("=>") || self.next_matches("->") {
                self.skip(2);
                TokenKind::Implies
            } else {
                return Err(
                    LexerError::SyntaxError(
                        String::from_str("expected one of the following: '=>', '->'"),
                        Span { start: self.pos, end: self.pos + 1 },
                    ),
                );
            }
        } else if c == '<' {
            if self.next_matches("<->") || self.next_matches("<=>") {
                self.skip(3);
                TokenKind::IfAndOnlyIf
            } else {
                return Err(
                    LexerError::SyntaxError(
                        String::from_str("expected one of the following: '<->', '<=>'"),
                        Span { start: self.pos, end: self.pos + 1 },
                    ),
                );
            }
        } else if self.is_in_start_chars_alphabet.contains(c) {
            proof {
                assert(self.is_in_alphabet.has(s[from]));
            }
            self.next_word()
        } else {
            return Err(LexerError::UnknownToken(c, Span { start, end: start + 1 }));
        };
        Ok(Some(Token { kind, span: Span { start, end: self.pos } }))
    }

    /// Reads one character, if there is one.
    pub fn consume(&mut self) -> (next: Option<char>)
        requires
            old(self).wf(),
        ensures
            final(self).wf(),
            final(self).alphabet() == old(self).alphabet(),
            final(self).start_alphabet() == old(self).start_alphabet(),
            final(self).source() == old(self).source(),
            old(self).cursor() < old(self).source().len() ==> next == Some(
                old(self).source()[old(self).cursor()],
            ) && final(self).cursor() == old(self).cursor() + 1,
            old(self).cursor() >= old(self).source().len() ==> next is None && final(self).cursor()
                == old(self).cursor(),
    {
        if self.at < self.src.len() {
            let c = self.src[self.at];
            proof {
                lemma_byte_len_prefix(self.src@, self.at as int);
                lemma_byte_len_prefix(self.src@, self.at + 1);
            }
            self.pos = self.pos + width_of(c);
            self.at = self.at + 1;
            Some(c)
        } else {
            None
        }
    }

    /// Reads `n` characters, or as many as are left.
    pub fn skip(&mut self, n: usize)
        requires
            old(self).wf(),
        ensures
            final(self).wf(),
            final(self).alphabet() == old(self).alphabet(),
            final(self).start_alphabet() == old(self).start_alphabet(),
            final(self).source() == old(self).source(),
            final(self).cursor() == if old(self).cursor() + n <= old(self).source().len() {
                old(self).cursor() + n
            } else {
                old(self).source().len() as int
            },
    {
        let mut done: usize = 0;
        while done < n
            invariant
                self.wf(),
                self.alphabet() == old(self).alphabet(),
                self.start_alphabet() == old(self).start_alphabet(),
                self.source() == old(self).source(),
                done <= n,
                self.cursor() == if old(self).cursor() + done <= old(self).source().len() {
                    old(self).cursor() + done
                } else {
                    old(self).source().len() as int
                },
            decreases n - done,
        {
            self.consume();
            done += 1;
        }
    }

    /// Whether the source goes on with `to_match`.
    pub fn next_matches(&self, to_match: &str) -> (yes: bool)
        requires
            self.wf(),
        ensures
            yes == occurs_at(self.source(), to_match@, self.cursor()),
    {
        let wanted = crate::text::chars_of(to_match);
        crate::text::matches_at(&self.src, &wanted, self.at)
    }

    /// The next character of the source, if there is one. Nothing is read.
    pub fn peek_char(&self) -> (next: Option<char>)
        requires
            self.wf(),
        ensures
            next == if self.cursor() < self.source().len() {
                Some(self.source()[self.cursor()])
            } else {
                None
            },
    {
        if self.at < self.src.len() {
            Some(self.src[self.at])
        } else {
            None
        }
    }

    /// Reads a word: a literal where it reads `true` or `false`, else an
    /// identifier.
    fn next_word(&mut self) -> (kind: TokenKind)
        requires
            old(self).wf(),
        ensures
            final(self).wf(),
            final(self).alphabet() == old(self).alphabet(),
            final(self).start_alphabet() == old(self).start_alphabet(),
            final(self).source() == old(self).source(),
            final(self).cursor() == old(self).cursor() + run(
                old(self).alphabet(),
                old(self).source(),
                old(self).cursor(),
            ),
            kind@ == word_kind(old(self).source().subrange(old(self).cursor(), final(self).cursor())),
    {
        let start = self.at;
        let (end, bytes) = run_end(&self.is_in_alphabet, &self.src, self.at, self.pos);
        self.at = end;
        self.pos = bytes;
        let word = word_between(&self.src, start, end);
        if crate::text::same_text(word.as_str(), "true") {
            TokenKind::Literal(true)
        } else if crate::text::same_text(word.as_str(), "false") {
            TokenKind::Literal(false)
        } else {
            TokenKind::Identifier(word)
        }
    }

    /// Reads the blanks that come next; says how many bytes they took.
    pub fn skip_whitespaces(&mut self) -> (count: usize)
        requires
            old(self).wf(),
        ensures
            final(self).wf(),
            final(self).alphabet() == old(self).alphabet(),
            final(self).start_alphabet() == old(self).start_alphabet(),
            final(self).source() == old(self).source(),
            final(self).cursor() == old(self).cursor() + run(
                &Blank,
                old(self).source(),
                old(self).cursor(),
            ),
            count == final(self).position() - old(self).position(),
    {
        self.read_while(&Blank)
    }

    /// Reads on while the characters are accepted by `pred`; says how many
    /// bytes were read.
    pub fn take_while<F>(&mut self, pred: F) -> (count: usize) where F: Fn(char) -> bool
        requires
            old(self).wf(),
            pred.decides(),
        ensures
            final(self).wf(),
            final(self).alphabet() == old(self).alphabet(),
            final(self).start_alphabet() == old(self).start_alphabet(),
            final(self).source() == old(self).source(),
            final(self).cursor() == old(self).cursor() + run(
                &pred,
                old(self).source(),
                old(self).cursor(),
            ),
            count == final(self).position() - old(self).position(),
    {
        self.read_while(&pred)
    }

    /// Reads on while the characters are in `alphabet`; says how many bytes
    /// were read.
    fn read_while<P: Alphabet>(&mut self, alphabet: &P) -> (count: usize)
        requires
            old(self).wf(),
            alphabet.decides(),
        ensures
            final(self).wf(),
            final(self).alphabet() == old(self).alphabet(),
            final(self).start_alphabet() == old(self).start_alphabet(),
            final(self).source() == old(self).source(),
            final(self).cursor() == old(self).cursor() + run(
                alphabet,
                old(self).source(),
                old(self).cursor(),
            ),
            count == final(self).position() - old(self).position(),
    {
        let from = self.pos;
        let (end, bytes) = run_end(alphabet, &self.src, self.at, self.pos);
        proof {
            lemma_offset_grows(self.src@, self.at as int, end as int);
        }
        self.at = end;
        self.pos = bytes;
        self.pos - from
    }
}

/// A later place lies at no fewer bytes.
pub proof fn lemma_offset_grows(s: Seq<char>, from: int, to: int)
    requires
        0 <= from <= to <= s.len(),
    ensures
        offset(s, from) <= offset(s, to),
    decreases to - from,
{
    if from < to {
        lemma_offset_grows(s, from, to - 1);
        lemma_byte_len_prefix(s, to - 1);
    }
}

/// The characters of `chars` from `from` up to `to` as a string.
pub(crate) fn word_between(chars: &Vec<char>, from: usize, to: usize) -> (word: String)
    requires
        from <= to <= chars.len(),
    ensures
        word@ == chars@.subrange(from as int, to as int),
{
    let mut word = String::new();
    let mut i: usize = from;
    while i < to
        invariant
            from <= i <= to <= chars.len(),
            word@ == chars@.subrange(from as int, i as int),
        decreases to - i,
    {
        push_char(&mut word, chars[i]);
        proof {
            assert(chars@.subrange(from as int, i + 1) =~= chars@.subrange(
                from as int,
                i as int,
            ).push(chars@[i as int]));
        }
        i += 1;
    }
    proof {
        assert(chars@.subrange(from as int, from as int) =~= Seq::<char>::empty());
    }
    word
}

} // verus!
