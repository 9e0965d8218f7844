//! The hand-written scanner for SafeLang source text: it turns a source
//! string into a token stream, tracking 1-based line and column positions,
//! and closes every stream with an end-of-input token.

use vstd::prelude::*;
use vstd::string::StrSliceExecFns;

use crate::strutil::push_char;
use crate::strutil::str_copy;

verus! {

/// The count of leading characters that are not `stop`.
pub open spec fn spec_take_non(s: Seq<char>, stop: char) -> nat
    decreases s.len(),
{
    if s.len() == 0 {
        0
    } else if s[0] == stop {
        0
    } else {
        1 + spec_take_non(s.drop_first(), stop)
    }
}

/// The run never reaches past the end, misses `stop` throughout, and stops
/// exactly on `stop` when one is there.
pub proof fn lemma_take_non(s: Seq<char>, stop: char)
    ensures
        spec_take_non(s, stop) <= s.len(),
        forall|j: int| 0 <= j < spec_take_non(s, stop) ==> s[j] != stop,
        spec_take_non(s, stop) < s.len() ==> s[spec_take_non(s, stop) as int] == stop,
    decreases s.len(),
{
    if s.len() > 0 && s[0] != stop {
        lemma_take_non(s.drop_first(), stop);
        assert forall|j: int| 0 <= j < spec_take_non(s, stop) implies s[j] != stop by {
            if j > 0 {
                assert(s.drop_first()[j - 1] == s[j]);
            }
        }
    }
}

/// Whether the character can begin an identifier.
pub open spec fn spec_alpha(c: char) -> bool {
    ('a' <= c && c <= 'z') || ('A' <= c && c <= 'Z') || c == '_'
}

/// Whether the character is a decimal digit.
pub open spec fn spec_digit_char(c: char) -> bool {
    '0' <= c && c <= '9'
}

/// Whether the character can continue an identifier.
pub open spec fn spec_alnum(c: char) -> bool {
    spec_alpha(c) || spec_digit_char(c)
}

/// The count of leading identifier characters.
pub open spec fn spec_alnum_run(s: Seq<char>) -> nat
    decreases s.len(),
{
    if s.len() == 0 {
        0
    } else if spec_alnum(s[0]) {
        1 + spec_alnum_run(s.drop_first())
    } else {
        0
    }
}

/// The run never reaches past the end, is identifier characters throughout,
/// and stops exactly at the first other character.
pub proof fn lemma_alnum_run(s: Seq<char>)
    ensures
        spec_alnum_run(s) <= s.len(),
        forall|j: int| 0 <= j < spec_alnum_run(s) ==> spec_alnum(s[j]),
        spec_alnum_run(s) < s.len() ==> !spec_alnum(s[spec_alnum_run(s) as int]),
    decreases s.len(),
{
    if s.len() > 0 && spec_alnum(s[0]) {
        lemma_alnum_run(s.drop_first());
        assert forall|j: int| 0 <= j < spec_alnum_run(s) implies spec_alnum(s[j]) by {
            if j > 0 {
                assert(s.drop_first()[j - 1] == s[j]);
            }
        }
    }
}

/// The count of leading digits.
pub open spec fn spec_digit_run(s: Seq<char>) -> nat
    decreases s.len(),
{
    if s.len() == 0 {
        0
    } else if spec_digit_char(s[0]) {
        1 + spec_digit_run(s.drop_first())
    } else {
        0
    }
}

/// The run never reaches past the end, is digits throughout, and stops
/// exactly at the first non-digit.
pub proof fn lemma_digit_run(s: Seq<char>)
    ensures
        spec_digit_run(s) <= s.len(),
        forall|j: int| 0 <= j < spec_digit_run(s) ==> spec_digit_char(s[j]),
        spec_digit_run(s) < s.len() ==> !spec_digit_char(s[spec_digit_run(s) as int]),
    decreases s.len(),
{
    if s.len() > 0 && spec_digit_char(s[0]) {
        lemma_digit_run(s.drop_first());
        assert forall|j: int| 0 <= j < spec_digit_run(s) implies spec_digit_char(s[j]) by {
            if j > 0 {
                assert(s.drop_first()[j - 1] == s[j]);
            }
        }
    }
}

/// The characters of a number literal: digits, and a decimal part when a
/// dot is followed by another digit.
pub open spec fn spec_number_len(s: Seq<char>) -> nat {
    let d = spec_digit_run(s);
    if d < s.len() && s[d as int] == '.' && d + 1 < s.len() && spec_digit_char(s[d as int + 1]) {
        d + 1 + spec_digit_run(s.skip(d as int + 1))
    } else {
        d
    }
}

/// The token type of an identifier lexeme: its keyword, or `Identifier`.
pub open spec fn spec_keyword_type(lexeme: Seq<char>) -> TokenType {
    if lexeme == "let"@ {
        TokenType::Let
    } else if lexeme == "fn"@ {
        TokenType::Fn
    } else if lexeme == "class"@ {
        TokenType::Class
    } else if lexeme == "if"@ {
        TokenType::If
    } else if lexeme == "else"@ {
        TokenType::Else
    } else if lexeme == "while"@ {
        TokenType::While
    } else if lexeme == "for"@ {
        TokenType::For
    } else if lexeme == "in"@ {
        TokenType::In
    } else if lexeme == "return"@ {
        TokenType::Return
    } else if lexeme == "try"@ {
        TokenType::Try
    } else if lexeme == "catch"@ {
        TokenType::Catch
    } else if lexeme == "true"@ {
        TokenType::True
    } else if lexeme == "false"@ {
        TokenType::False
    } else {
        TokenType::Identifier
    }
}

/// What one scan step over a nonempty rest of the source does: the token it
/// produces (none for whitespace and comments) and how many characters it
/// consumes, always at least one.
pub open spec fn spec_tok_one(s: Seq<char>) -> (Option<TokenType>, nat) {
    if s.len() == 0 {
        (None, 1)
    } else {
        let c = s[0];
        if c == '(' {
            (Some(TokenType::LeftParen), 1)
        } else if c == ')' {
            (Some(TokenType::RightParen), 1)
        } else if c == '{' {
            (Some(TokenType::LeftBrace), 1)
        } else if c == '}' {
            (Some(TokenType::RightBrace), 1)
        } else if c == ',' {
            (Some(TokenType::Comma), 1)
        } else if c == '.' {
            (Some(TokenType::Dot), 1)
        } else if c == ':' {
            (Some(TokenType::Colon), 1)
        } else if c == ';' {
            (Some(TokenType::Semicolon), 1)
        } else if c == '+' {
            (Some(TokenType::Plus), 1)
        } else if c == '-' {
            if s.len() > 1 && s[1] == '>' {
                (Some(TokenType::Arrow), 2)
            } else {
                (Some(TokenType::Minus), 1)
            }
        } else if c == '*' {
            (Some(TokenType::Star), 1)
        } else if c == '/' {
            if s.len() > 1 && s[1] == '/' {
                (None, 2 + spec_take_non(s.skip(2), '\n'))
            } else {
                (Some(TokenType::Slash), 1)
            }
        } else if c == '=' {
            if s.len() > 1 && s[1] == '=' {
                (Some(TokenType::EqualEqual), 2)
            } else {
                (Some(TokenType::Equal), 1)
            }
        } else if c == '!' {
            if s.len() > 1 && s[1] == '=' {
                (Some(TokenType::NotEqual), 2)
            } else {
                (Some(TokenType::Error), 1)
            }
        } else if c == '<' {
            if s.len() > 1 && s[1] == '=' {
                (Some(TokenType::LessEqual), 2)
            } else {
                (Some(TokenType::Less), 1)
            }
        } else if c == '>' {
            if s.len() > 1 && s[1] == '=' {
                (Some(TokenType::GreaterEqual), 2)
            } else {
                (Some(TokenType::Greater), 1)
            }
        } else if c == ' ' || c == '\r' || c == '\t' || c == '\n' {
            (None, 1)
        } else if c == '"' {
            let q = spec_take_non(s.skip(1), '"');
            if 1 + q >= s.len() {
                (Some(TokenType::Error), s.len())
            } else {
                (Some(TokenType::String), q + 2)
            }
        } else if spec_digit_char(c) {
            (Some(TokenType::Number), spec_number_len(s))
        } else if spec_alpha(c) {
            (
                Some(spec_keyword_type(s.subrange(0, spec_alnum_run(s) as int))),
                spec_alnum_run(s),
            )
        } else {
            (Some(TokenType::Error), 1)
        }
    }
}

/// One scan step always consumes between one character and the whole rest.
pub proof fn lemma_tok_one_used(s: Seq<char>)
    requires
        s.len() > 0,
    ensures
        1 <= spec_tok_one(s).1 <= s.len(),
{
    let c = s[0];
    if c == '/' && s.len() > 1 && s[1] == '/' {
        lemma_take_non(s.skip(2), '\n');
    } else if c == '"' {
        lemma_take_non(s.skip(1), '"');
    } else if spec_digit_char(c) {
        lemma_digit_run(s);
        let d = spec_digit_run(s);
        if d < s.len() && s[d as int] == '.' && d + 1 < s.len() && spec_digit_char(
            s[d as int + 1],
        ) {
            lemma_digit_run(s.skip(d as int + 1));
        }
    } else if spec_alpha(c) {
        lemma_alnum_run(s);
    }
}

/// The token types of a token list, in order.
pub open spec fn spec_token_types(tokens: Seq<Token>) -> Seq<TokenType> {
    tokens.map_values(|t: Token| t.token_type)
}

/// The token types a source scans to, end-of-input token not included.
pub open spec fn spec_scan_types(s: Seq<char>) -> Seq<TokenType>
    decreases s.len(),
    via spec_scan_types_decreases
{
    if s.len() == 0 {
        Seq::empty()
    } else {
        let (tok, used) = spec_tok_one(s);
        let rest = spec_scan_types(s.skip(used as int));
        match tok {
            Some(ty) => seq![ty] + rest,
            None => rest,
        }
    }
}

#[via_fn]
proof fn spec_scan_types_decreases(s: Seq<char>) {
    if s.len() > 0 {
        lemma_tok_one_used(s);
    }
}

/// Every kind of token the scanner can produce.
#[derive(Clone, Copy, Debug, PartialEq, Eq, Structural)]
pub enum TokenType {
    Let,
    Fn,
    Class,
    If,
    Else,
    While,
    For,
    In,
    Return,
    Try,
    Catch,
    Identifier,
    Number,
    String,
    True,
    False,
    Plus,
    Minus,
    Star,
    Slash,
    Equal,
    EqualEqual,
    NotEqual,
    Greater,
    GreaterEqual,
    Less,
    LessEqual,
    LeftParen,
    RightParen,
    LeftBrace,
    RightBrace,
    Colon,
    Semicolon,
    Comma,
    Dot,
    Arrow,
    EOF,
    Error,
}

/// One scanned token with its text and position.
#[derive(Clone, Debug)]
pub struct Token {
    pub token_type: TokenType,
    pub lexeme: String,
    pub line: usize,
    pub column: usize,
}

/// The scanner state: the source as characters, the tokens produced so far,
/// and the bounds of the lexeme in progress.
#[derive(Debug)]
pub struct Lexer {
    source: Vec<char>,
    tokens: Vec<Token>,
    start: usize,
    current: usize,
    line: usize,
    column: usize,
}

impl Lexer {
    /// The scanner's cursor stays inside the source, behind the lexeme start.
    pub closed spec fn wf(&self) -> bool {
        self.start <= self.current <= self.source@.len()
    }

    /// The tokens produced so far.
    pub closed spec fn spec_tokens(&self) -> Seq<Token> {
        self.tokens@
    }

    /// The source under the scanner, as characters.
    pub closed spec fn spec_source(&self) -> Seq<char> {
        self.source@
    }

    /// Whether the scanner still stands at the beginning of its source.
    pub closed spec fn at_start(&self) -> bool {
        self.start == 0 && self.current == 0
    }

    /// A scanner over the given source, positioned at its beginning.
    pub fn new(source: String) -> (r: Lexer)
        ensures
            r.wf(),
            r.spec_tokens().len() == 0,
            r.spec_source() == source@,
            r.at_start(),
    {
        let text = source.as_str();
        let len: usize = text.unicode_len();
        let mut chars: Vec<char> = Vec::new();
        let mut i: usize = 0;
        while i < len
            invariant
                i <= len,
                len == text@.len(),
                chars@.len() == i,
                forall|j: int| 0 <= j < i ==> chars@[j] == text@[j],
            decreases len - i,
        {
            chars.push(text.get_char(i));
            i = i + 1;
        }
        proof {
            assert(chars@ =~= text@);
        }
        Lexer { source: chars, tokens: Vec::new(), start: 0, current: 0, line: 1, column: 1 }
    }

    /// Whether the whole source has been consumed.
    fn is_at_end(&self) -> (r: bool)
        ensures
            r == (self.current >= self.source@.len()),
    {
        self.current >= self.source.len()
    }

    /// The character under the cursor, or the nul character at the end.
    fn peek(&self) -> (r: char)
        requires
            self.wf(),
        ensures
            self.current < self.source@.len() ==> r == self.source@[self.current as int],
            self.current >= self.source@.len() ==> r == '\0',
    {
        if self.is_at_end() {
            return '\0';
        }
        self.source[self.current]
    }

    /// The character after the cursor, or the nul character past the end.
    fn peek_next(&self) -> (r: char)
        requires
            self.wf(),
        ensures
            self.current + 1 < self.source@.len() ==> r == self.source@[self.current + 1],
            self.current + 1 >= self.source@.len() ==> r == '\0',
    {
        let n = self.source.len();
        if self.current >= n {
            return '\0';
        }
        if self.current + 1 >= n {
            return '\0';
        }
        self.source[self.current + 1]
    }

    /// Consumes and returns the character under the cursor.
    fn advance(&mut self) -> (r: char)
        requires
            old(self).wf(),
            old(self).current < old(self).source@.len(),
        ensures
            final(self).wf(),
            r == old(self).source@[old(self).current as int],
            final(self).current == old(self).current + 1,
            final(self).source == old(self).source,
            final(self).tokens == old(self).tokens,
            final(self).start == old(self).start,
    {
        let n = self.source.len();
        assert(self.current < n);
        let c = self.source[self.current];
        self.current = self.current + 1;
        if self.column < usize::MAX {
            self.column = self.column + 1;
        }
        c
    }

    /// Consumes the cursor character only when it is the expected one.
    fn match_char(&mut self, expected: char) -> (r: bool)
        requires
            old(self).wf(),
        ensures
            final(self).wf(),
            final(self).source == old(self).source,
            final(self).tokens == old(self).tokens,
            final(self).start == old(self).start,
            r ==> final(self).current == old(self).current + 1,
            !r ==> final(self).current == old(self).current,
            r == (old(self).current < old(self).source@.len() && old(self).source@[old(
                self,
            ).current as int] == expected),
    {
        let n = self.source.len();
        if self.current >= n {
            return false;
        }
        if self.source[self.current] != expected {
            return false;
        }
        self.current = self.current + 1;
        if self.column < usize::MAX {
            self.column = self.column + 1;
        }
        true
    }

    /// Whether the character can begin an identifier.
    fn is_alpha(&self, c: char) -> (r: bool)
        ensures
            r == (('a' <= c && c <= 'z') || ('A' <= c && c <= 'Z') || c == '_'),
    {
        (c >= 'a' && c <= 'z') || (c >= 'A' && c <= 'Z') || c == '_'
    }

    /// Whether the character is a decimal digit.
    fn is_digit(&self, c: char) -> (r: bool)
        ensures
            r == ('0' <= c && c <= '9'),
    {
        c >= '0' && c <= '9'
    }

    /// Whether the character can continue an identifier.
    fn is_alphanumeric(&self, c: char) -> (r: bool)
        ensures
            r == (('a' <= c && c <= 'z') || ('A' <= c && c <= 'Z') || c == '_' || ('0' <= c && c
                <= '9')),
    {
        self.is_alpha(c) || self.is_digit(c)
    }

    /// Records the lexeme in progress as one token of the given type.
    fn add_token(&mut self, token_type: TokenType)
        requires
            old(self).wf(),
        ensures
            final(self).wf(),
            final(self).source == old(self).source,
            final(self).current == old(self).current,
            final(self).start == old(self).start,
            final(self).tokens@.len() == old(self).tokens@.len() + 1,
            final(self).tokens@.drop_last() == old(self).tokens@,
            final(self).tokens@.last().token_type == token_type,
            final(self).tokens@.last().lexeme@ == old(self).source@.subrange(
                old(self).start as int,
                old(self).current as int,
            ),
    {
        let mut lexeme = String::new();
        let mut i: usize = self.start;
        while i < self.current
            invariant
                self.start <= i <= self.current,
                self.wf(),
                lexeme@ =~= self.source@.subrange(self.start as int, i as int),
            decreases self.current - i,
        {
            push_char(&mut lexeme, self.source[i]);
            proof {
                assert(lexeme@ =~= self.source@.subrange(self.start as int, i + 1));
            }
            i = i + 1;
        }
        let consumed: usize = self.current - self.start;
        let column: usize = if self.column > consumed {
            self.column - consumed
        } else {
            1
        };
        self.tokens.push(Token { token_type, lexeme, line: self.line, column });
        proof {
            assert(self.tokens@.drop_last() =~= old(self).tokens@);
        }
    }

    /// Records the lexeme in progress as an error token carrying the message.
    fn add_token_error(&mut self, message: &str)
        requires
            old(self).wf(),
        ensures
            final(self).wf(),
            final(self).source == old(self).source,
            final(self).current == old(self).current,
            final(self).start == old(self).start,
            final(self).tokens@.len() == old(self).tokens@.len() + 1,
            final(self).tokens@.drop_last() == old(self).tokens@,
            final(self).tokens@.last().token_type == TokenType::Error,
    {
        let mut lexeme = str_copy(message);
        lexeme.append(": ");
        let mut i: usize = self.start;
        while i < self.current
            invariant
                self.start <= i <= self.current,
                self.wf(),
            decreases self.current - i,
        {
            push_char(&mut lexeme, self.source[i]);
            i = i + 1;
        }
        let consumed: usize = self.current - self.start;
        let column: usize = if self.column > consumed {
            self.column - consumed
        } else {
            1
        };
        self.tokens.push(Token { token_type: TokenType::Error, lexeme, line: self.line, column });
        proof {
            assert(self.tokens@.drop_last() =~= old(self).tokens@);
        }
    }

    /// Scans an identifier or keyword starting at the lexeme start.
    fn identifier(&mut self)
        requires
            old(self).wf(),
        ensures
            final(self).wf(),
            final(self).source == old(self).source,
            final(self).start == old(self).start,
            final(self).current == old(self).current + spec_alnum_run(
                old(self).source@.skip(old(self).current as int),
            ),
            final(self).tokens@.len() == old(self).tokens@.len() + 1,
            final(self).tokens@.drop_last() == old(self).tokens@,
            final(self).tokens@.last().token_type == spec_keyword_type(
                old(self).source@.subrange(old(self).start as int, final(self).current as int),
            ),
            final(self).tokens@.last().token_type != TokenType::EOF,
    {
        loop
            invariant
                self.wf(),
                self.source == old(self).source,
                self.current >= old(self).current,
                self.start == old(self).start,
                self.tokens == old(self).tokens,
                forall|j: int|
                    old(self).current <= j < self.current ==> spec_alnum(
                        #[trigger] self.source@[j],
                    ),
            ensures
                self.wf() && self.source == old(self).source && self.current >= old(self).current
                    && self.start == old(self).start && self.tokens == old(self).tokens,
                forall|j: int|
                    old(self).current <= j < self.current ==> spec_alnum(
                        #[trigger] self.source@[j],
                    ),
                self.current >= self.source@.len() || !spec_alnum(
                    self.source@[self.current as int],
                ),
            decreases self.source@.len() - self.current,
        {
            let c = self.peek();
            if !self.is_alphanumeric(c) {
                break ;
            }
            self.advance();
        }
        proof {
            let suffix = old(self).source@.skip(old(self).current as int);
            lemma_alnum_run(suffix);
            let run = spec_alnum_run(suffix);
            let consumed = self.current - old(self).current;
            assert forall|j: int| 0 <= j < consumed implies spec_alnum(suffix[j]) by {
                assert(suffix[j] == self.source@[old(self).current + j]);
            }
            if consumed < suffix.len() {
                assert(suffix[consumed as int] == self.source@[self.current as int]);
            }
            assert(run == consumed) by {
                if run < consumed {
                    assert(spec_alnum(suffix[run as int]));
                }
                if run > consumed {
                    assert(spec_alnum(suffix[consumed as int]));
                }
            }
        }
        let token_type = self.keyword_type();
        self.add_token(token_type);
    }

    /// The keyword type of the lexeme in progress, or `Identifier`.
    fn keyword_type(&self) -> (r: TokenType)
        requires
            self.wf(),
        ensures
            r == spec_keyword_type(
                self.source@.subrange(self.start as int, self.current as int),
            ),
            r != TokenType::EOF,
    {
        let mut text = String::new();
        let mut i: usize = self.start;
        while i < self.current
            invariant
                self.start <= i <= self.current,
                self.wf(),
                text@ =~= self.source@.subrange(self.start as int, i as int),
            decreases self.current - i,
        {
            push_char(&mut text, self.source[i]);
            proof {
                assert(text@ =~= self.source@.subrange(self.start as int, i + 1));
            }
            i = i + 1;
        }
        let t = text.as_str();
        if crate::strutil::str_eq(t, "let") {
            TokenType::Let
        } else if crate::strutil::str_eq(t, "fn") {
            TokenType::Fn
        } else if crate::strutil::str_eq(t, "class") {
            TokenType::Class
        } else if crate::strutil::str_eq(t, "if") {
            TokenType::If
        } else if crate::strutil::str_eq(t, "else") {
            TokenType::Else
        } else if crate::strutil::str_eq(t, "while") {
            TokenType::While
        } else if crate::strutil::str_eq(t, "for") {
            TokenType::For
        } else if crate::strutil::str_eq(t, "in") {
            TokenType::In
        } else if crate::strutil::str_eq(t, "return") {
            TokenType::Return
        } else if crate::strutil::str_eq(t, "try") {
            TokenType::Try
        } else if crate::strutil::str_eq(t, "catch") {
            TokenType::Catch
        } else if crate::strutil::str_eq(t, "true") {
            TokenType::True
        } else if crate::strutil::str_eq(t, "false") {
            TokenType::False
        } else {
            TokenType::Identifier
        }
    }

    /// Scans a number literal, with an optional decimal part.
    fn number(&mut self)
        requires
            old(self).wf(),
            old(self).current == old(self).start + 1,
            old(self).start < old(self).source@.len(),
            spec_digit_char(old(self).source@[old(self).start as int]),
        ensures
            final(self).wf(),
            final(self).source == old(self).source,
            final(self).start == old(self).start,
            final(self).current == old(self).start + spec_number_len(
                old(self).source@.skip(old(self).start as int),
            ),
            final(self).tokens@.len() == old(self).tokens@.len() + 1,
            final(self).tokens@.drop_last() == old(self).tokens@,
            final(self).tokens@.last().token_type == TokenType::Number,
    {
        let ghost suffix = old(self).source@.skip(old(self).start as int);
        loop
            invariant
                self.wf(),
                self.source == old(self).source,
                self.current > old(self).start,
                self.start == old(self).start,
                self.tokens == old(self).tokens,
                forall|j: int|
                    old(self).start <= j < self.current ==> spec_digit_char(
                        #[trigger] self.source@[j],
                    ),
            ensures
                self.wf() && self.source == old(self).source && self.current > old(self).start
                    && self.start == old(self).start && self.tokens == old(self).tokens,
                forall|j: int|
                    old(self).start <= j < self.current ==> spec_digit_char(
                        #[trigger] self.source@[j],
                    ),
                self.current >= self.source@.len() || !spec_digit_char(
                    self.source@[self.current as int],
                ),
            decreases self.source@.len() - self.current,
        {
            let c = self.peek();
            if !self.is_digit(c) {
                break ;
            }
            self.advance();
        }
        proof {
            lemma_digit_run(suffix);
            let run = spec_digit_run(suffix);
            let consumed = self.current - old(self).start;
            assert forall|j: int| 0 <= j < consumed implies spec_digit_char(suffix[j]) by {
                assert(suffix[j] == self.source@[old(self).start + j]);
            }
            if consumed < suffix.len() {
                assert(suffix[consumed as int] == self.source@[self.current as int]);
            }
            assert(run == consumed) by {
                if run < consumed {
                    assert(spec_digit_char(suffix[run as int]));
                }
                if run > consumed {
                    assert(spec_digit_char(suffix[consumed as int]));
                }
            }
        }
        let ghost d = spec_digit_run(suffix);
        if self.peek() == '.' && self.is_digit(self.peek_next()) {
            proof {
                assert(suffix[d as int] == self.source@[self.current as int]);
                assert(suffix[d as int + 1] == self.source@[self.current as int + 1]);
            }
            self.advance();
            let ghost frac_start = self.current;
            let ghost frac_suffix = old(self).source@.skip(frac_start as int);
            loop
                invariant
                    self.wf(),
                    self.source == old(self).source,
                    self.current >= frac_start,
                    frac_start == old(self).start + d + 1,
                    self.start == old(self).start,
                    self.tokens == old(self).tokens,
                    forall|j: int|
                        frac_start <= j < self.current ==> spec_digit_char(
                            #[trigger] self.source@[j],
                        ),
                ensures
                    self.wf() && self.source == old(self).source && self.current >= frac_start
                        && self.start == old(self).start && self.tokens == old(self).tokens,
                    forall|j: int|
                        frac_start <= j < self.current ==> spec_digit_char(
                            #[trigger] self.source@[j],
                        ),
                    self.current >= self.source@.len() || !spec_digit_char(
                        self.source@[self.current as int],
                    ),
                decreases self.source@.len() - self.current,
            {
                let c = self.peek();
                if !self.is_digit(c) {
                    break ;
                }
                self.advance();
            }
            proof {
                lemma_digit_run(frac_suffix);
                let run2 = spec_digit_run(frac_suffix);
                let consumed2 = self.current - frac_start;
                assert forall|j: int| 0 <= j < consumed2 implies spec_digit_char(
                    frac_suffix[j],
                ) by {
                    assert(frac_suffix[j] == self.source@[frac_start + j]);
                }
                if consumed2 < frac_suffix.len() {
                    assert(frac_suffix[consumed2 as int] == self.source@[self.current as int]);
                }
                assert(run2 == consumed2) by {
                    if run2 < consumed2 {
                        assert(spec_digit_char(frac_suffix[run2 as int]));
                    }
                    if run2 > consumed2 {
                        assert(spec_digit_char(frac_suffix[consumed2 as int]));
                    }
                }
                assert(suffix.skip(d as int + 1) =~= frac_suffix);
            }
        } else {
            proof {
                if d < suffix.len() {
                    assert(suffix[d as int] == self.source@[self.current as int]);
                    if d + 1 < suffix.len() {
                        assert(suffix[d as int + 1] == self.source@[self.current as int + 1]);
                    }
                }
            }
        }
        self.add_token(TokenType::Number);
    }

    /// Scans a string literal up to its closing quote; an unterminated one
    /// becomes an error token.
    fn string(&mut self)
        requires
            old(self).wf(),
            old(self).current == old(self).start + 1,
        ensures
            final(self).wf(),
            final(self).source == old(self).source,
            final(self).start == old(self).start,
            final(self).tokens@.len() == old(self).tokens@.len() + 1,
            final(self).tokens@.drop_last() == old(self).tokens@,
            old(self).start + 1 + spec_take_non(
                old(self).source@.skip(old(self).start as int + 1),
                '"',
            ) >= old(self).source@.len() ==> final(self).current == old(self).source@.len()
                && final(self).tokens@.last().token_type == TokenType::Error,
            old(self).start + 1 + spec_take_non(
                old(self).source@.skip(old(self).start as int + 1),
                '"',
            ) < old(self).source@.len() ==> final(self).current == old(self).start + 2
                + spec_take_non(old(self).source@.skip(old(self).start as int + 1), '"')
                && final(self).tokens@.last().token_type == TokenType::String,
    {
        let ghost suffix = old(self).source@.skip(old(self).start as int + 1);
        loop
            invariant
                self.wf(),
                self.source == old(self).source,
                self.current >= old(self).current,
                self.start == old(self).start,
                self.tokens == old(self).tokens,
                forall|j: int|
                    old(self).current <= j < self.current ==> #[trigger] self.source@[j] != '"',
            ensures
                self.wf() && self.source == old(self).source && self.current >= old(self).current
                    && self.start == old(self).start && self.tokens == old(self).tokens,
                forall|j: int|
                    old(self).current <= j < self.current ==> #[trigger] self.source@[j] != '"',
                self.current >= self.source@.len() || self.source@[self.current as int] == '"',
            decreases self.source@.len() - self.current,
        {
            if self.is_at_end() {
                break ;
            }
            if self.peek() == '"' {
                break ;
            }
            if self.peek() == '\n' {
                if self.line < usize::MAX {
                    self.line = self.line + 1;
                }
                self.column = 1;
            }
            self.advance();
        }
        proof {
            lemma_take_non(suffix, '"');
            let q = spec_take_non(suffix, '"');
            let consumed = self.current - old(self).current;
            assert forall|j: int| 0 <= j < consumed implies suffix[j] != '"' by {
                assert(suffix[j] == self.source@[old(self).current + j]);
            }
            if consumed < suffix.len() {
                assert(suffix[consumed as int] == self.source@[self.current as int]);
            }
            assert(q == consumed) by {
                if q < consumed {
                    assert(suffix[q as int] != '"');
                }
                if q > consumed {
                    assert(suffix[consumed as int] != '"');
                }
            }
        }
        if self.is_at_end() {
            self.add_token_error("Unterminated string");
            return ;
        }
        self.advance();
        self.add_token(TokenType::String);
    }

    /// Scans one token (or skips one comment, whitespace run, or newline)
    /// starting at the cursor.
    fn scan_token(&mut self)
        requires
            old(self).wf(),
            old(self).start == old(self).current,
            old(self).current < old(self).source@.len(),
        ensures
            final(self).wf(),
            final(self).source == old(self).source,
            final(self).current > old(self).current,
            old(self).tokens@.len() <= final(self).tokens@.len() <= old(self).tokens@.len() + 1,
            final(self).tokens@.subrange(0, old(self).tokens@.len() as int) == old(self).tokens@,
            final(self).tokens@.len() == old(self).tokens@.len() + 1
                ==> final(self).tokens@.last().token_type != TokenType::EOF,
            final(self).current == old(self).current + spec_tok_one(
                old(self).source@.skip(old(self).current as int),
            ).1,
            match spec_tok_one(old(self).source@.skip(old(self).current as int)).0 {
                None => final(self).tokens@ == old(self).tokens@,
                Some(ty) => final(self).tokens@.len() == old(self).tokens@.len() + 1
                    && final(self).tokens@.last().token_type == ty,
            },
    {
        let ghost orig_tokens = self.tokens@;
        let ghost suffix = old(self).source@.skip(old(self).current as int);
        let c = self.advance();
        proof {
            assert(suffix.len() == old(self).source@.len() - old(self).current);
            assert(suffix[0] == old(self).source@[old(self).current as int]);
            assert(suffix[0] == c);
            if suffix.len() > 1 {
                assert(suffix[1] == old(self).source@[old(self).current as int + 1]);
            }
        }
        if c == '(' {
            self.add_token(TokenType::LeftParen);
        } else if c == ')' {
            self.add_token(TokenType::RightParen);
        } else if c == '{' {
            self.add_token(TokenType::LeftBrace);
        } else if c == '}' {
            self.add_token(TokenType::RightBrace);
        } else if c == ',' {
            self.add_token(TokenType::Comma);
        } else if c == '.' {
            self.add_token(TokenType::Dot);
        } else if c == ':' {
            self.add_token(TokenType::Colon);
        } else if c == ';' {
            self.add_token(TokenType::Semicolon);
        } else if c == '+' {
            self.add_token(TokenType::Plus);
        } else if c == '-' {
            if self.match_char('>') {
                self.add_token(TokenType::Arrow);
            } else {
                self.add_token(TokenType::Minus);
            }
        } else if c == '*' {
            self.add_token(TokenType::Star);
        } else if c == '/' {
            if self.match_char('/') {
                loop
                    invariant
                        self.wf(),
                        self.source == old(self).source,
                        self.current >= old(self).current + 2,
                        self.start == old(self).start,
                        self.tokens@ == orig_tokens,
                        forall|j: int|
                            old(self).current + 2 <= j < self.current ==> #[trigger] self.source@[j]
                                != '\n',
                    ensures
                        self.wf() && self.source == old(self).source
                            && self.current >= old(self).current + 2
                            && self.tokens@ == orig_tokens,
                        forall|j: int|
                            old(self).current + 2 <= j < self.current ==> #[trigger] self.source@[j]
                                != '\n',
                        self.current >= self.source@.len() || self.source@[self.current as int]
                            == '\n',
                    decreases self.source@.len() - self.current,
                {
                    if self.peek() == '\n' || self.is_at_end() {
                        break ;
                    }
                    self.advance();
                }
                proof {
                    let rest = old(self).source@.skip(old(self).current as int + 2);
                    lemma_take_non(rest, '\n');
                    let q = spec_take_non(rest, '\n');
                    let consumed = self.current - (old(self).current + 2);
                    assert forall|j: int| 0 <= j < consumed implies rest[j] != '\n' by {
                        assert(rest[j] == self.source@[old(self).current + 2 + j]);
                    }
                    if consumed < rest.len() {
                        assert(rest[consumed as int] == self.source@[self.current as int]);
                    }
                    assert(q == consumed) by {
                        if q < consumed {
                            assert(rest[q as int] != '\n');
                        }
                        if q > consumed {
                            assert(rest[consumed as int] != '\n');
                        }
                    }
                    assert(suffix.skip(2) =~= rest);
                }
            } else {
                self.add_token(TokenType::Slash);
            }
        } else if c == '=' {
            if self.match_char('=') {
                self.add_token(TokenType::EqualEqual);
            } else {
                self.add_token(TokenType::Equal);
            }
        } else if c == '!' {
            if self.match_char('=') {
                self.add_token(TokenType::NotEqual);
            } else {
                self.add_token_error("Unexpected character");
            }
        } else if c == '<' {
            if self.match_char('=') {
                self.add_token(TokenType::LessEqual);
            } else {
                self.add_token(TokenType::Less);
            }
        } else if c == '>' {
            if self.match_char('=') {
                self.add_token(TokenType::GreaterEqual);
            } else {
                self.add_token(TokenType::Greater);
            }
        } else if c == ' ' || c == '\r' || c == '\t' {
            // whitespace produces nothing
        } else if c == '\n' {
            if self.line < usize::MAX {
                self.line = self.line + 1;
            }
            self.column = 1;
        } else if c == '"' {
            self.string();
            proof {
                assert(suffix.drop_first() =~= old(self).source@.skip(old(self).current as int + 1));
                assert(suffix.skip(1) =~= suffix.drop_first());
            }
        } else if self.is_digit(c) {
            self.number();
        } else if self.is_alpha(c) {
            self.identifier();
            proof {
                assert(suffix.drop_first() =~= old(self).source@.skip(old(self).current as int + 1));
                let run = spec_alnum_run(suffix);
                assert(run == 1 + spec_alnum_run(suffix.drop_first()));
                assert(old(self).source@.subrange(
                    old(self).start as int,
                    self.current as int,
                ) =~= suffix.subrange(0, run as int));
            }
        } else {
            self.add_token_error("Unexpected character");
        }
        proof {
            if self.tokens@.len() == orig_tokens.len() {
                assert(self.tokens@.subrange(0, orig_tokens.len() as int) =~= self.tokens@);
            } else {
                assert(self.tokens@.subrange(0, orig_tokens.len() as int)
                    =~= self.tokens@.drop_last());
            }
        }
    }

    /// Scans the whole source: the returned stream holds every produced
    /// token in order and always ends with exactly one end-of-input token.
    pub fn scan_tokens(&mut self) -> (r: Vec<Token>)
        requires
            old(self).wf(),
            old(self).spec_tokens().len() == 0,
            old(self).at_start(),
        ensures
            final(self).wf(),
            r@.len() >= 1,
            r@.last().token_type == TokenType::EOF,
            r@.last().lexeme@.len() == 0,
            forall|i: int| 0 <= i < r@.len() - 1 ==> r@[i].token_type != TokenType::EOF,
            r@.len() == spec_scan_types(old(self).spec_source()).len() + 1,
            forall|i: int|
                0 <= i < r@.len() - 1 ==> #[trigger] r@[i].token_type == spec_scan_types(
                    old(self).spec_source(),
                )[i],
    {
        let ghost src = old(self).source@;
        proof {
            assert(src.skip(0) =~= src);
            assert(spec_token_types(self.tokens@) =~= Seq::<TokenType>::empty());
            assert(spec_token_types(self.tokens@) + spec_scan_types(src.skip(self.current as int))
                =~= spec_scan_types(src));
        }
        loop
            invariant
                self.wf(),
                self.source@ == src,
                spec_scan_types(src) == spec_token_types(self.tokens@) + spec_scan_types(
                    src.skip(self.current as int),
                ),
                forall|i: int|
                    0 <= i < self.tokens@.len() ==> self.tokens@[i].token_type != TokenType::EOF,
            ensures
                self.wf() && self.source@ == src,
                self.current >= self.source@.len(),
                spec_scan_types(src) == spec_token_types(self.tokens@) + spec_scan_types(
                    src.skip(self.current as int),
                ),
                forall|i: int|
                    0 <= i < self.tokens@.len() ==> self.tokens@[i].token_type != TokenType::EOF,
            decreases self.source@.len() - self.current,
        {
            if self.is_at_end() {
                break ;
            }
            self.start = self.current;
            let ghost before = self.tokens@;
            let ghost pos = self.current as int;
            let ghost suffix = src.skip(pos);
            proof {
                lemma_tok_one_used(suffix);
            }
            self.scan_token();
            proof {
                assert(suffix.skip(spec_tok_one(suffix).1 as int) =~= src.skip(
                    self.current as int,
                ));
                match spec_tok_one(suffix).0 {
                    Some(ty) => {
                        assert(spec_token_types(self.tokens@) =~= spec_token_types(before).push(
                            ty,
                        ));
                        assert(spec_token_types(before).push(ty) + spec_scan_types(
                            src.skip(self.current as int),
                        ) =~= spec_token_types(before) + (seq![ty] + spec_scan_types(
                            src.skip(self.current as int),
                        )));
                    },
                    None => {},
                }
                assert forall|i: int|
                    0 <= i < self.tokens@.len() implies self.tokens@[i].token_type
                    != TokenType::EOF by {
                    if i < before.len() {
                        assert(self.tokens@.subrange(0, before.len() as int)[i] == self.tokens@[i]);
                    } else {
                        assert(self.tokens@[i] == self.tokens@.last());
                    }
                }
            }
        }
        proof {
            assert(src.skip(self.current as int).len() == 0);
            assert(spec_scan_types(src.skip(self.current as int)) =~= Seq::<TokenType>::empty());
            assert(spec_scan_types(src) =~= spec_token_types(self.tokens@));
        }
        self.tokens.push(
            Token {
                token_type: TokenType::EOF,
                lexeme: String::new(),
                line: self.line,
                column: self.column,
            },
        );
        let mut result: Vec<Token> = Vec::new();
        let mut i: usize = 0;
        while i < self.tokens.len()
            invariant
                i <= self.tokens@.len(),
                result@.len() == i,
                forall|j: int|
                    0 <= j < i ==> (result@[j].token_type == self.tokens@[j].token_type
                        && result@[j].lexeme@ == self.tokens@[j].lexeme@ && result@[j].line
                        == self.tokens@[j].line && result@[j].column == self.tokens@[j].column),
            decreases self.tokens@.len() - i,
        {
            let t = &self.tokens[i];
            result.push(
                Token {
                    token_type: t.token_type,
                    lexeme: str_copy(t.lexeme.as_str()),
                    line: t.line,
                    column: t.column,
                },
            );
            i = i + 1;
        }
        result
    }
}

} // verus!
