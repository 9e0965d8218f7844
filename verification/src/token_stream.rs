//! A pull-based tokenizer over SafeLang source text: callers ask for one
//! token at a time. It distinguishes keywords, identifiers, numbers and
//! one-character symbols, and skips whitespace between them.

use vstd::prelude::*;
use vstd::string::StrSliceExecFns;

use crate::strutil::push_char;
use crate::strutil::str_eq;

verus! {

/// One token of the pull-based tokenizer.
#[derive(Clone, Debug, PartialEq)]
pub enum Token {
    Keyword(String),
    Ident(String),
    Number(String),
    Symbol(String),
}

/// The tokenizer state: the source as characters and a cursor into it.
#[derive(Debug)]
pub struct Lexer {
    chars: Vec<char>,
    pos: usize,
}

/// Whether the character can begin an identifier or keyword.
pub open spec fn spec_word_start(c: char) -> bool {
    ('a' <= c && c <= 'z') || ('A' <= c && c <= 'Z') || c == '_'
}

/// Whether the character can continue an identifier or keyword.
pub open spec fn spec_word_part(c: char) -> bool {
    spec_word_start(c) || ('0' <= c && c <= '9')
}

/// Whether the character is skipped between tokens.
pub open spec fn spec_space(c: char) -> bool {
    c == ' ' || c == '\t' || c == '\r' || c == '\n'
}

impl Lexer {
    /// The cursor never leaves the source.
    pub closed spec fn wf(&self) -> bool {
        self.pos <= self.chars@.len()
    }

    /// How many characters are still unread.
    pub closed spec fn spec_remaining(&self) -> nat {
        (self.chars@.len() - self.pos) as nat
    }

    /// A tokenizer at the beginning of the given source.
    pub fn new(source: &str) -> (r: Lexer)
        ensures
            r.wf(),
    {
        let len: usize = source.unicode_len();
        let mut chars: Vec<char> = Vec::new();
        let mut i: usize = 0;
        while i < len
            invariant
                i <= len,
                len == source@.len(),
                chars@.len() == i,
                forall|j: int| 0 <= j < i ==> chars@[j] == source@[j],
            decreases len - i,
        {
            chars.push(source.get_char(i));
            i = i + 1;
        }
        Lexer { chars, pos: 0 }
    }

    /// The next token, or `None` once only whitespace is left. Every
    /// returned token consumes at least one character.
    pub fn next_token(&mut self) -> (r: Option<Token>)
        requires
            old(self).wf(),
        ensures
            final(self).wf(),
            r is Some ==> final(self).spec_remaining() < old(self).spec_remaining(),
            r is None ==> final(self).spec_remaining() == 0,
    {
        let mut i: usize = self.pos;
        let n: usize = self.chars.len();
        while i < n && is_space(self.chars[i])
            invariant
                self.pos <= i <= n,
                n == self.chars@.len(),
            decreases n - i,
        {
            i = i + 1;
        }
        if i >= n {
            self.pos = n;
            return None;
        }
        let c = self.chars[i];
        if is_word_start(c) {
            let word_start: usize = i;
            let mut j: usize = i;
            while j < n && is_word_part(self.chars[j])
                invariant
                    word_start <= j <= n,
                    n == self.chars@.len(),
                decreases n - j,
            {
                j = j + 1;
            }
            let mut text = String::new();
            let mut k: usize = word_start;
            while k < j
                invariant
                    word_start <= k <= j,
                    j <= n,
                    n == self.chars@.len(),
                decreases j - k,
            {
                push_char(&mut text, self.chars[k]);
                k = k + 1;
            }
            self.pos = j;
            if is_keyword(text.as_str()) {
                Some(Token::Keyword(text))
            } else {
                Some(Token::Ident(text))
            }
        } else if c >= '0' && c <= '9' {
            let mut j: usize = i;
            let mut text = String::new();
            while j < n && self.chars[j] >= '0' && self.chars[j] <= '9'
                invariant
                    i <= j <= n,
                    n == self.chars@.len(),
                decreases n - j,
            {
                push_char(&mut text, self.chars[j]);
                j = j + 1;
            }
            self.pos = j;
            Some(Token::Number(text))
        } else {
            let mut text = String::new();
            push_char(&mut text, c);
            self.pos = i + 1;
            Some(Token::Symbol(text))
        }
    }
}

/// Whether the character is skipped between tokens.
fn is_space(c: char) -> (r: bool)
    ensures
        r == spec_space(c),
{
    c == ' ' || c == '\t' || c == '\r' || c == '\n'
}

/// Whether the character can begin an identifier or keyword.
fn is_word_start(c: char) -> (r: bool)
    ensures
        r == spec_word_start(c),
{
    (c >= 'a' && c <= 'z') || (c >= 'A' && c <= 'Z') || c == '_'
}

/// Whether the character can continue an identifier or keyword.
fn is_word_part(c: char) -> (r: bool)
    ensures
        r == spec_word_part(c),
{
    is_word_start(c) || (c >= '0' && c <= '9')
}

/// Whether the word is one of the language's keywords.
fn is_keyword(word: &str) -> bool {
    str_eq(word, "let") || str_eq(word, "fn") || str_eq(word, "class") || str_eq(word, "struct")
        || str_eq(word, "loop") || str_eq(word, "if") || str_eq(word, "else") || str_eq(
        word,
        "while",
    ) || str_eq(word, "for") || str_eq(word, "in") || str_eq(word, "return") || str_eq(
        word,
        "try",
    ) || str_eq(word, "catch") || str_eq(word, "true") || str_eq(word, "false")
}

} // verus!
