use super::types::Op;
use vstd::prelude::*;
use crate::text::is_word;
use vstd::string::{StrSliceExecFns, StringExecFns};

verus! {

/// The words that start a guard.
#[derive(Debug, PartialEq, Eq, Clone, Copy, Structural)]
pub enum ConditionToken {
    Unless,
    When,
}

/// The keywords.
#[derive(Debug, PartialEq, Eq, Clone, Copy, Structural)]
pub enum Keyword {
    For,
    Wait,
    Spawn,
    Bullet,
    Path,
    Pattern,
    Let,
    Seconds,
    Frames,
}

/// A token. A number is held as its numeral, a string without its quotes; a
/// character that starts no token is a `LexerError`.
#[derive(Debug, PartialEq, Clone)]
pub enum Token {
    Id(String),
    Number(String),
    String(String),
    OpenParen,
    CloseParen,
    OpenBlock,
    CloseBlock,
    Comma,
    Operator(Op),
    EOF,
    RangeSeparator,
    Assign,
    Semicolon,
    Keyword(Keyword),
    Condition(ConditionToken),
    LexerError(char),
}

/// A cursor into the characters of a source that reads them off token by
/// token.
pub struct Lexer {
    source: String,
    characters: Vec<char>,
    cursor: usize,
}

fn collect_chars(s: &str) -> (r: Vec<char>)
    ensures
        r@ == s@,
{
    let mut out: Vec<char> = Vec::new();
    for c in it: s.chars()
        invariant
            it.seq() == s@,
            out@.len() == it.index(),
            forall|j: int| 0 <= j < out@.len() ==> out@[j] == it.seq()[j],
    {
        out.push(c);
    }
    assert(out@ =~= s@);
    out
}

/// Whether `c` is a decimal digit.
pub open spec fn digit(c: char) -> bool {
    '0' <= c <= '9'
}

/// Whether `c` is a letter.
pub open spec fn letter(c: char) -> bool {
    'a' <= c <= 'z' || 'A' <= c <= 'Z'
}

/// Whether `c` may stand in a word behind its first letter.
pub open spec fn word_char(c: char) -> bool {
    letter(c) || digit(c) || c == '_' || c == '-'
}

/// Whether `c` may stand directly behind a keyword.
pub open spec fn terminator(c: char) -> bool {
    c == ';' || c == ' ' || c == '(' || c == '{' || c == '='
}

/// Whether `c` is a blank, a tab, a line end or a form feed.
pub open spec fn is_blank(c: char) -> bool {
    c == ' ' || c == '\t' || c == '\n' || c == '\r' || c == '\x0C'
}

fn is_digit(c: char) -> (r: bool)
    ensures
        r == digit(c),
{
    '0' <= c && c <= '9'
}

fn is_alpha(c: char) -> (r: bool)
    ensures
        r == letter(c),
{
    ('a' <= c && c <= 'z') || ('A' <= c && c <= 'Z')
}

fn is_word_char(c: char) -> (r: bool)
    ensures
        r == word_char(c),
{
    is_alpha(c) || is_digit(c) || c == '_' || c == '-'
}

fn is_space(c: char) -> (r: bool)
    ensures
        r == is_blank(c),
{
    c == ' ' || c == '\t' || c == '\n' || c == '\r' || c == '\x0C'
}

/// Whether `c` may stand directly behind a keyword.
fn is_terminator(c: char) -> (r: bool)
    ensures
        r == terminator(c),
{
    c == ';' || c == ' ' || c == '(' || c == '{' || c == '='
}

/// Mathematical model of a token.
pub enum TokenModel {
    Id(Seq<char>),
    Number(Seq<char>),
    String(Seq<char>),
    OpenParen,
    CloseParen,
    OpenBlock,
    CloseBlock,
    Comma,
    Operator(Op),
    EOF,
    RangeSeparator,
    Assign,
    Semicolon,
    Keyword(Keyword),
    Condition(ConditionToken),
    LexerError(char),
}

/// Where the line ends that `i` stands in: at its line end character, or
/// at the end of the source.
pub open spec fn line_end(chars: Seq<char>, i: nat) -> nat
    decreases chars.len() - i,
{
    if i >= chars.len() {
        chars.len()
    } else if chars[i as int] == '\n' {
        i
    } else {
        line_end(chars, i + 1)
    }
}

/// Where the next token starts at or behind `i`: at the first character
/// that is no blank and stands in no comment, or at the end of the source.
/// A comment runs from `//` to the end of its line.
pub open spec fn token_start(chars: Seq<char>, i: nat) -> nat
    decreases chars.len() - i,
{
    if i >= chars.len() {
        chars.len()
    } else if is_blank(chars[i as int]) {
        token_start(chars, i + 1)
    } else if chars[i as int] == '/' && i + 1 < chars.len() && chars[i as int + 1] == '/' {
        let end = line_end(chars, i + 2);
        if i < end < chars.len() {
            token_start(chars, end + 1)
        } else {
            chars.len()
        }
    } else {
        i
    }
}

/// Where the digits end that stand from `i` on.
pub open spec fn digits_end(chars: Seq<char>, i: nat) -> nat
    decreases chars.len() - i,
{
    if i < chars.len() && digit(chars[i as int]) {
        digits_end(chars, i + 1)
    } else {
        i
    }
}

/// Where the characters of a word end that stand from `i` on.
pub open spec fn word_end(chars: Seq<char>, i: nat) -> nat
    decreases chars.len() - i,
{
    if i < chars.len() && word_char(chars[i as int]) {
        word_end(chars, i + 1)
    } else {
        i
    }
}

/// Where the number ends that starts at `start`: behind its digits, and
/// behind a point and further digits where the point starts no range.
pub open spec fn number_end(chars: Seq<char>, start: nat) -> nat {
    let whole = digits_end(chars, start + 1);
    let ranged = whole + 1 < chars.len() && chars[whole as int + 1] == '.';
    if whole < chars.len() && chars[whole as int] == '.' && !ranged {
        digits_end(chars, whole + 1)
    } else {
        whole
    }
}

/// The keyword or word operator that `word` is, where it is one.
pub open spec fn reserved_spec(word: Seq<char>) -> Option<TokenModel> {
    if word == "for"@ {
        Some(TokenModel::Keyword(Keyword::For))
    } else if word == "and"@ {
        Some(TokenModel::Operator(Op::And))
    } else if word == "or"@ {
        Some(TokenModel::Operator(Op::Or))
    } else if word == "unless"@ {
        Some(TokenModel::Condition(ConditionToken::Unless))
    } else if word == "when"@ {
        Some(TokenModel::Condition(ConditionToken::When))
    } else if word == "wait"@ {
        Some(TokenModel::Keyword(Keyword::Wait))
    } else if word == "spawn"@ {
        Some(TokenModel::Keyword(Keyword::Spawn))
    } else if word == "bullet"@ {
        Some(TokenModel::Keyword(Keyword::Bullet))
    } else if word == "path"@ {
        Some(TokenModel::Keyword(Keyword::Path))
    } else if word == "pattern"@ {
        Some(TokenModel::Keyword(Keyword::Pattern))
    } else if word == "let"@ {
        Some(TokenModel::Keyword(Keyword::Let))
    } else if word == "seconds"@ {
        Some(TokenModel::Keyword(Keyword::Seconds))
    } else if word == "frames"@ {
        Some(TokenModel::Keyword(Keyword::Frames))
    } else {
        None
    }
}

/// The token of the word that starts at `start`, and where it ends: a
/// keyword or word operator where the word is one and stands at the end
/// of the source or before a terminator, else a name.
pub open spec fn word_token(chars: Seq<char>, start: nat) -> (TokenModel, nat) {
    let end = word_end(chars, start + 1);
    let word = chars.subrange(start as int, end as int);
    if end >= chars.len() || terminator(chars[end as int]) {
        match reserved_spec(word) {
            Some(t) => (t, end),
            None => (TokenModel::Id(word), end),
        }
    } else {
        (TokenModel::Id(word), end)
    }
}

/// The token of the string whose characters stand from `i` on, when the
/// characters before `i` have given `text`, and where it ends. A backslash
/// takes the character behind it as it is; a string that the source does
/// not close is an error.
pub open spec fn string_token(chars: Seq<char>, i: nat, text: Seq<char>) -> (TokenModel, nat)
    decreases chars.len() - i,
{
    if i >= chars.len() {
        (TokenModel::LexerError('"'), chars.len())
    } else if chars[i as int] == '"' {
        (TokenModel::String(text), i + 1)
    } else if chars[i as int] == '\\' && i + 1 < chars.len() {
        string_token(chars, i + 2, text.push(chars[i as int + 1]))
    } else {
        string_token(chars, i + 1, text.push(chars[i as int]))
    }
}

/// The token that starts at `s`, which is a place in the source where a
/// token starts, and where it ends.
pub open spec fn token_from(chars: Seq<char>, s: nat) -> (TokenModel, nat) {
    let c = chars[s as int];
    let paired = s + 1 < chars.len() && chars[s as int + 1] == '=';
    if c == '(' {
        (TokenModel::OpenParen, s + 1)
    } else if c == ')' {
        (TokenModel::CloseParen, s + 1)
    } else if c == '{' {
        (TokenModel::OpenBlock, s + 1)
    } else if c == '}' {
        (TokenModel::CloseBlock, s + 1)
    } else if c == ',' {
        (TokenModel::Comma, s + 1)
    } else if c == ';' {
        (TokenModel::Semicolon, s + 1)
    } else if c == '+' {
        (TokenModel::Operator(Op::Add), s + 1)
    } else if c == '-' {
        (TokenModel::Operator(Op::Sub), s + 1)
    } else if c == '*' {
        (TokenModel::Operator(Op::Mul), s + 1)
    } else if c == '^' {
        (TokenModel::Operator(Op::Exp), s + 1)
    } else if c == '/' {
        (TokenModel::Operator(Op::Div), s + 1)
    } else if c == '=' {
        if paired {
            (TokenModel::Operator(Op::Test), s + 2)
        } else {
            (TokenModel::Assign, s + 1)
        }
    } else if c == '>' {
        if paired {
            (TokenModel::Operator(Op::GTE), s + 2)
        } else {
            (TokenModel::Operator(Op::GT), s + 1)
        }
    } else if c == '<' {
        if paired {
            (TokenModel::Operator(Op::LTE), s + 2)
        } else {
            (TokenModel::Operator(Op::LT), s + 1)
        }
    } else if c == '.' {
        if s + 2 < chars.len() && chars[s as int + 1] == '.' && chars[s as int + 2] == '.' {
            (TokenModel::RangeSeparator, s + 3)
        } else {
            (TokenModel::LexerError(c), s + 1)
        }
    } else if c == '"' {
        string_token(chars, s + 1, Seq::empty())
    } else if digit(c) {
        (
            TokenModel::Number(chars.subrange(s as int, number_end(chars, s) as int)),
            number_end(chars, s),
        )
    } else if letter(c) {
        word_token(chars, s)
    } else {
        (TokenModel::LexerError(c), s + 1)
    }
}

/// The next token at or behind `i`, and where it ends: `EOF` where only
/// blanks and comments are left.
pub open spec fn token_spec(chars: Seq<char>, i: nat) -> (TokenModel, nat) {
    let s = token_start(chars, i);
    if s >= chars.len() {
        (TokenModel::EOF, chars.len())
    } else {
        token_from(chars, s)
    }
}

/// The token `n` tokens ahead of `i`: the next one for `n` 0 or 1.
pub open spec fn peek(chars: Seq<char>, i: nat, n: nat) -> TokenModel
    decreases n,
{
    if n <= 1 {
        token_spec(chars, i).0
    } else {
        peek(chars, token_spec(chars, i).1, (n - 1) as nat)
    }
}

proof fn lemma_run_ends(chars: Seq<char>, i: nat)
    requires
        i <= chars.len(),
    ensures
        i <= digits_end(chars, i) <= chars.len(),
        i <= word_end(chars, i) <= chars.len(),
        i <= line_end(chars, i) <= chars.len(),
    decreases chars.len() - i,
{
    if i < chars.len() {
        lemma_run_ends(chars, i + 1);
    }
}

proof fn lemma_token_start(chars: Seq<char>, i: nat)
    requires
        i <= chars.len(),
    ensures
        i <= token_start(chars, i) <= chars.len(),
    decreases chars.len() - i,
{
    if i < chars.len() {
        if is_blank(chars[i as int]) {
            lemma_token_start(chars, i + 1);
        } else if chars[i as int] == '/' && i + 1 < chars.len() && chars[i as int + 1] == '/' {
            let end = line_end(chars, i + 2);
            lemma_run_ends(chars, i + 2);
            if i < end < chars.len() {
                lemma_token_start(chars, end + 1);
            }
        }
    }
}

proof fn lemma_string_token(chars: Seq<char>, i: nat, text: Seq<char>)
    requires
        i <= chars.len(),
    ensures
        i <= string_token(chars, i, text).1 <= chars.len(),
        !(string_token(chars, i, text).0 is EOF),
    decreases chars.len() - i,
{
    if i < chars.len() && chars[i as int] != '"' {
        if chars[i as int] == '\\' && i + 1 < chars.len() {
            lemma_string_token(chars, i + 2, text.push(chars[i as int + 1]));
        } else {
            lemma_string_token(chars, i + 1, text.push(chars[i as int]));
        }
    }
}

/// A token ends in the source, at or behind the place from which it was
/// looked for, and every token but `EOF` takes at least one character.
pub proof fn lemma_token_spec(chars: Seq<char>, i: nat)
    requires
        i <= chars.len(),
    ensures
        i <= token_spec(chars, i).1 <= chars.len(),
        !(token_spec(chars, i).0 is EOF) ==> i < token_spec(chars, i).1,
        token_spec(chars, i).0 is EOF ==> token_spec(chars, i).1 == chars.len(),
{
    lemma_token_start(chars, i);
    let s = token_start(chars, i);
    if s < chars.len() {
        lemma_run_ends(chars, s + 1);
        let whole = digits_end(chars, s + 1);
        if whole < chars.len() {
            lemma_run_ends(chars, whole + 1);
        }
        lemma_string_token(chars, s + 1, Seq::empty());
    }
}

/// The keyword or word operator that `word` is, where it is one.
fn reserved(word: &String) -> (r: Option<Token>)
    ensures
        match r {
            Some(t) => reserved_spec(word@) == Some(t.model()),
            None => reserved_spec(word@).is_none(),
        },
{
    if is_word(word, "for") {
        Some(Token::Keyword(Keyword::For))
    } else if is_word(word, "and") {
        Some(Token::Operator(Op::And))
    } else if is_word(word, "or") {
        Some(Token::Operator(Op::Or))
    } else if is_word(word, "unless") {
        Some(Token::Condition(ConditionToken::Unless))
    } else if is_word(word, "when") {
        Some(Token::Condition(ConditionToken::When))
    } else if is_word(word, "wait") {
        Some(Token::Keyword(Keyword::Wait))
    } else if is_word(word, "spawn") {
        Some(Token::Keyword(Keyword::Spawn))
    } else if is_word(word, "bullet") {
        Some(Token::Keyword(Keyword::Bullet))
    } else if is_word(word, "path") {
        Some(Token::Keyword(Keyword::Path))
    } else if is_word(word, "pattern") {
        Some(Token::Keyword(Keyword::Pattern))
    } else if is_word(word, "let") {
        Some(Token::Keyword(Keyword::Let))
    } else if is_word(word, "seconds") {
        Some(Token::Keyword(Keyword::Seconds))
    } else if is_word(word, "frames") {
        Some(Token::Keyword(Keyword::Frames))
    } else {
        None
    }
}

impl Token {
    /// The mathematical model of this.
    pub open spec fn model(&self) -> TokenModel {
        match self {
            Token::Id(s) => TokenModel::Id(s@),
            Token::Number(s) => TokenModel::Number(s@),
            Token::String(s) => TokenModel::String(s@),
            Token::OpenParen => TokenModel::OpenParen,
            Token::CloseParen => TokenModel::CloseParen,
            Token::OpenBlock => TokenModel::OpenBlock,
            Token::CloseBlock => TokenModel::CloseBlock,
            Token::Comma => TokenModel::Comma,
            Token::Operator(op) => TokenModel::Operator(*op),
            Token::EOF => TokenModel::EOF,
            Token::RangeSeparator => TokenModel::RangeSeparator,
            Token::Assign => TokenModel::Assign,
            Token::Semicolon => TokenModel::Semicolon,
            Token::Keyword(k) => TokenModel::Keyword(*k),
            Token::Condition(c) => TokenModel::Condition(*c),
            Token::LexerError(c) => TokenModel::LexerError(*c),
        }
    }

    /// Whether this token ends the source.
    pub open spec fn is_end(&self) -> bool {
        self is EOF
    }

    /// Whether the two tokens are of one kind and read the same.
    pub open spec fn reads_as(&self, other: &Token) -> bool {
        self.model() == other.model()
    }

    /// Whether the two tokens are of one kind and read the same.
    pub fn same(&self, other: &Token) -> (r: bool)
        ensures
            r == self.reads_as(other),
    {
        match (self, other) {
            (Token::Id(a), Token::Id(b)) => *a == *b,
            (Token::Number(a), Token::Number(b)) => *a == *b,
            (Token::String(a), Token::String(b)) => *a == *b,
            (Token::OpenParen, Token::OpenParen) => true,
            (Token::CloseParen, Token::CloseParen) => true,
            (Token::OpenBlock, Token::OpenBlock) => true,
            (Token::CloseBlock, Token::CloseBlock) => true,
            (Token::Comma, Token::Comma) => true,
            (Token::Operator(a), Token::Operator(b)) => *a == *b,
            (Token::EOF, Token::EOF) => true,
            (Token::RangeSeparator, Token::RangeSeparator) => true,
            (Token::Assign, Token::Assign) => true,
            (Token::Semicolon, Token::Semicolon) => true,
            (Token::Keyword(a), Token::Keyword(b)) => *a == *b,
            (Token::Condition(a), Token::Condition(b)) => *a == *b,
            (Token::LexerError(a), Token::LexerError(b)) => *a == *b,
            _ => false,
        }
    }
}

impl Lexer {
    /// The characters of the source.
    pub closed spec fn chars(&self) -> Seq<char> {
        self.characters@
    }

    /// How many characters have been read.
    pub closed spec fn position(&self) -> nat {
        self.cursor as nat
    }

    /// Whether the lexer stands within its source.
    pub closed spec fn wf(&self) -> bool {
        &&& self.cursor <= self.characters@.len()
        &&& self.characters@ == self.source@
    }

    /// The lexer has read no more characters than the source has.
    pub proof fn lemma_within(&self)
        requires
            self.wf(),
        ensures
            self.position() <= self.chars().len(),
    {
    }

    /// A lexer at the start of `source`.
    pub fn new(source: String) -> (r: Lexer)
        ensures
            r.wf(),
            r.chars() == source@,
            r.position() == 0,
    {
        let characters = collect_chars(source.as_str());
        Lexer { source, characters, cursor: 0 }
    }

    /// The text of the source from character `from` up to character `to`.
    fn text(&self, from: usize, to: usize) -> (r: String)
        requires
            self.wf(),
            from <= to <= self.chars().len(),
        ensures
            r@ == self.chars().subrange(from as int, to as int),
    {
        String::from_str(self.source.as_str().substring_char(from, to))
    }

    /// The token `n` tokens ahead (the next one for `n` 0 or 1), without
    /// reading it.
    pub fn lookahead(&mut self, n: u32) -> (r: Option<Token>)
        requires
            old(self).wf(),
        ensures
            final(self).wf(),
            final(self).chars() == old(self).chars(),
            final(self).position() == old(self).position(),
            r matches Some(t) && t.model() == peek(old(self).chars(), old(self).position(), n as nat),
    {
        let previous_cursor = self.cursor;
        let mut i: u32 = 1;
        while i < n
            invariant
                1 <= i,
                self.wf(),
                self.chars() == old(self).chars(),
                previous_cursor <= self.characters@.len(),
                peek(old(self).chars(), old(self).position(), n as nat) == peek(
                    self.chars(),
                    self.position(),
                    if n <= i {
                        1nat
                    } else {
                        (n - i + 1) as nat
                    },
                ),
            decreases n - i,
        {
            let _ = self.next_token();
            i += 1;
        }
        let result = self.next_token();
        self.cursor = previous_cursor;
        result
    }

    /// Reads the next token, passing over blanks and comments. Where only
    /// those are left, the token is `EOF`, again and again; every other
    /// token takes at least one character.
    pub fn next_token(&mut self) -> (r: Option<Token>)
        requires
            old(self).wf(),
        ensures
            final(self).wf(),
            final(self).chars() == old(self).chars(),
            old(self).position() <= final(self).position(),
            r matches Some(t) && (!t.is_end() ==> old(self).position() < final(self).position()),
            r matches Some(t) && (t.model(), final(self).position()) == token_spec(
                old(self).chars(),
                old(self).position(),
            ),
    {
        let n = self.characters.len();
        proof {
            lemma_token_spec(self.chars(), self.position());
        }
        loop
            invariant
                self.wf(),
                n == self.characters@.len(),
                self.chars() == old(self).chars(),
                old(self).position() <= self.position(),
                token_start(old(self).chars(), old(self).position()) == token_start(
                    self.chars(),
                    self.position(),
                ),
            decreases n - self.cursor,
        {
            if self.cursor >= n {
                return Some(Token::EOF);
            }
            let start = self.cursor;
            let initial = self.characters[start];
            let second: Option<char> = if start + 1 < n {
                Some(self.characters[start + 1])
            } else {
                None
            };
            if is_space(initial) {
                self.cursor = start + 1;
                continue;
            }
            if initial == '/' && second == Some('/') {
                // a comment runs to the end of its line
                let mut at: usize = start + 2;
                while at < n && self.characters[at] != '\n'
                    invariant
                        start + 2 <= at <= n,
                        n == self.characters@.len(),
                        line_end(self.characters@, (start + 2) as nat) == line_end(
                            self.characters@,
                            at as nat,
                        ),
                    decreases n - at,
                {
                    at += 1;
                }
                self.cursor = if at < n {
                    at + 1
                } else {
                    n
                };
                continue;
            }
            self.cursor = start + 1;
            let token = match initial {
                '(' => Token::OpenParen,
                ')' => Token::CloseParen,
                '{' => Token::OpenBlock,
                '}' => Token::CloseBlock,
                ',' => Token::Comma,
                ';' => Token::Semicolon,
                '+' => Token::Operator(Op::Add),
                '-' => Token::Operator(Op::Sub),
                '*' => Token::Operator(Op::Mul),
                '^' => Token::Operator(Op::Exp),
                '/' => Token::Operator(Op::Div),
                '=' => if second == Some('=') {
                    self.cursor = start + 2;
                    Token::Operator(Op::Test)
                } else {
                    Token::Assign
                },
                '>' => if second == Some('=') {
                    self.cursor = start + 2;
                    Token::Operator(Op::GTE)
                } else {
                    Token::Operator(Op::GT)
                },
                '<' => if second == Some('=') {
                    self.cursor = start + 2;
                    Token::Operator(Op::LTE)
                } else {
                    Token::Operator(Op::LT)
                },
                '.' => if n - start > 2 && self.characters[start + 1] == '.' && self.characters[start
                    + 2] == '.' {
                    self.cursor = start + 3;
                    Token::RangeSeparator
                } else {
                    Token::LexerError(initial)
                },
                '"' => self.string_from(start),
                _ => if is_digit(initial) {
                    self.number_from(start)
                } else if is_alpha(initial) {
                    self.word_from(start)
                } else {
                    Token::LexerError(initial)
                },
            };
            return Some(token);
        }
    }

    /// Reads the number that starts at `start`: digits, and behind them a
    /// point and further digits, unless the point starts a range.
    fn number_from(&mut self, start: usize) -> (r: Token)
        requires
            old(self).wf(),
            start < old(self).chars().len(),
            old(self).position() == start + 1,
        ensures
            final(self).wf(),
            final(self).chars() == old(self).chars(),
            old(self).position() <= final(self).position(),
            final(self).position() == number_end(old(self).chars(), start as nat),
            r matches Token::Number(text) && text@ == old(self).chars().subrange(
                start as int,
                final(self).position() as int,
            ),
    {
        let n = self.characters.len();
        let mut at: usize = start + 1;
        while at < n && is_digit(self.characters[at])
            invariant
                start < at <= n,
                n == self.characters@.len(),
                digits_end(self.characters@, (start + 1) as nat) == digits_end(
                    self.characters@,
                    at as nat,
                ),
            decreases n - at,
        {
            at += 1;
        }
        let ranged = at < n && n - at > 1 && self.characters[at + 1] == '.';
        if at < n && self.characters[at] == '.' && !ranged {
            let ghost whole = at as nat;
            at += 1;
            while at < n && is_digit(self.characters[at])
                invariant
                    start < at <= n,
                    n == self.characters@.len(),
                    digits_end(self.characters@, whole + 1) == digits_end(
                        self.characters@,
                        at as nat,
                    ),
                decreases n - at,
            {
                at += 1;
            }
        }
        self.cursor = at;
        Token::Number(self.text(start, at))
    }

    /// Reads the word that starts at `start`: a keyword or word operator
    /// where it is one and what follows may follow one, else a name.
    fn word_from(&mut self, start: usize) -> (r: Token)
        requires
            old(self).wf(),
            start < old(self).chars().len(),
            old(self).position() == start + 1,
        ensures
            final(self).wf(),
            final(self).chars() == old(self).chars(),
            old(self).position() <= final(self).position(),
            (r.model(), final(self).position()) == word_token(old(self).chars(), start as nat),
    {
        let n = self.characters.len();
        let mut at: usize = start + 1;
        while at < n && is_word_char(self.characters[at])
            invariant
                start < at <= n,
                n == self.characters@.len(),
                word_end(self.characters@, (start + 1) as nat) == word_end(
                    self.characters@,
                    at as nat,
                ),
            decreases n - at,
        {
            at += 1;
        }
        self.cursor = at;
        let word = self.text(start, at);
        if at == n || is_terminator(self.characters[at]) {
            match reserved(&word) {
                Some(token) => token,
                None => Token::Id(word),
            }
        } else {
            Token::Id(word)
        }
    }

    /// Reads the string whose opening quote stands at `start`. A backslash
    /// takes the character behind it as it is. A string that the source
    /// does not close is an error.
    fn string_from(&mut self, start: usize) -> (r: Token)
        requires
            old(self).wf(),
            start < old(self).chars().len(),
            old(self).position() == start + 1,
        ensures
            final(self).wf(),
            final(self).chars() == old(self).chars(),
            old(self).position() <= final(self).position(),
            (r.model(), final(self).position()) == string_token(
                old(self).chars(),
                (start + 1) as nat,
                Seq::empty(),
            ),
    {
        let n = self.characters.len();
        let mut full = String::new();
        let mut piece: usize = start + 1;
        let mut at: usize = start + 1;
        assert(full@ + self.chars().subrange(piece as int, at as int) =~= Seq::<char>::empty());
        while at < n && self.characters[at] != '"'
            invariant
                self.wf(),
                self.chars() == old(self).chars(),
                self.position() == start + 1,
                start < piece <= at <= n,
                n == self.characters@.len(),
                string_token(self.chars(), (start + 1) as nat, Seq::empty()) == string_token(
                    self.chars(),
                    at as nat,
                    full@ + self.chars().subrange(piece as int, at as int),
                ),
            decreases n - at,
        {
            let ghost text = full@ + self.chars().subrange(piece as int, at as int);
            if self.characters[at] == '\\' && n - at > 1 {
                let before = self.text(piece, at);
                full.append(before.as_str());
                piece = at + 1;
                at += 2;
                assert(full@ + self.chars().subrange(piece as int, at as int) =~= text.push(
                    self.chars()[at - 1],
                ));
            } else {
                at += 1;
                assert(full@ + self.chars().subrange(piece as int, at as int) =~= text.push(
                    self.chars()[at - 1],
                ));
            }
        }
        if at >= n {
            self.cursor = n;
            return Token::LexerError('"');
        }
        let last = self.text(piece, at);
        full.append(last.as_str());
        self.cursor = at + 1;
        Token::String(full)
    }
}

} // verus!
