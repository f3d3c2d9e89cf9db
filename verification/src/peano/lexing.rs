//! The tokens of the surface syntax.

use vstd::prelude::*;
use vstd::string::StrSliceExecFns;

verus! {

/// A token of the surface syntax.
#[derive(Debug, Clone, Copy, PartialEq, Eq, Structural)]
pub enum Token {
    LParen,
    RParen,
    And,
    Or,
    Implies,
    Iff,
    Not,
    Forall,
    Exists,
    Eq,
    Plus,
    Successor,
    Number(u64),
    DeBruijn(u32),
}

/// A character of white space: the characters U+0009 to U+000D, the
/// blank, U+0085, the no-break blank, U+1680, U+2000 to U+200A, U+2028,
/// U+2029, U+202F, U+205F and U+3000.
pub open spec fn is_space(c: char) -> bool {
    let code = c as u32;
    (0x09 <= code && code <= 0x0d) || code == 0x20 || code == 0x85 || code == 0xa0 || code
        == 0x1680 || (0x2000 <= code && code <= 0x200a) || code == 0x2028 || code == 0x2029
        || code == 0x202f || code == 0x205f || code == 0x3000
}

/// Whether a character is white space.
pub fn is_whitespace(c: char) -> (b: bool)
    ensures
        b == is_space(c),
{
    let code = c as u32;
    (0x09 <= code && code <= 0x0d) || code == 0x20 || code == 0x85 || code == 0xa0 || code
        == 0x1680 || (0x2000 <= code && code <= 0x200a) || code == 0x2028 || code == 0x2029
        || code == 0x202f || code == 0x205f || code == 0x3000
}

/// A digit of base ten.
pub open spec fn is_digit(c: char) -> bool {
    '0' <= c && c <= '9'
}

/// Whether a character is a letter or a numeral of any script, as
/// `char::is_alphanumeric` of the standard library tells.
pub uninterp spec fn alphanumeric(c: char) -> bool;

/// Whether a character is a letter or a numeral. This is
/// `char::is_alphanumeric` of the standard library, taken on trust: the
/// answer depends on the character alone and is named, not written out.
#[verifier::external_body]
fn is_alphanumeric(c: char) -> (b: bool)
    ensures
        b == alphanumeric(c),
{
    c.is_alphanumeric()
}

/// A letter or a numeral, `-`, `<` or `>`.
pub open spec fn is_word_char(c: char) -> bool {
    alphanumeric(c) || c == '-' || c == '<' || c == '>'
}

/// The first place at or behind `pos` that holds no space.
pub open spec fn skip_spaces(chars: Seq<char>, pos: int) -> int
    decreases chars.len() - pos,
{
    if 0 <= pos < chars.len() && is_space(chars[pos]) {
        skip_spaces(chars, pos + 1)
    } else {
        pos
    }
}

/// The first place at or behind `pos` that holds no digit.
pub open spec fn digits_end(chars: Seq<char>, pos: int) -> int
    decreases chars.len() - pos,
{
    if 0 <= pos < chars.len() && is_digit(chars[pos]) {
        digits_end(chars, pos + 1)
    } else {
        pos
    }
}

/// The first place at or behind `pos` that holds no character of a word.
pub open spec fn word_end(chars: Seq<char>, pos: int) -> int
    decreases chars.len() - pos,
{
    if 0 <= pos < chars.len() && is_word_char(chars[pos]) {
        word_end(chars, pos + 1)
    } else {
        pos
    }
}

/// The number that the digits from `start` up to `end` write in base ten.
pub open spec fn digits_value(chars: Seq<char>, start: int, end: int) -> nat
    decreases end - start,
{
    if end <= start || end > chars.len() || start < 0 {
        0
    } else {
        digits_value(chars, start, end - 1) * 10 + (chars[end - 1] as u32 - '0' as u32) as nat
    }
}

/// The token that a word spells.
pub open spec fn keyword(word: Seq<char>) -> Option<Token> {
    if word == "AND"@ {
        Some(Token::And)
    } else if word == "OR"@ {
        Some(Token::Or)
    } else if word == "IMPLIES"@ || word == "->"@ {
        Some(Token::Implies)
    } else if word == "IFF"@ || word == "<->"@ {
        Some(Token::Iff)
    } else if word == "NOT"@ {
        Some(Token::Not)
    } else if word == "FORALL"@ {
        Some(Token::Forall)
    } else if word == "EXISTS"@ {
        Some(Token::Exists)
    } else if word == "EQ"@ {
        Some(Token::Eq)
    } else if word == "PLUS"@ {
        Some(Token::Plus)
    } else if word == "S"@ {
        Some(Token::Successor)
    } else {
        None
    }
}

/// The token that one character spells by itself.
pub open spec fn symbol(c: char) -> Option<Token> {
    if c == '(' {
        Some(Token::LParen)
    } else if c == ')' {
        Some(Token::RParen)
    } else if c == '∧' {
        Some(Token::And)
    } else if c == '∨' {
        Some(Token::Or)
    } else if c == '→' {
        Some(Token::Implies)
    } else if c == '↔' {
        Some(Token::Iff)
    } else if c == '¬' {
        Some(Token::Not)
    } else if c == '∀' {
        Some(Token::Forall)
    } else if c == '∃' {
        Some(Token::Exists)
    } else if c == '=' {
        Some(Token::Eq)
    } else if c == '+' {
        Some(Token::Plus)
    } else {
        None
    }
}

/// The token that starts at the first place at or behind `pos` that holds
/// no space, and the place behind it. Digits spell a number, `/` and digits
/// a variable; a number too large for its type, a `/` without digits, and a
/// word that is no keyword spell no token.
pub open spec fn spec_lex(chars: Seq<char>, pos: int) -> (Option<Token>, int) {
    let at = skip_spaces(chars, pos);
    if at < 0 || at >= chars.len() {
        (None, at)
    } else if chars[at] == '/' {
        let end = digits_end(chars, at + 1);
        let value = digits_value(chars, at + 1, end);
        if end == at + 1 || value > u32::MAX {
            (None, end)
        } else {
            (Some(Token::DeBruijn(value as u32)), end)
        }
    } else if is_digit(chars[at]) {
        let end = digits_end(chars, at);
        let value = digits_value(chars, at, end);
        if value > u64::MAX {
            (None, end)
        } else {
            (Some(Token::Number(value as u64)), end)
        }
    } else if symbol(chars[at]) is Some {
        (symbol(chars[at]), at + 1)
    } else {
        let end = word_end(chars, at);
        (keyword(chars.subrange(at, end)), end)
    }
}

/// The tokens from `pos` on, up to the end or to the first place that
/// spells no token.
pub open spec fn spec_tokens(chars: Seq<char>, pos: int) -> Seq<Token>
    decreases chars.len() - pos,
{
    let (token, next) = spec_lex(chars, pos);
    match token {
        Some(t) => if pos < next <= chars.len() {
            seq![t] + spec_tokens(chars, next)
        } else {
            seq![t]
        },
        None => Seq::empty(),
    }
}

/// Where each token from `pos` on starts, and behind them the place where
/// the reading stopped: the end of the text, or the start of what spells
/// no token.
pub open spec fn spec_offsets(chars: Seq<char>, pos: int) -> Seq<int>
    decreases chars.len() - pos,
{
    let (token, next) = spec_lex(chars, pos);
    let start = skip_spaces(chars, pos);
    match token {
        Some(t) => if pos < next <= chars.len() {
            seq![start] + spec_offsets(chars, next)
        } else {
            seq![start, start]
        },
        None => seq![start],
    }
}

/// Skipping spaces twice is skipping them once, and stays inside the text.
pub proof fn lemma_skip_spaces(chars: Seq<char>, pos: int)
    requires
        0 <= pos <= chars.len(),
    ensures
        pos <= skip_spaces(chars, pos) <= chars.len(),
        skip_spaces(chars, skip_spaces(chars, pos)) == skip_spaces(chars, pos),
        spec_lex(chars, skip_spaces(chars, pos)) == spec_lex(chars, pos),
    decreases chars.len() - pos,
{
    if pos < chars.len() && is_space(chars[pos]) {
        lemma_skip_spaces(chars, pos + 1);
    }
}

/// The characters of a text.
pub fn characters(input: &str) -> (chars: Vec<char>)
    ensures
        chars@ == input@,
{
    let n = input.unicode_len();
    let mut chars: Vec<char> = Vec::new();
    let mut i: usize = 0;
    while i < n
        invariant
            i <= n,
            n == input@.len(),
            chars@ == input@.take(i as int),
        decreases n - i,
    {
        chars.push(input.get_char(i));
        proof {
            assert(chars@ =~= input@.take(i + 1));
        }
        i += 1;
    }
    proof {
        assert(input@.take(i as int) =~= input@);
    }
    chars
}

/// Whether the characters from `start` up to `end` spell `word`.
pub fn spells(chars: &Vec<char>, start: usize, end: usize, word: &str) -> (b: bool)
    requires
        start <= end <= chars.len(),
    ensures
        b == (chars@.subrange(start as int, end as int) == word@),
{
    let n = word.unicode_len();
    if n != end - start {
        return false;
    }
    let mut i: usize = 0;
    while i < n
        invariant
            i <= n,
            n == word@.len(),
            n == end - start,
            start <= end <= chars.len(),
            forall|k: int| 0 <= k < i ==> chars@[start + k] == word@[k],
        decreases n - i,
    {
        if chars[start + i] != word.get_char(i) {
            proof {
                assert(chars@.subrange(start as int, end as int)[i as int] != word@[i as int]);
            }
            return false;
        }
        i += 1;
    }
    proof {
        assert(chars@.subrange(start as int, end as int) =~= word@);
    }
    true
}

/// Reading longer only reads more.
pub proof fn lemma_digits_value_grows(chars: Seq<char>, start: int, end: int)
    requires
        0 <= start <= end < chars.len(),
        is_digit(chars[end]),
    ensures
        digits_value(chars, start, end + 1) == digits_value(chars, start, end) * 10 + (
        chars[end] as u32 - '0' as u32) as nat,
        digits_value(chars, start, end + 1) >= digits_value(chars, start, end),
{
}

/// A lexer: the characters of a text and a place in them.
pub struct Lexer {
    chars: Vec<char>,
    pos: usize,
}

impl Lexer {
    /// The characters of the text that is read.
    pub closed spec fn text(&self) -> Seq<char> {
        self.chars@
    }

    /// The place that is read next.
    pub closed spec fn position(&self) -> int {
        self.pos as int
    }

    /// The place is inside the text or at its end.
    pub closed spec fn wf(&self) -> bool {
        self.pos <= self.chars@.len()
    }

    pub fn new(input: &str) -> (lexer: Self)
        ensures
            lexer.wf(),
            lexer.text() == input@,
            lexer.position() == 0,
    {
        Lexer { chars: characters(input), pos: 0 }
    }

    fn skip_whitespace(&mut self)
        requires
            old(self).wf(),
        ensures
            final(self).wf(),
            final(self).text() == old(self).text(),
            final(self).position() == skip_spaces(old(self).text(), old(self).position()),
    {
        while self.pos < self.chars.len() && is_whitespace(self.chars[self.pos])
            invariant
                self.pos <= self.chars@.len(),
                self.chars@ == old(self).chars@,
                skip_spaces(self.chars@, self.pos as int) == skip_spaces(
                    old(self).chars@,
                    old(self).pos as int,
                ),
            decreases self.chars@.len() - self.pos,
        {
            self.pos += 1;
        }
    }

    /// Reads digits from the place on: the number they write, or `None`
    /// where it is more than `limit`; the place moves behind the digits.
    fn read_digits(&mut self, limit: u64) -> (value: Option<u64>)
        requires
            old(self).wf(),
            limit >= 9,
        ensures
            final(self).wf(),
            final(self).text() == old(self).text(),
            final(self).position() == digits_end(old(self).text(), old(self).position()),
            value == (if digits_value(
                old(self).text(),
                old(self).position(),
                final(self).position(),
            ) > limit {
                None
            } else {
                Some(
                    digits_value(
                        old(self).text(),
                        old(self).position(),
                        final(self).position(),
                    ) as u64,
                )
            }),
    {
        let start = self.pos;
        let mut value: u64 = 0;
        let mut fits = true;
        while self.pos < self.chars.len() && '0' <= self.chars[self.pos] && self.chars[self.pos]
            <= '9'
            invariant
                start <= self.pos <= self.chars@.len(),
                self.chars@ == old(self).chars@,
                start == old(self).pos,
                limit >= 9,
                digits_end(self.chars@, self.pos as int) == digits_end(
                    old(self).chars@,
                    old(self).pos as int,
                ),
                fits ==> value == digits_value(self.chars@, start as int, self.pos as int)
                    && value <= limit,
                !fits ==> digits_value(self.chars@, start as int, self.pos as int) > limit,
            decreases self.chars@.len() - self.pos,
        {
            let digit = (self.chars[self.pos] as u32 - '0' as u32) as u64;
            proof {
                lemma_digits_value_grows(self.chars@, start as int, self.pos as int);
            }
            if fits {
                if value > (limit - digit) / 10 {
                    fits = false;
                } else {
                    value = value * 10 + digit;
                }
            }
            self.pos += 1;
        }
        if fits {
            Some(value)
        } else {
            None
        }
    }

    /// The next token, or `None` at the end of the text and at a place
    /// that spells no token.
    pub fn next_token(&mut self) -> (token: Option<Token>)
        requires
            old(self).wf(),
        ensures
            final(self).wf(),
            final(self).text() == old(self).text(),
            (token, final(self).position()) == spec_lex(old(self).text(), old(self).position()),
    {
        self.skip_whitespace();
        if self.pos >= self.chars.len() {
            return None;
        }
        let c = self.chars[self.pos];
        if c == '/' {
            let at = self.pos;
            self.pos += 1;
            let value = self.read_digits(0xffff_ffff);
            if self.pos == at + 1 {
                return None;
            }
            return match value {
                Some(v) => Some(Token::DeBruijn(v as u32)),
                None => None,
            };
        }
        if '0' <= c && c <= '9' {
            return match self.read_digits(u64::MAX) {
                Some(v) => Some(Token::Number(v)),
                None => None,
            };
        }
        if c == '(' {
            self.pos += 1;
            return Some(Token::LParen);
        }
        if c == ')' {
            self.pos += 1;
            return Some(Token::RParen);
        }
        if c == '∧' {
            self.pos += 1;
            return Some(Token::And);
        }
        if c == '∨' {
            self.pos += 1;
            return Some(Token::Or);
        }
        if c == '→' {
            self.pos += 1;
            return Some(Token::Implies);
        }
        if c == '↔' {
            self.pos += 1;
            return Some(Token::Iff);
        }
        if c == '¬' {
            self.pos += 1;
            return Some(Token::Not);
        }
        if c == '∀' {
            self.pos += 1;
            return Some(Token::Forall);
        }
        if c == '∃' {
            self.pos += 1;
            return Some(Token::Exists);
        }
        if c == '=' {
            self.pos += 1;
            return Some(Token::Eq);
        }
        if c == '+' {
            self.pos += 1;
            return Some(Token::Plus);
        }
        let start = self.pos;
        while self.pos < self.chars.len() && (is_alphanumeric(self.chars[self.pos])
            || self.chars[self.pos] == '-' || self.chars[self.pos] == '<' || self.chars[self.pos]
            == '>')
            invariant
                start <= self.pos <= self.chars@.len(),
                self.chars@ == old(self).chars@,
                word_end(self.chars@, self.pos as int) == word_end(self.chars@, start as int),
            decreases self.chars@.len() - self.pos,
        {
            self.pos += 1;
        }
        let end = self.pos;
        if spells(&self.chars, start, end, "AND") {
            Some(Token::And)
        } else if spells(&self.chars, start, end, "OR") {
            Some(Token::Or)
        } else if spells(&self.chars, start, end, "IMPLIES") || spells(
            &self.chars,
            start,
            end,
            "->",
        ) {
            Some(Token::Implies)
        } else if spells(&self.chars, start, end, "IFF") || spells(&self.chars, start, end, "<->") {
            Some(Token::Iff)
        } else if spells(&self.chars, start, end, "NOT") {
            Some(Token::Not)
        } else if spells(&self.chars, start, end, "FORALL") {
            Some(Token::Forall)
        } else if spells(&self.chars, start, end, "EXISTS") {
            Some(Token::Exists)
        } else if spells(&self.chars, start, end, "EQ") {
            Some(Token::Eq)
        } else if spells(&self.chars, start, end, "PLUS") {
            Some(Token::Plus)
        } else if spells(&self.chars, start, end, "S") {
            Some(Token::Successor)
        } else {
            None
        }
    }

    /// All tokens from the place on.
    pub fn tokens(&mut self) -> (tokens: Vec<Token>)
        requires
            old(self).wf(),
        ensures
            final(self).wf(),
            final(self).text() == old(self).text(),
            tokens@ == spec_tokens(old(self).text(), old(self).position()),
    {
        let mut tokens: Vec<Token> = Vec::new();
        proof {
            assert(tokens@ + spec_tokens(self.chars@, self.pos as int) =~= spec_tokens(
                self.chars@,
                self.pos as int,
            ));
        }
        loop
            invariant
                self.wf(),
                self.chars@ == old(self).chars@,
                tokens@ + spec_tokens(self.chars@, self.pos as int) == spec_tokens(
                    old(self).chars@,
                    old(self).pos as int,
                ),
            decreases self.chars@.len() - self.pos,
        {
            let before = self.pos;
            let ghost so_far = tokens@;
            match self.next_token() {
                Some(token) => {
                    tokens.push(token);
                    if self.pos <= before {
                        proof {
                            assert(tokens@ =~= so_far + seq![token]);
                        }
                        return tokens;
                    }
                    proof {
                        assert(tokens@ + spec_tokens(self.chars@, self.pos as int) =~= so_far + (
                        seq![token] + spec_tokens(self.chars@, self.pos as int)));
                    }
                },
                None => {
                    proof {
                        assert(tokens@ + Seq::<Token>::empty() =~= tokens@);
                    }
                    return tokens;
                },
            }
        }
    }
}

/// The tokens of a text with the places where they start, and behind those
/// the place where the reading stopped.
pub fn tokenize_with_offsets(input: &str) -> (read: (Vec<Token>, Vec<usize>))
    ensures
        read.0@ == spec_tokens(input@, 0),
        read.1@.len() == read.0@.len() + 1,
        read.1@.map_values(|at: usize| at as int) == spec_offsets(input@, 0),
        forall|i: int| 0 <= i < read.1@.len() ==> (#[trigger] read.1@[i]) <= input@.len(),
{
    let mut lexer = Lexer::new(input);
    let mut tokens: Vec<Token> = Vec::new();
    let mut offsets: Vec<usize> = Vec::new();
    proof {
        assert(tokens@ + spec_tokens(input@, 0) =~= spec_tokens(input@, 0));
        assert(offsets@.map_values(|at: usize| at as int) + spec_offsets(input@, 0)
            =~= spec_offsets(input@, 0));
    }
    loop
        invariant
            lexer.wf(),
            lexer.chars@ == input@,
            tokens@ + spec_tokens(input@, lexer.pos as int) == spec_tokens(input@, 0),
            offsets@.map_values(|at: usize| at as int) + spec_offsets(input@, lexer.pos as int)
                == spec_offsets(input@, 0),
            offsets@.len() == tokens@.len(),
            forall|i: int| 0 <= i < offsets@.len() ==> (#[trigger] offsets@[i]) <= input@.len(),
        decreases input@.len() - lexer.pos,
    {
        let before = lexer.pos;
        let ghost tokens_so_far = tokens@;
        let ghost offsets_so_far = offsets@.map_values(|at: usize| at as int);
        proof {
            lemma_skip_spaces(input@, before as int);
        }
        lexer.skip_whitespace();
        let start = lexer.pos;
        offsets.push(start);
        proof {
            assert(offsets@.map_values(|at: usize| at as int) =~= offsets_so_far + seq![
                start as int,
            ]);
        }
        match lexer.next_token() {
            Some(token) => {
                tokens.push(token);
                if lexer.pos <= before {
                    offsets.push(start);
                    proof {
                        assert(tokens@ =~= tokens_so_far + seq![token]);
                        assert(offsets@.map_values(|at: usize| at as int) =~= offsets_so_far
                            + seq![start as int, start as int]);
                    }
                    return (tokens, offsets);
                }
                proof {
                    assert(tokens@ + spec_tokens(input@, lexer.pos as int) =~= tokens_so_far + (
                    seq![token] + spec_tokens(input@, lexer.pos as int)));
                    assert(offsets@.map_values(|at: usize| at as int) + spec_offsets(
                        input@,
                        lexer.pos as int,
                    ) =~= offsets_so_far + (seq![start as int] + spec_offsets(
                        input@,
                        lexer.pos as int,
                    )));
                }
            },
            None => {
                proof {
                    assert(tokens@ + Seq::<Token>::empty() =~= tokens@);
                }
                return (tokens, offsets);
            },
        }
    }
}

/// The tokens of a text, up to its end or to the first place that spells none.
pub fn tokenize(input: &str) -> (tokens: Vec<Token>)
    ensures
        tokens@ == spec_tokens(input@, 0),
{
    let mut lexer = Lexer::new(input);
    lexer.tokens()
}

} // verus!
