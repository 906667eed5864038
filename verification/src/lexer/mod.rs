use vstd::prelude::*;
use vstd::string::*;

verus! {

/// A lexical token of the source language.
#[derive(Debug, Eq, PartialEq)]
pub enum Token {
    Illegal,
    Eof,
    // Keywords
    Let,
    Func,
    If,
    Else,
    For,
    True,
    False,
    Return,
    Run,
    Dis,
    IntType,
    BoolType,
    // Idents & Literals
    Ident(String),
    Int(i64),
    // Operators
    Assign,
    Plus,
    Minus,
    Bang,
    GreaterThan,
    LessThan,
    And,
    Equal,
    NotEqual,
    // Delimiters
    Comma,
    Semicolon,
    Colon,
    LParen,
    RParen,
    LBrace,
    RBrace,
}

/// The mathematical value of a [`Token`]: an identifier carries its characters.
pub ghost enum TokenView {
    Illegal,
    Eof,
    Let,
    Func,
    If,
    Else,
    For,
    True,
    False,
    Return,
    Run,
    Dis,
    IntType,
    BoolType,
    Ident(Seq<char>),
    Int(i64),
    Assign,
    Plus,
    Minus,
    Bang,
    GreaterThan,
    LessThan,
    And,
    Equal,
    NotEqual,
    Comma,
    Semicolon,
    Colon,
    LParen,
    RParen,
    LBrace,
    RBrace,
}

impl View for Token {
    type V = TokenView;

    open spec fn view(&self) -> TokenView {
        match self {
            Token::Illegal => TokenView::Illegal,
            Token::Eof => TokenView::Eof,
            Token::Let => TokenView::Let,
            Token::Func => TokenView::Func,
            Token::If => TokenView::If,
            Token::Else => TokenView::Else,
            Token::For => TokenView::For,
            Token::True => TokenView::True,
            Token::False => TokenView::False,
            Token::Return => TokenView::Return,
            Token::Run => TokenView::Run,
            Token::Dis => TokenView::Dis,
            Token::IntType => TokenView::IntType,
            Token::BoolType => TokenView::BoolType,
            Token::Ident(name) => TokenView::Ident(name@),
            Token::Int(value) => TokenView::Int(*value),
            Token::Assign => TokenView::Assign,
            Token::Plus => TokenView::Plus,
            Token::Minus => TokenView::Minus,
            Token::Bang => TokenView::Bang,
            Token::GreaterThan => TokenView::GreaterThan,
            Token::LessThan => TokenView::LessThan,
            Token::And => TokenView::And,
            Token::Equal => TokenView::Equal,
            Token::NotEqual => TokenView::NotEqual,
            Token::Comma => TokenView::Comma,
            Token::Semicolon => TokenView::Semicolon,
            Token::Colon => TokenView::Colon,
            Token::LParen => TokenView::LParen,
            Token::RParen => TokenView::RParen,
            Token::LBrace => TokenView::LBrace,
            Token::RBrace => TokenView::RBrace,
        }
    }
}

impl Clone for Token {
    fn clone(&self) -> (copy: Self)
        ensures
            copy@ == self@,
    {
        match self {
            Token::Illegal => Token::Illegal,
            Token::Eof => Token::Eof,
            Token::Let => Token::Let,
            Token::Func => Token::Func,
            Token::If => Token::If,
            Token::Else => Token::Else,
            Token::For => Token::For,
            Token::True => Token::True,
            Token::False => Token::False,
            Token::Return => Token::Return,
            Token::Run => Token::Run,
            Token::Dis => Token::Dis,
            Token::IntType => Token::IntType,
            Token::BoolType => Token::BoolType,
            Token::Ident(name) => Token::Ident(name.clone()),
            Token::Int(value) => Token::Int(*value),
            Token::Assign => Token::Assign,
            Token::Plus => Token::Plus,
            Token::Minus => Token::Minus,
            Token::Bang => Token::Bang,
            Token::GreaterThan => Token::GreaterThan,
            Token::LessThan => Token::LessThan,
            Token::And => Token::And,
            Token::Equal => Token::Equal,
            Token::NotEqual => Token::NotEqual,
            Token::Comma => Token::Comma,
            Token::Semicolon => Token::Semicolon,
            Token::Colon => Token::Colon,
            Token::LParen => Token::LParen,
            Token::RParen => Token::RParen,
            Token::LBrace => Token::LBrace,
            Token::RBrace => Token::RBrace,
        }
    }
}

/// Whether two tokens are the same token.
pub fn same_token(a: &Token, b: &Token) -> (same: bool)
    ensures
        same == (a@ == b@),
{
    match (a, b) {
        (Token::Illegal, Token::Illegal) => true,
        (Token::Eof, Token::Eof) => true,
        (Token::Let, Token::Let) => true,
        (Token::Func, Token::Func) => true,
        (Token::If, Token::If) => true,
        (Token::Else, Token::Else) => true,
        (Token::For, Token::For) => true,
        (Token::True, Token::True) => true,
        (Token::False, Token::False) => true,
        (Token::Return, Token::Return) => true,
        (Token::Run, Token::Run) => true,
        (Token::Dis, Token::Dis) => true,
        (Token::IntType, Token::IntType) => true,
        (Token::BoolType, Token::BoolType) => true,
        (Token::Assign, Token::Assign) => true,
        (Token::Plus, Token::Plus) => true,
        (Token::Minus, Token::Minus) => true,
        (Token::Bang, Token::Bang) => true,
        (Token::GreaterThan, Token::GreaterThan) => true,
        (Token::LessThan, Token::LessThan) => true,
        (Token::And, Token::And) => true,
        (Token::Equal, Token::Equal) => true,
        (Token::NotEqual, Token::NotEqual) => true,
        (Token::Comma, Token::Comma) => true,
        (Token::Semicolon, Token::Semicolon) => true,
        (Token::Colon, Token::Colon) => true,
        (Token::LParen, Token::LParen) => true,
        (Token::RParen, Token::RParen) => true,
        (Token::LBrace, Token::LBrace) => true,
        (Token::RBrace, Token::RBrace) => true,
        (Token::Ident(x), Token::Ident(y)) => *x == *y,
        (Token::Int(x), Token::Int(y)) => *x == *y,
        _ => false,
    }
}

/// An ASCII letter.
pub open spec fn letter(b: u8) -> bool {
    (('a' as u8) <= b && b <= ('z' as u8)) || (('A' as u8) <= b && b <= ('Z' as u8))
}

/// An ASCII decimal digit.
pub open spec fn digit(b: u8) -> bool {
    ('0' as u8) <= b && b <= ('9' as u8)
}

/// A blank, tab, line feed or carriage return.
pub open spec fn space(b: u8) -> bool {
    b == (' ' as u8) || b == ('\t' as u8) || b == ('\n' as u8) || b == ('\r' as u8)
}

/// The byte at `pos`, or 0 past the end.
pub open spec fn byte_at(bytes: Seq<u8>, pos: int) -> u8 {
    if 0 <= pos < bytes.len() {
        bytes[pos]
    } else {
        0
    }
}

/// The first position at or after `pos` that holds no whitespace.
pub open spec fn skip_spaces(bytes: Seq<u8>, pos: int) -> int
    decreases bytes.len() - pos,
{
    if 0 <= pos < bytes.len() && space(bytes[pos]) {
        skip_spaces(bytes, pos + 1)
    } else {
        pos
    }
}

/// The end of the longest run of letters and digits that starts at `pos`.
pub open spec fn word_end(bytes: Seq<u8>, pos: int) -> int
    decreases bytes.len() - pos,
{
    if 0 <= pos < bytes.len() && (letter(bytes[pos]) || digit(bytes[pos])) {
        word_end(bytes, pos + 1)
    } else {
        pos
    }
}

/// The end of the longest run of digits that starts at `pos`.
pub open spec fn number_end(bytes: Seq<u8>, pos: int) -> int
    decreases bytes.len() - pos,
{
    if 0 <= pos < bytes.len() && digit(bytes[pos]) {
        number_end(bytes, pos + 1)
    } else {
        pos
    }
}

/// The characters that a run of ASCII bytes spells.
pub open spec fn ascii_text(bytes: Seq<u8>) -> Seq<char> {
    Seq::new(bytes.len(), |i: int| bytes[i] as char)
}

/// The number that a run of decimal digits denotes.
pub open spec fn decimal(digits: Seq<u8>) -> nat
    decreases digits.len(),
{
    if digits.len() == 0 {
        0
    } else {
        (decimal(digits.drop_last()) * 10 + (digits.last() - ('0' as u8))) as nat
    }
}

/// The token that a word spells: a keyword, or else an identifier.
pub open spec fn word_token(text: Seq<char>) -> TokenView {
    if text == "func"@ {
        TokenView::Func
    } else if text == "let"@ {
        TokenView::Let
    } else if text == "if"@ {
        TokenView::If
    } else if text == "else"@ {
        TokenView::Else
    } else if text == "for"@ {
        TokenView::For
    } else if text == "true"@ {
        TokenView::True
    } else if text == "false"@ {
        TokenView::False
    } else if text == "return"@ {
        TokenView::Return
    } else if text == "run"@ {
        TokenView::Run
    } else if text == "dis"@ {
        TokenView::Dis
    } else if text == "int"@ {
        TokenView::IntType
    } else if text == "bool"@ {
        TokenView::BoolType
    } else {
        TokenView::Ident(text)
    }
}

/// The token that a run of digits spells: its value, or `Illegal` when the
/// value does not fit in an `i64`.
pub open spec fn number_token(digits: Seq<u8>) -> TokenView {
    if decimal(digits) <= i64::MAX {
        TokenView::Int(decimal(digits) as i64)
    } else {
        TokenView::Illegal
    }
}

/// The token that starts exactly at `pos`, and the position just behind it.
pub open spec fn token_at(bytes: Seq<u8>, pos: int) -> (TokenView, int) {
    let c = byte_at(bytes, pos);
    let n = byte_at(bytes, pos + 1);
    if pos < 0 || pos >= bytes.len() {
        (TokenView::Eof, pos)
    } else if c == ('=' as u8) {
        if n == ('=' as u8) {
            (TokenView::Equal, pos + 2)
        } else {
            (TokenView::Assign, pos + 1)
        }
    } else if c == ('+' as u8) {
        (TokenView::Plus, pos + 1)
    } else if c == ('-' as u8) {
        (TokenView::Minus, pos + 1)
    } else if c == (':' as u8) {
        (TokenView::Colon, pos + 1)
    } else if c == ('!' as u8) {
        if n == ('=' as u8) {
            (TokenView::NotEqual, pos + 2)
        } else {
            (TokenView::Bang, pos + 1)
        }
    } else if c == ('>' as u8) {
        (TokenView::GreaterThan, pos + 1)
    } else if c == ('<' as u8) {
        (TokenView::LessThan, pos + 1)
    } else if c == (',' as u8) {
        (TokenView::Comma, pos + 1)
    } else if c == ('&' as u8) {
        if n == ('&' as u8) {
            (TokenView::And, pos + 2)
        } else {
            (TokenView::Illegal, pos + 1)
        }
    } else if c == (';' as u8) {
        (TokenView::Semicolon, pos + 1)
    } else if c == ('(' as u8) {
        (TokenView::LParen, pos + 1)
    } else if c == (')' as u8) {
        (TokenView::RParen, pos + 1)
    } else if c == ('{' as u8) {
        (TokenView::LBrace, pos + 1)
    } else if c == ('}' as u8) {
        (TokenView::RBrace, pos + 1)
    } else if letter(c) {
        let end = word_end(bytes, pos);
        (word_token(ascii_text(bytes.subrange(pos, end))), end)
    } else if digit(c) {
        let end = number_end(bytes, pos);
        (number_token(bytes.subrange(pos, end)), end)
    } else {
        (TokenView::Illegal, pos + 1)
    }
}

/// The next token at or after `pos`, whitespace skipped, and the position
/// just behind it. At the end of the input the token is `Eof`.
pub open spec fn scan(bytes: Seq<u8>, pos: int) -> (TokenView, int) {
    token_at(bytes, skip_spaces(bytes, pos))
}

/// All tokens from `pos` up to the end of the input, without the final `Eof`.
pub open spec fn tokens_from(bytes: Seq<u8>, pos: int) -> Seq<TokenView>
    decreases bytes.len() - pos,
{
    let (token, next) = scan(bytes, pos);
    if token == TokenView::Eof || next <= pos || next > bytes.len() {
        Seq::empty()
    } else {
        seq![token] + tokens_from(bytes, next)
    }
}

/// Skipping whitespace stays inside the input and ends on no whitespace.
pub proof fn lemma_skip_spaces_bounds(bytes: Seq<u8>, pos: int)
    requires
        0 <= pos <= bytes.len(),
    ensures
        pos <= skip_spaces(bytes, pos) <= bytes.len(),
        !space(byte_at(bytes, skip_spaces(bytes, pos))),
    decreases bytes.len() - pos,
{
    if pos < bytes.len() && space(bytes[pos]) {
        lemma_skip_spaces_bounds(bytes, pos + 1);
    }
}

/// A word ends inside the input.
pub proof fn lemma_word_end_bounds(bytes: Seq<u8>, pos: int)
    requires
        0 <= pos <= bytes.len(),
    ensures
        pos <= word_end(bytes, pos) <= bytes.len(),
    decreases bytes.len() - pos,
{
    if pos < bytes.len() && (letter(bytes[pos]) || digit(bytes[pos])) {
        lemma_word_end_bounds(bytes, pos + 1);
    }
}

/// A number ends inside the input.
pub proof fn lemma_number_end_bounds(bytes: Seq<u8>, pos: int)
    requires
        0 <= pos <= bytes.len(),
    ensures
        pos <= number_end(bytes, pos) <= bytes.len(),
    decreases bytes.len() - pos,
{
    if pos < bytes.len() && digit(bytes[pos]) {
        lemma_number_end_bounds(bytes, pos + 1);
    }
}

/// Every token but `Eof` takes at least one byte, and none ends past the input.
pub proof fn lemma_scan_advances(bytes: Seq<u8>, pos: int)
    requires
        0 <= pos <= bytes.len(),
    ensures
        pos <= scan(bytes, pos).1 <= bytes.len(),
        scan(bytes, pos).0 != TokenView::Eof ==> pos < scan(bytes, pos).1,
        scan(bytes, pos).0 == TokenView::Eof <==> skip_spaces(bytes, pos) == bytes.len(),
        scan(bytes, pos).0 == TokenView::Eof ==> scan(bytes, pos).1 == bytes.len(),
{
    lemma_skip_spaces_bounds(bytes, pos);
    let start = skip_spaces(bytes, pos);
    lemma_word_end_bounds(bytes, start);
    lemma_number_end_bounds(bytes, start);
    if start < bytes.len() {
        let c = bytes[start];
        if letter(c) {
            lemma_word_end_bounds(bytes, start + 1);
            lemma_word_is_no_eof(ascii_text(bytes.subrange(start, word_end(bytes, start))));
        } else if digit(c) {
            lemma_number_end_bounds(bytes, start + 1);
        }
    }
}

proof fn lemma_word_is_no_eof(text: Seq<char>)
    ensures
        word_token(text) != TokenView::Eof,
{
}

/// Whether a byte is an ASCII letter.
pub fn is_letter(chr: u8) -> (r: bool)
    ensures
        r == letter(chr),
{
    (('a' as u8) <= chr && chr <= ('z' as u8)) || (('A' as u8) <= chr && chr <= ('Z' as u8))
}

/// Whether a byte is an ASCII decimal digit.
pub fn is_digit(chr: u8) -> (r: bool)
    ensures
        r == digit(chr),
{
    ('0' as u8) <= chr && chr <= ('9' as u8)
}


/// Reads tokens from a source text, byte by byte.
pub struct Lexer {
    bytes: Vec<u8>,
    position: usize,
    read_position: usize,
    ch: u8,
}

/// The one-character text of an ASCII letter or digit.
fn letter_text(b: u8) -> (text: &'static str)
    requires
        letter(b) || digit(b),
    ensures
        text@ == seq![b as char],
{
    let lower = "abcdefghijklmnopqrstuvwxyz";
    let upper = "ABCDEFGHIJKLMNOPQRSTUVWXYZ";
    let digits = "0123456789";
    proof {
        reveal_strlit("abcdefghijklmnopqrstuvwxyz");
        reveal_strlit("ABCDEFGHIJKLMNOPQRSTUVWXYZ");
        reveal_strlit("0123456789");
    }
    if b >= ('a' as u8) {
        let i: usize = (b - ('a' as u8)) as usize;
        let text = lower.substring_ascii(i, i + 1);
        assert(text@ =~= seq![b as char]);
        text
    } else if b >= ('A' as u8) {
        let i: usize = (b - ('A' as u8)) as usize;
        let text = upper.substring_ascii(i, i + 1);
        assert(text@ =~= seq![b as char]);
        text
    } else {
        let i: usize = (b - ('0' as u8)) as usize;
        let text = digits.substring_ascii(i, i + 1);
        assert(text@ =~= seq![b as char]);
        text
    }
}

/// The token that a word spells.
fn word_to_token(word: String) -> (token: Token)
    ensures
        token@ == word_token(word@),
{
    if word == String::from_str("func") {
        Token::Func
    } else if word == String::from_str("let") {
        Token::Let
    } else if word == String::from_str("if") {
        Token::If
    } else if word == String::from_str("else") {
        Token::Else
    } else if word == String::from_str("for") {
        Token::For
    } else if word == String::from_str("true") {
        Token::True
    } else if word == String::from_str("false") {
        Token::False
    } else if word == String::from_str("return") {
        Token::Return
    } else if word == String::from_str("run") {
        Token::Run
    } else if word == String::from_str("dis") {
        Token::Dis
    } else if word == String::from_str("int") {
        Token::IntType
    } else if word == String::from_str("bool") {
        Token::BoolType
    } else {
        Token::Ident(word)
    }
}

impl Lexer {
    /// The bytes of the source text.
    pub closed spec fn source(&self) -> Seq<u8> {
        self.bytes@
    }

    /// How many bytes have been consumed.
    pub closed spec fn offset(&self) -> int {
        self.position as int
    }

    /// The lexer's invariant: the current byte is the one at the current position.
    pub closed spec fn wf(&self) -> bool {
        &&& self.position <= self.bytes.len()
        &&& self.read_position == if self.position < self.bytes.len() {
            self.position + 1
        } else {
            self.position as int
        }
        &&& self.ch == byte_at(self.bytes@, self.position as int)
    }

    /// The tokens still to come, without the final `Eof`.
    pub open spec fn pending(&self) -> Seq<TokenView> {
        tokens_from(self.source(), self.offset())
    }

    /// The lexer never stands behind the end of its input.
    pub proof fn lemma_offset_in_source(&self)
        requires
            self.wf(),
        ensures
            0 <= self.offset() <= self.source().len(),
    {
    }

    /// Moves to the next byte; at the end of the input it stays there.
    pub fn read_char(&mut self)
        requires
            old(self).wf(),
        ensures
            final(self).wf(),
            final(self).source() == old(self).source(),
            final(self).offset() == if old(self).offset() < old(self).source().len() {
                old(self).offset() + 1
            } else {
                old(self).offset()
            },
    {
        if self.read_position >= self.bytes.len() {
            self.ch = 0;
            self.position = self.bytes.len();
            self.read_position = self.position;
        } else {
            self.ch = self.bytes[self.read_position];
            self.position = self.read_position;
            self.read_position = self.position + 1;
        }
    }

    /// The byte after the current one, if there is one.
    pub fn peek_char(&mut self) -> (next: Option<u8>)
        requires
            old(self).wf(),
        ensures
            *final(self) == *old(self),
            next == if old(self).offset() + 1 < old(self).source().len() {
                Some(old(self).source()[old(self).offset() + 1])
            } else {
                None
            },
    {
        if self.read_position >= self.bytes.len() {
            return None;
        }
        return Some(self.bytes[self.read_position]);
    }

    /// Whether the byte after the current one is `chr`.
    pub fn next_char_is(&mut self, chr: u8) -> (is: bool)
        requires
            old(self).wf(),
        ensures
            *final(self) == *old(self),
            is == (old(self).offset() + 1 < old(self).source().len() && old(self).source()[old(
                self,
            ).offset() + 1] == chr),
    {
        if let Some(ch) = self.peek_char() {
            if ch == chr {
                return true;
            }
        }
        return false;
    }

    /// Skips blanks, tabs and line ends.
    pub fn skip_whitespace(&mut self)
        requires
            old(self).wf(),
        ensures
            final(self).wf(),
            final(self).source() == old(self).source(),
            final(self).offset() == skip_spaces(old(self).source(), old(self).offset()),
    {
        loop
            invariant
                self.wf(),
                self.bytes@ == old(self).bytes@,
                old(self).position <= self.position,
                skip_spaces(self.bytes@, self.position as int) == skip_spaces(
                    old(self).bytes@,
                    old(self).position as int,
                ),
            decreases self.bytes.len() - self.position,
        {
            if self.ch == (' ' as u8) || self.ch == ('\t' as u8) || self.ch == ('\n' as u8)
                || self.ch == ('\r' as u8) {
                self.read_char();
            } else {
                return ;
            }
        }
    }

    /// Reads the word that starts at the current byte.
    pub fn read_identifier(&mut self) -> (word: String)
        requires
            old(self).wf(),
        ensures
            final(self).wf(),
            final(self).source() == old(self).source(),
            final(self).offset() == word_end(old(self).source(), old(self).offset()),
            word@ == ascii_text(
                old(self).source().subrange(old(self).offset(), final(self).offset()),
            ),
    {
        let ghost start = self.position as int;
        let mut word = String::new();
        assert(word@ =~= ascii_text(self.bytes@.subrange(start, start)));
        while is_letter(self.ch) || is_digit(self.ch)
            invariant
                self.wf(),
                self.bytes@ == old(self).bytes@,
                start == old(self).position,
                start <= self.position,
                word_end(self.bytes@, self.position as int) == word_end(self.bytes@, start),
                word@ == ascii_text(self.bytes@.subrange(start, self.position as int)),
            decreases self.bytes.len() - self.position,
        {
            word.append(letter_text(self.ch));
            self.read_char();
            assert(word@ =~= ascii_text(self.bytes@.subrange(start, self.position as int)));
        }
        word
    }

    /// Reads the number that starts at the current byte; `None` when its value
    /// does not fit in an `i64`.
    pub fn read_number(&mut self) -> (value: Option<i64>)
        requires
            old(self).wf(),
        ensures
            final(self).wf(),
            final(self).source() == old(self).source(),
            final(self).offset() == number_end(old(self).source(), old(self).offset()),
            value.is_some() <==> decimal(
                old(self).source().subrange(old(self).offset(), final(self).offset()),
            ) <= i64::MAX,
            value.is_some() ==> value.unwrap() == decimal(
                old(self).source().subrange(old(self).offset(), final(self).offset()),
            ),
    {
        let ghost start = self.position as int;
        let mut value: i64 = 0;
        let mut fits = true;
        assert(self.bytes@.subrange(start, start) =~= Seq::<u8>::empty());
        while is_digit(self.ch)
            invariant
                self.wf(),
                self.bytes@ == old(self).bytes@,
                start == old(self).position,
                start <= self.position,
                number_end(self.bytes@, self.position as int) == number_end(self.bytes@, start),
                0 <= value,
                fits ==> value == decimal(self.bytes@.subrange(start, self.position as int)),
                !fits ==> decimal(self.bytes@.subrange(start, self.position as int)) > i64::MAX,
            decreases self.bytes.len() - self.position,
        {
            let d: i64 = (self.ch - ('0' as u8)) as i64;
            let ghost before = self.bytes@.subrange(start, self.position as int);
            proof {
                let after = self.bytes@.subrange(start, self.position as int + 1);
                assert(after.drop_last() =~= before);
                assert(after.last() == self.ch);
                assert(decimal(after) == decimal(before) * 10 + d);
            }
            if fits && value <= (i64::MAX - d) / 10 {
                value = value * 10 + d;
            } else {
                fits = false;
            }
            self.read_char();
        }
        if fits {
            Some(value)
        } else {
            None
        }
    }

    /// Reads the next token. After the last token of the input every call
    /// returns `Eof`.
    pub fn next_token(&mut self) -> (token: Token)
        requires
            old(self).wf(),
        ensures
            final(self).wf(),
            final(self).source() == old(self).source(),
            token@ == scan(old(self).source(), old(self).offset()).0,
            final(self).offset() == scan(old(self).source(), old(self).offset()).1,
    {
        self.skip_whitespace();
        proof {
            lemma_skip_spaces_bounds(old(self).bytes@, old(self).position as int);
        }
        if self.position >= self.bytes.len() {
            return Token::Eof;
        }
        let c = self.ch;
        let tok = if c == ('=' as u8) {
            if self.next_char_is('=' as u8) {
                self.read_char();
                Token::Equal
            } else {
                Token::Assign
            }
        } else if c == ('+' as u8) {
            Token::Plus
        } else if c == ('-' as u8) {
            Token::Minus
        } else if c == (':' as u8) {
            Token::Colon
        } else if c == ('!' as u8) {
            if self.next_char_is('=' as u8) {
                self.read_char();
                Token::NotEqual
            } else {
                Token::Bang
            }
        } else if c == ('>' as u8) {
            Token::GreaterThan
        } else if c == ('<' as u8) {
            Token::LessThan
        } else if c == (',' as u8) {
            Token::Comma
        } else if c == ('&' as u8) {
            if self.next_char_is('&' as u8) {
                self.read_char();
                Token::And
            } else {
                Token::Illegal
            }
        } else if c == (';' as u8) {
            Token::Semicolon
        } else if c == ('(' as u8) {
            Token::LParen
        } else if c == (')' as u8) {
            Token::RParen
        } else if c == ('{' as u8) {
            Token::LBrace
        } else if c == ('}' as u8) {
            Token::RBrace
        } else if is_letter(c) {
            let iden = self.read_identifier();
            return word_to_token(iden);
        } else if is_digit(c) {
            return match self.read_number() {
                Some(number) => Token::Int(number),
                None => Token::Illegal,
            };
        } else {
            Token::Illegal
        };
        self.read_char();
        return tok;
    }
}

/// A lexer that will read `text` from its first byte.
pub fn new_lexer(text: &str) -> (lexer: Lexer)
    ensures
        lexer.wf(),
        lexer.source() == text.spec_bytes(),
        lexer.offset() == 0,
{
    let mut lex = Lexer { bytes: text.as_bytes_vec(), position: 0, read_position: 0, ch: 0 };
    if lex.bytes.len() > 0 {
        lex.ch = lex.bytes[0];
        lex.read_position = 1;
    }
    lex
}

} // verus!
