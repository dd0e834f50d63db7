//! Scanner: turns source bytes into tokens on demand.
use vstd::prelude::*;
use vstd::string::StringSliceAdditionalSpecFns;
use vstd::utf8::{
    encode_utf8_valid_utf8, is_char_boundary, is_char_boundary_iff_not_is_continuation_byte,
    is_char_boundary_start_end_of_seq, length_of_first_scalar, pop_first_scalar, valid_utf8,
};

verus! {

#[derive(PartialEq, Eq, Structural, Debug, Copy, Clone)]
pub enum TokenKind {
    // Single-character tokens.
    LeftParen,
    RightParen,
    LeftBrace,
    RightBrace,
    Comma,
    Dot,
    Minus,
    Plus,
    Semicolon,
    Slash,
    Star,
    // One or two character tokens.
    Bang,
    BangEqual,
    Equal,
    EqualEqual,
    Greater,
    GreaterEqual,
    Less,
    LessEqual,
    // Literals.
    Identifier,
    String,
    Number,
    // Reserved words.
    And,
    Class,
    Else,
    False,
    For,
    Fun,
    If,
    Nil,
    Or,
    Print,
    Return,
    Super,
    This,
    True,
    Var,
    While,
    Error,
    Eof,
}

// ---------------------------------------------------------------------------
// Byte classes
// ---------------------------------------------------------------------------

pub open spec fn is_digit_byte(c: u8) -> bool {
    48 <= c <= 57
}

/// ASCII letter or `_`.
pub open spec fn is_alpha_byte(c: u8) -> bool {
    (65 <= c <= 90) || (97 <= c <= 122) || c == 95
}

/// A byte that may continue an identifier.
pub open spec fn is_word_byte(c: u8) -> bool {
    is_alpha_byte(c) || is_digit_byte(c)
}

/// ASCII whitespace: space, tab, line feed, form feed, carriage return.
pub open spec fn is_space_byte(c: u8) -> bool {
    c == 32 || c == 9 || c == 10 || c == 12 || c == 13
}

pub fn is_digit(c: u8) -> (r: bool)
    ensures
        r == is_digit_byte(c),
{
    48 <= c && c <= 57
}

pub fn is_alphabetic_or_underscore(c: u8) -> (r: bool)
    ensures
        r == is_alpha_byte(c),
{
    (65 <= c && c <= 90) || (97 <= c && c <= 122) || c == 95
}

pub fn is_whitespace(c: u8) -> (r: bool)
    ensures
        r == is_space_byte(c),
{
    c == 32 || c == 9 || c == 10 || c == 12 || c == 13
}

pub fn is_newline(c: u8) -> (r: bool)
    ensures
        r == (c == 10),
{
    c == 10
}

// ---------------------------------------------------------------------------
// The scanning rules, stated over the source bytes
// ---------------------------------------------------------------------------

/// Skips whitespace and `//` comments from `p`; `in_comment` says that a
/// comment is open. Each consumed line feed advances the line.
/// Returns the position of the next significant byte and the line there.
pub open spec fn skip_trivia(b: Seq<u8>, p: int, line: int, in_comment: bool) -> (int, int)
    decreases b.len() - p,
{
    if p < 0 || p >= b.len() {
        (p, line)
    } else if in_comment {
        if b[p] == 10 {
            skip_trivia(b, p + 1, line + 1, false)
        } else {
            skip_trivia(b, p + 1, line, true)
        }
    } else if is_space_byte(b[p]) {
        skip_trivia(b, p + 1, if b[p] == 10 { line + 1 } else { line }, false)
    } else if b[p] == 47 && p + 1 < b.len() && b[p + 1] == 47 {
        skip_trivia(b, p + 2, line, true)
    } else {
        (p, line)
    }
}

/// End of the run of digits starting at `p`.
pub open spec fn digits_end(b: Seq<u8>, p: int) -> int
    decreases b.len() - p,
{
    if 0 <= p < b.len() && is_digit_byte(b[p]) {
        digits_end(b, p + 1)
    } else {
        p
    }
}

/// End of the run of identifier bytes starting at `p`.
pub open spec fn word_end(b: Seq<u8>, p: int) -> int
    decreases b.len() - p,
{
    if 0 <= p < b.len() && is_word_byte(b[p]) {
        word_end(b, p + 1)
    } else {
        p
    }
}

/// Looks for the closing quote of a string literal from `p` on.
/// Returns the position just past it (or the end of the input), the line
/// there, and whether the quote was found.
pub open spec fn string_end(b: Seq<u8>, p: int, line: int) -> (int, int, bool)
    decreases b.len() - p,
{
    if p < 0 || p >= b.len() {
        (p, line, false)
    } else if b[p] == 34 {
        (p + 1, line, true)
    } else if b[p] == 10 {
        string_end(b, p + 1, line + 1)
    } else {
        string_end(b, p + 1, line)
    }
}

/// The kind of a one-byte token, for the bytes that never start a longer one.
pub open spec fn single_kind(c: u8) -> Option<TokenKind> {
    if c == 40 {
        Some(TokenKind::LeftParen)
    } else if c == 41 {
        Some(TokenKind::RightParen)
    } else if c == 123 {
        Some(TokenKind::LeftBrace)
    } else if c == 125 {
        Some(TokenKind::RightBrace)
    } else if c == 59 {
        Some(TokenKind::Semicolon)
    } else if c == 44 {
        Some(TokenKind::Comma)
    } else if c == 46 {
        Some(TokenKind::Dot)
    } else if c == 45 {
        Some(TokenKind::Minus)
    } else if c == 43 {
        Some(TokenKind::Plus)
    } else if c == 42 {
        Some(TokenKind::Star)
    } else if c == 47 {
        Some(TokenKind::Slash)
    } else {
        None
    }
}

/// For `!`, `=`, `<`, `>`: the kind alone and the kind followed by `=`.
pub open spec fn pair_kinds(c: u8) -> Option<(TokenKind, TokenKind)> {
    if c == 33 {
        Some((TokenKind::Bang, TokenKind::BangEqual))
    } else if c == 61 {
        Some((TokenKind::Equal, TokenKind::EqualEqual))
    } else if c == 60 {
        Some((TokenKind::Less, TokenKind::LessEqual))
    } else if c == 62 {
        Some((TokenKind::Greater, TokenKind::GreaterEqual))
    } else {
        None
    }
}

/// `w` stands at `p` and the byte after it (if any) cannot continue a word.
pub open spec fn word_at(b: Seq<u8>, p: int, w: Seq<u8>) -> bool {
    &&& 0 <= p
    &&& p + w.len() <= b.len()
    &&& b.subrange(p, p + w.len()) == w
    &&& (p + w.len() == b.len() || !is_word_byte(b[p + w.len()]))
}

/// The reserved words with their kinds, in the order they are tried.
pub open spec fn reserved_words() -> Seq<(Seq<u8>, TokenKind)> {
    seq![
        (seq![97u8, 110, 100], TokenKind::And),
        (seq![99u8, 108, 97, 115, 115], TokenKind::Class),
        (seq![101u8, 108, 115, 101], TokenKind::Else),
        (seq![105u8, 102], TokenKind::If),
        (seq![110u8, 105, 108], TokenKind::Nil),
        (seq![111u8, 114], TokenKind::Or),
        (seq![112u8, 114, 105, 110, 116], TokenKind::Print),
        (seq![114u8, 101, 116, 117, 114, 110], TokenKind::Return),
        (seq![115u8, 117, 112, 101, 114], TokenKind::Super),
        (seq![118u8, 97, 114], TokenKind::Var),
        (seq![119u8, 104, 105, 108, 101], TokenKind::While),
        (seq![102u8, 97, 108, 115, 101], TokenKind::False),
        (seq![102u8, 111, 114], TokenKind::For),
        (seq![102u8, 117, 110], TokenKind::Fun),
        (seq![116u8, 104, 105, 115], TokenKind::This),
        (seq![116u8, 114, 117, 101], TokenKind::True),
    ]
}

/// The first reserved word, from index `i` of the table on, that stands at `p`.
pub open spec fn reserved_from(b: Seq<u8>, p: int, i: int) -> Option<(TokenKind, int)>
    decreases reserved_words().len() - i,
{
    if i < 0 || i >= reserved_words().len() {
        None
    } else if word_at(b, p, reserved_words()[i].0) {
        Some((reserved_words()[i].1, reserved_words()[i].0.len() as int))
    } else {
        reserved_from(b, p, i + 1)
    }
}

/// A token found by the scanner: kind, first byte, end (exclusive), line.
pub type Span = (TokenKind, int, int, int);

/// The token that starts at the significant byte `p` (on `line`), and the
/// scanner's position and line after it. `None` ends the token stream.
pub open spec fn scan_at(b: Seq<u8>, p: int, line: int) -> (Option<Span>, int, int) {
    if p < 0 || p >= b.len() {
        (None, p, line)
    } else if single_kind(b[p]).is_some() {
        (Some((single_kind(b[p]).unwrap(), p, p + 1, line)), p + 1, line)
    } else if pair_kinds(b[p]).is_some() {
        if p + 1 < b.len() && b[p + 1] == 61 {
            (Some((pair_kinds(b[p]).unwrap().1, p, p + 2, line)), p + 2, line)
        } else {
            (Some((pair_kinds(b[p]).unwrap().0, p, p + 1, line)), p + 1, line)
        }
    } else if b[p] == 34 {
        let (e, l, found) = string_end(b, p + 1, line);
        if found {
            (Some((TokenKind::String, p, e, line)), e, l)
        } else {
            (None, e, l)
        }
    } else if is_digit_byte(b[p]) {
        (Some((TokenKind::Number, p, digits_end(b, p), line)), digits_end(b, p), line)
    } else if reserved_from(b, p, 0).is_some() {
        let (k, n) = reserved_from(b, p, 0).unwrap();
        (Some((k, p, p + n, line)), p + n, line)
    } else if is_alpha_byte(b[p]) {
        (Some((TokenKind::Identifier, p, word_end(b, p), line)), word_end(b, p), line)
    } else {
        (None, p, line)
    }
}

/// One step of the scanner from position `p` on `line`: skip whitespace and
/// comments, then read one token.
pub open spec fn scan(b: Seq<u8>, p: int, line: int) -> (Option<Span>, int, int) {
    let (q, l) = skip_trivia(b, p, line, false);
    scan_at(b, q, l)
}


/// Every token of the stream from position `p` on `line`, in order.
pub open spec fn scan_all(b: Seq<u8>, p: int, line: int) -> Seq<Span>
    decreases b.len() - p,
{
    if !(0 <= p <= b.len()) {
        Seq::empty()
    } else {
        let (t, q, l) = scan(b, p, line);
        match t {
            Some(s) => if p < q <= b.len() {
                seq![s] + scan_all(b, q, l)
            } else {
                Seq::empty()
            },
            None => Seq::empty(),
        }
    }
}

// ---------------------------------------------------------------------------
// Character boundaries of the source

// ---------------------------------------------------------------------------

/// In valid UTF-8, an ASCII byte starts a character and so does the byte
/// after it.
pub proof fn lemma_ascii_boundaries(b: Seq<u8>, i: int)
    requires
        valid_utf8(b),
        0 <= i < b.len(),
        b[i] < 128,
    ensures
        is_char_boundary(b, i),
        is_char_boundary(b, i + 1),
    decreases b.len(),
{
    is_char_boundary_iff_not_is_continuation_byte(b, i);
    if i + 1 == b.len() {
        is_char_boundary_start_end_of_seq(b);
    } else if i == 0 {
        reveal_with_fuel(is_char_boundary, 2);
        assert(is_char_boundary(pop_first_scalar(b), 0));
    } else {
        let rest = pop_first_scalar(b);
        let l = length_of_first_scalar(b);
        assert(is_char_boundary(b, i) == is_char_boundary(rest, i - l));
        assert(is_char_boundary(b, i + 1) == is_char_boundary(rest, i + 1 - l));
        assert(rest[i - l] == b[i]);
        lemma_ascii_boundaries(rest, i - l);
    }
}

/// The bytes of a `&str` are valid UTF-8.
pub proof fn lemma_str_valid(s: &str)
    ensures
        valid_utf8(s.spec_bytes()),
{
    encode_utf8_valid_utf8(s@);
}

/// The part of `s` between two byte positions, when both start characters.
pub fn substring<'a>(s: &'a str, from: usize, to: usize) -> (r: Option<&'a str>)
    requires
        from <= to <= s.spec_bytes().len(),
    ensures
        r.is_some() == (is_char_boundary(s.spec_bytes(), from as int) && is_char_boundary(
            s.spec_bytes(),
            to as int,
        )),
        r.is_some() ==> r.unwrap().spec_bytes() == s.spec_bytes().subrange(from as int, to as int),
{
    proof {
        lemma_str_valid(s);
        is_char_boundary_start_end_of_seq(s.spec_bytes());
    }
    if !s.is_char_boundary(to) {
        return None;
    }
    let (head, _) = s.split_at(to);
    let ghost hb = head.spec_bytes();
    proof {
        lemma_str_valid(head);
        is_char_boundary_start_end_of_seq(hb);
        if from < to {
            is_char_boundary_iff_not_is_continuation_byte(hb, from as int);
            is_char_boundary_iff_not_is_continuation_byte(s.spec_bytes(), from as int);
        }
    }
    if !head.is_char_boundary(from) {
        return None;
    }
    let (_, piece) = head.split_at(from);
    assert(piece.spec_bytes() =~= s.spec_bytes().subrange(from as int, to as int));
    Some(piece)
}


/// The reserved word at index `i` of the table, as bytes, with its kind.
fn reserved_word(i: usize) -> (r: (&'static [u8], TokenKind))
    requires
        i < reserved_words().len(),
    ensures
        r.0@ == reserved_words()[i as int].0,
        r.1 == reserved_words()[i as int].1,
        r.0@.len() > 0,
        forall|j: int| 0 <= j < r.0@.len() ==> #[trigger] r.0@[j] < 128,
{
    let r: (&'static [u8], TokenKind) = match i {
        0 => (&[97u8, 110, 100], TokenKind::And),
        1 => (&[99u8, 108, 97, 115, 115], TokenKind::Class),
        2 => (&[101u8, 108, 115, 101], TokenKind::Else),
        3 => (&[105u8, 102], TokenKind::If),
        4 => (&[110u8, 105, 108], TokenKind::Nil),
        5 => (&[111u8, 114], TokenKind::Or),
        6 => (&[112u8, 114, 105, 110, 116], TokenKind::Print),
        7 => (&[114u8, 101, 116, 117, 114, 110], TokenKind::Return),
        8 => (&[115u8, 117, 112, 101, 114], TokenKind::Super),
        9 => (&[118u8, 97, 114], TokenKind::Var),
        10 => (&[119u8, 104, 105, 108, 101], TokenKind::While),
        11 => (&[102u8, 97, 108, 115, 101], TokenKind::False),
        12 => (&[102u8, 111, 114], TokenKind::For),
        13 => (&[102u8, 117, 110], TokenKind::Fun),
        14 => (&[116u8, 104, 105, 115], TokenKind::This),
        _ => (&[116u8, 114, 117, 101], TokenKind::True),
    };
    r
}

// ---------------------------------------------------------------------------
// Tokens
// ---------------------------------------------------------------------------

/// A token: its kind, the source text it covers (quotes included for a
/// string), the byte offset of its first byte and its line.
#[derive(PartialEq, Debug)]
pub struct Token<'a> {
    pub kind: TokenKind,
    pub source: &'a str,
    pub offset: usize,
    pub line: usize,
}

impl<'a> Token<'a> {
    pub fn new(kind: TokenKind, source: &'a str, source_offset: usize, line: usize) -> (r: Self)
        ensures
            r.kind == kind,
            r.source == source,
            r.offset == source_offset,
            r.line == line,
    {
        Token { kind, source, offset: source_offset, line }
    }

    pub fn is_kind(&self, kind: TokenKind) -> (r: bool)
        ensures
            r == (self.kind == kind),
    {
        self.kind == kind
    }
}

/// `t` is the token that `s` describes within the source bytes `b`.
pub open spec fn token_is<'a>(t: Token<'a>, s: Span, b: Seq<u8>) -> bool {
    &&& t.kind == s.0
    &&& t.offset == s.1
    &&& t.line == s.3
    &&& t.source.spec_bytes() == b.subrange(s.1, s.2)
}

/// `t` is the outcome that `s` describes.
pub open spec fn outcome_is<'a>(t: Option<Token<'a>>, s: Option<Span>, b: Seq<u8>) -> bool {
    match (t, s) {
        (None, None) => true,
        (Some(t), Some(s)) => token_is(t, s, b),
        _ => false,
    }
}

// ---------------------------------------------------------------------------
// The scanner
// ---------------------------------------------------------------------------

/// A forward-only scanner over a source text. `current` is the next byte to
/// read, `checkpoint` the first byte of the token being made.
#[derive(Debug)]
pub struct Tokenizer<'a> {
    source: &'a str,
    as_bytes: &'a [u8],
    checkpoint: usize,
    current: usize,
    line: usize,
}

impl<'a> Tokenizer<'a> {
    /// The source bytes.
    pub closed spec fn bytes(&self) -> Seq<u8> {
        self.as_bytes@
    }

    pub closed spec fn src(&self) -> &'a str {
        self.source
    }

    pub closed spec fn pos(&self) -> int {
        self.current as int
    }

    pub closed spec fn mark(&self) -> int {
        self.checkpoint as int
    }

    pub closed spec fn at_line(&self) -> int {
        self.line as int
    }

    pub closed spec fn wf(&self) -> bool {
        &&& self.as_bytes@ == self.source.spec_bytes()
        &&& self.line <= self.current
        &&& self.as_bytes@.len() <= usize::MAX
    }

    pub proof fn lemma_wf(&self)
        requires
            self.wf(),
        ensures
            self.bytes() == self.src().spec_bytes(),
            valid_utf8(self.bytes()),
            0 <= self.at_line() <= self.pos() <= usize::MAX,
            0 <= self.mark() <= usize::MAX,
            self.bytes().len() <= usize::MAX,
    {
        lemma_str_valid(self.source);
    }

    pub fn new(source: &'a str) -> (r: Self)
        ensures
            r.wf(),
            r.src() == source,
            r.bytes() == source.spec_bytes(),
            r.pos() == 0,
            r.mark() == 0,
            r.at_line() == 0,
    {
        let as_bytes = source.as_bytes();
        let _ = as_bytes.len();
        Tokenizer { source, as_bytes, checkpoint: 0, current: 0, line: 0 }
    }

    /// The position of the next byte to read.
    pub fn current(&self) -> (r: usize)
        ensures
            r == self.pos(),
    {
        self.current
    }

    /// The line the scanner is on.
    pub fn line(&self) -> (r: usize)
        ensures
            r == self.at_line(),
    {
        self.line
    }

    /// The source from the current position on.
    pub fn rest(&self) -> (r: &'a str)
        requires
            self.wf(),
            self.pos() <= self.bytes().len(),
            is_char_boundary(self.bytes(), self.pos()),
        ensures
            r.spec_bytes() == self.bytes().subrange(self.pos(), self.bytes().len() as int),
    {
        proof {
            lemma_str_valid(self.source);
            is_char_boundary_start_end_of_seq(self.bytes());
        }
        let len = self.as_bytes.len();
        let r = substring(self.source, self.current, len);
        r.unwrap()
    }

    pub fn advance_byte(&mut self)
        requires
            old(self).wf(),
            old(self).pos() < usize::MAX,
        ensures
            final(self).wf(),
            final(self).pos() == old(self).pos() + 1,
            final(self).bytes() == old(self).bytes(),
            final(self).src() == old(self).src(),
            final(self).mark() == old(self).mark(),
            final(self).at_line() == old(self).at_line(),
    {
        self.current = self.current + 1;
    }

    pub fn advance_bytes(&mut self, amount: usize)
        requires
            old(self).wf(),
            amount > 0,
            old(self).pos() + amount <= usize::MAX,
        ensures
            final(self).wf(),
            final(self).pos() == old(self).pos() + amount,
            final(self).bytes() == old(self).bytes(),
            final(self).src() == old(self).src(),
            final(self).mark() == old(self).mark(),
            final(self).at_line() == old(self).at_line(),
    {
        self.current = self.current + amount;
    }

    fn advance_line(&mut self)
        requires
            old(self).wf(),
            old(self).at_line() < old(self).pos(),
        ensures
            final(self).wf(),
            final(self).pos() == old(self).pos(),
            final(self).bytes() == old(self).bytes(),
            final(self).src() == old(self).src(),
            final(self).mark() == old(self).mark(),
            final(self).at_line() == old(self).at_line() + 1,
    {
        self.line = self.line + 1;
    }

    /// Skips one byte.
    pub fn drop_byte(&mut self)
        requires
            old(self).wf(),
            old(self).pos() < usize::MAX,
        ensures
            final(self).wf(),
            final(self).pos() == old(self).pos() + 1,
            final(self).bytes() == old(self).bytes(),
            final(self).src() == old(self).src(),
            final(self).mark() == old(self).mark(),
            final(self).at_line() == old(self).at_line(),
    {
        self.advance_byte();
    }

    /// The byte at the current position, if any; the scanner does not move.
    pub fn peek_byte(&self) -> (r: Option<u8>)
        requires
            self.wf(),
        ensures
            r == (if self.pos() < self.bytes().len() {
                Some(self.bytes()[self.pos()])
            } else {
                None
            }),
    {
        if self.current >= self.as_bytes.len() {
            None
        } else {
            Some(self.as_bytes[self.current])
        }
    }

    /// Reads the byte at the current position and moves past it; at the end
    /// of the input it returns `None` and stays.
    pub fn take_byte(&mut self) -> (r: Option<u8>)
        requires
            old(self).wf(),
        ensures
            final(self).wf(),
            final(self).bytes() == old(self).bytes(),
            final(self).src() == old(self).src(),
            final(self).mark() == old(self).mark(),
            final(self).at_line() == old(self).at_line(),
            old(self).pos() < old(self).bytes().len() ==> r == Some(old(self).bytes()[old(self).pos()])
                && final(self).pos() == old(self).pos() + 1,
            old(self).pos() >= old(self).bytes().len() ==> r.is_none() && final(self).pos()
                == old(self).pos(),
    {
        if self.current >= self.as_bytes.len() {
            None
        } else {
            let c = self.as_bytes[self.current];
            self.advance_byte();
            Some(c)
        }
    }

    /// The `amount` bytes from the current position as text, when they are
    /// there and form whole characters.
    pub fn peek_bytes(&self, amount: usize) -> (r: Option<&'a str>)
        requires
            self.wf(),
        ensures
            r.is_some() == (self.pos() + amount <= self.bytes().len() && is_char_boundary(
                self.bytes(),
                self.pos(),
            ) && is_char_boundary(self.bytes(), self.pos() + amount)),
            r.is_some() ==> r.unwrap().spec_bytes() == self.bytes().subrange(
                self.pos(),
                self.pos() + amount,
            ),
    {
        let len = self.as_bytes.len();
        if self.current > len || amount > len - self.current {
            None
        } else {
            substring(self.source, self.current, self.current + amount)
        }
    }

    /// Like `peek_bytes`, and moves past the bytes it returns.
    pub fn take_bytes(&mut self, amount: usize) -> (r: Option<&'a str>)
        requires
            old(self).wf(),
        ensures
            final(self).wf(),
            final(self).bytes() == old(self).bytes(),
            final(self).src() == old(self).src(),
            final(self).mark() == old(self).mark(),
            final(self).at_line() == old(self).at_line(),
            r.is_some() == (old(self).pos() + amount <= old(self).bytes().len() && is_char_boundary(
                old(self).bytes(),
                old(self).pos(),
            ) && is_char_boundary(old(self).bytes(), old(self).pos() + amount)),
            r.is_some() ==> r.unwrap().spec_bytes() == old(self).bytes().subrange(
                old(self).pos(),
                old(self).pos() + amount,
            ) && final(self).pos() == old(self).pos() + amount,
            r.is_none() ==> final(self).pos() == old(self).pos(),
    {
        let r = self.peek_bytes(amount);
        if r.is_some() {
            self.current = self.current + amount;
        }
        r
    }

    /// Marks the current position as the start of a token and returns the
    /// byte there, if any.
    pub fn checkpoint(&mut self) -> (r: Option<u8>)
        requires
            old(self).wf(),
        ensures
            final(self).wf(),
            final(self).bytes() == old(self).bytes(),
            final(self).src() == old(self).src(),
            final(self).pos() == old(self).pos(),
            final(self).at_line() == old(self).at_line(),
            final(self).mark() == old(self).pos(),
            r == (if old(self).pos() < old(self).bytes().len() {
                Some(old(self).bytes()[old(self).pos()])
            } else {
                None
            }),
    {
        self.checkpoint = self.current;
        self.peek_byte()
    }

    /// Skips whitespace, advancing the line at each line feed.
    fn take_whitespace(&mut self)
        requires
            old(self).wf(),
        ensures
            final(self).wf(),
            final(self).bytes() == old(self).bytes(),
            final(self).src() == old(self).src(),
            final(self).mark() == old(self).mark(),
            final(self).pos() >= old(self).pos(),
            skip_trivia(final(self).bytes(), final(self).pos(), final(self).at_line(), false)
                == skip_trivia(old(self).bytes(), old(self).pos(), old(self).at_line(), false),
            final(self).pos() >= final(self).bytes().len() || !is_space_byte(
                final(self).bytes()[final(self).pos()],
            ),
            old(self).pos() < old(self).bytes().len() && is_space_byte(
                old(self).bytes()[old(self).pos()],
            ) ==> final(self).pos() > old(self).pos(),
            old(self).pos() <= old(self).bytes().len() ==> final(self).pos() <= old(
                self,
            ).bytes().len(),
    {
        let len = self.as_bytes.len();
        while self.current < len && is_whitespace(self.as_bytes[self.current])
            invariant
                self.wf(),
                self.as_bytes@.len() == len,
                self.bytes() == old(self).bytes(),
                self.src() == old(self).src(),
                self.mark() == old(self).mark(),
                self.pos() >= old(self).pos(),
                old(self).pos() <= len ==> self.pos() <= len,
                skip_trivia(self.bytes(), self.pos(), self.at_line(), false) == skip_trivia(
                    old(self).bytes(),
                    old(self).pos(),
                    old(self).at_line(),
                    false,
                ),
            decreases len - self.current,
        {
            let c = self.as_bytes[self.current];
            self.advance_byte();
            if is_newline(c) {
                self.advance_line();
            }
        }
    }

    /// Skips a `//` comment up to and including the line feed that ends it.
    fn take_comment(&mut self)
        requires
            old(self).wf(),
            old(self).pos() + 1 < old(self).bytes().len(),
            old(self).bytes()[old(self).pos()] == 47,
            old(self).bytes()[old(self).pos() + 1] == 47,
        ensures
            final(self).wf(),
            final(self).bytes() == old(self).bytes(),
            final(self).src() == old(self).src(),
            final(self).mark() == old(self).mark(),
            final(self).pos() > old(self).pos(),
            final(self).pos() <= final(self).bytes().len(),
            skip_trivia(final(self).bytes(), final(self).pos(), final(self).at_line(), false)
                == skip_trivia(old(self).bytes(), old(self).pos(), old(self).at_line(), false),
    {
        let len = self.as_bytes.len();
        let ghost b = self.bytes();
        let ghost start = self.pos();
        let ghost l = self.at_line();
        assert(skip_trivia(b, start, l, false) == skip_trivia(b, start + 2, l, true));
        self.advance_bytes(2);
        let mut open = true;
        while open
            invariant
                self.wf(),
                self.as_bytes@.len() == len,
                self.bytes() == b,
                self.src() == old(self).src(),
                self.mark() == old(self).mark(),
                start + 2 <= self.pos() <= len,
                skip_trivia(b, self.pos(), self.at_line(), open) == skip_trivia(b, start, l, false),
            decreases (len - self.current) as int + (if open { 1int } else { 0int }),
        {
            match self.take_byte() {
                Some(c) => {
                    if is_newline(c) {
                        self.advance_line();
                        open = false;
                    }
                },
                None => {
                    open = false;
                },
            }
        }
    }

    /// Whether the reserved word `what` stands at the current position,
    /// followed by a byte that cannot continue a word (or by the end).
    fn match_bytes(&self, what: &[u8]) -> (r: bool)
        requires
            self.wf(),
        ensures
            r == word_at(self.bytes(), self.pos(), what@),
    {
        let len = self.as_bytes.len();
        let n = what.len();
        if self.current > len || n > len - self.current {
            return false;
        }
        let mut i: usize = 0;
        while i < n
            invariant
                self.wf(),
                len == self.bytes().len(),
                n == what@.len(),
                self.pos() + n <= len,
                0 <= i <= n,
                forall|j: int| 0 <= j < i ==> self.bytes()[self.pos() + j] == what@[j],
            decreases n - i,
        {
            if self.as_bytes[self.current + i] != what[i] {
                assert(self.bytes().subrange(self.pos(), self.pos() + n)[i as int] != what@[i as int]);
                return false;
            }
            i = i + 1;
        }
        assert(self.bytes().subrange(self.pos(), self.pos() + n) =~= what@);
        let end = self.current + n;
        if end < len {
            let c = self.as_bytes[end];
            !(is_alphabetic_or_underscore(c) || is_digit(c))
        } else {
            true
        }
    }

    /// The token of `kind` from the checkpoint to the current position, on `line`.
    fn token_from(&self, kind: TokenKind, line: usize) -> (r: Token<'a>)
        requires
            self.wf(),
            0 <= self.mark() < self.pos() <= self.bytes().len(),
            self.bytes()[self.mark()] < 128,
            self.bytes()[self.pos() - 1] < 128,
        ensures
            token_is(r, (kind, self.mark(), self.pos(), line as int), self.bytes()),
    {
        proof {
            lemma_str_valid(self.source);
            lemma_ascii_boundaries(self.bytes(), self.mark());
            lemma_ascii_boundaries(self.bytes(), self.pos() - 1);
        }
        let text = substring(self.source, self.checkpoint, self.current);
        Token::new(kind, text.unwrap(), self.checkpoint, line)
    }

    /// The token of `kind` from the checkpoint to the current position.
    pub fn create_token(&self, kind: TokenKind) -> (r: Token<'a>)
        requires
            self.wf(),
            0 <= self.mark() < self.pos() <= self.bytes().len(),
            self.bytes()[self.mark()] < 128,
            self.bytes()[self.pos() - 1] < 128,
        ensures
            token_is(r, (kind, self.mark(), self.pos(), self.at_line()), self.bytes()),
    {
        self.token_from(kind, self.line)
    }

    /// A token of `kind` made of the next `length` bytes.
    fn make_token_with_length(&mut self, kind: TokenKind, length: usize) -> (r: Option<Token<'a>>)
        requires
            old(self).wf(),
            length > 0,
            old(self).pos() + length <= old(self).bytes().len(),
            old(self).bytes()[old(self).pos()] < 128,
            old(self).bytes()[old(self).pos() + length - 1] < 128,
        ensures
            final(self).wf(),
            final(self).bytes() == old(self).bytes(),
            final(self).src() == old(self).src(),
            final(self).at_line() == old(self).at_line(),
            final(self).pos() == old(self).pos() + length,
            outcome_is(
                r,
                Some((kind, old(self).pos(), old(self).pos() + length, old(self).at_line())),
                old(self).bytes(),
            ),
    {
        self.checkpoint();
        self.advance_bytes(length);
        Some(self.create_token(kind))
    }

    /// A string literal, quotes included; `None` when it is not closed.
    fn make_string(&mut self) -> (r: Option<Token<'a>>)
        requires
            old(self).wf(),
            old(self).pos() < old(self).bytes().len(),
            old(self).bytes()[old(self).pos()] == 34,
        ensures
            final(self).wf(),
            final(self).bytes() == old(self).bytes(),
            final(self).src() == old(self).src(),
            ({
                let (e, l, found) = string_end(
                    old(self).bytes(),
                    old(self).pos() + 1,
                    old(self).at_line(),
                );
                &&& final(self).pos() == e
                &&& final(self).at_line() == l
                &&& outcome_is(
                    r,
                    if found {
                        Some((TokenKind::String, old(self).pos(), e, old(self).at_line()))
                    } else {
                        None
                    },
                    old(self).bytes(),
                )
            }),
    {
        let ghost b = self.bytes();
        let ghost start = self.pos();
        let line = self.line;
        let len = self.as_bytes.len();
        self.checkpoint();
        self.advance_byte();
        loop
            invariant
                self.wf(),
                self.as_bytes@.len() == len,
                self.bytes() == b,
                self.src() == old(self).src(),
                self.mark() == start,
                b == old(self).bytes(),
                start == old(self).pos(),
                line == old(self).at_line(),
                b[start] == 34,
                start < self.pos() <= len,
                string_end(b, self.pos(), self.at_line()) == string_end(b, start + 1, line as int),
            decreases len - self.current,
        {
            match self.take_byte() {
                Some(c) => {
                    if c == 34 {
                        return Some(self.token_from(TokenKind::String, line));
                    }
                    if is_newline(c) {
                        self.advance_line();
                    }
                },
                None => {
                    return None;
                },
            }
        }
    }

    /// A run of digits.
    fn make_number(&mut self) -> (r: Option<Token<'a>>)
        requires
            old(self).wf(),
            old(self).pos() < old(self).bytes().len(),
            is_digit_byte(old(self).bytes()[old(self).pos()]),
        ensures
            final(self).wf(),
            final(self).bytes() == old(self).bytes(),
            final(self).src() == old(self).src(),
            final(self).at_line() == old(self).at_line(),
            final(self).pos() == digits_end(old(self).bytes(), old(self).pos()),
            outcome_is(
                r,
                Some(
                    (
                        TokenKind::Number,
                        old(self).pos(),
                        digits_end(old(self).bytes(), old(self).pos()),
                        old(self).at_line(),
                    ),
                ),
                old(self).bytes(),
            ),
    {
        let ghost b = self.bytes();
        let ghost start = self.pos();
        let len = self.as_bytes.len();
        self.checkpoint();
        self.advance_byte();
        while self.current < len && is_digit(self.as_bytes[self.current])
            invariant
                self.wf(),
                self.as_bytes@.len() == len,
                self.bytes() == b,
                b == old(self).bytes(),
                start == old(self).pos(),
                self.src() == old(self).src(),
                self.at_line() == old(self).at_line(),
                self.mark() == start,
                start < self.pos() <= len,
                is_digit_byte(b[self.pos() - 1]),
                digits_end(b, self.pos()) == digits_end(b, start),
            decreases len - self.current,
        {
            self.advance_byte();
        }
        Some(self.create_token(TokenKind::Number))
    }

    /// A run of letters, digits and underscores that is not a reserved word.
    fn make_identifier(&mut self) -> (r: Option<Token<'a>>)
        requires
            old(self).wf(),
            old(self).pos() < old(self).bytes().len(),
            is_alpha_byte(old(self).bytes()[old(self).pos()]),
        ensures
            final(self).wf(),
            final(self).bytes() == old(self).bytes(),
            final(self).src() == old(self).src(),
            final(self).at_line() == old(self).at_line(),
            final(self).pos() == word_end(old(self).bytes(), old(self).pos()),
            outcome_is(
                r,
                Some(
                    (
                        TokenKind::Identifier,
                        old(self).pos(),
                        word_end(old(self).bytes(), old(self).pos()),
                        old(self).at_line(),
                    ),
                ),
                old(self).bytes(),
            ),
    {
        let ghost b = self.bytes();
        let ghost start = self.pos();
        let len = self.as_bytes.len();
        self.checkpoint();
        self.advance_byte();
        while self.current < len && (is_alphabetic_or_underscore(self.as_bytes[self.current]) || is_digit(
            self.as_bytes[self.current],
        ))
            invariant
                self.wf(),
                self.as_bytes@.len() == len,
                self.bytes() == b,
                b == old(self).bytes(),
                start == old(self).pos(),
                self.src() == old(self).src(),
                self.at_line() == old(self).at_line(),
                self.mark() == start,
                start < self.pos() <= len,
                is_word_byte(b[self.pos() - 1]),
                word_end(b, self.pos()) == word_end(b, start),
            decreases len - self.current,
        {
            self.advance_byte();
        }
        Some(self.create_token(TokenKind::Identifier))
    }

    /// The next token, or `None` when the stream has ended: at the end of
    /// the input, at an unterminated string, or at a byte that starts no
    /// token.
    pub fn token(&mut self) -> (r: Option<Token<'a>>)
        requires
            old(self).wf(),
        ensures
            final(self).wf(),
            final(self).bytes() == old(self).bytes(),
            final(self).src() == old(self).src(),
            ({
                let (t, p, l) = scan(old(self).bytes(), old(self).pos(), old(self).at_line());
                &&& outcome_is(r, t, old(self).bytes())
                &&& final(self).pos() == p
                &&& final(self).at_line() == l
            }),
    {
        let ghost b = self.bytes();
        let len = self.as_bytes.len();
        if self.current >= len {
            return None;
        }
        let mut skipping = true;
        while skipping
            invariant
                self.wf(),
                self.as_bytes@.len() == len,
                self.bytes() == b,
                b == old(self).bytes(),
                self.src() == old(self).src(),
                self.pos() <= len,
                skip_trivia(b, self.pos(), self.at_line(), false) == skip_trivia(
                    b,
                    old(self).pos(),
                    old(self).at_line(),
                    false,
                ),
                !skipping ==> skip_trivia(b, self.pos(), self.at_line(), false) == (
                    self.pos(),
                    self.at_line(),
                ),
            decreases (len - self.current) as int + (if skipping { 1int } else { 0int }),
        {
            if self.current < len {
                let c = self.as_bytes[self.current];
                if is_whitespace(c) {
                    self.take_whitespace();
                } else if c == 47 && self.current + 1 < len && self.as_bytes[self.current + 1]
                    == 47 {
                    self.take_comment();
                } else {
                    skipping = false;
                }
            } else {
                skipping = false;
            }
        }
        let ghost p = self.pos();
        let ghost l = self.at_line();
        let c = match self.peek_byte() {
            Some(c) => c,
            None => {
                return None;
            },
        };
        let single = if c == 40 {
            Some(TokenKind::LeftParen)
        } else if c == 41 {
            Some(TokenKind::RightParen)
        } else if c == 123 {
            Some(TokenKind::LeftBrace)
        } else if c == 125 {
            Some(TokenKind::RightBrace)
        } else if c == 59 {
            Some(TokenKind::Semicolon)
        } else if c == 44 {
            Some(TokenKind::Comma)
        } else if c == 46 {
            Some(TokenKind::Dot)
        } else if c == 45 {
            Some(TokenKind::Minus)
        } else if c == 43 {
            Some(TokenKind::Plus)
        } else if c == 42 {
            Some(TokenKind::Star)
        } else if c == 47 {
            Some(TokenKind::Slash)
        } else {
            None
        };
        assert(single == single_kind(c));
        if let Some(kind) = single {
            return self.make_token_with_length(kind, 1);
        }
        let pair = if c == 33 {
            Some((TokenKind::Bang, TokenKind::BangEqual))
        } else if c == 61 {
            Some((TokenKind::Equal, TokenKind::EqualEqual))
        } else if c == 60 {
            Some((TokenKind::Less, TokenKind::LessEqual))
        } else if c == 62 {
            Some((TokenKind::Greater, TokenKind::GreaterEqual))
        } else {
            None
        };
        assert(pair == pair_kinds(c));
        if let Some((one, two)) = pair {
            if self.current + 1 < len && self.as_bytes[self.current + 1] == 61 {
                return self.make_token_with_length(two, 2);
            } else {
                return self.make_token_with_length(one, 1);
            }
        }
        if c == 34 {
            return self.make_string();
        }
        if is_digit(c) {
            return self.make_number();
        }
        let mut i: usize = 0;
        while i < 16
            invariant
                self.wf(),
                self.as_bytes@.len() == len,
                self.bytes() == b,
                self.src() == old(self).src(),
                self.pos() == p,
                self.at_line() == l,
                b == old(self).bytes(),
                skip_trivia(b, old(self).pos(), old(self).at_line(), false) == (p, l),
                0 <= p < len,
                b[p] == c,
                single_kind(c).is_none(),
                pair_kinds(c).is_none(),
                c != 34,
                !is_digit_byte(c),
                0 <= i <= 16,
                reserved_words().len() == 16,
                reserved_from(b, p, 0) == reserved_from(b, p, i as int),
            decreases 16 - i,
        {
            let (word, kind) = reserved_word(i);
            if self.match_bytes(word) {
                assert(b.subrange(p, p + word@.len())[0] == b[p]);
                assert(b.subrange(p, p + word@.len())[word@.len() - 1] == b[p + word@.len() - 1]);
                return self.make_token_with_length(kind, word.len());
            }
            i = i + 1;
        }
        if is_alphabetic_or_underscore(c) {
            return self.make_identifier();
        }
        None
    }

    /// The next token of the stream (see `token`).
    pub fn next(&mut self) -> (r: Option<Token<'a>>)
        requires
            old(self).wf(),
        ensures
            final(self).wf(),
            final(self).bytes() == old(self).bytes(),
            final(self).src() == old(self).src(),
            ({
                let (t, p, l) = scan(old(self).bytes(), old(self).pos(), old(self).at_line());
                &&& outcome_is(r, t, old(self).bytes())
                &&& final(self).pos() == p
                &&& final(self).at_line() == l
            }),
    {
        self.token()
    }
    /// The rest of the token stream, in order.
    pub fn tokens(&mut self) -> (r: Vec<Token<'a>>)
        requires
            old(self).wf(),
            old(self).pos() <= old(self).bytes().len(),
        ensures
            final(self).wf(),
            ({
                let all = scan_all(old(self).bytes(), old(self).pos(), old(self).at_line());
                &&& r@.len() == all.len()
                &&& forall|i: int| 0 <= i < all.len() ==> token_is(#[trigger] r@[i], all[i], old(self).bytes())
            }),
    {
        let ghost b = self.bytes();
        let ghost all = scan_all(b, self.pos(), self.at_line());
        let mut out: Vec<Token<'a>> = Vec::new();
        let len = self.as_bytes.len();
        loop
            invariant
                self.wf(),
                self.bytes() == b,
                b == old(self).bytes(),
                all == scan_all(old(self).bytes(), old(self).pos(), old(self).at_line()),
                b.len() == len,
                self.pos() <= len,
                out@.len() <= all.len(),
                scan_all(b, self.pos(), self.at_line()) == all.subrange(out@.len() as int, all.len() as int),
                forall|i: int| 0 <= i < out@.len() ==> token_is(#[trigger] out@[i], all[i], b),
            decreases len - self.current,
        {
            let ghost rest = scan_all(b, self.pos(), self.at_line());
            let ghost p0 = self.pos();
            let ghost l0 = self.at_line();
            let ghost k = out@.len() as int;
            proof {
                lemma_scan_progress(b, p0, l0);
            }
            match self.next() {
                Some(t) => {
                    assert(scan(b, p0, l0).0 is Some);
                    assert(rest == seq![scan(b, p0, l0).0->Some_0] + scan_all(b, self.pos(), self.at_line()));
                    assert(rest[0] == all[k]);
                    out.push(t);
                    assert(scan_all(b, self.pos(), self.at_line()) =~= rest.subrange(1, rest.len() as int));
                    assert(scan_all(b, self.pos(), self.at_line()) =~= all.subrange(
                        out@.len() as int,
                        all.len() as int,
                    ));
                },
                None => {
                    assert(scan(b, p0, l0).0 is None);
                    assert(rest.len() == 0);
                    return out;
                },
            }
        }
    }
}

// ---------------------------------------------------------------------------
// Progress of the scanner
// ---------------------------------------------------------------------------

proof fn lemma_skip_bounds(b: Seq<u8>, p: int, line: int, c: bool)
    requires
        0 <= p <= b.len(),
    ensures
        p <= skip_trivia(b, p, line, c).0 <= b.len(),
    decreases b.len() - p,
{
    if p < b.len() {
        if c {
            lemma_skip_bounds(b, p + 1, if b[p] == 10 { line + 1 } else { line }, b[p] != 10);
        } else if is_space_byte(b[p]) {
            lemma_skip_bounds(b, p + 1, if b[p] == 10 { line + 1 } else { line }, false);
        } else if b[p] == 47 && p + 1 < b.len() && b[p + 1] == 47 {
            lemma_skip_bounds(b, p + 2, line, true);
        }
    }
}

proof fn lemma_run_bounds(b: Seq<u8>, p: int)
    requires
        0 <= p <= b.len(),
    ensures
        p <= digits_end(b, p) <= b.len(),
        p <= word_end(b, p) <= b.len(),
    decreases b.len() - p,
{
    if p < b.len() {
        lemma_run_bounds(b, p + 1);
    }
}

proof fn lemma_string_bounds(b: Seq<u8>, p: int, line: int)
    requires
        0 <= p <= b.len(),
    ensures
        p <= string_end(b, p, line).0 <= b.len(),
        string_end(b, p, line).2 ==> p < string_end(b, p, line).0,
    decreases b.len() - p,
{
    if p < b.len() && b[p] != 34 {
        lemma_string_bounds(b, p + 1, if b[p] == 10 { line + 1 } else { line });
    }
}

proof fn lemma_reserved_bounds(b: Seq<u8>, p: int, i: int)
    requires
        0 <= p <= b.len(),
        0 <= i,
    ensures
        reserved_from(b, p, i) is Some ==> 0 < reserved_from(b, p, i).unwrap().1 && p
            + reserved_from(b, p, i).unwrap().1 <= b.len(),
    decreases reserved_words().len() - i,
{
    if i < reserved_words().len() {
        if !word_at(b, p, reserved_words()[i].0) {
            lemma_reserved_bounds(b, p, i + 1);
        } else {
            assert(reserved_words()[0].0.len() > 0);
            assert(reserved_words()[1].0.len() > 0);
            assert(reserved_words()[2].0.len() > 0);
            assert(reserved_words()[3].0.len() > 0);
            assert(reserved_words()[4].0.len() > 0);
            assert(reserved_words()[5].0.len() > 0);
            assert(reserved_words()[6].0.len() > 0);
            assert(reserved_words()[7].0.len() > 0);
            assert(reserved_words()[8].0.len() > 0);
            assert(reserved_words()[9].0.len() > 0);
            assert(reserved_words()[10].0.len() > 0);
            assert(reserved_words()[11].0.len() > 0);
            assert(reserved_words()[12].0.len() > 0);
            assert(reserved_words()[13].0.len() > 0);
            assert(reserved_words()[14].0.len() > 0);
            assert(reserved_words()[15].0.len() > 0);
        }
    }
}

/// A scanner step from inside the input stays inside it, and a step that
/// yields a token moves forward.
pub proof fn lemma_scan_progress(b: Seq<u8>, p: int, line: int)
    requires
        0 <= p <= b.len(),
    ensures
        ({
            let (t, q, l) = scan(b, p, line);
            &&& p <= q <= b.len()
            &&& t is Some ==> p < q
            &&& t matches Some(sp) ==> p <= sp.1 < sp.2 && sp.2 == q
        }),
{
    lemma_skip_bounds(b, p, line, false);
    let (q, l) = skip_trivia(b, p, line, false);
    if 0 <= q < b.len() {
        lemma_run_bounds(b, q);
        lemma_run_bounds(b, q + 1);
        lemma_string_bounds(b, q + 1, l);
        lemma_reserved_bounds(b, q, 0);
    }
}

// ---------------------------------------------------------------------------
// Words end at a boundary
// ---------------------------------------------------------------------------

proof fn lemma_word_end_boundary(b: Seq<u8>, p: int)
    requires
        0 <= p <= b.len(),
    ensures
        word_end(b, p) == b.len() || !is_word_byte(b[word_end(b, p)]),
    decreases b.len() - p,
{
    lemma_run_bounds(b, p);
    if p < b.len() && is_word_byte(b[p]) {
        lemma_word_end_boundary(b, p + 1);
    }
}

proof fn lemma_reserved_boundary(b: Seq<u8>, p: int, i: int)
    requires
        0 <= p <= b.len(),
        0 <= i,
    ensures
        reserved_from(b, p, i) matches Some((k, n)) ==> p + n == b.len() || !is_word_byte(
            b[p + n],
        ),
    decreases reserved_words().len() - i,
{
    if i < reserved_words().len() && !word_at(b, p, reserved_words()[i].0) {
        lemma_reserved_boundary(b, p, i + 1);
    }
}

/// A token that starts with a letter or `_` (a reserved word or an
/// identifier) is followed by the end of the input or by a byte that
/// cannot continue a word: `andand` is one identifier, never `and` twice,
/// and a reserved word is only recognized when whitespace, punctuation or
/// the end separates it from what follows.
pub proof fn lemma_words_end_at_boundary(b: Seq<u8>, p: int, line: int)
    requires
        0 <= p <= b.len(),
    ensures
        ({
            let (t, q, l) = scan(b, p, line);
            t is Some && is_alpha_byte(b[t->Some_0.1]) ==> t->Some_0.2 == b.len()
                || !is_word_byte(b[t->Some_0.2])
        }),
{
    lemma_skip_bounds(b, p, line, false);
    let (q, l) = skip_trivia(b, p, line, false);
    if 0 <= q < b.len() {
        lemma_word_end_boundary(b, q);
        lemma_reserved_boundary(b, q, 0);
    }
}

} // verus!
